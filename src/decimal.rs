use vstd::prelude::*;
use vstd::string::*;

verus! {

/// The number of hundred-thousandths in one unit.
pub const SCALE: i64 = 100000;

/// A signed decimal number with five fractional digits, held as a count of
/// hundred-thousandths.
#[derive(Clone, Copy, Debug, PartialEq, Eq, Structural)]
pub struct Decimal {
    pub units: i64,
}

/// The character of a decimal digit.
pub open spec fn digit_char(d: nat) -> char {
    if d == 0 { '0' }
    else if d == 1 { '1' }
    else if d == 2 { '2' }
    else if d == 3 { '3' }
    else if d == 4 { '4' }
    else if d == 5 { '5' }
    else if d == 6 { '6' }
    else if d == 7 { '7' }
    else if d == 8 { '8' }
    else { '9' }
}

/// The decimal digits of `n`, most significant first, with no leading zero.
pub open spec fn digits(n: nat) -> Seq<char>
    decreases n,
{
    if n < 10 {
        seq![digit_char(n)]
    } else {
        digits(n / 10).push(digit_char(n % 10))
    }
}

/// `n` (below one hundred thousand) written as exactly five digits.
pub open spec fn five_digits(n: nat) -> Seq<char> {
    seq![
        digit_char(n / 10000),
        digit_char((n / 1000) % 10),
        digit_char((n / 100) % 10),
        digit_char((n / 10) % 10),
        digit_char(n % 10),
    ]
}

/// `s` without its trailing `'0'` characters.
pub open spec fn trim_zeros(s: Seq<char>) -> Seq<char>
    decreases s.len(),
{
    if s.len() > 0 && s.last() == '0' {
        trim_zeros(s.drop_last())
    } else {
        s
    }
}

impl Decimal {
    /// The value in hundred-thousandths.
    pub open spec fn value(self) -> int {
        self.units as int
    }

    pub open spec fn magnitude(self) -> nat {
        if self.units < 0 { (-self.units) as nat } else { self.units as nat }
    }

    pub open spec fn sign(self) -> Seq<char> {
        if self.units < 0 { seq!['-'] } else { seq![] }
    }

    /// Written with exactly five fractional digits: `2.00000`, `-0.50000`.
    pub open spec fn spec_fixed(self) -> Seq<char> {
        self.sign() + digits(self.magnitude() / 100000) + seq!['.'] + five_digits(
            self.magnitude() % 100000,
        )
    }

    /// Written in the shortest form: `2`, `0.5`, `-1.25`.
    pub open spec fn spec_short(self) -> Seq<char> {
        let frac = self.magnitude() % 100000;
        if frac == 0 {
            self.sign() + digits(self.magnitude() / 100000)
        } else {
            self.sign() + digits(self.magnitude() / 100000) + seq!['.'] + trim_zeros(
                five_digits(frac),
            )
        }
    }

    pub fn from_units(units: i64) -> (r: Decimal)
        ensures
            r.value() == units,
    {
        Decimal { units }
    }

    /// The whole number `n`.
    pub fn whole(n: i32) -> (r: Decimal)
        ensures
            r.value() == n * 100000,
    {
        Decimal { units: (n as i64) * SCALE }
    }

    pub fn zero() -> (r: Decimal)
        ensures
            r.value() == 0,
    {
        Decimal { units: 0 }
    }

    fn magnitude_exec(self) -> (r: u64)
        ensures
            r == self.magnitude(),
    {
        if self.units < 0 {
            (-(self.units as i128)) as u64
        } else {
            self.units as u64
        }
    }

    fn push_sign(self, s: &mut String)
        ensures
            final(s)@ == old(s)@ + self.sign(),
    {
        if self.units < 0 {
            s.append("-");
            proof {
                reveal_strlit("-");
            }
        } else {
            assert(old(s)@ + self.sign() =~= old(s)@);
        }
    }

    /// The number with exactly five fractional digits.
    pub fn to_fixed(self) -> (r: String)
        ensures
            r@ == self.spec_fixed(),
    {
        let m = self.magnitude_exec();
        let mut s = String::new();
        self.push_sign(&mut s);
        push_digits(&mut s, m / 100000);
        s.append(".");
        proof {
            reveal_strlit(".");
        }
        push_five_digits(&mut s, m % 100000);
        assert(s@ =~= self.spec_fixed());
        s
    }

    /// The number in its shortest form.
    pub fn to_short(self) -> (r: String)
        ensures
            r@ == self.spec_short(),
    {
        let m = self.magnitude_exec();
        let mut s = String::new();
        self.push_sign(&mut s);
        push_digits(&mut s, m / 100000);
        let frac = m % 100000;
        if frac != 0 {
            s.append(".");
            proof {
                reveal_strlit(".");
            }
            let mut tail = String::new();
            push_five_digits(&mut tail, frac);
            let trimmed = trim_trailing_zeros(&tail);
            s.append(trimmed.as_str());
        }
        assert(s@ =~= self.spec_short());
        s
    }
}

/// The one-character text of digit `d`.
fn digit_str(d: u64) -> (r: &'static str)
    requires
        d < 10,
    ensures
        r@ == seq![digit_char(d as nat)],
{
    if d == 0 {
        proof { reveal_strlit("0"); }
        "0"
    } else if d == 1 {
        proof { reveal_strlit("1"); }
        "1"
    } else if d == 2 {
        proof { reveal_strlit("2"); }
        "2"
    } else if d == 3 {
        proof { reveal_strlit("3"); }
        "3"
    } else if d == 4 {
        proof { reveal_strlit("4"); }
        "4"
    } else if d == 5 {
        proof { reveal_strlit("5"); }
        "5"
    } else if d == 6 {
        proof { reveal_strlit("6"); }
        "6"
    } else if d == 7 {
        proof { reveal_strlit("7"); }
        "7"
    } else if d == 8 {
        proof { reveal_strlit("8"); }
        "8"
    } else {
        proof { reveal_strlit("9"); }
        "9"
    }
}

/// Appends the decimal digits of `n`.
pub fn push_digits(s: &mut String, n: u64)
    ensures
        final(s)@ == old(s)@ + digits(n as nat),
    decreases n,
{
    if n >= 10 {
        push_digits(s, n / 10);
    }
    s.append(digit_str(n % 10));
    assert(final(s)@ =~= old(s)@ + digits(n as nat));
}

fn push_five_digits(s: &mut String, n: u64)
    requires
        n < 100000,
    ensures
        final(s)@ == old(s)@ + five_digits(n as nat),
{
    s.append(digit_str(n / 10000));
    s.append(digit_str((n / 1000) % 10));
    s.append(digit_str((n / 100) % 10));
    s.append(digit_str((n / 10) % 10));
    s.append(digit_str(n % 10));
    assert(final(s)@ =~= old(s)@ + five_digits(n as nat));
}

/// A copy of `s` without its trailing zeros.
fn trim_trailing_zeros(s: &String) -> (r: String)
    ensures
        r@ == trim_zeros(s@),
{
    let n = s.as_str().unicode_len();
    let mut end: usize = n;
    assert(s@.subrange(0, n as int) =~= s@);
    while end > 0 && s.as_str().get_char(end - 1) == '0'
        invariant
            end <= n,
            n == s@.len(),
            trim_zeros(s@.subrange(0, end as int)) == trim_zeros(s@),
        decreases end,
    {
        assert(s@.subrange(0, end as int).drop_last() =~= s@.subrange(0, end - 1));
        end = end - 1;
    }
    assert(trim_zeros(s@.subrange(0, end as int)) == s@.subrange(0, end as int));
    s.as_str().substring_char(0, end).to_string()
}

proof fn lemma_digits_shape(n: nat)
    ensures
        digits(n).len() >= 1,
        digits(n).last() == digit_char(n % 10),
        n < 10 ==> digits(n).len() == 1,
        n >= 10 ==> digits(n).len() >= 2 && digits(n).drop_last() == digits(n / 10),
    decreases n,
{
    if n >= 10 {
        lemma_digits_shape(n / 10);
        assert(digits(n).drop_last() =~= digits(n / 10));
    }
}

/// Different numbers have different decimal digits.
pub proof fn lemma_digits_injective(a: nat, b: nat)
    requires
        digits(a) == digits(b),
    ensures
        a == b,
    decreases a,
{
    lemma_digits_shape(a);
    lemma_digits_shape(b);
    assert(digit_char(a % 10) == digit_char(b % 10));
    assert(a % 10 == b % 10);
    if a >= 10 && b >= 10 {
        lemma_digits_injective(a / 10, b / 10);
        vstd::arithmetic::div_mod::lemma_fundamental_div_mod(a as int, 10);
        vstd::arithmetic::div_mod::lemma_fundamental_div_mod(b as int, 10);
    }
}

} // verus!
