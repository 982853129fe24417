use vstd::prelude::*;
use vstd::string::*;

use crate::builder::{merge, ExprValue, ShaderBuilder};
use crate::decimal::{digits, push_digits, Decimal};
use crate::error::ShaderError;
use crate::shape::ShaderIO;

verus! {

/// The kinds of node that a shader graph is made of.
#[derive(Clone, Copy, Debug, PartialEq, Eq, Structural)]
pub enum ShaderNodes {
    /// One lane of its input, taken as a four-lane vector.
    Component,
    /// Its input widened by one lane, padded with the given number.
    Extend(Decimal),
    /// A preview: its input, unchanged, which it also passes on.
    MaterialPreview,
    /// The surface normal, or one of its lanes.
    Normal,
    /// A debug sink: its input, unchanged; the pass also emits the whole shader.
    Print,
    /// Its input clamped into zero to one, lane by lane.
    Saturate,
    /// The bound texture sampled at the UV, or one of its channels.
    Texture,
    /// The UV coordinates, or one of their lanes.
    UV,
    /// A four-lane vector made from four scalars.
    Vector,
}

/// `let <var> = <expr>;`
pub open spec fn let_stmt(var: Seq<char>, expr: Seq<char>) -> Seq<char> {
    "let "@ + var + " = "@ + expr + ";"@
}

/// `<var>_<suffix>`
pub open spec fn suffixed(var: Seq<char>, suffix: Seq<char>) -> Seq<char> {
    var + "_"@ + suffix
}

/// A built-in value of shape `shape` named `name`, or, for any output but the
/// first, the lane of it that the output is named after.
pub open spec fn builtin(name: Seq<char>, shape: ShaderIO, i: nat, lane: Seq<char>) -> ExprValue {
    if i == 0 {
        ExprValue { lines: seq![], output: shape, var: name }
    } else {
        ExprValue {
            lines: seq![let_stmt(suffixed(name, lane), name + "."@ + lane)],
            output: ShaderIO::F32,
            var: suffixed(name, lane),
        }
    }
}

/// The statement that samples the texture.
pub open spec fn sample_stmt() -> Seq<char> {
    "let texture_color = textureSample(texture, texture_sampler, uv);"@
}

/// The name of the vector that a Vector node makes with serial number `serial`.
pub open spec fn vector_name(serial: nat) -> Seq<char> {
    "vec_"@ + digits(serial)
}

/// Input `x` as a scalar.
pub open spec fn scalar_of(x: ExprValue) -> Seq<char> {
    x.output.spec_transform(ShaderIO::F32, x.var, Decimal { units: 0 })
}

impl ShaderNodes {
    /// The names of the input sockets.
    pub open spec fn input_names(self) -> Seq<Seq<char>> {
        match self {
            ShaderNodes::Component => seq!["value"@],
            ShaderNodes::Extend(_) => seq!["value"@],
            ShaderNodes::MaterialPreview => seq!["input"@],
            ShaderNodes::Normal => seq![],
            ShaderNodes::Print => seq!["output"@],
            ShaderNodes::Saturate => seq!["value"@],
            ShaderNodes::Texture => seq![],
            ShaderNodes::UV => seq![],
            ShaderNodes::Vector => seq!["x"@, "y"@, "z"@, "w"@],
        }
    }

    /// The names of the output sockets.
    pub open spec fn output_names(self) -> Seq<Seq<char>> {
        match self {
            ShaderNodes::Component => seq!["x"@, "y"@, "z"@, "w"@],
            ShaderNodes::Extend(_) => seq!["vec"@],
            ShaderNodes::MaterialPreview => seq!["output"@],
            ShaderNodes::Normal => seq!["normal"@, "x"@, "y"@, "z"@],
            ShaderNodes::Print => seq![],
            ShaderNodes::Saturate => seq!["saturated"@],
            ShaderNodes::Texture => seq!["color"@, "r"@, "g"@, "b"@],
            ShaderNodes::UV => seq!["uv"@, "x"@, "y"@],
            ShaderNodes::Vector => seq!["vec"@],
        }
    }

    /// Whether `output` names a result of this kind: the index of one of its
    /// output sockets, or none where the result does not depend on the socket.
    pub open spec fn valid_output(self, output: Option<usize>) -> bool {
        match output {
            Some(i) => i < self.output_names().len(),
            None => self.output_names().len() <= 1,
        }
    }

    /// The value that this kind computes from its inputs, on output `output`;
    /// `serial` numbers the vector that a Vector node makes.
    pub open spec fn spec_resolve(self, ins: Seq<ExprValue>, output: Option<usize>, serial: nat) -> Result<
        ExprValue,
        ShaderError,
    > {
        if !self.valid_output(output) {
            Err(ShaderError::UnknownOutputSocket)
        } else {
            let i: nat = match output {
                Some(i) => i as nat,
                None => 0,
            };
            let lane = self.output_names()[i as int];
            Ok(
                match self {
                    ShaderNodes::Component => {
                        let x = ins[0];
                        let v = suffixed(x.var, lane);
                        ExprValue {
                            lines: x.lines.push(
                                let_stmt(
                                    v,
                                    x.output.spec_transform(ShaderIO::Vec4, x.var, Decimal { units: 0 })
                                        + "."@ + lane,
                                ),
                            ),
                            output: ShaderIO::F32,
                            var: v,
                        }
                    },
                    ShaderNodes::Extend(amount) => {
                        let x = ins[0];
                        let v = suffixed(x.var, "extend"@);
                        let t = x.output.spec_extend();
                        ExprValue {
                            lines: x.lines.push(
                                let_stmt(v, x.output.spec_transform(t, x.var, amount)),
                            ),
                            output: t,
                            var: v,
                        }
                    },
                    ShaderNodes::MaterialPreview => ins[0],
                    ShaderNodes::Normal => builtin("world_normal"@, ShaderIO::Vec3, i, lane),
                    ShaderNodes::Print => ins[0],
                    ShaderNodes::Saturate => {
                        let x = ins[0];
                        let v = suffixed(x.var, "saturate"@);
                        ExprValue {
                            lines: x.lines.push(
                                let_stmt(
                                    v,
                                    "clamp("@ + x.var + ", "@ + x.output.spec_fill(
                                        Decimal { units: 0 },
                                    ) + ", "@ + x.output.spec_fill(Decimal { units: 100000 })
                                        + ")"@,
                                ),
                            ),
                            output: x.output,
                            var: v,
                        }
                    },
                    ShaderNodes::Texture => {
                        let sampled = builtin("texture_color"@, ShaderIO::Vec4, i, lane);
                        ExprValue {
                            lines: seq![sample_stmt()] + sampled.lines,
                            output: sampled.output,
                            var: sampled.var,
                        }
                    },
                    ShaderNodes::UV => builtin("uv"@, ShaderIO::Vec2, i, lane),
                    ShaderNodes::Vector => {
                        let v = vector_name(serial);
                        ExprValue {
                            lines: all_lines(ins) + seq![
                                let_stmt(
                                    v,
                                    "vec4("@ + scalar_of(ins[0]) + ", "@ + scalar_of(ins[1])
                                        + ", "@ + scalar_of(ins[2]) + ", "@ + scalar_of(ins[3])
                                        + ")"@,
                                ),
                            ],
                            output: ShaderIO::Vec4,
                            var: v,
                        }
                    },
                },
            )
        }
    }
}

impl ShaderNodes {
    /// How many input sockets this kind has.
    pub fn input_count(&self) -> (r: usize)
        ensures
            r == self.input_names().len(),
    {
        match self {
            ShaderNodes::Vector => 4,
            ShaderNodes::Normal | ShaderNodes::Texture | ShaderNodes::UV => 0,
            _ => 1,
        }
    }

    /// How many output sockets this kind has.
    pub fn output_count(&self) -> (r: usize)
        ensures
            r == self.output_names().len(),
    {
        match self {
            ShaderNodes::Component | ShaderNodes::Normal | ShaderNodes::Texture => 4,
            ShaderNodes::UV => 3,
            ShaderNodes::Print => 0,
            _ => 1,
        }
    }

    /// The name of input socket `i`.
    pub fn input_name(&self, i: usize) -> (r: &'static str)
        requires
            i < self.input_names().len(),
        ensures
            r@ == self.input_names()[i as int],
    {
        match self {
            ShaderNodes::Vector => {
                if i == 0 {
                    "x"
                } else if i == 1 {
                    "y"
                } else if i == 2 {
                    "z"
                } else {
                    "w"
                }
            },
            ShaderNodes::MaterialPreview => "input",
            ShaderNodes::Print => "output",
            _ => "value",
        }
    }

    /// The name of output socket `i`.
    pub fn output_name(&self, i: usize) -> (r: &'static str)
        requires
            i < self.output_names().len(),
        ensures
            r@ == self.output_names()[i as int],
    {
        match self {
            ShaderNodes::Component => {
                if i == 0 {
                    "x"
                } else if i == 1 {
                    "y"
                } else if i == 2 {
                    "z"
                } else {
                    "w"
                }
            },
            ShaderNodes::Normal => {
                if i == 0 {
                    "normal"
                } else if i == 1 {
                    "x"
                } else if i == 2 {
                    "y"
                } else {
                    "z"
                }
            },
            ShaderNodes::Texture => {
                if i == 0 {
                    "color"
                } else if i == 1 {
                    "r"
                } else if i == 2 {
                    "g"
                } else {
                    "b"
                }
            },
            ShaderNodes::UV => {
                if i == 0 {
                    "uv"
                } else if i == 1 {
                    "x"
                } else {
                    "y"
                }
            },
            ShaderNodes::Saturate => "saturated",
            ShaderNodes::MaterialPreview => "output",
            _ => "vec",
        }
    }

    /// Whether `output` names a result of this kind.
    pub fn is_valid_output(&self, output: Option<usize>) -> (r: bool)
        ensures
            r == self.valid_output(output),
    {
        match output {
            Some(i) => i < self.output_count(),
            None => self.output_count() <= 1,
        }
    }

    /// Whether resolving this kind also emits the whole shader.
    pub open spec fn spec_emits(self) -> bool {
        self == ShaderNodes::Print
    }

    pub fn emits(&self) -> (r: bool)
        ensures
            r == self.spec_emits(),
    {
        match self {
            ShaderNodes::Print => true,
            _ => false,
        }
    }
}

/// `let <var> = <expr>;`
fn let_line(var: &str, expr: &str) -> (r: String)
    ensures
        r@ == let_stmt(var@, expr@),
{
    let mut s = String::from_str("let ");
    s.append(var);
    s.append(" = ");
    s.append(expr);
    s.append(";");
    s
}

/// `<var>_<suffix>`
fn suffix_name(var: &str, suffix: &str) -> (r: String)
    ensures
        r@ == suffixed(var@, suffix@),
{
    let mut s = var.to_string();
    s.append("_");
    s.append(suffix);
    s
}

fn builtin_value(name: &str, shape: ShaderIO, i: usize, lane: &str) -> (r: ShaderBuilder)
    ensures
        r@ == builtin(name@, shape, i as nat, lane@),
{
    let mut r = ShaderBuilder::zero();
    if i == 0 {
        r.bind(name.to_string(), shape);
    } else {
        let v = suffix_name(name, lane);
        let mut e = name.to_string();
        e.append(".");
        e.append(lane);
        r.push(let_line(v.as_str(), e.as_str()));
        r.bind(v, ShaderIO::F32);
    }
    assert(r@.lines =~= builtin(name@, shape, i as nat, lane@).lines);
    r
}

/// The values of `bs`.
pub open spec fn views(bs: Seq<ShaderBuilder>) -> Seq<ExprValue> {
    bs.map_values(|b: ShaderBuilder| b@)
}

/// The value of a result.
pub open spec fn view_result(r: Result<ShaderBuilder, ShaderError>) -> Result<ExprValue, ShaderError> {
    match r {
        Ok(b) => Ok(b@),
        Err(e) => Err(e),
    }
}

impl ShaderNodes {
    /// Resolves a node of this kind from the values on its input sockets, in
    /// the order of the sockets, for output `output`. `serial` numbers the
    /// vector that a Vector node makes.
    pub fn resolve(&self, inputs: &Vec<ShaderBuilder>, output: Option<usize>, serial: usize) -> (r:
        Result<ShaderBuilder, ShaderError>)
        requires
            inputs.len() == self.input_names().len(),
        ensures
            view_result(r) == self.spec_resolve(views(inputs@), output, serial as nat),
    {
        if !self.is_valid_output(output) {
            return Err(ShaderError::UnknownOutputSocket);
        }
        let i: usize = match output {
            Some(i) => i,
            None => 0,
        };
        let ghost ins = views(inputs@);
        let ghost spec = self.spec_resolve(ins, output, serial as nat);
        match self {
            ShaderNodes::Component => {
                let lane = self.output_name(i);
                let x = &inputs[0];
                let mut r = x.snapshot();
                let v = suffix_name(x.var.as_str(), lane);
                let mut e = x.output.transform(ShaderIO::Vec4, x.var.as_str(), Some(Decimal::zero()));
                e.append(".");
                e.append(lane);
                r.push(let_line(v.as_str(), e.as_str()));
                r.bind(v, ShaderIO::F32);
                assert(r@.lines =~= spec.unwrap().lines);
                Ok(r)
            },
            ShaderNodes::Extend(amount) => {
                let x = &inputs[0];
                let mut r = x.snapshot();
                let t = x.output.extend();
                let v = suffix_name(x.var.as_str(), "extend");
                let e = x.output.transform(t, x.var.as_str(), Some(*amount));
                r.push(let_line(v.as_str(), e.as_str()));
                r.bind(v, t);
                assert(r@.lines =~= spec.unwrap().lines);
                Ok(r)
            },
            ShaderNodes::MaterialPreview | ShaderNodes::Print => Ok(inputs[0].snapshot()),
            ShaderNodes::Normal => Ok(builtin_value("world_normal", ShaderIO::Vec3, i, self.output_name(i))),
            ShaderNodes::Saturate => {
                let x = &inputs[0];
                let mut r = x.snapshot();
                let v = suffix_name(x.var.as_str(), "saturate");
                let mut e = String::from_str("clamp(");
                e.append(x.var.as_str());
                e.append(", ");
                e.append(x.output.fill(Decimal::zero()).as_str());
                e.append(", ");
                e.append(x.output.fill(Decimal::from_units(100000)).as_str());
                e.append(")");
                r.push(let_line(v.as_str(), e.as_str()));
                r.bind(v, x.output);
                assert(r@.lines =~= spec.unwrap().lines);
                Ok(r)
            },
            ShaderNodes::Texture => {
                let sampled = builtin_value("texture_color", ShaderIO::Vec4, i, self.output_name(i));
                let mut r = ShaderBuilder::zero();
                r.push(String::from_str("let texture_color = textureSample(texture, texture_sampler, uv);"));
                r.append_lines(&sampled);
                r.bind(sampled.var, sampled.output);
                assert(r@.lines =~= spec.unwrap().lines);
                Ok(r)
            },
            ShaderNodes::UV => Ok(builtin_value("uv", ShaderIO::Vec2, i, self.output_name(i))),
            ShaderNodes::Vector => {
                let mut v = String::from_str("vec_");
                push_digits(&mut v, serial as u64);
                let mut e = String::from_str("vec4(");
                let mut r = ShaderBuilder::zero();
                let mut k: usize = 0;
                while k < 4
                    invariant
                        k <= 4,
                        inputs.len() == 4,
                        ins == views(inputs@),
                        r@.lines == all_lines(ins.take(k as int)),
                        e@ == "vec4("@ + scalars(ins.take(k as int)),
                    decreases 4 - k,
                {
                    let x = &inputs[k];
                    if k > 0 {
                        e.append(", ");
                    }
                    e.append(x.output.transform(ShaderIO::F32, x.var.as_str(), None).as_str());
                    r.merge_lines(x);
                    proof {
                        let t = ins.take(k + 1);
                        assert(t.drop_last() =~= ins.take(k as int));
                        assert(ins.take(k + 1).last() == ins[k as int]);
                    }
                    k = k + 1;
                    assert(e@ =~= "vec4("@ + scalars(ins.take(k as int)));
                }
                e.append(")");
                proof {
                    assert(ins.take(4) =~= ins);
                    assert(ins.drop_last() =~= ins.take(3));
                    assert(ins.take(3).drop_last() =~= ins.take(2));
                    assert(ins.take(2).drop_last() =~= ins.take(1));
                    assert(scalars(ins.take(1)) =~= scalar_of(ins[0]));
                    assert(scalars(ins.take(2)) =~= scalar_of(ins[0]) + ", "@ + scalar_of(ins[1]));
                    assert(scalars(ins.take(3)) =~= scalar_of(ins[0]) + ", "@ + scalar_of(ins[1]) + ", "@ + scalar_of(ins[2]));
                    assert(scalars(ins) =~= scalars(ins.take(3)) + ", "@ + scalar_of(ins[3]));
                    assert(e@ =~= "vec4("@ + scalar_of(ins[0]) + ", "@ + scalar_of(ins[1]) + ", "@
                        + scalar_of(ins[2]) + ", "@ + scalar_of(ins[3]) + ")"@);
                    assert(v@ =~= vector_name(serial as nat));
                }
                r.push(let_line(v.as_str(), e.as_str()));
                r.bind(v, ShaderIO::Vec4);
                assert(r@.lines =~= spec.unwrap().lines);
                Ok(r)
            },
        }
    }
}

/// The statements of all of `xs`, in order, each kept once.
pub open spec fn all_lines(xs: Seq<ExprValue>) -> Seq<Seq<char>>
    decreases xs.len(),
{
    if xs.len() == 0 {
        seq![]
    } else {
        merge(all_lines(xs.drop_last()), xs.last().lines)
    }
}

/// The inputs as scalars, separated by commas.
pub open spec fn scalars(xs: Seq<ExprValue>) -> Seq<char>
    decreases xs.len(),
{
    if xs.len() == 0 {
        seq![]
    } else if xs.len() == 1 {
        scalar_of(xs[0])
    } else {
        scalars(xs.drop_last()) + ", "@ + scalar_of(xs.last())
    }
}

impl Default for ShaderNodes {
    fn default() -> (r: ShaderNodes)
        ensures
            r == ShaderNodes::Print,
    {
        ShaderNodes::Print
    }
}

/// Whether two texts are equal.
pub fn same_text(a: &str, b: &str) -> (r: bool)
    ensures
        r == (a@ == b@),
{
    let n = a.unicode_len();
    if n != b.unicode_len() {
        return false;
    }
    let mut i: usize = 0;
    while i < n
        invariant
            n == a@.len(),
            n == b@.len(),
            i <= n,
            a@.take(i as int) == b@.take(i as int),
        decreases n - i,
    {
        if a.get_char(i) != b.get_char(i) {
            return false;
        }
        assert(a@.take(i + 1) =~= a@.take(i as int).push(a@[i as int]));
        assert(b@.take(i + 1) =~= b@.take(i as int).push(b@[i as int]));
        i = i + 1;
    }
    assert(a@.take(n as int) =~= a@);
    assert(b@.take(n as int) =~= b@);
    true
}

impl ShaderNodes {
    /// The index of the output socket named `name`, if this kind declares one.
    pub fn output_socket(&self, name: &str) -> (r: Option<usize>)
        ensures
            r matches Some(i) ==> i < self.output_names().len() && self.output_names()[i as int] == name@,
            r is None ==> forall|i: int| 0 <= i < self.output_names().len() ==> self.output_names()[i] != name@,
    {
        let count = self.output_count();
        let mut i: usize = 0;
        while i < count
            invariant
                count == self.output_names().len(),
                i <= count,
                forall|j: int| 0 <= j < i ==> self.output_names()[j] != name@,
            decreases count - i,
        {
            if same_text(self.output_name(i), name) {
                return Some(i);
            }
            i = i + 1;
        }
        None
    }

    /// The index of the input socket named `name`, if this kind declares one.
    pub fn input_socket(&self, name: &str) -> (r: Option<usize>)
        ensures
            r matches Some(i) ==> i < self.input_names().len() && self.input_names()[i as int] == name@,
            r is None ==> forall|i: int| 0 <= i < self.input_names().len() ==> self.input_names()[i] != name@,
    {
        let count = self.input_count();
        let mut i: usize = 0;
        while i < count
            invariant
                count == self.input_names().len(),
                i <= count,
                forall|j: int| 0 <= j < i ==> self.input_names()[j] != name@,
            decreases count - i,
        {
            if same_text(self.input_name(i), name) {
                return Some(i);
            }
            i = i + 1;
        }
        None
    }
}

} // verus!
