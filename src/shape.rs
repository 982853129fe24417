use vstd::prelude::*;
use vstd::string::*;

use crate::decimal::Decimal;

verus! {

/// The shape of a shader value: a scalar or a vector of two to four lanes.
#[derive(Clone, Copy, Debug, PartialEq, Eq, Structural)]
pub enum ShaderIO {
    F32,
    Vec2,
    Vec3,
    Vec4,
}

/// The opening of a vector constructor of shape `t`: `vec3<f32>(`.
pub open spec fn ctor(t: ShaderIO) -> Seq<char> {
    match t {
        ShaderIO::F32 => "f32("@,
        ShaderIO::Vec2 => "vec2<f32>("@,
        ShaderIO::Vec3 => "vec3<f32>("@,
        ShaderIO::Vec4 => "vec4<f32>("@,
    }
}

/// The swizzle that keeps the first lanes of a vector, as many as `t` has.
pub open spec fn swizzle(t: ShaderIO) -> Seq<char> {
    match t {
        ShaderIO::F32 => ".x"@,
        ShaderIO::Vec2 => ".xy"@,
        ShaderIO::Vec3 => ".xyz"@,
        ShaderIO::Vec4 => ".xyzw"@,
    }
}

/// The shape with `n` lanes (`n` from one to four).
pub open spec fn shape_of(n: nat) -> ShaderIO {
    if n <= 1 {
        ShaderIO::F32
    } else if n == 2 {
        ShaderIO::Vec2
    } else if n == 3 {
        ShaderIO::Vec3
    } else {
        ShaderIO::Vec4
    }
}

/// The lanes that widening adds, `n` of them, each set to `e`.
pub open spec fn padding(n: nat, e: Decimal) -> Seq<char> {
    if n <= 1 {
        e.spec_fixed()
    } else {
        ctor(shape_of(n)) + e.spec_fixed() + ")"@
    }
}

/// The padding value of a widening: zero when none is given.
pub open spec fn ext_or_zero(e: Option<Decimal>) -> Decimal {
    match e {
        Some(v) => v,
        None => Decimal { units: 0 },
    }
}

impl ShaderIO {
    /// Number of lanes of the shape.
    pub open spec fn arity(self) -> nat {
        match self {
            ShaderIO::F32 => 1,
            ShaderIO::Vec2 => 2,
            ShaderIO::Vec3 => 3,
            ShaderIO::Vec4 => 4,
        }
    }

    /// The shape one lane wider, saturating at four lanes.
    pub open spec fn spec_extend(self) -> ShaderIO {
        match self {
            ShaderIO::F32 => ShaderIO::Vec2,
            ShaderIO::Vec2 => ShaderIO::Vec3,
            _ => ShaderIO::Vec4,
        }
    }

    /// A literal of this shape with every lane set to `value`.
    pub open spec fn spec_fill(self, value: Decimal) -> Seq<char> {
        match self {
            ShaderIO::F32 => value.spec_short(),
            _ => ctor(self) + value.spec_fixed() + ")"@,
        }
    }

    /// An expression of shape `target` made from the variable `var` of this shape:
    /// the variable itself, a constructor that pads it with lanes of `ext`, or a
    /// swizzle of its first lanes.
    pub open spec fn spec_transform(self, target: ShaderIO, var: Seq<char>, ext: Decimal)
        -> Seq<char> {
        if self == target {
            var
        } else if target.arity() > self.arity() {
            ctor(target) + var + ", "@ + padding((target.arity() - self.arity()) as nat, ext)
                + ")"@
        } else {
            var + swizzle(target)
        }
    }

    pub fn extend(self) -> (r: ShaderIO)
        ensures
            r == self.spec_extend(),
            r.arity() == if self.arity() < 4 { self.arity() + 1 } else { 4 },
    {
        match self {
            ShaderIO::F32 => ShaderIO::Vec2,
            ShaderIO::Vec2 => ShaderIO::Vec3,
            ShaderIO::Vec3 => ShaderIO::Vec4,
            ShaderIO::Vec4 => ShaderIO::Vec4,
        }
    }

    pub fn fill(&self, value: Decimal) -> (r: String)
        ensures
            r@ == self.spec_fill(value),
    {
        match self {
            ShaderIO::F32 => value.to_short(),
            _ => {
                let mut s = ctor_text(*self);
                s.append(value.to_fixed().as_str());
                s.append(")");
                s
            },
        }
    }

    /// `extend` defaults to zero.
    pub fn transform(self, target: ShaderIO, var: &str, extend: Option<Decimal>) -> (r: String)
        ensures
            r@ == self.spec_transform(target, var@, ext_or_zero(extend)),
    {
        let ext = match extend {
            Some(e) => e,
            None => Decimal::zero(),
        };
        if self == target {
            var.to_string()
        } else if target.lanes() > self.lanes() {
            let mut s = ctor_text(target);
            s.append(var);
            s.append(", ");
            let gap = target.lanes() - self.lanes();
            if gap == 1 {
                s.append(ext.to_fixed().as_str());
            } else {
                let pad = shape_with(gap);
                s.append(ctor_text(pad).as_str());
                s.append(ext.to_fixed().as_str());
                s.append(")");
            }
            s.append(")");
            s
        } else {
            let mut s = var.to_string();
            s.append(swizzle_text(target));
            s
        }
    }

    fn lanes(self) -> (r: u8)
        ensures
            r == self.arity(),
    {
        match self {
            ShaderIO::F32 => 1,
            ShaderIO::Vec2 => 2,
            ShaderIO::Vec3 => 3,
            ShaderIO::Vec4 => 4,
        }
    }
}

fn shape_with(n: u8) -> (r: ShaderIO)
    ensures
        r == shape_of(n as nat),
{
    if n <= 1 {
        ShaderIO::F32
    } else if n == 2 {
        ShaderIO::Vec2
    } else if n == 3 {
        ShaderIO::Vec3
    } else {
        ShaderIO::Vec4
    }
}

fn ctor_text(t: ShaderIO) -> (r: String)
    ensures
        r@ == ctor(t),
{
    match t {
        ShaderIO::F32 => String::from_str("f32("),
        ShaderIO::Vec2 => String::from_str("vec2<f32>("),
        ShaderIO::Vec3 => String::from_str("vec3<f32>("),
        ShaderIO::Vec4 => String::from_str("vec4<f32>("),
    }
}

fn swizzle_text(t: ShaderIO) -> (r: &'static str)
    ensures
        r@ == swizzle(t),
{
    match t {
        ShaderIO::F32 => ".x",
        ShaderIO::Vec2 => ".xy",
        ShaderIO::Vec3 => ".xyz",
        ShaderIO::Vec4 => ".xyzw",
    }
}

impl Default for ShaderIO {
    fn default() -> (r: ShaderIO)
        ensures
            r == ShaderIO::F32,
    {
        ShaderIO::F32
    }
}

/// Widening never narrows, and four widenings reach the four-lane shape,
/// which widening keeps.
pub proof fn lemma_extend_converges(t: ShaderIO)
    ensures
        t.spec_extend().arity() >= t.arity(),
        t.spec_extend().spec_extend().spec_extend().spec_extend() == ShaderIO::Vec4,
        ShaderIO::Vec4.spec_extend() == ShaderIO::Vec4,
{
}

/// Turning a value into its own shape gives the variable back unchanged.
pub proof fn lemma_transform_identity(t: ShaderIO, var: Seq<char>, ext: Decimal)
    ensures
        t.spec_transform(t, var, ext) == var,
{
}

} // verus!
