use vstd::prelude::*;
use vstd::string::*;

use crate::decimal::Decimal;
use crate::error::ShaderError;
use crate::shape::ShaderIO;

verus! {

/// The fixed text that opens every fragment shader: the texture and sampler
/// bindings, the zero constant and the entry point's signature.
pub open spec fn prelude() -> Seq<char> {
    "\n@group(1) @binding(1)\nvar texture: texture_2d<f32>;\n@group(1) @binding(2)\nvar texture_sampler: sampler;\n\nconst ZERO = vec4<f32>(0.0, 0.0, 0.0, 0.0);\n\n@fragment\nfn fragment(\n    #import bevy_pbr::mesh_vertex_output\n) -> @location(0) vec4<f32> {\n"@
}

/// Each statement on a line of its own, indented by four spaces.
pub open spec fn body(lines: Seq<Seq<char>>) -> Seq<char>
    decreases lines.len(),
{
    if lines.len() == 0 {
        seq![]
    } else {
        body(lines.drop_last()) + "    "@ + lines.last() + "\n"@
    }
}

/// `acc` followed by the statements of `more` that it does not hold yet, in
/// order: statements shared by two inputs are kept once.
pub open spec fn merge(acc: Seq<Seq<char>>, more: Seq<Seq<char>>) -> Seq<Seq<char>>
    decreases more.len(),
{
    if more.len() == 0 {
        acc
    } else {
        let m = merge(acc, more.drop_last());
        if m.contains(more.last()) {
            m
        } else {
            m.push(more.last())
        }
    }
}

/// The result as a scalar-or-vector expression with its shape: an unbound
/// result (empty name) reads as the scalar literal zero.
pub open spec fn bound_result(var: Seq<char>, output: ShaderIO) -> (Seq<char>, ShaderIO) {
    if var.len() == 0 {
        ("0.0"@, ShaderIO::F32)
    } else {
        (var, output)
    }
}

/// What a `ShaderBuilder` holds, as mathematical values.
pub struct ExprValue {
    pub lines: Seq<Seq<char>>,
    pub output: ShaderIO,
    pub var: Seq<char>,
}

impl ExprValue {
    /// The zero value: no statements, the four-lane constant `ZERO`.
    pub open spec fn zero() -> ExprValue {
        ExprValue { lines: seq![], output: ShaderIO::Vec4, var: "ZERO"@ }
    }
}

/// The value that the graph computes so far: the statements that compute it,
/// in order, and the variable that holds it, with its shape.
#[derive(Clone, Debug)]
pub struct ShaderBuilder {
    pub content: Vec<String>,
    pub output: ShaderIO,
    pub var: String,
}

impl View for ShaderBuilder {
    type V = ExprValue;

    open spec fn view(&self) -> ExprValue {
        ExprValue { lines: self.lines(), output: self.output, var: self.var@ }
    }
}

impl ShaderBuilder {
    /// The statements as text.
    pub open spec fn lines(&self) -> Seq<Seq<char>> {
        self.content@.map_values(|l: String| l@)
    }

    /// The zero value: no statements, the four-lane constant `ZERO`.
    pub open spec fn is_zero(&self) -> bool {
        &&& self.lines() == Seq::<Seq<char>>::empty()
        &&& self.output == ShaderIO::Vec4
        &&& self.var@ == "ZERO"@
    }

    /// The color expression that the shader returns: the result cut or padded
    /// to three lanes, and an alpha of one. An unbound result is the scalar zero.
    pub open spec fn spec_render_final(&self) -> Seq<char> {
        let (name, shape) = bound_result(self.var@, self.output);
        "vec4<f32>("@ + shape.spec_transform(ShaderIO::Vec3, name, Decimal { units: 0 }) + ", 1.0)"@
    }

    /// The whole shader source.
    pub open spec fn spec_source(&self) -> Seq<char> {
        prelude() + body(self.lines()) + "    return "@ + self.spec_render_final() + ";\n}\n"@
    }

    /// The zero value: no statements, the four-lane constant `ZERO`.
    pub fn zero() -> (r: ShaderBuilder)
        ensures
            r.is_zero(),
    {
        let r = ShaderBuilder { content: Vec::new(), output: ShaderIO::Vec4, var: String::from_str("ZERO") };
        assert(r.lines() =~= Seq::<Seq<char>>::empty());
        r
    }

    /// A copy of this value.
    pub fn snapshot(&self) -> (r: ShaderBuilder)
        ensures
            r@ == self@,
    {
        let mut content: Vec<String> = Vec::new();
        let mut i: usize = 0;
        while i < self.content.len()
            invariant
                i <= self.content.len(),
                content@.map_values(|l: String| l@) == self.lines().take(i as int),
            decreases self.content.len() - i,
        {
            let line = self.content[i].clone();
            proof {
                assert(content@.push(line).map_values(|l: String| l@) =~= content@.map_values(
                    |l: String| l@,
                ).push(line@));
            }
            content.push(line);
            i = i + 1;
            assert(self.lines().take(i as int) =~= self.lines().take(i - 1).push(self.lines()[i - 1]));
        }
        assert(self.lines().take(i as int) =~= self.lines());
        let r = ShaderBuilder { content, output: self.output, var: self.var.clone() };
        r
    }

    /// Appends one statement.
    pub fn push(&mut self, line: String)
        ensures
            final(self).lines() == old(self).lines().push(line@),
            final(self).output == old(self).output,
            final(self).var@ == old(self).var@,
    {
        proof {
            let l = old(self).lines();
            assert(l.push(line@) =~= old(self).content@.push(line).map_values(|l: String| l@));
        }
        self.content.push(line);
    }

    /// Whether `line` is one of the statements.
    pub fn has_line(&self, line: &String) -> (r: bool)
        ensures
            r == self.lines().contains(line@),
    {
        let mut j: usize = 0;
        while j < self.content.len()
            invariant
                j <= self.content.len(),
                forall|k: int| 0 <= k < j ==> self.lines()[k] != line@,
            decreases self.content.len() - j,
        {
            if self.content[j] == *line {
                assert(self.lines()[j as int] == line@);
                return true;
            }
            j = j + 1;
        }
        false
    }

    /// Appends the statements of `other` that are not here yet, in order.
    pub fn merge_lines(&mut self, other: &ShaderBuilder)
        ensures
            final(self).lines() == merge(old(self).lines(), other.lines()),
            final(self).output == old(self).output,
            final(self).var@ == old(self).var@,
    {
        let mut i: usize = 0;
        while i < other.content.len()
            invariant
                i <= other.content.len(),
                self.lines() == merge(old(self).lines(), other.lines().take(i as int)),
                self.output == old(self).output,
                self.var@ == old(self).var@,
            decreases other.content.len() - i,
        {
            proof {
                assert(other.lines().take(i + 1).drop_last() =~= other.lines().take(i as int));
            }
            if !self.has_line(&other.content[i]) {
                self.push(other.content[i].clone());
            }
            i = i + 1;
        }
        assert(other.lines().take(i as int) =~= other.lines());
    }

    /// Appends the statements of `other`, in order.
    pub fn append_lines(&mut self, other: &ShaderBuilder)
        ensures
            final(self).lines() == old(self).lines() + other.lines(),
            final(self).output == old(self).output,
            final(self).var@ == old(self).var@,
    {
        let mut i: usize = 0;
        while i < other.content.len()
            invariant
                i <= other.content.len(),
                self.lines() == old(self).lines() + other.lines().take(i as int),
                self.output == old(self).output,
                self.var@ == old(self).var@,
            decreases other.content.len() - i,
        {
            self.push(other.content[i].clone());
            i = i + 1;
            assert(other.lines().take(i as int) =~= other.lines().take(i - 1).push(other.lines()[i - 1]));
            assert(self.lines() =~= old(self).lines() + other.lines().take(i as int));
        }
        assert(other.lines().take(i as int) =~= other.lines());
    }

    /// Makes `var`, of shape `output`, the current result; the statements stay.
    pub fn bind(&mut self, var: String, output: ShaderIO)
        ensures
            final(self).lines() == old(self).lines(),
            final(self).output == output,
            final(self).var@ == var@,
    {
        self.var = var;
        self.output = output;
    }

    /// The expression that the shader returns.
    pub fn render_final(&self) -> (r: String)
        ensures
            r@ == self.spec_render_final(),
    {
        let (name, shape): (&str, ShaderIO) = if self.var.as_str().unicode_len() == 0 {
            ("0.0", ShaderIO::F32)
        } else {
            (self.var.as_str(), self.output)
        };
        let mut r = String::from_str("vec4<f32>(");
        r.append(shape.transform(ShaderIO::Vec3, name, Some(Decimal::zero())).as_str());
        r.append(", 1.0)");
        r
    }

    /// The complete shader source: the prelude, each statement, and the return
    /// of the final color.
    pub fn build(&self) -> (r: Result<String, ShaderError>)
        ensures
            r matches Ok(s) && s@ == self.spec_source(),
    {
        let mut s = String::from_str(
            "\n@group(1) @binding(1)\nvar texture: texture_2d<f32>;\n@group(1) @binding(2)\nvar texture_sampler: sampler;\n\nconst ZERO = vec4<f32>(0.0, 0.0, 0.0, 0.0);\n\n@fragment\nfn fragment(\n    #import bevy_pbr::mesh_vertex_output\n) -> @location(0) vec4<f32> {\n",
        );
        let mut i: usize = 0;
        while i < self.content.len()
            invariant
                i <= self.content.len(),
                s@ == prelude() + body(self.lines().take(i as int)),
            decreases self.content.len() - i,
        {
            assert(self.lines().take(i + 1).drop_last() =~= self.lines().take(i as int));
            s.append("    ");
            s.append(self.content[i].as_str());
            s.append("\n");
            i = i + 1;
        }
        assert(self.lines().take(i as int) =~= self.lines());
        s.append("    return ");
        s.append(self.render_final().as_str());
        s.append(";\n}\n");
        assert(s@ =~= self.spec_source());
        Ok(s)
    }
}

impl Default for ShaderBuilder {
    fn default() -> (r: ShaderBuilder)
        ensures
            r.is_zero(),
    {
        ShaderBuilder::zero()
    }
}

} // verus!
