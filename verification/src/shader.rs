//! Shader program descriptions: what a linked program exposes (attributes, uniforms,
//! samplers, outputs) and where its sources come from.

use vstd::prelude::*;

verus! {

/// A vertex attribute of a linked program and the location it was given.
#[derive(Clone)]
pub struct ShaderProgramAttribute {
    pub location: u32,
    pub name: String,
}

/// A scalar (non-array) uniform of a linked program.
#[derive(Clone)]
pub struct ShaderProgramScalarUniform {
    pub location: u32,
    pub name: String,
}

/// An array uniform of a linked program.
#[derive(Clone)]
pub struct ShaderProgramArrayUniform {
    pub location: u32,
    pub count: u32,
    pub name: String,
}

/// A 2D texture sampler of a linked program and its texture unit binding.
#[derive(Clone)]
pub struct ShaderProgramTexture2d {
    pub binding: u32,
    pub name: String,
}

/// A fragment shader output and its declared format.
#[derive(Clone)]
pub struct ShaderProgramOutput {
    pub name: String,
    pub format: String,
}

/// Where the two shader stages of a program are read from.
#[derive(Clone)]
pub struct HostShaderProgramDescriptor {
    pub name: String,
    pub vert_shader_file_path: String,
    pub frag_shader_file_path: String,
}

/// The sources of the two shader stages of a program.
pub struct HostShaderProgram {
    pub descriptor: HostShaderProgramDescriptor,
    pub vert_shader_source: String,
    pub frag_shader_source: String,
}

/// A linked program on the device and the inputs found in its sources.
#[derive(Clone)]
pub struct ShaderProgram {
    pub name: String,
    pub handle: u32,
    pub vert_shader_handle: u32,
    pub frag_shader_handle: u32,
    pub attributes: Vec<ShaderProgramAttribute>,
    pub scalar_uniforms: Vec<ShaderProgramScalarUniform>,
    pub array_uniforms: Vec<ShaderProgramArrayUniform>,
    pub sampler_2d: Vec<ShaderProgramTexture2d>,
    pub outputs: Vec<ShaderProgramOutput>,
}

/// `i` is the first position of `s` whose scalar uniform carries the name `name`.
pub open spec fn is_first_scalar_uniform(
    s: Seq<ShaderProgramScalarUniform>,
    name: Seq<char>,
    i: int,
) -> bool {
    &&& 0 <= i < s.len()
    &&& s[i].name@ == name
    &&& forall|j: int| 0 <= j < i ==> s[j].name@ != name
}

/// The location of the first scalar uniform of `program` named `name`, if there is one.
pub open spec fn scalar_uniform_location(program: ShaderProgram, name: Seq<char>) -> Option<u32> {
    let s = program.scalar_uniforms@;
    if exists|i: int| is_first_scalar_uniform(s, name, i) {
        Some(s[choose|i: int| is_first_scalar_uniform(s, name, i)].location)
    } else {
        None
    }
}

/// `i` is the first position of `s` whose sampler carries the name `name`.
pub open spec fn is_first_sampler(s: Seq<ShaderProgramTexture2d>, name: Seq<char>, i: int) -> bool {
    &&& 0 <= i < s.len()
    &&& s[i].name@ == name
    &&& forall|j: int| 0 <= j < i ==> s[j].name@ != name
}

/// The binding of the first 2D sampler of `program` named `name`, if there is one.
pub open spec fn sampler_binding(program: ShaderProgram, name: Seq<char>) -> Option<u32> {
    let s = program.sampler_2d@;
    if exists|i: int| is_first_sampler(s, name, i) {
        Some(s[choose|i: int| is_first_sampler(s, name, i)].binding)
    } else {
        None
    }
}

/// Looks up the location of the scalar uniform named `name`.
pub fn find_scalar_uniform_location(program: &ShaderProgram, name: &String) -> (r: Option<u32>)
    ensures
        r == scalar_uniform_location(*program, name@),
{
    let n = program.scalar_uniforms.len();
    let mut i: usize = 0;
    while i < n
        invariant
            n == program.scalar_uniforms@.len(),
            i <= n,
            forall|j: int| 0 <= j < i ==> program.scalar_uniforms@[j].name@ != name@,
        decreases n - i,
    {
        if program.scalar_uniforms[i].name.eq(name) {
            let ghost s = program.scalar_uniforms@;
            assert(is_first_scalar_uniform(s, name@, i as int));
            assert forall|k: int| is_first_scalar_uniform(s, name@, k) implies k == i by {
                if k < i {
                } else if k > i {
                    assert(s[i as int].name@ == name@);
                }
            }
            return Some(program.scalar_uniforms[i].location);
        }
        i += 1;
    }
    None
}

/// Looks up the binding of the 2D sampler named `name`.
pub fn find_sampler_binding(program: &ShaderProgram, name: &String) -> (r: Option<u32>)
    ensures
        r == sampler_binding(*program, name@),
{
    let n = program.sampler_2d.len();
    let mut i: usize = 0;
    while i < n
        invariant
            n == program.sampler_2d@.len(),
            i <= n,
            forall|j: int| 0 <= j < i ==> program.sampler_2d@[j].name@ != name@,
        decreases n - i,
    {
        if program.sampler_2d[i].name.eq(name) {
            let ghost s = program.sampler_2d@;
            assert(is_first_sampler(s, name@, i as int));
            assert forall|k: int| is_first_sampler(s, name@, k) implies k == i by {
                if k < i {
                } else if k > i {
                    assert(s[i as int].name@ == name@);
                }
            }
            return Some(program.sampler_2d[i].binding);
        }
        i += 1;
    }
    None
}

} // verus!
