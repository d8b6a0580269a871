//! Uniform values and texture samplers, and their bookkeeping of which shader programs
//! they are bound to.
//!
//! A uniform holds its data and, for every program it is bound to, the location of the
//! matching uniform in that program. Binding looks the uniform up by name in the program;
//! unbinding forgets every location that belongs to the program.

use std::rc::Rc;
use vstd::prelude::*;
use crate::math::{Mat4x4, Vec1, Vec2, Vec3};
use crate::shader::{ShaderProgram, scalar_uniform_location, sampler_binding, find_scalar_uniform_location, find_sampler_binding};
use crate::tex::DeviceTexture;
use crate::text::{decimal, push_decimal, push_str, owned};

verus! {

/// The location of a uniform in one shader program.
#[derive(Clone, Copy, PartialEq, Eq, Structural)]
pub struct UniformProgramLocation {
    pub location: u32,
    pub program: u32,
}

/// The data of a uniform and its locations in the programs it is bound to.
pub struct UniformDataLoction<T> {
    pub locations: Vec<UniformProgramLocation>,
    pub data: Vec<T>,
}

/// A named uniform.
pub struct Uniform<T> {
    pub name: String,
    pub data_location: UniformDataLoction<T>,
}

/// The per-frame uniforms of a technique, grouped by value type; `F` is the scalar of the
/// floating-point vectors and matrices.
pub struct Uniforms<F> {
    pub vec1f: Vec<Uniform<Vec1<F>>>,
    pub vec1u: Vec<Uniform<Vec1<u32>>>,
    pub vec2f: Vec<Uniform<Vec2<F>>>,
    pub vec3f: Vec<Uniform<Vec3<F>>>,
    pub mat4x4f: Vec<Uniform<Mat4x4<F>>>,
}

/// A named uniform with one data block per model.
pub struct PerModelUnifrom<T> {
    pub name: String,
    pub data_locations: Vec<UniformDataLoction<T>>,
}

/// The per-model uniforms of a technique, grouped by value type.
pub struct PerModelUniforms<F> {
    pub vec1f: Vec<PerModelUnifrom<Vec1<F>>>,
    pub vec1u: Vec<PerModelUnifrom<Vec1<u32>>>,
    pub vec2f: Vec<PerModelUnifrom<Vec2<F>>>,
    pub vec3f: Vec<PerModelUnifrom<Vec3<F>>>,
    pub mat4x4f: Vec<PerModelUnifrom<Mat4x4<F>>>,
}

/// The texture unit a sampler uses in one shader program.
#[derive(Clone, Copy, PartialEq, Eq, Structural)]
pub struct SamplerProgramBinding {
    pub binding: u32,
    pub program: u32,
}

/// A named texture and its bindings in the programs it is bound to.
pub struct TextureSampler {
    pub name: String,
    pub bindings: Vec<SamplerProgramBinding>,
    pub texture: Rc<DeviceTexture>,
}

// ---------------------------------------------------------------------------------------
// Model of binding and unbinding
// ---------------------------------------------------------------------------------------

/// The locations with those of program `handle` removed.
pub open spec fn without_program(
    locations: Seq<UniformProgramLocation>,
    handle: u32,
) -> Seq<UniformProgramLocation> {
    locations.filter(|l: UniformProgramLocation| l.program != handle)
}

/// The bindings with those of program `handle` removed.
pub open spec fn bindings_without_program(
    bindings: Seq<SamplerProgramBinding>,
    handle: u32,
) -> Seq<SamplerProgramBinding> {
    bindings.filter(|b: SamplerProgramBinding| b.program != handle)
}

/// The bindings of program `handle` alone.
pub open spec fn bindings_of_program(
    bindings: Seq<SamplerProgramBinding>,
    handle: u32,
) -> Seq<SamplerProgramBinding> {
    bindings.filter(|b: SamplerProgramBinding| b.program == handle)
}

/// The locations of a uniform named `name` after it is bound to `program`: the location of
/// the program's uniform of that name is added, if the program has one.
pub open spec fn bound_locations(
    locations: Seq<UniformProgramLocation>,
    program: ShaderProgram,
    name: Seq<char>,
) -> Seq<UniformProgramLocation> {
    match scalar_uniform_location(program, name) {
        Some(location) => locations.push(UniformProgramLocation { location, program: program.handle }),
        None => locations,
    }
}

/// The bindings of a sampler named `name` after it is bound to `program`.
pub open spec fn bound_bindings(
    bindings: Seq<SamplerProgramBinding>,
    program: ShaderProgram,
    name: Seq<char>,
) -> Seq<SamplerProgramBinding> {
    match sampler_binding(program, name) {
        Some(binding) => bindings.push(SamplerProgramBinding { binding, program: program.handle }),
        None => bindings,
    }
}

/// No location refers to program `handle`.
pub open spec fn locations_free_of(locations: Seq<UniformProgramLocation>, handle: u32) -> bool {
    forall|j: int| 0 <= j < locations.len() ==> locations[j].program != handle
}

/// No binding refers to program `handle`.
pub open spec fn bindings_free_of(bindings: Seq<SamplerProgramBinding>, handle: u32) -> bool {
    forall|j: int| 0 <= j < bindings.len() ==> bindings[j].program != handle
}

/// No uniform of `uniforms` is bound to program `handle`.
pub open spec fn uniforms_free_of<T>(uniforms: Seq<Uniform<T>>, handle: u32) -> bool {
    forall|i: int| 0 <= i < uniforms.len() ==> locations_free_of(
        #[trigger] uniforms[i].data_location.locations@,
        handle,
    )
}

/// No data block of any per-model uniform of `uniforms` is bound to program `handle`.
pub open spec fn per_model_uniforms_free_of<T>(uniforms: Seq<PerModelUnifrom<T>>, handle: u32) -> bool {
    forall|i: int, k: int|
        0 <= i < uniforms.len() && 0 <= k < uniforms[i].data_locations@.len()
            ==> locations_free_of(#[trigger] uniforms[i].data_locations@[k].locations@, handle)
}

/// No sampler of `samplers` is bound to program `handle`.
pub open spec fn samplers_free_of(samplers: Seq<TextureSampler>, handle: u32) -> bool {
    forall|i: int| 0 <= i < samplers.len() ==> bindings_free_of(#[trigger] samplers[i].bindings@, handle)
}

/// `new` is `old` with every uniform bound to `program`.
pub open spec fn uniforms_bound<T>(old: Seq<Uniform<T>>, new: Seq<Uniform<T>>, program: ShaderProgram) -> bool {
    &&& new.len() == old.len()
    &&& forall|i: int|
        0 <= i < old.len() ==> {
            &&& (#[trigger] new[i]).name == old[i].name
            &&& new[i].data_location.data == old[i].data_location.data
            &&& new[i].data_location.locations@ == bound_locations(
                old[i].data_location.locations@,
                program,
                old[i].name@,
            )
        }
}

/// `new` is `old` with every location of program `handle` removed.
pub open spec fn uniforms_unbound<T>(old: Seq<Uniform<T>>, new: Seq<Uniform<T>>, handle: u32) -> bool {
    &&& new.len() == old.len()
    &&& forall|i: int|
        0 <= i < old.len() ==> {
            &&& (#[trigger] new[i]).name == old[i].name
            &&& new[i].data_location.data == old[i].data_location.data
            &&& new[i].data_location.locations@ == without_program(
                old[i].data_location.locations@,
                handle,
            )
        }
}

/// `new` is `old` with every data block of every per-model uniform bound to `program`.
pub open spec fn per_model_uniforms_bound<T>(
    old: Seq<PerModelUnifrom<T>>,
    new: Seq<PerModelUnifrom<T>>,
    program: ShaderProgram,
) -> bool {
    &&& new.len() == old.len()
    &&& forall|i: int|
        0 <= i < old.len() ==> {
            &&& (#[trigger] new[i]).name == old[i].name
            &&& new[i].data_locations@.len() == old[i].data_locations@.len()
            &&& forall|k: int|
                0 <= k < old[i].data_locations@.len() ==> {
                    &&& (#[trigger] new[i].data_locations@[k]).data == old[i].data_locations@[k].data
                    &&& new[i].data_locations@[k].locations@ == bound_locations(
                        old[i].data_locations@[k].locations@,
                        program,
                        old[i].name@,
                    )
                }
        }
}

/// `new` is `old` with every location of program `handle` removed from every data block.
pub open spec fn per_model_uniforms_unbound<T>(
    old: Seq<PerModelUnifrom<T>>,
    new: Seq<PerModelUnifrom<T>>,
    handle: u32,
) -> bool {
    &&& new.len() == old.len()
    &&& forall|i: int|
        0 <= i < old.len() ==> {
            &&& (#[trigger] new[i]).name == old[i].name
            &&& new[i].data_locations@.len() == old[i].data_locations@.len()
            &&& forall|k: int|
                0 <= k < old[i].data_locations@.len() ==> {
                    &&& (#[trigger] new[i].data_locations@[k]).data == old[i].data_locations@[k].data
                    &&& new[i].data_locations@[k].locations@ == without_program(
                        old[i].data_locations@[k].locations@,
                        handle,
                    )
                }
        }
}

/// `new` is `old` with every sampler bound to `program`.
pub open spec fn samplers_bound(old: Seq<TextureSampler>, new: Seq<TextureSampler>, program: ShaderProgram) -> bool {
    &&& new.len() == old.len()
    &&& forall|i: int|
        0 <= i < old.len() ==> {
            &&& (#[trigger] new[i]).name == old[i].name
            &&& new[i].texture == old[i].texture
            &&& new[i].bindings@ == bound_bindings(old[i].bindings@, program, old[i].name@)
        }
}

/// `new` is `old` with every binding of program `handle` removed.
pub open spec fn samplers_unbound(old: Seq<TextureSampler>, new: Seq<TextureSampler>, handle: u32) -> bool {
    &&& new.len() == old.len()
    &&& forall|i: int|
        0 <= i < old.len() ==> {
            &&& (#[trigger] new[i]).name == old[i].name
            &&& new[i].texture == old[i].texture
            &&& new[i].bindings@ == bindings_without_program(old[i].bindings@, handle)
        }
}

pub(crate) proof fn lemma_filter_push<A>(s: Seq<A>, x: A, p: spec_fn(A) -> bool)
    ensures
        s.push(x).filter(p) == (if p(x) {
            s.filter(p).push(x)
        } else {
            s.filter(p)
        }),
{
    reveal(Seq::filter);
    assert(s.push(x).drop_last() =~= s);
}

pub(crate) proof fn lemma_filter_all<A>(s: Seq<A>, p: spec_fn(A) -> bool)
    requires
        forall|j: int| 0 <= j < s.len() ==> p(#[trigger] s[j]),
    ensures
        s.filter(p) == s,
    decreases s.len(),
{
    reveal(Seq::filter);
    if s.len() > 0 {
        lemma_filter_all(s.drop_last(), p);
        assert(s.drop_last().push(s.last()) =~= s);
    }
}

proof fn lemma_filter_idempotent<A>(s: Seq<A>, p: spec_fn(A) -> bool)
    ensures
        s.filter(p).filter(p) == s.filter(p),
{
    s.filter_lemma(p);
    lemma_filter_all(s.filter(p), p);
}

/// Binding a uniform to a program it was not bound to, then unbinding that program,
/// gives back the locations it had.
pub proof fn lemma_unbind_undoes_bind(
    locations: Seq<UniformProgramLocation>,
    program: ShaderProgram,
    name: Seq<char>,
)
    requires
        locations_free_of(locations, program.handle),
    ensures
        without_program(bound_locations(locations, program, name), program.handle) == locations,
{
    let p = |l: UniformProgramLocation| l.program != program.handle;
    lemma_filter_all(locations, p);
    match scalar_uniform_location(program, name) {
        Some(location) => {
            lemma_filter_push(locations, UniformProgramLocation { location, program: program.handle }, p);
        },
        None => {},
    }
}

/// Unbinding a program leaves no location of that program behind, keeps every other
/// location, and unbinding it again changes nothing.
pub proof fn lemma_unbind_removes_program(locations: Seq<UniformProgramLocation>, handle: u32)
    ensures
        locations_free_of(without_program(locations, handle), handle),
        forall|l: UniformProgramLocation|
            locations.contains(l) && l.program != handle ==> without_program(locations, handle).contains(l),
        without_program(without_program(locations, handle), handle) == without_program(locations, handle),
{
    let p = |l: UniformProgramLocation| l.program != handle;
    locations.filter_lemma(p);
    lemma_filter_idempotent(locations, p);
    assert forall|l: UniformProgramLocation|
        locations.contains(l) && l.program != handle implies without_program(locations, handle).contains(l) by {
        let i = choose|i: int| 0 <= i < locations.len() && locations[i] == l;
        locations.lemma_filter_contains(p, i);
    }
}

/// Binding a sampler to a program it was not bound to, then unbinding that program,
/// gives back the bindings it had.
pub proof fn lemma_unbind_sampler_undoes_bind(
    bindings: Seq<SamplerProgramBinding>,
    program: ShaderProgram,
    name: Seq<char>,
)
    requires
        bindings_free_of(bindings, program.handle),
    ensures
        bindings_without_program(bound_bindings(bindings, program, name), program.handle) == bindings,
{
    let p = |b: SamplerProgramBinding| b.program != program.handle;
    lemma_filter_all(bindings, p);
    match sampler_binding(program, name) {
        Some(binding) => {
            lemma_filter_push(bindings, SamplerProgramBinding { binding, program: program.handle }, p);
        },
        None => {},
    }
}

// ---------------------------------------------------------------------------------------
// Construction
// ---------------------------------------------------------------------------------------

impl<T> Uniform<T> {
    /// A uniform named `name` holding `data`, bound to no program.
    pub fn new(name: &str, data: Vec<T>) -> (r: Uniform<T>)
        ensures
            r.name@ == name@,
            r.data_location.data@ == data@,
            r.data_location.locations@.len() == 0,
    {
        Uniform::<T> {
            name: owned(name),
            data_location: UniformDataLoction { locations: Vec::new(), data },
        }
    }
}

impl<T> PerModelUnifrom<T> {
    /// A per-model uniform named `name` with one data block per element of `data`, bound
    /// to no program.
    pub fn new(name: &str, data: Vec<Vec<T>>) -> (r: PerModelUnifrom<T>)
        ensures
            r.name@ == name@,
            r.data_locations@.len() == data@.len(),
            forall|k: int|
                0 <= k < data@.len() ==> (#[trigger] r.data_locations@[k]).data@ == data@[k]@
                    && r.data_locations@[k].locations@.len() == 0,
    {
        let ghost initial = data@;
        let mut rest = data;
        let mut reversed: Vec<UniformDataLoction<T>> = Vec::new();
        while rest.len() > 0
            invariant
                rest@.len() + reversed@.len() == initial.len(),
                forall|k: int| 0 <= k < rest@.len() ==> #[trigger] rest@[k] == initial[k],
                forall|k: int|
                    0 <= k < reversed@.len() ==> (#[trigger] reversed@[k]).data@
                        == initial[initial.len() - 1 - k]@ && reversed@[k].locations@.len() == 0,
            decreases rest@.len(),
        {
            let block = rest.pop().unwrap();
            reversed.push(UniformDataLoction { locations: Vec::new(), data: block });
        }
        let mut blocks: Vec<UniformDataLoction<T>> = Vec::new();
        while reversed.len() > 0
            invariant
                reversed@.len() + blocks@.len() == initial.len(),
                forall|k: int|
                    0 <= k < reversed@.len() ==> (#[trigger] reversed@[k]).data@
                        == initial[initial.len() - 1 - k]@ && reversed@[k].locations@.len() == 0,
                forall|k: int|
                    0 <= k < blocks@.len() ==> (#[trigger] blocks@[k]).data@ == initial[k]@
                        && blocks@[k].locations@.len() == 0,
            decreases reversed@.len(),
        {
            let block = reversed.pop().unwrap();
            blocks.push(block);
        }
        PerModelUnifrom::<T> { name: owned(name), data_locations: blocks }
    }
}

impl TextureSampler {
    /// A sampler named `name` for `texture`, bound to no program.
    pub fn new(name: &str, texture: Rc<DeviceTexture>) -> (r: TextureSampler)
        ensures
            r.name@ == name@,
            r.bindings@.len() == 0,
            r.texture == texture,
    {
        TextureSampler { name: owned(name), bindings: Vec::new(), texture }
    }

    /// Adds the binding of the program's sampler of the same name, if the program has one.
    pub fn bind_shader_program(&mut self, program: &ShaderProgram)
        ensures
            final(self).name == old(self).name,
            final(self).texture == old(self).texture,
            final(self).bindings@ == bound_bindings(old(self).bindings@, *program, old(self).name@),
    {
        if let Some(binding) = find_sampler_binding(program, &self.name) {
            self.bindings.push(SamplerProgramBinding { binding, program: program.handle });
        }
    }

    /// Keeps the bindings that belong to program `program_handle` and drops all others.
    pub fn unbind_shader_program(&mut self, program_handle: u32)
        ensures
            final(self).name == old(self).name,
            final(self).texture == old(self).texture,
            final(self).bindings@ == bindings_of_program(old(self).bindings@, program_handle),
    {
        let ghost p = |b: SamplerProgramBinding| b.program == program_handle;
        let ghost initial = self.bindings@;
        let mut kept: Vec<SamplerProgramBinding> = Vec::new();
        let n = self.bindings.len();
        let mut i: usize = 0;
        while i < n
            invariant
                n == initial.len(),
                self.bindings@ == initial,
                i <= n,
                kept@ == initial.take(i as int).filter(p),
                p == (|b: SamplerProgramBinding| b.program == program_handle),
            decreases n - i,
        {
            let b = self.bindings[i];
            proof {
                lemma_filter_push(initial.take(i as int), b, p);
                assert(initial.take(i as int).push(b) =~= initial.take(i + 1));
                assert(p(b) == (b.program == program_handle));
            }
            if b.program == program_handle {
                kept.push(b);
            }
            i += 1;
        }
        assert(initial.take(n as int) =~= initial);
        self.bindings = kept;
    }
}

pub(crate) fn remove_program_locations(locations: &mut Vec<UniformProgramLocation>, handle: u32)
    ensures
        final(locations)@ == without_program(old(locations)@, handle),
{
    let ghost p = |l: UniformProgramLocation| l.program != handle;
    let ghost initial = locations@;
    let mut kept: Vec<UniformProgramLocation> = Vec::new();
    let n = locations.len();
    let mut i: usize = 0;
    while i < n
        invariant
            n == initial.len(),
            locations@ == initial,
            i <= n,
            kept@ == initial.take(i as int).filter(p),
            p == (|l: UniformProgramLocation| l.program != handle),
        decreases n - i,
    {
        let l = locations[i];
        proof {
            lemma_filter_push(initial.take(i as int), l, p);
            assert(initial.take(i as int).push(l) =~= initial.take(i + 1));
            assert(p(l) == (l.program != handle));
        }
        if l.program != handle {
            kept.push(l);
        }
        i += 1;
    }
    assert(initial.take(n as int) =~= initial);
    *locations = kept;
}

fn remove_program_bindings(bindings: &mut Vec<SamplerProgramBinding>, handle: u32)
    ensures
        final(bindings)@ == bindings_without_program(old(bindings)@, handle),
{
    let ghost p = |b: SamplerProgramBinding| b.program != handle;
    let ghost initial = bindings@;
    let mut kept: Vec<SamplerProgramBinding> = Vec::new();
    let n = bindings.len();
    let mut i: usize = 0;
    while i < n
        invariant
            n == initial.len(),
            bindings@ == initial,
            i <= n,
            kept@ == initial.take(i as int).filter(p),
            p == (|b: SamplerProgramBinding| b.program != handle),
        decreases n - i,
    {
        let b = bindings[i];
        proof {
            lemma_filter_push(initial.take(i as int), b, p);
            assert(initial.take(i as int).push(b) =~= initial.take(i + 1));
            assert(p(b) == (b.program != handle));
        }
        if b.program != handle {
            kept.push(b);
        }
        i += 1;
    }
    assert(initial.take(n as int) =~= initial);
    *bindings = kept;
}

// ---------------------------------------------------------------------------------------
// Bindings
// ---------------------------------------------------------------------------------------

/// Binds every uniform to `program`: a uniform whose name the program declares gets the
/// location of that declaration. The uniforms must not be bound to the program yet.
pub fn bind_shader_program_to_scalar_uniforms<T>(program: &ShaderProgram, uniforms: &mut [Uniform<T>])
    requires
        uniforms_free_of(old(uniforms)@, program.handle),
    ensures
        uniforms_bound(old(uniforms)@, final(uniforms)@, *program),
{
    let n = uniforms.len();
    let mut i: usize = 0;
    while i < n
        invariant
            n == uniforms@.len(),
            n == old(uniforms)@.len(),
            i <= n,
            forall|k: int|
                0 <= k < n ==> {
                    &&& (#[trigger] uniforms@[k]).name == old(uniforms)@[k].name
                    &&& uniforms@[k].data_location.data == old(uniforms)@[k].data_location.data
                    &&& uniforms@[k].data_location.locations@ == if k < i {
                        bound_locations(
                            old(uniforms)@[k].data_location.locations@,
                            *program,
                            old(uniforms)@[k].name@,
                        )
                    } else {
                        old(uniforms)@[k].data_location.locations@
                    }
                },
        decreases n - i,
    {
        let found = find_scalar_uniform_location(program, &uniforms[i].name);
        if let Some(location) = found {
            uniforms[i].data_location.locations.push(
                UniformProgramLocation { program: program.handle, location },
            );
        }
        i += 1;
    }
}

/// Removes every location that belongs to program `program_handle`.
pub fn unbind_shader_program_from_scalar_uniforms<T>(program_handle: u32, uniforms: &mut [Uniform<T>])
    ensures
        uniforms_unbound(old(uniforms)@, final(uniforms)@, program_handle),
{
    let n = uniforms.len();
    let mut i: usize = 0;
    while i < n
        invariant
            n == uniforms@.len(),
            n == old(uniforms)@.len(),
            i <= n,
            forall|k: int|
                0 <= k < n ==> {
                    &&& (#[trigger] uniforms@[k]).name == old(uniforms)@[k].name
                    &&& uniforms@[k].data_location.data == old(uniforms)@[k].data_location.data
                    &&& uniforms@[k].data_location.locations@ == if k < i {
                        without_program(old(uniforms)@[k].data_location.locations@, program_handle)
                    } else {
                        old(uniforms)@[k].data_location.locations@
                    }
                },
        decreases n - i,
    {
        remove_program_locations(&mut uniforms[i].data_location.locations, program_handle);
        i += 1;
    }
}

/// Binds every per-model uniform to `program`: when the program declares a uniform of the
/// same name, each data block of the uniform gets that location. The uniforms must not be
/// bound to the program yet.
pub fn bind_shader_program_to_scalar_per_model_uniforms<T>(
    program: &ShaderProgram,
    uniforms: &mut Vec<PerModelUnifrom<T>>,
)
    requires
        per_model_uniforms_free_of(old(uniforms)@, program.handle),
    ensures
        per_model_uniforms_bound(old(uniforms)@, final(uniforms)@, *program),
{
    let n = uniforms.len();
    let mut i: usize = 0;
    while i < n
        invariant
            n == uniforms@.len(),
            n == old(uniforms)@.len(),
            i <= n,
            forall|a: int|
                0 <= a < n ==> {
                    &&& (#[trigger] uniforms@[a]).name == old(uniforms)@[a].name
                    &&& uniforms@[a].data_locations@.len() == old(uniforms)@[a].data_locations@.len()
                    &&& forall|k: int|
                        0 <= k < old(uniforms)@[a].data_locations@.len() ==> {
                            &&& (#[trigger] uniforms@[a].data_locations@[k]).data
                                == old(uniforms)@[a].data_locations@[k].data
                            &&& uniforms@[a].data_locations@[k].locations@ == if a < i {
                                bound_locations(
                                    old(uniforms)@[a].data_locations@[k].locations@,
                                    *program,
                                    old(uniforms)@[a].name@,
                                )
                            } else {
                                old(uniforms)@[a].data_locations@[k].locations@
                            }
                        }
                },
        decreases n - i,
    {
        let found = find_scalar_uniform_location(program, &uniforms[i].name);
        if let Some(location) = found {
            let m = uniforms[i].data_locations.len();
            let mut k: usize = 0;
            while k < m
                invariant
                    n == uniforms@.len(),
                    n == old(uniforms)@.len(),
                    i < n,
                    k <= m,
                    m == uniforms@[i as int].data_locations@.len(),
                    found == scalar_uniform_location(*program, old(uniforms)@[i as int].name@),
                    found == Some(location),
                    forall|a: int|
                        0 <= a < n && a != i ==> {
                            &&& (#[trigger] uniforms@[a]).name == old(uniforms)@[a].name
                            &&& uniforms@[a].data_locations@.len() == old(uniforms)@[a].data_locations@.len()
                            &&& forall|kk: int|
                                0 <= kk < old(uniforms)@[a].data_locations@.len() ==> {
                                    &&& (#[trigger] uniforms@[a].data_locations@[kk]).data
                                        == old(uniforms)@[a].data_locations@[kk].data
                                    &&& uniforms@[a].data_locations@[kk].locations@ == if a < i {
                                        bound_locations(
                                            old(uniforms)@[a].data_locations@[kk].locations@,
                                            *program,
                                            old(uniforms)@[a].name@,
                                        )
                                    } else {
                                        old(uniforms)@[a].data_locations@[kk].locations@
                                    }
                                }
                        },
                    uniforms@[i as int].name == old(uniforms)@[i as int].name,
                    uniforms@[i as int].data_locations@.len() == old(uniforms)@[i as int].data_locations@.len(),
                    forall|kk: int|
                        0 <= kk < m ==> {
                            &&& (#[trigger] uniforms@[i as int].data_locations@[kk]).data
                                == old(uniforms)@[i as int].data_locations@[kk].data
                            &&& uniforms@[i as int].data_locations@[kk].locations@ == if kk < k {
                                bound_locations(
                                    old(uniforms)@[i as int].data_locations@[kk].locations@,
                                    *program,
                                    old(uniforms)@[i as int].name@,
                                )
                            } else {
                                old(uniforms)@[i as int].data_locations@[kk].locations@
                            }
                        },
                decreases m - k,
            {
                uniforms[i].data_locations[k].locations.push(
                    UniformProgramLocation { program: program.handle, location },
                );
                k += 1;
            }
        }
        i += 1;
    }
}

/// Removes every location of program `program_handle` from every data block.
pub fn unbind_shader_program_from_scalar_per_model_uniforms<T>(
    program_handle: u32,
    uniforms: &mut Vec<PerModelUnifrom<T>>,
)
    ensures
        per_model_uniforms_unbound(old(uniforms)@, final(uniforms)@, program_handle),
{
    let n = uniforms.len();
    let mut i: usize = 0;
    while i < n
        invariant
            n == uniforms@.len(),
            n == old(uniforms)@.len(),
            i <= n,
            forall|a: int|
                0 <= a < n ==> {
                    &&& (#[trigger] uniforms@[a]).name == old(uniforms)@[a].name
                    &&& uniforms@[a].data_locations@.len() == old(uniforms)@[a].data_locations@.len()
                    &&& forall|k: int|
                        0 <= k < old(uniforms)@[a].data_locations@.len() ==> {
                            &&& (#[trigger] uniforms@[a].data_locations@[k]).data
                                == old(uniforms)@[a].data_locations@[k].data
                            &&& uniforms@[a].data_locations@[k].locations@ == if a < i {
                                without_program(old(uniforms)@[a].data_locations@[k].locations@, program_handle)
                            } else {
                                old(uniforms)@[a].data_locations@[k].locations@
                            }
                        }
                },
        decreases n - i,
    {
        let m = uniforms[i].data_locations.len();
        let mut k: usize = 0;
        while k < m
            invariant
                n == uniforms@.len(),
                n == old(uniforms)@.len(),
                i < n,
                k <= m,
                m == uniforms@[i as int].data_locations@.len(),
                forall|a: int|
                    0 <= a < n && a != i ==> {
                        &&& (#[trigger] uniforms@[a]).name == old(uniforms)@[a].name
                        &&& uniforms@[a].data_locations@.len() == old(uniforms)@[a].data_locations@.len()
                        &&& forall|kk: int|
                            0 <= kk < old(uniforms)@[a].data_locations@.len() ==> {
                                &&& (#[trigger] uniforms@[a].data_locations@[kk]).data
                                    == old(uniforms)@[a].data_locations@[kk].data
                                &&& uniforms@[a].data_locations@[kk].locations@ == if a < i {
                                    without_program(old(uniforms)@[a].data_locations@[kk].locations@, program_handle)
                                } else {
                                    old(uniforms)@[a].data_locations@[kk].locations@
                                }
                            }
                    },
                uniforms@[i as int].name == old(uniforms)@[i as int].name,
                uniforms@[i as int].data_locations@.len() == old(uniforms)@[i as int].data_locations@.len(),
                forall|kk: int|
                    0 <= kk < m ==> {
                        &&& (#[trigger] uniforms@[i as int].data_locations@[kk]).data
                            == old(uniforms)@[i as int].data_locations@[kk].data
                        &&& uniforms@[i as int].data_locations@[kk].locations@ == if kk < k {
                            without_program(old(uniforms)@[i as int].data_locations@[kk].locations@, program_handle)
                        } else {
                            old(uniforms)@[i as int].data_locations@[kk].locations@
                        }
                    },
            decreases m - k,
        {
            remove_program_locations(&mut uniforms[i].data_locations[k].locations, program_handle);
            k += 1;
        }
        i += 1;
    }
}

/// Binds every sampler to `program`: a sampler whose name the program declares gets the
/// program's binding of that sampler. The samplers must not be bound to the program yet.
pub fn bind_shader_program_to_texture_samplers(program: &ShaderProgram, textures: &mut [TextureSampler])
    requires
        samplers_free_of(old(textures)@, program.handle),
    ensures
        samplers_bound(old(textures)@, final(textures)@, *program),
{
    let n = textures.len();
    let mut i: usize = 0;
    while i < n
        invariant
            n == textures@.len(),
            n == old(textures)@.len(),
            i <= n,
            forall|k: int|
                0 <= k < n ==> {
                    &&& (#[trigger] textures@[k]).name == old(textures)@[k].name
                    &&& textures@[k].texture == old(textures)@[k].texture
                    &&& textures@[k].bindings@ == if k < i {
                        bound_bindings(old(textures)@[k].bindings@, *program, old(textures)@[k].name@)
                    } else {
                        old(textures)@[k].bindings@
                    }
                },
        decreases n - i,
    {
        let found = find_sampler_binding(program, &textures[i].name);
        if let Some(binding) = found {
            textures[i].bindings.push(SamplerProgramBinding { binding, program: program.handle });
        }
        i += 1;
    }
}

/// Removes every binding that belongs to program `program_handle`.
pub fn unbind_shader_program_from_texture_samplers(program_handle: u32, textures: &mut [TextureSampler])
    ensures
        samplers_unbound(old(textures)@, final(textures)@, program_handle),
{
    let n = textures.len();
    let mut i: usize = 0;
    while i < n
        invariant
            n == textures@.len(),
            n == old(textures)@.len(),
            i <= n,
            forall|k: int|
                0 <= k < n ==> {
                    &&& (#[trigger] textures@[k]).name == old(textures)@[k].name
                    &&& textures@[k].texture == old(textures)@[k].texture
                    &&& textures@[k].bindings@ == if k < i {
                        bindings_without_program(old(textures)@[k].bindings@, program_handle)
                    } else {
                        old(textures)@[k].bindings@
                    }
                },
        decreases n - i,
    {
        remove_program_bindings(&mut textures[i].bindings, program_handle);
        i += 1;
    }
}


// ---------------------------------------------------------------------------------------
// Checks
// ---------------------------------------------------------------------------------------

/// A check that passed (`None`) or the message it failed with.
pub open spec fn result_is(r: Result<(), String>, expected: Option<Seq<char>>) -> bool {
    match r {
        Ok(_) => expected is None,
        Err(msg) => expected == Some(msg@),
    }
}

/// What is wrong with uniform number `i`, if anything: no data, or an empty name.
pub open spec fn uniform_problem<T>(u: Uniform<T>, i: nat) -> Option<Seq<char>> {
    if u.data_location.data@.len() == 0 {
        Some("Uniform '"@ + u.name@ + "' does not have any data."@)
    } else if u.name@.len() == 0 {
        Some("Uniform #'"@ + decimal(i) + "' has empty name."@)
    } else {
        None
    }
}

/// The problem of the first uniform from position `from` on that has one.
pub open spec fn first_uniform_problem<T>(us: Seq<Uniform<T>>, from: int) -> Option<Seq<char>>
    decreases us.len() - from,
{
    if from < 0 || from >= us.len() {
        None
    } else {
        match uniform_problem(us[from], from as nat) {
            Some(m) => Some(m),
            None => first_uniform_problem(us, from + 1),
        }
    }
}

/// What is wrong with per-model uniform number `i`, if anything: an empty name, or a data
/// block without data.
pub open spec fn per_model_uniform_problem<T>(u: PerModelUnifrom<T>, i: nat) -> Option<Seq<char>> {
    if u.name@.len() == 0 {
        Some("Uniform #'"@ + decimal(i) + "' has empty name."@)
    } else if exists|k: int| 0 <= k < u.data_locations@.len() && (#[trigger] u.data_locations@[k]).data@.len() == 0 {
        Some("Per model uniform '"@ + u.name@ + "' has empty data at index "@ + decimal(i) + "."@)
    } else {
        None
    }
}

/// The problem of the first per-model uniform from position `from` on that has one.
pub open spec fn first_per_model_uniform_problem<T>(us: Seq<PerModelUnifrom<T>>, from: int) -> Option<Seq<char>>
    decreases us.len() - from,
{
    if from < 0 || from >= us.len() {
        None
    } else {
        match per_model_uniform_problem(us[from], from as nat) {
            Some(m) => Some(m),
            None => first_per_model_uniform_problem(us, from + 1),
        }
    }
}

/// Every per-model uniform has as many data blocks as the first one.
pub open spec fn per_model_lengths_consistent<T>(us: Seq<PerModelUnifrom<T>>) -> bool {
    forall|i: int| 1 <= i < us.len() ==> (#[trigger] us[i]).data_locations@.len() == us[0].data_locations@.len()
}

/// The first of two checks that fails, if any.
pub open spec fn first_of(a: Option<Seq<char>>, b: Option<Seq<char>>) -> Option<Seq<char>> {
    match a {
        Some(m) => Some(m),
        None => b,
    }
}

/// The first problem among the per-frame uniforms, group by group.
pub open spec fn uniforms_problem<F>(u: Uniforms<F>) -> Option<Seq<char>> {
    first_of(
        first_uniform_problem(u.vec1f@, 0),
        first_of(
            first_uniform_problem(u.vec1u@, 0),
            first_of(
                first_uniform_problem(u.vec2f@, 0),
                first_of(first_uniform_problem(u.vec3f@, 0), first_uniform_problem(u.mat4x4f@, 0)),
            ),
        ),
    )
}

/// The first problem among the per-model uniforms, group by group.
pub open spec fn per_model_uniforms_problem<F>(u: PerModelUniforms<F>) -> Option<Seq<char>> {
    first_of(
        first_per_model_uniform_problem(u.vec1f@, 0),
        first_of(
            first_per_model_uniform_problem(u.vec1u@, 0),
            first_of(
                first_per_model_uniform_problem(u.vec2f@, 0),
                first_of(
                    first_per_model_uniform_problem(u.vec3f@, 0),
                    first_per_model_uniform_problem(u.mat4x4f@, 0),
                ),
            ),
        ),
    )
}

/// The message of an inconsistent group of per-model uniforms.
pub open spec fn inconsistent_lengths_message() -> Seq<char> {
    "Per model uniforms have inconsistent lengths."@
}

/// Whether every group of per-model uniforms is consistent.
pub open spec fn per_model_uniforms_consistent<F>(u: PerModelUniforms<F>) -> bool {
    &&& per_model_lengths_consistent(u.vec1f@)
    &&& per_model_lengths_consistent(u.vec1u@)
    &&& per_model_lengths_consistent(u.vec2f@)
    &&& per_model_lengths_consistent(u.vec3f@)
    &&& per_model_lengths_consistent(u.mat4x4f@)
}

/// Checks that every uniform has data and a name; reports the first that does not.
pub fn check_empty_uniform<T>(uniforms: &[Uniform<T>]) -> (r: Result<(), String>)
    ensures
        result_is(r, first_uniform_problem(uniforms@, 0)),
{
    let n = uniforms.len();
    let mut i: usize = 0;
    while i < n
        invariant
            n == uniforms@.len(),
            i <= n,
            first_uniform_problem(uniforms@, 0) == first_uniform_problem(uniforms@, i as int),
        decreases n - i,
    {
        if uniforms[i].data_location.data.len() == 0 {
            let mut msg = owned("Uniform '");
            push_str(&mut msg, uniforms[i].name.as_str());
            push_str(&mut msg, "' does not have any data.");
            return Err(msg);
        }
        if uniforms[i].name.as_str().is_empty() {
            let mut msg = owned("Uniform #'");
            push_decimal(&mut msg, i as u64);
            push_str(&mut msg, "' has empty name.");
            return Err(msg);
        }
        i += 1;
    }
    Ok(())
}

/// Checks that every per-model uniform has a name and that none of its data blocks is
/// empty; reports the first that fails.
pub fn check_empty_per_model_uniform<T>(uniforms: &Vec<PerModelUnifrom<T>>) -> (r: Result<(), String>)
    ensures
        result_is(r, first_per_model_uniform_problem(uniforms@, 0)),
{
    let n = uniforms.len();
    let mut i: usize = 0;
    while i < n
        invariant
            n == uniforms@.len(),
            i <= n,
            first_per_model_uniform_problem(uniforms@, 0) == first_per_model_uniform_problem(uniforms@, i as int),
        decreases n - i,
    {
        if uniforms[i].name.as_str().is_empty() {
            let mut msg = owned("Uniform #'");
            push_decimal(&mut msg, i as u64);
            push_str(&mut msg, "' has empty name.");
            return Err(msg);
        }
        let m = uniforms[i].data_locations.len();
        let mut k: usize = 0;
        while k < m
            invariant
                n == uniforms@.len(),
                i < n,
                m == uniforms@[i as int].data_locations@.len(),
                k <= m,
                forall|kk: int| 0 <= kk < k ==> (#[trigger] uniforms@[i as int].data_locations@[kk]).data@.len() != 0,
                uniforms@[i as int].name@.len() != 0,
                first_per_model_uniform_problem(uniforms@, 0) == first_per_model_uniform_problem(uniforms@, i as int),
            decreases m - k,
        {
            if uniforms[i].data_locations[k].data.len() == 0 {
                assert(uniforms@[i as int].data_locations@[k as int].data@.len() == 0);
                let mut msg = owned("Per model uniform '");
                push_str(&mut msg, uniforms[i].name.as_str());
                push_str(&mut msg, "' has empty data at index ");
                push_decimal(&mut msg, i as u64);
                push_str(&mut msg, ".");
                return Err(msg);
            }
            k += 1;
        }
        i += 1;
    }
    Ok(())
}

/// Checks that all per-model uniforms of a group have the same number of data blocks.
pub fn check_per_model_uniform_consistency<T>(uniforms: &Vec<PerModelUnifrom<T>>) -> (r: Result<(), String>)
    ensures
        result_is(r, if per_model_lengths_consistent(uniforms@) { None } else { Some(inconsistent_lengths_message()) }),
{
    if uniforms.len() > 0 {
        let reference_len = uniforms[0].data_locations.len();
        let n = uniforms.len();
        let mut i: usize = 1;
        while i < n
            invariant
                n == uniforms@.len(),
                1 <= i <= n,
                reference_len == uniforms@[0].data_locations@.len(),
                forall|j: int| 1 <= j < i ==> (#[trigger] uniforms@[j]).data_locations@.len() == reference_len,
            decreases n - i,
        {
            if uniforms[i].data_locations.len() != reference_len {
                return Err(owned("Per model uniforms have inconsistent lengths."));
            }
            i += 1;
        }
    }
    Ok(())
}

/// Checks every group of per-frame uniforms, in the order vec1f, vec1u, vec2f, vec3f,
/// mat4x4f; reports the first problem.
pub fn check_empty_uniforms<F>(uniforms: &Uniforms<F>) -> (r: Result<(), String>)
    ensures
        result_is(r, uniforms_problem(*uniforms)),
{
    check_empty_uniform(uniforms.vec1f.as_slice())?;
    check_empty_uniform(uniforms.vec1u.as_slice())?;
    check_empty_uniform(uniforms.vec2f.as_slice())?;
    check_empty_uniform(uniforms.vec3f.as_slice())?;
    check_empty_uniform(uniforms.mat4x4f.as_slice())
}

/// Checks every group of per-model uniforms in the same order; reports the first problem.
pub fn check_empty_per_model_uniforms<F>(uniforms: &PerModelUniforms<F>) -> (r: Result<(), String>)
    ensures
        result_is(r, per_model_uniforms_problem(*uniforms)),
{
    check_empty_per_model_uniform(&uniforms.vec1f)?;
    check_empty_per_model_uniform(&uniforms.vec1u)?;
    check_empty_per_model_uniform(&uniforms.vec2f)?;
    check_empty_per_model_uniform(&uniforms.vec3f)?;
    check_empty_per_model_uniform(&uniforms.mat4x4f)
}

/// Checks the data block counts of every group of per-model uniforms.
pub fn check_per_model_uniforms_consistency<F>(uniforms: &PerModelUniforms<F>) -> (r: Result<(), String>)
    ensures
        result_is(
            r,
            if per_model_uniforms_consistent(*uniforms) { None } else { Some(inconsistent_lengths_message()) },
        ),
{
    check_per_model_uniform_consistency(&uniforms.vec1f)?;
    check_per_model_uniform_consistency(&uniforms.vec1u)?;
    check_per_model_uniform_consistency(&uniforms.vec2f)?;
    check_per_model_uniform_consistency(&uniforms.vec3f)?;
    check_per_model_uniform_consistency(&uniforms.mat4x4f)
}


// ---------------------------------------------------------------------------------------
// Binding and unbinding again
// ---------------------------------------------------------------------------------------

/// `new` holds what `old` holds: the same names, data and locations.
pub open spec fn uniforms_restored<T>(old: Seq<Uniform<T>>, new: Seq<Uniform<T>>) -> bool {
    &&& new.len() == old.len()
    &&& forall|i: int|
        0 <= i < old.len() ==> {
            &&& (#[trigger] new[i]).name == old[i].name
            &&& new[i].data_location.data == old[i].data_location.data
            &&& new[i].data_location.locations@ == old[i].data_location.locations@
        }
}

/// `new` holds what `old` holds: the same names, data blocks and locations.
pub open spec fn per_model_uniforms_restored<T>(old: Seq<PerModelUnifrom<T>>, new: Seq<PerModelUnifrom<T>>) -> bool {
    &&& new.len() == old.len()
    &&& forall|i: int|
        0 <= i < old.len() ==> {
            &&& (#[trigger] new[i]).name == old[i].name
            &&& new[i].data_locations@.len() == old[i].data_locations@.len()
            &&& forall|k: int|
                0 <= k < old[i].data_locations@.len() ==> {
                    &&& (#[trigger] new[i].data_locations@[k]).data == old[i].data_locations@[k].data
                    &&& new[i].data_locations@[k].locations@ == old[i].data_locations@[k].locations@
                }
        }
}

/// `new` holds what `old` holds: the same names, textures and bindings.
pub open spec fn samplers_restored(old: Seq<TextureSampler>, new: Seq<TextureSampler>) -> bool {
    &&& new.len() == old.len()
    &&& forall|i: int|
        0 <= i < old.len() ==> {
            &&& (#[trigger] new[i]).name == old[i].name
            &&& new[i].texture == old[i].texture
            &&& new[i].bindings@ == old[i].bindings@
        }
}

/// Binding uniforms to a program they were not bound to, then unbinding that program,
/// gives back what they held.
pub proof fn lemma_uniforms_unbind_undoes_bind<T>(
    old: Seq<Uniform<T>>,
    bound: Seq<Uniform<T>>,
    unbound: Seq<Uniform<T>>,
    program: ShaderProgram,
)
    requires
        uniforms_free_of(old, program.handle),
        uniforms_bound(old, bound, program),
        uniforms_unbound(bound, unbound, program.handle),
    ensures
        uniforms_restored(old, unbound),
{
    assert forall|i: int| 0 <= i < old.len() implies (#[trigger] unbound[i]).data_location.locations@
        == old[i].data_location.locations@ by {
        lemma_unbind_undoes_bind(old[i].data_location.locations@, program, old[i].name@);
        assert(bound[i].data_location.locations@ == bound_locations(
            old[i].data_location.locations@,
            program,
            old[i].name@,
        ));
    }
}

/// Binding per-model uniforms to a program they were not bound to, then unbinding that
/// program, gives back what they held.
pub proof fn lemma_per_model_unbind_undoes_bind<T>(
    old: Seq<PerModelUnifrom<T>>,
    bound: Seq<PerModelUnifrom<T>>,
    unbound: Seq<PerModelUnifrom<T>>,
    program: ShaderProgram,
)
    requires
        per_model_uniforms_free_of(old, program.handle),
        per_model_uniforms_bound(old, bound, program),
        per_model_uniforms_unbound(bound, unbound, program.handle),
    ensures
        per_model_uniforms_restored(old, unbound),
{
    assert forall|i: int, k: int| 0 <= i < old.len() && 0 <= k < old[i].data_locations@.len() implies (
    #[trigger] unbound[i].data_locations@[k]).locations@ == old[i].data_locations@[k].locations@ by {
        assert(locations_free_of(old[i].data_locations@[k].locations@, program.handle));
        lemma_unbind_undoes_bind(old[i].data_locations@[k].locations@, program, old[i].name@);
        assert(bound[i].data_locations@[k].locations@ == bound_locations(
            old[i].data_locations@[k].locations@,
            program,
            old[i].name@,
        ));
    }
    assert forall|i: int| 0 <= i < old.len() implies {
        &&& (#[trigger] unbound[i]).name == old[i].name
        &&& unbound[i].data_locations@.len() == old[i].data_locations@.len()
        &&& forall|k: int|
            0 <= k < old[i].data_locations@.len() ==> {
                &&& (#[trigger] unbound[i].data_locations@[k]).data == old[i].data_locations@[k].data
                &&& unbound[i].data_locations@[k].locations@ == old[i].data_locations@[k].locations@
            }
    } by {
        assert forall|k: int| 0 <= k < old[i].data_locations@.len() implies (#[trigger] unbound[i].data_locations@[k]).data
            == old[i].data_locations@[k].data by {
            assert(bound[i].data_locations@[k].data == old[i].data_locations@[k].data);
        }
    }
}

/// Binding samplers to a program they were not bound to, then unbinding that program,
/// gives back what they held.
pub proof fn lemma_samplers_unbind_undoes_bind(
    old: Seq<TextureSampler>,
    bound: Seq<TextureSampler>,
    unbound: Seq<TextureSampler>,
    program: ShaderProgram,
)
    requires
        samplers_free_of(old, program.handle),
        samplers_bound(old, bound, program),
        samplers_unbound(bound, unbound, program.handle),
    ensures
        samplers_restored(old, unbound),
{
    assert forall|i: int| 0 <= i < old.len() implies (#[trigger] unbound[i]).bindings@ == old[i].bindings@ by {
        lemma_unbind_sampler_undoes_bind(old[i].bindings@, program, old[i].name@);
        assert(bound[i].bindings@ == bound_bindings(old[i].bindings@, program, old[i].name@));
    }
}

// ---------------------------------------------------------------------------------------
// Upload
// ---------------------------------------------------------------------------------------

/// The location of the first entry of `locations` that belongs to program `handle`.
pub open spec fn program_location_of(locations: Seq<UniformProgramLocation>, handle: u32) -> Option<u32> {
    if exists|i: int| 0 <= i < locations.len() && locations[i].program == handle {
        let i = choose|i: int|
            0 <= i < locations.len() && locations[i].program == handle && forall|j: int|
                0 <= j < i ==> locations[j].program != handle;
        Some(locations[i].location)
    } else {
        None
    }
}

/// Where a uniform is uploaded for program `handle`: the first of its locations in that
/// program, if it has one there.
pub fn program_location(locations: &Vec<UniformProgramLocation>, handle: u32) -> (r: Option<u32>)
    ensures
        r == program_location_of(locations@, handle),
{
    let n = locations.len();
    let mut i: usize = 0;
    while i < n
        invariant
            n == locations@.len(),
            i <= n,
            forall|j: int| 0 <= j < i ==> locations@[j].program != handle,
        decreases n - i,
    {
        if locations[i].program == handle {
            proof {
                let w = i as int;
                assert(0 <= w < locations@.len() && locations@[w].program == handle && forall|j: int|
                    0 <= j < w ==> locations@[j].program != handle);
                let c = choose|c: int|
                    0 <= c < locations@.len() && locations@[c].program == handle && forall|j: int|
                        0 <= j < c ==> locations@[j].program != handle;
                if c < w {
                    assert(locations@[c].program != handle);
                } else if c > w {
                    assert(locations@[w].program != handle);
                }
            }
            return Some(locations[i].location);
        }
        i += 1;
    }
    None
}

/// The texture unit of the first binding of `bindings` that belongs to program `handle`.
pub open spec fn program_binding_of(bindings: Seq<SamplerProgramBinding>, handle: u32) -> Option<u32> {
    if exists|i: int| 0 <= i < bindings.len() && bindings[i].program == handle {
        let i = choose|i: int|
            0 <= i < bindings.len() && bindings[i].program == handle && forall|j: int|
                0 <= j < i ==> bindings[j].program != handle;
        Some(bindings[i].binding)
    } else {
        None
    }
}

/// The texture unit a sampler is bound to for program `handle`, if it is bound there.
pub fn program_binding(bindings: &Vec<SamplerProgramBinding>, handle: u32) -> (r: Option<u32>)
    ensures
        r == program_binding_of(bindings@, handle),
{
    let n = bindings.len();
    let mut i: usize = 0;
    while i < n
        invariant
            n == bindings@.len(),
            i <= n,
            forall|j: int| 0 <= j < i ==> bindings@[j].program != handle,
        decreases n - i,
    {
        if bindings[i].program == handle {
            proof {
                let w = i as int;
                assert(0 <= w < bindings@.len() && bindings@[w].program == handle && forall|j: int|
                    0 <= j < w ==> bindings@[j].program != handle);
                let c = choose|c: int|
                    0 <= c < bindings@.len() && bindings@[c].program == handle && forall|j: int|
                        0 <= j < c ==> bindings@[j].program != handle;
                if c < w {
                    assert(bindings@[c].program != handle);
                } else if c > w {
                    assert(bindings@[w].program != handle);
                }
            }
            return Some(bindings[i].binding);
        }
        i += 1;
    }
    None
}

} // verus!
