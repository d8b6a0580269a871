//! Binding uniforms, samplers and techniques to several programs, then unbinding those
//! programs again. Two values "agree outside" a set of program handles when they hold the
//! same names and data, and the same locations and bindings once those of the programs in
//! the set are left out. Binding and unbinding a program of the set keeps that agreement;
//! a value that holds nothing of the set equals every value it agrees with that holds
//! nothing of the set either.

use vstd::prelude::*;
use crate::shader::{ShaderProgram, scalar_uniform_location, sampler_binding};
use crate::pass::{Pass, container_bound, container_free_of, container_unbound};
use crate::pipeline::{container_bound_all, container_unbound_all};
use crate::tech::{Technique, Techniques, technique_bound, technique_free_of, technique_restored, technique_unbound};
use crate::uniform::{
    PerModelUnifrom, SamplerProgramBinding, TextureSampler, Uniform, UniformProgramLocation, bindings_free_of,
    bindings_without_program, bound_bindings, bound_locations, lemma_filter_all, lemma_filter_push,
    locations_free_of, per_model_uniforms_bound, per_model_uniforms_free_of, per_model_uniforms_restored,
    per_model_uniforms_unbound, samplers_bound, samplers_free_of, samplers_restored, samplers_unbound,
    uniforms_bound, uniforms_free_of, uniforms_restored, uniforms_unbound, without_program,
};

verus! {

/// The locations that belong to none of the programs `handles`.
pub open spec fn locations_outside(locations: Seq<UniformProgramLocation>, handles: Set<u32>) -> Seq<UniformProgramLocation> {
    locations.filter(|l: UniformProgramLocation| !handles.contains(l.program))
}

/// The bindings that belong to none of the programs `handles`.
pub open spec fn bindings_outside(bindings: Seq<SamplerProgramBinding>, handles: Set<u32>) -> Seq<SamplerProgramBinding> {
    bindings.filter(|b: SamplerProgramBinding| !handles.contains(b.program))
}

/// `a` and `b` hold the same uniforms, leaving out the locations of the programs `handles`.
pub open spec fn uniforms_agree_outside<T>(a: Seq<Uniform<T>>, b: Seq<Uniform<T>>, handles: Set<u32>) -> bool {
    &&& b.len() == a.len()
    &&& forall|i: int|
        0 <= i < a.len() ==> {
            &&& (#[trigger] b[i]).name == a[i].name
            &&& b[i].data_location.data == a[i].data_location.data
            &&& locations_outside(b[i].data_location.locations@, handles) == locations_outside(
                a[i].data_location.locations@,
                handles,
            )
        }
}

/// `a` and `b` hold the same per-model uniforms, leaving out the locations of the programs
/// `handles`.
pub open spec fn per_model_uniforms_agree_outside<T>(
    a: Seq<PerModelUnifrom<T>>,
    b: Seq<PerModelUnifrom<T>>,
    handles: Set<u32>,
) -> bool {
    &&& b.len() == a.len()
    &&& forall|i: int|
        0 <= i < a.len() ==> {
            &&& (#[trigger] b[i]).name == a[i].name
            &&& b[i].data_locations@.len() == a[i].data_locations@.len()
            &&& forall|k: int|
                0 <= k < a[i].data_locations@.len() ==> {
                    &&& (#[trigger] b[i].data_locations@[k]).data == a[i].data_locations@[k].data
                    &&& locations_outside(b[i].data_locations@[k].locations@, handles) == locations_outside(
                        a[i].data_locations@[k].locations@,
                        handles,
                    )
                }
        }
}

/// `a` and `b` hold the same samplers, leaving out the bindings of the programs `handles`.
pub open spec fn samplers_agree_outside(a: Seq<TextureSampler>, b: Seq<TextureSampler>, handles: Set<u32>) -> bool {
    &&& b.len() == a.len()
    &&& forall|i: int|
        0 <= i < a.len() ==> {
            &&& (#[trigger] b[i]).name == a[i].name
            &&& b[i].texture == a[i].texture
            &&& bindings_outside(b[i].bindings@, handles) == bindings_outside(a[i].bindings@, handles)
        }
}

// ---------------------------------------------------------------------------------------
// Locations and bindings
// ---------------------------------------------------------------------------------------

proof fn lemma_filter_narrower<A>(s: Seq<A>, p: spec_fn(A) -> bool, q: spec_fn(A) -> bool)
    requires
        forall|x: A| #[trigger] q(x) ==> p(x),
    ensures
        s.filter(p).filter(q) == s.filter(q),
    decreases s.len(),
{
    if s.len() == 0 {
        reveal(Seq::filter);
        assert(s.filter(p) =~= Seq::<A>::empty());
        assert(s.filter(q) =~= Seq::<A>::empty());
        assert(s.filter(p).filter(q) =~= Seq::<A>::empty());
    } else {
        let t = s.drop_last();
        let x = s.last();
        assert(t.push(x) =~= s);
        lemma_filter_narrower(t, p, q);
        lemma_filter_push(t, x, p);
        lemma_filter_push(t, x, q);
        lemma_filter_push(t.filter(p), x, q);
    }
}

proof fn lemma_filter_keeps<A>(s: Seq<A>, p: spec_fn(A) -> bool, r: spec_fn(A) -> bool)
    requires
        forall|j: int| 0 <= j < s.len() ==> r(#[trigger] s[j]),
    ensures
        forall|j: int| 0 <= j < s.filter(p).len() ==> r(#[trigger] s.filter(p)[j]),
    decreases s.len(),
{
    if s.len() == 0 {
        reveal(Seq::filter);
        assert(s.filter(p) =~= Seq::<A>::empty());
    } else {
        let t = s.drop_last();
        assert(t.push(s.last()) =~= s);
        lemma_filter_keeps(t, p, r);
        lemma_filter_push(t, s.last(), p);
    }
}

proof fn lemma_locations_bound_outside(
    locations: Seq<UniformProgramLocation>,
    program: ShaderProgram,
    name: Seq<char>,
    handles: Set<u32>,
)
    requires
        handles.contains(program.handle),
    ensures
        locations_outside(bound_locations(locations, program, name), handles) == locations_outside(locations, handles),
{
    match scalar_uniform_location(program, name) {
        Some(location) => {
            lemma_filter_push(
                locations,
                UniformProgramLocation { location, program: program.handle },
                |l: UniformProgramLocation| !handles.contains(l.program),
            );
        },
        None => {},
    }
}

proof fn lemma_locations_unbound_outside(locations: Seq<UniformProgramLocation>, handle: u32, handles: Set<u32>)
    requires
        handles.contains(handle),
    ensures
        locations_outside(without_program(locations, handle), handles) == locations_outside(locations, handles),
{
    lemma_filter_narrower(
        locations,
        |l: UniformProgramLocation| l.program != handle,
        |l: UniformProgramLocation| !handles.contains(l.program),
    );
}

proof fn lemma_locations_outside_free(locations: Seq<UniformProgramLocation>, handles: Set<u32>)
    requires
        forall|h: u32| #[trigger] handles.contains(h) ==> locations_free_of(locations, h),
    ensures
        locations_outside(locations, handles) == locations,
{
    assert forall|j: int| 0 <= j < locations.len() implies !handles.contains(#[trigger] locations[j].program) by {
        if handles.contains(locations[j].program) {
            assert(locations_free_of(locations, locations[j].program));
        }
    }
    lemma_filter_all(locations, |l: UniformProgramLocation| !handles.contains(l.program));
}

pub(crate) proof fn lemma_locations_unbound_free(locations: Seq<UniformProgramLocation>, handle: u32, other: u32)
    ensures
        locations_free_of(without_program(locations, handle), handle),
        locations_free_of(locations, other) ==> locations_free_of(without_program(locations, handle), other),
{
    let p = |l: UniformProgramLocation| l.program != handle;
    locations.filter_lemma(p);
    if locations_free_of(locations, other) {
        lemma_filter_keeps(locations, p, |l: UniformProgramLocation| l.program != other);
    }
}

proof fn lemma_bindings_bound_outside(
    bindings: Seq<SamplerProgramBinding>,
    program: ShaderProgram,
    name: Seq<char>,
    handles: Set<u32>,
)
    requires
        handles.contains(program.handle),
    ensures
        bindings_outside(bound_bindings(bindings, program, name), handles) == bindings_outside(bindings, handles),
{
    match sampler_binding(program, name) {
        Some(binding) => {
            lemma_filter_push(
                bindings,
                SamplerProgramBinding { binding, program: program.handle },
                |b: SamplerProgramBinding| !handles.contains(b.program),
            );
        },
        None => {},
    }
}

proof fn lemma_bindings_unbound_outside(bindings: Seq<SamplerProgramBinding>, handle: u32, handles: Set<u32>)
    requires
        handles.contains(handle),
    ensures
        bindings_outside(bindings_without_program(bindings, handle), handles) == bindings_outside(bindings, handles),
{
    lemma_filter_narrower(
        bindings,
        |b: SamplerProgramBinding| b.program != handle,
        |b: SamplerProgramBinding| !handles.contains(b.program),
    );
}

proof fn lemma_bindings_outside_free(bindings: Seq<SamplerProgramBinding>, handles: Set<u32>)
    requires
        forall|h: u32| #[trigger] handles.contains(h) ==> bindings_free_of(bindings, h),
    ensures
        bindings_outside(bindings, handles) == bindings,
{
    assert forall|j: int| 0 <= j < bindings.len() implies !handles.contains(#[trigger] bindings[j].program) by {
        if handles.contains(bindings[j].program) {
            assert(bindings_free_of(bindings, bindings[j].program));
        }
    }
    lemma_filter_all(bindings, |b: SamplerProgramBinding| !handles.contains(b.program));
}

proof fn lemma_bindings_unbound_free(bindings: Seq<SamplerProgramBinding>, handle: u32, other: u32)
    ensures
        bindings_free_of(bindings_without_program(bindings, handle), handle),
        bindings_free_of(bindings, other) ==> bindings_free_of(bindings_without_program(bindings, handle), other),
{
    let p = |b: SamplerProgramBinding| b.program != handle;
    bindings.filter_lemma(p);
    if bindings_free_of(bindings, other) {
        lemma_filter_keeps(bindings, p, |b: SamplerProgramBinding| b.program != other);
    }
}

// ---------------------------------------------------------------------------------------
// Uniforms, per-model uniforms and samplers
// ---------------------------------------------------------------------------------------

pub(crate) proof fn lemma_uniforms_bound_agree<T>(a: Seq<Uniform<T>>, b: Seq<Uniform<T>>, program: ShaderProgram, handles: Set<u32>)
    requires
        uniforms_bound(a, b, program),
        handles.contains(program.handle),
    ensures
        uniforms_agree_outside(a, b, handles),
{
    assert forall|i: int| 0 <= i < a.len() implies locations_outside(
        (#[trigger] b[i]).data_location.locations@,
        handles,
    ) == locations_outside(a[i].data_location.locations@, handles) by {
        lemma_locations_bound_outside(a[i].data_location.locations@, program, a[i].name@, handles);
    }
}

pub(crate) proof fn lemma_uniforms_unbound_agree<T>(a: Seq<Uniform<T>>, b: Seq<Uniform<T>>, handle: u32, handles: Set<u32>)
    requires
        uniforms_unbound(a, b, handle),
        handles.contains(handle),
    ensures
        uniforms_agree_outside(a, b, handles),
{
    assert forall|i: int| 0 <= i < a.len() implies locations_outside(
        (#[trigger] b[i]).data_location.locations@,
        handles,
    ) == locations_outside(a[i].data_location.locations@, handles) by {
        lemma_locations_unbound_outside(a[i].data_location.locations@, handle, handles);
    }
}

pub(crate) proof fn lemma_uniforms_agree_trans<T>(a: Seq<Uniform<T>>, b: Seq<Uniform<T>>, c: Seq<Uniform<T>>, handles: Set<u32>)
    requires
        uniforms_agree_outside(a, b, handles),
        uniforms_agree_outside(b, c, handles),
    ensures
        uniforms_agree_outside(a, c, handles),
{
    assert forall|i: int| 0 <= i < a.len() implies (#[trigger] c[i]).name == a[i].name by {
        assert(b[i].name == a[i].name);
    }
}

pub(crate) proof fn lemma_uniforms_unbound_free<T>(a: Seq<Uniform<T>>, b: Seq<Uniform<T>>, handle: u32, other: u32)
    requires
        uniforms_unbound(a, b, handle),
    ensures
        uniforms_free_of(b, handle),
        uniforms_free_of(a, other) ==> uniforms_free_of(b, other),
{
    assert forall|i: int| 0 <= i < b.len() implies locations_free_of(#[trigger] b[i].data_location.locations@, handle) && (
    uniforms_free_of(a, other) ==> locations_free_of(b[i].data_location.locations@, other)) by {
        lemma_locations_unbound_free(a[i].data_location.locations@, handle, other);
    }
}

pub(crate) proof fn lemma_uniforms_agree_restored<T>(a: Seq<Uniform<T>>, b: Seq<Uniform<T>>, handles: Set<u32>)
    requires
        uniforms_agree_outside(a, b, handles),
        forall|h: u32| #[trigger] handles.contains(h) ==> uniforms_free_of(a, h) && uniforms_free_of(b, h),
    ensures
        uniforms_restored(a, b),
{
    assert forall|i: int| 0 <= i < a.len() implies (#[trigger] b[i]).data_location.locations@
        == a[i].data_location.locations@ by {
        assert forall|h: u32| #[trigger] handles.contains(h) implies locations_free_of(a[i].data_location.locations@, h)
            && locations_free_of(b[i].data_location.locations@, h) by {
            assert(uniforms_free_of(a, h) && uniforms_free_of(b, h));
        }
        lemma_locations_outside_free(a[i].data_location.locations@, handles);
        lemma_locations_outside_free(b[i].data_location.locations@, handles);
    }
}

pub(crate) proof fn lemma_per_model_bound_agree<T>(
    a: Seq<PerModelUnifrom<T>>,
    b: Seq<PerModelUnifrom<T>>,
    program: ShaderProgram,
    handles: Set<u32>,
)
    requires
        per_model_uniforms_bound(a, b, program),
        handles.contains(program.handle),
    ensures
        per_model_uniforms_agree_outside(a, b, handles),
{
    assert forall|i: int, k: int| 0 <= i < a.len() && 0 <= k < a[i].data_locations@.len() implies locations_outside(
        (#[trigger] b[i].data_locations@[k]).locations@,
        handles,
    ) == locations_outside(a[i].data_locations@[k].locations@, handles) by {
        lemma_locations_bound_outside(a[i].data_locations@[k].locations@, program, a[i].name@, handles);
    }
}

pub(crate) proof fn lemma_per_model_unbound_agree<T>(
    a: Seq<PerModelUnifrom<T>>,
    b: Seq<PerModelUnifrom<T>>,
    handle: u32,
    handles: Set<u32>,
)
    requires
        per_model_uniforms_unbound(a, b, handle),
        handles.contains(handle),
    ensures
        per_model_uniforms_agree_outside(a, b, handles),
{
    assert forall|i: int, k: int| 0 <= i < a.len() && 0 <= k < a[i].data_locations@.len() implies locations_outside(
        (#[trigger] b[i].data_locations@[k]).locations@,
        handles,
    ) == locations_outside(a[i].data_locations@[k].locations@, handles) by {
        lemma_locations_unbound_outside(a[i].data_locations@[k].locations@, handle, handles);
    }
}

pub(crate) proof fn lemma_per_model_agree_trans<T>(
    a: Seq<PerModelUnifrom<T>>,
    b: Seq<PerModelUnifrom<T>>,
    c: Seq<PerModelUnifrom<T>>,
    handles: Set<u32>,
)
    requires
        per_model_uniforms_agree_outside(a, b, handles),
        per_model_uniforms_agree_outside(b, c, handles),
    ensures
        per_model_uniforms_agree_outside(a, c, handles),
{
    assert forall|i: int| 0 <= i < a.len() implies {
        &&& (#[trigger] c[i]).name == a[i].name
        &&& c[i].data_locations@.len() == a[i].data_locations@.len()
        &&& forall|k: int|
            0 <= k < a[i].data_locations@.len() ==> {
                &&& (#[trigger] c[i].data_locations@[k]).data == a[i].data_locations@[k].data
                &&& locations_outside(c[i].data_locations@[k].locations@, handles) == locations_outside(
                    a[i].data_locations@[k].locations@,
                    handles,
                )
            }
    } by {
        assert(b[i].name == a[i].name);
        assert(c[i].name == b[i].name);
        assert forall|k: int| 0 <= k < a[i].data_locations@.len() implies {
            &&& (#[trigger] c[i].data_locations@[k]).data == a[i].data_locations@[k].data
            &&& locations_outside(c[i].data_locations@[k].locations@, handles) == locations_outside(
                a[i].data_locations@[k].locations@,
                handles,
            )
        } by {
            assert(b[i].data_locations@[k].data == a[i].data_locations@[k].data);
        }
    }
}

pub(crate) proof fn lemma_per_model_unbound_free<T>(
    a: Seq<PerModelUnifrom<T>>,
    b: Seq<PerModelUnifrom<T>>,
    handle: u32,
    other: u32,
)
    requires
        per_model_uniforms_unbound(a, b, handle),
    ensures
        per_model_uniforms_free_of(b, handle),
        per_model_uniforms_free_of(a, other) ==> per_model_uniforms_free_of(b, other),
{
    assert forall|i: int, k: int| 0 <= i < b.len() && 0 <= k < b[i].data_locations@.len() implies locations_free_of(
        #[trigger] b[i].data_locations@[k].locations@,
        handle,
    ) && (per_model_uniforms_free_of(a, other) ==> locations_free_of(b[i].data_locations@[k].locations@, other)) by {
        assert(b[i].data_locations@[k].locations@ == without_program(a[i].data_locations@[k].locations@, handle));
        lemma_locations_unbound_free(a[i].data_locations@[k].locations@, handle, other);
    }
}

pub(crate) proof fn lemma_per_model_agree_restored<T>(a: Seq<PerModelUnifrom<T>>, b: Seq<PerModelUnifrom<T>>, handles: Set<u32>)
    requires
        per_model_uniforms_agree_outside(a, b, handles),
        forall|h: u32| #[trigger] handles.contains(h) ==> per_model_uniforms_free_of(a, h) && per_model_uniforms_free_of(b, h),
    ensures
        per_model_uniforms_restored(a, b),
{
    assert forall|i: int, k: int| 0 <= i < a.len() && 0 <= k < a[i].data_locations@.len() implies (
    #[trigger] b[i].data_locations@[k]).locations@ == a[i].data_locations@[k].locations@ by {
        assert forall|h: u32| #[trigger] handles.contains(h) implies locations_free_of(a[i].data_locations@[k].locations@, h)
            && locations_free_of(b[i].data_locations@[k].locations@, h) by {
            assert(per_model_uniforms_free_of(a, h) && per_model_uniforms_free_of(b, h));
        }
        lemma_locations_outside_free(a[i].data_locations@[k].locations@, handles);
        lemma_locations_outside_free(b[i].data_locations@[k].locations@, handles);
    }
}

pub(crate) proof fn lemma_samplers_bound_agree(a: Seq<TextureSampler>, b: Seq<TextureSampler>, program: ShaderProgram, handles: Set<u32>)
    requires
        samplers_bound(a, b, program),
        handles.contains(program.handle),
    ensures
        samplers_agree_outside(a, b, handles),
{
    assert forall|i: int| 0 <= i < a.len() implies bindings_outside((#[trigger] b[i]).bindings@, handles)
        == bindings_outside(a[i].bindings@, handles) by {
        lemma_bindings_bound_outside(a[i].bindings@, program, a[i].name@, handles);
    }
}

pub(crate) proof fn lemma_samplers_unbound_agree(a: Seq<TextureSampler>, b: Seq<TextureSampler>, handle: u32, handles: Set<u32>)
    requires
        samplers_unbound(a, b, handle),
        handles.contains(handle),
    ensures
        samplers_agree_outside(a, b, handles),
{
    assert forall|i: int| 0 <= i < a.len() implies bindings_outside((#[trigger] b[i]).bindings@, handles)
        == bindings_outside(a[i].bindings@, handles) by {
        lemma_bindings_unbound_outside(a[i].bindings@, handle, handles);
    }
}

pub(crate) proof fn lemma_samplers_agree_trans(a: Seq<TextureSampler>, b: Seq<TextureSampler>, c: Seq<TextureSampler>, handles: Set<u32>)
    requires
        samplers_agree_outside(a, b, handles),
        samplers_agree_outside(b, c, handles),
    ensures
        samplers_agree_outside(a, c, handles),
{
    assert forall|i: int| 0 <= i < a.len() implies (#[trigger] c[i]).name == a[i].name && c[i].texture == a[i].texture by {
        assert(b[i].name == a[i].name);
    }
}

pub(crate) proof fn lemma_samplers_unbound_free(a: Seq<TextureSampler>, b: Seq<TextureSampler>, handle: u32, other: u32)
    requires
        samplers_unbound(a, b, handle),
    ensures
        samplers_free_of(b, handle),
        samplers_free_of(a, other) ==> samplers_free_of(b, other),
{
    assert forall|i: int| 0 <= i < b.len() implies bindings_free_of(#[trigger] b[i].bindings@, handle) && (samplers_free_of(
        a,
        other,
    ) ==> bindings_free_of(b[i].bindings@, other)) by {
        lemma_bindings_unbound_free(a[i].bindings@, handle, other);
    }
}

pub(crate) proof fn lemma_samplers_agree_restored(a: Seq<TextureSampler>, b: Seq<TextureSampler>, handles: Set<u32>)
    requires
        samplers_agree_outside(a, b, handles),
        forall|h: u32| #[trigger] handles.contains(h) ==> samplers_free_of(a, h) && samplers_free_of(b, h),
    ensures
        samplers_restored(a, b),
{
    assert forall|i: int| 0 <= i < a.len() implies (#[trigger] b[i]).bindings@ == a[i].bindings@ by {
        assert forall|h: u32| #[trigger] handles.contains(h) implies bindings_free_of(a[i].bindings@, h)
            && bindings_free_of(b[i].bindings@, h) by {
            assert(samplers_free_of(a, h) && samplers_free_of(b, h));
        }
        lemma_bindings_outside_free(a[i].bindings@, handles);
        lemma_bindings_outside_free(b[i].bindings@, handles);
    }
}

// ---------------------------------------------------------------------------------------
// Techniques
// ---------------------------------------------------------------------------------------

/// `a` and `b` are the same technique, leaving out the locations and bindings of the
/// programs `handles`.
pub open spec fn technique_agrees_outside<F>(a: Technique<F>, b: Technique<F>, handles: Set<u32>) -> bool {
    &&& b.name == a.name
    &&& uniforms_agree_outside(a.per_frame_uniforms.vec1f@, b.per_frame_uniforms.vec1f@, handles)
    &&& uniforms_agree_outside(a.per_frame_uniforms.vec1u@, b.per_frame_uniforms.vec1u@, handles)
    &&& uniforms_agree_outside(a.per_frame_uniforms.vec2f@, b.per_frame_uniforms.vec2f@, handles)
    &&& uniforms_agree_outside(a.per_frame_uniforms.vec3f@, b.per_frame_uniforms.vec3f@, handles)
    &&& uniforms_agree_outside(a.per_frame_uniforms.mat4x4f@, b.per_frame_uniforms.mat4x4f@, handles)
    &&& per_model_uniforms_agree_outside(a.per_model_uniforms.vec1f@, b.per_model_uniforms.vec1f@, handles)
    &&& per_model_uniforms_agree_outside(a.per_model_uniforms.vec1u@, b.per_model_uniforms.vec1u@, handles)
    &&& per_model_uniforms_agree_outside(a.per_model_uniforms.vec2f@, b.per_model_uniforms.vec2f@, handles)
    &&& per_model_uniforms_agree_outside(a.per_model_uniforms.vec3f@, b.per_model_uniforms.vec3f@, handles)
    &&& per_model_uniforms_agree_outside(a.per_model_uniforms.mat4x4f@, b.per_model_uniforms.mat4x4f@, handles)
    &&& samplers_agree_outside(a.textures@, b.textures@, handles)
}

pub(crate) proof fn lemma_technique_bound_agrees<F>(a: Technique<F>, b: Technique<F>, program: ShaderProgram, handles: Set<u32>)
    requires
        technique_bound(a, b, program),
        handles.contains(program.handle),
    ensures
        technique_agrees_outside(a, b, handles),
{
    lemma_uniforms_bound_agree(a.per_frame_uniforms.vec1f@, b.per_frame_uniforms.vec1f@, program, handles);
    lemma_uniforms_bound_agree(a.per_frame_uniforms.vec1u@, b.per_frame_uniforms.vec1u@, program, handles);
    lemma_uniforms_bound_agree(a.per_frame_uniforms.vec2f@, b.per_frame_uniforms.vec2f@, program, handles);
    lemma_uniforms_bound_agree(a.per_frame_uniforms.vec3f@, b.per_frame_uniforms.vec3f@, program, handles);
    lemma_uniforms_bound_agree(a.per_frame_uniforms.mat4x4f@, b.per_frame_uniforms.mat4x4f@, program, handles);
    lemma_per_model_bound_agree(a.per_model_uniforms.vec1f@, b.per_model_uniforms.vec1f@, program, handles);
    lemma_per_model_bound_agree(a.per_model_uniforms.vec1u@, b.per_model_uniforms.vec1u@, program, handles);
    lemma_per_model_bound_agree(a.per_model_uniforms.vec2f@, b.per_model_uniforms.vec2f@, program, handles);
    lemma_per_model_bound_agree(a.per_model_uniforms.vec3f@, b.per_model_uniforms.vec3f@, program, handles);
    lemma_per_model_bound_agree(a.per_model_uniforms.mat4x4f@, b.per_model_uniforms.mat4x4f@, program, handles);
    lemma_samplers_bound_agree(a.textures@, b.textures@, program, handles);
}

pub(crate) proof fn lemma_technique_unbound_agrees<F>(a: Technique<F>, b: Technique<F>, handle: u32, handles: Set<u32>)
    requires
        technique_unbound(a, b, handle),
        handles.contains(handle),
    ensures
        technique_agrees_outside(a, b, handles),
{
    lemma_uniforms_unbound_agree(a.per_frame_uniforms.vec1f@, b.per_frame_uniforms.vec1f@, handle, handles);
    lemma_uniforms_unbound_agree(a.per_frame_uniforms.vec1u@, b.per_frame_uniforms.vec1u@, handle, handles);
    lemma_uniforms_unbound_agree(a.per_frame_uniforms.vec2f@, b.per_frame_uniforms.vec2f@, handle, handles);
    lemma_uniforms_unbound_agree(a.per_frame_uniforms.vec3f@, b.per_frame_uniforms.vec3f@, handle, handles);
    lemma_uniforms_unbound_agree(a.per_frame_uniforms.mat4x4f@, b.per_frame_uniforms.mat4x4f@, handle, handles);
    lemma_per_model_unbound_agree(a.per_model_uniforms.vec1f@, b.per_model_uniforms.vec1f@, handle, handles);
    lemma_per_model_unbound_agree(a.per_model_uniforms.vec1u@, b.per_model_uniforms.vec1u@, handle, handles);
    lemma_per_model_unbound_agree(a.per_model_uniforms.vec2f@, b.per_model_uniforms.vec2f@, handle, handles);
    lemma_per_model_unbound_agree(a.per_model_uniforms.vec3f@, b.per_model_uniforms.vec3f@, handle, handles);
    lemma_per_model_unbound_agree(a.per_model_uniforms.mat4x4f@, b.per_model_uniforms.mat4x4f@, handle, handles);
    lemma_samplers_unbound_agree(a.textures@, b.textures@, handle, handles);
}

pub(crate) proof fn lemma_technique_agrees_trans<F>(a: Technique<F>, b: Technique<F>, c: Technique<F>, handles: Set<u32>)
    requires
        technique_agrees_outside(a, b, handles),
        technique_agrees_outside(b, c, handles),
    ensures
        technique_agrees_outside(a, c, handles),
{
    lemma_uniforms_agree_trans(a.per_frame_uniforms.vec1f@, b.per_frame_uniforms.vec1f@, c.per_frame_uniforms.vec1f@, handles);
    lemma_uniforms_agree_trans(a.per_frame_uniforms.vec1u@, b.per_frame_uniforms.vec1u@, c.per_frame_uniforms.vec1u@, handles);
    lemma_uniforms_agree_trans(a.per_frame_uniforms.vec2f@, b.per_frame_uniforms.vec2f@, c.per_frame_uniforms.vec2f@, handles);
    lemma_uniforms_agree_trans(a.per_frame_uniforms.vec3f@, b.per_frame_uniforms.vec3f@, c.per_frame_uniforms.vec3f@, handles);
    lemma_uniforms_agree_trans(a.per_frame_uniforms.mat4x4f@, b.per_frame_uniforms.mat4x4f@, c.per_frame_uniforms.mat4x4f@, handles);
    lemma_per_model_agree_trans(a.per_model_uniforms.vec1f@, b.per_model_uniforms.vec1f@, c.per_model_uniforms.vec1f@, handles);
    lemma_per_model_agree_trans(a.per_model_uniforms.vec1u@, b.per_model_uniforms.vec1u@, c.per_model_uniforms.vec1u@, handles);
    lemma_per_model_agree_trans(a.per_model_uniforms.vec2f@, b.per_model_uniforms.vec2f@, c.per_model_uniforms.vec2f@, handles);
    lemma_per_model_agree_trans(a.per_model_uniforms.vec3f@, b.per_model_uniforms.vec3f@, c.per_model_uniforms.vec3f@, handles);
    lemma_per_model_agree_trans(a.per_model_uniforms.mat4x4f@, b.per_model_uniforms.mat4x4f@, c.per_model_uniforms.mat4x4f@, handles);
    lemma_samplers_agree_trans(a.textures@, b.textures@, c.textures@, handles);
}

pub(crate) proof fn lemma_technique_unbound_free<F>(a: Technique<F>, b: Technique<F>, handle: u32, other: u32)
    requires
        technique_unbound(a, b, handle),
    ensures
        technique_free_of(b, handle),
        technique_free_of(a, other) ==> technique_free_of(b, other),
{
    lemma_uniforms_unbound_free(a.per_frame_uniforms.vec1f@, b.per_frame_uniforms.vec1f@, handle, other);
    lemma_uniforms_unbound_free(a.per_frame_uniforms.vec1u@, b.per_frame_uniforms.vec1u@, handle, other);
    lemma_uniforms_unbound_free(a.per_frame_uniforms.vec2f@, b.per_frame_uniforms.vec2f@, handle, other);
    lemma_uniforms_unbound_free(a.per_frame_uniforms.vec3f@, b.per_frame_uniforms.vec3f@, handle, other);
    lemma_uniforms_unbound_free(a.per_frame_uniforms.mat4x4f@, b.per_frame_uniforms.mat4x4f@, handle, other);
    lemma_per_model_unbound_free(a.per_model_uniforms.vec1f@, b.per_model_uniforms.vec1f@, handle, other);
    lemma_per_model_unbound_free(a.per_model_uniforms.vec1u@, b.per_model_uniforms.vec1u@, handle, other);
    lemma_per_model_unbound_free(a.per_model_uniforms.vec2f@, b.per_model_uniforms.vec2f@, handle, other);
    lemma_per_model_unbound_free(a.per_model_uniforms.vec3f@, b.per_model_uniforms.vec3f@, handle, other);
    lemma_per_model_unbound_free(a.per_model_uniforms.mat4x4f@, b.per_model_uniforms.mat4x4f@, handle, other);
    lemma_samplers_unbound_free(a.textures@, b.textures@, handle, other);
}

pub(crate) proof fn lemma_technique_agrees_restored<F>(a: Technique<F>, b: Technique<F>, handles: Set<u32>)
    requires
        technique_agrees_outside(a, b, handles),
        forall|h: u32| #[trigger] handles.contains(h) ==> technique_free_of(a, h) && technique_free_of(b, h),
    ensures
        technique_restored(a, b),
{
    lemma_uniforms_agree_restored(a.per_frame_uniforms.vec1f@, b.per_frame_uniforms.vec1f@, handles);
    lemma_uniforms_agree_restored(a.per_frame_uniforms.vec1u@, b.per_frame_uniforms.vec1u@, handles);
    lemma_uniforms_agree_restored(a.per_frame_uniforms.vec2f@, b.per_frame_uniforms.vec2f@, handles);
    lemma_uniforms_agree_restored(a.per_frame_uniforms.vec3f@, b.per_frame_uniforms.vec3f@, handles);
    lemma_uniforms_agree_restored(a.per_frame_uniforms.mat4x4f@, b.per_frame_uniforms.mat4x4f@, handles);
    lemma_per_model_agree_restored(a.per_model_uniforms.vec1f@, b.per_model_uniforms.vec1f@, handles);
    lemma_per_model_agree_restored(a.per_model_uniforms.vec1u@, b.per_model_uniforms.vec1u@, handles);
    lemma_per_model_agree_restored(a.per_model_uniforms.vec2f@, b.per_model_uniforms.vec2f@, handles);
    lemma_per_model_agree_restored(a.per_model_uniforms.vec3f@, b.per_model_uniforms.vec3f@, handles);
    lemma_per_model_agree_restored(a.per_model_uniforms.mat4x4f@, b.per_model_uniforms.mat4x4f@, handles);
    lemma_samplers_agree_restored(a.textures@, b.textures@, handles);
}

// ---------------------------------------------------------------------------------------
// Technique containers and pipelines
// ---------------------------------------------------------------------------------------

/// `a` and `b` hold the same kinds in the same order, with techniques that agree outside
/// the programs `handles`.
pub open spec fn container_agrees_outside<F>(
    a: Seq<(Techniques, Technique<F>)>,
    b: Seq<(Techniques, Technique<F>)>,
    handles: Set<u32>,
) -> bool {
    &&& b.len() == a.len()
    &&& forall|i: int| 0 <= i < a.len() ==> (#[trigger] b[i]).0 == a[i].0 && technique_agrees_outside(a[i].1, b[i].1, handles)
}

/// `b` holds what `a` holds: the same kinds in the same order, each technique restored.
pub open spec fn container_restored<F>(a: Seq<(Techniques, Technique<F>)>, b: Seq<(Techniques, Technique<F>)>) -> bool {
    &&& b.len() == a.len()
    &&& forall|i: int| 0 <= i < a.len() ==> (#[trigger] b[i]).0 == a[i].0 && technique_restored(a[i].1, b[i].1)
}

proof fn lemma_container_agrees_refl<F>(a: Seq<(Techniques, Technique<F>)>, handles: Set<u32>)
    ensures
        container_agrees_outside(a, a, handles),
{
}

pub(crate) proof fn lemma_container_agrees_trans<F>(
    a: Seq<(Techniques, Technique<F>)>,
    b: Seq<(Techniques, Technique<F>)>,
    c: Seq<(Techniques, Technique<F>)>,
    handles: Set<u32>,
)
    requires
        container_agrees_outside(a, b, handles),
        container_agrees_outside(b, c, handles),
    ensures
        container_agrees_outside(a, c, handles),
{
    assert forall|i: int| 0 <= i < a.len() implies (#[trigger] c[i]).0 == a[i].0 && technique_agrees_outside(
        a[i].1,
        c[i].1,
        handles,
    ) by {
        assert(b[i].0 == a[i].0 && technique_agrees_outside(a[i].1, b[i].1, handles));
        lemma_technique_agrees_trans(a[i].1, b[i].1, c[i].1, handles);
    }
}

proof fn lemma_container_bound_agrees<F>(
    a: Seq<(Techniques, Technique<F>)>,
    b: Seq<(Techniques, Technique<F>)>,
    program: ShaderProgram,
    handles: Set<u32>,
)
    requires
        container_bound(a, b, program),
        handles.contains(program.handle),
    ensures
        container_agrees_outside(a, b, handles),
{
    assert forall|i: int| 0 <= i < a.len() implies (#[trigger] b[i]).0 == a[i].0 && technique_agrees_outside(
        a[i].1,
        b[i].1,
        handles,
    ) by {
        lemma_technique_bound_agrees(a[i].1, b[i].1, program, handles);
    }
}

proof fn lemma_container_unbound_agrees<F>(
    a: Seq<(Techniques, Technique<F>)>,
    b: Seq<(Techniques, Technique<F>)>,
    handle: u32,
    handles: Set<u32>,
)
    requires
        container_unbound(a, b, handle),
        handles.contains(handle),
    ensures
        container_agrees_outside(a, b, handles),
{
    assert forall|i: int| 0 <= i < a.len() implies (#[trigger] b[i]).0 == a[i].0 && technique_agrees_outside(
        a[i].1,
        b[i].1,
        handles,
    ) by {
        lemma_technique_unbound_agrees(a[i].1, b[i].1, handle, handles);
    }
}

pub(crate) proof fn lemma_container_unbound_free<F>(
    a: Seq<(Techniques, Technique<F>)>,
    b: Seq<(Techniques, Technique<F>)>,
    handle: u32,
    other: u32,
)
    requires
        container_unbound(a, b, handle),
    ensures
        container_free_of(b, handle),
        container_free_of(a, other) ==> container_free_of(b, other),
{
    assert forall|i: int| 0 <= i < b.len() implies technique_free_of((#[trigger] b[i]).1, handle) && (container_free_of(
        a,
        other,
    ) ==> technique_free_of(b[i].1, other)) by {
        lemma_technique_unbound_free(a[i].1, b[i].1, handle, other);
    }
}

pub(crate) proof fn lemma_container_agrees_restored<F>(
    a: Seq<(Techniques, Technique<F>)>,
    b: Seq<(Techniques, Technique<F>)>,
    handles: Set<u32>,
)
    requires
        container_agrees_outside(a, b, handles),
        forall|h: u32| #[trigger] handles.contains(h) ==> container_free_of(a, h) && container_free_of(b, h),
    ensures
        container_restored(a, b),
{
    assert forall|i: int| 0 <= i < a.len() implies (#[trigger] b[i]).0 == a[i].0 && technique_restored(a[i].1, b[i].1) by {
        assert forall|h: u32| #[trigger] handles.contains(h) implies technique_free_of(a[i].1, h) && technique_free_of(
            b[i].1,
            h,
        ) by {
            assert(container_free_of(a, h) && container_free_of(b, h));
        }
        lemma_technique_agrees_restored(a[i].1, b[i].1, handles);
    }
}

/// Binding a container to the programs of `passes`, one after another, keeps it agreeing
/// outside any set that holds those programs.
pub(crate) proof fn lemma_bound_all_agrees<F>(
    old: Seq<(Techniques, Technique<F>)>,
    new: Seq<(Techniques, Technique<F>)>,
    passes: Seq<Pass<F>>,
    handles: Set<u32>,
)
    requires
        container_bound_all(old, new, passes),
        forall|k: int| 0 <= k < passes.len() ==> handles.contains((#[trigger] passes[k]).program.handle),
    ensures
        container_agrees_outside(old, new, handles),
    decreases passes.len(),
{
    if passes.len() == 0 {
        lemma_container_agrees_refl(old, handles);
    } else {
        let mid = choose|mid: Seq<(Techniques, Technique<F>)>|
            container_bound_all(old, mid, passes.drop_last()) && #[trigger] container_bound(
                mid,
                new,
                passes.last().program,
            );
        assert forall|k: int| 0 <= k < passes.drop_last().len() implies handles.contains(
            (#[trigger] passes.drop_last()[k]).program.handle,
        ) by {
            assert(passes.drop_last()[k] == passes[k]);
        }
        lemma_bound_all_agrees(old, mid, passes.drop_last(), handles);
        assert(handles.contains(passes[passes.len() - 1].program.handle));
        lemma_container_bound_agrees(mid, new, passes.last().program, handles);
        lemma_container_agrees_trans(old, mid, new, handles);
    }
}

/// Unbinding a container from the programs of `passes`, one after another, keeps it
/// agreeing outside any set that holds those programs, and leaves it bound to none of them.
pub(crate) proof fn lemma_unbound_all_agrees<F>(
    old: Seq<(Techniques, Technique<F>)>,
    new: Seq<(Techniques, Technique<F>)>,
    passes: Seq<Pass<F>>,
    handles: Set<u32>,
)
    requires
        container_unbound_all(old, new, passes),
        forall|k: int| 0 <= k < passes.len() ==> handles.contains((#[trigger] passes[k]).program.handle),
    ensures
        container_agrees_outside(old, new, handles),
        forall|k: int| 0 <= k < passes.len() ==> container_free_of(new, (#[trigger] passes[k]).program.handle),
    decreases passes.len(),
{
    if passes.len() == 0 {
        lemma_container_agrees_refl(old, handles);
    } else {
        let mid = choose|mid: Seq<(Techniques, Technique<F>)>|
            container_unbound_all(old, mid, passes.drop_last()) && #[trigger] container_unbound(
                mid,
                new,
                passes.last().program.handle,
            );
        let rest = passes.drop_last();
        assert forall|k: int| 0 <= k < rest.len() implies handles.contains((#[trigger] rest[k]).program.handle) by {
            assert(rest[k] == passes[k]);
        }
        lemma_unbound_all_agrees(old, mid, rest, handles);
        assert(handles.contains(passes[passes.len() - 1].program.handle));
        lemma_container_unbound_agrees(mid, new, passes.last().program.handle, handles);
        lemma_container_agrees_trans(old, mid, new, handles);
        assert forall|k: int| 0 <= k < passes.len() implies container_free_of(new, (#[trigger] passes[k]).program.handle) by {
            lemma_container_unbound_free(mid, new, passes.last().program.handle, passes[k].program.handle);
            if k < rest.len() {
                assert(rest[k] == passes[k]);
                assert(container_free_of(mid, rest[k].program.handle));
            }
        }
    }
}

/// Unbinding a container from the programs of `passes`, one after another, keeps it free of
/// any program it was free of.
pub(crate) proof fn lemma_unbound_all_keeps_free<F>(
    old: Seq<(Techniques, Technique<F>)>,
    new: Seq<(Techniques, Technique<F>)>,
    passes: Seq<Pass<F>>,
    handle: u32,
)
    requires
        container_unbound_all(old, new, passes),
        container_free_of(old, handle),
    ensures
        container_free_of(new, handle),
    decreases passes.len(),
{
    if passes.len() > 0 {
        let mid = choose|mid: Seq<(Techniques, Technique<F>)>|
            container_unbound_all(old, mid, passes.drop_last()) && #[trigger] container_unbound(
                mid,
                new,
                passes.last().program.handle,
            );
        lemma_unbound_all_keeps_free(old, mid, passes.drop_last(), handle);
        lemma_container_unbound_free(mid, new, passes.last().program.handle, handle);
    }
}

} // verus!
