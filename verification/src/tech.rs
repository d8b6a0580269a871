//! Techniques: named sets of uniforms and textures that shader passes draw with.

use vstd::prelude::*;
use crate::shader::ShaderProgram;
use crate::text::{owned, push_str};
use crate::uniform::{
    PerModelUniforms, TextureSampler, Uniforms, bind_shader_program_to_scalar_per_model_uniforms,
    bind_shader_program_to_scalar_uniforms, bind_shader_program_to_texture_samplers,
    check_empty_per_model_uniforms, check_empty_uniforms, check_per_model_uniforms_consistency,
    inconsistent_lengths_message, per_model_uniforms_bound, per_model_uniforms_consistent,
    per_model_uniforms_free_of, per_model_uniforms_problem, per_model_uniforms_unbound,
    result_is, samplers_bound, samplers_free_of, samplers_unbound, uniforms_bound, uniforms_free_of,
    uniforms_problem, uniforms_unbound, unbind_shader_program_from_scalar_per_model_uniforms,
    unbind_shader_program_from_scalar_uniforms, unbind_shader_program_from_texture_samplers,
    lemma_per_model_unbind_undoes_bind, lemma_samplers_unbind_undoes_bind, lemma_uniforms_unbind_undoes_bind,
    per_model_uniforms_restored, samplers_restored, uniforms_restored,
};

verus! {

/// A named set of per-frame uniforms, per-model uniforms and textures.
pub struct Technique<F> {
    pub name: String,
    pub per_frame_uniforms: Uniforms<F>,
    pub per_model_uniforms: PerModelUniforms<F>,
    pub textures: Vec<TextureSampler>,
}

/// The techniques a pipeline knows about.
#[derive(Clone, Copy, PartialEq, Eq, Structural, Debug, Hash)]
pub enum Techniques {
    MVP,
    Lighting,
    Skybox,
    IBL,
    ToneMapping,
}

/// No uniform, per-model uniform or texture of `t` is bound to program `handle`.
pub open spec fn technique_free_of<F>(t: Technique<F>, handle: u32) -> bool {
    &&& uniforms_free_of(t.per_frame_uniforms.vec1f@, handle)
    &&& uniforms_free_of(t.per_frame_uniforms.vec1u@, handle)
    &&& uniforms_free_of(t.per_frame_uniforms.vec2f@, handle)
    &&& uniforms_free_of(t.per_frame_uniforms.vec3f@, handle)
    &&& uniforms_free_of(t.per_frame_uniforms.mat4x4f@, handle)
    &&& per_model_uniforms_free_of(t.per_model_uniforms.vec1f@, handle)
    &&& per_model_uniforms_free_of(t.per_model_uniforms.vec1u@, handle)
    &&& per_model_uniforms_free_of(t.per_model_uniforms.vec2f@, handle)
    &&& per_model_uniforms_free_of(t.per_model_uniforms.vec3f@, handle)
    &&& per_model_uniforms_free_of(t.per_model_uniforms.mat4x4f@, handle)
    &&& samplers_free_of(t.textures@, handle)
}

/// `new` is `old` with all its uniforms and textures bound to `program`.
pub open spec fn technique_bound<F>(old: Technique<F>, new: Technique<F>, program: ShaderProgram) -> bool {
    &&& new.name == old.name
    &&& uniforms_bound(old.per_frame_uniforms.vec1f@, new.per_frame_uniforms.vec1f@, program)
    &&& uniforms_bound(old.per_frame_uniforms.vec1u@, new.per_frame_uniforms.vec1u@, program)
    &&& uniforms_bound(old.per_frame_uniforms.vec2f@, new.per_frame_uniforms.vec2f@, program)
    &&& uniforms_bound(old.per_frame_uniforms.vec3f@, new.per_frame_uniforms.vec3f@, program)
    &&& uniforms_bound(old.per_frame_uniforms.mat4x4f@, new.per_frame_uniforms.mat4x4f@, program)
    &&& per_model_uniforms_bound(old.per_model_uniforms.vec1f@, new.per_model_uniforms.vec1f@, program)
    &&& per_model_uniforms_bound(old.per_model_uniforms.vec1u@, new.per_model_uniforms.vec1u@, program)
    &&& per_model_uniforms_bound(old.per_model_uniforms.vec2f@, new.per_model_uniforms.vec2f@, program)
    &&& per_model_uniforms_bound(old.per_model_uniforms.vec3f@, new.per_model_uniforms.vec3f@, program)
    &&& per_model_uniforms_bound(old.per_model_uniforms.mat4x4f@, new.per_model_uniforms.mat4x4f@, program)
    &&& samplers_bound(old.textures@, new.textures@, program)
}

/// `new` is `old` with everything of program `handle` removed from its uniforms and textures.
pub open spec fn technique_unbound<F>(old: Technique<F>, new: Technique<F>, handle: u32) -> bool {
    &&& new.name == old.name
    &&& uniforms_unbound(old.per_frame_uniforms.vec1f@, new.per_frame_uniforms.vec1f@, handle)
    &&& uniforms_unbound(old.per_frame_uniforms.vec1u@, new.per_frame_uniforms.vec1u@, handle)
    &&& uniforms_unbound(old.per_frame_uniforms.vec2f@, new.per_frame_uniforms.vec2f@, handle)
    &&& uniforms_unbound(old.per_frame_uniforms.vec3f@, new.per_frame_uniforms.vec3f@, handle)
    &&& uniforms_unbound(old.per_frame_uniforms.mat4x4f@, new.per_frame_uniforms.mat4x4f@, handle)
    &&& per_model_uniforms_unbound(old.per_model_uniforms.vec1f@, new.per_model_uniforms.vec1f@, handle)
    &&& per_model_uniforms_unbound(old.per_model_uniforms.vec1u@, new.per_model_uniforms.vec1u@, handle)
    &&& per_model_uniforms_unbound(old.per_model_uniforms.vec2f@, new.per_model_uniforms.vec2f@, handle)
    &&& per_model_uniforms_unbound(old.per_model_uniforms.vec3f@, new.per_model_uniforms.vec3f@, handle)
    &&& per_model_uniforms_unbound(old.per_model_uniforms.mat4x4f@, new.per_model_uniforms.mat4x4f@, handle)
    &&& samplers_unbound(old.textures@, new.textures@, handle)
}

/// The first problem of a technique: empty or unnamed uniforms, then per-model uniforms
/// with empty data, then per-model uniforms with inconsistent block counts.
pub open spec fn technique_problem<F>(t: Technique<F>) -> Option<Seq<char>> {
    match uniforms_problem(t.per_frame_uniforms) {
        Some(m) => Some("Technique '"@ + t.name@ + "' is invalid.\n"@ + m),
        None => match per_model_uniforms_problem(t.per_model_uniforms) {
            Some(m) => Some("Technique '"@ + t.name@ + "' is invalid.\n"@ + m),
            None => if per_model_uniforms_consistent(t.per_model_uniforms) {
                None
            } else {
                Some("Technique '"@ + t.name@ + "' is inlvalid!\n"@ + inconsistent_lengths_message())
            },
        },
    }
}

/// An empty technique is free of every program.
pub open spec fn technique_is_empty<F>(t: Technique<F>) -> bool {
    &&& t.per_frame_uniforms.vec1f@.len() == 0
    &&& t.per_frame_uniforms.vec1u@.len() == 0
    &&& t.per_frame_uniforms.vec2f@.len() == 0
    &&& t.per_frame_uniforms.vec3f@.len() == 0
    &&& t.per_frame_uniforms.mat4x4f@.len() == 0
    &&& t.per_model_uniforms.vec1f@.len() == 0
    &&& t.per_model_uniforms.vec1u@.len() == 0
    &&& t.per_model_uniforms.vec2f@.len() == 0
    &&& t.per_model_uniforms.vec3f@.len() == 0
    &&& t.per_model_uniforms.mat4x4f@.len() == 0
    &&& t.textures@.len() == 0
}

impl<F> Technique<F> {
    /// A technique named `name` without uniforms or textures.
    pub fn new(name: &str) -> (r: Technique<F>)
        ensures
            r.name@ == name@,
            technique_is_empty(r),
    {
        Technique {
            name: owned(name),
            per_frame_uniforms: Uniforms {
                vec1f: Vec::new(),
                vec1u: Vec::new(),
                vec2f: Vec::new(),
                vec3f: Vec::new(),
                mat4x4f: Vec::new(),
            },
            per_model_uniforms: PerModelUniforms {
                vec1f: Vec::new(),
                vec1u: Vec::new(),
                vec2f: Vec::new(),
                vec3f: Vec::new(),
                mat4x4f: Vec::new(),
            },
            textures: Vec::new(),
        }
    }
}

fn prefixed(name: &String, middle: &str, msg: String) -> (r: String)
    ensures
        r@ == "Technique '"@ + name@ + middle@ + msg@,
{
    let mut out = owned("Technique '");
    push_str(&mut out, name.as_str());
    push_str(&mut out, middle);
    push_str(&mut out, msg.as_str());
    out
}

/// Checks the uniforms of a technique and reports the first problem, prefixed by the
/// technique's name.
pub fn is_technique_valid<F>(technique: &Technique<F>) -> (r: Result<(), String>)
    ensures
        result_is(r, technique_problem(*technique)),
{
    if let Err(msg) = check_empty_uniforms(&technique.per_frame_uniforms) {
        return Err(prefixed(&technique.name, "' is invalid.\n", msg));
    }
    if let Err(msg) = check_empty_per_model_uniforms(&technique.per_model_uniforms) {
        return Err(prefixed(&technique.name, "' is invalid.\n", msg));
    }
    if let Err(msg) = check_per_model_uniforms_consistency(&technique.per_model_uniforms) {
        return Err(prefixed(&technique.name, "' is inlvalid!\n", msg));
    }
    Ok(())
}

/// Binds all uniforms and textures of a technique to `program`. The technique must not be
/// bound to the program yet.
pub fn bind_shader_program_to_technique<F>(technique: &mut Technique<F>, program: &ShaderProgram)
    requires
        technique_free_of(*old(technique), program.handle),
    ensures
        technique_bound(*old(technique), *final(technique), *program),
{
    bind_shader_program_to_scalar_uniforms(program, technique.per_frame_uniforms.vec1f.as_mut_slice());
    bind_shader_program_to_scalar_uniforms(program, technique.per_frame_uniforms.vec1u.as_mut_slice());
    bind_shader_program_to_scalar_uniforms(program, technique.per_frame_uniforms.vec2f.as_mut_slice());
    bind_shader_program_to_scalar_uniforms(program, technique.per_frame_uniforms.vec3f.as_mut_slice());
    bind_shader_program_to_scalar_uniforms(program, technique.per_frame_uniforms.mat4x4f.as_mut_slice());

    bind_shader_program_to_scalar_per_model_uniforms(program, &mut technique.per_model_uniforms.vec1f);
    bind_shader_program_to_scalar_per_model_uniforms(program, &mut technique.per_model_uniforms.vec1u);
    bind_shader_program_to_scalar_per_model_uniforms(program, &mut technique.per_model_uniforms.vec2f);
    bind_shader_program_to_scalar_per_model_uniforms(program, &mut technique.per_model_uniforms.vec3f);
    bind_shader_program_to_scalar_per_model_uniforms(program, &mut technique.per_model_uniforms.mat4x4f);

    bind_shader_program_to_texture_samplers(program, technique.textures.as_mut_slice());
}

/// Removes everything of program `program_handle` from the uniforms and textures of a
/// technique.
pub fn unbind_shader_program_from_technique<F>(technique: &mut Technique<F>, program_handle: u32)
    ensures
        technique_unbound(*old(technique), *final(technique), program_handle),
{
    unbind_shader_program_from_scalar_uniforms(program_handle, technique.per_frame_uniforms.vec1f.as_mut_slice());
    unbind_shader_program_from_scalar_uniforms(program_handle, technique.per_frame_uniforms.vec1u.as_mut_slice());
    unbind_shader_program_from_scalar_uniforms(program_handle, technique.per_frame_uniforms.vec2f.as_mut_slice());
    unbind_shader_program_from_scalar_uniforms(program_handle, technique.per_frame_uniforms.vec3f.as_mut_slice());
    unbind_shader_program_from_scalar_uniforms(program_handle, technique.per_frame_uniforms.mat4x4f.as_mut_slice());

    unbind_shader_program_from_scalar_per_model_uniforms(program_handle, &mut technique.per_model_uniforms.vec1f);
    unbind_shader_program_from_scalar_per_model_uniforms(program_handle, &mut technique.per_model_uniforms.vec1u);
    unbind_shader_program_from_scalar_per_model_uniforms(program_handle, &mut technique.per_model_uniforms.vec2f);
    unbind_shader_program_from_scalar_per_model_uniforms(program_handle, &mut technique.per_model_uniforms.vec3f);
    unbind_shader_program_from_scalar_per_model_uniforms(program_handle, &mut technique.per_model_uniforms.mat4x4f);

    unbind_shader_program_from_texture_samplers(program_handle, technique.textures.as_mut_slice());
}


/// The techniques of a pipeline, at most one per kind, in insertion order.
pub struct TechniqueContainer<F> {
    pub map: Vec<(Techniques, Technique<F>)>,
}

/// No kind occurs twice in the container.
pub open spec fn keys_distinct<F>(entries: Seq<(Techniques, Technique<F>)>) -> bool {
    forall|i: int, j: int| 0 <= i < j < entries.len() ==> entries[i].0 != entries[j].0
}

/// The position of kind `key` in the container, if it is there.
pub open spec fn key_index<F>(entries: Seq<(Techniques, Technique<F>)>, key: Techniques) -> Option<int> {
    if exists|i: int| 0 <= i < entries.len() && entries[i].0 == key {
        Some(choose|i: int| 0 <= i < entries.len() && entries[i].0 == key)
    } else {
        None
    }
}

/// The technique of kind `key`, if the container has one.
pub open spec fn technique_of<F>(entries: Seq<(Techniques, Technique<F>)>, key: Techniques) -> Option<Technique<F>> {
    match key_index(entries, key) {
        Some(i) => Some(entries[i].1),
        None => None,
    }
}

proof fn lemma_key_index<F>(entries: Seq<(Techniques, Technique<F>)>, i: int)
    requires
        keys_distinct(entries),
        0 <= i < entries.len(),
    ensures
        key_index(entries, entries[i].0) == Some(i),
{
    let k = choose|k: int| 0 <= k < entries.len() && entries[k].0 == entries[i].0;
    if k != i {
        if k < i {
        } else {
        }
    }
}

impl<F> TechniqueContainer<F> {
    /// An empty container.
    pub fn new() -> (r: TechniqueContainer<F>)
        ensures
            r.map@.len() == 0,
    {
        TechniqueContainer { map: Vec::new() }
    }

    /// The position of the technique of kind `key`, if there is one.
    pub fn position(&self, key: Techniques) -> (r: Option<usize>)
        requires
            keys_distinct(self.map@),
        ensures
            match r {
                Some(i) => key_index(self.map@, key) == Some(i as int),
                None => key_index(self.map@, key) is None,
            },
    {
        let n = self.map.len();
        let mut i: usize = 0;
        while i < n
            invariant
                n == self.map@.len(),
                i <= n,
                forall|j: int| 0 <= j < i ==> self.map@[j].0 != key,
                keys_distinct(self.map@),
            decreases n - i,
        {
            if self.map[i].0 == key {
                proof { lemma_key_index(self.map@, i as int); }
                return Some(i);
            }
            i += 1;
        }
        None
    }

    /// The technique of kind `key`, if there is one.
    pub fn get(&self, key: Techniques) -> (r: Option<&Technique<F>>)
        requires
            keys_distinct(self.map@),
        ensures
            match r {
                Some(t) => technique_of(self.map@, key) == Some(*t),
                None => technique_of(self.map@, key) is None,
            },
    {
        match self.position(key) {
            Some(i) => Some(&self.map[i].1),
            None => None,
        }
    }

    /// Sets the technique of kind `key`, replacing and returning the one it had.
    pub fn insert(&mut self, key: Techniques, technique: Technique<F>) -> (r: Option<Technique<F>>)
        requires
            keys_distinct(old(self).map@),
        ensures
            keys_distinct(final(self).map@),
            technique_of(final(self).map@, key) == Some(technique),
            r == technique_of(old(self).map@, key),
            forall|k: Techniques| k != key ==> technique_of(final(self).map@, k) == technique_of(old(self).map@, k),
    {
        match self.position(key) {
            Some(i) => {
                let mut old_entry = (key, technique);
                std::mem::swap(&mut self.map[i], &mut old_entry);
                proof {
                    lemma_key_index(self.map@, i as int);
                    assert forall|k: Techniques| k != key implies technique_of(self.map@, k) == technique_of(old(self).map@, k) by {
                        if exists|j: int| 0 <= j < old(self).map@.len() && old(self).map@[j].0 == k {
                            let j = choose|j: int| 0 <= j < old(self).map@.len() && old(self).map@[j].0 == k;
                            lemma_key_index(old(self).map@, j);
                            lemma_key_index(self.map@, j);
                        } else {
                            assert(!exists|j: int| 0 <= j < self.map@.len() && self.map@[j].0 == k);
                        }
                    }
                }
                Some(old_entry.1)
            },
            None => {
                self.map.push((key, technique));
                proof {
                    let n = old(self).map@.len() as int;
                    lemma_key_index(self.map@, n);
                    assert forall|k: Techniques| k != key implies technique_of(self.map@, k) == technique_of(old(self).map@, k) by {
                        if exists|j: int| 0 <= j < old(self).map@.len() && old(self).map@[j].0 == k {
                            let j = choose|j: int| 0 <= j < old(self).map@.len() && old(self).map@[j].0 == k;
                            lemma_key_index(old(self).map@, j);
                            lemma_key_index(self.map@, j);
                        } else {
                            assert(!exists|j: int| 0 <= j < self.map@.len() && self.map@[j].0 == k);
                        }
                    }
                }
                None
            },
        }
    }
}


/// `new` holds what `old` holds: the same name, and uniforms, per-model uniforms and
/// textures that hold the same names, data, locations and bindings.
pub open spec fn technique_restored<F>(old: Technique<F>, new: Technique<F>) -> bool {
    &&& new.name == old.name
    &&& uniforms_restored(old.per_frame_uniforms.vec1f@, new.per_frame_uniforms.vec1f@)
    &&& uniforms_restored(old.per_frame_uniforms.vec1u@, new.per_frame_uniforms.vec1u@)
    &&& uniforms_restored(old.per_frame_uniforms.vec2f@, new.per_frame_uniforms.vec2f@)
    &&& uniforms_restored(old.per_frame_uniforms.vec3f@, new.per_frame_uniforms.vec3f@)
    &&& uniforms_restored(old.per_frame_uniforms.mat4x4f@, new.per_frame_uniforms.mat4x4f@)
    &&& per_model_uniforms_restored(old.per_model_uniforms.vec1f@, new.per_model_uniforms.vec1f@)
    &&& per_model_uniforms_restored(old.per_model_uniforms.vec1u@, new.per_model_uniforms.vec1u@)
    &&& per_model_uniforms_restored(old.per_model_uniforms.vec2f@, new.per_model_uniforms.vec2f@)
    &&& per_model_uniforms_restored(old.per_model_uniforms.vec3f@, new.per_model_uniforms.vec3f@)
    &&& per_model_uniforms_restored(old.per_model_uniforms.mat4x4f@, new.per_model_uniforms.mat4x4f@)
    &&& samplers_restored(old.textures@, new.textures@)
}

/// Binding a technique to a program it is not bound to, then unbinding that program, gives
/// back the technique it was.
pub proof fn lemma_technique_unbind_undoes_bind<F>(
    old: Technique<F>,
    bound: Technique<F>,
    unbound: Technique<F>,
    program: ShaderProgram,
)
    requires
        technique_free_of(old, program.handle),
        technique_bound(old, bound, program),
        technique_unbound(bound, unbound, program.handle),
    ensures
        technique_restored(old, unbound),
{
    lemma_uniforms_unbind_undoes_bind(
        old.per_frame_uniforms.vec1f@,
        bound.per_frame_uniforms.vec1f@,
        unbound.per_frame_uniforms.vec1f@,
        program,
    );
    lemma_uniforms_unbind_undoes_bind(
        old.per_frame_uniforms.vec1u@,
        bound.per_frame_uniforms.vec1u@,
        unbound.per_frame_uniforms.vec1u@,
        program,
    );
    lemma_uniforms_unbind_undoes_bind(
        old.per_frame_uniforms.vec2f@,
        bound.per_frame_uniforms.vec2f@,
        unbound.per_frame_uniforms.vec2f@,
        program,
    );
    lemma_uniforms_unbind_undoes_bind(
        old.per_frame_uniforms.vec3f@,
        bound.per_frame_uniforms.vec3f@,
        unbound.per_frame_uniforms.vec3f@,
        program,
    );
    lemma_uniforms_unbind_undoes_bind(
        old.per_frame_uniforms.mat4x4f@,
        bound.per_frame_uniforms.mat4x4f@,
        unbound.per_frame_uniforms.mat4x4f@,
        program,
    );
    lemma_per_model_unbind_undoes_bind(
        old.per_model_uniforms.vec1f@,
        bound.per_model_uniforms.vec1f@,
        unbound.per_model_uniforms.vec1f@,
        program,
    );
    lemma_per_model_unbind_undoes_bind(
        old.per_model_uniforms.vec1u@,
        bound.per_model_uniforms.vec1u@,
        unbound.per_model_uniforms.vec1u@,
        program,
    );
    lemma_per_model_unbind_undoes_bind(
        old.per_model_uniforms.vec2f@,
        bound.per_model_uniforms.vec2f@,
        unbound.per_model_uniforms.vec2f@,
        program,
    );
    lemma_per_model_unbind_undoes_bind(
        old.per_model_uniforms.vec3f@,
        bound.per_model_uniforms.vec3f@,
        unbound.per_model_uniforms.vec3f@,
        program,
    );
    lemma_per_model_unbind_undoes_bind(
        old.per_model_uniforms.mat4x4f@,
        bound.per_model_uniforms.mat4x4f@,
        unbound.per_model_uniforms.mat4x4f@,
        program,
    );
    lemma_samplers_unbind_undoes_bind(old.textures@, bound.textures@, unbound.textures@, program);
}

} // verus!
