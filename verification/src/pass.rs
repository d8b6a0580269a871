//! Render passes: a program, the techniques it draws with, its framebuffer attachments,
//! and the textures of earlier passes it samples.

use vstd::prelude::*;
use crate::math::Vec4;
use crate::shader::{HostShaderProgramDescriptor, ShaderProgram};
use crate::mesh::DeviceMesh;
use crate::model::{DeviceModel, model_bound, model_free_of, model_unbound};
use crate::tech::{
    Technique, TechniqueContainer, Techniques, bind_shader_program_to_technique, keys_distinct,
    technique_bound, technique_free_of, technique_of, technique_unbound,
    unbind_shader_program_from_technique,
};
use crate::tex::{DeviceTexture, same_texture};
use crate::material::Property;
use crate::math::{Mat4x4, Vec1, Vec2, Vec3};
use crate::shader::{ShaderProgramAttribute, ShaderProgramScalarUniform, ShaderProgramTexture2d};
use crate::text::{decimal, owned, push_decimal, push_str, same_text};
use std::rc::Rc;
use crate::uniform::{PerModelUnifrom, TextureSampler, Uniform, bound_bindings};

verus! {

/// What an attachment holds and how it is cleared: a color with its clear color, or a depth
/// buffer with its clear depth and depth test function.
#[derive(Clone, Copy)]
pub enum PassAttachmentType<F> {
    Color(Vec4<F>),
    Depth(F, u32),
}

/// An attachment of an earlier pass: the pass's position in the pipeline, the attachment's
/// position in that pass, and its texture.
#[derive(Clone)]
pub struct OtherPassAttachmentSource {
    pub pipeline_index: usize,
    pub attachment_index: usize,
    pub device_texture: DeviceTexture,
}

/// Whether an attachment's texture belongs to this pass or to an earlier one.
#[derive(Clone)]
pub enum PassAttachmentSource {
    ThisPass,
    OtherPass(OtherPassAttachmentSource),
}

/// How to create one framebuffer attachment.
#[derive(Clone)]
pub struct PassAttachmentDescriptor<F> {
    pub flavor: PassAttachmentType<F>,
    pub source: PassAttachmentSource,
    pub textarget: u32,
    pub write: bool,
    pub clear: bool,
    pub width: u32,
    pub height: u32,
    pub mip_level: u32,
}

/// A framebuffer attachment and how it was created.
#[derive(Clone)]
pub struct PassAttachment<F> {
    pub texture: DeviceTexture,
    pub desc: PassAttachmentDescriptor<F>,
}

/// A texture of an earlier pass that this pass samples under the name `name`.
#[derive(Clone)]
pub struct PassDependencyDescriptor {
    pub name: String,
    pub source: OtherPassAttachmentSource,
}

/// How to create a render pass.
#[derive(Clone)]
pub struct PassDescriptor<F> {
    pub name: String,
    pub program: HostShaderProgramDescriptor,
    pub techniques: Vec<Techniques>,
    pub attachments: Vec<PassAttachmentDescriptor<F>>,
    pub dependencies: Vec<PassDependencyDescriptor>,
    pub width: u32,
    pub height: u32,
}

/// A dependency and the sampler that binds it to this pass's program.
pub struct PassDependency {
    pub desc: PassDependencyDescriptor,
    pub sampler: TextureSampler,
}

/// A render pass.
pub struct Pass<F> {
    pub name: String,
    pub program: ShaderProgram,
    pub program_desc: HostShaderProgramDescriptor,
    pub techniques: Vec<Techniques>,
    pub attachments: Vec<PassAttachment<F>>,
    pub dependencies: Vec<PassDependency>,
    pub fbo: u32,
    pub width: u32,
    pub height: u32,
}


/// No technique of the container is bound to program `handle`.
pub open spec fn container_free_of<F>(entries: Seq<(Techniques, Technique<F>)>, handle: u32) -> bool {
    forall|i: int| 0 <= i < entries.len() ==> technique_free_of(#[trigger] entries[i].1, handle)
}

/// `new` is `old` with every technique bound to `program`.
pub open spec fn container_bound<F>(
    old: Seq<(Techniques, Technique<F>)>,
    new: Seq<(Techniques, Technique<F>)>,
    program: ShaderProgram,
) -> bool {
    &&& new.len() == old.len()
    &&& forall|i: int|
        0 <= i < old.len() ==> (#[trigger] new[i]).0 == old[i].0 && technique_bound(old[i].1, new[i].1, program)
}

/// `new` is `old` with every technique unbound from program `handle`.
pub open spec fn container_unbound<F>(
    old: Seq<(Techniques, Technique<F>)>,
    new: Seq<(Techniques, Technique<F>)>,
    handle: u32,
) -> bool {
    &&& new.len() == old.len()
    &&& forall|i: int|
        0 <= i < old.len() ==> (#[trigger] new[i]).0 == old[i].0 && technique_unbound(old[i].1, new[i].1, handle)
}

/// `pass` was made from `desc`: the same name, program description, techniques, size,
/// attachment descriptions and dependency descriptions, and for each dependency a sampler
/// named after it, on the texture it names, bound to the pass's program and to no other.
pub open spec fn built_from<F>(pass: Pass<F>, desc: PassDescriptor<F>) -> bool {
    &&& pass.name == desc.name
    &&& pass.program_desc == desc.program
    &&& pass.techniques@ == desc.techniques@
    &&& pass.width == desc.width
    &&& pass.height == desc.height
    &&& pass.attachments@.len() == desc.attachments@.len()
    &&& forall|j: int| 0 <= j < desc.attachments@.len() ==> (#[trigger] pass.attachments@[j]).desc == desc.attachments@[j]
    &&& pass.dependencies@.len() == desc.dependencies@.len()
    &&& forall|j: int|
        0 <= j < desc.dependencies@.len() ==> {
            let dep = #[trigger] pass.dependencies@[j];
            &&& dep.desc == desc.dependencies@[j]
            &&& dep.sampler.name@ == desc.dependencies@[j].name@
            &&& same_texture(*dep.sampler.texture, desc.dependencies@[j].source.device_texture)
            &&& dep.sampler.bindings@ == bound_bindings(Seq::empty(), pass.program, desc.dependencies@[j].name@)
        }
}

impl<F> Pass<F> {
    /// The pass described by `desc`, with the program built from its program description,
    /// the device textures made for its attachments (one per attachment description, in
    /// order) and the framebuffer that holds them. Each dependency gets a sampler on the
    /// texture it names, bound to the program.
    pub fn from_descriptor(desc: PassDescriptor<F>, program: ShaderProgram, textures: Vec<DeviceTexture>, fbo: u32) -> (r: Pass<F>)
        requires
            textures@.len() == desc.attachments@.len(),
        ensures
            built_from(r, desc),
            r.program == program,
            r.fbo == fbo,
            forall|j: int| 0 <= j < textures@.len() ==> (#[trigger] r.attachments@[j]).texture == textures@[j],
    {
        let ghost d = desc;
        let ghost ts = textures@;
        let PassDescriptor { name, program: program_desc, techniques, attachments, dependencies, width, height } = desc;
        let mut attachments = attachments;
        let mut textures = textures;
        let n = attachments.len();
        let mut built: Vec<PassAttachment<F>> = Vec::new();
        while attachments.len() > 0
            invariant
                attachments@.len() == textures@.len(),
                attachments@.len() + built@.len() == n,
                n == d.attachments@.len(),
                forall|j: int| 0 <= j < attachments@.len() ==> #[trigger] attachments@[j] == d.attachments@[j],
                ts.len() == n,
                forall|j: int| 0 <= j < textures@.len() ==> #[trigger] textures@[j] == ts[j],
                forall|j: int|
                    0 <= j < built@.len() ==> (#[trigger] built@[j]).desc == d.attachments@[attachments@.len() + j]
                        && built@[j].texture == ts[attachments@.len() + j],
            decreases attachments@.len(),
        {
            let a = attachments.pop().unwrap();
            let t = textures.pop().unwrap();
            built.insert(0, PassAttachment { texture: t, desc: a });
        }
        let m = dependencies.len();
        let mut dependencies = dependencies;
        let mut deps: Vec<PassDependency> = Vec::new();
        while dependencies.len() > 0
            invariant
                dependencies@.len() + deps@.len() == m,
                m == d.dependencies@.len(),
                forall|j: int| 0 <= j < dependencies@.len() ==> #[trigger] dependencies@[j] == d.dependencies@[j],
                forall|j: int|
                    0 <= j < deps@.len() ==> {
                        let k = dependencies@.len() + j;
                        let dep = #[trigger] deps@[j];
                        &&& dep.desc == d.dependencies@[k]
                        &&& dep.sampler.name@ == d.dependencies@[k].name@
                        &&& same_texture(*dep.sampler.texture, d.dependencies@[k].source.device_texture)
                        &&& dep.sampler.bindings@ == bound_bindings(Seq::empty(), program, d.dependencies@[k].name@)
                    },
            decreases dependencies@.len(),
        {
            let dep = dependencies.pop().unwrap();
            let texture = dep.source.device_texture.duplicate();
            let mut sampler = TextureSampler::new(&dep.name, Rc::new(texture));
            sampler.bind_shader_program(&program);
            deps.insert(0, PassDependency { desc: dep, sampler });
        }
        Pass {
            name,
            program,
            program_desc,
            techniques,
            attachments: built,
            dependencies: deps,
            fbo,
            width,
            height,
        }
    }
}

/// Binds every technique of the container to the program of `pass`. No technique may be
/// bound to that program yet.
pub fn bind_techniques_to_render_pass<F>(techniques: &mut TechniqueContainer<F>, pass: &Pass<F>)
    requires
        container_free_of(old(techniques).map@, pass.program.handle),
    ensures
        container_bound(old(techniques).map@, final(techniques).map@, pass.program),
{
    let n = techniques.map.len();
    let mut i: usize = 0;
    while i < n
        invariant
            n == techniques.map@.len(),
            n == old(techniques).map@.len(),
            i <= n,
            container_free_of(old(techniques).map@, pass.program.handle),
            forall|k: int|
                0 <= k < i ==> (#[trigger] techniques.map@[k]).0 == old(techniques).map@[k].0
                    && technique_bound(old(techniques).map@[k].1, techniques.map@[k].1, pass.program),
            forall|k: int| i <= k < n ==> #[trigger] techniques.map@[k] == old(techniques).map@[k],
        decreases n - i,
    {
        assert(technique_free_of(old(techniques).map@[i as int].1, pass.program.handle));
        bind_shader_program_to_technique(&mut techniques.map[i].1, &pass.program);
        i += 1;
    }
}

/// Unbinds program `pass_program_handle` from every technique of the container.
pub fn unbind_technique_from_render_pass<F>(techniques: &mut TechniqueContainer<F>, pass_program_handle: u32)
    ensures
        container_unbound(old(techniques).map@, final(techniques).map@, pass_program_handle),
{
    let n = techniques.map.len();
    let mut i: usize = 0;
    while i < n
        invariant
            n == techniques.map@.len(),
            n == old(techniques).map@.len(),
            i <= n,
            forall|k: int|
                0 <= k < i ==> (#[trigger] techniques.map@[k]).0 == old(techniques).map@[k].0
                    && technique_unbound(old(techniques).map@[k].1, techniques.map@[k].1, pass_program_handle),
            forall|k: int| i <= k < n ==> #[trigger] techniques.map@[k] == old(techniques).map@[k],
        decreases n - i,
    {
        unbind_shader_program_from_technique(&mut techniques.map[i].1, pass_program_handle);
        i += 1;
    }
}

/// Binds the materials of a model to the program of `pass`.
pub fn bind_device_model_to_render_pass<F>(device_model: &mut DeviceModel<F>, pass: &Pass<F>)
    requires
        model_free_of(*old(device_model), pass.program.handle),
    ensures
        model_bound(*old(device_model), *final(device_model), pass.program),
{
    device_model.bind_pass(pass);
}

/// Unbinds the materials of a model from program `pass_program_handle`.
pub fn unbind_device_model_from_render_pass<F>(device_model: &mut DeviceModel<F>, pass_program_handle: u32)
    ensures
        model_unbound(*old(device_model), *final(device_model), pass_program_handle),
{
    device_model.unbind_pass(pass_program_handle);
}


// ---------------------------------------------------------------------------------------
// Validation
// ---------------------------------------------------------------------------------------

/// The names of the uniforms of a technique: per-frame groups then per-model groups, each
/// in the order vec1f, vec1u, vec2f, vec3f, mat4x4f.
pub open spec fn technique_uniform_names<F>(t: Technique<F>) -> Seq<Seq<char>> {
    t.per_frame_uniforms.vec1f@.map_values(|u: Uniform<Vec1<F>>| u.name@)
        + t.per_frame_uniforms.vec1u@.map_values(|u: Uniform<Vec1<u32>>| u.name@)
        + t.per_frame_uniforms.vec2f@.map_values(|u: Uniform<Vec2<F>>| u.name@)
        + t.per_frame_uniforms.vec3f@.map_values(|u: Uniform<Vec3<F>>| u.name@)
        + t.per_frame_uniforms.mat4x4f@.map_values(|u: Uniform<Mat4x4<F>>| u.name@)
        + t.per_model_uniforms.vec1f@.map_values(|u: PerModelUnifrom<Vec1<F>>| u.name@)
        + t.per_model_uniforms.vec1u@.map_values(|u: PerModelUnifrom<Vec1<u32>>| u.name@)
        + t.per_model_uniforms.vec2f@.map_values(|u: PerModelUnifrom<Vec2<F>>| u.name@)
        + t.per_model_uniforms.vec3f@.map_values(|u: PerModelUnifrom<Vec3<F>>| u.name@)
        + t.per_model_uniforms.mat4x4f@.map_values(|u: PerModelUnifrom<Mat4x4<F>>| u.name@)
}

/// The uniform names that the techniques of a pass provide, technique by technique in the
/// order the pass lists them.
pub open spec fn provided_uniform_names<F>(
    kinds: Seq<Techniques>,
    entries: Seq<(Techniques, Technique<F>)>,
) -> Seq<Seq<char>>
    decreases kinds.len(),
{
    if kinds.len() == 0 {
        Seq::empty()
    } else {
        provided_uniform_names(kinds.drop_last(), entries) + technique_uniform_names(
            technique_of(entries, kinds.last()).unwrap(),
        )
    }
}

/// The distinct elements of `s` in the order of their first occurrence.
pub open spec fn distinct_in_order(s: Seq<Seq<char>>) -> Seq<Seq<char>>
    decreases s.len(),
{
    if s.len() == 0 {
        Seq::empty()
    } else {
        let d = distinct_in_order(s.drop_last());
        if d.contains(s.last()) {
            d
        } else {
            d.push(s.last())
        }
    }
}

/// How often `x` occurs in `s`.
pub open spec fn occurrences(s: Seq<Seq<char>>, x: Seq<char>) -> nat
    decreases s.len(),
{
    if s.len() == 0 {
        0
    } else {
        occurrences(s.drop_last(), x) + if s.last() == x { 1nat } else { 0nat }
    }
}

/// The start of every message about an invalid pass.
pub open spec fn pass_message_prefix(pass_name: Seq<char>) -> Seq<char> {
    "Render pass '"@ + pass_name + "' is invalid! "@
}

/// The diagnostic of a uniform of the program that the pass's techniques provide `count`
/// times, if `count` is not one.
pub open spec fn uniform_count_diagnostic(pass_name: Seq<char>, name: Seq<char>, count: nat) -> Seq<Seq<char>> {
    if count > 1 {
        seq![pass_message_prefix(pass_name) + "Uniform '"@ + name + "' provided '"@ + decimal(count) + "' times."@]
    } else if count == 0 {
        seq![pass_message_prefix(pass_name) + "Uniform '"@ + name + "' not provided by tehcniques."@]
    } else {
        Seq::empty()
    }
}

/// The diagnostics of the uniform names `keys`, in order.
pub open spec fn uniform_diagnostics(pass_name: Seq<char>, keys: Seq<Seq<char>>, provided: Seq<Seq<char>>) -> Seq<Seq<char>>
    decreases keys.len(),
{
    if keys.len() == 0 {
        Seq::empty()
    } else {
        uniform_diagnostics(pass_name, keys.drop_last(), provided)
            + uniform_count_diagnostic(pass_name, keys.last(), occurrences(provided, keys.last()))
    }
}

/// The uniform names a pass knows: those its program declares, then those its techniques
/// provide, each once.
pub open spec fn pass_uniform_keys<F>(pass: Pass<F>, entries: Seq<(Techniques, Technique<F>)>) -> Seq<Seq<char>> {
    distinct_in_order(
        pass.program.scalar_uniforms@.map_values(|u: ShaderProgramScalarUniform| u.name@)
            + provided_uniform_names(pass.techniques@, entries),
    )
}

/// The diagnostics of uniforms that the techniques of a pass provide never or more than once.
pub open spec fn pass_uniform_diagnostics<F>(pass: Pass<F>, entries: Seq<(Techniques, Technique<F>)>) -> Seq<Seq<char>> {
    uniform_diagnostics(
        pass.name@,
        pass_uniform_keys(pass, entries),
        provided_uniform_names(pass.techniques@, entries),
    )
}

/// Mesh `mesh` has no attribute named `name`.
pub open spec fn mesh_lacks_attribute(mesh: DeviceMesh, name: Seq<char>) -> bool {
    forall|k: int| 0 <= k < mesh.attributes@.len() ==> (#[trigger] mesh.attributes@[k]).name@ != name
}

/// The first mesh, from mesh `i` and program attribute `a` on, that lacks an attribute of
/// the program, as an error message.
pub open spec fn missing_attribute_from(
    pass_name: Seq<char>,
    meshes: Seq<DeviceMesh>,
    attributes: Seq<ShaderProgramAttribute>,
    i: int,
    a: int,
) -> Option<Seq<char>>
    decreases meshes.len() - i, attributes.len() - a,
{
    if i < 0 || i >= meshes.len() {
        None
    } else if a < 0 || a >= attributes.len() {
        missing_attribute_from(pass_name, meshes, attributes, i + 1, 0)
    } else if mesh_lacks_attribute(meshes[i], attributes[a].name@) {
        Some(
            pass_message_prefix(pass_name) + "Mesh #'"@ + decimal(i as nat)
                + "' does not provide shader attribute '"@ + attributes[a].name@ + "'."@,
        )
    } else {
        missing_attribute_from(pass_name, meshes, attributes, i, a + 1)
    }
}

/// How many of the techniques `kinds` have a texture sampler named `name`.
pub open spec fn technique_texture_count<F>(
    kinds: Seq<Techniques>,
    entries: Seq<(Techniques, Technique<F>)>,
    name: Seq<char>,
) -> nat
    decreases kinds.len(),
{
    if kinds.len() == 0 {
        0
    } else {
        technique_texture_count(kinds.drop_last(), entries, name) + if exists|k: int|
            0 <= k < technique_of(entries, kinds.last()).unwrap().textures@.len()
                && (#[trigger] technique_of(entries, kinds.last()).unwrap().textures@[k]).name@ == name {
            1nat
        } else {
            0nat
        }
    }
}

/// Some dependency of the pass samples under the name `name`.
pub open spec fn dependency_named(deps: Seq<PassDependency>, name: Seq<char>) -> bool {
    exists|k: int| 0 <= k < deps.len() && (#[trigger] deps[k]).sampler.name@ == name
}

/// Some sampler property of the material is named `name`.
pub open spec fn material_sampler_named(props: Seq<Property<TextureSampler>>, name: Seq<char>) -> bool {
    exists|k: int| 0 <= k < props.len() && (#[trigger] props[k]).value.name@ == name
}

/// The start of every sampler message.
pub open spec fn sampler_message_prefix(pass_name: Seq<char>, program_name: Seq<char>, sampler: Seq<char>) -> Seq<char> {
    pass_message_prefix(pass_name) + "Shader's '"@ + program_name + "' Texture Sampler '"@ + sampler
}

/// The diagnostic of sampler `sampler` for mesh `i`, given whether a dependency, the
/// material, and how many techniques provide it.
pub open spec fn sampler_diagnostic(
    prefix: Seq<char>,
    i: nat,
    dependency: bool,
    material: bool,
    techniques: nat,
) -> Seq<Seq<char>> {
    if !dependency && !material && techniques == 0 {
        seq![prefix + "' is not bound by dependencies, techniques or material for mesh #'"@ + decimal(i) + "'."@]
    } else if dependency && material && techniques == 0 {
        seq![prefix + "' is bound both by pass dependency and material for mesh #'"@ + decimal(i) + "'."@]
    } else if dependency && !material && techniques != 0 {
        seq![prefix + "' is bound both by pass dependency and a technique."@]
    } else if !dependency && material && techniques != 0 {
        seq![prefix + "' is bound both by technique and material for mesh #'"@ + decimal(i) + "'."@]
    } else {
        Seq::empty()
    }
}

/// The outcome of the sampler check from mesh `i` and program sampler `s` on: the
/// diagnostics it gives, and the error it stops with, if any.
pub open spec fn sampler_check_from<F>(
    pass: Pass<F>,
    entries: Seq<(Techniques, Technique<F>)>,
    model: DeviceModel<F>,
    i: int,
    s: int,
) -> (Seq<Seq<char>>, Option<Seq<char>>)
    decreases model.meshes@.len() - i, pass.program.sampler_2d@.len() - s,
{
    let samplers = pass.program.sampler_2d@;
    if i < 0 || i >= model.meshes@.len() {
        (Seq::empty(), None)
    } else if s < 0 || s >= samplers.len() {
        sampler_check_from(pass, entries, model, i + 1, 0)
    } else {
        let name = samplers[s].name@;
        let prefix = sampler_message_prefix(pass.name@, pass.program.name@, name);
        let count = technique_texture_count(pass.techniques@, entries, name);
        if count > 1 {
            (
                Seq::empty(),
                Some(prefix + "' bound by '"@ + decimal(count) + "' techniques. Can only handle 1."@),
            )
        } else {
            let here = sampler_diagnostic(
                prefix,
                i as nat,
                dependency_named(pass.dependencies@, name),
                material_sampler_named(
                    model.materials@[model.meshes@[i].material_index as int].properties_samplers@,
                    name,
                ),
                count,
            );
            let rest = sampler_check_from(pass, entries, model, i, s + 1);
            (here + rest.0, rest.1)
        }
    }
}

/// Every technique the pass lists is in the container.
pub open spec fn pass_techniques_present<F>(pass: Pass<F>, entries: Seq<(Techniques, Technique<F>)>) -> bool {
    forall|k: int| 0 <= k < pass.techniques@.len() ==> (#[trigger] technique_of(entries, pass.techniques@[k])) is Some
}

/// Every mesh of the model names one of its materials.
pub open spec fn material_indices_valid<F>(model: DeviceModel<F>) -> bool {
    forall|i: int| 0 <= i < model.meshes@.len() ==> (#[trigger] model.meshes@[i]).material_index < model.materials@.len()
}


/// The strings of `v` as character sequences.
pub open spec fn texts(v: Seq<String>) -> Seq<Seq<char>> {
    v.map_values(|t: String| t@)
}

proof fn lemma_seq_push_contains(p: Seq<Seq<char>>, y: Seq<char>, x: Seq<char>)
    ensures
        p.push(y).contains(x) <==> (p.contains(x) || y == x),
{
    let s = p.push(y);
    if s.contains(x) {
        let i = choose|i: int| 0 <= i < s.len() && s[i] == x;
        if i < p.len() {
            assert(p[i] == x);
        }
    }
    if p.contains(x) {
        let i = choose|i: int| 0 <= i < p.len() && p[i] == x;
        assert(s[i] == x);
    }
    if y == x {
        assert(s[s.len() - 1] == x);
    }
}

proof fn lemma_distinct_contains(s: Seq<Seq<char>>, x: Seq<char>)
    ensures
        distinct_in_order(s).contains(x) <==> s.contains(x),
    decreases s.len(),
{
    if s.len() > 0 {
        let p = s.drop_last();
        let d = distinct_in_order(p);
        lemma_distinct_contains(p, x);
        assert(s =~= p.push(s.last()));
        lemma_seq_push_contains(p, s.last(), x);
        if !d.contains(s.last()) {
            lemma_seq_push_contains(d, s.last(), x);
        } else {
            if x == s.last() {
            }
        }
    }
}

proof fn lemma_distinct_unique(s: Seq<Seq<char>>)
    ensures
        forall|i: int, j: int|
            0 <= i < j < distinct_in_order(s).len() ==> distinct_in_order(s)[i] != distinct_in_order(s)[j],
    decreases s.len(),
{
    if s.len() > 0 {
        let p = s.drop_last();
        let d = distinct_in_order(p);
        lemma_distinct_unique(p);
        if !d.contains(s.last()) {
            assert forall|i: int, j: int|
                0 <= i < j < d.push(s.last()).len() implies d.push(s.last())[i] != d.push(s.last())[j] by {
                if j == d.len() {
                    if d[i] == s.last() {
                        assert(d.contains(s.last()));
                    }
                }
            }
        }
    }
}

proof fn lemma_occurrences_bound(s: Seq<Seq<char>>, x: Seq<char>)
    ensures
        occurrences(s, x) <= s.len(),
    decreases s.len(),
{
    if s.len() > 0 {
        lemma_occurrences_bound(s.drop_last(), x);
    }
}

proof fn lemma_occurrences_absent(s: Seq<Seq<char>>, x: Seq<char>)
    requires
        !s.contains(x),
    ensures
        occurrences(s, x) == 0,
    decreases s.len(),
{
    if s.len() > 0 {
        assert(s.last() != x) by {
            assert(s[s.len() - 1] == s.last());
        }
        assert forall|i: int| 0 <= i < s.drop_last().len() implies s.drop_last()[i] != x by {
            assert(s[i] == s.drop_last()[i]);
        }
        lemma_occurrences_absent(s.drop_last(), x);
    }
}

/// The tally of uniform names: the distinct names seen (the program's, then those provided)
/// in order, and for each how often it occurs among the provided names.
pub open spec fn tally_holds(
    keys: Seq<String>,
    counts: Seq<u64>,
    declared: Seq<Seq<char>>,
    provided: Seq<Seq<char>>,
) -> bool {
    &&& texts(keys) == distinct_in_order(declared + provided)
    &&& counts.len() == keys.len()
    &&& forall|k: int| 0 <= k < keys.len() ==> #[trigger] counts[k] == occurrences(provided, keys[k]@)
}

fn tally_name(
    keys: &mut Vec<String>,
    counts: &mut Vec<u64>,
    name: &String,
    provide: bool,
    Ghost(declared): Ghost<Seq<Seq<char>>>,
    Ghost(provided): Ghost<Seq<Seq<char>>>,
)
    requires
        tally_holds(old(keys)@, old(counts)@, declared, provided),
        provided.len() + 1 < u64::MAX,
        !provide ==> provided.len() == 0,
    ensures
        provide ==> tally_holds(final(keys)@, final(counts)@, declared, provided.push(name@)),
        !provide ==> tally_holds(final(keys)@, final(counts)@, declared.push(name@), provided),
{
    let ghost seen = declared + provided;
    let ghost new_seen = if provide { declared + provided.push(name@) } else { declared.push(name@) + provided };
    let ghost new_provided = if provide { provided.push(name@) } else { provided };
    assert(new_seen =~= seen.push(name@));
    assert(new_seen.drop_last() =~= seen);
    assert(new_seen.last() == name@);
    let n = keys.len();
    let mut k: usize = 0;
    while k < n
        invariant
            n == keys@.len(),
            keys@ == old(keys)@,
            counts@ == old(counts)@,
            k <= n,
            forall|j: int| 0 <= j < k ==> keys@[j]@ != name@,
            tally_holds(old(keys)@, old(counts)@, declared, provided),
            seen == declared + provided,
            new_seen.drop_last() == seen,
            new_seen.last() == name@,
            new_seen.len() == seen.len() + 1,
            new_seen == if provide { declared + provided.push(name@) } else { declared.push(name@) + provided },
            new_provided == if provide { provided.push(name@) } else { provided },
            provided.len() + 1 < u64::MAX,
        decreases n - k,
    {
        if keys[k].eq(name) {
            proof {
                lemma_distinct_contains(seen, name@);
                assert(texts(keys@)[k as int] == name@);
                assert(distinct_in_order(seen)[k as int] == name@);
                assert(distinct_in_order(seen).contains(name@));
                lemma_occurrences_bound(provided, name@);
                assert(distinct_in_order(new_seen) == distinct_in_order(seen));
            }
            if provide {
                let c = counts[k];
                counts.set(k, c + 1);
                proof {
                    let pp = provided.push(name@);
                    assert(pp.drop_last() =~= provided);
                    assert(pp.last() == name@);
                    lemma_distinct_unique(seen);
                    assert forall|j: int| 0 <= j < keys@.len() implies #[trigger] counts@[j]
                        == occurrences(new_provided, keys@[j]@) by {
                        assert(occurrences(pp, keys@[j]@) == occurrences(provided, keys@[j]@) + if pp.last() == keys@[j]@ { 1nat } else { 0nat });
                        if j != k {
                            assert(texts(keys@)[j] == keys@[j]@);
                            assert(texts(keys@)[k as int] == keys@[k as int]@);
                        }
                    }
                }
            }
            return;
        }
        k += 1;
    }
    proof {
        assert(!texts(keys@).contains(name@)) by {
            if texts(keys@).contains(name@) {
                let j = choose|j: int| 0 <= j < texts(keys@).len() && texts(keys@)[j] == name@;
                assert(keys@[j]@ == name@);
            }
        }
        lemma_distinct_contains(seen, name@);
        assert(!seen.contains(name@));
        assert(!provided.contains(name@)) by {
            if provided.contains(name@) {
                let q = choose|q: int| 0 <= q < provided.len() && provided[q] == name@;
                assert(seen[declared.len() + q] == name@);
            }
        }
        lemma_occurrences_absent(provided, name@);
    }
    keys.push(name.clone());
    if provide {
        counts.push(1);
    } else {
        counts.push(0);
    }
    proof {
        assert(texts(keys@) =~= texts(old(keys)@).push(name@));
        assert(distinct_in_order(new_seen) == distinct_in_order(seen).push(name@));
        let pp = provided.push(name@);
        if provide {
            assert(pp.drop_last() =~= provided);
            assert(pp.last() == name@);
        }
        assert forall|j: int| 0 <= j < keys@.len() implies #[trigger] counts@[j]
            == occurrences(new_provided, keys@[j]@) by {
            if j < n {
                assert(keys@[j]@ != name@) by {
                    assert(texts(old(keys)@)[j] == keys@[j]@);
                }
                if provide {
                    assert(occurrences(pp, keys@[j]@) == occurrences(provided, keys@[j]@) + if pp.last() == keys@[j]@ { 1nat } else { 0nat });
                }
            } else {
                if provide {
                    assert(occurrences(pp, keys@[j]@) == occurrences(provided, keys@[j]@) + if pp.last() == keys@[j]@ { 1nat } else { 0nat });
                }
            }
        }
    }
}


fn tally_uniform_group<T>(
    keys: &mut Vec<String>,
    counts: &mut Vec<u64>,
    group: &Vec<Uniform<T>>,
    Ghost(declared): Ghost<Seq<Seq<char>>>,
    Ghost(provided): Ghost<Seq<Seq<char>>>,
)
    requires
        tally_holds(old(keys)@, old(counts)@, declared, provided),
        provided.len() + group@.len() + 1 < u64::MAX,
    ensures
        tally_holds(final(keys)@, final(counts)@, declared, provided + group@.map_values(|u: Uniform<T>| u.name@)),
{
    let ghost names = group@.map_values(|u: Uniform<T>| u.name@);
    let n = group.len();
    let mut i: usize = 0;
    while i < n
        invariant
            n == group@.len(),
            i <= n,
            names == group@.map_values(|u: Uniform<T>| u.name@),
            provided.len() + n + 1 < u64::MAX,
            tally_holds(keys@, counts@, declared, provided + names.take(i as int)),
        decreases n - i,
    {
        proof {
            assert((provided + names.take(i as int)).push(group@[i as int].name@) =~= provided + names.take(i + 1));
        }
        tally_name(keys, counts, &group[i].name, true, Ghost(declared), Ghost(provided + names.take(i as int)));
        i += 1;
    }
    assert(names.take(n as int) =~= names);
}

fn tally_per_model_group<T>(
    keys: &mut Vec<String>,
    counts: &mut Vec<u64>,
    group: &Vec<PerModelUnifrom<T>>,
    Ghost(declared): Ghost<Seq<Seq<char>>>,
    Ghost(provided): Ghost<Seq<Seq<char>>>,
)
    requires
        tally_holds(old(keys)@, old(counts)@, declared, provided),
        provided.len() + group@.len() + 1 < u64::MAX,
    ensures
        tally_holds(
            final(keys)@,
            final(counts)@,
            declared,
            provided + group@.map_values(|u: PerModelUnifrom<T>| u.name@),
        ),
{
    let ghost names = group@.map_values(|u: PerModelUnifrom<T>| u.name@);
    let n = group.len();
    let mut i: usize = 0;
    while i < n
        invariant
            n == group@.len(),
            i <= n,
            names == group@.map_values(|u: PerModelUnifrom<T>| u.name@),
            provided.len() + n + 1 < u64::MAX,
            tally_holds(keys@, counts@, declared, provided + names.take(i as int)),
        decreases n - i,
    {
        proof {
            assert((provided + names.take(i as int)).push(group@[i as int].name@) =~= provided + names.take(i + 1));
        }
        tally_name(keys, counts, &group[i].name, true, Ghost(declared), Ghost(provided + names.take(i as int)));
        i += 1;
    }
    assert(names.take(n as int) =~= names);
}

fn tally_technique<F>(
    keys: &mut Vec<String>,
    counts: &mut Vec<u64>,
    t: &Technique<F>,
    Ghost(declared): Ghost<Seq<Seq<char>>>,
    Ghost(provided): Ghost<Seq<Seq<char>>>,
)
    requires
        tally_holds(old(keys)@, old(counts)@, declared, provided),
        provided.len() + technique_uniform_names(*t).len() + 1 < u64::MAX,
    ensures
        tally_holds(final(keys)@, final(counts)@, declared, provided + technique_uniform_names(*t)),
{
    let ghost g1 = t.per_frame_uniforms.vec1f@.map_values(|u: Uniform<Vec1<F>>| u.name@);
    let ghost g2 = t.per_frame_uniforms.vec1u@.map_values(|u: Uniform<Vec1<u32>>| u.name@);
    let ghost g3 = t.per_frame_uniforms.vec2f@.map_values(|u: Uniform<Vec2<F>>| u.name@);
    let ghost g4 = t.per_frame_uniforms.vec3f@.map_values(|u: Uniform<Vec3<F>>| u.name@);
    let ghost g5 = t.per_frame_uniforms.mat4x4f@.map_values(|u: Uniform<Mat4x4<F>>| u.name@);
    let ghost g6 = t.per_model_uniforms.vec1f@.map_values(|u: PerModelUnifrom<Vec1<F>>| u.name@);
    let ghost g7 = t.per_model_uniforms.vec1u@.map_values(|u: PerModelUnifrom<Vec1<u32>>| u.name@);
    let ghost g8 = t.per_model_uniforms.vec2f@.map_values(|u: PerModelUnifrom<Vec2<F>>| u.name@);
    let ghost g9 = t.per_model_uniforms.vec3f@.map_values(|u: PerModelUnifrom<Vec3<F>>| u.name@);
    let ghost g10 = t.per_model_uniforms.mat4x4f@.map_values(|u: PerModelUnifrom<Mat4x4<F>>| u.name@);
    let ghost p = provided;
    tally_uniform_group(keys, counts, &t.per_frame_uniforms.vec1f, Ghost(declared), Ghost(p));
    tally_uniform_group(keys, counts, &t.per_frame_uniforms.vec1u, Ghost(declared), Ghost(p + g1));
    tally_uniform_group(keys, counts, &t.per_frame_uniforms.vec2f, Ghost(declared), Ghost(p + g1 + g2));
    tally_uniform_group(keys, counts, &t.per_frame_uniforms.vec3f, Ghost(declared), Ghost(p + g1 + g2 + g3));
    tally_uniform_group(keys, counts, &t.per_frame_uniforms.mat4x4f, Ghost(declared), Ghost(p + g1 + g2 + g3 + g4));
    tally_per_model_group(keys, counts, &t.per_model_uniforms.vec1f, Ghost(declared), Ghost(p + g1 + g2 + g3 + g4 + g5));
    tally_per_model_group(
        keys,
        counts,
        &t.per_model_uniforms.vec1u,
        Ghost(declared),
        Ghost(p + g1 + g2 + g3 + g4 + g5 + g6),
    );
    tally_per_model_group(
        keys,
        counts,
        &t.per_model_uniforms.vec2f,
        Ghost(declared),
        Ghost(p + g1 + g2 + g3 + g4 + g5 + g6 + g7),
    );
    tally_per_model_group(
        keys,
        counts,
        &t.per_model_uniforms.vec3f,
        Ghost(declared),
        Ghost(p + g1 + g2 + g3 + g4 + g5 + g6 + g7 + g8),
    );
    tally_per_model_group(
        keys,
        counts,
        &t.per_model_uniforms.mat4x4f,
        Ghost(declared),
        Ghost(p + g1 + g2 + g3 + g4 + g5 + g6 + g7 + g8 + g9),
    );
    assert(p + g1 + g2 + g3 + g4 + g5 + g6 + g7 + g8 + g9 + g10 =~= provided + technique_uniform_names(*t));
}

proof fn lemma_provided_prefix<F>(kinds: Seq<Techniques>, entries: Seq<(Techniques, Technique<F>)>, j: int)
    requires
        0 <= j < kinds.len(),
    ensures
        provided_uniform_names(kinds.take(j + 1), entries) == provided_uniform_names(kinds.take(j), entries)
            + technique_uniform_names(technique_of(entries, kinds[j]).unwrap()),
{
    assert(kinds.take(j + 1).drop_last() =~= kinds.take(j));
}

proof fn lemma_provided_len_monotone<F>(kinds: Seq<Techniques>, entries: Seq<(Techniques, Technique<F>)>, j: int)
    requires
        0 <= j <= kinds.len(),
    ensures
        provided_uniform_names(kinds.take(j), entries).len() <= provided_uniform_names(kinds, entries).len(),
    decreases kinds.len() - j,
{
    if j < kinds.len() {
        lemma_provided_prefix(kinds, entries, j);
        lemma_provided_len_monotone(kinds, entries, j + 1);
    } else {
        assert(kinds.take(j) =~= kinds);
    }
}

fn tally_pass_uniforms<F>(pass: &Pass<F>, techniques: &TechniqueContainer<F>) -> (r: (Vec<String>, Vec<u64>))
    requires
        keys_distinct(techniques.map@),
        pass_techniques_present(*pass, techniques.map@),
        provided_uniform_names(pass.techniques@, techniques.map@).len() + 1 < u64::MAX,
    ensures
        tally_holds(
            r.0@,
            r.1@,
            pass.program.scalar_uniforms@.map_values(|u: ShaderProgramScalarUniform| u.name@),
            provided_uniform_names(pass.techniques@, techniques.map@),
        ),
{
    let ghost declared = pass.program.scalar_uniforms@.map_values(|u: ShaderProgramScalarUniform| u.name@);
    let mut keys: Vec<String> = Vec::new();
    let mut counts: Vec<u64> = Vec::new();
    let n = pass.program.scalar_uniforms.len();
    let mut i: usize = 0;
    assert(texts(keys@) =~= distinct_in_order(declared.take(0) + Seq::empty()));
    while i < n
        invariant
            n == pass.program.scalar_uniforms@.len(),
            i <= n,
            declared == pass.program.scalar_uniforms@.map_values(|u: ShaderProgramScalarUniform| u.name@),
            tally_holds(keys@, counts@, declared.take(i as int), Seq::empty()),
        decreases n - i,
    {
        proof {
            assert(declared.take(i as int).push(declared[i as int]) =~= declared.take(i + 1));
        }
        tally_name(
            &mut keys,
            &mut counts,
            &pass.program.scalar_uniforms[i].name,
            false,
            Ghost(declared.take(i as int)),
            Ghost(Seq::empty()),
        );
        i += 1;
    }
    assert(declared.take(n as int) =~= declared);
    let ghost kinds = pass.techniques@;
    let m = pass.techniques.len();
    let mut j: usize = 0;
    assert(provided_uniform_names(kinds.take(0), techniques.map@) =~= Seq::empty());
    assert(Seq::<Seq<char>>::empty() =~= provided_uniform_names(kinds.take(0), techniques.map@));
    while j < m
        invariant
            m == kinds.len(),
            kinds == pass.techniques@,
            j <= m,
            keys_distinct(techniques.map@),
            pass_techniques_present(*pass, techniques.map@),
            provided_uniform_names(pass.techniques@, techniques.map@).len() + 1 < u64::MAX,
            declared == pass.program.scalar_uniforms@.map_values(|u: ShaderProgramScalarUniform| u.name@),
            tally_holds(keys@, counts@, declared, provided_uniform_names(kinds.take(j as int), techniques.map@)),
        decreases m - j,
    {
        let kind = pass.techniques[j];
        assert(technique_of(techniques.map@, pass.techniques@[j as int]) is Some);
        let t = techniques.get(kind).unwrap();
        proof {
            lemma_provided_prefix(kinds, techniques.map@, j as int);
            lemma_provided_len_monotone(kinds, techniques.map@, j + 1);
        }
        tally_technique(
            &mut keys,
            &mut counts,
            t,
            Ghost(declared),
            Ghost(provided_uniform_names(kinds.take(j as int), techniques.map@)),
        );
        j += 1;
    }
    assert(kinds.take(m as int) =~= kinds);
    (keys, counts)
}


fn render_pass_prefix(pass_name: &String) -> (r: String)
    ensures
        r@ == pass_message_prefix(pass_name@),
{
    let mut msg = owned("Render pass '");
    push_str(&mut msg, pass_name.as_str());
    push_str(&mut msg, "' is invalid! ");
    msg
}

fn push_uniform_diagnostics(
    pass_name: &String,
    keys: &Vec<String>,
    counts: &Vec<u64>,
    diagnostics: &mut Vec<String>,
    Ghost(provided): Ghost<Seq<Seq<char>>>,
)
    requires
        counts@.len() == keys@.len(),
        forall|k: int| 0 <= k < keys@.len() ==> #[trigger] counts@[k] == occurrences(provided, keys@[k]@),
    ensures
        texts(final(diagnostics)@) == texts(old(diagnostics)@) + uniform_diagnostics(pass_name@, texts(keys@), provided),
{
    let n = keys.len();
    let mut k: usize = 0;
    assert(texts(keys@).take(0) =~= Seq::<Seq<char>>::empty());
    assert(texts(diagnostics@) =~= texts(old(diagnostics)@) + uniform_diagnostics(pass_name@, texts(keys@).take(0), provided));
    while k < n
        invariant
            n == keys@.len(),
            counts@.len() == n,
            k <= n,
            forall|q: int| 0 <= q < keys@.len() ==> #[trigger] counts@[q] == occurrences(provided, keys@[q]@),
            texts(diagnostics@) == texts(old(diagnostics)@) + uniform_diagnostics(pass_name@, texts(keys@).take(k as int), provided),
        decreases n - k,
    {
        let count = counts[k];
        let ghost before = texts(diagnostics@);
        proof {
            assert(texts(keys@).take(k + 1).drop_last() =~= texts(keys@).take(k as int));
            assert(texts(keys@).take(k + 1).last() == keys@[k as int]@);
        }
        if count > 1 {
            let mut msg = render_pass_prefix(pass_name);
            push_str(&mut msg, "Uniform '");
            push_str(&mut msg, keys[k].as_str());
            push_str(&mut msg, "' provided '");
            push_decimal(&mut msg, count);
            push_str(&mut msg, "' times.");
            diagnostics.push(msg);
            proof {
                assert(texts(diagnostics@) =~= before.push(msg@));
                assert(msg@ =~= pass_message_prefix(pass_name@) + "Uniform '"@ + keys@[k as int]@ + "' provided '"@ + decimal(count as nat) + "' times."@);
            }
        } else if count == 0 {
            let mut msg = render_pass_prefix(pass_name);
            push_str(&mut msg, "Uniform '");
            push_str(&mut msg, keys[k].as_str());
            push_str(&mut msg, "' not provided by tehcniques.");
            diagnostics.push(msg);
            proof {
                assert(texts(diagnostics@) =~= before.push(msg@));
                assert(msg@ =~= pass_message_prefix(pass_name@) + "Uniform '"@ + keys@[k as int]@ + "' not provided by tehcniques."@);
            }
        }
        proof {
            let d = uniform_count_diagnostic(pass_name@, keys@[k as int]@, occurrences(provided, keys@[k as int]@));
            assert(texts(diagnostics@) =~= before + d);
        }
        k += 1;
    }
    assert(texts(keys@).take(n as int) =~= texts(keys@));
}

fn mesh_has_attribute(mesh: &DeviceMesh, name: &String) -> (r: bool)
    ensures
        r == !mesh_lacks_attribute(*mesh, name@),
{
    let n = mesh.attributes.len();
    let mut k: usize = 0;
    while k < n
        invariant
            n == mesh.attributes@.len(),
            k <= n,
            forall|q: int| 0 <= q < k ==> (#[trigger] mesh.attributes@[q]).name@ != name@,
        decreases n - k,
    {
        if mesh.attributes[k].name.eq(name) {
            return true;
        }
        k += 1;
    }
    false
}

fn check_attributes<F>(pass: &Pass<F>, device_model: &DeviceModel<F>) -> (r: Result<(), String>)
    ensures
        result_is_opt(r, missing_attribute_from(pass.name@, device_model.meshes@, pass.program.attributes@, 0, 0)),
{
    let ghost spec_at = |i: int, a: int| missing_attribute_from(pass.name@, device_model.meshes@, pass.program.attributes@, i, a);
    let n = device_model.meshes.len();
    let m = pass.program.attributes.len();
    let mut i: usize = 0;
    while i < n
        invariant
            n == device_model.meshes@.len(),
            m == pass.program.attributes@.len(),
            i <= n,
            spec_at == (|i: int, a: int| missing_attribute_from(pass.name@, device_model.meshes@, pass.program.attributes@, i, a)),
            spec_at(0, 0) == spec_at(i as int, 0),
        decreases n - i,
    {
        let mut a: usize = 0;
        while a < m
            invariant
                n == device_model.meshes@.len(),
                m == pass.program.attributes@.len(),
                i < n,
                a <= m,
                spec_at == (|i: int, a: int| missing_attribute_from(pass.name@, device_model.meshes@, pass.program.attributes@, i, a)),
                spec_at(0, 0) == spec_at(i as int, a as int),
            decreases m - a,
        {
            if !mesh_has_attribute(&device_model.meshes[i], &pass.program.attributes[a].name) {
                let mut msg = render_pass_prefix(&pass.name);
                push_str(&mut msg, "Mesh #'");
                push_decimal(&mut msg, i as u64);
                push_str(&mut msg, "' does not provide shader attribute '");
                push_str(&mut msg, pass.program.attributes[a].name.as_str());
                push_str(&mut msg, "'.");
                assert(msg@ =~= pass_message_prefix(pass.name@) + "Mesh #'"@ + decimal(i as nat)
                    + "' does not provide shader attribute '"@ + pass.program.attributes@[a as int].name@ + "'."@);
                return Err(msg);
            }
            a += 1;
        }
        i += 1;
    }
    Ok(())
}

/// `r` is `Ok` exactly when nothing is expected, and otherwise the expected error.
pub open spec fn result_is_opt(r: Result<(), String>, expected: Option<Seq<char>>) -> bool {
    match r {
        Ok(_) => expected is None,
        Err(msg) => expected == Some(msg@),
    }
}


fn sampler_has_name(samplers: &Vec<TextureSampler>, name: &String) -> (r: bool)
    ensures
        r == exists|k: int| 0 <= k < samplers@.len() && (#[trigger] samplers@[k]).name@ == name@,
{
    let n = samplers.len();
    let mut k: usize = 0;
    while k < n
        invariant
            n == samplers@.len(),
            k <= n,
            forall|q: int| 0 <= q < k ==> (#[trigger] samplers@[q]).name@ != name@,
        decreases n - k,
    {
        if samplers[k].name.eq(name) {
            return true;
        }
        k += 1;
    }
    false
}

fn dependency_has_name(deps: &Vec<PassDependency>, name: &String) -> (r: bool)
    ensures
        r == dependency_named(deps@, name@),
{
    let n = deps.len();
    let mut k: usize = 0;
    while k < n
        invariant
            n == deps@.len(),
            k <= n,
            forall|q: int| 0 <= q < k ==> (#[trigger] deps@[q]).sampler.name@ != name@,
        decreases n - k,
    {
        if deps[k].sampler.name.eq(name) {
            return true;
        }
        k += 1;
    }
    false
}

fn material_has_sampler(props: &Vec<Property<TextureSampler>>, name: &String) -> (r: bool)
    ensures
        r == material_sampler_named(props@, name@),
{
    let n = props.len();
    let mut k: usize = 0;
    while k < n
        invariant
            n == props@.len(),
            k <= n,
            forall|q: int| 0 <= q < k ==> (#[trigger] props@[q]).value.name@ != name@,
        decreases n - k,
    {
        if props[k].value.name.eq(name) {
            return true;
        }
        k += 1;
    }
    false
}

fn count_technique_textures<F>(kinds: &Vec<Techniques>, techniques: &TechniqueContainer<F>, name: &String) -> (r: usize)
    requires
        keys_distinct(techniques.map@),
        forall|k: int| 0 <= k < kinds@.len() ==> (#[trigger] technique_of(techniques.map@, kinds@[k])) is Some,
    ensures
        r == technique_texture_count(kinds@, techniques.map@, name@),
        r <= kinds@.len(),
{
    let n = kinds.len();
    let mut j: usize = 0;
    let mut count: usize = 0;
    assert(kinds@.take(0) =~= Seq::<Techniques>::empty());
    while j < n
        invariant
            n == kinds@.len(),
            j <= n,
            count <= j,
            keys_distinct(techniques.map@),
            forall|k: int| 0 <= k < kinds@.len() ==> (#[trigger] technique_of(techniques.map@, kinds@[k])) is Some,
            count == technique_texture_count(kinds@.take(j as int), techniques.map@, name@),
        decreases n - j,
    {
        assert(technique_of(techniques.map@, kinds@[j as int]) is Some);
        let t = techniques.get(kinds[j]).unwrap();
        let has = sampler_has_name(&t.textures, name);
        proof {
            assert(kinds@.take(j + 1).drop_last() =~= kinds@.take(j as int));
            assert(kinds@.take(j + 1).last() == kinds@[j as int]);
            let tt = technique_of(techniques.map@, kinds@[j as int]).unwrap();
            assert(tt == *t);
            if has {
                let k = choose|k: int| 0 <= k < t.textures@.len() && (#[trigger] t.textures@[k]).name@ == name@;
                assert(tt.textures@[k].name@ == name@);
            }
        }
        if has {
            count += 1;
        }
        j += 1;
    }
    assert(kinds@.take(n as int) =~= kinds@);
    count
}

fn sampler_message_start<F>(pass: &Pass<F>, sampler: &String) -> (r: String)
    ensures
        r@ == sampler_message_prefix(pass.name@, pass.program.name@, sampler@),
{
    let mut msg = render_pass_prefix(&pass.name);
    push_str(&mut msg, "Shader's '");
    push_str(&mut msg, pass.program.name.as_str());
    push_str(&mut msg, "' Texture Sampler '");
    push_str(&mut msg, sampler.as_str());
    assert(msg@ =~= sampler_message_prefix(pass.name@, pass.program.name@, sampler@));
    msg
}

fn push_sampler_diagnostic(
    diagnostics: &mut Vec<String>,
    prefix: String,
    i: usize,
    dependency: bool,
    material: bool,
    techniques: usize,
)
    ensures
        texts(final(diagnostics)@) == texts(old(diagnostics)@) + sampler_diagnostic(
            prefix@,
            i as nat,
            dependency,
            material,
            techniques as nat,
        ),
{
    let mut msg = prefix;
    let ghost p = msg@;
    if !dependency && !material && techniques == 0 {
        push_str(&mut msg, "' is not bound by dependencies, techniques or material for mesh #'");
        push_decimal(&mut msg, i as u64);
        push_str(&mut msg, "'.");
        diagnostics.push(msg);
    } else if dependency && material && techniques == 0 {
        push_str(&mut msg, "' is bound both by pass dependency and material for mesh #'");
        push_decimal(&mut msg, i as u64);
        push_str(&mut msg, "'.");
        diagnostics.push(msg);
    } else if dependency && !material && techniques != 0 {
        push_str(&mut msg, "' is bound both by pass dependency and a technique.");
        diagnostics.push(msg);
    } else if !dependency && material && techniques != 0 {
        push_str(&mut msg, "' is bound both by technique and material for mesh #'");
        push_decimal(&mut msg, i as u64);
        push_str(&mut msg, "'.");
        diagnostics.push(msg);
    }
    assert(texts(diagnostics@) =~= texts(old(diagnostics)@) + sampler_diagnostic(
        p,
        i as nat,
        dependency,
        material,
        techniques as nat,
    ));
}

fn check_samplers<F>(
    pass: &Pass<F>,
    techniques: &TechniqueContainer<F>,
    device_model: &DeviceModel<F>,
    diagnostics: &mut Vec<String>,
) -> (r: Result<(), String>)
    requires
        keys_distinct(techniques.map@),
        pass_techniques_present(*pass, techniques.map@),
        material_indices_valid(*device_model),
    ensures
        texts(final(diagnostics)@) == texts(old(diagnostics)@)
            + sampler_check_from(*pass, techniques.map@, *device_model, 0, 0).0,
        result_is_opt(r, sampler_check_from(*pass, techniques.map@, *device_model, 0, 0).1),
{
    let ghost total = sampler_check_from(*pass, techniques.map@, *device_model, 0, 0);
    let n = device_model.meshes.len();
    let m = pass.program.sampler_2d.len();
    let mut i: usize = 0;
    while i < n
        invariant
            n == device_model.meshes@.len(),
            m == pass.program.sampler_2d@.len(),
            i <= n,
            keys_distinct(techniques.map@),
            pass_techniques_present(*pass, techniques.map@),
            material_indices_valid(*device_model),
            total == sampler_check_from(*pass, techniques.map@, *device_model, 0, 0),
            texts(diagnostics@) + sampler_check_from(*pass, techniques.map@, *device_model, i as int, 0).0
                == texts(old(diagnostics)@) + total.0,
            sampler_check_from(*pass, techniques.map@, *device_model, i as int, 0).1 == total.1,
        decreases n - i,
    {
        let mi = device_model.meshes[i].material_index;
        assert(device_model.meshes@[i as int].material_index < device_model.materials@.len());
        let props = &device_model.materials[mi].properties_samplers;
        let mut s: usize = 0;
        while s < m
            invariant
                n == device_model.meshes@.len(),
                m == pass.program.sampler_2d@.len(),
                i < n,
                s <= m,
                mi == device_model.meshes@[i as int].material_index,
                mi < device_model.materials@.len(),
                *props == device_model.materials@[mi as int].properties_samplers,
                keys_distinct(techniques.map@),
                pass_techniques_present(*pass, techniques.map@),
                material_indices_valid(*device_model),
                total == sampler_check_from(*pass, techniques.map@, *device_model, 0, 0),
                texts(diagnostics@) + sampler_check_from(*pass, techniques.map@, *device_model, i as int, s as int).0
                    == texts(old(diagnostics)@) + total.0,
                sampler_check_from(*pass, techniques.map@, *device_model, i as int, s as int).1 == total.1,
            decreases m - s,
        {
            let name = &pass.program.sampler_2d[s].name;
            let count = count_technique_textures(&pass.techniques, techniques, name);
            let prefix = sampler_message_start(pass, name);
            if count > 1 {
                let mut msg = prefix;
                push_str(&mut msg, "' bound by '");
                push_decimal(&mut msg, count as u64);
                push_str(&mut msg, "' techniques. Can only handle 1.");
                proof {
                    let here = sampler_check_from(*pass, techniques.map@, *device_model, i as int, s as int);
                    assert(here.0 =~= Seq::<Seq<char>>::empty());
                    assert(texts(diagnostics@) + here.0 =~= texts(diagnostics@));
                    assert(here.1 == Some(msg@));
                }
                return Err(msg);
            }
            let dependency = dependency_has_name(&pass.dependencies, name);
            let material = material_has_sampler(props, name);
            let ghost before = texts(diagnostics@);
            push_sampler_diagnostic(diagnostics, prefix, i, dependency, material, count);
            proof {
                let here = sampler_check_from(*pass, techniques.map@, *device_model, i as int, s as int);
                let rest = sampler_check_from(*pass, techniques.map@, *device_model, i as int, s + 1);
                let d = sampler_diagnostic(
                    sampler_message_prefix(pass.name@, pass.program.name@, name@),
                    i as nat,
                    dependency,
                    material,
                    count as nat,
                );
                assert(here.0 == d + rest.0);
                assert(texts(diagnostics@) + rest.0 =~= before + here.0);
            }
            s += 1;
        }
        proof {
            assert(sampler_check_from(*pass, techniques.map@, *device_model, i as int, m as int)
                == sampler_check_from(*pass, techniques.map@, *device_model, i + 1, 0));
        }
        i += 1;
    }
    proof {
        let last = sampler_check_from(*pass, techniques.map@, *device_model, n as int, 0);
        assert(last.0 =~= Seq::<Seq<char>>::empty());
        assert(texts(diagnostics@) + last.0 =~= texts(diagnostics@));
    }
    Ok(())
}


/// What validating a pass reports: the diagnostics it gives, in order, and the error it
/// stops with, if any. Uniforms are checked first and never stop the check; then every mesh
/// must provide every attribute of the program; then the samplers of the program are checked
/// mesh by mesh.
pub open spec fn render_pass_check<F>(
    pass: Pass<F>,
    entries: Seq<(Techniques, Technique<F>)>,
    model: DeviceModel<F>,
) -> (Seq<Seq<char>>, Option<Seq<char>>) {
    let uniforms = pass_uniform_diagnostics(pass, entries);
    match missing_attribute_from(pass.name@, model.meshes@, pass.program.attributes@, 0, 0) {
        Some(msg) => (uniforms, Some(msg)),
        None => {
            let samplers = sampler_check_from(pass, entries, model, 0, 0);
            (uniforms + samplers.0, samplers.1)
        },
    }
}

/// Checks that the techniques and the model provide what the program of a pass reads.
///
/// Each uniform of the program, and each uniform a technique of the pass provides, must be
/// provided exactly once; each mesh must provide every attribute of the program; and each
/// texture sampler of the program must be bound by exactly one of a dependency, a technique
/// or the mesh's material. A missing attribute, or a sampler that several techniques bind,
/// makes the pass invalid and is returned as the error; the other findings are appended to
/// `diagnostics`.
pub fn is_render_pass_valid<F>(
    pass: &Pass<F>,
    techniques: &TechniqueContainer<F>,
    device_model: &DeviceModel<F>,
    diagnostics: &mut Vec<String>,
) -> (r: Result<(), String>)
    requires
        keys_distinct(techniques.map@),
        pass_techniques_present(*pass, techniques.map@),
        provided_uniform_names(pass.techniques@, techniques.map@).len() + 1 < u64::MAX,
        missing_attribute_from(pass.name@, device_model.meshes@, pass.program.attributes@, 0, 0) is None
            ==> material_indices_valid(*device_model),
    ensures
        texts(final(diagnostics)@) == texts(old(diagnostics)@) + render_pass_check(
            *pass,
            techniques.map@,
            *device_model,
        ).0,
        result_is_opt(r, render_pass_check(*pass, techniques.map@, *device_model).1),
{
    let ghost provided = provided_uniform_names(pass.techniques@, techniques.map@);
    let (keys, counts) = tally_pass_uniforms(pass, techniques);
    push_uniform_diagnostics(&pass.name, &keys, &counts, diagnostics, Ghost(provided));
    let ghost after_uniforms = texts(diagnostics@);
    match check_attributes(pass, device_model) {
        Err(msg) => {
            return Err(msg);
        },
        Ok(()) => {},
    }
    let r = check_samplers(pass, techniques, device_model, diagnostics);
    assert(texts(diagnostics@) =~= texts(old(diagnostics)@) + render_pass_check(
        *pass,
        techniques.map@,
        *device_model,
    ).0);
    r
}


// ---------------------------------------------------------------------------------------
// Framebuffers, drawing state and resizing
// ---------------------------------------------------------------------------------------

/// The framebuffer attachment point of the first color attachment.
pub const GL_COLOR_ATTACHMENT0: u32 = 0x8CE0;

/// The framebuffer attachment point of the depth attachment.
pub const GL_DEPTH_ATTACHMENT: u32 = 0x8D00;

/// The bit of the color buffer in a clear mask.
pub const GL_COLOR_BUFFER_BIT: u32 = 0x4000;

/// The bit of the depth buffer in a clear mask.
pub const GL_DEPTH_BUFFER_BIT: u32 = 0x0100;

/// The texture an attachment draws into: its own, or the one of the earlier pass it names.
pub open spec fn attachment_target<F>(a: PassAttachment<F>) -> u32 {
    match a.desc.source {
        PassAttachmentSource::ThisPass => a.texture.handle,
        PassAttachmentSource::OtherPass(s) => s.device_texture.handle,
    }
}

/// How many of `attachments` are color attachments.
pub open spec fn color_count<F>(attachments: Seq<PassAttachment<F>>) -> nat
    decreases attachments.len(),
{
    if attachments.len() == 0 {
        0
    } else {
        color_count(attachments.drop_last()) + if attachments.last().desc.flavor is Color {
            1nat
        } else {
            0nat
        }
    }
}

/// How many of `attachments` are depth attachments.
pub open spec fn depth_count<F>(attachments: Seq<PassAttachment<F>>) -> nat {
    (attachments.len() - color_count(attachments)) as nat
}

/// The attachment point and texture of each attachment: color attachments take the color
/// points in order, the depth attachment the depth point.
pub open spec fn framebuffer_bindings_of<F>(attachments: Seq<PassAttachment<F>>) -> Seq<(u32, u32)>
    decreases attachments.len(),
{
    if attachments.len() == 0 {
        Seq::empty()
    } else {
        let a = attachments.last();
        let before = attachments.drop_last();
        let point = if a.desc.flavor is Color {
            (GL_COLOR_ATTACHMENT0 + color_count(before)) as u32
        } else {
            GL_DEPTH_ATTACHMENT
        };
        framebuffer_bindings_of(before).push((point, attachment_target(a)))
    }
}

/// The color attachment points that a framebuffer draws into, in order.
pub open spec fn draw_buffers_of<F>(attachments: Seq<PassAttachment<F>>) -> Seq<u32>
    decreases attachments.len(),
{
    if attachments.len() == 0 {
        Seq::empty()
    } else {
        let before = attachments.drop_last();
        if attachments.last().desc.flavor is Color {
            draw_buffers_of(before).push((GL_COLOR_ATTACHMENT0 + color_count(before)) as u32)
        } else {
            draw_buffers_of(before)
        }
    }
}

proof fn lemma_color_count_bound<F>(attachments: Seq<PassAttachment<F>>)
    ensures
        color_count(attachments) <= attachments.len(),
    decreases attachments.len(),
{
    if attachments.len() > 0 {
        lemma_color_count_bound(attachments.drop_last());
    }
}

/// Where each attachment of a framebuffer goes, and which color attachments it draws into:
/// what creating the framebuffer object sets up. A framebuffer has at most one depth
/// attachment.
pub fn framebuffer_layout<F>(attachments: &Vec<PassAttachment<F>>) -> (r: (Vec<(u32, u32)>, Vec<u32>))
    requires
        depth_count(attachments@) <= 1,
    ensures
        r.0@ == framebuffer_bindings_of(attachments@),
        r.1@ == draw_buffers_of(attachments@),
{
    let mut bindings: Vec<(u32, u32)> = Vec::new();
    let mut draw: Vec<u32> = Vec::new();
    let mut colors: usize = 0;
    let n = attachments.len();
    let mut i: usize = 0;
    assert(attachments@.take(0) =~= Seq::<PassAttachment<F>>::empty());
    while i < n
        invariant
            n == attachments@.len(),
            i <= n,
            depth_count(attachments@) <= 1,
            colors == color_count(attachments@.take(i as int)),
            colors <= i,
            bindings@ == framebuffer_bindings_of(attachments@.take(i as int)),
            draw@ == draw_buffers_of(attachments@.take(i as int)),
        decreases n - i,
    {
        let a = &attachments[i];
        let target = match &a.desc.source {
            PassAttachmentSource::ThisPass => a.texture.handle,
            PassAttachmentSource::OtherPass(source) => source.device_texture.handle,
        };
        proof {
            let t = attachments@.take(i + 1);
            assert(t.drop_last() =~= attachments@.take(i as int));
            assert(t.last() == attachments@[i as int]);
            lemma_color_count_bound(attachments@.take(i as int));
        }
        match a.desc.flavor {
            PassAttachmentType::Color(_) => {
                // Attachment points wrap around as `u32` arithmetic does.
                let point = (GL_COLOR_ATTACHMENT0 as u128 + colors as u128) as u32;
                bindings.push((point, target));
                draw.push(point);
                colors += 1;
            },
            PassAttachmentType::Depth(_, _) => {
                bindings.push((GL_DEPTH_ATTACHMENT, target));
            },
        }
        i += 1;
    }
    assert(attachments@.take(n as int) =~= attachments@);
    (bindings, draw)
}

/// The fixed-function state a pass draws with: the clear mask, the clear color and color
/// writes of its last color attachment, and the clear depth, depth test and depth writes of
/// its last depth attachment.
pub struct PassDrawState<F> {
    pub clear_mask: u32,
    pub color: Option<(Vec4<F>, bool)>,
    pub depth: Option<(F, u32, bool)>,
}

/// Some attachment of `attachments` of the kind `color` (or depth) is cleared.
pub open spec fn clears<F>(attachments: Seq<PassAttachment<F>>, color: bool) -> bool {
    exists|k: int|
        0 <= k < attachments.len() && (#[trigger] attachments[k]).desc.clear && (attachments[k].desc.flavor is Color)
            == color
}

/// The color state of the last color attachment of `attachments`.
pub open spec fn last_color_state<F>(attachments: Seq<PassAttachment<F>>) -> Option<(Vec4<F>, bool)>
    decreases attachments.len(),
{
    if attachments.len() == 0 {
        None
    } else {
        match attachments.last().desc.flavor {
            PassAttachmentType::Color(c) => Some((c, attachments.last().desc.write)),
            PassAttachmentType::Depth(_, _) => last_color_state(attachments.drop_last()),
        }
    }
}

/// The depth state of the last depth attachment of `attachments`.
pub open spec fn last_depth_state<F>(attachments: Seq<PassAttachment<F>>) -> Option<(F, u32, bool)>
    decreases attachments.len(),
{
    if attachments.len() == 0 {
        None
    } else {
        match attachments.last().desc.flavor {
            PassAttachmentType::Depth(d, f) => Some((d, f, attachments.last().desc.write)),
            PassAttachmentType::Color(_) => last_depth_state(attachments.drop_last()),
        }
    }
}

/// The state a pass with `attachments` draws with, as setting up each attachment in turn
/// leaves it.
pub fn pass_draw_state<F: Copy>(attachments: &Vec<PassAttachment<F>>) -> (r: PassDrawState<F>)
    ensures
        r.clear_mask == (if clears(attachments@, true) { GL_COLOR_BUFFER_BIT } else { 0 }) + (if clears(
            attachments@,
            false,
        ) {
            GL_DEPTH_BUFFER_BIT
        } else {
            0
        }),
        r.color == last_color_state(attachments@),
        r.depth == last_depth_state(attachments@),
{
    let mut clear_color = false;
    let mut clear_depth = false;
    let mut color: Option<(Vec4<F>, bool)> = None;
    let mut depth: Option<(F, u32, bool)> = None;
    let n = attachments.len();
    let mut i: usize = 0;
    while i < n
        invariant
            n == attachments@.len(),
            i <= n,
            clear_color == clears(attachments@.take(i as int), true),
            clear_depth == clears(attachments@.take(i as int), false),
            color == last_color_state(attachments@.take(i as int)),
            depth == last_depth_state(attachments@.take(i as int)),
        decreases n - i,
    {
        let a = &attachments[i];
        let ghost t = attachments@.take(i + 1);
        assert(t.drop_last() =~= attachments@.take(i as int));
        assert(t.last() == attachments@[i as int]);
        match a.desc.flavor {
            PassAttachmentType::Color(c) => {
                color = Some((c, a.desc.write));
                if a.desc.clear {
                    clear_color = true;
                }
            },
            PassAttachmentType::Depth(d, f) => {
                depth = Some((d, f, a.desc.write));
                if a.desc.clear {
                    clear_depth = true;
                }
            },
        }
        proof {
            assert(clear_color == clears(t, true)) by {
                if clears(t, true) {
                    let k = choose|k: int|
                        0 <= k < t.len() && (#[trigger] t[k]).desc.clear && (t[k].desc.flavor is Color) == true;
                    if k < i {
                        assert(attachments@.take(i as int)[k] == t[k]);
                    }
                }
                if clears(attachments@.take(i as int), true) {
                    let k = choose|k: int|
                        0 <= k < i && (#[trigger] attachments@.take(i as int)[k]).desc.clear && (
                        attachments@.take(i as int)[k].desc.flavor is Color) == true;
                    assert(t[k] == attachments@.take(i as int)[k]);
                }
            }
            assert(clear_depth == clears(t, false)) by {
                if clears(t, false) {
                    let k = choose|k: int|
                        0 <= k < t.len() && (#[trigger] t[k]).desc.clear && (t[k].desc.flavor is Color) == false;
                    if k < i {
                        assert(attachments@.take(i as int)[k] == t[k]);
                    }
                }
                if clears(attachments@.take(i as int), false) {
                    let k = choose|k: int|
                        0 <= k < i && (#[trigger] attachments@.take(i as int)[k]).desc.clear && (
                        attachments@.take(i as int)[k].desc.flavor is Color) == false;
                    assert(t[k] == attachments@.take(i as int)[k]);
                }
            }
        }
        i += 1;
    }
    assert(attachments@.take(n as int) =~= attachments@);
    let mut mask: u32 = 0;
    if clear_color {
        mask = mask + GL_COLOR_BUFFER_BIT;
    }
    if clear_depth {
        mask = mask + GL_DEPTH_BUFFER_BIT;
    }
    PassDrawState { clear_mask: mask, color, depth }
}

/// A pass must be resized to `width` by `height`: both are positive and differ from its size.
pub open spec fn needs_resize<F>(pass: Pass<F>, width: u32, height: u32) -> bool {
    width > 0 && height > 0 && (width != pass.width || height != pass.height)
}

/// Whether a pass must be resized to `width` by `height`.
pub fn resize_required<F>(pass: &Pass<F>, width: u32, height: u32) -> (r: bool)
    ensures
        r == needs_resize(*pass, width, height),
{
    width > 0 && height > 0 && (width != pass.width || height != pass.height)
}

/// `new` is `old` with its size `(width, height)` in place of `(from_width, from_height)`
/// when it had that size; an attachment of another size keeps it.
pub open spec fn descriptor_resized<F>(
    old: PassAttachmentDescriptor<F>,
    new: PassAttachmentDescriptor<F>,
    from_width: u32,
    from_height: u32,
    width: u32,
    height: u32,
) -> bool {
    &&& new.flavor == old.flavor
    &&& new.textarget == old.textarget
    &&& new.write == old.write
    &&& new.clear == old.clear
    &&& new.mip_level == old.mip_level
    &&& match old.source {
        PassAttachmentSource::ThisPass => new.source is ThisPass,
        PassAttachmentSource::OtherPass(s) => match new.source {
            PassAttachmentSource::OtherPass(t) => t.pipeline_index == s.pipeline_index && t.attachment_index
                == s.attachment_index && same_texture(t.device_texture, s.device_texture),
            PassAttachmentSource::ThisPass => false,
        },
    }
    &&& if old.width == from_width && old.height == from_height {
        new.width == width && new.height == height
    } else {
        new.width == old.width && new.height == old.height
    }
}

/// How many of `attachments` do not have the size `(width, height)`.
pub open spec fn custom_sized<F>(attachments: Seq<PassAttachment<F>>, width: u32, height: u32) -> nat
    decreases attachments.len(),
{
    if attachments.len() == 0 {
        0
    } else {
        custom_sized(attachments.drop_last(), width, height) + if attachments.last().desc.width == width
            && attachments.last().desc.height == height {
            0nat
        } else {
            1nat
        }
    }
}

/// The descriptors of the attachments of a pass resized to `width` by `height`, and how
/// many attachments keep a size of their own (each is a warning).
pub fn resized_attachment_descriptors<F: Copy>(pass: &Pass<F>, width: u32, height: u32) -> (r: (
    Vec<PassAttachmentDescriptor<F>>,
    usize,
))
    ensures
        r.0@.len() == pass.attachments@.len(),
        forall|j: int|
            0 <= j < pass.attachments@.len() ==> descriptor_resized(
                pass.attachments@[j].desc,
                #[trigger] r.0@[j],
                pass.width,
                pass.height,
                width,
                height,
            ),
        r.1 == custom_sized(pass.attachments@, pass.width, pass.height),
{
    let mut out: Vec<PassAttachmentDescriptor<F>> = Vec::new();
    let mut custom: usize = 0;
    let n = pass.attachments.len();
    let mut i: usize = 0;
    assert(pass.attachments@.take(0) =~= Seq::<PassAttachment<F>>::empty());
    while i < n
        invariant
            n == pass.attachments@.len(),
            i <= n,
            out@.len() == i,
            custom <= i,
            forall|j: int|
                0 <= j < i ==> descriptor_resized(
                    pass.attachments@[j].desc,
                    #[trigger] out@[j],
                    pass.width,
                    pass.height,
                    width,
                    height,
                ),
            custom == custom_sized(pass.attachments@.take(i as int), pass.width, pass.height),
        decreases n - i,
    {
        let d = &pass.attachments[i].desc;
        let source = match &d.source {
            PassAttachmentSource::ThisPass => PassAttachmentSource::ThisPass,
            PassAttachmentSource::OtherPass(s) => PassAttachmentSource::OtherPass(
                OtherPassAttachmentSource {
                    pipeline_index: s.pipeline_index,
                    attachment_index: s.attachment_index,
                    device_texture: s.device_texture.duplicate(),
                },
            ),
        };
        let same = d.width == pass.width && d.height == pass.height;
        let (w, h) = if same {
            (width, height)
        } else {
            (d.width, d.height)
        };
        out.push(
            PassAttachmentDescriptor {
                flavor: d.flavor,
                source,
                textarget: d.textarget,
                write: d.write,
                clear: d.clear,
                width: w,
                height: h,
                mip_level: d.mip_level,
            },
        );
        proof {
            let t = pass.attachments@.take(i + 1);
            assert(t.drop_last() =~= pass.attachments@.take(i as int));
            assert(t.last() == pass.attachments@[i as int]);
        }
        if !same {
            custom += 1;
        }
        i += 1;
    }
    assert(pass.attachments@.take(n as int) =~= pass.attachments@);
    (out, custom)
}

/// `new` is pass `old` resized to `width` by `height`: its attachments are described as
/// `resized_attachment_descriptors` gives them, on the textures `textures`, in the
/// framebuffer `fbo`; all else is as it was.
pub open spec fn pass_resized<F>(
    old: Pass<F>,
    new: Pass<F>,
    width: u32,
    height: u32,
    textures: Seq<DeviceTexture>,
    fbo: u32,
) -> bool {
    &&& new.name == old.name
    &&& new.program == old.program
    &&& new.program_desc == old.program_desc
    &&& new.techniques == old.techniques
    &&& new.dependencies == old.dependencies
    &&& new.fbo == fbo
    &&& new.width == width
    &&& new.height == height
    &&& new.attachments@.len() == old.attachments@.len()
    &&& forall|j: int|
        0 <= j < old.attachments@.len() ==> {
            &&& descriptor_resized(old.attachments@[j].desc, (#[trigger] new.attachments@[j]).desc, old.width, old.height, width, height)
            &&& new.attachments@[j].texture == textures[j]
        }
}

impl<F: Copy> Pass<F> {
    /// Resizes the pass to `width` by `height`, on the device textures made for the resized
    /// attachment descriptions (one per attachment, in order) and the framebuffer that holds
    /// them.
    pub fn resize_with(&mut self, textures: Vec<DeviceTexture>, fbo: u32, width: u32, height: u32)
        requires
            textures@.len() == old(self).attachments@.len(),
        ensures
            pass_resized(*old(self), *final(self), width, height, textures@, fbo),
    {
        let (descriptors, _) = resized_attachment_descriptors(self, width, height);
        let ghost ds = descriptors@;
        let ghost ts = textures@;
        let mut descriptors = descriptors;
        let mut textures = textures;
        let n = descriptors.len();
        let mut built: Vec<PassAttachment<F>> = Vec::new();
        while descriptors.len() > 0
            invariant
                descriptors@.len() == textures@.len(),
                descriptors@.len() + built@.len() == n,
                n == ds.len(),
                ts.len() == n,
                forall|j: int| 0 <= j < descriptors@.len() ==> #[trigger] descriptors@[j] == ds[j],
                forall|j: int| 0 <= j < textures@.len() ==> #[trigger] textures@[j] == ts[j],
                forall|j: int|
                    0 <= j < built@.len() ==> (#[trigger] built@[j]).desc == ds[descriptors@.len() + j]
                        && built@[j].texture == ts[descriptors@.len() + j],
            decreases descriptors@.len(),
        {
            let d = descriptors.pop().unwrap();
            let t = textures.pop().unwrap();
            built.insert(0, PassAttachment { texture: t, desc: d });
        }
        self.attachments = built;
        self.fbo = fbo;
        self.width = width;
        self.height = height;
    }
}

/// `mesh` has an attribute named `name`.
pub open spec fn mesh_carries_attribute(mesh: DeviceMesh, name: Seq<char>) -> bool {
    exists|k: int| 0 <= k < mesh.attributes@.len() && mesh.attributes@[k].name@ == name
}

proof fn lemma_missing_attribute_none(
    pass_name: Seq<char>,
    meshes: Seq<DeviceMesh>,
    attributes: Seq<ShaderProgramAttribute>,
    i0: int,
    a0: int,
)
    requires
        0 <= i0,
        0 <= a0,
        missing_attribute_from(pass_name, meshes, attributes, i0, a0) is None,
    ensures
        forall|i: int, a: int|
            i0 <= i < meshes.len() && 0 <= a < attributes.len() && (i > i0 || a >= a0) ==> #[trigger] mesh_carries_attribute(
                meshes[i],
                attributes[a].name@,
            ),
    decreases meshes.len() - i0, attributes.len() - a0,
{
    if i0 < meshes.len() {
        if a0 >= attributes.len() {
            lemma_missing_attribute_none(pass_name, meshes, attributes, i0 + 1, 0);
        } else {
            lemma_missing_attribute_none(pass_name, meshes, attributes, i0, a0 + 1);
            assert(!mesh_lacks_attribute(meshes[i0], attributes[a0].name@));
            let k = choose|k: int|
                0 <= k < meshes[i0].attributes@.len() && !((#[trigger] meshes[i0].attributes@[k]).name@ != attributes[a0].name@);
            assert(mesh_carries_attribute(meshes[i0], attributes[a0].name@));
        }
    }
}

/// Every mesh of the model must provide every attribute that the pass's program reads. A
/// pass found valid has, in each mesh, an attribute named like each attribute of its
/// program; so a mesh, whichever its place, that has no attribute of some program
/// attribute's name makes the pass invalid.
pub proof fn lemma_valid_pass_meshes_provide_attributes<F>(
    pass: Pass<F>,
    entries: Seq<(Techniques, Technique<F>)>,
    model: DeviceModel<F>,
)
    ensures
        render_pass_check(pass, entries, model).1 is None ==> forall|i: int, a: int|
            0 <= i < model.meshes@.len() && 0 <= a < pass.program.attributes@.len() ==> #[trigger] mesh_carries_attribute(
                model.meshes@[i],
                pass.program.attributes@[a].name@,
            ),
        forall|i: int, a: int|
            0 <= i < model.meshes@.len() && 0 <= a < pass.program.attributes@.len() && !#[trigger] mesh_carries_attribute(
                model.meshes@[i],
                pass.program.attributes@[a].name@,
            ) ==> render_pass_check(pass, entries, model).1 is Some,
{
    let meshes = model.meshes@;
    let attributes = pass.program.attributes@;
    if missing_attribute_from(pass.name@, meshes, attributes, 0, 0) is None {
        lemma_missing_attribute_none(pass.name@, meshes, attributes, 0, 0);
    }
}

/// A pass draws with the depth state of its last depth attachment: when attachment `k` is
/// `Depth(d, f)` and every attachment after it is a color attachment, the depth state is
/// clear depth `d`, depth test `f` and the attachment's depth writes; with no depth
/// attachment there is no depth state. Likewise the color state is the clear color and
/// color writes of the last color attachment.
pub proof fn lemma_draw_state_follows_last_attachments<F>(attachments: Seq<PassAttachment<F>>, k: int)
    requires
        0 <= k < attachments.len(),
    ensures
        (forall|j: int| k < j < attachments.len() ==> (#[trigger] attachments[j]).desc.flavor is Color) ==> match attachments[k].desc.flavor {
            PassAttachmentType::Depth(d, f) => last_depth_state(attachments) == Some((d, f, attachments[k].desc.write)),
            PassAttachmentType::Color(_) => true,
        },
        (forall|j: int| k < j < attachments.len() ==> (#[trigger] attachments[j]).desc.flavor is Depth) ==> match attachments[k].desc.flavor {
            PassAttachmentType::Color(c) => last_color_state(attachments) == Some((c, attachments[k].desc.write)),
            PassAttachmentType::Depth(_, _) => true,
        },
        (forall|j: int| 0 <= j < attachments.len() ==> (#[trigger] attachments[j]).desc.flavor is Color) ==> last_depth_state(
            attachments,
        ) is None,
        (forall|j: int| 0 <= j < attachments.len() ==> (#[trigger] attachments[j]).desc.flavor is Depth) ==> last_color_state(
            attachments,
        ) is None,
    decreases attachments.len(),
{
    let rest = attachments.drop_last();
    let n = attachments.len();
    if k < n - 1 {
        assert forall|j: int| 0 <= j < rest.len() implies #[trigger] rest[j] == attachments[j] by {}
        lemma_draw_state_follows_last_attachments(rest, k);
        if forall|j: int| k < j < attachments.len() ==> (#[trigger] attachments[j]).desc.flavor is Color {
            assert(attachments[n - 1].desc.flavor is Color);
            assert forall|j: int| k < j < rest.len() implies (#[trigger] rest[j]).desc.flavor is Color by {
                assert(attachments[j].desc.flavor is Color);
            }
        }
        if forall|j: int| k < j < attachments.len() ==> (#[trigger] attachments[j]).desc.flavor is Depth {
            assert(attachments[n - 1].desc.flavor is Depth);
            assert forall|j: int| k < j < rest.len() implies (#[trigger] rest[j]).desc.flavor is Depth by {
                assert(attachments[j].desc.flavor is Depth);
            }
        }
    } else if n > 1 {
        assert forall|j: int| 0 <= j < rest.len() implies #[trigger] rest[j] == attachments[j] by {}
        lemma_draw_state_follows_last_attachments(rest, 0);
    }
    if forall|j: int| 0 <= j < attachments.len() ==> (#[trigger] attachments[j]).desc.flavor is Color {
        lemma_no_depth_state(attachments);
    }
    if forall|j: int| 0 <= j < attachments.len() ==> (#[trigger] attachments[j]).desc.flavor is Depth {
        lemma_no_color_state(attachments);
    }
}

proof fn lemma_no_depth_state<F>(attachments: Seq<PassAttachment<F>>)
    requires
        forall|j: int| 0 <= j < attachments.len() ==> (#[trigger] attachments[j]).desc.flavor is Color,
    ensures
        last_depth_state(attachments) is None,
    decreases attachments.len(),
{
    if attachments.len() > 0 {
        let rest = attachments.drop_last();
        assert(attachments[attachments.len() - 1].desc.flavor is Color);
        assert forall|j: int| 0 <= j < rest.len() implies (#[trigger] rest[j]).desc.flavor is Color by {
            assert(attachments[j].desc.flavor is Color);
        }
        lemma_no_depth_state(rest);
    }
}

proof fn lemma_no_color_state<F>(attachments: Seq<PassAttachment<F>>)
    requires
        forall|j: int| 0 <= j < attachments.len() ==> (#[trigger] attachments[j]).desc.flavor is Depth,
    ensures
        last_color_state(attachments) is None,
    decreases attachments.len(),
{
    if attachments.len() > 0 {
        let rest = attachments.drop_last();
        assert(attachments[attachments.len() - 1].desc.flavor is Depth);
        assert forall|j: int| 0 <= j < rest.len() implies (#[trigger] rest[j]).desc.flavor is Depth by {
            assert(attachments[j].desc.flavor is Depth);
        }
        lemma_no_color_state(rest);
    }
}

} // verus!
