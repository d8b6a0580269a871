//! The render pipeline: a depth pre-pass, a lighting pass, a skybox pass and a tone mapping
//! pass, each drawing into or reading from the attachments of the earlier ones.

use vstd::prelude::*;
use crate::math::Vec4;
use crate::model::{DeviceModel, model_bound, model_free_of, model_unbound};
use crate::pass::{
    built_from, pass_resized, descriptor_resized,
    OtherPassAttachmentSource, Pass, PassAttachmentDescriptor, PassAttachmentSource, PassAttachmentType,
    PassDependencyDescriptor, PassDescriptor,
};
use crate::shader::HostShaderProgramDescriptor;
use crate::tech::Techniques;
use crate::tex::{DeviceTexture, GL_TEXTURE_2D, same_texture};
use crate::text::owned;
use crate::material::{
    Property, material_bound, material_free_of, material_unbound, properties_bound, properties_free_of, properties_unbound,
};
use crate::uniform::{
    PerModelUnifrom, TextureSampler, Uniform, bindings_free_of, bindings_of_program, bound_bindings, bound_locations,
    locations_free_of, per_model_uniforms_bound, per_model_uniforms_free_of, samplers_bound, samplers_free_of,
    uniforms_bound, uniforms_free_of,
};
use crate::tech::{technique_bound, technique_free_of};
use crate::shader::{ShaderProgram, scalar_uniform_location};
use crate::pass::{
    is_render_pass_valid, material_indices_valid, missing_attribute_from, pass_techniques_present,
    provided_uniform_names, render_pass_check, texts,
};
use crate::tech::{Technique, TechniqueContainer, keys_distinct};
use crate::rebind::{
    lemma_locations_unbound_free, lemma_unbound_all_keeps_free,
    container_restored, lemma_bound_all_agrees, lemma_container_agrees_restored, lemma_container_agrees_trans,
    lemma_unbound_all_agrees,
};

verus! {

/// The depth test that passes when the new depth is less than the stored one.
pub const GL_LESS: u32 = 0x0201;

/// The depth test that passes when the new depth equals the stored one.
pub const GL_EQUAL: u32 = 0x0202;

/// The passes of the pipeline, and the models that its skybox and tone mapping passes draw.
pub struct Pipeline<F> {
    pub passes: Vec<Pass<F>>,
    pub skybox_model: DeviceModel<F>,
    pub fullsceen_model: DeviceModel<F>,
}

/// A program description with these names.
pub open spec fn program_is(p: HostShaderProgramDescriptor, name: Seq<char>, vert: Seq<char>, frag: Seq<char>) -> bool {
    &&& p.name@ == name
    &&& p.vert_shader_file_path@ == vert
    &&& p.frag_shader_file_path@ == frag
}

/// An attachment of `width` by `height` texels at mip level 0 of a 2D texture.
pub open spec fn attachment_is<F>(
    a: PassAttachmentDescriptor<F>,
    flavor: PassAttachmentType<F>,
    clear: bool,
    write: bool,
    width: u32,
    height: u32,
) -> bool {
    &&& a.flavor == flavor
    &&& a.textarget == GL_TEXTURE_2D
    &&& a.clear == clear
    &&& a.write == write
    &&& a.width == width
    &&& a.height == height
    &&& a.mip_level == 0
}

/// `source` is attachment `attachment_index` of pass `pipeline_index` of `passes`.
pub open spec fn source_is<F>(
    source: OtherPassAttachmentSource,
    passes: Seq<Pass<F>>,
    pipeline_index: usize,
    attachment_index: usize,
) -> bool {
    &&& source.pipeline_index == pipeline_index
    &&& source.attachment_index == attachment_index
    &&& same_texture(source.device_texture, passes[pipeline_index as int].attachments@[attachment_index as int].texture)
}

/// Attachment `a` of another pass, `pipeline_index` and `attachment_index` in `passes`.
pub open spec fn borrowed_attachment<F>(
    a: PassAttachmentDescriptor<F>,
    passes: Seq<Pass<F>>,
    pipeline_index: usize,
    attachment_index: usize,
) -> bool {
    match a.source {
        PassAttachmentSource::OtherPass(s) => source_is(s, passes, pipeline_index, attachment_index),
        PassAttachmentSource::ThisPass => false,
    }
}

/// The passes that stage `stage` of the pipeline reads from exist.
pub open spec fn stage_inputs_ready<F>(stage: int, passes: Seq<Pass<F>>) -> bool {
    &&& passes.len() == stage
    &&& stage >= 1 ==> passes[0].attachments@.len() >= 1
    &&& stage >= 2 ==> passes[1].attachments@.len() >= 2
    &&& stage >= 3 ==> passes[2].attachments@.len() >= 2
}

/// `d` describes stage `stage` of the pipeline for a `width` by `height` target, clearing
/// color to `clear_color` and depth to `clear_depth`, after the passes `passes`.
pub open spec fn stage_descriptor<F>(
    stage: int,
    d: PassDescriptor<F>,
    width: u32,
    height: u32,
    clear_color: Vec4<F>,
    clear_depth: F,
    passes: Seq<Pass<F>>,
) -> bool {
    let at = d.attachments@;
    let deps = d.dependencies@;
    &&& d.width == width
    &&& d.height == height
    &&& if stage == 0 {
        &&& d.name@ == "Depth Pre-Pass"@
        &&& program_is(d.program, "depth pre-pass"@, "shaders/depth_pre_pass.vert"@, "shaders/depth_pre_pass.frag"@)
        &&& d.techniques@ =~= seq![Techniques::MVP]
        &&& at.len() == 1
        &&& attachment_is(at[0], PassAttachmentType::Depth(clear_depth, GL_LESS), true, true, width, height)
        &&& at[0].source is ThisPass
        &&& deps.len() == 0
    } else if stage == 1 {
        &&& d.name@ == "Lighting Pass"@
        &&& program_is(d.program, "lighting"@, "shaders/lighting.vert"@, "shaders/lighting.frag"@)
        &&& d.techniques@ =~= seq![Techniques::MVP, Techniques::Lighting]
        &&& at.len() == 2
        &&& attachment_is(at[0], PassAttachmentType::Depth(clear_depth, GL_EQUAL), false, false, width, height)
        &&& borrowed_attachment(at[0], passes, 0, 0)
        &&& attachment_is(at[1], PassAttachmentType::Color(clear_color), true, true, width, height)
        &&& at[1].source is ThisPass
        &&& deps.len() == 1
        &&& deps[0].name@ == "uDepthMapSampler2D"@
        &&& source_is(deps[0].source, passes, 0, 0)
    } else if stage == 2 {
        &&& d.name@ == "Skybox Pass"@
        &&& program_is(d.program, "skybox"@, "shaders/skybox.vert"@, "shaders/skybox.frag"@)
        &&& d.techniques@ =~= seq![Techniques::Skybox]
        &&& at.len() == 2
        &&& attachment_is(at[0], PassAttachmentType::Depth(clear_depth, GL_LESS), false, false, width, height)
        &&& borrowed_attachment(at[0], passes, 0, 0)
        &&& attachment_is(at[1], PassAttachmentType::Color(clear_color), false, true, width, height)
        &&& borrowed_attachment(at[1], passes, 1, 1)
        &&& deps.len() == 0
    } else {
        &&& d.name@ == "Tone Mapping Pass"@
        &&& program_is(d.program, "tone mapping"@, "shaders/pass_through.vert"@, "shaders/tone_mapping.frag"@)
        &&& d.techniques@ =~= seq![Techniques::ToneMapping]
        &&& at.len() == 1
        &&& attachment_is(at[0], PassAttachmentType::Color(clear_color), true, true, width, height)
        &&& at[0].source is ThisPass
        &&& deps.len() == 1
        &&& deps[0].name@ == "uColorSampler2D"@
        &&& source_is(deps[0].source, passes, 2, 1)
    }
}

fn program(name: &str, vert: &str, frag: &str) -> (r: HostShaderProgramDescriptor)
    ensures
        program_is(r, name@, vert@, frag@),
{
    HostShaderProgramDescriptor {
        name: owned(name),
        vert_shader_file_path: owned(vert),
        frag_shader_file_path: owned(frag),
    }
}

fn attachment<F>(
    flavor: PassAttachmentType<F>,
    source: PassAttachmentSource,
    clear: bool,
    write: bool,
    width: u32,
    height: u32,
) -> (r: PassAttachmentDescriptor<F>)
    ensures
        attachment_is(r, flavor, clear, write, width, height),
        r.source == source,
{
    PassAttachmentDescriptor { flavor, source, textarget: GL_TEXTURE_2D, write, clear, width, height, mip_level: 0 }
}

fn source_of<F>(passes: &Vec<Pass<F>>, pipeline_index: usize, attachment_index: usize) -> (r: OtherPassAttachmentSource)
    requires
        pipeline_index < passes@.len(),
        attachment_index < passes@[pipeline_index as int].attachments@.len(),
    ensures
        source_is(r, passes@, pipeline_index, attachment_index),
{
    OtherPassAttachmentSource {
        pipeline_index,
        attachment_index,
        device_texture: passes[pipeline_index].attachments[attachment_index].texture.duplicate(),
    }
}

/// `pass` was made from a description of stage `stage` of a `width` by `height` pipeline
/// that clears to `clear_color` and `clear_depth`, after the passes `before`, which hold the
/// attachments the stage reads.
pub open spec fn stage_built<F>(
    stage: int,
    pass: Pass<F>,
    width: u32,
    height: u32,
    clear_color: Vec4<F>,
    clear_depth: F,
    before: Seq<Pass<F>>,
) -> bool {
    &&& stage_inputs_ready(stage, before)
    &&& exists|d: PassDescriptor<F>|
        #[trigger] stage_descriptor(stage, d, width, height, clear_color, clear_depth, before) && built_from(pass, d)
}

/// `passes` are the four stages of a `width` by `height` pipeline that clears to
/// `clear_color` and `clear_depth`, each made from its stage's description after the
/// stages before it.
pub open spec fn pipeline_passes_of<F>(
    passes: Seq<Pass<F>>,
    width: u32,
    height: u32,
    clear_color: Vec4<F>,
    clear_depth: F,
) -> bool {
    &&& passes.len() == 4
    &&& forall|i: int|
        0 <= i < 4 ==> #[trigger] stage_built(i, passes[i], width, height, clear_color, clear_depth, passes.take(i))
}

/// `passes` are the four stages of a pipeline of some size and clear values.
pub open spec fn is_pipeline_passes<F>(passes: Seq<Pass<F>>) -> bool {
    exists|width: u32, height: u32, clear_color: Vec4<F>, clear_depth: F|
        #[trigger] pipeline_passes_of(passes, width, height, clear_color, clear_depth)
}

/// Whether the passes `passes` are what stage `stage` reads from: as many as the stages
/// before it, with the attachments it borrows.
pub fn stage_ready<F>(stage: usize, passes: &Vec<Pass<F>>) -> (r: bool)
    ensures
        r == stage_inputs_ready(stage as int, passes@),
{
    passes.len() == stage
        && (stage < 1 || passes[0].attachments.len() >= 1)
        && (stage < 2 || passes[1].attachments.len() >= 2)
        && (stage < 3 || passes[2].attachments.len() >= 2)
}

/// The description of stage `stage` of the pipeline, given the passes of the stages before
/// it: the depth pre-pass, the lighting pass, the skybox pass, then the tone mapping pass.
pub fn pipeline_pass_descriptor<F: Copy>(
    stage: usize,
    width: u32,
    height: u32,
    clear_color: Vec4<F>,
    clear_depth: F,
    passes: &Vec<Pass<F>>,
) -> (r: PassDescriptor<F>)
    requires
        stage < 4,
        stage_inputs_ready(stage as int, passes@),
    ensures
        stage_descriptor(stage as int, r, width, height, clear_color, clear_depth, passes@),
{
    if stage == 0 {
        PassDescriptor {
            name: owned("Depth Pre-Pass"),
            program: program("depth pre-pass", "shaders/depth_pre_pass.vert", "shaders/depth_pre_pass.frag"),
            techniques: vec![Techniques::MVP],
            attachments: vec![
                attachment(
                    PassAttachmentType::Depth(clear_depth, GL_LESS),
                    PassAttachmentSource::ThisPass,
                    true,
                    true,
                    width,
                    height,
                ),
            ],
            dependencies: Vec::new(),
            width,
            height,
        }
    } else if stage == 1 {
        let depth = attachment(
            PassAttachmentType::Depth(clear_depth, GL_EQUAL),
            PassAttachmentSource::OtherPass(source_of(passes, 0, 0)),
            false,
            false,
            width,
            height,
        );
        let color = attachment(
            PassAttachmentType::Color(clear_color),
            PassAttachmentSource::ThisPass,
            true,
            true,
            width,
            height,
        );
        let dependency = PassDependencyDescriptor { name: owned("uDepthMapSampler2D"), source: source_of(passes, 0, 0) };
        PassDescriptor {
            name: owned("Lighting Pass"),
            program: program("lighting", "shaders/lighting.vert", "shaders/lighting.frag"),
            techniques: vec![Techniques::MVP, Techniques::Lighting],
            attachments: vec![depth, color],
            dependencies: vec![dependency],
            width,
            height,
        }
    } else if stage == 2 {
        let depth = attachment(
            PassAttachmentType::Depth(clear_depth, GL_LESS),
            PassAttachmentSource::OtherPass(source_of(passes, 0, 0)),
            false,
            false,
            width,
            height,
        );
        let color = attachment(
            PassAttachmentType::Color(clear_color),
            PassAttachmentSource::OtherPass(source_of(passes, 1, 1)),
            false,
            true,
            width,
            height,
        );
        PassDescriptor {
            name: owned("Skybox Pass"),
            program: program("skybox", "shaders/skybox.vert", "shaders/skybox.frag"),
            techniques: vec![Techniques::Skybox],
            attachments: vec![depth, color],
            dependencies: Vec::new(),
            width,
            height,
        }
    } else {
        let color = attachment(
            PassAttachmentType::Color(clear_color),
            PassAttachmentSource::ThisPass,
            true,
            true,
            width,
            height,
        );
        let dependency = PassDependencyDescriptor { name: owned("uColorSampler2D"), source: source_of(passes, 2, 1) };
        PassDescriptor {
            name: owned("Tone Mapping Pass"),
            program: program("tone mapping", "shaders/pass_through.vert", "shaders/tone_mapping.frag"),
            techniques: vec![Techniques::ToneMapping],
            attachments: vec![color],
            dependencies: vec![dependency],
            width,
            height,
        }
    }
}


proof fn lemma_properties_bound_keep_free<T>(
    old: Seq<Property<Uniform<T>>>,
    new: Seq<Property<Uniform<T>>>,
    program: ShaderProgram,
    handle: u32,
)
    requires
        properties_free_of(old, handle),
        properties_bound(old, new, program),
        program.handle != handle,
    ensures
        properties_free_of(new, handle),
{
    assert forall|i: int| 0 <= i < new.len() implies locations_free_of(
        #[trigger] new[i].value.data_location.locations@,
        handle,
    ) by {
        let l = old[i].value.data_location.locations@;
        assert(locations_free_of(l, handle));
        assert(new[i].value.data_location.locations@ == bound_locations(l, program, old[i].value.name@));
    }
}

/// Binding a model to one program leaves it free of every other program.
proof fn lemma_model_bound_keeps_free<F>(old: DeviceModel<F>, new: DeviceModel<F>, program: ShaderProgram, handle: u32)
    requires
        model_free_of(old, handle),
        model_bound(old, new, program),
        program.handle != handle,
    ensures
        model_free_of(new, handle),
{
    assert forall|i: int| 0 <= i < new.materials@.len() implies material_free_of(#[trigger] new.materials@[i], handle) by {
        let o = old.materials@[i];
        let n = new.materials@[i];
        assert(material_free_of(o, handle));
        assert(material_bound(o, n, program));
        lemma_properties_bound_keep_free(o.properties_1u@, n.properties_1u@, program, handle);
        lemma_properties_bound_keep_free(o.properties_1f@, n.properties_1f@, program, handle);
        lemma_properties_bound_keep_free(o.properties_3f@, n.properties_3f@, program, handle);
    }
}

/// `new` is `old` bound to program `first`, then to program `second`.
pub open spec fn model_bound_twice<F>(
    old: DeviceModel<F>,
    new: DeviceModel<F>,
    first: ShaderProgram,
    second: ShaderProgram,
) -> bool {
    exists|mid: DeviceModel<F>| model_bound(old, mid, first) && #[trigger] model_bound(mid, new, second)
}

/// `new` is `old` unbound from program `first`, then from program `second`.
pub open spec fn model_unbound_twice<F>(old: DeviceModel<F>, new: DeviceModel<F>, first: u32, second: u32) -> bool {
    exists|mid: DeviceModel<F>| model_unbound(old, mid, first) && #[trigger] model_unbound(mid, new, second)
}

impl<F> Pipeline<F> {
    /// The pipeline of the four passes of `pipeline_pass_descriptor`, in order, with the
    /// skybox model bound to the skybox pass and the full-screen model to the tone mapping
    /// pass.
    pub fn new(passes: Vec<Pass<F>>, skybox_model: DeviceModel<F>, fullsceen_model: DeviceModel<F>) -> (r: Pipeline<F>)
        requires
            passes@.len() == 4,
            is_pipeline_passes(passes@),
            model_free_of(skybox_model, passes@[2].program.handle),
            model_free_of(fullsceen_model, passes@[3].program.handle),
        ensures
            r.passes@ == passes@,
            is_pipeline_passes(r.passes@),
            model_bound(skybox_model, r.skybox_model, passes@[2].program),
            model_bound(fullsceen_model, r.fullsceen_model, passes@[3].program),
    {
        let mut pipeline = Pipeline { passes, skybox_model, fullsceen_model };
        pipeline.skybox_model.bind_pass(&pipeline.passes[2]);
        pipeline.fullsceen_model.bind_pass(&pipeline.passes[3]);
        pipeline
    }

    /// Binds a model to the depth pre-pass and the lighting pass.
    pub fn bind_model(&self, device_model: &mut DeviceModel<F>)
        requires
            self.passes@.len() >= 2,
            self.passes@[0].program.handle != self.passes@[1].program.handle,
            model_free_of(*old(device_model), self.passes@[0].program.handle),
            model_free_of(*old(device_model), self.passes@[1].program.handle),
        ensures
            model_bound_twice(*old(device_model), *final(device_model), self.passes@[0].program, self.passes@[1].program),
    {
        let ghost before = *device_model;
        device_model.bind_pass(&self.passes[0]);
        let ghost mid = *device_model;
        proof {
            lemma_model_bound_keeps_free(before, mid, self.passes@[0].program, self.passes@[1].program.handle);
        }
        device_model.bind_pass(&self.passes[1]);
        assert(model_bound(mid, *device_model, self.passes@[1].program));
    }

    /// Unbinds a model from the depth pre-pass and the lighting pass.
    pub fn unbind_model(&self, device_model: &mut DeviceModel<F>)
        requires
            self.passes@.len() >= 2,
        ensures
            model_unbound_twice(
                *old(device_model),
                *final(device_model),
                self.passes@[0].program.handle,
                self.passes@[1].program.handle,
            ),
    {
        device_model.unbind_pass(self.passes[0].program.handle);
        let ghost mid = *device_model;
        device_model.unbind_pass(self.passes[1].program.handle);
        assert(model_unbound(mid, *device_model, self.passes@[1].program.handle));
    }
}

/// A pass can be checked against a container and a model: its techniques are there, its
/// uniform count fits, and if its meshes provide its attributes, each mesh names a
/// material of the model.
pub open spec fn pass_checkable<F>(pass: Pass<F>, entries: Seq<(Techniques, Technique<F>)>, model: DeviceModel<F>) -> bool {
    &&& pass_techniques_present(pass, entries)
    &&& provided_uniform_names(pass.techniques@, entries).len() + 1 < u64::MAX
    &&& missing_attribute_from(pass.name@, model.meshes@, pass.program.attributes@, 0, 0) is None
        ==> material_indices_valid(model)
}

/// What validating the passes `passes` in order reports: the diagnostics of each pass
/// checked, and the first error, at which checking stops.
pub open spec fn pipeline_check<F>(
    passes: Seq<Pass<F>>,
    entries: Seq<(Techniques, Technique<F>)>,
    model: DeviceModel<F>,
) -> (Seq<Seq<char>>, Option<Seq<char>>)
    decreases passes.len(),
{
    if passes.len() == 0 {
        (Seq::empty(), None)
    } else {
        let first = render_pass_check(passes[0], entries, model);
        match first.1 {
            Some(msg) => (first.0, Some(msg)),
            None => {
                let rest = pipeline_check(passes.drop_first(), entries, model);
                (first.0 + rest.0, rest.1)
            },
        }
    }
}

/// Validates every pass of the pipeline against the techniques and a model, in order, and
/// stops at the first invalid pass with its error.
pub fn is_render_pipeline_valid<F>(
    pipeline: &Pipeline<F>,
    techniques: &TechniqueContainer<F>,
    device_model: &DeviceModel<F>,
    diagnostics: &mut Vec<String>,
) -> (r: Result<(), String>)
    requires
        keys_distinct(techniques.map@),
        forall|k: int|
            0 <= k < pipeline.passes@.len() ==> pass_checkable(#[trigger] pipeline.passes@[k], techniques.map@, *device_model),
    ensures
        texts(final(diagnostics)@) == texts(old(diagnostics)@) + pipeline_check(
            pipeline.passes@,
            techniques.map@,
            *device_model,
        ).0,
        crate::pass::result_is_opt(r, pipeline_check(pipeline.passes@, techniques.map@, *device_model).1),
{
    let ghost total = pipeline_check(pipeline.passes@, techniques.map@, *device_model);
    let n = pipeline.passes.len();
    let mut k: usize = 0;
    assert(pipeline.passes@.skip(0) =~= pipeline.passes@);
    while k < n
        invariant
            n == pipeline.passes@.len(),
            k <= n,
            keys_distinct(techniques.map@),
            forall|q: int|
                0 <= q < pipeline.passes@.len() ==> pass_checkable(#[trigger] pipeline.passes@[q], techniques.map@, *device_model),
            total == pipeline_check(pipeline.passes@, techniques.map@, *device_model),
            texts(diagnostics@) + pipeline_check(pipeline.passes@.skip(k as int), techniques.map@, *device_model).0
                == texts(old(diagnostics)@) + total.0,
            pipeline_check(pipeline.passes@.skip(k as int), techniques.map@, *device_model).1 == total.1,
        decreases n - k,
    {
        let ghost rest = pipeline.passes@.skip(k as int);
        let ghost before = texts(diagnostics@);
        assert(rest[0] == pipeline.passes@[k as int]);
        assert(rest.drop_first() =~= pipeline.passes@.skip(k + 1));
        assert(pass_checkable(pipeline.passes@[k as int], techniques.map@, *device_model));
        let r = is_render_pass_valid(&pipeline.passes[k], techniques, device_model, diagnostics);
        match r {
            Err(msg) => {
                assert(texts(diagnostics@) =~= texts(old(diagnostics)@) + total.0);
                return Err(msg);
            },
            Ok(()) => {},
        }
        assert(texts(diagnostics@) + pipeline_check(pipeline.passes@.skip(k + 1), techniques.map@, *device_model).0
            =~= before + pipeline_check(rest, techniques.map@, *device_model).0);
        k += 1;
    }
    proof {
        assert(pipeline.passes@.skip(n as int) =~= Seq::<Pass<F>>::empty());
        assert(texts(diagnostics@) + Seq::<Seq<char>>::empty() =~= texts(diagnostics@));
    }
    Ok(())
}


/// Every source of an earlier pass that pass `i` reads (through an attachment or a
/// dependency) is an attachment of a pass before it.
pub open spec fn sources_precede<F>(passes: Seq<Pass<F>>, i: int) -> bool {
    let pass = passes[i];
    &&& forall|j: int|
        0 <= j < pass.attachments@.len() ==> match (#[trigger] pass.attachments@[j]).desc.source {
            PassAttachmentSource::OtherPass(s) => s.pipeline_index < i && s.attachment_index
                < passes[s.pipeline_index as int].attachments@.len(),
            PassAttachmentSource::ThisPass => true,
        }
    &&& forall|j: int|
        0 <= j < pass.dependencies@.len() ==> {
            let s = (#[trigger] pass.dependencies@[j]).desc.source;
            s.pipeline_index < i && s.attachment_index < passes[s.pipeline_index as int].attachments@.len()
        }
}

/// `new` is pass `old` whose attachment and dependency sources name again the textures
/// that the earlier passes of `passes` hold now; nothing else changes.
pub open spec fn sources_refreshed<F>(old: Pass<F>, new: Pass<F>, passes: Seq<Pass<F>>) -> bool {
    &&& new.name == old.name
    &&& new.program == old.program
    &&& new.program_desc == old.program_desc
    &&& new.techniques == old.techniques
    &&& new.fbo == old.fbo
    &&& new.width == old.width
    &&& new.height == old.height
    &&& new.attachments@.len() == old.attachments@.len()
    &&& forall|j: int|
        0 <= j < old.attachments@.len() ==> {
            let o = old.attachments@[j];
            let n = #[trigger] new.attachments@[j];
            &&& n.texture == o.texture
            &&& n.desc.flavor == o.desc.flavor
            &&& n.desc.textarget == o.desc.textarget
            &&& n.desc.write == o.desc.write
            &&& n.desc.clear == o.desc.clear
            &&& n.desc.width == o.desc.width
            &&& n.desc.height == o.desc.height
            &&& n.desc.mip_level == o.desc.mip_level
            &&& match o.desc.source {
                PassAttachmentSource::OtherPass(s) => borrowed_attachment(
                    n.desc,
                    passes,
                    s.pipeline_index,
                    s.attachment_index,
                ),
                PassAttachmentSource::ThisPass => n.desc.source is ThisPass,
            }
        }
    &&& new.dependencies@.len() == old.dependencies@.len()
    &&& forall|j: int|
        0 <= j < old.dependencies@.len() ==> {
            let o = old.dependencies@[j];
            let n = #[trigger] new.dependencies@[j];
            &&& n.sampler == o.sampler
            &&& n.desc.name == o.desc.name
            &&& source_is(n.desc.source, passes, o.desc.source.pipeline_index, o.desc.source.attachment_index)
        }
}

/// Points the attachments and dependencies of pass `i` that read earlier passes at the
/// textures those passes hold now, as resizing the pipeline does before it resizes pass
/// `i`.
pub fn refresh_pass_sources<F>(pipeline: &mut Pipeline<F>, i: usize)
    requires
        i < old(pipeline).passes@.len(),
        sources_precede(old(pipeline).passes@, i as int),
    ensures
        final(pipeline).skybox_model == old(pipeline).skybox_model,
        final(pipeline).fullsceen_model == old(pipeline).fullsceen_model,
        final(pipeline).passes@.len() == old(pipeline).passes@.len(),
        forall|k: int| 0 <= k < old(pipeline).passes@.len() && k != i ==> #[trigger] final(pipeline).passes@[k] == old(pipeline).passes@[k],
        sources_refreshed(old(pipeline).passes@[i as int], final(pipeline).passes@[i as int], old(pipeline).passes@),
{
    let ghost passes = pipeline.passes@;
    let n = pipeline.passes[i].attachments.len();
    let mut j: usize = 0;
    while j < n
        invariant
            i < passes.len(),
            passes == old(pipeline).passes@,
            sources_precede(passes, i as int),
            pipeline.skybox_model == old(pipeline).skybox_model,
            pipeline.fullsceen_model == old(pipeline).fullsceen_model,
            pipeline.passes@.len() == passes.len(),
            forall|k: int| 0 <= k < passes.len() && k != i ==> #[trigger] pipeline.passes@[k] == passes[k],
            n == passes[i as int].attachments@.len(),
            j <= n,
            ({
                let o = passes[i as int];
                let c = pipeline.passes@[i as int];
                &&& c.name == o.name && c.program == o.program && c.program_desc == o.program_desc
                &&& c.techniques == o.techniques && c.fbo == o.fbo && c.width == o.width && c.height == o.height
                &&& c.dependencies == o.dependencies
                &&& c.attachments@.len() == n
                &&& forall|q: int| j <= q < n ==> #[trigger] c.attachments@[q] == o.attachments@[q]
                &&& forall|q: int|
                    0 <= q < j ==> {
                        let oa = o.attachments@[q];
                        let na = #[trigger] c.attachments@[q];
                        &&& na.texture == oa.texture
                        &&& na.desc.flavor == oa.desc.flavor
                        &&& na.desc.textarget == oa.desc.textarget
                        &&& na.desc.write == oa.desc.write
                        &&& na.desc.clear == oa.desc.clear
                        &&& na.desc.width == oa.desc.width
                        &&& na.desc.height == oa.desc.height
                        &&& na.desc.mip_level == oa.desc.mip_level
                        &&& match oa.desc.source {
                            PassAttachmentSource::OtherPass(s) => borrowed_attachment(
                                na.desc,
                                passes,
                                s.pipeline_index,
                                s.attachment_index,
                            ),
                            PassAttachmentSource::ThisPass => na.desc.source is ThisPass,
                        }
                    }
            }),
        decreases n - j,
    {
        let source = match &pipeline.passes[i].attachments[j].desc.source {
            PassAttachmentSource::OtherPass(s) => Some((s.pipeline_index, s.attachment_index)),
            PassAttachmentSource::ThisPass => None,
        };
        match source {
            Some((pi, ai)) => {
                assert(pi < i);
                assert(pipeline.passes@[pi as int] == passes[pi as int]);
                let texture = pipeline.passes[pi].attachments[ai].texture.duplicate();
                pipeline.passes[i].attachments[j].desc.source = PassAttachmentSource::OtherPass(
                    OtherPassAttachmentSource { pipeline_index: pi, attachment_index: ai, device_texture: texture },
                );
            },
            None => {},
        }
        j += 1;
    }
    let m = pipeline.passes[i].dependencies.len();
    let mut j: usize = 0;
    while j < m
        invariant
            i < passes.len(),
            passes == old(pipeline).passes@,
            sources_precede(passes, i as int),
            pipeline.skybox_model == old(pipeline).skybox_model,
            pipeline.fullsceen_model == old(pipeline).fullsceen_model,
            pipeline.passes@.len() == passes.len(),
            forall|k: int| 0 <= k < passes.len() && k != i ==> #[trigger] pipeline.passes@[k] == passes[k],
            m == passes[i as int].dependencies@.len(),
            j <= m,
            ({
                let o = passes[i as int];
                let c = pipeline.passes@[i as int];
                &&& c.name == o.name && c.program == o.program && c.program_desc == o.program_desc
                &&& c.techniques == o.techniques && c.fbo == o.fbo && c.width == o.width && c.height == o.height
                &&& c.attachments@.len() == o.attachments@.len()
                &&& forall|q: int|
                    0 <= q < o.attachments@.len() ==> {
                        let oa = o.attachments@[q];
                        let na = #[trigger] c.attachments@[q];
                        &&& na.texture == oa.texture
                        &&& na.desc.flavor == oa.desc.flavor
                        &&& na.desc.textarget == oa.desc.textarget
                        &&& na.desc.write == oa.desc.write
                        &&& na.desc.clear == oa.desc.clear
                        &&& na.desc.width == oa.desc.width
                        &&& na.desc.height == oa.desc.height
                        &&& na.desc.mip_level == oa.desc.mip_level
                        &&& match oa.desc.source {
                            PassAttachmentSource::OtherPass(s) => borrowed_attachment(
                                na.desc,
                                passes,
                                s.pipeline_index,
                                s.attachment_index,
                            ),
                            PassAttachmentSource::ThisPass => na.desc.source is ThisPass,
                        }
                    }
                &&& c.dependencies@.len() == m
                &&& forall|q: int| j <= q < m ==> #[trigger] c.dependencies@[q] == o.dependencies@[q]
                &&& forall|q: int|
                    0 <= q < j ==> {
                        let od = o.dependencies@[q];
                        let nd = #[trigger] c.dependencies@[q];
                        &&& nd.sampler == od.sampler
                        &&& nd.desc.name == od.desc.name
                        &&& source_is(nd.desc.source, passes, od.desc.source.pipeline_index, od.desc.source.attachment_index)
                    }
            }),
        decreases m - j,
    {
        let pi = pipeline.passes[i].dependencies[j].desc.source.pipeline_index;
        let ai = pipeline.passes[i].dependencies[j].desc.source.attachment_index;
        assert(pipeline.passes@[i as int].dependencies@[j as int] == passes[i as int].dependencies@[j as int]);
        assert(pi < i);
        assert(pipeline.passes@[pi as int] == passes[pi as int]);
        let texture = pipeline.passes[pi].attachments[ai].texture.duplicate();
        pipeline.passes[i].dependencies[j].desc.source = OtherPassAttachmentSource {
            pipeline_index: pi,
            attachment_index: ai,
            device_texture: texture,
        };
        j += 1;
    }
}


/// `new` is pass `old` drawing with `program` in place of its old program: each dependency
/// sampler goes through unbinding the old program and binding the new one; nothing else
/// changes.
pub open spec fn program_replaced<F>(old: Pass<F>, new: Pass<F>, program: ShaderProgram) -> bool {
    &&& new.program == program
    &&& new.name == old.name
    &&& new.program_desc == old.program_desc
    &&& new.techniques == old.techniques
    &&& new.attachments == old.attachments
    &&& new.fbo == old.fbo
    &&& new.width == old.width
    &&& new.height == old.height
    &&& new.dependencies@.len() == old.dependencies@.len()
    &&& forall|j: int|
        0 <= j < old.dependencies@.len() ==> {
            let o = old.dependencies@[j];
            let n = #[trigger] new.dependencies@[j];
            &&& n.desc == o.desc
            &&& n.sampler.name == o.sampler.name
            &&& n.sampler.texture == o.sampler.texture
            &&& n.sampler.bindings@ == bound_bindings(
                bindings_of_program(o.sampler.bindings@, old.program.handle),
                program,
                o.sampler.name@,
            )
        }
}

fn replace_program<F>(pass: &mut Pass<F>, program: ShaderProgram)
    ensures
        program_replaced(*old(pass), *final(pass), program),
{
    let n = pass.dependencies.len();
    let old_handle = pass.program.handle;
    let mut j: usize = 0;
    while j < n
        invariant
            n == pass.dependencies@.len(),
            n == old(pass).dependencies@.len(),
            j <= n,
            old_handle == old(pass).program.handle,
            pass.program == old(pass).program,
            pass.name == old(pass).name,
            pass.program_desc == old(pass).program_desc,
            pass.techniques == old(pass).techniques,
            pass.attachments == old(pass).attachments,
            pass.fbo == old(pass).fbo,
            pass.width == old(pass).width,
            pass.height == old(pass).height,
            forall|q: int| j <= q < n ==> #[trigger] pass.dependencies@[q] == old(pass).dependencies@[q],
            forall|q: int|
                0 <= q < j ==> {
                    let o = old(pass).dependencies@[q];
                    let d = #[trigger] pass.dependencies@[q];
                    &&& d.desc == o.desc
                    &&& d.sampler.name == o.sampler.name
                    &&& d.sampler.texture == o.sampler.texture
                    &&& d.sampler.bindings@ == bindings_of_program(o.sampler.bindings@, old_handle)
                },
        decreases n - j,
    {
        pass.dependencies[j].sampler.unbind_shader_program(old_handle);
        j += 1;
    }
    pass.program = program;
    let mut j: usize = 0;
    while j < n
        invariant
            n == pass.dependencies@.len(),
            n == old(pass).dependencies@.len(),
            j <= n,
            old_handle == old(pass).program.handle,
            pass.program == program,
            pass.name == old(pass).name,
            pass.program_desc == old(pass).program_desc,
            pass.techniques == old(pass).techniques,
            pass.attachments == old(pass).attachments,
            pass.fbo == old(pass).fbo,
            pass.width == old(pass).width,
            pass.height == old(pass).height,
            forall|q: int|
                j <= q < n ==> {
                    let o = old(pass).dependencies@[q];
                    let d = #[trigger] pass.dependencies@[q];
                    &&& d.desc == o.desc
                    &&& d.sampler.name == o.sampler.name
                    &&& d.sampler.texture == o.sampler.texture
                    &&& d.sampler.bindings@ == bindings_of_program(o.sampler.bindings@, old_handle)
                },
            forall|q: int|
                0 <= q < j ==> {
                    let o = old(pass).dependencies@[q];
                    let d = #[trigger] pass.dependencies@[q];
                    &&& d.desc == o.desc
                    &&& d.sampler.name == o.sampler.name
                    &&& d.sampler.texture == o.sampler.texture
                    &&& d.sampler.bindings@ == bound_bindings(
                        bindings_of_program(o.sampler.bindings@, old_handle),
                        program,
                        o.sampler.name@,
                    )
                },
        decreases n - j,
    {
        pass.dependencies[j].sampler.bind_shader_program(&pass.program);
        j += 1;
    }
}

impl<F> Pipeline<F> {
    /// Unbinds the skybox model from the skybox pass and the full-screen model from the
    /// tone mapping pass, the first step of reloading the pipeline's programs.
    pub fn release_models(&mut self)
        requires
            old(self).passes@.len() >= 4,
        ensures
            final(self).passes == old(self).passes,
            model_unbound(old(self).skybox_model, final(self).skybox_model, old(self).passes@[2].program.handle),
            model_unbound(old(self).fullsceen_model, final(self).fullsceen_model, old(self).passes@[3].program.handle),
    {
        let skybox_handle = self.passes[2].program.handle;
        let fullscreen_handle = self.passes[3].program.handle;
        self.skybox_model.unbind_pass(skybox_handle);
        self.fullsceen_model.unbind_pass(fullscreen_handle);
    }

    /// Gives pass `k` the program `programs[k]`, for every pass, rebinding the dependency
    /// samplers, then binds the skybox and full-screen models to the new programs of the
    /// skybox and tone mapping passes: what reloading does once every new program is built.
    pub fn install_programs(&mut self, programs: Vec<ShaderProgram>)
        requires
            old(self).passes@.len() >= 4,
            programs@.len() == old(self).passes@.len(),
            model_free_of(old(self).skybox_model, programs@[2].handle),
            model_free_of(old(self).fullsceen_model, programs@[3].handle),
        ensures
            final(self).passes@.len() == old(self).passes@.len(),
            forall|k: int|
                0 <= k < old(self).passes@.len() ==> program_replaced(
                    old(self).passes@[k],
                    #[trigger] final(self).passes@[k],
                    programs@[k],
                ),
            model_bound(old(self).skybox_model, final(self).skybox_model, programs@[2]),
            model_bound(old(self).fullsceen_model, final(self).fullsceen_model, programs@[3]),
    {
        let ghost all = programs@;
        let mut programs = programs;
        let n = self.passes.len();
        let mut k: usize = n;
        while k > 0
            invariant
                n == self.passes@.len(),
                n == old(self).passes@.len(),
                k <= n,
                programs@ == all.take(k as int),
                all.len() == n,
                self.skybox_model == old(self).skybox_model,
                self.fullsceen_model == old(self).fullsceen_model,
                forall|q: int| 0 <= q < k ==> #[trigger] self.passes@[q] == old(self).passes@[q],
                forall|q: int|
                    k <= q < n ==> program_replaced(old(self).passes@[q], #[trigger] self.passes@[q], all[q]),
            decreases k,
        {
            k -= 1;
            let program = programs.pop().unwrap();
            assert(program == all[k as int]);
            assert(programs@ =~= all.take(k as int));
            replace_program(&mut self.passes[k], program);
        }
        self.skybox_model.bind_pass(&self.passes[2]);
        self.fullsceen_model.bind_pass(&self.passes[3]);
    }
}

impl<F> TechniqueContainer<F> {
    /// Binds every technique to the program of every pass of the pipeline, pass by pass.
    pub fn bind_pipeline(&mut self, pipeline: &Pipeline<F>)
        requires
            forall|k: int|
                0 <= k < pipeline.passes@.len() ==> crate::pass::container_free_of(
                    old(self).map@,
                    (#[trigger] pipeline.passes@[k]).program.handle,
                ),
            forall|a: int, b: int|
                0 <= a < b < pipeline.passes@.len() ==> (#[trigger] pipeline.passes@[a]).program.handle
                    != (#[trigger] pipeline.passes@[b]).program.handle,
        ensures
            container_bound_all(old(self).map@, final(self).map@, pipeline.passes@),
    {
        let n = pipeline.passes.len();
        let mut k: usize = 0;
        assert(pipeline.passes@.take(0) =~= Seq::<Pass<F>>::empty());
        while k < n
            invariant
                n == pipeline.passes@.len(),
                k <= n,
                forall|q: int|
                    k <= q < n ==> crate::pass::container_free_of(self.map@, (#[trigger] pipeline.passes@[q]).program.handle),
                forall|a: int, b: int|
                    0 <= a < b < pipeline.passes@.len() ==> (#[trigger] pipeline.passes@[a]).program.handle
                        != (#[trigger] pipeline.passes@[b]).program.handle,
                container_bound_all(old(self).map@, self.map@, pipeline.passes@.take(k as int)),
            decreases n - k,
        {
            let ghost before = self.map@;
            crate::pass::bind_techniques_to_render_pass(self, &pipeline.passes[k]);
            proof {
                assert forall|q: int| k + 1 <= q < n implies crate::pass::container_free_of(
                    self.map@,
                    (#[trigger] pipeline.passes@[q]).program.handle,
                ) by {
                    lemma_container_bound_keeps_free(before, self.map@, pipeline.passes@[k as int].program, pipeline.passes@[q].program.handle);
                }
                let t = pipeline.passes@.take(k + 1);
                assert(t.drop_last() =~= pipeline.passes@.take(k as int));
                assert(t.last() == pipeline.passes@[k as int]);
            }
            k += 1;
        }
        assert(pipeline.passes@.take(n as int) =~= pipeline.passes@);
    }

    /// Unbinds every technique from the program of every pass of the pipeline, pass by pass.
    pub fn unbind_pipeline(&mut self, pipeline: &Pipeline<F>)
        ensures
            container_unbound_all(old(self).map@, final(self).map@, pipeline.passes@),
    {
        let n = pipeline.passes.len();
        let mut k: usize = 0;
        assert(pipeline.passes@.take(0) =~= Seq::<Pass<F>>::empty());
        while k < n
            invariant
                n == pipeline.passes@.len(),
                k <= n,
                container_unbound_all(old(self).map@, self.map@, pipeline.passes@.take(k as int)),
            decreases n - k,
        {
            crate::pass::unbind_technique_from_render_pass(self, pipeline.passes[k].program.handle);
            proof {
                let t = pipeline.passes@.take(k + 1);
                assert(t.drop_last() =~= pipeline.passes@.take(k as int));
                assert(t.last() == pipeline.passes@[k as int]);
            }
            k += 1;
        }
        assert(pipeline.passes@.take(n as int) =~= pipeline.passes@);
    }
}

/// `new` is the container `old` bound to the programs of `passes`, one pass after another.
pub open spec fn container_bound_all<F>(
    old: Seq<(Techniques, Technique<F>)>,
    new: Seq<(Techniques, Technique<F>)>,
    passes: Seq<Pass<F>>,
) -> bool
    decreases passes.len(),
{
    if passes.len() == 0 {
        new == old
    } else {
        exists|mid: Seq<(Techniques, Technique<F>)>|
            container_bound_all(old, mid, passes.drop_last()) && #[trigger] crate::pass::container_bound(
                mid,
                new,
                passes.last().program,
            )
    }
}

/// `new` is the container `old` unbound from the programs of `passes`, one pass after
/// another.
pub open spec fn container_unbound_all<F>(
    old: Seq<(Techniques, Technique<F>)>,
    new: Seq<(Techniques, Technique<F>)>,
    passes: Seq<Pass<F>>,
) -> bool
    decreases passes.len(),
{
    if passes.len() == 0 {
        new == old
    } else {
        exists|mid: Seq<(Techniques, Technique<F>)>|
            container_unbound_all(old, mid, passes.drop_last()) && #[trigger] crate::pass::container_unbound(
                mid,
                new,
                passes.last().program.handle,
            )
    }
}


proof fn lemma_uniforms_bound_keep_free<T>(old: Seq<Uniform<T>>, new: Seq<Uniform<T>>, program: ShaderProgram, handle: u32)
    requires
        uniforms_free_of(old, handle),
        uniforms_bound(old, new, program),
        program.handle != handle,
    ensures
        uniforms_free_of(new, handle),
{
    assert forall|i: int| 0 <= i < new.len() implies locations_free_of(#[trigger] new[i].data_location.locations@, handle) by {
        assert(locations_free_of(old[i].data_location.locations@, handle));
    }
}

proof fn lemma_per_model_bound_keep_free<T>(
    old: Seq<PerModelUnifrom<T>>,
    new: Seq<PerModelUnifrom<T>>,
    program: ShaderProgram,
    handle: u32,
)
    requires
        per_model_uniforms_free_of(old, handle),
        per_model_uniforms_bound(old, new, program),
        program.handle != handle,
    ensures
        per_model_uniforms_free_of(new, handle),
{
    assert forall|i: int, k: int| 0 <= i < new.len() && 0 <= k < new[i].data_locations@.len() implies locations_free_of(
        #[trigger] new[i].data_locations@[k].locations@,
        handle,
    ) by {
        assert(locations_free_of(old[i].data_locations@[k].locations@, handle));
        assert(new[i].data_locations@[k].locations@ == bound_locations(
            old[i].data_locations@[k].locations@,
            program,
            old[i].name@,
        ));
    }
}

proof fn lemma_samplers_bound_keep_free(old: Seq<TextureSampler>, new: Seq<TextureSampler>, program: ShaderProgram, handle: u32)
    requires
        samplers_free_of(old, handle),
        samplers_bound(old, new, program),
        program.handle != handle,
    ensures
        samplers_free_of(new, handle),
{
    assert forall|i: int| 0 <= i < new.len() implies bindings_free_of(#[trigger] new[i].bindings@, handle) by {
        assert(bindings_free_of(old[i].bindings@, handle));
    }
}

proof fn lemma_technique_bound_keeps_free<F>(old: Technique<F>, new: Technique<F>, program: ShaderProgram, handle: u32)
    requires
        technique_free_of(old, handle),
        technique_bound(old, new, program),
        program.handle != handle,
    ensures
        technique_free_of(new, handle),
{
    lemma_uniforms_bound_keep_free(old.per_frame_uniforms.vec1f@, new.per_frame_uniforms.vec1f@, program, handle);
    lemma_uniforms_bound_keep_free(old.per_frame_uniforms.vec1u@, new.per_frame_uniforms.vec1u@, program, handle);
    lemma_uniforms_bound_keep_free(old.per_frame_uniforms.vec2f@, new.per_frame_uniforms.vec2f@, program, handle);
    lemma_uniforms_bound_keep_free(old.per_frame_uniforms.vec3f@, new.per_frame_uniforms.vec3f@, program, handle);
    lemma_uniforms_bound_keep_free(old.per_frame_uniforms.mat4x4f@, new.per_frame_uniforms.mat4x4f@, program, handle);
    lemma_per_model_bound_keep_free(old.per_model_uniforms.vec1f@, new.per_model_uniforms.vec1f@, program, handle);
    lemma_per_model_bound_keep_free(old.per_model_uniforms.vec1u@, new.per_model_uniforms.vec1u@, program, handle);
    lemma_per_model_bound_keep_free(old.per_model_uniforms.vec2f@, new.per_model_uniforms.vec2f@, program, handle);
    lemma_per_model_bound_keep_free(old.per_model_uniforms.vec3f@, new.per_model_uniforms.vec3f@, program, handle);
    lemma_per_model_bound_keep_free(old.per_model_uniforms.mat4x4f@, new.per_model_uniforms.mat4x4f@, program, handle);
    lemma_samplers_bound_keep_free(old.textures@, new.textures@, program, handle);
}

proof fn lemma_container_bound_keeps_free<F>(
    old: Seq<(Techniques, Technique<F>)>,
    new: Seq<(Techniques, Technique<F>)>,
    program: ShaderProgram,
    handle: u32,
)
    requires
        crate::pass::container_free_of(old, handle),
        crate::pass::container_bound(old, new, program),
        program.handle != handle,
    ensures
        crate::pass::container_free_of(new, handle),
{
    assert forall|i: int| 0 <= i < new.len() implies technique_free_of(#[trigger] new[i].1, handle) by {
        assert(technique_free_of(old[i].1, handle));
        assert(technique_bound(old[i].1, new[i].1, program));
        lemma_technique_bound_keeps_free(old[i].1, new[i].1, program, handle);
    }
}

/// Binding a technique container to the programs of the passes of a pipeline, none of which
/// it is bound to yet, and then unbinding the pipeline gives back the container it was: the
/// same kinds in the same order, each technique with the same names, data, locations and
/// bindings. This holds whether or not two passes share a program.
pub proof fn lemma_pipeline_unbind_undoes_bind<F>(
    old: Seq<(Techniques, Technique<F>)>,
    bound: Seq<(Techniques, Technique<F>)>,
    unbound: Seq<(Techniques, Technique<F>)>,
    passes: Seq<Pass<F>>,
)
    requires
        forall|k: int| 0 <= k < passes.len() ==> crate::pass::container_free_of(old, (#[trigger] passes[k]).program.handle),
        container_bound_all(old, bound, passes),
        container_unbound_all(bound, unbound, passes),
    ensures
        container_restored(old, unbound),
{
    let handles = Set::new(|h: u32| exists|k: int| 0 <= k < passes.len() && passes[k].program.handle == h);
    assert forall|k: int| 0 <= k < passes.len() implies handles.contains((#[trigger] passes[k]).program.handle) by {
        assert(passes[k].program.handle == passes[k].program.handle);
    }
    lemma_bound_all_agrees(old, bound, passes, handles);
    lemma_unbound_all_agrees(bound, unbound, passes, handles);
    lemma_container_agrees_trans(old, bound, unbound, handles);
    assert forall|h: u32| #[trigger] handles.contains(h) implies crate::pass::container_free_of(old, h)
        && crate::pass::container_free_of(unbound, h) by {
        let k = choose|k: int| 0 <= k < passes.len() && passes[k].program.handle == h;
        assert(crate::pass::container_free_of(old, passes[k].program.handle));
        assert(crate::pass::container_free_of(unbound, passes[k].program.handle));
    }
    lemma_container_agrees_restored(old, unbound, handles);
}

/// A pipeline is valid exactly when each of its passes is. When it is not, its error is the
/// error of the first invalid pass: that pass is invalid with that error and every pass
/// before it is valid.
pub proof fn lemma_pipeline_valid_iff_passes_valid<F>(
    passes: Seq<Pass<F>>,
    entries: Seq<(Techniques, Technique<F>)>,
    model: DeviceModel<F>,
)
    ensures
        pipeline_check(passes, entries, model).1 is None <==> forall|i: int|
            0 <= i < passes.len() ==> (#[trigger] render_pass_check(passes[i], entries, model)).1 is None,
        pipeline_check(passes, entries, model).1 is Some ==> exists|i: int|
            0 <= i < passes.len() && #[trigger] render_pass_check(passes[i], entries, model).1 == pipeline_check(
                passes,
                entries,
                model,
            ).1 && forall|j: int| 0 <= j < i ==> (#[trigger] render_pass_check(passes[j], entries, model)).1 is None,
    decreases passes.len(),
{
    if passes.len() > 0 {
        let rest = passes.drop_first();
        lemma_pipeline_valid_iff_passes_valid(rest, entries, model);
        assert forall|i: int| 0 <= i < rest.len() implies rest[i] == passes[i + 1] by {}
        let first = render_pass_check(passes[0], entries, model);
        if first.1 is None {
            if pipeline_check(passes, entries, model).1 is None {
                assert forall|i: int| 0 <= i < passes.len() implies (#[trigger] render_pass_check(
                    passes[i],
                    entries,
                    model,
                )).1 is None by {
                    if i > 0 {
                        assert(render_pass_check(rest[i - 1], entries, model).1 is None);
                    }
                }
            } else {
                let k = choose|k: int|
                    0 <= k < rest.len() && #[trigger] render_pass_check(rest[k], entries, model).1 == pipeline_check(
                        rest,
                        entries,
                        model,
                    ).1 && forall|j: int| 0 <= j < k ==> (#[trigger] render_pass_check(rest[j], entries, model)).1 is None;
                assert(render_pass_check(passes[k + 1], entries, model).1 == pipeline_check(passes, entries, model).1);
                assert forall|j: int| 0 <= j < k + 1 implies (#[trigger] render_pass_check(passes[j], entries, model)).1 is None by {
                    if j > 0 {
                        assert(render_pass_check(rest[j - 1], entries, model).1 is None);
                    }
                }
                assert(render_pass_check(rest[k], entries, model).1 is Some);
            }
        } else {
            assert(render_pass_check(passes[0], entries, model).1 == pipeline_check(passes, entries, model).1);
        }
    }
}

/// Each pass of a pipeline reads only passes before it, at attachments those passes have:
/// the condition under which its sources can be refreshed, as resizing does.
pub proof fn lemma_pipeline_sources_precede<F>(passes: Seq<Pass<F>>)
    requires
        is_pipeline_passes(passes),
    ensures
        forall|i: int| 0 <= i < passes.len() ==> #[trigger] sources_precede(passes, i),
{
    let (w, h, cc, cd) = choose|w: u32, h: u32, cc: Vec4<F>, cd: F| #[trigger] pipeline_passes_of(passes, w, h, cc, cd);
    assert forall|i: int| 0 <= i < passes.len() implies #[trigger] sources_precede(passes, i) by {
        let before = passes.take(i);
        assert(stage_built(i, passes[i], w, h, cc, cd, before));
        let d = choose|d: PassDescriptor<F>|
            #[trigger] stage_descriptor(i, d, w, h, cc, cd, before) && built_from(passes[i], d);
        let pass = passes[i];
        assert forall|k: int| 0 <= k < i implies #[trigger] before[k] == passes[k] by {}
        assert forall|j: int| 0 <= j < pass.attachments@.len() implies match (#[trigger] pass.attachments@[j]).desc.source {
            PassAttachmentSource::OtherPass(s) => s.pipeline_index < i && s.attachment_index
                < passes[s.pipeline_index as int].attachments@.len(),
            PassAttachmentSource::ThisPass => true,
        } by {
            assert(pass.attachments@[j].desc == d.attachments@[j]);
            if i >= 1 {
                assert(before[0] == passes[0]);
            }
            if i >= 2 {
                assert(before[1] == passes[1]);
            }
        }
        assert forall|j: int| 0 <= j < pass.dependencies@.len() implies {
            let s = (#[trigger] pass.dependencies@[j]).desc.source;
            s.pipeline_index < i && s.attachment_index < passes[s.pipeline_index as int].attachments@.len()
        } by {
            assert(pass.dependencies@[j].desc == d.dependencies@[j]);
            if i >= 1 {
                assert(before[0] == passes[0]);
            }
            if i >= 3 {
                assert(before[2] == passes[2]);
            }
        }
    }
}

/// Every source of pass `i` of `passes` (each attachment borrowed from another pass, and
/// each dependency) names an earlier pass and one of its attachments, and holds that
/// attachment's texture.
pub open spec fn sources_current<F>(passes: Seq<Pass<F>>, i: int) -> bool {
    let pass = passes[i];
    &&& forall|j: int|
        0 <= j < pass.attachments@.len() ==> match (#[trigger] pass.attachments@[j]).desc.source {
            PassAttachmentSource::OtherPass(s) => source_current(s, passes, i),
            PassAttachmentSource::ThisPass => true,
        }
    &&& forall|j: int| 0 <= j < pass.dependencies@.len() ==> source_current((#[trigger] pass.dependencies@[j]).desc.source, passes, i)
}

/// `s` names a pass before pass `i` of `passes` and one of its attachments, and holds that
/// attachment's texture.
pub open spec fn source_current<F>(s: OtherPassAttachmentSource, passes: Seq<Pass<F>>, i: int) -> bool {
    &&& s.pipeline_index < i
    &&& s.attachment_index < passes[s.pipeline_index as int].attachments@.len()
    &&& same_texture(s.device_texture, passes[s.pipeline_index as int].attachments@[s.attachment_index as int].texture)
}

/// `new` reads what pass `old` reads: its attachments borrow the same attachments of the
/// same passes, on the same textures, and its dependencies are the same.
pub open spec fn sources_kept<F>(old: Pass<F>, new: Pass<F>) -> bool {
    &&& new.attachments@.len() == old.attachments@.len()
    &&& forall|j: int|
        0 <= j < old.attachments@.len() ==> match old.attachments@[j].desc.source {
            PassAttachmentSource::ThisPass => (#[trigger] new.attachments@[j]).desc.source is ThisPass,
            PassAttachmentSource::OtherPass(s) => match (#[trigger] new.attachments@[j]).desc.source {
                PassAttachmentSource::OtherPass(t) => t.pipeline_index == s.pipeline_index && t.attachment_index
                    == s.attachment_index && same_texture(t.device_texture, s.device_texture),
                PassAttachmentSource::ThisPass => false,
            },
        }
    &&& new.dependencies == old.dependencies
}

/// Resizing a pass keeps what it reads.
pub proof fn lemma_resize_keeps_sources<F>(
    old: Pass<F>,
    new: Pass<F>,
    width: u32,
    height: u32,
    textures: Seq<DeviceTexture>,
    fbo: u32,
)
    requires
        pass_resized(old, new, width, height, textures, fbo),
    ensures
        sources_kept(old, new),
{
    assert forall|j: int| 0 <= j < old.attachments@.len() implies match old.attachments@[j].desc.source {
        PassAttachmentSource::ThisPass => (#[trigger] new.attachments@[j]).desc.source is ThisPass,
        PassAttachmentSource::OtherPass(s) => match (#[trigger] new.attachments@[j]).desc.source {
            PassAttachmentSource::OtherPass(t) => t.pipeline_index == s.pipeline_index && t.attachment_index
                == s.attachment_index && same_texture(t.device_texture, s.device_texture),
            PassAttachmentSource::ThisPass => false,
        },
    } by {
        assert(descriptor_resized(old.attachments@[j].desc, new.attachments@[j].desc, old.width, old.height, width, height));
    }
}

/// A pass left as it is keeps what it reads.
pub proof fn lemma_unchanged_keeps_sources<F>(pass: Pass<F>)
    ensures
        sources_kept(pass, pass),
{
}

/// One step of resizing a pipeline at pass `i`: the sources of pass `i` of `before` are
/// refreshed (`refresh_pass_sources`), giving `refreshed`, and then pass `i` is resized
/// (`Pass::resize_with`) or left as it is, giving `after`; no other pass changes.
pub open spec fn resize_step<F>(before: Seq<Pass<F>>, refreshed: Seq<Pass<F>>, after: Seq<Pass<F>>, i: int) -> bool {
    &&& 0 <= i < before.len()
    &&& sources_precede(before, i)
    &&& refreshed.len() == before.len()
    &&& after.len() == before.len()
    &&& forall|k: int| 0 <= k < before.len() && k != i ==> #[trigger] refreshed[k] == before[k]
    &&& forall|k: int| 0 <= k < before.len() && k != i ==> #[trigger] after[k] == refreshed[k]
    &&& sources_refreshed(before[i], refreshed[i], before)
    &&& sources_kept(refreshed[i], after[i])
}

proof fn lemma_sources_current_frame<F>(old: Seq<Pass<F>>, new: Seq<Pass<F>>, i: int, k: int)
    requires
        0 <= i < k < old.len(),
        new.len() == old.len(),
        sources_current(old, i),
        forall|q: int| 0 <= q < old.len() && q != k ==> #[trigger] new[q] == old[q],
    ensures
        sources_current(new, i),
{
    assert(new[i] == old[i]);
    let pass = old[i];
    assert forall|j: int| 0 <= j < pass.attachments@.len() implies match (#[trigger] pass.attachments@[j]).desc.source {
        PassAttachmentSource::OtherPass(s) => source_current(s, new, i),
        PassAttachmentSource::ThisPass => true,
    } by {
        match pass.attachments@[j].desc.source {
            PassAttachmentSource::OtherPass(s) => {
                assert(source_current(s, old, i));
                assert(new[s.pipeline_index as int] == old[s.pipeline_index as int]);
            },
            PassAttachmentSource::ThisPass => {},
        }
    }
    assert forall|j: int| 0 <= j < pass.dependencies@.len() implies source_current(
        (#[trigger] pass.dependencies@[j]).desc.source,
        new,
        i,
    ) by {
        let s = pass.dependencies@[j].desc.source;
        assert(source_current(s, old, i));
        assert(new[s.pipeline_index as int] == old[s.pipeline_index as int]);
    }
}

proof fn lemma_resize_step_current<F>(before: Seq<Pass<F>>, refreshed: Seq<Pass<F>>, after: Seq<Pass<F>>, i: int)
    requires
        resize_step(before, refreshed, after, i),
    ensures
        sources_current(after, i),
{
    let o = before[i];
    let r = refreshed[i];
    let a = after[i];
    assert forall|j: int| 0 <= j < a.attachments@.len() implies match (#[trigger] a.attachments@[j]).desc.source {
        PassAttachmentSource::OtherPass(s) => source_current(s, after, i),
        PassAttachmentSource::ThisPass => true,
    } by {
        let rj = r.attachments@[j];
        let oj = o.attachments@[j];
        match oj.desc.source {
            PassAttachmentSource::OtherPass(s0) => {
                assert(s0.pipeline_index < i && s0.attachment_index < before[s0.pipeline_index as int].attachments@.len());
                assert(borrowed_attachment(rj.desc, before, s0.pipeline_index, s0.attachment_index));
                assert(after[s0.pipeline_index as int] == before[s0.pipeline_index as int]);
            },
            PassAttachmentSource::ThisPass => {},
        }
    }
    assert forall|j: int| 0 <= j < a.dependencies@.len() implies source_current(
        (#[trigger] a.dependencies@[j]).desc.source,
        after,
        i,
    ) by {
        let s0 = o.dependencies@[j].desc.source;
        assert(s0.pipeline_index < i && s0.attachment_index < before[s0.pipeline_index as int].attachments@.len());
        assert(r.dependencies@[j] == a.dependencies@[j]);
        assert(after[s0.pipeline_index as int] == before[s0.pipeline_index as int]);
    }
}

proof fn lemma_resize_prefix<F>(states: Seq<Seq<Pass<F>>>, refreshed: Seq<Seq<Pass<F>>>, k: int)
    requires
        states.len() == refreshed.len() + 1,
        refreshed.len() == states[0].len(),
        forall|i: int| 0 <= i < refreshed.len() ==> #[trigger] resize_step(states[i], refreshed[i], states[i + 1], i),
        0 <= k <= refreshed.len(),
    ensures
        states[k].len() == refreshed.len(),
        forall|i: int| 0 <= i < k ==> #[trigger] sources_current(states[k], i),
    decreases k,
{
    if k > 0 {
        lemma_resize_prefix(states, refreshed, k - 1);
        let p = k - 1;
        assert(resize_step(states[p], refreshed[p], states[p + 1], p));
        assert(p + 1 == k);
        assert forall|i: int| 0 <= i < k implies #[trigger] sources_current(states[k], i) by {
            if i < k - 1 {
                assert(sources_current(states[k - 1], i));
                assert forall|q: int| 0 <= q < states[k - 1].len() && q != k - 1 implies #[trigger] states[k][q]
                    == states[k - 1][q] by {
                    assert(refreshed[k - 1][q] == states[k - 1][q]);
                }
                lemma_sources_current_frame(states[k - 1], states[k], i, k - 1);
            } else {
                lemma_resize_step_current(states[k - 1], refreshed[k - 1], states[k], k - 1);
            }
        }
    }
}

/// Resizing a pipeline, pass after pass: the sources of each pass are refreshed from the
/// passes as they are then, and the pass is then resized or left as it is. Afterwards the
/// sources of every pass name earlier passes and hold the textures those passes have now.
pub proof fn lemma_resize_loop_sources_current<F>(states: Seq<Seq<Pass<F>>>, refreshed: Seq<Seq<Pass<F>>>)
    requires
        states.len() == refreshed.len() + 1,
        refreshed.len() == states[0].len(),
        forall|i: int| 0 <= i < refreshed.len() ==> #[trigger] resize_step(states[i], refreshed[i], states[i + 1], i),
    ensures
        forall|i: int| 0 <= i < refreshed.len() ==> #[trigger] sources_current(states[refreshed.len() as int], i),
{
    lemma_resize_prefix(states, refreshed, refreshed.len() as int);
}

proof fn lemma_properties_unbound_keep_free<T>(
    old: Seq<Property<Uniform<T>>>,
    new: Seq<Property<Uniform<T>>>,
    handle: u32,
    other: u32,
)
    requires
        properties_unbound(old, new, handle),
    ensures
        properties_free_of(new, handle),
        properties_free_of(old, other) ==> properties_free_of(new, other),
{
    assert forall|i: int| 0 <= i < new.len() implies locations_free_of(
        #[trigger] new[i].value.data_location.locations@,
        handle,
    ) && (properties_free_of(old, other) ==> locations_free_of(new[i].value.data_location.locations@, other)) by {
        lemma_locations_unbound_free(old[i].value.data_location.locations@, handle, other);
    }
}

/// Unbinding a model from a program leaves it free of that program, and of every program
/// it was free of.
proof fn lemma_model_unbound_free<F>(old: DeviceModel<F>, new: DeviceModel<F>, handle: u32, other: u32)
    requires
        model_unbound(old, new, handle),
    ensures
        model_free_of(new, handle),
        model_free_of(old, other) ==> model_free_of(new, other),
{
    assert forall|i: int| 0 <= i < new.materials@.len() implies material_free_of(#[trigger] new.materials@[i], handle)
        && (model_free_of(old, other) ==> material_free_of(new.materials@[i], other)) by {
        let o = old.materials@[i];
        let n = new.materials@[i];
        assert(material_unbound(o, n, handle));
        lemma_properties_unbound_keep_free(o.properties_1u@, n.properties_1u@, handle, other);
        lemma_properties_unbound_keep_free(o.properties_1f@, n.properties_1f@, handle, other);
        lemma_properties_unbound_keep_free(o.properties_3f@, n.properties_3f@, handle, other);
        if model_free_of(old, other) {
            assert(material_free_of(o, other));
        }
    }
}

/// No two passes of `passes` share a program.
pub open spec fn programs_distinct<F>(passes: Seq<Pass<F>>) -> bool {
    forall|a: int, b: int|
        0 <= a < b < passes.len() ==> (#[trigger] passes[a]).program.handle != (#[trigger] passes[b]).program.handle
}

/// The new programs of a reload can be installed: one per pass, on distinct handles, that
/// neither the techniques, nor the model, nor the pipeline's own models are bound to.
pub open spec fn reload_programs_ok<F>(
    pipeline: Pipeline<F>,
    entries: Seq<(Techniques, Technique<F>)>,
    model: DeviceModel<F>,
    programs: Seq<ShaderProgram>,
) -> bool {
    &&& programs.len() == pipeline.passes@.len()
    &&& forall|a: int, b: int| 0 <= a < b < programs.len() ==> (#[trigger] programs[a]).handle != (#[trigger] programs[b]).handle
    &&& forall|k: int| 0 <= k < programs.len() ==> crate::pass::container_free_of(entries, (#[trigger] programs[k]).handle)
    &&& model_free_of(model, programs[0].handle)
    &&& model_free_of(model, programs[1].handle)
    &&& model_free_of(pipeline.skybox_model, programs[2].handle)
    &&& model_free_of(pipeline.fullsceen_model, programs[3].handle)
}

impl<F> Pipeline<F> {
    /// Reloads the pipeline's programs. The techniques and `model` are unbound from the
    /// pipeline and its sky box and full-screen models released. When every new program was
    /// built (`programs` is `Some`, one per pass) the passes take them and the two models are
    /// bound to the new sky box and tone mapping programs; when one failed (`None`) the passes
    /// keep their programs and the two models stay released. Either way the techniques and
    /// `model` are then bound to the pipeline's programs again.
    pub fn reload(
        &mut self,
        techniques: &mut TechniqueContainer<F>,
        model: &mut DeviceModel<F>,
        programs: Option<Vec<ShaderProgram>>,
    )
        requires
            old(self).passes@.len() == 4,
            programs_distinct(old(self).passes@),
            match programs {
                Some(p) => reload_programs_ok(*old(self), old(techniques).map@, *old(model), p@),
                None => true,
            },
        ensures
            match programs {
                Some(p) => {
                    &&& final(self).passes@.len() == 4
                    &&& forall|k: int| 0 <= k < 4 ==> program_replaced(old(self).passes@[k], #[trigger] final(self).passes@[k], p@[k])
                    &&& exists|mid: DeviceModel<F>|
                        model_unbound(old(self).skybox_model, mid, old(self).passes@[2].program.handle) && #[trigger] model_bound(
                            mid,
                            final(self).skybox_model,
                            p@[2],
                        )
                    &&& exists|mid: DeviceModel<F>|
                        model_unbound(old(self).fullsceen_model, mid, old(self).passes@[3].program.handle) && #[trigger] model_bound(
                            mid,
                            final(self).fullsceen_model,
                            p@[3],
                        )
                },
                None => {
                    &&& final(self).passes == old(self).passes
                    &&& model_unbound(old(self).skybox_model, final(self).skybox_model, old(self).passes@[2].program.handle)
                    &&& model_unbound(old(self).fullsceen_model, final(self).fullsceen_model, old(self).passes@[3].program.handle)
                },
            },
            exists|mid: Seq<(Techniques, Technique<F>)>|
                container_unbound_all(old(techniques).map@, mid, old(self).passes@) && #[trigger] container_bound_all(
                    mid,
                    final(techniques).map@,
                    final(self).passes@,
                ),
            exists|mid: DeviceModel<F>|
                model_unbound_twice(
                    *old(model),
                    mid,
                    old(self).passes@[0].program.handle,
                    old(self).passes@[1].program.handle,
                ) && #[trigger] model_bound_twice(
                    mid,
                    *final(model),
                    final(self).passes@[0].program,
                    final(self).passes@[1].program,
                ),
    {
        let ghost old_passes = self.passes@;
        let ghost t0 = techniques.map@;
        let ghost m0 = *model;
        let ghost given = programs;
        techniques.unbind_pipeline(self);
        let ghost t1 = techniques.map@;
        self.unbind_model(model);
        let ghost m1 = *model;
        proof {
            let handles = Set::new(|h: u32| exists|k: int| 0 <= k < old_passes.len() && old_passes[k].program.handle == h);
            assert forall|k: int| 0 <= k < old_passes.len() implies handles.contains((#[trigger] old_passes[k]).program.handle) by {
                assert(old_passes[k].program.handle == old_passes[k].program.handle);
            }
            lemma_unbound_all_agrees(t0, t1, old_passes, handles);
            let mm = choose|mm: DeviceModel<F>|
                model_unbound(m0, mm, old_passes[0].program.handle) && #[trigger] model_unbound(mm, m1, old_passes[1].program.handle);
            lemma_model_unbound_free(m0, mm, old_passes[0].program.handle, old_passes[1].program.handle);
            lemma_model_unbound_free(mm, m1, old_passes[1].program.handle, old_passes[0].program.handle);
            match given {
                Some(p) => {
                    assert forall|k: int| 0 <= k < p@.len() implies crate::pass::container_free_of(t1, (#[trigger] p@[k]).handle) by {
                        lemma_unbound_all_keeps_free(t0, t1, old_passes, p@[k].handle);
                    }
                    lemma_model_unbound_free(m0, mm, old_passes[0].program.handle, p@[0].handle);
                    lemma_model_unbound_free(mm, m1, old_passes[1].program.handle, p@[0].handle);
                    lemma_model_unbound_free(m0, mm, old_passes[0].program.handle, p@[1].handle);
                    lemma_model_unbound_free(mm, m1, old_passes[1].program.handle, p@[1].handle);
                },
                None => {},
            }
        }
        let ghost s0 = self.skybox_model;
        let ghost f0 = self.fullsceen_model;
        self.release_models();
        match programs {
            Some(p) => {
                proof {
                    lemma_model_unbound_free(s0, self.skybox_model, old_passes[2].program.handle, p@[2].handle);
                    lemma_model_unbound_free(f0, self.fullsceen_model, old_passes[3].program.handle, p@[3].handle);
                }
                let ghost s1 = self.skybox_model;
                let ghost f1 = self.fullsceen_model;
                let ghost pp = p@;
                self.install_programs(p);
                proof {
                    assert(model_bound(s1, self.skybox_model, pp[2]));
                    assert(model_bound(f1, self.fullsceen_model, pp[3]));
                    assert forall|k: int| 0 <= k < 4 implies (#[trigger] self.passes@[k]).program == pp[k] by {
                        assert(program_replaced(old_passes[k], self.passes@[k], pp[k]));
                    }
                }
            },
            None => {},
        }
        techniques.bind_pipeline(self);
        self.bind_model(model);
    }
}

} // verus!
