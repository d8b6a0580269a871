use std::rc::Rc;

use simple_renderer::material::{DeviceMaterial, Property};
use simple_renderer::math::{Mat4x4, Vec1, Vec4};
use simple_renderer::model::DeviceModel;
use simple_renderer::pass::{
    OtherPassAttachmentSource, Pass, PassAttachment, PassAttachmentDescriptor, PassAttachmentSource,
    PassAttachmentType, PassDependency, PassDependencyDescriptor, PassDescriptor,
};
use simple_renderer::pipeline::{
    is_render_pipeline_valid, pipeline_pass_descriptor, refresh_pass_sources, stage_ready, Pipeline, GL_EQUAL, GL_LESS,
};
use simple_renderer::shader::{HostShaderProgramDescriptor, ShaderProgram, ShaderProgramScalarUniform, ShaderProgramTexture2d};
use simple_renderer::tech::{Technique, TechniqueContainer, Techniques};
use simple_renderer::tex::{DeviceTexture, GL_TEXTURE_2D};
use simple_renderer::uniform::{TextureSampler, Uniform, UniformProgramLocation};

fn texture(handle: u32) -> DeviceTexture {
    DeviceTexture { name: format!("t{}", handle), handle, target: GL_TEXTURE_2D }
}

fn program(handle: u32, uniforms: &[&str], samplers: &[&str]) -> ShaderProgram {
    ShaderProgram {
        name: format!("program {}", handle),
        handle,
        vert_shader_handle: 0,
        frag_shader_handle: 0,
        attributes: Vec::new(),
        scalar_uniforms: uniforms
            .iter()
            .enumerate()
            .map(|(i, n)| ShaderProgramScalarUniform { location: i as u32, name: n.to_string() })
            .collect(),
        array_uniforms: Vec::new(),
        sampler_2d: samplers
            .iter()
            .enumerate()
            .map(|(i, n)| ShaderProgramTexture2d { binding: i as u32, name: n.to_string() })
            .collect(),
        outputs: Vec::new(),
    }
}

/// A pass made as the application makes one from a descriptor: attachments of its own get
/// the texture `handle_base + index`, borrowed ones the texture of their source.
fn pass_from(desc: &PassDescriptor<f32>, handle: u32, handle_base: u32, uniforms: &[&str], samplers: &[&str]) -> Pass<f32> {
    let prog = program(handle, uniforms, samplers);
    let textures: Vec<DeviceTexture> = desc
        .attachments
        .iter()
        .enumerate()
        .map(|(i, d)| match &d.source {
            PassAttachmentSource::ThisPass => texture(handle_base + i as u32),
            PassAttachmentSource::OtherPass(s) => s.device_texture.duplicate(),
        })
        .collect();
    Pass::from_descriptor(desc.clone(), prog, textures, handle)
}

fn build_passes(width: u32, height: u32) -> Vec<Pass<f32>> {
    let clear = Vec4 { x: 0.0, y: 0.0, z: 0.0, w: 0.0 };
    let mut passes: Vec<Pass<f32>> = Vec::new();
    for stage in 0..4usize {
        let desc = pipeline_pass_descriptor(stage, width, height, clear, 1.0, &passes);
        let p = pass_from(&desc, 100 + stage as u32, 10 * (stage as u32 + 1), &["uMVP"], &[]);
        passes.push(p);
    }
    passes
}

fn material() -> DeviceMaterial<f32> {
    let mut m = DeviceMaterial::empty();
    m.properties_1f.push(Property { name: "r".to_string(), value: Uniform::new("uMVP", vec![Vec1 { x: 0.5 }]) });
    m
}

fn model() -> DeviceModel<f32> {
    DeviceModel { meshes: Vec::new(), materials: vec![material()] }
}

#[test]
fn descriptors_of_the_four_stages() {
    let passes = build_passes(640, 480);
    let names: Vec<&str> = passes.iter().map(|p| p.name.as_str()).collect();
    assert_eq!(names, vec!["Depth Pre-Pass", "Lighting Pass", "Skybox Pass", "Tone Mapping Pass"]);
    assert_eq!(passes[0].program_desc.vert_shader_file_path, "shaders/depth_pre_pass.vert");
    assert_eq!(passes[3].program_desc.vert_shader_file_path, "shaders/pass_through.vert");
    assert_eq!(passes[1].techniques, vec![Techniques::MVP, Techniques::Lighting]);
    match passes[1].attachments[0].desc.flavor {
        PassAttachmentType::Depth(d, f) => assert_eq!((d, f), (1.0, GL_EQUAL)),
        _ => panic!("expected a depth attachment"),
    }
    match passes[0].attachments[0].desc.flavor {
        PassAttachmentType::Depth(_, f) => assert_eq!(f, GL_LESS),
        _ => panic!("expected a depth attachment"),
    }
    // The lighting pass draws depth into the depth pre-pass's texture and samples it.
    assert_eq!(passes[1].attachments[0].texture.handle, passes[0].attachments[0].texture.handle);
    assert_eq!(passes[1].dependencies[0].desc.name, "uDepthMapSampler2D");
    assert_eq!(passes[1].dependencies[0].desc.source.device_texture.handle, 10);
    // The skybox pass draws into the lighting pass's color texture.
    match &passes[2].attachments[1].desc.source {
        PassAttachmentSource::OtherPass(s) => assert_eq!((s.pipeline_index, s.attachment_index, s.device_texture.handle), (1, 1, 21)),
        _ => panic!("expected a borrowed attachment"),
    }
    assert_eq!(passes[3].dependencies[0].desc.name, "uColorSampler2D");
    assert_eq!(passes[3].dependencies[0].desc.source.device_texture.handle, 21);
    assert!(passes.iter().all(|p| (p.width, p.height) == (640, 480)));
}

#[test]
fn new_pipeline_binds_its_models() {
    let passes = build_passes(8, 8);
    let pipeline = Pipeline::new(passes, model(), model());
    let sky = &pipeline.skybox_model.materials[0].properties_1f[0].value.data_location.locations;
    assert_eq!(sky.len(), 1);
    assert_eq!(sky[0].program, 102);
    assert_eq!(pipeline.fullsceen_model.materials[0].properties_1f[0].value.data_location.locations[0].program, 103);
}

#[test]
fn binding_a_model_to_the_pipeline_and_back() {
    let pipeline = Pipeline::new(build_passes(8, 8), model(), model());
    let mut m = model();
    pipeline.bind_model(&mut m);
    let programs: Vec<u32> = m.materials[0].properties_1f[0].value.data_location.locations.iter().map(|l| l.program).collect();
    assert_eq!(programs, vec![100, 101]);
    pipeline.unbind_model(&mut m);
    assert!(m.materials[0].properties_1f[0].value.data_location.locations.is_empty());
}

#[test]
fn binding_techniques_to_the_pipeline_and_back() {
    let pipeline = Pipeline::new(build_passes(8, 8), model(), model());
    let mut c: TechniqueContainer<f32> = TechniqueContainer::new();
    let mut t = Technique::new("mvp");
    t.per_frame_uniforms.mat4x4f.push(Uniform::new("uMVP", vec![Mat4x4::identity()]));
    c.insert(Techniques::MVP, t);
    c.bind_pipeline(&pipeline);
    assert_eq!(c.get(Techniques::MVP).unwrap().per_frame_uniforms.mat4x4f[0].data_location.locations.len(), 4);
    c.unbind_pipeline(&pipeline);
    assert!(c.get(Techniques::MVP).unwrap().per_frame_uniforms.mat4x4f[0].data_location.locations.is_empty());
}

#[test]
fn unbinding_the_pipeline_keeps_other_programs() {
    let pipeline = Pipeline::new(build_passes(8, 8), model(), model());
    let mut c: TechniqueContainer<f32> = TechniqueContainer::new();
    let mut t = Technique::new("mvp");
    let mut u = Uniform::new("uMVP", vec![Mat4x4::identity()]);
    u.data_location.locations.push(UniformProgramLocation { location: 7, program: 999 });
    t.per_frame_uniforms.mat4x4f.push(u);
    c.insert(Techniques::MVP, t);
    c.bind_pipeline(&pipeline);
    assert_eq!(c.get(Techniques::MVP).unwrap().per_frame_uniforms.mat4x4f[0].data_location.locations.len(), 5);
    c.unbind_pipeline(&pipeline);
    let locations = &c.get(Techniques::MVP).unwrap().per_frame_uniforms.mat4x4f[0].data_location.locations;
    assert_eq!(locations.len(), 1);
    assert_eq!(locations[0].location, 7);
    assert_eq!(locations[0].program, 999);
    assert_eq!(c.get(Techniques::MVP).unwrap().name, "mvp");
}

#[test]
fn pipeline_validation_stops_at_the_first_error() {
    let pipeline = Pipeline::new(build_passes(8, 8), model(), model());
    let mut c: TechniqueContainer<f32> = TechniqueContainer::new();
    for k in [Techniques::MVP, Techniques::Lighting, Techniques::Skybox, Techniques::ToneMapping] {
        c.insert(k, Technique::new("empty"));
    }
    let mut diagnostics = Vec::new();
    assert_eq!(is_render_pipeline_valid(&pipeline, &c, &model(), &mut diagnostics), Ok(()));
    assert_eq!(diagnostics.len(), 4);
    assert_eq!(diagnostics[0], "Render pass 'Depth Pre-Pass' is invalid! Uniform 'uMVP' not provided by tehcniques.");
}

#[test]
fn refreshing_sources_after_a_resize() {
    let mut pipeline = Pipeline::new(build_passes(8, 8), model(), model());
    pipeline.passes[0].attachments[0].texture = texture(500);
    pipeline.passes[1].attachments[1].texture = texture(501);
    refresh_pass_sources(&mut pipeline, 1);
    match &pipeline.passes[1].attachments[0].desc.source {
        PassAttachmentSource::OtherPass(s) => assert_eq!(s.device_texture.handle, 500),
        _ => panic!("expected a borrowed attachment"),
    }
    assert_eq!(pipeline.passes[1].dependencies[0].desc.source.device_texture.handle, 500);
    refresh_pass_sources(&mut pipeline, 2);
    match &pipeline.passes[2].attachments[1].desc.source {
        PassAttachmentSource::OtherPass(s) => assert_eq!(s.device_texture.handle, 501),
        _ => panic!("expected a borrowed attachment"),
    }
}

#[test]
fn installing_new_programs() {
    let mut pipeline = Pipeline::new(build_passes(8, 8), model(), model());
    pipeline.release_models();
    assert!(pipeline.skybox_model.materials[0].properties_1f[0].value.data_location.locations.is_empty());
    let programs = (0..4u32).map(|k| program(200 + k, &["uMVP"], &["uDepthMapSampler2D", "uColorSampler2D"])).collect();
    pipeline.install_programs(programs);
    assert_eq!(pipeline.passes[2].program.handle, 202);
    assert_eq!(pipeline.skybox_model.materials[0].properties_1f[0].value.data_location.locations[0].program, 202);
    let bindings: Vec<(u32, u32)> = pipeline.passes[3].dependencies[0].sampler.bindings.iter().map(|b| (b.binding, b.program)).collect();
    assert_eq!(bindings, vec![(1, 203)]);
}

#[test]
fn dependency_descriptor_holds_its_source() {
    let d = PassDependencyDescriptor {
        name: "uX".to_string(),
        source: OtherPassAttachmentSource { pipeline_index: 1, attachment_index: 2, device_texture: texture(3) },
    };
    assert_eq!((d.source.pipeline_index, d.source.attachment_index), (1, 2));
    let a = PassAttachmentDescriptor::<f32> {
        flavor: PassAttachmentType::Color(Vec4 { x: 0.0, y: 0.0, z: 0.0, w: 0.0 }),
        source: PassAttachmentSource::ThisPass,
        textarget: GL_TEXTURE_2D,
        write: true,
        clear: true,
        width: 1,
        height: 1,
        mip_level: 0,
    };
    assert!(a.write && a.clear);
    let _ = HostShaderProgramDescriptor { name: String::new(), vert_shader_file_path: String::new(), frag_shader_file_path: String::new() };
}

#[test]
fn a_pass_is_built_from_its_description() {
    let mut passes = build_passes(8, 6);
    passes.pop();
    assert!(stage_ready(3, &passes));
    assert!(!stage_ready(2, &passes));
    let clear = Vec4 { x: 0.0, y: 0.0, z: 0.0, w: 0.0 };
    let desc = pipeline_pass_descriptor(3, 8, 6, clear, 1.0, &passes);
    let prog = program(77, &[], &["uColorSampler2D"]);
    let pass = Pass::from_descriptor(desc, prog, vec![texture(900)], 5);
    assert_eq!(pass.name, "Tone Mapping Pass");
    assert_eq!(pass.techniques, vec![Techniques::ToneMapping]);
    assert_eq!((pass.width, pass.height, pass.fbo), (8, 6, 5));
    assert_eq!(pass.attachments.len(), 1);
    assert_eq!(pass.attachments[0].texture.handle, 900);
    assert_eq!(pass.dependencies.len(), 1);
    assert_eq!(pass.dependencies[0].sampler.name, "uColorSampler2D");
    assert_eq!(pass.dependencies[0].desc.source.pipeline_index, 2);
    assert_eq!(pass.dependencies[0].sampler.texture.handle, passes[2].attachments[1].texture.handle);
    assert_eq!(pass.dependencies[0].sampler.bindings.len(), 1);
    assert_eq!(pass.dependencies[0].sampler.bindings[0].program, 77);
}

#[test]
fn resizing_the_pipeline_pass_by_pass_keeps_sources_current() {
    let mut pipeline = Pipeline::new(build_passes(8, 8), model(), model());
    for i in 0..pipeline.passes.len() {
        refresh_pass_sources(&mut pipeline, i);
        let n = pipeline.passes[i].attachments.len();
        let textures: Vec<DeviceTexture> = (0..n)
            .map(|j| match &pipeline.passes[i].attachments[j].desc.source {
                PassAttachmentSource::ThisPass => texture(500 + 10 * i as u32 + j as u32),
                PassAttachmentSource::OtherPass(s) => s.device_texture.duplicate(),
            })
            .collect();
        pipeline.passes[i].resize_with(textures, 900 + i as u32, 16, 12);
    }
    assert!(pipeline.passes.iter().all(|p| (p.width, p.height) == (16, 12)));
    assert_eq!(pipeline.passes[0].attachments[0].texture.handle, 500);
    assert_eq!(pipeline.passes[0].attachments[0].desc.width, 16);
    // Later passes read the textures the earlier passes hold after their resize.
    assert_eq!(pipeline.passes[1].dependencies[0].desc.source.device_texture.handle, 500);
    match &pipeline.passes[2].attachments[1].desc.source {
        PassAttachmentSource::OtherPass(s) => assert_eq!(s.device_texture.handle, 511),
        _ => panic!("expected a borrowed attachment"),
    }
    assert_eq!(pipeline.passes[3].dependencies[0].desc.source.device_texture.handle, pipeline.passes[2].attachments[1].texture.handle);
}

#[test]
fn reloading_rebinds_whether_or_not_programs_were_built() {
    let mut pipeline = Pipeline::new(build_passes(8, 8), model(), model());
    let mut c: TechniqueContainer<f32> = TechniqueContainer::new();
    let mut t = Technique::new("mvp");
    t.per_frame_uniforms.mat4x4f.push(Uniform::new("uMVP", vec![Mat4x4::identity()]));
    c.insert(Techniques::MVP, t);
    c.bind_pipeline(&pipeline);
    let mut m = model();
    pipeline.bind_model(&mut m);

    // A failed build: the passes keep their programs, the pipeline's own models are released.
    pipeline.reload(&mut c, &mut m, None);
    let handles: Vec<u32> = pipeline.passes.iter().map(|p| p.program.handle).collect();
    assert_eq!(handles, vec![100, 101, 102, 103]);
    let locations = &c.get(Techniques::MVP).unwrap().per_frame_uniforms.mat4x4f[0].data_location.locations;
    assert_eq!(locations.iter().map(|l| l.program).collect::<Vec<u32>>(), vec![100, 101, 102, 103]);
    let model_programs: Vec<u32> = m.materials[0].properties_1f[0].value.data_location.locations.iter().map(|l| l.program).collect();
    assert_eq!(model_programs, vec![100, 101]);
    assert!(pipeline.skybox_model.materials[0].properties_1f[0].value.data_location.locations.is_empty());

    // A successful build: the passes take the new programs and everything is bound to them.
    let programs: Vec<ShaderProgram> = (0..4).map(|k| program(200 + k, &["uMVP"], &[])).collect();
    pipeline.reload(&mut c, &mut m, Some(programs));
    let handles: Vec<u32> = pipeline.passes.iter().map(|p| p.program.handle).collect();
    assert_eq!(handles, vec![200, 201, 202, 203]);
    let locations = &c.get(Techniques::MVP).unwrap().per_frame_uniforms.mat4x4f[0].data_location.locations;
    assert_eq!(locations.iter().map(|l| l.program).collect::<Vec<u32>>(), vec![200, 201, 202, 203]);
    let model_programs: Vec<u32> = m.materials[0].properties_1f[0].value.data_location.locations.iter().map(|l| l.program).collect();
    assert_eq!(model_programs, vec![200, 201]);
    assert_eq!(pipeline.skybox_model.materials[0].properties_1f[0].value.data_location.locations[0].program, 202);
}
