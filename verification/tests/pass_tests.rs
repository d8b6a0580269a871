use std::rc::Rc;

use simple_renderer::material::{DeviceMaterial, Property};
use simple_renderer::math::{Mat4x4, Vec4};
use simple_renderer::mesh::{Attribute, DeviceMesh};
use simple_renderer::model::DeviceModel;
use simple_renderer::pass::{
    framebuffer_layout, is_render_pass_valid, pass_draw_state, resize_required, resized_attachment_descriptors,
    OtherPassAttachmentSource, Pass, PassAttachment, PassAttachmentDescriptor, PassAttachmentSource,
    PassAttachmentType, PassDependency, PassDependencyDescriptor, GL_COLOR_ATTACHMENT0, GL_COLOR_BUFFER_BIT,
    GL_DEPTH_ATTACHMENT, GL_DEPTH_BUFFER_BIT,
};
use simple_renderer::shader::{
    HostShaderProgramDescriptor, ShaderProgram, ShaderProgramAttribute, ShaderProgramScalarUniform,
    ShaderProgramTexture2d,
};
use simple_renderer::tech::{is_technique_valid, Technique, TechniqueContainer, Techniques};
use simple_renderer::tex::{DeviceTexture, GL_FLOAT, GL_TEXTURE_2D};
use simple_renderer::uniform::{PerModelUnifrom, TextureSampler, Uniform};

fn texture(handle: u32) -> DeviceTexture {
    DeviceTexture { name: format!("t{}", handle), handle, target: GL_TEXTURE_2D }
}

fn program(name: &str, handle: u32, attributes: &[&str], uniforms: &[&str], samplers: &[&str]) -> ShaderProgram {
    ShaderProgram {
        name: name.to_string(),
        handle,
        vert_shader_handle: 0,
        frag_shader_handle: 0,
        attributes: attributes
            .iter()
            .enumerate()
            .map(|(i, n)| ShaderProgramAttribute { location: i as u32, name: n.to_string() })
            .collect(),
        scalar_uniforms: uniforms
            .iter()
            .enumerate()
            .map(|(i, n)| ShaderProgramScalarUniform { location: 10 + i as u32, name: n.to_string() })
            .collect(),
        array_uniforms: Vec::new(),
        sampler_2d: samplers
            .iter()
            .enumerate()
            .map(|(i, n)| ShaderProgramTexture2d { binding: i as u32, name: n.to_string() })
            .collect(),
        outputs: Vec::new(),
    }
}

fn pass(prog: ShaderProgram, techniques: Vec<Techniques>) -> Pass<f32> {
    Pass {
        name: "Main".to_string(),
        program: prog,
        program_desc: HostShaderProgramDescriptor {
            name: "main".to_string(),
            vert_shader_file_path: "main.vert".to_string(),
            frag_shader_file_path: "main.frag".to_string(),
        },
        techniques,
        attachments: Vec::new(),
        dependencies: Vec::new(),
        fbo: 1,
        width: 640,
        height: 480,
    }
}

fn mesh(attributes: &[&str]) -> DeviceMesh {
    DeviceMesh {
        name: "mesh".to_string(),
        vao: 1,
        index_count: 1,
        attributes: attributes
            .iter()
            .map(|n| Attribute { name: n.to_string(), dimensions: 3, stride: 12, data_type: GL_FLOAT })
            .collect(),
        vbos: vec![1; attributes.len()],
        indices: 1,
        material_index: 0,
    }
}

fn model(attributes: &[&str]) -> DeviceModel<f32> {
    DeviceModel { meshes: vec![mesh(attributes)], materials: vec![DeviceMaterial::empty()] }
}

fn container(techs: Vec<(Techniques, Technique<f32>)>) -> TechniqueContainer<f32> {
    let mut c = TechniqueContainer::new();
    for (k, t) in techs {
        c.insert(k, t);
    }
    c
}

fn technique(name: &str, per_frame: &[&str], per_model: &[&str], textures: &[&str]) -> Technique<f32> {
    let mut t = Technique::new(name);
    for n in per_frame {
        t.per_frame_uniforms.mat4x4f.push(Uniform::new(n, vec![Mat4x4::identity()]));
    }
    for n in per_model {
        t.per_model_uniforms.mat4x4f.push(PerModelUnifrom::new(n, vec![vec![Mat4x4::identity()]]));
    }
    for n in textures {
        t.textures.push(TextureSampler::new(n, Rc::new(texture(77))));
    }
    t
}

#[test]
fn valid_pass_reports_nothing() {
    let p = pass(program("main", 1, &["aPosition"], &["uMVP", "uModel"], &[]), vec![Techniques::MVP]);
    let c = container(vec![(Techniques::MVP, technique("mvp", &["uMVP"], &["uModel"], &[]))]);
    let mut diagnostics = Vec::new();
    assert_eq!(is_render_pass_valid(&p, &c, &model(&["aPosition"]), &mut diagnostics), Ok(()));
    assert!(diagnostics.is_empty());
}

#[test]
fn uniform_counts_are_reported() {
    let p = pass(program("main", 1, &[], &["uMVP", "uLight"], &[]), vec![Techniques::MVP, Techniques::Lighting]);
    let c = container(vec![
        (Techniques::MVP, technique("mvp", &["uMVP"], &[], &[])),
        (Techniques::Lighting, technique("lighting", &["uMVP"], &[], &[])),
    ]);
    let mut diagnostics = Vec::new();
    assert_eq!(is_render_pass_valid(&p, &c, &model(&[]), &mut diagnostics), Ok(()));
    assert_eq!(
        diagnostics,
        vec![
            "Render pass 'Main' is invalid! Uniform 'uMVP' provided '2' times.".to_string(),
            "Render pass 'Main' is invalid! Uniform 'uLight' not provided by tehcniques.".to_string(),
        ]
    );
}

#[test]
fn missing_attribute_is_an_error() {
    let p = pass(program("main", 1, &["aPosition", "aNormal"], &[], &[]), vec![]);
    let mut diagnostics = Vec::new();
    assert_eq!(
        is_render_pass_valid(&p, &container(vec![]), &model(&["aPosition"]), &mut diagnostics),
        Err("Render pass 'Main' is invalid! Mesh #'0' does not provide shader attribute 'aNormal'.".to_string())
    );
}

#[test]
fn unbound_sampler_is_reported() {
    let p = pass(program("main", 1, &[], &[], &["uDepth"]), vec![]);
    let mut diagnostics = Vec::new();
    assert_eq!(is_render_pass_valid(&p, &container(vec![]), &model(&[]), &mut diagnostics), Ok(()));
    assert_eq!(
        diagnostics,
        vec!["Render pass 'Main' is invalid! Shader's 'main' Texture Sampler 'uDepth' is not bound by dependencies, techniques or material for mesh #'0'.".to_string()]
    );
}

#[test]
fn sampler_bound_twice_is_reported() {
    let mut p = pass(program("main", 1, &[], &[], &["uDepth", "uAlbedo", "uEnv"]), vec![Techniques::Skybox]);
    p.dependencies.push(PassDependency {
        desc: PassDependencyDescriptor {
            name: "uDepth".to_string(),
            source: OtherPassAttachmentSource { pipeline_index: 0, attachment_index: 0, device_texture: texture(4) },
        },
        sampler: TextureSampler::new("uDepth", Rc::new(texture(4))),
    });
    p.dependencies.push(PassDependency {
        desc: PassDependencyDescriptor {
            name: "uEnv".to_string(),
            source: OtherPassAttachmentSource { pipeline_index: 0, attachment_index: 0, device_texture: texture(5) },
        },
        sampler: TextureSampler::new("uEnv", Rc::new(texture(5))),
    });
    let mut m = model(&[]);
    m.materials[0].properties_samplers.push(Property {
        name: "albedo".to_string(),
        value: TextureSampler::new("uAlbedo", Rc::new(texture(6))),
    });
    m.materials[0].properties_samplers.push(Property {
        name: "depth".to_string(),
        value: TextureSampler::new("uDepth", Rc::new(texture(7))),
    });
    let c = container(vec![(Techniques::Skybox, technique("sky", &[], &[], &["uEnv", "uAlbedo"]))]);
    let mut diagnostics = Vec::new();
    assert_eq!(is_render_pass_valid(&p, &c, &m, &mut diagnostics), Ok(()));
    assert_eq!(
        diagnostics,
        vec![
            "Render pass 'Main' is invalid! Shader's 'main' Texture Sampler 'uDepth' is bound both by pass dependency and material for mesh #'0'.".to_string(),
            "Render pass 'Main' is invalid! Shader's 'main' Texture Sampler 'uAlbedo' is bound both by technique and material for mesh #'0'.".to_string(),
            "Render pass 'Main' is invalid! Shader's 'main' Texture Sampler 'uEnv' is bound both by pass dependency and a technique.".to_string(),
        ]
    );
}

#[test]
fn sampler_of_two_techniques_is_an_error() {
    let p = pass(program("main", 1, &[], &[], &["uEnv"]), vec![Techniques::Skybox, Techniques::IBL]);
    let c = container(vec![
        (Techniques::Skybox, technique("sky", &[], &[], &["uEnv"])),
        (Techniques::IBL, technique("ibl", &[], &[], &["uEnv"])),
    ]);
    let mut diagnostics = Vec::new();
    assert_eq!(
        is_render_pass_valid(&p, &c, &model(&[]), &mut diagnostics),
        Err("Render pass 'Main' is invalid! Shader's 'main' Texture Sampler 'uEnv' bound by '2' techniques. Can only handle 1.".to_string())
    );
}

#[test]
fn technique_validation_messages() {
    assert_eq!(is_technique_valid(&technique("ok", &["uA"], &["uB"], &[])), Ok(()));
    let mut t = technique("bad", &[], &[], &[]);
    t.per_frame_uniforms.vec1f.push(Uniform::new("uEmpty", Vec::new()));
    assert_eq!(
        is_technique_valid(&t),
        Err("Technique 'bad' is invalid.\nUniform 'uEmpty' does not have any data.".to_string())
    );
    let mut u = technique("uneven", &[], &[], &[]);
    u.per_model_uniforms.mat4x4f.push(PerModelUnifrom::new("uA", vec![vec![Mat4x4::identity()]]));
    u.per_model_uniforms.mat4x4f.push(PerModelUnifrom::new("uB", vec![vec![Mat4x4::identity()], vec![Mat4x4::identity()]]));
    assert_eq!(
        is_technique_valid(&u),
        Err("Technique 'uneven' is inlvalid!\nPer model uniforms have inconsistent lengths.".to_string())
    );
}

#[test]
fn container_insert_replaces_and_get_finds() {
    let mut c: TechniqueContainer<f32> = TechniqueContainer::new();
    assert!(c.insert(Techniques::MVP, technique("first", &[], &[], &[])).is_none());
    assert!(c.insert(Techniques::Lighting, technique("light", &[], &[], &[])).is_none());
    let old = c.insert(Techniques::MVP, technique("second", &[], &[], &[]));
    assert_eq!(old.map(|t| t.name), Some("first".to_string()));
    assert_eq!(c.get(Techniques::MVP).map(|t| t.name.clone()), Some("second".to_string()));
    assert_eq!(c.get(Techniques::Lighting).map(|t| t.name.clone()), Some("light".to_string()));
    assert!(c.get(Techniques::Skybox).is_none());
    assert_eq!(c.position(Techniques::Lighting), Some(1));
}

fn attachment(flavor: PassAttachmentType<f32>, source: PassAttachmentSource, clear: bool, write: bool, size: (u32, u32), handle: u32) -> PassAttachment<f32> {
    PassAttachment {
        texture: texture(handle),
        desc: PassAttachmentDescriptor { flavor, source, textarget: GL_TEXTURE_2D, write, clear, width: size.0, height: size.1, mip_level: 0 },
    }
}

#[test]
fn framebuffer_layout_numbers_color_attachments() {
    let borrowed = PassAttachmentSource::OtherPass(OtherPassAttachmentSource {
        pipeline_index: 0,
        attachment_index: 0,
        device_texture: texture(40),
    });
    let attachments = vec![
        attachment(PassAttachmentType::Color(Vec4 { x: 0.0, y: 0.0, z: 0.0, w: 0.0 }), PassAttachmentSource::ThisPass, true, true, (4, 4), 1),
        attachment(PassAttachmentType::Depth(1.0, 0x0201), borrowed, false, false, (4, 4), 2),
        attachment(PassAttachmentType::Color(Vec4 { x: 1.0, y: 0.0, z: 0.0, w: 1.0 }), PassAttachmentSource::ThisPass, false, true, (4, 4), 3),
    ];
    let (bindings, draw) = framebuffer_layout(&attachments);
    assert_eq!(bindings, vec![(GL_COLOR_ATTACHMENT0, 1), (GL_DEPTH_ATTACHMENT, 40), (GL_COLOR_ATTACHMENT0 + 1, 3)]);
    assert_eq!(draw, vec![GL_COLOR_ATTACHMENT0, GL_COLOR_ATTACHMENT0 + 1]);
    let state = pass_draw_state(&attachments);
    assert_eq!(state.clear_mask, GL_COLOR_BUFFER_BIT);
    assert_eq!(state.color.map(|(c, w)| (c.x, w)), Some((1.0, true)));
    assert_eq!(state.depth, Some((1.0, 0x0201, false)));
}

#[test]
fn draw_state_clears_depth_and_color() {
    let attachments = vec![
        attachment(PassAttachmentType::Depth(1.0, 0x0201), PassAttachmentSource::ThisPass, true, true, (4, 4), 1),
        attachment(PassAttachmentType::Color(Vec4 { x: 0.0, y: 0.0, z: 0.0, w: 0.0 }), PassAttachmentSource::ThisPass, true, false, (4, 4), 2),
    ];
    let state = pass_draw_state(&attachments);
    assert_eq!(state.clear_mask, GL_COLOR_BUFFER_BIT | GL_DEPTH_BUFFER_BIT);
    assert_eq!(pass_draw_state::<f32>(&Vec::new()).clear_mask, 0);
}

#[test]
fn resizing_a_pass() {
    let mut p = pass(program("main", 1, &[], &[], &[]), vec![]);
    p.attachments.push(attachment(PassAttachmentType::Color(Vec4 { x: 0.0, y: 0.0, z: 0.0, w: 0.0 }), PassAttachmentSource::ThisPass, true, true, (640, 480), 1));
    p.attachments.push(attachment(PassAttachmentType::Depth(1.0, 0x0201), PassAttachmentSource::ThisPass, true, true, (256, 256), 2));
    assert!(resize_required(&p, 800, 600));
    assert!(!resize_required(&p, 640, 480));
    assert!(!resize_required(&p, 0, 600));
    let (descs, custom) = resized_attachment_descriptors(&p, 800, 600);
    assert_eq!((descs[0].width, descs[0].height), (800, 600));
    assert_eq!((descs[1].width, descs[1].height), (256, 256));
    assert_eq!(custom, 1);
}
