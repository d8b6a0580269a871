use std::rc::Rc;

use simple_renderer::material::{assemble_host_material, material_texture_slots, DeviceMaterial, HostMaterial, Property};
use simple_renderer::math::{Vec1, Vec3};
use simple_renderer::model::DeviceModel;
use simple_renderer::shader::{ShaderProgram, ShaderProgramScalarUniform, ShaderProgramTexture2d};
use simple_renderer::tex::{DeviceTexture, HostTexture, HostTextureData, GL_TEXTURE_2D};
use simple_renderer::uniform::{SamplerProgramBinding, TextureSampler, Uniform};

fn program(handle: u32, uniforms: &[(&str, u32)], samplers: &[(&str, u32)]) -> ShaderProgram {
    ShaderProgram {
        name: format!("program {}", handle),
        handle,
        vert_shader_handle: 0,
        frag_shader_handle: 0,
        attributes: Vec::new(),
        scalar_uniforms: uniforms
            .iter()
            .map(|(n, l)| ShaderProgramScalarUniform { location: *l, name: n.to_string() })
            .collect(),
        array_uniforms: Vec::new(),
        sampler_2d: samplers.iter().map(|(n, b)| ShaderProgramTexture2d { binding: *b, name: n.to_string() }).collect(),
        outputs: Vec::new(),
    }
}

fn material() -> DeviceMaterial<f32> {
    let mut m = DeviceMaterial::empty();
    m.name = "brick".to_string();
    m.properties_1f.push(Property { name: "roughness".to_string(), value: Uniform::new("uRoughness", vec![Vec1 { x: 0.5 }]) });
    m.properties_1f.push(Property {
        name: "weights".to_string(),
        value: Uniform::new("uWeights", vec![Vec1 { x: 0.1 }, Vec1 { x: 0.2 }]),
    });
    m.properties_3f.push(Property {
        name: "albedo".to_string(),
        value: Uniform::new("uAlbedo", vec![Vec3 { x: 1.0, y: 1.0, z: 1.0 }]),
    });
    m.properties_samplers.push(Property {
        name: "albedo map".to_string(),
        value: TextureSampler::new("uAlbedoMap", Rc::new(DeviceTexture { name: "a".to_string(), handle: 5, target: GL_TEXTURE_2D })),
    });
    m
}

#[test]
fn set_single_values() {
    let mut m = material();
    assert_eq!(m.set_svec1f("uRoughness", Vec1 { x: 0.25 }), Ok(()));
    assert_eq!(m.properties_1f[0].value.data_location.data[0].x, 0.25);
    assert_eq!(m.set_svec1f("uMissing", Vec1 { x: 0.25 }), Err("Failed to find property: 'uMissing'".to_string()));
    assert_eq!(m.set_svec1f("uWeights", Vec1 { x: 0.25 }), Err("Failed to set array property: 'uWeights'".to_string()));
    assert_eq!(m.set_svec3f("uAlbedo", Vec3 { x: 0.0, y: 0.5, z: 1.0 }), Ok(()));
    assert_eq!(m.properties_3f[0].value.data_location.data[0].y, 0.5);
}

#[test]
fn unbinding_after_binding_restores_uniforms_and_keeps_one_sampler_binding() {
    let p = program(20, &[("uRoughness", 3), ("uAlbedo", 4)], &[("uAlbedoMap", 1)]);
    let mut m = material();
    m.bind_shader_program(&p);
    let ls: Vec<(u32, u32)> = m.properties_1f[0].value.data_location.locations.iter().map(|l| (l.location, l.program)).collect();
    assert_eq!(ls, vec![(3, 20)]);
    assert!(m.properties_1f[1].value.data_location.locations.is_empty());
    assert_eq!(m.properties_3f[0].value.data_location.locations.len(), 1);
    assert_eq!(m.properties_samplers[0].value.bindings.len(), 1);
    m.unbind_shader_program(20);
    assert!(m.properties_1f[0].value.data_location.locations.is_empty());
    assert!(m.properties_3f[0].value.data_location.locations.is_empty());
    let bs: Vec<(u32, u32)> = m.properties_samplers[0].value.bindings.iter().map(|b| (b.binding, b.program)).collect();
    assert_eq!(bs, vec![(1, 20)]);
}

#[test]
fn model_binds_every_material() {
    let p = program(30, &[("uRoughness", 8)], &[]);
    let mut model = DeviceModel::<f32> { meshes: Vec::new(), materials: vec![material(), material()] };
    let pass = simple_renderer::pass::Pass::<f32> {
        name: "p".to_string(),
        program: p,
        program_desc: simple_renderer::shader::HostShaderProgramDescriptor {
            name: "p".to_string(),
            vert_shader_file_path: "a.vert".to_string(),
            frag_shader_file_path: "a.frag".to_string(),
        },
        techniques: Vec::new(),
        attachments: Vec::new(),
        dependencies: Vec::new(),
        fbo: 0,
        width: 1,
        height: 1,
    };
    model.bind_pass(&pass);
    for m in &model.materials {
        assert_eq!(m.properties_1f[0].value.data_location.locations[0].location, 8);
    }
    model.unbind_pass(30);
    for m in &model.materials {
        assert!(m.properties_1f[0].value.data_location.locations.is_empty());
    }
}

fn host_texture(name: &str) -> HostTexture<f32> {
    HostTexture { name: name.to_string(), width: 1, height: 1, depth: 4, data: HostTextureData::UINT8(vec![0, 0, 0, 255]) }
}

#[test]
fn device_material_from_host_material() {
    let mut h = HostMaterial::<f32>::empty();
    h.name = "stone".to_string();
    h.properties_1u.push(Property { name: "uFlag".to_string(), value: Vec1 { x: 1 } });
    h.properties_1f.push(Property { name: "uRough".to_string(), value: Vec1 { x: 0.5 } });
    h.properties_samplers.push(Property { name: "uMap".to_string(), value: host_texture("uMap") });
    let t = Rc::new(DeviceTexture { name: "uMap".to_string(), handle: 11, target: GL_TEXTURE_2D });
    let d = DeviceMaterial::new(&h, vec![t.clone()]);
    assert_eq!(d.name, "stone");
    assert_eq!(d.properties_1u[0].value.name, "uFlag");
    assert_eq!(d.properties_1u[0].value.data_location.data[0].x, 1);
    assert_eq!(d.properties_1f[0].value.data_location.data.len(), 1);
    assert_eq!(d.properties_samplers[0].value.name, "uMap");
    assert_eq!(d.properties_samplers[0].value.texture.handle, 11);
    assert!(d.properties_samplers[0].value.bindings.is_empty());
}

#[test]
fn texture_slots_of_a_material() {
    let slots = material_texture_slots("albedo.png", &Some("normal.png".to_string()), &None, &None, &Some("rough.png".to_string()));
    assert_eq!(slots.len(), 5);
    assert_eq!((slots[0].file.as_str(), slots[0].sampler_name.as_str()), ("albedo.png", "uAlbedoMapSampler2D"));
    assert_eq!(slots[0].flag_name, "uAlbedoMapAvailableUint");
    assert_eq!((slots[1].file.as_str(), slots[1].flag_name.as_str()), ("normal.png", "uNormalMapAvailableUint"));
    assert_eq!((slots[2].file.as_str(), slots[2].sampler_name.as_str()), ("", "uBumpMapSampler2D"));
    assert_eq!((slots[3].file.as_str(), slots[3].sampler_name.as_str()), ("", "uMetallicSampler2D"));
    assert_eq!((slots[4].file.as_str(), slots[4].flag_name.as_str()), ("rough.png", "uRoughnessAvailableUint"));
}

#[test]
fn host_material_from_texture_loads() {
    let loads = vec![
        ("uAlbedoMapAvailableUint".to_string(), "uAlbedoMapSampler2D".to_string(), Some(host_texture("albedo"))),
        ("uNormalMapAvailableUint".to_string(), "uNormalMapSampler2D".to_string(), None),
        ("uBumpMapAvailableUint".to_string(), "uBumpMapSampler2D".to_string(), Some(host_texture("bump"))),
    ];
    let m = assemble_host_material("wood".to_string(), loads, 0.5f32, 0.0, Vec3 { x: 1.0, y: 1.0, z: 1.0 });
    assert_eq!(m.name, "wood");
    let flags: Vec<(String, u32)> = m.properties_1u.iter().map(|p| (p.name.clone(), p.value.x)).collect();
    assert_eq!(
        flags,
        vec![
            ("uAlbedoMapAvailableUint".to_string(), 1),
            ("uNormalMapAvailableUint".to_string(), 0),
            ("uBumpMapAvailableUint".to_string(), 1)
        ]
    );
    let samplers: Vec<String> = m.properties_samplers.iter().map(|p| p.name.clone()).collect();
    assert_eq!(samplers, vec!["uAlbedoMapSampler2D".to_string(), "uBumpMapSampler2D".to_string()]);
    let textures: Vec<String> = m.properties_samplers.iter().map(|p| p.value.name.clone()).collect();
    assert_eq!(textures, vec!["albedo".to_string(), "bump".to_string()]);
    assert_eq!(m.properties_1f[0].name, "uScalarRoughnessVec1f");
    assert_eq!(m.properties_1f[0].value.x, 0.5);
    assert_eq!(m.properties_1f[1].name, "uScalarMetalnessVec1f");
    assert_eq!(m.properties_3f[0].name, "uScalarAlbedoVec3f");
}

#[test]
fn sampler_binding_struct_is_plain() {
    let b = SamplerProgramBinding { binding: 2, program: 3 };
    assert_eq!((b.binding, b.program), (2, 3));
}
