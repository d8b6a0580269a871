use std::rc::Rc;

use simple_renderer::math::{Mat4x4, Vec1, Vec2, Vec3};
use simple_renderer::shader::{
    find_sampler_binding, find_scalar_uniform_location, ShaderProgram, ShaderProgramScalarUniform, ShaderProgramTexture2d,
};
use simple_renderer::tex::{DeviceTexture, GL_TEXTURE_2D};
use simple_renderer::uniform::{
    bind_shader_program_to_scalar_per_model_uniforms, bind_shader_program_to_scalar_uniforms,
    bind_shader_program_to_texture_samplers, check_empty_per_model_uniform, check_empty_per_model_uniforms,
    check_empty_uniform, check_empty_uniforms, check_per_model_uniform_consistency,
    check_per_model_uniforms_consistency, program_binding, program_location,
    unbind_shader_program_from_scalar_per_model_uniforms, unbind_shader_program_from_scalar_uniforms,
    unbind_shader_program_from_texture_samplers, PerModelUniforms, PerModelUnifrom, SamplerProgramBinding,
    TextureSampler, Uniform, UniformProgramLocation, Uniforms,
};

fn program(handle: u32, uniforms: &[(&str, u32)], samplers: &[(&str, u32)]) -> ShaderProgram {
    ShaderProgram {
        name: format!("program {}", handle),
        handle,
        vert_shader_handle: 0,
        frag_shader_handle: 0,
        attributes: Vec::new(),
        scalar_uniforms: uniforms
            .iter()
            .map(|(n, l)| ShaderProgramScalarUniform { location: *l, name: n.to_string() })
            .collect(),
        array_uniforms: Vec::new(),
        sampler_2d: samplers.iter().map(|(n, b)| ShaderProgramTexture2d { binding: *b, name: n.to_string() }).collect(),
        outputs: Vec::new(),
    }
}

fn texture() -> Rc<DeviceTexture> {
    Rc::new(DeviceTexture { name: "tex".to_string(), handle: 3, target: GL_TEXTURE_2D })
}

fn locations<T>(u: &Uniform<T>) -> Vec<(u32, u32)> {
    u.data_location.locations.iter().map(|l| (l.location, l.program)).collect()
}

#[test]
fn new_uniform_is_unbound() {
    let u = Uniform::new("uTime", vec![Vec1 { x: 1.0f32 }]);
    assert_eq!(u.name, "uTime");
    assert_eq!(u.data_location.data.len(), 1);
    assert!(u.data_location.locations.is_empty());
    let p = PerModelUnifrom::new("uModel", vec![vec![Vec1 { x: 1u32 }], vec![Vec1 { x: 2u32 }, Vec1 { x: 3u32 }]]);
    assert_eq!(p.name, "uModel");
    assert_eq!(p.data_locations.len(), 2);
    assert_eq!(p.data_locations[1].data.len(), 2);
    assert!(p.data_locations[0].locations.is_empty());
}

#[test]
fn program_lookups_find_first_entry() {
    let p = program(7, &[("uA", 1), ("uB", 2), ("uA", 9)], &[("uTex", 4)]);
    assert_eq!(find_scalar_uniform_location(&p, &"uA".to_string()), Some(1));
    assert_eq!(find_scalar_uniform_location(&p, &"uC".to_string()), None);
    assert_eq!(find_sampler_binding(&p, &"uTex".to_string()), Some(4));
    assert_eq!(find_sampler_binding(&p, &"uNope".to_string()), None);
}

#[test]
fn bind_adds_location_and_unbind_removes_it() {
    let p = program(7, &[("uA", 1), ("uB", 2)], &[]);
    let q = program(8, &[("uA", 5)], &[]);
    let mut us = vec![Uniform::new("uA", vec![Vec1 { x: 0u32 }]), Uniform::new("uC", vec![Vec1 { x: 0u32 }])];
    bind_shader_program_to_scalar_uniforms(&p, &mut us);
    bind_shader_program_to_scalar_uniforms(&q, &mut us);
    assert_eq!(locations(&us[0]), vec![(1, 7), (5, 8)]);
    assert!(locations(&us[1]).is_empty());
    assert_eq!(program_location(&us[0].data_location.locations, 8), Some(5));
    assert_eq!(program_location(&us[0].data_location.locations, 9), None);
    unbind_shader_program_from_scalar_uniforms(7, &mut us);
    assert_eq!(locations(&us[0]), vec![(5, 8)]);
    unbind_shader_program_from_scalar_uniforms(8, &mut us);
    assert!(locations(&us[0]).is_empty());
}

#[test]
fn per_model_uniforms_bind_every_block() {
    let p = program(3, &[("uModel", 11)], &[]);
    let mut us = vec![PerModelUnifrom::new("uModel", vec![vec![Vec1 { x: 1.0f32 }], vec![Vec1 { x: 2.0f32 }]])];
    bind_shader_program_to_scalar_per_model_uniforms(&p, &mut us);
    for block in &us[0].data_locations {
        let ls: Vec<(u32, u32)> = block.locations.iter().map(|l| (l.location, l.program)).collect();
        assert_eq!(ls, vec![(11, 3)]);
    }
    unbind_shader_program_from_scalar_per_model_uniforms(3, &mut us);
    assert!(us[0].data_locations.iter().all(|b| b.locations.is_empty()));
}

#[test]
fn samplers_bind_and_unbind() {
    let p = program(4, &[], &[("uTex", 2)]);
    let mut ts = vec![TextureSampler::new("uTex", texture()), TextureSampler::new("uOther", texture())];
    bind_shader_program_to_texture_samplers(&p, &mut ts);
    assert_eq!(ts[0].bindings.len(), 1);
    assert_eq!((ts[0].bindings[0].binding, ts[0].bindings[0].program), (2, 4));
    assert!(ts[1].bindings.is_empty());
    assert_eq!(program_binding(&ts[0].bindings, 4), Some(2));
    assert_eq!(program_binding(&ts[0].bindings, 5), None);
    unbind_shader_program_from_texture_samplers(4, &mut ts);
    assert!(ts[0].bindings.is_empty());
}

#[test]
fn sampler_unbind_keeps_only_the_named_program() {
    let mut s = TextureSampler::new("uTex", texture());
    s.bindings.push(SamplerProgramBinding { binding: 1, program: 10 });
    s.bindings.push(SamplerProgramBinding { binding: 2, program: 11 });
    s.unbind_shader_program(10);
    assert_eq!(s.bindings.len(), 1);
    assert_eq!(s.bindings[0].program, 10);
    let p = program(12, &[], &[("uTex", 6)]);
    s.bind_shader_program(&p);
    assert_eq!(s.bindings.len(), 2);
    assert_eq!((s.bindings[1].binding, s.bindings[1].program), (6, 12));
}

#[test]
fn program_location_takes_the_first_match() {
    let ls = vec![
        UniformProgramLocation { location: 4, program: 1 },
        UniformProgramLocation { location: 5, program: 2 },
        UniformProgramLocation { location: 6, program: 2 },
    ];
    assert_eq!(program_location(&ls, 2), Some(5));
    assert_eq!(program_location(&Vec::new(), 2), None);
}

#[test]
fn empty_uniform_checks() {
    assert_eq!(check_empty_uniform::<Vec1<f32>>(&[Uniform::new("uA", vec![Vec1 { x: 1.0 }])]), Ok(()));
    assert_eq!(
        check_empty_uniform::<Vec1<f32>>(&[Uniform::new("uA", Vec::new())]),
        Err("Uniform 'uA' does not have any data.".to_string())
    );
    assert_eq!(
        check_empty_uniform(&[Uniform::new("uA", vec![Vec1 { x: 1u32 }]), Uniform::new("", vec![Vec1 { x: 1u32 }])]),
        Err("Uniform #'1' has empty name.".to_string())
    );
    assert_eq!(
        check_empty_per_model_uniform(&vec![PerModelUnifrom::new("", vec![vec![Vec1 { x: 1u32 }]])]),
        Err("Uniform #'0' has empty name.".to_string())
    );
    assert_eq!(
        check_empty_per_model_uniform(&vec![
            PerModelUnifrom::new("uA", vec![vec![Vec1 { x: 1u32 }]]),
            PerModelUnifrom::new("uB", vec![vec![Vec1 { x: 1u32 }], Vec::new()]),
        ]),
        Err("Per model uniform 'uB' has empty data at index 1.".to_string())
    );
    assert_eq!(
        check_per_model_uniform_consistency(&vec![
            PerModelUnifrom::new("uA", vec![vec![Vec1 { x: 1u32 }]]),
            PerModelUnifrom::new("uB", vec![vec![Vec1 { x: 1u32 }], vec![Vec1 { x: 1u32 }]]),
        ]),
        Err("Per model uniforms have inconsistent lengths.".to_string())
    );
}

fn empty_uniforms() -> Uniforms<f32> {
    Uniforms { vec1f: Vec::new(), vec1u: Vec::new(), vec2f: Vec::new(), vec3f: Vec::new(), mat4x4f: Vec::new() }
}

fn empty_per_model() -> PerModelUniforms<f32> {
    PerModelUniforms { vec1f: Vec::new(), vec1u: Vec::new(), vec2f: Vec::new(), vec3f: Vec::new(), mat4x4f: Vec::new() }
}

#[test]
fn grouped_checks_report_the_first_group() {
    let mut u = empty_uniforms();
    assert_eq!(check_empty_uniforms(&u), Ok(()));
    u.vec3f.push(Uniform::new("uLight", Vec::<Vec3<f32>>::new()));
    u.mat4x4f.push(Uniform::new("", vec![Mat4x4::<f32>::identity()]));
    assert_eq!(check_empty_uniforms(&u), Err("Uniform 'uLight' does not have any data.".to_string()));
    let mut p = empty_per_model();
    assert_eq!(check_empty_per_model_uniforms(&p), Ok(()));
    assert_eq!(check_per_model_uniforms_consistency(&p), Ok(()));
    p.vec2f.push(PerModelUnifrom::new("uA", vec![vec![Vec2 { x: 0.0, y: 0.0 }]]));
    p.vec2f.push(PerModelUnifrom::new("uB", Vec::new()));
    assert_eq!(check_empty_per_model_uniforms(&p), Ok(()));
    assert_eq!(
        check_per_model_uniforms_consistency(&p),
        Err("Per model uniforms have inconsistent lengths.".to_string())
    );
}
