use simple_renderer::shader::{ShaderProgramAttribute, ShaderProgramScalarUniform};
use simple_renderer::source::{
    create_shader_program_2d_samplers, create_shader_program_outputs, find_shader_program_inputs, record_attribute,
    record_scalar_uniform, scalar_uniform_listed, try_find_shader_program_inputs, ShaderProgramInputFindResult,
    ShaderProgramVariableType,
};

const VERT: &str = "#version 450\n\
layout (location = 0) in vec3 aPosition;\n\
layout (location = 1) in vec3  aNormal ;\n\
layout (location = 10) uniform mat4 uMVP;\n\
layout (location = 11) uniform mat4 uModel;\n\
void main() { gl_Position = uMVP * uModel * vec4(aPosition, 1.0); }\n";

const FRAG: &str = "#version 450\n\
layout (binding = 3, location = 12) uniform sampler2D uAlbedo;\n\
layout (binding = 4, location = 13) uniform sampler2D uNormalMap;\n\
layout (location = 11) uniform mat4 uModel;\n\
layout (location = 0) out vec4 oColor;\n\
layout (location = 1) out vec2 oVelocity;\n\
void main() { oColor = texture(uAlbedo, vec2(0.0)); }\n";

fn names(found: &[ShaderProgramInputFindResult]) -> Vec<String> {
    found
        .iter()
        .map(|f| match f {
            ShaderProgramInputFindResult::In(n) => format!("in {}", n),
            ShaderProgramInputFindResult::Uniform(n) => format!("uniform {}", n),
            ShaderProgramInputFindResult::Sampler2d(b, n) => format!("sampler {} {}", b, n),
            ShaderProgramInputFindResult::Output(n, f) => format!("out {} {}", f, n),
        })
        .collect()
}

#[test]
fn finds_vertex_inputs() {
    let found = find_shader_program_inputs(VERT, ShaderProgramVariableType::In, 0, 10);
    assert_eq!(names(&found), vec!["in aPosition", "in aNormal"]);
}

#[test]
fn finds_uniforms_by_location() {
    let found = find_shader_program_inputs(VERT, ShaderProgramVariableType::Uniform, 10, 50);
    assert_eq!(names(&found), vec!["uniform uMVP", "uniform uModel"]);
    let none = find_shader_program_inputs(VERT, ShaderProgramVariableType::Uniform, 0, 10);
    assert!(none.is_empty());
}

#[test]
fn finds_samplers_with_bindings() {
    let found = find_shader_program_inputs(FRAG, ShaderProgramVariableType::Sampler2d, 10, 50);
    assert_eq!(names(&found), vec!["sampler 3 uAlbedo", "sampler 4 uNormalMap"]);
}

#[test]
fn finds_outputs_with_types() {
    let found = find_shader_program_inputs(FRAG, ShaderProgramVariableType::Output, 0, 8);
    assert_eq!(names(&found), vec!["out vec4 oColor", "out vec2 oVelocity"]);
    let outputs = create_shader_program_outputs(FRAG);
    let pairs: Vec<(String, String)> = outputs.iter().map(|o| (o.name.clone(), o.format.clone())).collect();
    assert_eq!(pairs, vec![("oColor".to_string(), "vec4".to_string()), ("oVelocity".to_string(), "vec2".to_string())]);
}

#[test]
fn last_declaration_at_a_location_wins() {
    let src = "layout (location = 10) uniform float uA;\nlayout (location = 10) uniform float uB;\n";
    let found = find_shader_program_inputs(src, ShaderProgramVariableType::Uniform, 10, 11);
    assert_eq!(names(&found), vec!["uniform uB"]);
}

#[test]
fn samplers_of_a_program_are_listed_once() {
    let samplers = create_shader_program_2d_samplers(vec![FRAG, FRAG], vec!["a.frag", "b.frag"]);
    let pairs: Vec<(u32, String)> = samplers.iter().map(|s| (s.binding, s.name.clone())).collect();
    assert_eq!(pairs, vec![(3, "uAlbedo".to_string()), (4, "uNormalMap".to_string())]);
}

#[test]
fn recording_locations_the_device_gave() {
    let mut attributes: Vec<ShaderProgramAttribute> = Vec::new();
    assert!(!record_attribute(&mut attributes, "aPosition".to_string(), 0));
    assert!(record_attribute(&mut attributes, "aUnused".to_string(), -1));
    assert_eq!(attributes.len(), 1);
    assert_eq!((attributes[0].location, attributes[0].name.as_str()), (0, "aPosition"));
    let mut uniforms: Vec<ShaderProgramScalarUniform> = Vec::new();
    assert!(!record_scalar_uniform(&mut uniforms, "uMVP".to_string(), 3));
    assert!(scalar_uniform_listed(&uniforms, &"uMVP".to_string()));
    assert!(!scalar_uniform_listed(&uniforms, &"uModel".to_string()));
    assert!(record_scalar_uniform(&mut uniforms, "uModel".to_string(), -1));
    assert_eq!(uniforms.len(), 1);
}

#[test]
fn checked_search_agrees_where_it_succeeds() {
    let found = try_find_shader_program_inputs(FRAG, ShaderProgramVariableType::Sampler2d, 10, 50).unwrap();
    assert_eq!(names(&found), vec!["sampler 3 uAlbedo", "sampler 4 uNormalMap"]);
}

#[test]
fn checked_search_fails_without_a_semicolon() {
    let src = "layout (location = 10) uniform float uA\n";
    assert!(try_find_shader_program_inputs(src, ShaderProgramVariableType::Uniform, 10, 11).is_none());
}

#[test]
fn checked_search_fails_on_a_bad_binding() {
    let src = "layout (binding = xy, location = 12) uniform sampler2D uA;\n";
    assert!(try_find_shader_program_inputs(src, ShaderProgramVariableType::Sampler2d, 10, 50).is_none());
}

#[test]
fn checked_search_fails_on_two_bindings_for_one_sampler() {
    let src = "layout (binding = 3, location = 12) uniform sampler2D uA;\nlayout (binding = 4, location = 13) uniform sampler2D uA;\n";
    assert!(try_find_shader_program_inputs(src, ShaderProgramVariableType::Sampler2d, 10, 50).is_none());
}

#[test]
fn scans_sources_with_non_ascii_text() {
    let src = "// Überblick: ünïcode — fine\nlayout (location = 10) uniform float\u{A0}uA;\n";
    let found = find_shader_program_inputs(src, ShaderProgramVariableType::Uniform, 10, 11);
    assert_eq!(names(&found), vec!["uniform uA"]);
}
