use simple_renderer::math::{Vec1, Vec2, Vec3, Vec4};
use simple_renderer::mesh::{
    attribute_bindings, check_obj_mesh, chunk_vec2, chunk_vec3, wrap_indices, Attribute, HostMesh,
    NORMAL_ATTRIBUTE_NAME, UV_ATTRIBUTE_NAME, VERTEX_ATTRIBUTE_NAME,
};
use simple_renderer::shader::{ShaderProgram, ShaderProgramAttribute};
use simple_renderer::tex::{GL_FLOAT, GL_UNSIGNED_INT};

#[test]
fn chunking_flat_arrays() {
    let v = chunk_vec3(&vec![1.0f32, 2.0, 3.0, 4.0, 5.0, 6.0]);
    assert_eq!(v.len(), 2);
    assert_eq!((v[1].x, v[1].y, v[1].z), (4.0, 5.0, 6.0));
    let uv = chunk_vec2(&vec![0.0f32, 1.0, 0.5, 0.25]);
    assert_eq!((uv[1].x, uv[1].y), (0.5, 0.25));
    let idx = wrap_indices(&vec![0, 2, 1]);
    assert_eq!(idx.iter().map(|i| i.x).collect::<Vec<u32>>(), vec![0, 2, 1]);
    assert!(chunk_vec3::<f32>(&Vec::new()).is_empty());
}

#[test]
fn obj_mesh_checks() {
    assert_eq!(check_obj_mesh(9, 9, 6, 3), Ok(()));
    assert_eq!(check_obj_mesh(9, 0, 0, 3), Ok(()));
    assert_eq!(check_obj_mesh(0, 0, 0, 3), Err("Model must have vertices.".to_string()));
    assert_eq!(check_obj_mesh(9, 9, 6, 0), Err("Model must have indices.".to_string()));
    assert_eq!(check_obj_mesh(9, 6, 6, 3), Err("Every vertex must have a normal if there are normals.".to_string()));
    assert_eq!(check_obj_mesh(9, 9, 4, 3), Err("Every vertex must have a uv if there are uvs.".to_string()));
}

#[test]
fn host_mesh_attributes_follow_streams() {
    let m = HostMesh::<f32>::new(
        "tri".to_string(),
        2,
        vec![Vec3 { x: 0.0, y: 0.0, z: 0.0 }; 3],
        Vec::new(),
        Vec::new(),
        Vec::new(),
        vec![Vec2 { x: 0.0, y: 0.0 }; 3],
        vec![Vec1 { x: 0 }, Vec1 { x: 1 }, Vec1 { x: 2 }],
    );
    let names: Vec<&str> = m.attributes.iter().map(|a| a.name.as_str()).collect();
    assert_eq!(names, vec![VERTEX_ATTRIBUTE_NAME, UV_ATTRIBUTE_NAME]);
    assert_eq!((m.attributes[0].dimensions, m.attributes[1].dimensions), (3, 2));
    assert!(m.attributes.iter().all(|a| a.data_type == GL_FLOAT));
    assert_eq!(m.material_index, 2);
    assert_eq!(m.indices.len(), 3);
}

#[test]
fn attribute_layout_of_a_stream() {
    let a = Attribute::new(&[Vec4 { x: 1u32, y: 2, z: 3, w: 4 }], "aColor");
    assert_eq!(a.name, "aColor");
    assert_eq!(a.dimensions, 4);
    assert_eq!(a.stride, 16);
    assert_eq!(a.data_type, GL_UNSIGNED_INT);
}

#[test]
fn mesh_attributes_pair_with_program_locations() {
    let mesh_attributes = vec![
        Attribute { name: VERTEX_ATTRIBUTE_NAME.to_string(), dimensions: 3, stride: 12, data_type: GL_FLOAT },
        Attribute { name: NORMAL_ATTRIBUTE_NAME.to_string(), dimensions: 3, stride: 12, data_type: GL_FLOAT },
    ];
    let program = ShaderProgram {
        name: "p".to_string(),
        handle: 1,
        vert_shader_handle: 0,
        frag_shader_handle: 0,
        attributes: vec![
            ShaderProgramAttribute { location: 5, name: NORMAL_ATTRIBUTE_NAME.to_string() },
            ShaderProgramAttribute { location: 6, name: "aMissing".to_string() },
            ShaderProgramAttribute { location: 7, name: VERTEX_ATTRIBUTE_NAME.to_string() },
        ],
        scalar_uniforms: Vec::new(),
        array_uniforms: Vec::new(),
        sampler_2d: Vec::new(),
        outputs: Vec::new(),
    };
    assert_eq!(attribute_bindings(&mesh_attributes, &program), vec![(5, 1), (7, 0)]);
}
