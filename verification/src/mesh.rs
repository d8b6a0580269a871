//! Meshes: vertex streams on the host, and their buffers on the device.

use vstd::prelude::*;
use crate::math::{Vec1, Vec2, Vec3, VecDimensions, VecGLTypeTrait};
use crate::tex::GL_FLOAT;
use crate::text::owned;
use crate::shader::ShaderProgram;

verus! {

pub const VERTEX_ATTRIBUTE_NAME: &'static str = "aPosition";
pub const NORMAL_ATTRIBUTE_NAME: &'static str = "aNormal";
pub const TANGENT_ATTRIBUTE_NAME: &'static str = "aTangent";
pub const BITANGENT_ATTRIBUTE_NAME: &'static str = "aBitangent";
pub const UV_ATTRIBUTE_NAME: &'static str = "aUV";

/// The layout of one vertex stream: its shader name, component count, stride in bytes and
/// OpenGL component type.
#[derive(Clone)]
pub struct Attribute {
    pub name: String,
    pub dimensions: i32,
    pub stride: i32,
    pub data_type: u32,
}

/// The vertex streams of a mesh on the host; `F` is the scalar of positions, directions
/// and texture coordinates.
pub struct HostMesh<F> {
    pub name: String,
    pub attributes: Vec<Attribute>,
    pub material_index: usize,
    pub vertices: Vec<Vec3<F>>,
    pub normals: Vec<Vec3<F>>,
    pub tangents: Vec<Vec3<F>>,
    pub bitangents: Vec<Vec3<F>>,
    pub uvs: Vec<Vec2<F>>,
    pub indices: Vec<Vec1<u32>>,
}

/// A mesh on the device: its vertex array, one buffer per attribute, and its index buffer.
pub struct DeviceMesh {
    pub name: String,
    pub vao: u32,
    pub index_count: u32,
    pub attributes: Vec<Attribute>,
    pub vbos: Vec<u32>,
    pub indices: u32,
    pub material_index: usize,
}

impl Attribute {
    /// The layout of a stream of `T`, named `name`.
    pub fn new<T>(_data: &[T], name: &str) -> (r: Attribute)
        where T: VecDimensions<T> + VecGLTypeTrait,
        ensures
            r.name@ == name@,
            r.dimensions == T::DIMENSIONS as i32,
            r.stride == vstd::layout::size_of::<T>() as i32,
            r.data_type == T::GL_TYPE,
    {
        Attribute {
            name: owned(name),
            dimensions: T::DIMENSIONS as i32,
            stride: core::mem::size_of::<T>() as i32,
            data_type: T::GL_TYPE,
        }
    }
}

/// The layout of a stream of floating-point vectors of type `V` with `dimensions`
/// components.
fn float_attribute<V>(name: &str, dimensions: i32) -> (r: Attribute)
    ensures
        r.name@ == name@,
        r.dimensions == dimensions,
        r.stride == vstd::layout::size_of::<V>() as i32,
        r.data_type == GL_FLOAT,
{
    Attribute {
        name: owned(name),
        dimensions,
        stride: core::mem::size_of::<V>() as i32,
        data_type: GL_FLOAT,
    }
}

/// The attribute names of the non-empty streams, in the order positions, normals,
/// tangents, bitangents, texture coordinates.
pub open spec fn mesh_attribute_names(
    has_normals: bool,
    has_tangents: bool,
    has_bitangents: bool,
    has_uvs: bool,
) -> Seq<Seq<char>> {
    seq![VERTEX_ATTRIBUTE_NAME@]
        + (if has_normals { seq![NORMAL_ATTRIBUTE_NAME@] } else { Seq::empty() })
        + (if has_tangents { seq![TANGENT_ATTRIBUTE_NAME@] } else { Seq::empty() })
        + (if has_bitangents { seq![BITANGENT_ATTRIBUTE_NAME@] } else { Seq::empty() })
        + (if has_uvs { seq![UV_ATTRIBUTE_NAME@] } else { Seq::empty() })
}

fn create_mesh_attributes<F>(
    vertices: &Vec<Vec3<F>>,
    normals: &Vec<Vec3<F>>,
    tangents: &Vec<Vec3<F>>,
    bitangents: &Vec<Vec3<F>>,
    uvs: &Vec<Vec2<F>>,
) -> (r: Vec<Attribute>)
    requires
        vertices@.len() > 0,
    ensures
        r@.map_values(|a: Attribute| a.name@) == mesh_attribute_names(
            normals@.len() > 0,
            tangents@.len() > 0,
            bitangents@.len() > 0,
            uvs@.len() > 0,
        ),
        forall|i: int| 0 <= i < r@.len() ==> (#[trigger] r@[i]).data_type == GL_FLOAT,
        forall|i: int|
            0 <= i < r@.len() ==> (#[trigger] r@[i]).dimensions == if r@[i].name@ == UV_ATTRIBUTE_NAME@ {
                2i32
            } else {
                3i32
            },
{
    let mut attributes: Vec<Attribute> = Vec::new();
    let ghost mut names: Seq<Seq<char>> = Seq::empty();
    if vertices.len() > 0 {
        attributes.push(float_attribute::<Vec3<F>>(VERTEX_ATTRIBUTE_NAME, 3));
    }
    if normals.len() > 0 {
        attributes.push(float_attribute::<Vec3<F>>(NORMAL_ATTRIBUTE_NAME, 3));
    }
    if tangents.len() > 0 {
        attributes.push(float_attribute::<Vec3<F>>(TANGENT_ATTRIBUTE_NAME, 3));
    }
    if bitangents.len() > 0 {
        attributes.push(float_attribute::<Vec3<F>>(BITANGENT_ATTRIBUTE_NAME, 3));
    }
    if uvs.len() > 0 {
        attributes.push(float_attribute::<Vec2<F>>(UV_ATTRIBUTE_NAME, 2));
    }
    proof {
        reveal_strlit("aPosition");
        reveal_strlit("aNormal");
        reveal_strlit("aTangent");
        reveal_strlit("aBitangent");
        reveal_strlit("aUV");
        assert(VERTEX_ATTRIBUTE_NAME@.len() != UV_ATTRIBUTE_NAME@.len());
        assert(NORMAL_ATTRIBUTE_NAME@.len() != UV_ATTRIBUTE_NAME@.len());
        assert(VERTEX_ATTRIBUTE_NAME@ != UV_ATTRIBUTE_NAME@);
        assert(NORMAL_ATTRIBUTE_NAME@ != UV_ATTRIBUTE_NAME@);
        assert(TANGENT_ATTRIBUTE_NAME@ != UV_ATTRIBUTE_NAME@);
        assert(BITANGENT_ATTRIBUTE_NAME@ != UV_ATTRIBUTE_NAME@);
    }
    assert(attributes@.map_values(|a: Attribute| a.name@) =~= mesh_attribute_names(
        normals@.len() > 0,
        tangents@.len() > 0,
        bitangents@.len() > 0,
        uvs@.len() > 0,
    ));
    attributes
}

impl<F> HostMesh<F> {
    /// A mesh with the given streams and one attribute per non-empty stream. A mesh always
    /// has vertices.
    pub fn new(
        name: String,
        material_index: usize,
        vertices: Vec<Vec3<F>>,
        normals: Vec<Vec3<F>>,
        tangents: Vec<Vec3<F>>,
        bitangents: Vec<Vec3<F>>,
        uvs: Vec<Vec2<F>>,
        indices: Vec<Vec1<u32>>,
    ) -> (r: HostMesh<F>)
        requires
            vertices@.len() > 0,
        ensures
            r.name == name,
            r.material_index == material_index,
            r.vertices@ == vertices@,
            r.normals@ == normals@,
            r.tangents@ == tangents@,
            r.bitangents@ == bitangents@,
            r.uvs@ == uvs@,
            r.indices@ == indices@,
            r.attributes@.map_values(|a: Attribute| a.name@) == mesh_attribute_names(
                normals@.len() > 0,
                tangents@.len() > 0,
                bitangents@.len() > 0,
                uvs@.len() > 0,
            ),
            forall|i: int| 0 <= i < r.attributes@.len() ==> (#[trigger] r.attributes@[i]).data_type == GL_FLOAT,
    {
        let attributes = create_mesh_attributes(&vertices, &normals, &tangents, &bitangents, &uvs);
        HostMesh {
            name,
            attributes,
            material_index,
            vertices,
            normals,
            tangents,
            bitangents,
            uvs,
            indices,
        }
    }
}


/// For each attribute of `program`, in order, each attribute of the mesh with its name:
/// the program attribute's location and the position of the mesh attribute.
pub open spec fn attribute_pairs(mesh_attributes: Seq<Attribute>, program_attributes: Seq<crate::shader::ShaderProgramAttribute>) -> Seq<(u32, usize)>
    decreases program_attributes.len(),
{
    if program_attributes.len() == 0 {
        Seq::empty()
    } else {
        let p = program_attributes.last();
        attribute_pairs(mesh_attributes, program_attributes.drop_last()) + matching_attributes(mesh_attributes, p.name@, p.location, mesh_attributes.len() as int)
    }
}

/// The positions below `k` of the mesh attributes named `name`, each with `location`.
pub open spec fn matching_attributes(mesh_attributes: Seq<Attribute>, name: Seq<char>, location: u32, k: int) -> Seq<(u32, usize)>
    decreases k,
{
    if k <= 0 {
        Seq::empty()
    } else {
        let before = matching_attributes(mesh_attributes, name, location, k - 1);
        if mesh_attributes[k - 1].name@ == name {
            before.push((location, (k - 1) as usize))
        } else {
            before
        }
    }
}

/// Which vertex buffer of a mesh feeds which attribute location of `program`: the pairs
/// that binding the mesh to the program sets up, in the order it sets them up.
pub fn attribute_bindings(mesh_attributes: &Vec<Attribute>, program: &ShaderProgram) -> (r: Vec<(u32, usize)>)
    ensures
        r@ == attribute_pairs(mesh_attributes@, program.attributes@),
{
    let mut pairs: Vec<(u32, usize)> = Vec::new();
    let m = program.attributes.len();
    let n = mesh_attributes.len();
    let mut p: usize = 0;
    assert(program.attributes@.take(0) =~= Seq::<crate::shader::ShaderProgramAttribute>::empty());
    while p < m
        invariant
            m == program.attributes@.len(),
            n == mesh_attributes@.len(),
            p <= m,
            pairs@ == attribute_pairs(mesh_attributes@, program.attributes@.take(p as int)),
        decreases m - p,
    {
        let ghost start = pairs@;
        let name = &program.attributes[p].name;
        let location = program.attributes[p].location;
        let mut i: usize = 0;
        while i < n
            invariant
                n == mesh_attributes@.len(),
                i <= n,
                pairs@ == start + matching_attributes(mesh_attributes@, name@, location, i as int),
            decreases n - i,
        {
            if mesh_attributes[i].name.eq(name) {
                pairs.push((location, i));
            }
            assert(pairs@ =~= start + matching_attributes(mesh_attributes@, name@, location, i + 1));
            i += 1;
        }
        proof {
            let t = program.attributes@.take(p + 1);
            assert(t.drop_last() =~= program.attributes@.take(p as int));
            assert(t.last() == program.attributes@[p as int]);
        }
        p += 1;
    }
    assert(program.attributes@.take(m as int) =~= program.attributes@);
    pairs
}


/// The points of a flat array of coordinates, three coordinates each.
pub fn chunk_vec3<F: Copy>(flat: &Vec<F>) -> (r: Vec<Vec3<F>>)
    requires
        flat@.len() % 3 == 0,
    ensures
        r@.len() == flat@.len() / 3,
        forall|i: int|
            0 <= i < r@.len() ==> #[trigger] r@[i] == (Vec3 { x: flat@[3 * i], y: flat@[3 * i + 1], z: flat@[3 * i + 2] }),
{
    let mut out: Vec<Vec3<F>> = Vec::new();
    let n = flat.len();
    let mut i: usize = 0;
    while i < n
        invariant
            n == flat@.len(),
            n % 3 == 0,
            i % 3 == 0,
            i <= n,
            out@.len() == i / 3,
            forall|k: int|
                0 <= k < out@.len() ==> #[trigger] out@[k] == (Vec3 {
                    x: flat@[3 * k],
                    y: flat@[3 * k + 1],
                    z: flat@[3 * k + 2],
                }),
        decreases n - i,
    {
        out.push(Vec3 { x: flat[i], y: flat[i + 1], z: flat[i + 2] });
        i += 3;
    }
    out
}

/// The points of a flat array of coordinates, two coordinates each.
pub fn chunk_vec2<F: Copy>(flat: &Vec<F>) -> (r: Vec<Vec2<F>>)
    requires
        flat@.len() % 2 == 0,
    ensures
        r@.len() == flat@.len() / 2,
        forall|i: int| 0 <= i < r@.len() ==> #[trigger] r@[i] == (Vec2 { x: flat@[2 * i], y: flat@[2 * i + 1] }),
{
    let mut out: Vec<Vec2<F>> = Vec::new();
    let n = flat.len();
    let mut i: usize = 0;
    while i < n
        invariant
            n == flat@.len(),
            n % 2 == 0,
            i % 2 == 0,
            i <= n,
            out@.len() == i / 2,
            forall|k: int| 0 <= k < out@.len() ==> #[trigger] out@[k] == (Vec2 { x: flat@[2 * k], y: flat@[2 * k + 1] }),
        decreases n - i,
    {
        out.push(Vec2 { x: flat[i], y: flat[i + 1] });
        i += 2;
    }
    out
}

/// Each index as a one-component vector.
pub fn wrap_indices(flat: &Vec<u32>) -> (r: Vec<Vec1<u32>>)
    ensures
        r@.len() == flat@.len(),
        forall|i: int| 0 <= i < r@.len() ==> (#[trigger] r@[i]).x == flat@[i],
{
    let mut out: Vec<Vec1<u32>> = Vec::new();
    let n = flat.len();
    let mut i: usize = 0;
    while i < n
        invariant
            n == flat@.len(),
            i <= n,
            out@.len() == i,
            forall|k: int| 0 <= k < i ==> (#[trigger] out@[k]).x == flat@[k],
        decreases n - i,
    {
        out.push(Vec1 { x: flat[i] });
        i += 1;
    }
    out
}

/// What is wrong with the streams of a mesh read from an OBJ file, if anything: it needs
/// positions and indices, a normal per position if it has normals, and a texture
/// coordinate per vertex if it has texture coordinates.
pub open spec fn obj_mesh_problem(positions: nat, normals: nat, texcoords: nat, indices: nat) -> Option<Seq<char>> {
    if positions == 0 {
        Some("Model must have vertices."@)
    } else if indices == 0 {
        Some("Model must have indices."@)
    } else if !(positions == normals || normals == 0) {
        Some("Every vertex must have a normal if there are normals."@)
    } else if !(positions / 3 == texcoords / 2 || texcoords == 0) {
        Some("Every vertex must have a uv if there are uvs."@)
    } else {
        None
    }
}

/// Checks the stream lengths of a mesh read from an OBJ file.
pub fn check_obj_mesh(positions: usize, normals: usize, texcoords: usize, indices: usize) -> (r: Result<(), String>)
    ensures
        match r {
            Ok(()) => obj_mesh_problem(positions as nat, normals as nat, texcoords as nat, indices as nat) is None,
            Err(m) => obj_mesh_problem(positions as nat, normals as nat, texcoords as nat, indices as nat) == Some(m@),
        },
{
    if positions == 0 {
        Err(owned("Model must have vertices."))
    } else if indices == 0 {
        Err(owned("Model must have indices."))
    } else if !(positions == normals || normals == 0) {
        Err(owned("Every vertex must have a normal if there are normals."))
    } else if !(positions / 3 == texcoords / 2 || texcoords == 0) {
        Err(owned("Every vertex must have a uv if there are uvs."))
    } else {
        Ok(())
    }
}

/// The meshes and materials of a model on the host.
pub struct HostModel<F> {
    pub meshes: Vec<HostMesh<F>>,
    pub materials: Vec<crate::material::HostMaterial<F>>,
}

} // verus!
