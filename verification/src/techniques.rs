//! The techniques the renderer draws with: what each provides to the shaders, and how a
//! frame updates them. Matrices and vectors are computed by the caller.

use std::rc::Rc;
use vstd::prelude::*;
use crate::math::{Mat4x4, Vec1, Vec3};
use crate::tech::{Technique, technique_is_empty};
use crate::tex::DeviceTexture;
use crate::text::same_text_str;
use crate::uniform::{PerModelUnifrom, TextureSampler, Uniform};

verus! {

/// `u` is a uniform named `name` holding `data`, bound to no program.
pub open spec fn uniform_is<T>(u: Uniform<T>, name: Seq<char>, data: Seq<T>) -> bool {
    &&& u.name@ == name
    &&& u.data_location.data@ == data
    &&& u.data_location.locations@.len() == 0
}

/// `s` is a sampler named `name` for `texture`, bound to no program.
pub open spec fn sampler_is(s: TextureSampler, name: Seq<char>, texture: Rc<DeviceTexture>) -> bool {
    &&& s.name@ == name
    &&& s.texture == texture
    &&& s.bindings@.len() == 0
}

/// `i` is the first uniform of `us` named `name`.
pub open spec fn is_first_named<T>(us: Seq<Uniform<T>>, name: Seq<char>, i: int) -> bool {
    &&& 0 <= i < us.len()
    &&& us[i].name@ == name
    &&& forall|j: int| 0 <= j < i ==> us[j].name@ != name
}

/// The first uniform of `us` named `name` has at least one value.
pub open spec fn has_value_named<T>(us: Seq<Uniform<T>>, name: Seq<char>) -> bool {
    exists|i: int| is_first_named(us, name, i) && us[i].data_location.data@.len() > 0
}

/// `new` is `old` with the first value of the first uniform named `name` set to `value`.
pub open spec fn value_set<T>(old: Seq<Uniform<T>>, new: Seq<Uniform<T>>, name: Seq<char>, value: T) -> bool {
    exists|i: int|
        is_first_named(old, name, i) && new == old.update(
            i,
            Uniform {
                name: old[i].name,
                data_location: crate::uniform::UniformDataLoction {
                    locations: old[i].data_location.locations,
                    data: new[i].data_location.data,
                },
            },
        ) && new[i].data_location.data@ == old[i].data_location.data@.update(0, value)
}

/// Sets the first value of the first uniform named `name`, which must exist and hold a value.
pub fn set_uniform_value<T: Copy>(uniforms: &mut Vec<Uniform<T>>, name: &str, value: T)
    requires
        has_value_named(old(uniforms)@, name@),
    ensures
        value_set(old(uniforms)@, final(uniforms)@, name@, value),
{
    let ghost w = choose|i: int| is_first_named(uniforms@, name@, i) && uniforms@[i].data_location.data@.len() > 0;
    let n = uniforms.len();
    let mut i: usize = 0;
    while i < n
        invariant
            n == uniforms@.len(),
            uniforms@ == old(uniforms)@,
            i <= n,
            is_first_named(uniforms@, name@, w),
            uniforms@[w].data_location.data@.len() > 0,
            forall|j: int| 0 <= j < i ==> uniforms@[j].name@ != name@,
        decreases n - i,
    {
        if same_text_str(&uniforms[i].name, name) {
            assert(i as int == w) by {
                if (i as int) < w {
                    assert(uniforms@[i as int].name@ != name@);
                } else if (i as int) > w {
                    assert(uniforms@[w].name@ != name@);
                }
            }
            uniforms[i].data_location.data.set(0, value);
            proof {
                let old_u = old(uniforms)@[w];
                assert(uniforms@ =~= old(uniforms)@.update(
                    w,
                    Uniform {
                        name: old_u.name,
                        data_location: crate::uniform::UniformDataLoction {
                            locations: old_u.data_location.locations,
                            data: uniforms@[w].data_location.data,
                        },
                    },
                ));
            }
            return;
        }
        i += 1;
    }
}

fn uniform_of<T>(name: &str, value: T) -> (r: Uniform<T>)
    ensures
        uniform_is(r, name@, seq![value]),
{
    let data = vec![value];
    assert(data@ =~= seq![value]);
    Uniform::new(name, data)
}

/// The technique that places models: the projection and view matrices per frame, and one
/// model matrix per model.
pub fn create_mvp<F: Copy>(projection: Mat4x4<F>, view: Mat4x4<F>, transforms: &Vec<Mat4x4<F>>) -> (r: Technique<F>)
    ensures
        r.name@ == "MVP"@,
        r.per_frame_uniforms.mat4x4f@.len() == 2,
        uniform_is(r.per_frame_uniforms.mat4x4f@[0], "uProjMat4"@, seq![projection]),
        uniform_is(r.per_frame_uniforms.mat4x4f@[1], "uViewMat4"@, seq![view]),
        r.per_model_uniforms.mat4x4f@.len() == 1,
        r.per_model_uniforms.mat4x4f@[0].name@ == "uModelMat4"@,
        r.per_model_uniforms.mat4x4f@[0].data_locations@.len() == transforms@.len(),
        forall|k: int|
            0 <= k < transforms@.len() ==> (#[trigger] r.per_model_uniforms.mat4x4f@[0].data_locations@[k]).data@
                == seq![transforms@[k]] && r.per_model_uniforms.mat4x4f@[0].data_locations@[k].locations@.len() == 0,
        r.per_frame_uniforms.vec1f@.len() == 0,
        r.per_frame_uniforms.vec1u@.len() == 0,
        r.per_frame_uniforms.vec2f@.len() == 0,
        r.per_frame_uniforms.vec3f@.len() == 0,
        r.per_model_uniforms.vec1f@.len() == 0,
        r.per_model_uniforms.vec1u@.len() == 0,
        r.per_model_uniforms.vec2f@.len() == 0,
        r.per_model_uniforms.vec3f@.len() == 0,
        r.textures@.len() == 0,
{
    let mut technique = Technique::new("MVP");
    technique.per_frame_uniforms.mat4x4f = vec![uniform_of("uProjMat4", projection), uniform_of("uViewMat4", view)];
    let mut blocks: Vec<Vec<Mat4x4<F>>> = Vec::new();
    let n = transforms.len();
    let mut k: usize = 0;
    while k < n
        invariant
            n == transforms@.len(),
            k <= n,
            blocks@.len() == k,
            forall|j: int| 0 <= j < k ==> (#[trigger] blocks@[j])@ == seq![transforms@[j]],
        decreases n - k,
    {
        let block = vec![transforms[k]];
        assert(block@ =~= seq![transforms@[k as int]]);
        blocks.push(block);
        k += 1;
    }
    technique.per_model_uniforms.mat4x4f = vec![PerModelUnifrom::new("uModelMat4", blocks)];
    proof {
        reveal_strlit("MVP");
    }
    technique
}

/// `new` is `old` with at most the per-frame lists that the flags name changed (its
/// vec1f, vec3f and mat4x4f uniforms): the same name, the same other per-frame uniforms,
/// per-model uniforms and textures.
pub open spec fn technique_kept_except<F>(
    old: Technique<F>,
    new: Technique<F>,
    vec1f_may_change: bool,
    vec3f_may_change: bool,
    mat4x4f_may_change: bool,
) -> bool {
    &&& new.name == old.name
    &&& !vec1f_may_change ==> new.per_frame_uniforms.vec1f == old.per_frame_uniforms.vec1f
    &&& new.per_frame_uniforms.vec1u == old.per_frame_uniforms.vec1u
    &&& new.per_frame_uniforms.vec2f == old.per_frame_uniforms.vec2f
    &&& !vec3f_may_change ==> new.per_frame_uniforms.vec3f == old.per_frame_uniforms.vec3f
    &&& !mat4x4f_may_change ==> new.per_frame_uniforms.mat4x4f == old.per_frame_uniforms.mat4x4f
    &&& new.per_model_uniforms == old.per_model_uniforms
    &&& new.textures == old.textures
}

/// Updates the MVP technique for a frame: its view and projection matrices.
pub fn update_mvp<F: Copy>(technique: &mut Technique<F>, view: Mat4x4<F>, projection: Mat4x4<F>)
    requires
        has_value_named(old(technique).per_frame_uniforms.mat4x4f@, "uViewMat4"@),
        has_value_named(old(technique).per_frame_uniforms.mat4x4f@, "uProjMat4"@),
    ensures
        exists|mid: Seq<Uniform<Mat4x4<F>>>|
            value_set(old(technique).per_frame_uniforms.mat4x4f@, mid, "uViewMat4"@, view) && #[trigger] value_set(
                mid,
                final(technique).per_frame_uniforms.mat4x4f@,
                "uProjMat4"@,
                projection,
            ),
        technique_kept_except(*old(technique), *final(technique), false, false, true),
{
    set_uniform_value(&mut technique.per_frame_uniforms.mat4x4f, "uViewMat4", view);
    let ghost mid = technique.per_frame_uniforms.mat4x4f@;
    proof {
        lemma_value_set_keeps_named(
            old(technique).per_frame_uniforms.mat4x4f@,
            mid,
            "uViewMat4"@,
            view,
            "uProjMat4"@,
        );
    }
    set_uniform_value(&mut technique.per_frame_uniforms.mat4x4f, "uProjMat4", projection);
    assert(value_set(old(technique).per_frame_uniforms.mat4x4f@, mid, "uViewMat4"@, view));
    assert(value_set(mid, technique.per_frame_uniforms.mat4x4f@, "uProjMat4"@, projection));
}

proof fn lemma_value_set_keeps_named<T>(old: Seq<Uniform<T>>, new: Seq<Uniform<T>>, name: Seq<char>, value: T, other: Seq<char>)
    requires
        value_set(old, new, name, value),
        has_value_named(old, other),
    ensures
        has_value_named(new, other),
{
    let i = choose|i: int|
        is_first_named(old, name, i) && new == old.update(
            i,
            Uniform {
                name: old[i].name,
                data_location: crate::uniform::UniformDataLoction {
                    locations: old[i].data_location.locations,
                    data: new[i].data_location.data,
                },
            },
        ) && new[i].data_location.data@ == old[i].data_location.data@.update(0, value);
    let w = choose|w: int| is_first_named(old, other, w) && old[w].data_location.data@.len() > 0;
    assert(is_first_named(new, other, w));
    assert(new[w].data_location.data@.len() > 0);
}

/// The technique that lights models: the camera position per frame, and the diffuse
/// irradiance, BRDF lookup and environment textures.
pub fn create_lighting<F: Copy>(
    diffuse_cubemap: Rc<DeviceTexture>,
    brdf_lut_texture: Rc<DeviceTexture>,
    env_map_cubemap: Rc<DeviceTexture>,
    camera_pos: Vec3<F>,
) -> (r: Technique<F>)
    ensures
        r.name@ == "Lighting"@,
        r.per_frame_uniforms.vec3f@.len() == 1,
        uniform_is(r.per_frame_uniforms.vec3f@[0], "uCameraPosVec3"@, seq![camera_pos]),
        r.textures@.len() == 3,
        sampler_is(r.textures@[0], "uDiffuseSamplerCube"@, diffuse_cubemap),
        sampler_is(r.textures@[1], "uBrdfLUTSampler2D"@, brdf_lut_texture),
        sampler_is(r.textures@[2], "uEnvMapSamplerCube"@, env_map_cubemap),
        r.per_frame_uniforms.vec1f@.len() == 0,
        r.per_frame_uniforms.mat4x4f@.len() == 0,
        r.per_model_uniforms.mat4x4f@.len() == 0,
{
    let mut technique = Technique::new("Lighting");
    technique.per_frame_uniforms.vec3f = vec![uniform_of("uCameraPosVec3", camera_pos)];
    technique.textures = vec![
        TextureSampler::new("uDiffuseSamplerCube", diffuse_cubemap),
        TextureSampler::new("uBrdfLUTSampler2D", brdf_lut_texture),
        TextureSampler::new("uEnvMapSamplerCube", env_map_cubemap),
    ];
    technique
}

/// Updates the lighting technique for a frame: the camera position.
pub fn update_lighting<F: Copy>(technique: &mut Technique<F>, camera_pos: Vec3<F>)
    requires
        has_value_named(old(technique).per_frame_uniforms.vec3f@, "uCameraPosVec3"@),
    ensures
        value_set(old(technique).per_frame_uniforms.vec3f@, final(technique).per_frame_uniforms.vec3f@, "uCameraPosVec3"@, camera_pos),
        technique_kept_except(*old(technique), *final(technique), false, true, false),
{
    set_uniform_value(&mut technique.per_frame_uniforms.vec3f, "uCameraPosVec3", camera_pos);
}

/// The technique that draws the sky box: projection, view and model matrices per frame,
/// and the sky box texture.
pub fn create_skybox<F: Copy>(
    skybox: Rc<DeviceTexture>,
    projection: Mat4x4<F>,
    view: Mat4x4<F>,
    model: Mat4x4<F>,
) -> (r: Technique<F>)
    ensures
        r.name@ == "Skybox"@,
        r.per_frame_uniforms.mat4x4f@.len() == 3,
        uniform_is(r.per_frame_uniforms.mat4x4f@[0], "uProjMat4"@, seq![projection]),
        uniform_is(r.per_frame_uniforms.mat4x4f@[1], "uViewMat4"@, seq![view]),
        uniform_is(r.per_frame_uniforms.mat4x4f@[2], "uModelMat4"@, seq![model]),
        r.textures@.len() == 1,
        sampler_is(r.textures@[0], "uSkyboxSamplerCube"@, skybox),
        r.per_model_uniforms.mat4x4f@.len() == 0,
{
    let mut technique = Technique::new("Skybox");
    technique.per_frame_uniforms.mat4x4f = vec![
        uniform_of("uProjMat4", projection),
        uniform_of("uViewMat4", view),
        uniform_of("uModelMat4", model),
    ];
    technique.textures = vec![TextureSampler::new("uSkyboxSamplerCube", skybox)];
    technique
}

/// Updates the sky box technique for a frame: its view and projection matrices.
pub fn update_skybox<F: Copy>(technique: &mut Technique<F>, view: Mat4x4<F>, projection: Mat4x4<F>)
    requires
        has_value_named(old(technique).per_frame_uniforms.mat4x4f@, "uViewMat4"@),
        has_value_named(old(technique).per_frame_uniforms.mat4x4f@, "uProjMat4"@),
    ensures
        exists|mid: Seq<Uniform<Mat4x4<F>>>|
            value_set(old(technique).per_frame_uniforms.mat4x4f@, mid, "uViewMat4"@, view) && #[trigger] value_set(
                mid,
                final(technique).per_frame_uniforms.mat4x4f@,
                "uProjMat4"@,
                projection,
            ),
        technique_kept_except(*old(technique), *final(technique), false, false, true),
{
    update_mvp(technique, view, projection);
}

/// The tone mapping technique, which provides nothing.
pub fn create_tone_mapping<F>() -> (r: Technique<F>)
    ensures
        r.name@ == "Tone Mapping"@,
        technique_is_empty(r),
{
    Technique::new("Tone Mapping")
}

/// The technique that renders an equirectangular image into the faces of a cube map: the
/// projection and an identity view matrix per frame, and the image.
pub fn create_hdri_to_cube<F: Copy + From<u16>>(projection: Mat4x4<F>, hdri_texture: Rc<DeviceTexture>) -> (r: Technique<F>)
    ensures
        r.name@ == "HDRI 2 Cube"@,
        r.per_frame_uniforms.mat4x4f@.len() == 2,
        uniform_is(r.per_frame_uniforms.mat4x4f@[0], "uProjMat4"@, seq![projection]),
        r.per_frame_uniforms.mat4x4f@[1].name@ == "uViewMat4"@,
        r.per_frame_uniforms.mat4x4f@[1].data_location.data@.len() == 1,
        r.textures@.len() == 1,
        sampler_is(r.textures@[0], "uHdriSampler2D"@, hdri_texture),
{
    let mut technique = Technique::new("HDRI 2 Cube");
    technique.per_frame_uniforms.mat4x4f = vec![
        uniform_of("uProjMat4", projection),
        uniform_of("uViewMat4", Mat4x4::identity()),
    ];
    technique.textures = vec![TextureSampler::new("uHdriSampler2D", hdri_texture)];
    technique
}

/// The technique that convolves a cube map into diffuse irradiance: the projection and an
/// identity view matrix per frame, and the cube map.
pub fn create_diffuse_cubemap_convolution<F: Copy + From<u16>>(
    projection: Mat4x4<F>,
    specular_cubemap: Rc<DeviceTexture>,
) -> (r: Technique<F>)
    ensures
        r.name@ == "Diffuse Cubemap Convolution"@,
        r.per_frame_uniforms.mat4x4f@.len() == 2,
        uniform_is(r.per_frame_uniforms.mat4x4f@[0], "uProjMat4"@, seq![projection]),
        r.per_frame_uniforms.mat4x4f@[1].name@ == "uViewMat4"@,
        r.per_frame_uniforms.mat4x4f@[1].data_location.data@.len() == 1,
        r.textures@.len() == 1,
        sampler_is(r.textures@[0], "uSkyboxSamplerCube"@, specular_cubemap),
{
    let mut technique = Technique::new("Diffuse Cubemap Convolution");
    technique.per_frame_uniforms.mat4x4f = vec![
        uniform_of("uProjMat4", projection),
        uniform_of("uViewMat4", Mat4x4::identity()),
    ];
    technique.textures = vec![TextureSampler::new("uSkyboxSamplerCube", specular_cubemap)];
    technique
}

/// The BRDF integration technique, which provides nothing.
pub fn create_brdf_integration_map<F>() -> (r: Technique<F>)
    ensures
        r.name@ == "BRDF Integration Map"@,
        technique_is_empty(r),
{
    Technique::new("BRDF Integration Map")
}

/// The technique that prefilters a cube map for one roughness: the roughness, the
/// projection and an identity view matrix per frame, and the cube map.
pub fn create_prefiltered_environment_map<F: Copy + From<u16>>(
    projection: Mat4x4<F>,
    specular_cubemap: Rc<DeviceTexture>,
    roughness: F,
) -> (r: Technique<F>)
    ensures
        r.name@ == "Prefiltered Environment Map"@,
        r.per_frame_uniforms.vec1f@.len() == 1,
        uniform_is(r.per_frame_uniforms.vec1f@[0], "uScalarRoughnessVec1f"@, seq![Vec1 { x: roughness }]),
        r.per_frame_uniforms.mat4x4f@.len() == 2,
        uniform_is(r.per_frame_uniforms.mat4x4f@[0], "uProjMat4"@, seq![projection]),
        r.per_frame_uniforms.mat4x4f@[1].name@ == "uViewMat4"@,
        r.per_frame_uniforms.mat4x4f@[1].data_location.data@.len() == 1,
        r.textures@.len() == 1,
        sampler_is(r.textures@[0], "uSkyboxSamplerCube"@, specular_cubemap),
{
    let mut technique = Technique::new("Prefiltered Environment Map");
    technique.per_frame_uniforms.vec1f = vec![uniform_of("uScalarRoughnessVec1f", Vec1 { x: roughness })];
    technique.per_frame_uniforms.mat4x4f = vec![
        uniform_of("uProjMat4", projection),
        uniform_of("uViewMat4", Mat4x4::identity()),
    ];
    technique.textures = vec![TextureSampler::new("uSkyboxSamplerCube", specular_cubemap)];
    technique
}

/// Updates a prefiltering technique for one face and roughness.
pub fn update_prefiltered_environment_map<F: Copy>(technique: &mut Technique<F>, view: Mat4x4<F>, roughness: F)
    requires
        has_value_named(old(technique).per_frame_uniforms.mat4x4f@, "uViewMat4"@),
        has_value_named(old(technique).per_frame_uniforms.vec1f@, "uScalarRoughnessVec1f"@),
    ensures
        value_set(old(technique).per_frame_uniforms.mat4x4f@, final(technique).per_frame_uniforms.mat4x4f@, "uViewMat4"@, view),
        value_set(
            old(technique).per_frame_uniforms.vec1f@,
            final(technique).per_frame_uniforms.vec1f@,
            "uScalarRoughnessVec1f"@,
            Vec1 { x: roughness },
        ),
        technique_kept_except(*old(technique), *final(technique), true, false, true),
{
    set_uniform_value(&mut technique.per_frame_uniforms.mat4x4f, "uViewMat4", view);
    set_uniform_value(&mut technique.per_frame_uniforms.vec1f, "uScalarRoughnessVec1f", Vec1 { x: roughness });
}

/// Updates a cube map technique for one face: its view matrix.
pub fn update_cube_face<F: Copy>(technique: &mut Technique<F>, view: Mat4x4<F>)
    requires
        has_value_named(old(technique).per_frame_uniforms.mat4x4f@, "uViewMat4"@),
    ensures
        value_set(old(technique).per_frame_uniforms.mat4x4f@, final(technique).per_frame_uniforms.mat4x4f@, "uViewMat4"@, view),
        technique_kept_except(*old(technique), *final(technique), false, false, true),
{
    set_uniform_value(&mut technique.per_frame_uniforms.mat4x4f, "uViewMat4", view);
}

} // verus!
