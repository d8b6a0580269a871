//! Materials on the device: named uniform properties and texture samplers.

use vstd::prelude::*;
use crate::math::{Vec1, Vec3};
use crate::shader::{ShaderProgram, find_scalar_uniform_location};
use crate::text::{owned, push_str};
use crate::tex::{DeviceTexture, HostTexture};
use std::rc::Rc;
use crate::uniform::{
    SamplerProgramBinding, TextureSampler, Uniform, UniformProgramLocation, bindings_free_of, bindings_of_program,
    bound_bindings, bound_locations, lemma_unbind_undoes_bind, locations_free_of, remove_program_locations,
    without_program,
};

verus! {

/// A named value.
pub struct Property<T> {
    pub name: String,
    pub value: T,
}

/// The properties of a material on the host; `F` is the floating-point scalar.
pub struct HostMaterial<F> {
    pub name: String,
    pub properties_1u: Vec<Property<Vec1<u32>>>,
    pub properties_1f: Vec<Property<Vec1<F>>>,
    pub properties_3f: Vec<Property<Vec3<F>>>,
    pub properties_samplers: Vec<Property<HostTexture<F>>>,
}

/// The properties of a material on the device; `F` is the floating-point scalar.
pub struct DeviceMaterial<F> {
    pub name: String,
    pub properties_1u: Vec<Property<Uniform<Vec1<u32>>>>,
    pub properties_1f: Vec<Property<Uniform<Vec1<F>>>>,
    pub properties_3f: Vec<Property<Uniform<Vec3<F>>>>,
    pub properties_samplers: Vec<Property<TextureSampler>>,
}

/// `i` is the first property whose uniform is named `name`.
pub open spec fn is_first_property<T>(props: Seq<Property<Uniform<T>>>, name: Seq<char>, i: int) -> bool {
    &&& 0 <= i < props.len()
    &&& props[i].value.name@ == name
    &&& forall|j: int| 0 <= j < i ==> props[j].value.name@ != name
}

/// The first property whose uniform is named `name`, if any.
pub open spec fn property_index<T>(props: Seq<Property<Uniform<T>>>, name: Seq<char>) -> Option<int> {
    if exists|i: int| is_first_property(props, name, i) {
        Some(choose|i: int| is_first_property(props, name, i))
    } else {
        None
    }
}

/// The message of a property that is not found.
pub open spec fn missing_property_message(name: Seq<char>) -> Seq<char> {
    "Failed to find property: '"@ + name + "'"@
}

/// The message of a property that holds an array rather than one value.
pub open spec fn array_property_message(name: Seq<char>) -> Seq<char> {
    "Failed to set array property: '"@ + name + "'"@
}

/// `new` is `old` with the single value of the property named `name` set to `value`, or
/// unchanged with the matching error.
pub open spec fn property_set<T>(
    old: Seq<Property<Uniform<T>>>,
    new: Seq<Property<Uniform<T>>>,
    name: Seq<char>,
    value: T,
    r: Result<(), String>,
) -> bool {
    match property_index(old, name) {
        None => new == old && (r matches Err(m) && m@ == missing_property_message(name)),
        Some(i) => if old[i].value.data_location.data@.len() == 1 {
            &&& r is Ok
            &&& new.len() == old.len()
            &&& forall|j: int| 0 <= j < old.len() && j != i ==> #[trigger] new[j] == old[j]
            &&& new[i].name == old[i].name
            &&& new[i].value.name == old[i].value.name
            &&& new[i].value.data_location.locations == old[i].value.data_location.locations
            &&& new[i].value.data_location.data@ == seq![value]
        } else {
            new == old && (r matches Err(m) && m@ == array_property_message(name))
        },
    }
}

fn set_single_value<T>(props: &mut Vec<Property<Uniform<T>>>, name: &str, value: T) -> (r: Result<(), String>)
    ensures
        property_set(old(props)@, final(props)@, name@, value, r),
{
    let n = props.len();
    let mut i: usize = 0;
    while i < n
        invariant
            n == props@.len(),
            props@ == old(props)@,
            i <= n,
            forall|j: int| 0 <= j < i ==> props@[j].value.name@ != name@,
        decreases n - i,
    {
        if crate::text::same_text_str(&props[i].value.name, name) {
            proof {
                let s = props@;
                assert(is_first_property(s, name@, i as int));
                assert forall|k: int| is_first_property(s, name@, k) implies k == i by {
                    if k > i {
                        assert(s[i as int].value.name@ == name@);
                    }
                }
            }
            if props[i].value.data_location.data.len() == 1 {
                props[i].value.data_location.data.set(0, value);
                proof {
                    assert(props@[i as int].value.data_location.data@ =~= seq![value]);
                }
                return Ok(());
            }
            let mut msg = owned("Failed to set array property: '");
            push_str(&mut msg, name);
            push_str(&mut msg, "'");
            return Err(msg);
        }
        i += 1;
    }
    let mut msg = owned("Failed to find property: '");
    push_str(&mut msg, name);
    push_str(&mut msg, "'");
    Err(msg)
}

/// Binds one uniform to `program`: if the program declares a uniform of the same name, its
/// location is added.
pub(crate) fn bind_uniform<T>(program: &ShaderProgram, uniform: &mut Uniform<T>)
    requires
        locations_free_of(old(uniform).data_location.locations@, program.handle),
    ensures
        final(uniform).name == old(uniform).name,
        final(uniform).data_location.data == old(uniform).data_location.data,
        final(uniform).data_location.locations@ == bound_locations(
            old(uniform).data_location.locations@,
            *program,
            old(uniform).name@,
        ),
{
    if let Some(location) = find_scalar_uniform_location(program, &uniform.name) {
        uniform.data_location.locations.push(UniformProgramLocation { program: program.handle, location });
    }
}

/// Forgets the locations of program `handle` of one uniform.
pub(crate) fn unbind_uniform<T>(handle: u32, uniform: &mut Uniform<T>)
    ensures
        final(uniform).name == old(uniform).name,
        final(uniform).data_location.data == old(uniform).data_location.data,
        final(uniform).data_location.locations@ == without_program(old(uniform).data_location.locations@, handle),
{
    remove_program_locations(&mut uniform.data_location.locations, handle);
}

/// No uniform property of a group is bound to program `handle`.
pub open spec fn properties_free_of<T>(props: Seq<Property<Uniform<T>>>, handle: u32) -> bool {
    forall|i: int| 0 <= i < props.len() ==> locations_free_of(#[trigger] props[i].value.data_location.locations@, handle)
}

/// `new` is `old` with every uniform property bound to `program`.
pub open spec fn properties_bound<T>(
    old: Seq<Property<Uniform<T>>>,
    new: Seq<Property<Uniform<T>>>,
    program: ShaderProgram,
) -> bool {
    &&& new.len() == old.len()
    &&& forall|i: int|
        0 <= i < old.len() ==> {
            &&& (#[trigger] new[i]).name == old[i].name
            &&& new[i].value.name == old[i].value.name
            &&& new[i].value.data_location.data == old[i].value.data_location.data
            &&& new[i].value.data_location.locations@ == bound_locations(
                old[i].value.data_location.locations@,
                program,
                old[i].value.name@,
            )
        }
}

/// `new` is `old` with the locations of program `handle` removed from every property.
pub open spec fn properties_unbound<T>(
    old: Seq<Property<Uniform<T>>>,
    new: Seq<Property<Uniform<T>>>,
    handle: u32,
) -> bool {
    &&& new.len() == old.len()
    &&& forall|i: int|
        0 <= i < old.len() ==> {
            &&& (#[trigger] new[i]).name == old[i].name
            &&& new[i].value.name == old[i].value.name
            &&& new[i].value.data_location.data == old[i].value.data_location.data
            &&& new[i].value.data_location.locations@ == without_program(
                old[i].value.data_location.locations@,
                handle,
            )
        }
}

/// `new` is `old` with every sampler property bound to `program`.
pub open spec fn sampler_properties_bound(
    old: Seq<Property<TextureSampler>>,
    new: Seq<Property<TextureSampler>>,
    program: ShaderProgram,
) -> bool {
    &&& new.len() == old.len()
    &&& forall|i: int|
        0 <= i < old.len() ==> {
            &&& (#[trigger] new[i]).name == old[i].name
            &&& new[i].value.name == old[i].value.name
            &&& new[i].value.texture == old[i].value.texture
            &&& new[i].value.bindings@ == bound_bindings(old[i].value.bindings@, program, old[i].value.name@)
        }
}

/// `new` is `old` with every sampler property keeping only its bindings of program `handle`.
pub open spec fn sampler_properties_narrowed(
    old: Seq<Property<TextureSampler>>,
    new: Seq<Property<TextureSampler>>,
    handle: u32,
) -> bool {
    &&& new.len() == old.len()
    &&& forall|i: int|
        0 <= i < old.len() ==> {
            &&& (#[trigger] new[i]).name == old[i].name
            &&& new[i].value.name == old[i].value.name
            &&& new[i].value.texture == old[i].value.texture
            &&& new[i].value.bindings@ == bindings_of_program(old[i].value.bindings@, handle)
        }
}

/// No uniform property of the material is bound to program `handle`.
pub open spec fn material_free_of<F>(m: DeviceMaterial<F>, handle: u32) -> bool {
    &&& properties_free_of(m.properties_1u@, handle)
    &&& properties_free_of(m.properties_1f@, handle)
    &&& properties_free_of(m.properties_3f@, handle)
}

/// `new` is `old` with all its properties bound to `program`.
pub open spec fn material_bound<F>(old: DeviceMaterial<F>, new: DeviceMaterial<F>, program: ShaderProgram) -> bool {
    &&& new.name == old.name
    &&& sampler_properties_bound(old.properties_samplers@, new.properties_samplers@, program)
    &&& properties_bound(old.properties_1u@, new.properties_1u@, program)
    &&& properties_bound(old.properties_1f@, new.properties_1f@, program)
    &&& properties_bound(old.properties_3f@, new.properties_3f@, program)
}

/// `new` is `old` after unbinding program `handle`: uniform properties lose their locations
/// of the program, sampler properties keep only their bindings of the program.
pub open spec fn material_unbound<F>(old: DeviceMaterial<F>, new: DeviceMaterial<F>, handle: u32) -> bool {
    &&& new.name == old.name
    &&& sampler_properties_narrowed(old.properties_samplers@, new.properties_samplers@, handle)
    &&& properties_unbound(old.properties_1u@, new.properties_1u@, handle)
    &&& properties_unbound(old.properties_1f@, new.properties_1f@, handle)
    &&& properties_unbound(old.properties_3f@, new.properties_3f@, handle)
}

fn bind_properties<T>(program: &ShaderProgram, props: &mut Vec<Property<Uniform<T>>>)
    requires
        properties_free_of(old(props)@, program.handle),
    ensures
        properties_bound(old(props)@, final(props)@, *program),
{
    let n = props.len();
    let mut i: usize = 0;
    while i < n
        invariant
            n == props@.len(),
            n == old(props)@.len(),
            i <= n,
            properties_free_of(old(props)@, program.handle),
            forall|k: int|
                0 <= k < n ==> {
                    &&& (#[trigger] props@[k]).name == old(props)@[k].name
                    &&& props@[k].value.name == old(props)@[k].value.name
                    &&& props@[k].value.data_location.data == old(props)@[k].value.data_location.data
                    &&& props@[k].value.data_location.locations@ == if k < i {
                        bound_locations(old(props)@[k].value.data_location.locations@, *program, old(props)@[k].value.name@)
                    } else {
                        old(props)@[k].value.data_location.locations@
                    }
                },
        decreases n - i,
    {
        assert(locations_free_of(old(props)@[i as int].value.data_location.locations@, program.handle));
        bind_uniform(program, &mut props[i].value);
        i += 1;
    }
}

fn unbind_properties<T>(handle: u32, props: &mut Vec<Property<Uniform<T>>>)
    ensures
        properties_unbound(old(props)@, final(props)@, handle),
{
    let n = props.len();
    let mut i: usize = 0;
    while i < n
        invariant
            n == props@.len(),
            n == old(props)@.len(),
            i <= n,
            forall|k: int|
                0 <= k < n ==> {
                    &&& (#[trigger] props@[k]).name == old(props)@[k].name
                    &&& props@[k].value.name == old(props)@[k].value.name
                    &&& props@[k].value.data_location.data == old(props)@[k].value.data_location.data
                    &&& props@[k].value.data_location.locations@ == if k < i {
                        without_program(old(props)@[k].value.data_location.locations@, handle)
                    } else {
                        old(props)@[k].value.data_location.locations@
                    }
                },
        decreases n - i,
    {
        unbind_uniform(handle, &mut props[i].value);
        i += 1;
    }
}

impl<F> DeviceMaterial<F> {
    /// A material without a name or properties.
    pub fn empty() -> (r: DeviceMaterial<F>)
        ensures
            r.name@.len() == 0,
            r.properties_1u@.len() == 0,
            r.properties_1f@.len() == 0,
            r.properties_3f@.len() == 0,
            r.properties_samplers@.len() == 0,
    {
        DeviceMaterial {
            name: String::new(),
            properties_1u: Vec::new(),
            properties_1f: Vec::new(),
            properties_3f: Vec::new(),
            properties_samplers: Vec::new(),
        }
    }

    /// Sets the value of the single-valued scalar property whose uniform is named `name`.
    pub fn set_svec1f(&mut self, name: &str, value: Vec1<F>) -> (r: Result<(), String>)
        ensures
            final(self).name == old(self).name,
            final(self).properties_1u == old(self).properties_1u,
            final(self).properties_3f == old(self).properties_3f,
            final(self).properties_samplers == old(self).properties_samplers,
            property_set(old(self).properties_1f@, final(self).properties_1f@, name@, value, r),
    {
        set_single_value(&mut self.properties_1f, name, value)
    }

    /// Sets the value of the single-valued 3-vector property whose uniform is named `name`.
    pub fn set_svec3f(&mut self, name: &str, value: Vec3<F>) -> (r: Result<(), String>)
        ensures
            final(self).name == old(self).name,
            final(self).properties_1u == old(self).properties_1u,
            final(self).properties_1f == old(self).properties_1f,
            final(self).properties_samplers == old(self).properties_samplers,
            property_set(old(self).properties_3f@, final(self).properties_3f@, name@, value, r),
    {
        set_single_value(&mut self.properties_3f, name, value)
    }

    /// Binds all properties to `program`. The uniform properties must not be bound to the
    /// program yet.
    pub fn bind_shader_program(&mut self, program: &ShaderProgram)
        requires
            material_free_of(*old(self), program.handle),
        ensures
            material_bound(*old(self), *final(self), *program),
    {
        let n = self.properties_samplers.len();
        let mut i: usize = 0;
        while i < n
            invariant
                n == self.properties_samplers@.len(),
                n == old(self).properties_samplers@.len(),
                i <= n,
                self.name == old(self).name,
                self.properties_1u == old(self).properties_1u,
                self.properties_1f == old(self).properties_1f,
                self.properties_3f == old(self).properties_3f,
                forall|k: int|
                    0 <= k < n ==> {
                        &&& (#[trigger] self.properties_samplers@[k]).name == old(self).properties_samplers@[k].name
                        &&& self.properties_samplers@[k].value.name == old(self).properties_samplers@[k].value.name
                        &&& self.properties_samplers@[k].value.texture == old(self).properties_samplers@[k].value.texture
                        &&& self.properties_samplers@[k].value.bindings@ == if k < i {
                            bound_bindings(
                                old(self).properties_samplers@[k].value.bindings@,
                                *program,
                                old(self).properties_samplers@[k].value.name@,
                            )
                        } else {
                            old(self).properties_samplers@[k].value.bindings@
                        }
                    },
            decreases n - i,
        {
            self.properties_samplers[i].value.bind_shader_program(program);
            i += 1;
        }
        bind_properties(program, &mut self.properties_1u);
        bind_properties(program, &mut self.properties_1f);
        bind_properties(program, &mut self.properties_3f);
    }

    /// Unbinds program `program_handle`: uniform properties lose their locations of the
    /// program; sampler properties keep only their bindings of the program.
    pub fn unbind_shader_program(&mut self, program_handle: u32)
        ensures
            material_unbound(*old(self), *final(self), program_handle),
    {
        let n = self.properties_samplers.len();
        let mut i: usize = 0;
        while i < n
            invariant
                n == self.properties_samplers@.len(),
                n == old(self).properties_samplers@.len(),
                i <= n,
                self.name == old(self).name,
                self.properties_1u == old(self).properties_1u,
                self.properties_1f == old(self).properties_1f,
                self.properties_3f == old(self).properties_3f,
                forall|k: int|
                    0 <= k < n ==> {
                        &&& (#[trigger] self.properties_samplers@[k]).name == old(self).properties_samplers@[k].name
                        &&& self.properties_samplers@[k].value.name == old(self).properties_samplers@[k].value.name
                        &&& self.properties_samplers@[k].value.texture == old(self).properties_samplers@[k].value.texture
                        &&& self.properties_samplers@[k].value.bindings@ == if k < i {
                            bindings_of_program(old(self).properties_samplers@[k].value.bindings@, program_handle)
                        } else {
                            old(self).properties_samplers@[k].value.bindings@
                        }
                    },
            decreases n - i,
        {
            self.properties_samplers[i].value.unbind_shader_program(program_handle);
            i += 1;
        }
        unbind_properties(program_handle, &mut self.properties_1u);
        unbind_properties(program_handle, &mut self.properties_1f);
        unbind_properties(program_handle, &mut self.properties_3f);
    }
}


impl<F> HostMaterial<F> {
    /// A material without a name or properties.
    pub fn empty() -> (r: HostMaterial<F>)
        ensures
            r.name@.len() == 0,
            r.properties_1u@.len() == 0,
            r.properties_1f@.len() == 0,
            r.properties_3f@.len() == 0,
            r.properties_samplers@.len() == 0,
    {
        HostMaterial {
            name: String::new(),
            properties_1u: Vec::new(),
            properties_1f: Vec::new(),
            properties_3f: Vec::new(),
            properties_samplers: Vec::new(),
        }
    }
}

/// `d` is the device property of host property `h`: a uniform of the same name holding the
/// one value, bound to no program.
pub open spec fn uniform_property_of<T>(h: Property<T>, d: Property<Uniform<T>>) -> bool {
    &&& d.name@ == h.name@
    &&& d.value.name@ == h.name@
    &&& d.value.data_location.data@ == seq![h.value]
    &&& d.value.data_location.locations@.len() == 0
}

fn device_properties<T: Copy>(props: &Vec<Property<T>>) -> (r: Vec<Property<Uniform<T>>>)
    ensures
        r@.len() == props@.len(),
        forall|i: int| 0 <= i < props@.len() ==> uniform_property_of(props@[i], #[trigger] r@[i]),
{
    let mut out: Vec<Property<Uniform<T>>> = Vec::new();
    let n = props.len();
    let mut i: usize = 0;
    while i < n
        invariant
            n == props@.len(),
            i <= n,
            out@.len() == i,
            forall|j: int| 0 <= j < i ==> uniform_property_of(props@[j], #[trigger] out@[j]),
        decreases n - i,
    {
        let data = vec![props[i].value];
        assert(data@ =~= seq![props@[i as int].value]);
        out.push(Property { name: props[i].name.clone(), value: Uniform::new(props[i].name.as_str(), data) });
        i += 1;
    }
    out
}

impl<F: Copy> DeviceMaterial<F> {
    /// The device material of a host material: one uniform per scalar property and one
    /// sampler per texture, sampling `textures[i]`, the device copy of texture `i`.
    pub fn new(material: &HostMaterial<F>, textures: Vec<Rc<DeviceTexture>>) -> (r: DeviceMaterial<F>)
        requires
            textures@.len() == material.properties_samplers@.len(),
        ensures
            r.name@ == material.name@,
            r.properties_1u@.len() == material.properties_1u@.len(),
            forall|i: int|
                0 <= i < material.properties_1u@.len() ==> uniform_property_of(
                    material.properties_1u@[i],
                    #[trigger] r.properties_1u@[i],
                ),
            r.properties_1f@.len() == material.properties_1f@.len(),
            forall|i: int|
                0 <= i < material.properties_1f@.len() ==> uniform_property_of(
                    material.properties_1f@[i],
                    #[trigger] r.properties_1f@[i],
                ),
            r.properties_3f@.len() == material.properties_3f@.len(),
            forall|i: int|
                0 <= i < material.properties_3f@.len() ==> uniform_property_of(
                    material.properties_3f@[i],
                    #[trigger] r.properties_3f@[i],
                ),
            r.properties_samplers@.len() == material.properties_samplers@.len(),
            forall|i: int|
                0 <= i < material.properties_samplers@.len() ==> {
                    let s = #[trigger] r.properties_samplers@[i];
                    &&& s.name@ == material.properties_samplers@[i].name@
                    &&& s.value.name@ == material.properties_samplers@[i].name@
                    &&& s.value.bindings@.len() == 0
                    &&& s.value.texture == textures@[i]
                },
    {
        let mut samplers: Vec<Property<TextureSampler>> = Vec::new();
        let n = material.properties_samplers.len();
        let mut i: usize = 0;
        while i < n
            invariant
                n == material.properties_samplers@.len(),
                n == textures@.len(),
                i <= n,
                samplers@.len() == i,
                forall|j: int|
                    0 <= j < i ==> {
                        let s = #[trigger] samplers@[j];
                        &&& s.name@ == material.properties_samplers@[j].name@
                        &&& s.value.name@ == material.properties_samplers@[j].name@
                        &&& s.value.bindings@.len() == 0
                        &&& s.value.texture == textures@[j]
                    },
            decreases n - i,
        {
            let name = &material.properties_samplers[i].name;
            samplers.push(
                Property { name: name.clone(), value: TextureSampler::new(name.as_str(), textures[i].clone()) },
            );
            i += 1;
        }
        DeviceMaterial {
            name: material.name.clone(),
            properties_1u: device_properties(&material.properties_1u),
            properties_1f: device_properties(&material.properties_1f),
            properties_3f: device_properties(&material.properties_3f),
            properties_samplers: samplers,
        }
    }
}

/// A texture a material may name: the file it is read from (relative to the material's
/// folder), the sampler it is bound to, and the flag uniform that tells shaders whether it
/// loaded.
pub struct TextureSlot {
    pub file: String,
    pub sampler_name: String,
    pub flag_name: String,
}

/// `slot` reads `file` into sampler `sampler` with flag `flag`.
pub open spec fn slot_is(slot: TextureSlot, file: Seq<char>, sampler: Seq<char>, flag: Seq<char>) -> bool {
    slot.file@ == file && slot.sampler_name@ == sampler && slot.flag_name@ == flag
}

fn slot(file: &str, sampler: &str, flag: &str) -> (r: TextureSlot)
    ensures
        slot_is(r, file@, sampler@, flag@),
{
    TextureSlot { file: owned(file), sampler_name: owned(sampler), flag_name: owned(flag) }
}

/// The text of an optional material parameter; a missing one reads as empty.
pub open spec fn param_text(p: Option<String>) -> Seq<char> {
    match p {
        Some(s) => s@,
        None => Seq::empty(),
    }
}

fn param_or_empty(p: &Option<String>) -> (r: &str)
    ensures
        r@ == param_text(*p),
{
    match p {
        Some(s) => s.as_str(),
        None => {
            proof {
                reveal_strlit("");
            }
            ""
        },
    }
}

/// The five textures a material may name, in the order they are loaded: albedo (the diffuse
/// texture), normal map (`norm`), bump map (`bump`), metallic map (`map_Rm`) and roughness
/// map (`map_Pr`).
pub fn material_texture_slots(
    diffuse_texture: &str,
    norm: &Option<String>,
    bump: &Option<String>,
    map_rm: &Option<String>,
    map_pr: &Option<String>,
) -> (r: Vec<TextureSlot>)
    ensures
        r@.len() == 5,
        slot_is(r@[0], diffuse_texture@, "uAlbedoMapSampler2D"@, "uAlbedoMapAvailableUint"@),
        slot_is(r@[1], param_text(*norm), "uNormalMapSampler2D"@, "uNormalMapAvailableUint"@),
        slot_is(r@[2], param_text(*bump), "uBumpMapSampler2D"@, "uBumpMapAvailableUint"@),
        slot_is(r@[3], param_text(*map_rm), "uMetallicSampler2D"@, "uMetallicAvailableUint"@),
        slot_is(r@[4], param_text(*map_pr), "uRoughnessSampler2D"@, "uRoughnessAvailableUint"@),
{
    vec![
        slot(diffuse_texture, "uAlbedoMapSampler2D", "uAlbedoMapAvailableUint"),
        slot(param_or_empty(norm), "uNormalMapSampler2D", "uNormalMapAvailableUint"),
        slot(param_or_empty(bump), "uBumpMapSampler2D", "uBumpMapAvailableUint"),
        slot(param_or_empty(map_rm), "uMetallicSampler2D", "uMetallicAvailableUint"),
        slot(param_or_empty(map_pr), "uRoughnessSampler2D", "uRoughnessAvailableUint"),
    ]
}

/// The host material named `name` after its textures were loaded: `loads` holds, in the
/// order the loads finished, each slot's flag name, its sampler name and the texture if it
/// loaded. Each flag becomes an unsigned property (1 when the texture loaded, 0 otherwise),
/// the loaded textures become the sampler properties, in that order, each under its slot's
/// sampler name, and the scalar roughness, metalness and albedo become the float
/// properties.
pub fn assemble_host_material<F: Copy>(
    name: String,
    loads: Vec<(String, String, Option<HostTexture<F>>)>,
    roughness: F,
    metalness: F,
    albedo: Vec3<F>,
) -> (r: HostMaterial<F>)
    ensures
        r.name@ == name@,
        r.properties_1u@.len() == loads@.len(),
        forall|i: int|
            0 <= i < loads@.len() ==> (#[trigger] r.properties_1u@[i]).name@ == loads@[i].0@
                && r.properties_1u@[i].value.x == (if loads@[i].2 is Some { 1u32 } else { 0u32 }),
        r.properties_samplers@.len() == loaded(loads@).len(),
        forall|k: int|
            0 <= k < r.properties_samplers@.len() ==> (#[trigger] r.properties_samplers@[k]).name@ == loaded(
                loads@,
            )[k].0 && r.properties_samplers@[k].value == loaded(loads@)[k].1,
        r.properties_1f@.len() == 2,
        r.properties_1f@[0].name@ == "uScalarRoughnessVec1f"@ && r.properties_1f@[0].value.x == roughness,
        r.properties_1f@[1].name@ == "uScalarMetalnessVec1f"@ && r.properties_1f@[1].value.x == metalness,
        r.properties_3f@.len() == 1,
        r.properties_3f@[0].name@ == "uScalarAlbedoVec3f"@ && r.properties_3f@[0].value == albedo,
{
    let mut flags: Vec<Property<Vec1<u32>>> = Vec::new();
    let mut samplers: Vec<Property<HostTexture<F>>> = Vec::new();
    let ghost all = loads@;
    let mut loads = loads;
    let n = loads.len();
    let mut rest: Vec<(String, String, Option<HostTexture<F>>)> = Vec::new();
    // Take the loads in their order: reverse once, then pop from the end.
    while loads.len() > 0
        invariant
            rest@.len() + loads@.len() == n,
            n == all.len(),
            forall|j: int| 0 <= j < loads@.len() ==> #[trigger] loads@[j] == all[j],
            forall|j: int| 0 <= j < rest@.len() ==> #[trigger] rest@[j] == all[n - 1 - j],
        decreases loads@.len(),
    {
        let e = loads.pop().unwrap();
        rest.push(e);
    }
    let mut k: usize = 0;
    assert(all.take(0) =~= Seq::<(String, String, Option<HostTexture<F>>)>::empty());
    while rest.len() > 0
        invariant
            rest@.len() + k == n,
            n == all.len(),
            forall|j: int| 0 <= j < rest@.len() ==> #[trigger] rest@[j] == all[n - 1 - j],
            flags@.len() == k,
            forall|j: int|
                0 <= j < k ==> (#[trigger] flags@[j]).name@ == all[j].0@ && flags@[j].value.x == (if all[j].2 is Some {
                    1u32
                } else {
                    0u32
                }),
            samplers@.len() == loaded(all.take(k as int)).len(),
            forall|j: int|
                0 <= j < samplers@.len() ==> (#[trigger] samplers@[j]).name@ == loaded(all.take(k as int))[j].0
                    && samplers@[j].value == loaded(all.take(k as int))[j].1,
        decreases rest@.len(),
    {
        let (flag, sampler, texture) = rest.pop().unwrap();
        assert(all[k as int].0 == flag);
        proof {
            let t = all.take(k + 1);
            assert(t.drop_last() =~= all.take(k as int));
            assert(t.last() == all[k as int]);
        }
        match texture {
            Some(t) => {
                flags.push(Property { name: flag, value: Vec1 { x: 1u32 } });
                samplers.push(Property { name: sampler, value: t });
            },
            None => {
                flags.push(Property { name: flag, value: Vec1 { x: 0u32 } });
            },
        }
        k += 1;
    }
    assert(all.take(n as int) =~= all);
    HostMaterial {
        name,
        properties_1u: flags,
        properties_1f: vec![
            Property { name: owned("uScalarRoughnessVec1f"), value: Vec1 { x: roughness } },
            Property { name: owned("uScalarMetalnessVec1f"), value: Vec1 { x: metalness } },
        ],
        properties_3f: vec![Property { name: owned("uScalarAlbedoVec3f"), value: albedo }],
        properties_samplers: samplers,
    }
}

/// The textures of `loads` that loaded, in order, each with its slot's sampler name.
pub open spec fn loaded<F>(loads: Seq<(String, String, Option<HostTexture<F>>)>) -> Seq<(Seq<char>, HostTexture<F>)>
    decreases loads.len(),
{
    if loads.len() == 0 {
        Seq::empty()
    } else {
        loaded(loads.drop_last()) + match loads.last().2 {
            Some(t) => seq![(loads.last().1@, t)],
            None => Seq::empty(),
        }
    }
}


/// `new` holds what `old` holds: the same names, data and locations.
pub open spec fn properties_restored<T>(old: Seq<Property<Uniform<T>>>, new: Seq<Property<Uniform<T>>>) -> bool {
    &&& new.len() == old.len()
    &&& forall|i: int|
        0 <= i < old.len() ==> {
            &&& (#[trigger] new[i]).name == old[i].name
            &&& new[i].value.name == old[i].value.name
            &&& new[i].value.data_location.data == old[i].value.data_location.data
            &&& new[i].value.data_location.locations@ == old[i].value.data_location.locations@
        }
}

proof fn lemma_properties_unbind_undoes_bind<T>(
    old: Seq<Property<Uniform<T>>>,
    bound: Seq<Property<Uniform<T>>>,
    unbound: Seq<Property<Uniform<T>>>,
    program: ShaderProgram,
)
    requires
        properties_free_of(old, program.handle),
        properties_bound(old, bound, program),
        properties_unbound(bound, unbound, program.handle),
    ensures
        properties_restored(old, unbound),
{
    assert forall|i: int| 0 <= i < old.len() implies (#[trigger] unbound[i]).value.data_location.locations@
        == old[i].value.data_location.locations@ by {
        assert(locations_free_of(old[i].value.data_location.locations@, program.handle));
        lemma_unbind_undoes_bind(old[i].value.data_location.locations@, program, old[i].value.name@);
        assert(bound[i].value.data_location.locations@ == bound_locations(
            old[i].value.data_location.locations@,
            program,
            old[i].value.name@,
        ));
    }
}

/// Binding a material to a program none of its properties is bound to, then unbinding that
/// program, gives back its uniform properties as they were, while each sampler property is
/// left with the binding to that program alone (unbinding a sampler keeps the bindings of
/// the program it names).
pub proof fn lemma_material_unbind_after_bind<F>(
    old: DeviceMaterial<F>,
    bound: DeviceMaterial<F>,
    unbound: DeviceMaterial<F>,
    program: ShaderProgram,
)
    requires
        material_free_of(old, program.handle),
        forall|i: int|
            0 <= i < old.properties_samplers@.len() ==> bindings_free_of(
                #[trigger] old.properties_samplers@[i].value.bindings@,
                program.handle,
            ),
        material_bound(old, bound, program),
        material_unbound(bound, unbound, program.handle),
    ensures
        unbound.name == old.name,
        properties_restored(old.properties_1u@, unbound.properties_1u@),
        properties_restored(old.properties_1f@, unbound.properties_1f@),
        properties_restored(old.properties_3f@, unbound.properties_3f@),
        unbound.properties_samplers@.len() == old.properties_samplers@.len(),
        forall|i: int|
            0 <= i < old.properties_samplers@.len() ==> (#[trigger] unbound.properties_samplers@[i]).value.bindings@
                == bound_bindings(Seq::empty(), program, old.properties_samplers@[i].value.name@),
{
    lemma_properties_unbind_undoes_bind(old.properties_1u@, bound.properties_1u@, unbound.properties_1u@, program);
    lemma_properties_unbind_undoes_bind(old.properties_1f@, bound.properties_1f@, unbound.properties_1f@, program);
    lemma_properties_unbind_undoes_bind(old.properties_3f@, bound.properties_3f@, unbound.properties_3f@, program);
    assert forall|i: int| 0 <= i < old.properties_samplers@.len() implies (
    #[trigger] unbound.properties_samplers@[i]).value.bindings@ == bound_bindings(
        Seq::empty(),
        program,
        old.properties_samplers@[i].value.name@,
    ) by {
        let b = old.properties_samplers@[i].value.bindings@;
        let name = old.properties_samplers@[i].value.name@;
        let p = |x: SamplerProgramBinding| x.program == program.handle;
        assert(b.filter(p) =~= Seq::<SamplerProgramBinding>::empty()) by {
            reveal(Seq::filter);
            lemma_filter_none(b, p);
        }
        match crate::shader::sampler_binding(program, name) {
            Some(binding) => {
                let x = SamplerProgramBinding { binding, program: program.handle };
                assert(b.push(x).filter(p) == b.filter(p).push(x)) by {
                    reveal(Seq::filter);
                    assert(b.push(x).drop_last() =~= b);
                }
                assert(Seq::<SamplerProgramBinding>::empty().push(x) =~= seq![x]);
            },
            None => {},
        }
    }
}

proof fn lemma_filter_none<A>(s: Seq<A>, p: spec_fn(A) -> bool)
    requires
        forall|j: int| 0 <= j < s.len() ==> !p(#[trigger] s[j]),
    ensures
        s.filter(p) =~= Seq::<A>::empty(),
    decreases s.len(),
{
    reveal(Seq::filter);
    if s.len() > 0 {
        lemma_filter_none(s.drop_last(), p);
    }
}

} // verus!
