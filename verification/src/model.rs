//! Models on the device: meshes and the materials they draw with.

use vstd::prelude::*;
use crate::material::{DeviceMaterial, material_bound, material_free_of, material_unbound};
use crate::mesh::DeviceMesh;
use crate::pass::Pass;

verus! {

/// The meshes and materials of a model on the device.
pub struct DeviceModel<F> {
    pub meshes: Vec<DeviceMesh>,
    pub materials: Vec<DeviceMaterial<F>>,
}

/// No material of the model is bound to program `handle`.
pub open spec fn model_free_of<F>(m: DeviceModel<F>, handle: u32) -> bool {
    forall|i: int| 0 <= i < m.materials@.len() ==> material_free_of(#[trigger] m.materials@[i], handle)
}

/// `new` is `old` with every material bound to `program`, meshes untouched.
pub open spec fn model_bound<F>(old: DeviceModel<F>, new: DeviceModel<F>, program: crate::shader::ShaderProgram) -> bool {
    &&& new.meshes == old.meshes
    &&& new.materials@.len() == old.materials@.len()
    &&& forall|i: int| 0 <= i < old.materials@.len() ==> material_bound(old.materials@[i], #[trigger] new.materials@[i], program)
}

/// `new` is `old` with every material unbound from program `handle`, meshes untouched.
pub open spec fn model_unbound<F>(old: DeviceModel<F>, new: DeviceModel<F>, handle: u32) -> bool {
    &&& new.meshes == old.meshes
    &&& new.materials@.len() == old.materials@.len()
    &&& forall|i: int| 0 <= i < old.materials@.len() ==> material_unbound(old.materials@[i], #[trigger] new.materials@[i], handle)
}

impl<F> DeviceModel<F> {
    /// Binds the materials of the model to the program of `pass`. Setting up the vertex
    /// attributes of the meshes for the program is device work that the caller does.
    pub fn bind_pass(&mut self, pass: &Pass<F>)
        requires
            model_free_of(*old(self), pass.program.handle),
        ensures
            model_bound(*old(self), *final(self), pass.program),
    {
        let n = self.materials.len();
        let mut i: usize = 0;
        while i < n
            invariant
                n == self.materials@.len(),
                n == old(self).materials@.len(),
                i <= n,
                self.meshes == old(self).meshes,
                model_free_of(*old(self), pass.program.handle),
                forall|k: int| 0 <= k < i ==> material_bound(old(self).materials@[k], #[trigger] self.materials@[k], pass.program),
                forall|k: int| i <= k < n ==> #[trigger] self.materials@[k] == old(self).materials@[k],
            decreases n - i,
        {
            assert(material_free_of(old(self).materials@[i as int], pass.program.handle));
            self.materials[i].bind_shader_program(&pass.program);
            i += 1;
        }
    }

    /// Unbinds the materials of the model from program `pass_program_handle`.
    pub fn unbind_pass(&mut self, pass_program_handle: u32)
        ensures
            model_unbound(*old(self), *final(self), pass_program_handle),
    {
        let n = self.materials.len();
        let mut i: usize = 0;
        while i < n
            invariant
                n == self.materials@.len(),
                n == old(self).materials@.len(),
                i <= n,
                self.meshes == old(self).meshes,
                forall|k: int| 0 <= k < i ==> material_unbound(old(self).materials@[k], #[trigger] self.materials@[k], pass_program_handle),
                forall|k: int| i <= k < n ==> #[trigger] self.materials@[k] == old(self).materials@[k],
            decreases n - i,
        {
            self.materials[i].unbind_shader_program(pass_program_handle);
            i += 1;
        }
    }
}

} // verus!
