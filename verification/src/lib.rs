use vstd::prelude::*;

pub mod ecs;
pub mod input;
pub mod material;
pub mod math;
pub mod mesh;
pub mod model;
pub mod pass;
pub mod pipeline;
pub mod rebind;
pub mod shader;
pub mod source;
pub mod tex;
pub mod tech;
pub mod techniques;
pub mod text;
pub mod uniform;

verus! {
} // verus!
