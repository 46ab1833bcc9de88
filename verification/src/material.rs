//! Identifier handed out by the renderer's material pool.

use vstd::prelude::*;

verus! {

/// Index of a material inside the material pool, also used as-is by
/// shaders to look the material up in GPU-side buffers.
#[derive(Debug, Copy, Clone, PartialEq, Eq, Structural)]
pub struct MaterialId(u32);

impl MaterialId {
    pub fn new(id: u32) -> (r: Self)
        ensures
            r@ == id,
    {
        Self(id)
    }

    pub fn id(&self) -> (r: u32)
        ensures
            r == self@,
    {
        self.0
    }
}

impl View for MaterialId {
    type V = u32;

    closed spec fn view(&self) -> u32 {
        self.0
    }
}

impl Default for MaterialId {
    fn default() -> (r: Self)
        ensures
            r@ == 0,
    {
        Self(0)
    }
}

} // verus!
