//! Identifier handed out by the renderer's mesh pool.

use vstd::prelude::*;

verus! {

/// Index of a mesh inside the mesh pool, also used as-is by shaders to
/// look the mesh up in GPU-side buffers.
#[derive(Debug, Copy, Clone, PartialEq, Eq, Structural)]
pub struct MeshId(pub u32);

impl MeshId {
    pub fn new(id: u32) -> (r: Self)
        ensures
            r.0 == id,
    {
        Self(id)
    }

    pub fn id(&self) -> (r: u32)
        ensures
            r == self.0,
    {
        self.0
    }
}

impl Default for MeshId {
    fn default() -> (r: Self)
        ensures
            r.0 == 0,
    {
        Self(0)
    }
}

impl From<MeshId> for u32 {
    fn from(value: MeshId) -> (r: u32)
        ensures
            r == value.0,
    {
        value.0
    }
}

impl vstd::std_specs::convert::FromSpecImpl<MeshId> for u32 {
    open spec fn obeys_from_spec() -> bool {
        true
    }

    open spec fn from_spec(t: MeshId) -> u32 {
        t.0
    }
}

impl From<MeshId> for usize {
    fn from(value: MeshId) -> (r: usize)
        ensures
            r == value.0 as usize,
    {
        value.0 as usize
    }
}

impl vstd::std_specs::convert::FromSpecImpl<MeshId> for usize {
    open spec fn obeys_from_spec() -> bool {
        true
    }

    open spec fn from_spec(t: MeshId) -> usize {
        t.0 as usize
    }
}

} // verus!
