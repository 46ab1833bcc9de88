use vstd::prelude::*;

verus! {

/// Opaque, copyable token identifying a slot in the render pipeline table of
/// an [`crate::pipeline::Arena`]. A render handle stays valid for the whole
/// lifetime of the arena that issued it; a reload never invalidates it.
#[derive(Clone, Copy, Debug, PartialEq, Eq, Structural)]
pub struct RenderHandle {
    index: usize,
}

/// Opaque, copyable token identifying a slot in the compute pipeline table of
/// an [`crate::pipeline::Arena`]. Compute handles live in a namespace of
/// their own: a render handle and a compute handle are never interchangeable,
/// even when their slot indices coincide numerically.
#[derive(Clone, Copy, Debug, PartialEq, Eq, Structural)]
pub struct ComputeHandle {
    index: usize,
}

impl View for RenderHandle {
    type V = int;

    closed spec fn view(&self) -> int {
        self.index as int
    }
}

impl View for ComputeHandle {
    type V = int;

    closed spec fn view(&self) -> int {
        self.index as int
    }
}

impl RenderHandle {
    pub(crate) fn from_index(index: usize) -> (h: RenderHandle)
        ensures
            h@ == index as int,
    {
        RenderHandle { index }
    }

    pub(crate) fn index(self) -> (i: usize)
        ensures
            i as int == self@,
    {
        self.index
    }
}

impl ComputeHandle {
    pub(crate) fn from_index(index: usize) -> (h: ComputeHandle)
        ensures
            h@ == index as int,
    {
        ComputeHandle { index }
    }

    pub(crate) fn index(self) -> (i: usize)
        ensures
            i as int == self@,
    {
        self.index
    }
}

/// A handle together with the pipeline kind it belongs to, as stored in the
/// path registry: a single shader file may back both render and compute
/// pipelines, and a reload has to know which table each affected slot is in.
#[derive(Clone, Copy, Debug, PartialEq, Eq, Structural)]
pub enum TaggedHandle {
    Render(RenderHandle),
    Compute(ComputeHandle),
}

impl TaggedHandle {
    /// True when this tagged handle names the render slot `j`.
    pub open spec fn is_render_slot(self, j: int) -> bool {
        match self {
            TaggedHandle::Render(h) => h@ == j,
            TaggedHandle::Compute(_) => false,
        }
    }

    /// True when this tagged handle names the compute slot `j`.
    pub open spec fn is_compute_slot(self, j: int) -> bool {
        match self {
            TaggedHandle::Render(_) => false,
            TaggedHandle::Compute(h) => h@ == j,
        }
    }

    /// The render handle inside, if this is a render-tagged handle.
    pub fn as_render(self) -> (r: Option<RenderHandle>)
        ensures
            match r {
                Some(h) => self == TaggedHandle::Render(h),
                None => self is Compute,
            },
    {
        match self {
            TaggedHandle::Render(h) => Some(h),
            TaggedHandle::Compute(_) => None,
        }
    }

    /// The compute handle inside, if this is a compute-tagged handle.
    pub fn as_compute(self) -> (r: Option<ComputeHandle>)
        ensures
            match r {
                Some(h) => self == TaggedHandle::Compute(h),
                None => self is Render,
            },
    {
        match self {
            TaggedHandle::Render(_) => None,
            TaggedHandle::Compute(h) => Some(h),
        }
    }
}

/// Render handle views are injective: two render handles are the same
/// token exactly when they name the same slot index.
pub proof fn lemma_render_handle_view(a: RenderHandle, b: RenderHandle)
    ensures
        (a == b) <==> (a@ == b@),
{
    assert(a == RenderHandle { index: a.index });
    assert(b == RenderHandle { index: b.index });
}

/// Compute handle views are injective, in the same way.
pub proof fn lemma_compute_handle_view(a: ComputeHandle, b: ComputeHandle)
    ensures
        (a == b) <==> (a@ == b@),
{
    assert(a == ComputeHandle { index: a.index });
    assert(b == ComputeHandle { index: b.index });
}

/// True when some element of `hs` names the render slot `j`.
pub open spec fn contains_render_slot(hs: Seq<TaggedHandle>, j: int) -> bool {
    exists|t: int| 0 <= t < hs.len() && #[trigger] hs[t].is_render_slot(j)
}

/// True when some element of `hs` names the compute slot `j`.
pub open spec fn contains_compute_slot(hs: Seq<TaggedHandle>, j: int) -> bool {
    exists|t: int| 0 <= t < hs.len() && #[trigger] hs[t].is_compute_slot(j)
}

} // verus!
