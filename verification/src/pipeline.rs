//! The pipeline arena: a stable-identity store for compiled pipelines, a
//! structural dedup cache over their descriptors, and a path registry that
//! fans a single file-change event out to every pipeline built from that
//! file.
//!
//! The GPU backend is an external collaborator. Wherever the arena needs it
//! (materializing a pipeline from a module and a descriptor, or recompiling
//! a module from a source file), the caller passes a closure; every contract
//! states what holds of the arena for whatever those closures return, so the
//! bookkeeping is verified for any backend behaviour.
//!
//! Handles are dense slot indices and slots are never removed, so the
//! descriptor table doubles as the dedup cache: slot `i` of a table holds
//! the pipeline issued for the `i`-th distinct descriptor value, and the
//! table invariant keeps descriptor values pairwise distinct.

use vstd::pervasive::VecAdditionalExecFns;
use vstd::prelude::*;

use crate::descriptor::{
    ComputePipelineDescriptor, ComputePipelineDescriptorModel, DescriptorValue,
    RenderPipelineDescriptor, RenderPipelineDescriptorModel,
};
use crate::handle::{
    contains_compute_slot, contains_render_slot, lemma_compute_handle_view,
    lemma_render_handle_view, ComputeHandle, RenderHandle, TaggedHandle,
};

verus! {

/// Why an arena operation failed.
#[derive(Debug)]
pub enum PipelineError {
    /// The backend could not compile the shader source. Recoverable: on a
    /// reload the previously compiled pipelines keep running.
    ShaderCompile(String),
    /// The backend refused to build a pipeline from a valid module and the
    /// given descriptor. Recoverable in the same way.
    Materialize(String),
    /// A handle that does not belong to this arena was presented. This is a
    /// caller bug: handles stay valid for the arena's whole lifetime.
    UnknownHandle,
    /// A reload named a path that was never registered. Also a caller bug.
    UnknownPath,
}

/// One per-handle failure surfaced by a reload: the slot kept its previous
/// pipeline, and `message` is the backend's explanation.
#[derive(Debug)]
pub struct ReloadFailure {
    pub handle: TaggedHandle,
    pub message: String,
}

/// All elements of `s` differ from one another.
pub open spec fn pairwise_distinct<T>(s: Seq<T>) -> bool {
    forall|i: int, j: int| 0 <= i < j < s.len() ==> s[i] != s[j]
}

/// Some element of `s` equals `v`.
pub open spec fn has_value<T>(s: Seq<T>, v: T) -> bool {
    exists|i: int| 0 <= i < s.len() && s[i] == v
}

/// One pipeline table: compiled pipeline objects and, slot by slot, the
/// descriptor each one was built from.
struct SubArena<P, D> {
    pipelines: Vec<P>,
    descriptors: Vec<D>,
}

impl<P, D: DescriptorValue> SubArena<P, D> {
    /// Descriptor values held by the table, slot by slot.
    spec fn dvs(&self) -> Seq<D::V> {
        self.descriptors.deep_view()
    }

    /// Table invariant: the two columns have the same length, and no two
    /// slots hold the same descriptor value (the dedup guarantee).
    spec fn wf(&self) -> bool {
        &&& self.pipelines@.len() == self.descriptors@.len()
        &&& pairwise_distinct(self.dvs())
    }

    fn empty() -> (s: SubArena<P, D>)
        ensures
            s.wf(),
            s.pipelines@.len() == 0,
            s.descriptors@.len() == 0,
    {
        SubArena { pipelines: Vec::new(), descriptors: Vec::new() }
    }

    /// The slot already issued for this descriptor value, if any.
    fn lookup(&self, descriptor: &D) -> (r: Option<usize>)
        ensures
            match r {
                Some(i) => i < self.descriptors@.len() && self.descriptors@[i as int].deep_view()
                    == descriptor.deep_view(),
                None => !has_value(self.dvs(), descriptor.deep_view()),
            },
    {
        let n = self.descriptors.len();
        let mut i: usize = 0;
        while i < n
            invariant
                n == self.descriptors@.len(),
                i <= n,
                forall|j: int|
                    0 <= j < i ==> self.descriptors@[j].deep_view() != descriptor.deep_view(),
            decreases n - i,
        {
            if self.descriptors[i].equals(descriptor) {
                return Some(i);
            }
            i = i + 1;
        }
        proof {
            assert forall|j: int| 0 <= j < self.dvs().len() implies #[trigger] self.dvs()[j]
                != descriptor.deep_view() by {
                assert(self.dvs()[j] == self.descriptors@[j].deep_view());
            }
        }
        None
    }

    /// Stores a new pipeline with the descriptor it was built from, in a
    /// fresh slot that never aliases a live one.
    fn insert(&mut self, descriptor: D, pipeline: P) -> (i: usize)
        requires
            old(self).wf(),
            !has_value(old(self).dvs(), descriptor.deep_view()),
        ensures
            final(self).wf(),
            i == old(self).pipelines@.len(),
            final(self).pipelines@ == old(self).pipelines@.push(pipeline),
            final(self).descriptors@ == old(self).descriptors@.push(descriptor),
    {
        let i = self.pipelines.len();
        self.pipelines.push(pipeline);
        self.descriptors.push(descriptor);
        proof {
            assert(self.dvs() =~= old(self).dvs().push(descriptor.deep_view()));
        }
        i
    }

    /// Returns the slot for this descriptor value, invoking `make` to build
    /// the pipeline only when no slot holds that value yet: at most one
    /// pipeline ever exists per distinct descriptor value. The boolean in
    /// the result says whether a fresh slot was created.
    fn process_pipeline<F: FnOnce(&D) -> Result<P, String>>(
        &mut self,
        descriptor: D,
        make: F,
    ) -> (r: Result<(usize, bool), String>)
        requires
            old(self).wf(),
            call_requires(make, (&descriptor,)),
        ensures
            final(self).wf(),
            match r {
                Ok(p) => {
                    if p.1 {
                        &&& !has_value(old(self).dvs(), descriptor.deep_view())
                        &&& p.0 == old(self).pipelines@.len()
                        &&& final(self).pipelines@ == old(self).pipelines@.push(
                            final(self).pipelines@.last(),
                        )
                        &&& final(self).descriptors@ == old(self).descriptors@.push(descriptor)
                        &&& call_ensures(
                            make,
                            (&descriptor,),
                            Ok::<P, String>(final(self).pipelines@.last()),
                        )
                    } else {
                        &&& has_value(old(self).dvs(), descriptor.deep_view())
                        &&& final(self).pipelines@ == old(self).pipelines@
                        &&& final(self).descriptors@ == old(self).descriptors@
                        &&& p.0 < old(self).descriptors@.len()
                        &&& old(self).descriptors@[p.0 as int].deep_view()
                            == descriptor.deep_view()
                    }
                },
                Err(msg) => {
                    &&& final(self).pipelines@ == old(self).pipelines@
                    &&& final(self).descriptors@ == old(self).descriptors@
                    &&& !has_value(old(self).dvs(), descriptor.deep_view())
                    &&& call_ensures(make, (&descriptor,), Err::<P, String>(msg))
                },
            },
    {
        match self.lookup(&descriptor) {
            Some(i) => {
                proof {
                    assert(has_value(self.dvs(), descriptor.deep_view())) by {
                        assert(self.dvs()[i as int] == self.descriptors@[i as int].deep_view());
                    }
                }
                Ok((i, false))
            },
            None => match make(&descriptor) {
                Ok(pipeline) => Ok((self.insert(descriptor, pipeline), true)),
                Err(msg) => Err(msg),
            },
        }
    }

    /// Rebuilds the pipeline in an existing slot from its stored descriptor
    /// and a freshly compiled module, in place: the slot index (and so every
    /// handle naming it) is unchanged. On failure the slot keeps its
    /// previous pipeline, and the backend's message is returned.
    fn reload_pipeline<M, F: Fn(&M, &D) -> Result<P, String>>(
        &mut self,
        index: usize,
        module: &M,
        rematerialize: &F,
    ) -> (r: Option<String>)
        requires
            old(self).wf(),
            index < old(self).pipelines@.len(),
            forall|m: &M, d: &D| call_requires(*rematerialize, (m, d)),
        ensures
            final(self).wf(),
            final(self).descriptors@ == old(self).descriptors@,
            final(self).pipelines@.len() == old(self).pipelines@.len(),
            forall|j: int|
                0 <= j < old(self).pipelines@.len() && j != index ==> final(self).pipelines@[j]
                    == old(self).pipelines@[j],
            match r {
                None => call_ensures(
                    *rematerialize,
                    (module, &old(self).descriptors@[index as int]),
                    Ok::<P, String>(final(self).pipelines@[index as int]),
                ),
                Some(msg) => final(self).pipelines@[index as int] == old(self).pipelines@[index
                    as int] && call_ensures(
                    *rematerialize,
                    (module, &old(self).descriptors@[index as int]),
                    Err::<P, String>(msg),
                ),
            },
    {
        let result = rematerialize(module, &self.descriptors[index]);
        match result {
            Ok(pipeline) => {
                self.pipelines.set(index, pipeline);
                None
            },
            Err(msg) => Some(msg),
        }
    }
}

/// One path registry entry: a source file and the tagged handles of every
/// pipeline built from it, in registration order.
struct PathEntry {
    path: String,
    handles: Vec<TaggedHandle>,
}

/// Mathematical value of a path registry entry.
#[verifier::ext_equal]
pub struct PathEntryModel {
    pub path: Seq<char>,
    pub handles: Seq<TaggedHandle>,
}

/// Some entry of `paths` is for the file named `p`.
pub open spec fn has_path(paths: Seq<PathEntryModel>, p: Seq<char>) -> bool {
    exists|i: int| 0 <= i < paths.len() && paths[i].path == p
}

/// The index of the entry for `p` (meaningful when `has_path` holds; the
/// registry keeps path names pairwise distinct, so it is unique).
pub open spec fn path_slot(paths: Seq<PathEntryModel>, p: Seq<char>) -> int {
    choose|i: int| 0 <= i < paths.len() && paths[i].path == p
}

/// The tagged handles registered under `p`, in registration order.
pub open spec fn handles_of(paths: Seq<PathEntryModel>, p: Seq<char>) -> Seq<TaggedHandle> {
    if has_path(paths, p) {
        paths[path_slot(paths, p)].handles
    } else {
        Seq::empty()
    }
}

/// The registry after registering `th` under `p`: appended to the existing
/// entry for `p`, or in a fresh entry when `p` is new.
pub open spec fn spec_register(paths: Seq<PathEntryModel>, p: Seq<char>, th: TaggedHandle) -> Seq<
    PathEntryModel,
> {
    if has_path(paths, p) {
        let i = path_slot(paths, p);
        paths.update(i, PathEntryModel { path: paths[i].path, handles: paths[i].handles.push(th) })
    } else {
        paths.push(PathEntryModel { path: p, handles: seq![th] })
    }
}

/// Some entry of `paths` holds `th`.
pub open spec fn registry_contains(paths: Seq<PathEntryModel>, th: TaggedHandle) -> bool {
    exists|i: int, t: int|
        0 <= i < paths.len() && 0 <= t < paths[i].handles.len() && paths[i].handles[t] == th
}

/// `th` names a slot that exists in tables of the given sizes.
pub open spec fn handle_in_range(th: TaggedHandle, render_len: int, compute_len: int) -> bool {
    match th {
        TaggedHandle::Render(h) => 0 <= h@ < render_len,
        TaggedHandle::Compute(h) => 0 <= h@ < compute_len,
    }
}

/// What a reload did to the render slot `j` named by `th`: either the
/// backend returned a new pipeline for the slot's stored descriptor and the
/// slot now holds it, or the backend failed, the slot kept its previous
/// pipeline, and the failure is reported in `failures` under this handle.
pub open spec fn render_slot_reloaded<RP, M, FR: Fn(&M, &RenderPipelineDescriptor) -> Result<
    RP,
    String,
>>(
    old_pipes: Seq<RP>,
    descs: Seq<RenderPipelineDescriptor>,
    new_pipes: Seq<RP>,
    j: int,
    module: M,
    fr: FR,
    failures: Seq<ReloadFailure>,
    th: TaggedHandle,
) -> bool {
    ||| call_ensures(fr, (&module, &descs[j]), Ok::<RP, String>(new_pipes[j]))
    ||| (new_pipes[j] == old_pipes[j] && exists|q: int|
        0 <= q < failures.len() && (#[trigger] failures[q]).handle == th && call_ensures(
            fr,
            (&module, &descs[j]),
            Err::<RP, String>(failures[q].message),
        ))
}

/// Compute analog of [`render_slot_reloaded`].
pub open spec fn compute_slot_reloaded<CP, M, FC: Fn(&M, &ComputePipelineDescriptor) -> Result<
    CP,
    String,
>>(
    old_pipes: Seq<CP>,
    descs: Seq<ComputePipelineDescriptor>,
    new_pipes: Seq<CP>,
    j: int,
    module: M,
    fc: FC,
    failures: Seq<ReloadFailure>,
    th: TaggedHandle,
) -> bool {
    ||| call_ensures(fc, (&module, &descs[j]), Ok::<CP, String>(new_pipes[j]))
    ||| (new_pipes[j] == old_pipes[j] && exists|q: int|
        0 <= q < failures.len() && (#[trigger] failures[q]).handle == th && call_ensures(
            fc,
            (&module, &descs[j]),
            Err::<CP, String>(failures[q].message),
        ))
}

/// Mathematical value of an [`Arena`]: the two pipeline tables with their
/// originating descriptors, and the path registry.
#[verifier::ext_equal]
pub struct ArenaModel<RP, CP> {
    pub render_pipelines: Seq<RP>,
    pub render_descriptors: Seq<RenderPipelineDescriptor>,
    pub compute_pipelines: Seq<CP>,
    pub compute_descriptors: Seq<ComputePipelineDescriptor>,
    pub paths: Seq<PathEntryModel>,
}

impl<RP, CP> ArenaModel<RP, CP> {
    /// Render descriptor values, slot by slot.
    pub open spec fn render_dvs(self) -> Seq<RenderPipelineDescriptorModel> {
        Seq::new(self.render_descriptors.len(), |i: int| self.render_descriptors[i].deep_view())
    }

    /// Compute descriptor values, slot by slot.
    pub open spec fn compute_dvs(self) -> Seq<ComputePipelineDescriptorModel> {
        Seq::new(self.compute_descriptors.len(), |i: int| self.compute_descriptors[i].deep_view())
    }

    /// Arena invariant.
    ///
    /// - each table pairs every pipeline with its descriptor;
    /// - descriptor values are pairwise distinct within a table: at most one
    ///   pipeline per distinct descriptor value (the dedup guarantee);
    /// - registry path names are pairwise distinct;
    /// - every registered handle names an existing slot of its own table;
    /// - no handle is registered twice, under one path or two.
    pub open spec fn inv(self) -> bool {
        &&& self.render_pipelines.len() == self.render_descriptors.len()
        &&& self.compute_pipelines.len() == self.compute_descriptors.len()
        &&& pairwise_distinct(self.render_dvs())
        &&& pairwise_distinct(self.compute_dvs())
        &&& forall|i: int, j: int|
            0 <= i < j < self.paths.len() ==> self.paths[i].path != self.paths[j].path
        &&& forall|i: int, t: int|
            0 <= i < self.paths.len() && 0 <= t < self.paths[i].handles.len() ==> handle_in_range(
                #[trigger] self.paths[i].handles[t],
                self.render_pipelines.len() as int,
                self.compute_pipelines.len() as int,
            )
        &&& forall|i: int, t: int, i2: int, t2: int|
            0 <= i < self.paths.len() && 0 <= t < self.paths[i].handles.len() && 0 <= i2
                < self.paths.len() && 0 <= t2 < self.paths[i2].handles.len() && (i != i2 || t != t2)
                ==> #[trigger] self.paths[i].handles[t] != #[trigger] self.paths[i2].handles[t2]
    }
}

/// What a reload did to the one slot named by `th`, dispatched on its kind.
pub open spec fn reload_step_done<
    RP,
    CP,
    M,
    FR: Fn(&M, &RenderPipelineDescriptor) -> Result<RP, String>,
    FC: Fn(&M, &ComputePipelineDescriptor) -> Result<CP, String>,
>(
    pre: ArenaModel<RP, CP>,
    post: ArenaModel<RP, CP>,
    module: M,
    fr: FR,
    fc: FC,
    failures: Seq<ReloadFailure>,
    th: TaggedHandle,
) -> bool {
    match th {
        TaggedHandle::Render(h) => render_slot_reloaded(
            pre.render_pipelines,
            pre.render_descriptors,
            post.render_pipelines,
            h@,
            module,
            fr,
            failures,
            th,
        ),
        TaggedHandle::Compute(h) => compute_slot_reloaded(
            pre.compute_pipelines,
            pre.compute_descriptors,
            post.compute_pipelines,
            h@,
            module,
            fc,
            failures,
            th,
        ),
    }
}

/// The arena `post` is the arena `pre` after replaying materialization for
/// the first `upto` of the tagged handles `hs` with the freshly compiled
/// `module`:
///
/// - descriptors, dedup state and the registry are exactly as before, and
///   no slot was added or removed — handles keep their identity;
/// - a slot named by none of the replayed handles holds its old pipeline;
/// - each replayed slot was rebuilt through `fr` or `fc` from its stored
///   descriptor, or kept its old pipeline with the failure reported;
/// - every reported failure belongs to one of the replayed handles.
pub open spec fn reload_applied<
    RP,
    CP,
    M,
    FR: Fn(&M, &RenderPipelineDescriptor) -> Result<RP, String>,
    FC: Fn(&M, &ComputePipelineDescriptor) -> Result<CP, String>,
>(
    pre: ArenaModel<RP, CP>,
    post: ArenaModel<RP, CP>,
    hs: Seq<TaggedHandle>,
    upto: int,
    module: M,
    fr: FR,
    fc: FC,
    failures: Seq<ReloadFailure>,
) -> bool {
    &&& post.render_descriptors == pre.render_descriptors
    &&& post.compute_descriptors == pre.compute_descriptors
    &&& post.paths == pre.paths
    &&& post.render_pipelines.len() == pre.render_pipelines.len()
    &&& post.compute_pipelines.len() == pre.compute_pipelines.len()
    &&& forall|j: int|
        0 <= j < pre.render_pipelines.len() && !contains_render_slot(hs.take(upto), j)
            ==> #[trigger] post.render_pipelines[j] == pre.render_pipelines[j]
    &&& forall|j: int|
        0 <= j < pre.compute_pipelines.len() && !contains_compute_slot(hs.take(upto), j)
            ==> #[trigger] post.compute_pipelines[j] == pre.compute_pipelines[j]
    &&& forall|t: int|
        0 <= t < upto ==> reload_step_done(pre, post, module, fr, fc, failures, #[trigger] hs[t])
    &&& forall|q: int|
        0 <= q < failures.len() ==> exists|t: int|
            0 <= t < upto && hs[t] == (#[trigger] failures[q]).handle
}

/// One render step of a reload: when `reload_applied` holds up to `k`,
/// `hs[k]` names a render slot, and `post` differs from `snap` only by that
/// slot's outcome, then `reload_applied` holds up to `k + 1`.
proof fn lemma_reload_render_step<
    RP,
    CP,
    M,
    FR: Fn(&M, &RenderPipelineDescriptor) -> Result<RP, String>,
    FC: Fn(&M, &ComputePipelineDescriptor) -> Result<CP, String>,
>(
    pre: ArenaModel<RP, CP>,
    snap: ArenaModel<RP, CP>,
    post: ArenaModel<RP, CP>,
    hs: Seq<TaggedHandle>,
    k: int,
    module: M,
    fr: FR,
    fc: FC,
    failures0: Seq<ReloadFailure>,
    failures1: Seq<ReloadFailure>,
    h: RenderHandle,
    outcome: Option<String>,
)
    requires
        0 <= k < hs.len(),
        hs[k] == TaggedHandle::Render(h),
        0 <= h@ < pre.render_pipelines.len(),
        forall|t: int| 0 <= t < k ==> hs[t] != hs[k],
        forall|t: int|
            0 <= t < hs.len() ==> handle_in_range(
                #[trigger] hs[t],
                pre.render_pipelines.len() as int,
                pre.compute_pipelines.len() as int,
            ),
        reload_applied(pre, snap, hs, k, module, fr, fc, failures0),
        post.render_descriptors == snap.render_descriptors,
        post.compute_descriptors == snap.compute_descriptors,
        post.paths == snap.paths,
        post.compute_pipelines == snap.compute_pipelines,
        post.render_pipelines.len() == snap.render_pipelines.len(),
        forall|j: int|
            0 <= j < snap.render_pipelines.len() && j != h@ ==> post.render_pipelines[j]
                == snap.render_pipelines[j],
        match outcome {
            None => failures1 == failures0 && call_ensures(
                fr,
                (&module, &pre.render_descriptors[h@]),
                Ok::<RP, String>(post.render_pipelines[h@]),
            ),
            Some(msg) => failures1 == failures0.push(
                ReloadFailure { handle: hs[k], message: msg },
            ) && post.render_pipelines[h@] == snap.render_pipelines[h@] && call_ensures(
                fr,
                (&module, &pre.render_descriptors[h@]),
                Err::<RP, String>(msg),
            ),
        },
    ensures
        reload_applied(pre, post, hs, k + 1, module, fr, fc, failures1),
{
    let take0 = hs.take(k);
    let take1 = hs.take(k + 1);
    assert(take1 =~= take0.push(hs[k]));
    assert(take1[k] == hs[k]);
    assert(hs[k].is_render_slot(h@));
    assert(contains_render_slot(take1, h@));
    assert(forall|q: int| 0 <= q < failures0.len() ==> failures1[q] == failures0[q]);
    // the replayed slot was untouched by the earlier steps
    assert(!contains_render_slot(take0, h@)) by {
        if contains_render_slot(take0, h@) {
            let t0 = choose|t0: int| 0 <= t0 < take0.len() && #[trigger] take0[t0].is_render_slot(
                h@,
            );
            assert(take0[t0] == hs[t0]);
            match take0[t0] {
                TaggedHandle::Render(h2) => {
                    lemma_render_handle_view(h2, h);
                    assert(hs[t0] == hs[k]);
                    assert(false);
                },
                TaggedHandle::Compute(_) => {
                    assert(false);
                },
            }
        }
    }
    assert(snap.render_pipelines[h@] == pre.render_pipelines[h@]);
    // untouched render slots stay at their pre-reload pipeline
    assert forall|j: int|
        0 <= j < pre.render_pipelines.len() && !contains_render_slot(
            take1,
            j,
        ) implies #[trigger] post.render_pipelines[j] == pre.render_pipelines[j] by {
        assert(j != h@);
        assert(!contains_render_slot(take0, j)) by {
            if contains_render_slot(take0, j) {
                let t0 = choose|t0: int|
                    0 <= t0 < take0.len() && #[trigger] take0[t0].is_render_slot(j);
                assert(take1[t0] == take0[t0]);
                assert(contains_render_slot(take1, j));
            }
        }
        assert(snap.render_pipelines[j] == pre.render_pipelines[j]);
        assert(post.render_pipelines[j] == snap.render_pipelines[j]);
    }
    // untouched compute slots likewise (this step touched none)
    assert forall|j: int|
        0 <= j < pre.compute_pipelines.len() && !contains_compute_slot(
            take1,
            j,
        ) implies #[trigger] post.compute_pipelines[j] == pre.compute_pipelines[j] by {
        assert(!contains_compute_slot(take0, j)) by {
            if contains_compute_slot(take0, j) {
                let t0 = choose|t0: int|
                    0 <= t0 < take0.len() && #[trigger] take0[t0].is_compute_slot(j);
                assert(take1[t0] == take0[t0]);
                assert(contains_compute_slot(take1, j));
            }
        }
        assert(snap.compute_pipelines[j] == pre.compute_pipelines[j]);
    }
    // every replayed handle, the new one included, has its slot accounted for
    assert forall|t: int| 0 <= t < k + 1 implies reload_step_done(
        pre,
        post,
        module,
        fr,
        fc,
        failures1,
        #[trigger] hs[t],
    ) by {
        if t < k {
            assert(reload_step_done(pre, snap, module, fr, fc, failures0, hs[t]));
            assert(hs[t] != hs[k]);
            assert(handle_in_range(
                hs[t],
                pre.render_pipelines.len() as int,
                pre.compute_pipelines.len() as int,
            ));
            match hs[t] {
                TaggedHandle::Render(h2) => {
                    lemma_render_handle_view(h2, h);
                    assert(h2@ != h@);
                    assert(post.render_pipelines[h2@] == snap.render_pipelines[h2@]);
                    if call_ensures(
                        fr,
                        (&module, &pre.render_descriptors[h2@]),
                        Ok::<RP, String>(snap.render_pipelines[h2@]),
                    ) {
                        assert(render_slot_reloaded(
                            pre.render_pipelines,
                            pre.render_descriptors,
                            post.render_pipelines,
                            h2@,
                            module,
                            fr,
                            failures1,
                            hs[t],
                        ));
                    } else {
                        let q = choose|q: int|
                            0 <= q < failures0.len() && (#[trigger] failures0[q]).handle == hs[t]
                                && call_ensures(
                                fr,
                                (&module, &pre.render_descriptors[h2@]),
                                Err::<RP, String>(failures0[q].message),
                            );
                        assert(failures1[q] == failures0[q]);
                        assert(render_slot_reloaded(
                            pre.render_pipelines,
                            pre.render_descriptors,
                            post.render_pipelines,
                            h2@,
                            module,
                            fr,
                            failures1,
                            hs[t],
                        ));
                    }
                },
                TaggedHandle::Compute(h2) => {
                    assert(post.compute_pipelines == snap.compute_pipelines);
                    if call_ensures(
                        fc,
                        (&module, &pre.compute_descriptors[h2@]),
                        Ok::<CP, String>(snap.compute_pipelines[h2@]),
                    ) {
                        assert(compute_slot_reloaded(
                            pre.compute_pipelines,
                            pre.compute_descriptors,
                            post.compute_pipelines,
                            h2@,
                            module,
                            fc,
                            failures1,
                            hs[t],
                        ));
                    } else {
                        let q = choose|q: int|
                            0 <= q < failures0.len() && (#[trigger] failures0[q]).handle == hs[t]
                                && call_ensures(
                                fc,
                                (&module, &pre.compute_descriptors[h2@]),
                                Err::<CP, String>(failures0[q].message),
                            );
                        assert(failures1[q] == failures0[q]);
                        assert(compute_slot_reloaded(
                            pre.compute_pipelines,
                            pre.compute_descriptors,
                            post.compute_pipelines,
                            h2@,
                            module,
                            fc,
                            failures1,
                            hs[t],
                        ));
                    }
                },
            }
        } else {
            match outcome {
                None => {
                    assert(render_slot_reloaded(
                        pre.render_pipelines,
                        pre.render_descriptors,
                        post.render_pipelines,
                        h@,
                        module,
                        fr,
                        failures1,
                        hs[k],
                    ));
                },
                Some(msg) => {
                    let q = failures0.len() as int;
                    assert(failures1[q] == ReloadFailure { handle: hs[k], message: msg });
                    assert(post.render_pipelines[h@] == pre.render_pipelines[h@]);
                    assert(render_slot_reloaded(
                        pre.render_pipelines,
                        pre.render_descriptors,
                        post.render_pipelines,
                        h@,
                        module,
                        fr,
                        failures1,
                        hs[k],
                    ));
                },
            }
        }
    }
    // every reported failure belongs to a replayed handle
    assert forall|q: int| 0 <= q < failures1.len() implies exists|t: int|
        0 <= t < k + 1 && hs[t] == (#[trigger] failures1[q]).handle by {
        if q < failures0.len() {
            assert(failures1[q] == failures0[q]);
            let t0 = choose|t0: int| 0 <= t0 < k && hs[t0] == (#[trigger] failures0[q]).handle;
            assert(0 <= t0 < k + 1 && hs[t0] == failures1[q].handle);
        } else {
            match outcome {
                None => {
                    assert(false);
                },
                Some(msg) => {
                    assert(q == failures0.len());
                    assert(failures1[q].handle == hs[k]);
                },
            }
        }
    }
}

/// Compute analog of [`lemma_reload_render_step`].
proof fn lemma_reload_compute_step<
    RP,
    CP,
    M,
    FR: Fn(&M, &RenderPipelineDescriptor) -> Result<RP, String>,
    FC: Fn(&M, &ComputePipelineDescriptor) -> Result<CP, String>,
>(
    pre: ArenaModel<RP, CP>,
    snap: ArenaModel<RP, CP>,
    post: ArenaModel<RP, CP>,
    hs: Seq<TaggedHandle>,
    k: int,
    module: M,
    fr: FR,
    fc: FC,
    failures0: Seq<ReloadFailure>,
    failures1: Seq<ReloadFailure>,
    h: ComputeHandle,
    outcome: Option<String>,
)
    requires
        0 <= k < hs.len(),
        hs[k] == TaggedHandle::Compute(h),
        0 <= h@ < pre.compute_pipelines.len(),
        forall|t: int| 0 <= t < k ==> hs[t] != hs[k],
        forall|t: int|
            0 <= t < hs.len() ==> handle_in_range(
                #[trigger] hs[t],
                pre.render_pipelines.len() as int,
                pre.compute_pipelines.len() as int,
            ),
        reload_applied(pre, snap, hs, k, module, fr, fc, failures0),
        post.render_descriptors == snap.render_descriptors,
        post.compute_descriptors == snap.compute_descriptors,
        post.paths == snap.paths,
        post.render_pipelines == snap.render_pipelines,
        post.compute_pipelines.len() == snap.compute_pipelines.len(),
        forall|j: int|
            0 <= j < snap.compute_pipelines.len() && j != h@ ==> post.compute_pipelines[j]
                == snap.compute_pipelines[j],
        match outcome {
            None => failures1 == failures0 && call_ensures(
                fc,
                (&module, &pre.compute_descriptors[h@]),
                Ok::<CP, String>(post.compute_pipelines[h@]),
            ),
            Some(msg) => failures1 == failures0.push(
                ReloadFailure { handle: hs[k], message: msg },
            ) && post.compute_pipelines[h@] == snap.compute_pipelines[h@] && call_ensures(
                fc,
                (&module, &pre.compute_descriptors[h@]),
                Err::<CP, String>(msg),
            ),
        },
    ensures
        reload_applied(pre, post, hs, k + 1, module, fr, fc, failures1),
{
    let take0 = hs.take(k);
    let take1 = hs.take(k + 1);
    assert(take1 =~= take0.push(hs[k]));
    assert(take1[k] == hs[k]);
    assert(hs[k].is_compute_slot(h@));
    assert(contains_compute_slot(take1, h@));
    assert(forall|q: int| 0 <= q < failures0.len() ==> failures1[q] == failures0[q]);
    assert(!contains_compute_slot(take0, h@)) by {
        if contains_compute_slot(take0, h@) {
            let t0 = choose|t0: int| 0 <= t0 < take0.len() && #[trigger] take0[t0].is_compute_slot(
                h@,
            );
            assert(take0[t0] == hs[t0]);
            match take0[t0] {
                TaggedHandle::Compute(h2) => {
                    lemma_compute_handle_view(h2, h);
                    assert(hs[t0] == hs[k]);
                    assert(false);
                },
                TaggedHandle::Render(_) => {
                    assert(false);
                },
            }
        }
    }
    assert(snap.compute_pipelines[h@] == pre.compute_pipelines[h@]);
    assert forall|j: int|
        0 <= j < pre.compute_pipelines.len() && !contains_compute_slot(
            take1,
            j,
        ) implies #[trigger] post.compute_pipelines[j] == pre.compute_pipelines[j] by {
        assert(j != h@);
        assert(!contains_compute_slot(take0, j)) by {
            if contains_compute_slot(take0, j) {
                let t0 = choose|t0: int|
                    0 <= t0 < take0.len() && #[trigger] take0[t0].is_compute_slot(j);
                assert(take1[t0] == take0[t0]);
                assert(contains_compute_slot(take1, j));
            }
        }
        assert(snap.compute_pipelines[j] == pre.compute_pipelines[j]);
        assert(post.compute_pipelines[j] == snap.compute_pipelines[j]);
    }
    assert forall|j: int|
        0 <= j < pre.render_pipelines.len() && !contains_render_slot(
            take1,
            j,
        ) implies #[trigger] post.render_pipelines[j] == pre.render_pipelines[j] by {
        assert(!contains_render_slot(take0, j)) by {
            if contains_render_slot(take0, j) {
                let t0 = choose|t0: int|
                    0 <= t0 < take0.len() && #[trigger] take0[t0].is_render_slot(j);
                assert(take1[t0] == take0[t0]);
                assert(contains_render_slot(take1, j));
            }
        }
        assert(snap.render_pipelines[j] == pre.render_pipelines[j]);
    }
    assert forall|t: int| 0 <= t < k + 1 implies reload_step_done(
        pre,
        post,
        module,
        fr,
        fc,
        failures1,
        #[trigger] hs[t],
    ) by {
        if t < k {
            assert(reload_step_done(pre, snap, module, fr, fc, failures0, hs[t]));
            assert(hs[t] != hs[k]);
            assert(handle_in_range(
                hs[t],
                pre.render_pipelines.len() as int,
                pre.compute_pipelines.len() as int,
            ));
            match hs[t] {
                TaggedHandle::Compute(h2) => {
                    lemma_compute_handle_view(h2, h);
                    assert(h2@ != h@);
                    assert(post.compute_pipelines[h2@] == snap.compute_pipelines[h2@]);
                    if call_ensures(
                        fc,
                        (&module, &pre.compute_descriptors[h2@]),
                        Ok::<CP, String>(snap.compute_pipelines[h2@]),
                    ) {
                        assert(compute_slot_reloaded(
                            pre.compute_pipelines,
                            pre.compute_descriptors,
                            post.compute_pipelines,
                            h2@,
                            module,
                            fc,
                            failures1,
                            hs[t],
                        ));
                    } else {
                        let q = choose|q: int|
                            0 <= q < failures0.len() && (#[trigger] failures0[q]).handle == hs[t]
                                && call_ensures(
                                fc,
                                (&module, &pre.compute_descriptors[h2@]),
                                Err::<CP, String>(failures0[q].message),
                            );
                        assert(failures1[q] == failures0[q]);
                        assert(compute_slot_reloaded(
                            pre.compute_pipelines,
                            pre.compute_descriptors,
                            post.compute_pipelines,
                            h2@,
                            module,
                            fc,
                            failures1,
                            hs[t],
                        ));
                    }
                },
                TaggedHandle::Render(h2) => {
                    assert(post.render_pipelines == snap.render_pipelines);
                    if call_ensures(
                        fr,
                        (&module, &pre.render_descriptors[h2@]),
                        Ok::<RP, String>(snap.render_pipelines[h2@]),
                    ) {
                        assert(render_slot_reloaded(
                            pre.render_pipelines,
                            pre.render_descriptors,
                            post.render_pipelines,
                            h2@,
                            module,
                            fr,
                            failures1,
                            hs[t],
                        ));
                    } else {
                        let q = choose|q: int|
                            0 <= q < failures0.len() && (#[trigger] failures0[q]).handle == hs[t]
                                && call_ensures(
                                fr,
                                (&module, &pre.render_descriptors[h2@]),
                                Err::<RP, String>(failures0[q].message),
                            );
                        assert(failures1[q] == failures0[q]);
                        assert(render_slot_reloaded(
                            pre.render_pipelines,
                            pre.render_descriptors,
                            post.render_pipelines,
                            h2@,
                            module,
                            fr,
                            failures1,
                            hs[t],
                        ));
                    }
                },
            }
        } else {
            match outcome {
                None => {
                    assert(compute_slot_reloaded(
                        pre.compute_pipelines,
                        pre.compute_descriptors,
                        post.compute_pipelines,
                        h@,
                        module,
                        fc,
                        failures1,
                        hs[k],
                    ));
                },
                Some(msg) => {
                    let q = failures0.len() as int;
                    assert(failures1[q] == ReloadFailure { handle: hs[k], message: msg });
                    assert(post.compute_pipelines[h@] == pre.compute_pipelines[h@]);
                    assert(compute_slot_reloaded(
                        pre.compute_pipelines,
                        pre.compute_descriptors,
                        post.compute_pipelines,
                        h@,
                        module,
                        fc,
                        failures1,
                        hs[k],
                    ));
                },
            }
        }
    }
    assert forall|q: int| 0 <= q < failures1.len() implies exists|t: int|
        0 <= t < k + 1 && hs[t] == (#[trigger] failures1[q]).handle by {
        if q < failures0.len() {
            assert(failures1[q] == failures0[q]);
            let t0 = choose|t0: int| 0 <= t0 < k && hs[t0] == (#[trigger] failures0[q]).handle;
            assert(0 <= t0 < k + 1 && hs[t0] == failures1[q].handle);
        } else {
            match outcome {
                None => {
                    assert(false);
                },
                Some(msg) => {
                    assert(q == failures0.len());
                    assert(failures1[q].handle == hs[k]);
                },
            }
        }
    }
}

/// Dedup law for render pipelines: the arena holds at most one render slot
/// per descriptor value, so once a descriptor value has been processed (its
/// value stored at slot `h1`), any later request with an equal descriptor
/// takes the cache-hit branch of [`Arena::process_render_pipeline`]: by
/// that function's contract it returns the slot whose stored descriptor
/// carries the requested value — which this lemma pins to `h1` — and leaves
/// the arena unchanged, so the backend materializes at most once per
/// distinct descriptor value.
pub proof fn lemma_render_dedup<RP, CP>(
    m: ArenaModel<RP, CP>,
    d1: RenderPipelineDescriptor,
    d2: RenderPipelineDescriptor,
    h1: int,
)
    requires
        m.inv(),
        d1.deep_view() == d2.deep_view(),
        0 <= h1 < m.render_descriptors.len(),
        m.render_descriptors[h1].deep_view() == d1.deep_view(),
    ensures
        has_value(m.render_dvs(), d2.deep_view()),
        forall|j: int|
            0 <= j < m.render_descriptors.len() && m.render_descriptors[j].deep_view()
                == d2.deep_view() ==> j == h1,
{
    assert(m.render_dvs()[h1] == m.render_descriptors[h1].deep_view());
    assert forall|j: int|
        0 <= j < m.render_descriptors.len() && m.render_descriptors[j].deep_view()
            == d2.deep_view() implies j == h1 by {
        assert(m.render_dvs()[j] == m.render_descriptors[j].deep_view());
    }
}

/// Dedup law for compute pipelines, the mirror image of
/// [`lemma_render_dedup`].
pub proof fn lemma_compute_dedup<RP, CP>(
    m: ArenaModel<RP, CP>,
    d1: ComputePipelineDescriptor,
    d2: ComputePipelineDescriptor,
    h1: int,
)
    requires
        m.inv(),
        d1.deep_view() == d2.deep_view(),
        0 <= h1 < m.compute_descriptors.len(),
        m.compute_descriptors[h1].deep_view() == d1.deep_view(),
    ensures
        has_value(m.compute_dvs(), d2.deep_view()),
        forall|j: int|
            0 <= j < m.compute_descriptors.len() && m.compute_descriptors[j].deep_view()
                == d2.deep_view() ==> j == h1,
{
    assert(m.compute_dvs()[h1] == m.compute_descriptors[h1].deep_view());
    assert forall|j: int|
        0 <= j < m.compute_descriptors.len() && m.compute_descriptors[j].deep_view()
            == d2.deep_view() implies j == h1 by {
        assert(m.compute_dvs()[j] == m.compute_descriptors[j].deep_view());
    }
}

/// Distinct-descriptor law: two render slots whose stored descriptor values
/// differ are distinct slots, so processing two structurally different
/// descriptors — against the same path or not — always yields two distinct
/// handles.
pub proof fn lemma_render_distinct<RP, CP>(m: ArenaModel<RP, CP>, i: int, j: int)
    requires
        m.inv(),
        0 <= i < m.render_descriptors.len(),
        0 <= j < m.render_descriptors.len(),
        m.render_descriptors[i].deep_view() != m.render_descriptors[j].deep_view(),
    ensures
        i != j,
{
}

/// Registration law: registering a handle under a path appends it to
/// exactly that path's handle list — creating the list when the path is new
/// — and leaves every other path's list untouched. Chained over two
/// registrations of distinct fresh handles under one path, the path ends up
/// listing both, so a reload of that path replays materialization for both.
pub proof fn lemma_spec_register(paths: Seq<PathEntryModel>, p: Seq<char>, th: TaggedHandle)
    requires
        forall|i: int, j: int| 0 <= i < j < paths.len() ==> paths[i].path != paths[j].path,
    ensures
        has_path(spec_register(paths, p, th), p),
        handles_of(spec_register(paths, p, th), p) == handles_of(paths, p).push(th),
        forall|p2: Seq<char>|
            p2 != p ==> #[trigger] handles_of(spec_register(paths, p, th), p2) == handles_of(
                paths,
                p2,
            ),
{
    let after = spec_register(paths, p, th);
    if has_path(paths, p) {
        let i = path_slot(paths, p);
        assert(0 <= i < paths.len() && paths[i].path == p);
        assert(after.len() == paths.len());
        assert(after[i].path == p);
        assert(has_path(after, p));
        assert forall|j: int| 0 <= j < after.len() && after[j].path == p implies j == i by {
            if j != i {
                assert(after[j] == paths[j]);
            }
        }
        assert(path_slot(after, p) == i);
        assert(handles_of(after, p) == paths[i].handles.push(th));
        assert(handles_of(paths, p) == paths[i].handles);
        assert forall|p2: Seq<char>| p2 != p implies #[trigger] handles_of(after, p2)
            == handles_of(paths, p2) by {
            if has_path(paths, p2) {
                let j = path_slot(paths, p2);
                assert(0 <= j < paths.len() && paths[j].path == p2);
                assert(j != i);
                assert(after[j] == paths[j]);
                assert(has_path(after, p2));
                let j2 = path_slot(after, p2);
                assert(0 <= j2 < after.len() && after[j2].path == p2);
                assert(j2 != i);
                assert(after[j2] == paths[j2]);
                assert(j2 == j);
            } else {
                if has_path(after, p2) {
                    let j2 = path_slot(after, p2);
                    assert(0 <= j2 < after.len() && after[j2].path == p2);
                    assert(j2 != i);
                    assert(paths[j2].path == p2);
                    assert(has_path(paths, p2));
                }
            }
        }
    } else {
        let n = paths.len() as int;
        assert(after =~= paths.push(PathEntryModel { path: p, handles: seq![th] }));
        assert(after[n].path == p);
        assert(has_path(after, p));
        assert forall|j: int| 0 <= j < after.len() && after[j].path == p implies j == n by {
            if j != n {
                assert(after[j] == paths[j]);
                assert(has_path(paths, p));
            }
        }
        assert(path_slot(after, p) == n);
        assert(handles_of(after, p) == seq![th]);
        assert(handles_of(paths, p) == Seq::<TaggedHandle>::empty());
        assert(Seq::<TaggedHandle>::empty().push(th) =~= seq![th]);
        assert forall|p2: Seq<char>| p2 != p implies #[trigger] handles_of(after, p2)
            == handles_of(paths, p2) by {
            if has_path(paths, p2) {
                let j = path_slot(paths, p2);
                assert(0 <= j < paths.len() && paths[j].path == p2);
                assert(after[j] == paths[j]);
                assert(has_path(after, p2));
                let j2 = path_slot(after, p2);
                assert(0 <= j2 < after.len() && after[j2].path == p2);
                assert(j2 != n);
                assert(after[j2] == paths[j2]);
                assert(j2 == j);
            } else {
                if has_path(after, p2) {
                    let j2 = path_slot(after, p2);
                    assert(0 <= j2 < after.len() && after[j2].path == p2);
                    assert(j2 != n);
                    assert(paths[j2].path == p2);
                    assert(has_path(paths, p2));
                }
            }
        }
    }
}

/// Reload law for render handles: a reload never invalidates a handle. The
/// tables keep their sizes and descriptors, and a render handle registered
/// under the reloaded path points at a slot that either holds the freshly
/// rematerialized pipeline or — only when its own rematerialization failed,
/// with the failure reported — its previous one.
pub proof fn lemma_reload_render_handle<
    RP,
    CP,
    M,
    FR: Fn(&M, &RenderPipelineDescriptor) -> Result<RP, String>,
    FC: Fn(&M, &ComputePipelineDescriptor) -> Result<CP, String>,
>(
    pre: ArenaModel<RP, CP>,
    post: ArenaModel<RP, CP>,
    hs: Seq<TaggedHandle>,
    module: M,
    fr: FR,
    fc: FC,
    failures: Seq<ReloadFailure>,
    h: RenderHandle,
)
    requires
        reload_applied(pre, post, hs, hs.len() as int, module, fr, fc, failures),
        0 <= h@ < pre.render_pipelines.len(),
    ensures
        0 <= h@ < post.render_pipelines.len(),
        post.render_descriptors == pre.render_descriptors,
        !contains_render_slot(hs, h@) ==> post.render_pipelines[h@] == pre.render_pipelines[h@],
        has_value(hs, TaggedHandle::Render(h)) ==> render_slot_reloaded(
            pre.render_pipelines,
            pre.render_descriptors,
            post.render_pipelines,
            h@,
            module,
            fr,
            failures,
            TaggedHandle::Render(h),
        ),
{
    assert(hs.take(hs.len() as int) =~= hs);
    if has_value(hs, TaggedHandle::Render(h)) {
        let t = choose|t: int| 0 <= t < hs.len() && hs[t] == TaggedHandle::Render(h);
        assert(reload_step_done(pre, post, module, fr, fc, failures, hs[t]));
    }
}

/// Reload law for compute handles, the mirror image of
/// [`lemma_reload_render_handle`].
pub proof fn lemma_reload_compute_handle<
    RP,
    CP,
    M,
    FR: Fn(&M, &RenderPipelineDescriptor) -> Result<RP, String>,
    FC: Fn(&M, &ComputePipelineDescriptor) -> Result<CP, String>,
>(
    pre: ArenaModel<RP, CP>,
    post: ArenaModel<RP, CP>,
    hs: Seq<TaggedHandle>,
    module: M,
    fr: FR,
    fc: FC,
    failures: Seq<ReloadFailure>,
    h: ComputeHandle,
)
    requires
        reload_applied(pre, post, hs, hs.len() as int, module, fr, fc, failures),
        0 <= h@ < pre.compute_pipelines.len(),
    ensures
        0 <= h@ < post.compute_pipelines.len(),
        post.compute_descriptors == pre.compute_descriptors,
        !contains_compute_slot(hs, h@) ==> post.compute_pipelines[h@] == pre.compute_pipelines[h@],
        has_value(hs, TaggedHandle::Compute(h)) ==> compute_slot_reloaded(
            pre.compute_pipelines,
            pre.compute_descriptors,
            post.compute_pipelines,
            h@,
            module,
            fc,
            failures,
            TaggedHandle::Compute(h),
        ),
{
    assert(hs.take(hs.len() as int) =~= hs);
    if has_value(hs, TaggedHandle::Compute(h)) {
        let t = choose|t: int| 0 <= t < hs.len() && hs[t] == TaggedHandle::Compute(h);
        assert(reload_step_done(pre, post, module, fr, fc, failures, hs[t]));
    }
}

/// The arena composing the two pipeline tables and the path registry.
///
/// `RP` and `CP` are the backend's compiled render and compute pipeline
/// object types; the arena stores them, swaps them on reload, and hands them
/// out by reference, but never looks inside them.
pub struct Arena<RP, CP> {
    render: SubArena<RP, RenderPipelineDescriptor>,
    compute: SubArena<CP, ComputePipelineDescriptor>,
    path_mapping: Vec<PathEntry>,
}

/// Mathematical value of the path registry.
closed spec fn paths_view(s: Seq<PathEntry>) -> Seq<PathEntryModel> {
    Seq::new(s.len(), |i: int| PathEntryModel { path: s[i].path@, handles: s[i].handles@ })
}

impl<RP, CP> View for Arena<RP, CP> {
    type V = ArenaModel<RP, CP>;

    closed spec fn view(&self) -> ArenaModel<RP, CP> {
        ArenaModel {
            render_pipelines: self.render.pipelines@,
            render_descriptors: self.render.descriptors@,
            compute_pipelines: self.compute.pipelines@,
            compute_descriptors: self.compute.descriptors@,
            paths: paths_view(self.path_mapping@),
        }
    }
}

impl<RP, CP> Arena<RP, CP> {
    /// An arena with no pipelines and no watched paths.
    pub fn new() -> (a: Arena<RP, CP>)
        ensures
            a@.inv(),
            a@.render_pipelines.len() == 0,
            a@.render_descriptors.len() == 0,
            a@.compute_pipelines.len() == 0,
            a@.compute_descriptors.len() == 0,
            a@.paths.len() == 0,
    {
        Arena {
            render: SubArena::empty(),
            compute: SubArena::empty(),
            path_mapping: Vec::new(),
        }
    }

    /// The registry entry index for `path`, if the path is registered.
    fn path_index(&self, path: &String) -> (r: Option<usize>)
        ensures
            match r {
                Some(i) => i < self@.paths.len() && self@.paths[i as int].path == path@,
                None => !has_path(self@.paths, path@),
            },
    {
        let n = self.path_mapping.len();
        let mut i: usize = 0;
        while i < n
            invariant
                n == self.path_mapping@.len(),
                i <= n,
                forall|j: int| 0 <= j < i ==> self.path_mapping@[j].path@ != path@,
            decreases n - i,
        {
            if self.path_mapping[i].path == *path {
                proof {
                    assert(self@.paths[i as int].path == path@);
                }
                return Some(i);
            }
            i = i + 1;
        }
        proof {
            assert forall|j: int| 0 <= j < self@.paths.len() implies #[trigger] self@.paths[j].path
                != path@ by {
                assert(self@.paths[j].path == self.path_mapping@[j].path@);
            }
        }
        None
    }

    /// Appends `th` under `path`, creating the entry if the path is new.
    fn register_path(&mut self, path: &String, th: TaggedHandle)
        requires
            old(self)@.inv(),
            handle_in_range(
                th,
                old(self)@.render_pipelines.len() as int,
                old(self)@.compute_pipelines.len() as int,
            ),
            !registry_contains(old(self)@.paths, th),
        ensures
            final(self)@.inv(),
            final(self)@.render_pipelines == old(self)@.render_pipelines,
            final(self)@.render_descriptors == old(self)@.render_descriptors,
            final(self)@.compute_pipelines == old(self)@.compute_pipelines,
            final(self)@.compute_descriptors == old(self)@.compute_descriptors,
            final(self)@.paths == spec_register(old(self)@.paths, path@, th),
    {
        let found = self.path_index(path);
        match found {
            Some(i) => {
                let entry = &mut self.path_mapping[i];
                entry.handles.push(th);
                proof {
                    let oldp = old(self)@.paths;
                    let i_spec = path_slot(oldp, path@);
                    assert(oldp[i as int].path == path@);
                    assert(i_spec == i as int);
                    assert(final(self)@.paths =~= spec_register(oldp, path@, th));
                }
            },
            None => {
                let mut handles: Vec<TaggedHandle> = Vec::new();
                handles.push(th);
                let entry = PathEntry { path: path.clone(), handles };
                self.path_mapping.push(entry);
                proof {
                    assert(final(self)@.paths =~= spec_register(old(self)@.paths, path@, th));
                }
            },
        }
    }

    /// Returns the handle for this render descriptor, asking the backend
    /// (through `make`) to materialize a pipeline only when no pipeline with
    /// this descriptor value exists yet.
    ///
    /// - On a cache hit the existing handle is returned and nothing changes;
    ///   `make` is not invoked, and the handle may already be registered
    ///   under a different path than the one supplied here.
    /// - On a miss with `make` succeeding, the pipeline is stored in a fresh
    ///   slot, the descriptor is recorded for later reloads, and the new
    ///   handle is registered under `path`.
    /// - On a miss with `make` failing, the error is returned and the arena
    ///   is left exactly as it was: no partial state.
    pub fn process_render_pipeline<F: FnOnce(&RenderPipelineDescriptor) -> Result<RP, String>>(
        &mut self,
        path: &String,
        descriptor: RenderPipelineDescriptor,
        make: F,
    ) -> (r: Result<RenderHandle, PipelineError>)
        requires
            old(self)@.inv(),
            call_requires(make, (&descriptor,)),
        ensures
            final(self)@.inv(),
            final(self)@.compute_pipelines == old(self)@.compute_pipelines,
            final(self)@.compute_descriptors == old(self)@.compute_descriptors,
            match r {
                Ok(h) => if has_value(old(self)@.render_dvs(), descriptor.deep_view()) {
                    &&& final(self)@ == old(self)@
                    &&& 0 <= h@ < old(self)@.render_descriptors.len()
                    &&& old(self)@.render_descriptors[h@].deep_view() == descriptor.deep_view()
                } else {
                    &&& h@ == old(self)@.render_pipelines.len()
                    &&& final(self)@.render_descriptors == old(self)@.render_descriptors.push(
                        descriptor,
                    )
                    &&& final(self)@.render_pipelines == old(self)@.render_pipelines.push(
                        final(self)@.render_pipelines.last(),
                    )
                    &&& call_ensures(
                        make,
                        (&descriptor,),
                        Ok::<RP, String>(final(self)@.render_pipelines.last()),
                    )
                    &&& final(self)@.paths == spec_register(
                        old(self)@.paths,
                        path@,
                        TaggedHandle::Render(h),
                    )
                },
                Err(PipelineError::Materialize(msg)) => {
                    &&& final(self)@ == old(self)@
                    &&& !has_value(old(self)@.render_dvs(), descriptor.deep_view())
                    &&& call_ensures(make, (&descriptor,), Err::<RP, String>(msg))
                },
                Err(_) => false,
            },
    {
        proof {
            assert(old(self)@.render_dvs() =~= old(self).render.dvs());
        }
        match self.render.process_pipeline(descriptor, make) {
            Ok((i, inserted)) => {
                let h = RenderHandle::from_index(i);
                if inserted {
                    proof {
                        assert(self@.render_dvs() =~= self.render.dvs());
                        assert(self@.paths == old(self)@.paths);
                        assert forall|i2: int, t: int|
                            0 <= i2 < self@.paths.len() && 0 <= t
                                < self@.paths[i2].handles.len() implies handle_in_range(
                            #[trigger] self@.paths[i2].handles[t],
                            self@.render_pipelines.len() as int,
                            self@.compute_pipelines.len() as int,
                        ) by {
                            assert(handle_in_range(
                                self@.paths[i2].handles[t],
                                old(self)@.render_pipelines.len() as int,
                                old(self)@.compute_pipelines.len() as int,
                            ));
                        }
                        assert(self@.inv());
                        assert(!registry_contains(self@.paths, TaggedHandle::Render(h))) by {
                            assert forall|i2: int, t: int|
                                0 <= i2 < self@.paths.len() && 0 <= t
                                    < self@.paths[i2].handles.len() implies #[trigger] self@.paths[i2].handles[t]
                                != TaggedHandle::Render(h) by {
                                assert(handle_in_range(
                                    self@.paths[i2].handles[t],
                                    old(self)@.render_pipelines.len() as int,
                                    old(self)@.compute_pipelines.len() as int,
                                ));
                            }
                        }
                    }
                    self.register_path(path, TaggedHandle::Render(h));
                }
                Ok(h)
            },
            Err(msg) => Err(PipelineError::Materialize(msg)),
        }
    }

    /// Compute analog of [`Arena::process_render_pipeline`], over the
    /// compute pipeline table and namespace.
    pub fn process_compute_pipeline<F: FnOnce(&ComputePipelineDescriptor) -> Result<CP, String>>(
        &mut self,
        path: &String,
        descriptor: ComputePipelineDescriptor,
        make: F,
    ) -> (r: Result<ComputeHandle, PipelineError>)
        requires
            old(self)@.inv(),
            call_requires(make, (&descriptor,)),
        ensures
            final(self)@.inv(),
            final(self)@.render_pipelines == old(self)@.render_pipelines,
            final(self)@.render_descriptors == old(self)@.render_descriptors,
            match r {
                Ok(h) => if has_value(old(self)@.compute_dvs(), descriptor.deep_view()) {
                    &&& final(self)@ == old(self)@
                    &&& 0 <= h@ < old(self)@.compute_descriptors.len()
                    &&& old(self)@.compute_descriptors[h@].deep_view() == descriptor.deep_view()
                } else {
                    &&& h@ == old(self)@.compute_pipelines.len()
                    &&& final(self)@.compute_descriptors == old(self)@.compute_descriptors.push(
                        descriptor,
                    )
                    &&& final(self)@.compute_pipelines == old(self)@.compute_pipelines.push(
                        final(self)@.compute_pipelines.last(),
                    )
                    &&& call_ensures(
                        make,
                        (&descriptor,),
                        Ok::<CP, String>(final(self)@.compute_pipelines.last()),
                    )
                    &&& final(self)@.paths == spec_register(
                        old(self)@.paths,
                        path@,
                        TaggedHandle::Compute(h),
                    )
                },
                Err(PipelineError::Materialize(msg)) => {
                    &&& final(self)@ == old(self)@
                    &&& !has_value(old(self)@.compute_dvs(), descriptor.deep_view())
                    &&& call_ensures(make, (&descriptor,), Err::<CP, String>(msg))
                },
                Err(_) => false,
            },
    {
        proof {
            assert(old(self)@.compute_dvs() =~= old(self).compute.dvs());
        }
        match self.compute.process_pipeline(descriptor, make) {
            Ok((i, inserted)) => {
                let h = ComputeHandle::from_index(i);
                if inserted {
                    proof {
                        assert(self@.compute_dvs() =~= self.compute.dvs());
                        assert(self@.paths == old(self)@.paths);
                        assert forall|i2: int, t: int|
                            0 <= i2 < self@.paths.len() && 0 <= t
                                < self@.paths[i2].handles.len() implies handle_in_range(
                            #[trigger] self@.paths[i2].handles[t],
                            self@.render_pipelines.len() as int,
                            self@.compute_pipelines.len() as int,
                        ) by {
                            assert(handle_in_range(
                                self@.paths[i2].handles[t],
                                old(self)@.render_pipelines.len() as int,
                                old(self)@.compute_pipelines.len() as int,
                            ));
                        }
                        assert(self@.inv());
                        assert(!registry_contains(self@.paths, TaggedHandle::Compute(h))) by {
                            assert forall|i2: int, t: int|
                                0 <= i2 < self@.paths.len() && 0 <= t
                                    < self@.paths[i2].handles.len() implies #[trigger] self@.paths[i2].handles[t]
                                != TaggedHandle::Compute(h) by {
                                assert(handle_in_range(
                                    self@.paths[i2].handles[t],
                                    old(self)@.render_pipelines.len() as int,
                                    old(self)@.compute_pipelines.len() as int,
                                ));
                            }
                        }
                    }
                    self.register_path(path, TaggedHandle::Compute(h));
                }
                Ok(h)
            },
            Err(msg) => Err(PipelineError::Materialize(msg)),
        }
    }

    /// Compiles the shader module at `path` through the backend's `compile`
    /// closure, then proceeds as [`Arena::process_render_pipeline`] with
    /// `materialize` applied to that module. A compile failure aborts before
    /// any cache, table or registry mutation.
    pub fn process_render_pipeline_from_path<M, C, F>(
        &mut self,
        path: &String,
        descriptor: RenderPipelineDescriptor,
        compile: C,
        materialize: F,
    ) -> (r: Result<RenderHandle, PipelineError>) where
        C: FnOnce() -> Result<M, String>,
        F: FnOnce(&M, &RenderPipelineDescriptor) -> Result<RP, String>,

        requires
            old(self)@.inv(),
            call_requires(compile, ()),
            forall|m: &M, d: &RenderPipelineDescriptor| call_requires(materialize, (m, d)),
        ensures
            final(self)@.inv(),
            final(self)@.compute_pipelines == old(self)@.compute_pipelines,
            final(self)@.compute_descriptors == old(self)@.compute_descriptors,
            match r {
                Ok(h) => {
                    &&& (exists|m: M| call_ensures(compile, (), Ok::<M, String>(m)))
                    &&& if has_value(old(self)@.render_dvs(), descriptor.deep_view()) {
                        &&& final(self)@ == old(self)@
                        &&& 0 <= h@ < old(self)@.render_descriptors.len()
                        &&& old(self)@.render_descriptors[h@].deep_view() == descriptor.deep_view()
                    } else {
                        &&& h@ == old(self)@.render_pipelines.len()
                        &&& final(self)@.render_descriptors == old(self)@.render_descriptors.push(
                            descriptor,
                        )
                        &&& final(self)@.render_pipelines == old(self)@.render_pipelines.push(
                            final(self)@.render_pipelines.last(),
                        )
                        &&& exists|m: M|
                            #![auto]
                            call_ensures(compile, (), Ok::<M, String>(m)) && call_ensures(
                                materialize,
                                (&m, &descriptor),
                                Ok::<RP, String>(final(self)@.render_pipelines.last()),
                            )
                        &&& final(self)@.paths == spec_register(
                            old(self)@.paths,
                            path@,
                            TaggedHandle::Render(h),
                        )
                    }
                },
                Err(PipelineError::ShaderCompile(msg)) => {
                    &&& final(self)@ == old(self)@
                    &&& call_ensures(compile, (), Err::<M, String>(msg))
                },
                Err(PipelineError::Materialize(msg)) => {
                    &&& final(self)@ == old(self)@
                    &&& !has_value(old(self)@.render_dvs(), descriptor.deep_view())
                    &&& exists|m: M|
                        #![auto]
                        call_ensures(compile, (), Ok::<M, String>(m)) && call_ensures(
                            materialize,
                            (&m, &descriptor),
                            Err::<RP, String>(msg),
                        )
                },
                Err(_) => false,
            },
    {
        let ghost mat_g = materialize;
        let module = match compile() {
            Ok(m) => m,
            Err(msg) => {
                return Err(PipelineError::ShaderCompile(msg));
            },
        };
        let ghost module_g = module;
        let make = |d: &RenderPipelineDescriptor| -> (res: Result<RP, String>)
            ensures
                call_ensures(mat_g, (&module_g, d), res),
            { materialize(&module, d) };
        self.process_render_pipeline(path, descriptor, make)
    }

    /// Compute analog of [`Arena::process_render_pipeline_from_path`].
    pub fn process_compute_pipeline_from_path<M, C, F>(
        &mut self,
        path: &String,
        descriptor: ComputePipelineDescriptor,
        compile: C,
        materialize: F,
    ) -> (r: Result<ComputeHandle, PipelineError>) where
        C: FnOnce() -> Result<M, String>,
        F: FnOnce(&M, &ComputePipelineDescriptor) -> Result<CP, String>,

        requires
            old(self)@.inv(),
            call_requires(compile, ()),
            forall|m: &M, d: &ComputePipelineDescriptor| call_requires(materialize, (m, d)),
        ensures
            final(self)@.inv(),
            final(self)@.render_pipelines == old(self)@.render_pipelines,
            final(self)@.render_descriptors == old(self)@.render_descriptors,
            match r {
                Ok(h) => {
                    &&& (exists|m: M| call_ensures(compile, (), Ok::<M, String>(m)))
                    &&& if has_value(old(self)@.compute_dvs(), descriptor.deep_view()) {
                        &&& final(self)@ == old(self)@
                        &&& 0 <= h@ < old(self)@.compute_descriptors.len()
                        &&& old(self)@.compute_descriptors[h@].deep_view()
                            == descriptor.deep_view()
                    } else {
                        &&& h@ == old(self)@.compute_pipelines.len()
                        &&& final(self)@.compute_descriptors
                            == old(self)@.compute_descriptors.push(descriptor)
                        &&& final(self)@.compute_pipelines == old(self)@.compute_pipelines.push(
                            final(self)@.compute_pipelines.last(),
                        )
                        &&& exists|m: M|
                            #![auto]
                            call_ensures(compile, (), Ok::<M, String>(m)) && call_ensures(
                                materialize,
                                (&m, &descriptor),
                                Ok::<CP, String>(final(self)@.compute_pipelines.last()),
                            )
                        &&& final(self)@.paths == spec_register(
                            old(self)@.paths,
                            path@,
                            TaggedHandle::Compute(h),
                        )
                    }
                },
                Err(PipelineError::ShaderCompile(msg)) => {
                    &&& final(self)@ == old(self)@
                    &&& call_ensures(compile, (), Err::<M, String>(msg))
                },
                Err(PipelineError::Materialize(msg)) => {
                    &&& final(self)@ == old(self)@
                    &&& !has_value(old(self)@.compute_dvs(), descriptor.deep_view())
                    &&& exists|m: M|
                        #![auto]
                        call_ensures(compile, (), Ok::<M, String>(m)) && call_ensures(
                            materialize,
                            (&m, &descriptor),
                            Err::<CP, String>(msg),
                        )
                },
                Err(_) => false,
            },
    {
        let ghost mat_g = materialize;
        let module = match compile() {
            Ok(m) => m,
            Err(msg) => {
                return Err(PipelineError::ShaderCompile(msg));
            },
        };
        let ghost module_g = module;
        let make = |d: &ComputePipelineDescriptor| -> (res: Result<CP, String>)
            ensures
                call_ensures(mat_g, (&module_g, d), res),
            { materialize(&module, d) };
        self.process_compute_pipeline(path, descriptor, make)
    }

    /// The tagged handles registered under `path`, in registration order.
    /// Fails with [`PipelineError::UnknownPath`] when the path was never
    /// registered.
    pub fn handles_for(&self, path: &String) -> (r: Result<Vec<TaggedHandle>, PipelineError>)
        requires
            self@.inv(),
        ensures
            match r {
                Ok(v) => has_path(self@.paths, path@) && v@ == handles_of(self@.paths, path@),
                Err(PipelineError::UnknownPath) => !has_path(self@.paths, path@),
                Err(_) => false,
            },
    {
        match self.path_index(path) {
            Some(i) => {
                proof {
                    assert(has_path(self@.paths, path@));
                    assert(path_slot(self@.paths, path@) == i as int);
                }
                let entry_len = self.path_mapping[i].handles.len();
                let mut out: Vec<TaggedHandle> = Vec::new();
                let mut k: usize = 0;
                while k < entry_len
                    invariant
                        i < self.path_mapping@.len(),
                        entry_len == self.path_mapping@[i as int].handles@.len(),
                        k <= entry_len,
                        out@ =~= self.path_mapping@[i as int].handles@.take(k as int),
                    decreases entry_len - k,
                {
                    let th = self.path_mapping[i].handles[k];
                    out.push(th);
                    proof {
                        assert(out@ =~= self.path_mapping@[i as int].handles@.take(k + 1 as int));
                    }
                    k = k + 1;
                }
                proof {
                    assert(out@ =~= self@.paths[i as int].handles);
                }
                Ok(out)
            },
            None => Err(PipelineError::UnknownPath),
        }
    }

    /// Generic accessor dispatching on the handle's own namespace, as
    /// implemented by [`Handle`].
    pub fn get_pipeline<'a, H: Handle<RP, CP>>(&'a self, handle: H) -> (r: Result<
        &'a H::Pipeline,
        PipelineError,
    >)
        requires
            self@.inv(),
        ensures
            match r {
                Ok(p) => handle.valid(self) && *p == handle.spec_pipeline(self),
                Err(PipelineError::UnknownHandle) => !handle.valid(self),
                Err(_) => false,
            },
    {
        handle.get_pipeline(self)
    }

    /// Generic accessor for the descriptor a pipeline was built from.
    pub fn get_descriptor<'a, H: Handle<RP, CP>>(&'a self, handle: H) -> (r: Result<
        &'a H::Descriptor,
        PipelineError,
    >)
        requires
            self@.inv(),
        ensures
            match r {
                Ok(d) => handle.valid(self) && *d == handle.spec_descriptor(self),
                Err(PipelineError::UnknownHandle) => !handle.valid(self),
                Err(_) => false,
            },
    {
        handle.get_descriptor(self)
    }

    /// Render pipeline behind a tagged handle. A compute-tagged handle is
    /// rejected: the two namespaces are never interchangeable, even when
    /// the underlying slot indices coincide.
    pub fn render_pipeline_for(&self, th: TaggedHandle) -> (r: Result<&RP, PipelineError>)
        requires
            self@.inv(),
        ensures
            match r {
                Ok(p) => match th {
                    TaggedHandle::Render(h) => 0 <= h@ < self@.render_pipelines.len() && *p
                        == self@.render_pipelines[h@],
                    TaggedHandle::Compute(_) => false,
                },
                Err(PipelineError::UnknownHandle) => match th {
                    TaggedHandle::Render(h) => !(0 <= h@ < self@.render_pipelines.len()),
                    TaggedHandle::Compute(_) => true,
                },
                Err(_) => false,
            },
    {
        match th {
            TaggedHandle::Render(h) => {
                let i = h.index();
                if i < self.render.pipelines.len() {
                    Ok(&self.render.pipelines[i])
                } else {
                    Err(PipelineError::UnknownHandle)
                }
            },
            TaggedHandle::Compute(_) => Err(PipelineError::UnknownHandle),
        }
    }

    /// Compute pipeline behind a tagged handle; the mirror image of
    /// [`Arena::render_pipeline_for`], rejecting render-tagged handles.
    pub fn compute_pipeline_for(&self, th: TaggedHandle) -> (r: Result<&CP, PipelineError>)
        requires
            self@.inv(),
        ensures
            match r {
                Ok(p) => match th {
                    TaggedHandle::Compute(h) => 0 <= h@ < self@.compute_pipelines.len() && *p
                        == self@.compute_pipelines[h@],
                    TaggedHandle::Render(_) => false,
                },
                Err(PipelineError::UnknownHandle) => match th {
                    TaggedHandle::Compute(h) => !(0 <= h@ < self@.compute_pipelines.len()),
                    TaggedHandle::Render(_) => true,
                },
                Err(_) => false,
            },
    {
        match th {
            TaggedHandle::Compute(h) => {
                let i = h.index();
                if i < self.compute.pipelines.len() {
                    Ok(&self.compute.pipelines[i])
                } else {
                    Err(PipelineError::UnknownHandle)
                }
            },
            TaggedHandle::Render(_) => Err(PipelineError::UnknownHandle),
        }
    }

    /// Replays materialization for every pipeline built from `path`, called
    /// when the watch channel reports that the file changed.
    ///
    /// The module is recompiled exactly once, through `compile`. If that
    /// fails, the error is returned and every pipeline under `path` is left
    /// untouched: a broken shader edit never blanks out a running renderer.
    /// On success, each registered handle's slot is rebuilt in place from
    /// its stored descriptor; a slot whose materialization fails keeps its
    /// previous pipeline and the failure is reported in the result, without
    /// blocking the remaining handles. Handles are never invalidated.
    pub fn reload_pipelines<M, C, FR, FC>(
        &mut self,
        path: &String,
        compile: C,
        rematerialize_render: FR,
        rematerialize_compute: FC,
    ) -> (r: Result<Vec<ReloadFailure>, PipelineError>) where
        C: FnOnce() -> Result<M, String>,
        FR: Fn(&M, &RenderPipelineDescriptor) -> Result<RP, String>,
        FC: Fn(&M, &ComputePipelineDescriptor) -> Result<CP, String>,

        requires
            old(self)@.inv(),
            call_requires(compile, ()),
            forall|m: &M, d: &RenderPipelineDescriptor|
                call_requires(rematerialize_render, (m, d)),
            forall|m: &M, d: &ComputePipelineDescriptor|
                call_requires(rematerialize_compute, (m, d)),
        ensures
            final(self)@.inv(),
            match r {
                Ok(failures) => {
                    &&& has_path(old(self)@.paths, path@)
                    &&& exists|m: M|
                        (#[trigger] call_ensures(compile, (), Ok::<M, String>(m)))
                            && reload_applied(
                            old(self)@,
                            final(self)@,
                            handles_of(old(self)@.paths, path@),
                            handles_of(old(self)@.paths, path@).len() as int,
                            m,
                            rematerialize_render,
                            rematerialize_compute,
                            failures@,
                        )
                },
                Err(PipelineError::UnknownPath) => {
                    &&& final(self)@ == old(self)@
                    &&& !has_path(old(self)@.paths, path@)
                },
                Err(PipelineError::ShaderCompile(msg)) => {
                    &&& final(self)@ == old(self)@
                    &&& has_path(old(self)@.paths, path@)
                    &&& call_ensures(compile, (), Err::<M, String>(msg))
                },
                Err(_) => false,
            },
    {
        let pi = match self.path_index(path) {
            Some(i) => i,
            None => {
                return Err(PipelineError::UnknownPath);
            },
        };
        let module = match compile() {
            Ok(m) => m,
            Err(msg) => {
                proof {
                    assert(has_path(self@.paths, path@));
                }
                return Err(PipelineError::ShaderCompile(msg));
            },
        };
        let ghost hs = self@.paths[pi as int].handles;
        proof {
            assert(self.render.wf()) by {
                assert(self.render.dvs() =~= self@.render_dvs());
            }
            assert(self.compute.wf()) by {
                assert(self.compute.dvs() =~= self@.compute_dvs());
            }
            assert(hs.take(0) =~= Seq::<TaggedHandle>::empty());
            assert forall|t: int| 0 <= t < hs.len() implies handle_in_range(
                #[trigger] hs[t],
                self@.render_pipelines.len() as int,
                self@.compute_pipelines.len() as int,
            ) by {
                assert(handle_in_range(
                    self@.paths[pi as int].handles[t],
                    self@.render_pipelines.len() as int,
                    self@.compute_pipelines.len() as int,
                ));
            }
        }
        let mut failures: Vec<ReloadFailure> = Vec::new();
        let n = self.path_mapping[pi].handles.len();
        let mut k: usize = 0;
        while k < n
            invariant
                old(self)@.inv(),
                self.render.wf(),
                self.compute.wf(),
                self@.render_descriptors == old(self)@.render_descriptors,
                self@.compute_descriptors == old(self)@.compute_descriptors,
                self@.paths == old(self)@.paths,
                self@.render_pipelines.len() == old(self)@.render_pipelines.len(),
                self@.compute_pipelines.len() == old(self)@.compute_pipelines.len(),
                pi < self.path_mapping@.len(),
                hs == old(self)@.paths[pi as int].handles,
                old(self)@.paths[pi as int].path == path@,
                n == hs.len(),
                k <= n,
                forall|m: &M, d: &RenderPipelineDescriptor|
                    call_requires(rematerialize_render, (m, d)),
                forall|m: &M, d: &ComputePipelineDescriptor|
                    call_requires(rematerialize_compute, (m, d)),
                call_ensures(compile, (), Ok::<M, String>(module)),
                forall|t: int|
                    0 <= t < hs.len() ==> handle_in_range(
                        #[trigger] hs[t],
                        old(self)@.render_pipelines.len() as int,
                        old(self)@.compute_pipelines.len() as int,
                    ),
                reload_applied(
                    old(self)@,
                    self@,
                    hs,
                    k as int,
                    module,
                    rematerialize_render,
                    rematerialize_compute,
                    failures@,
                ),
            decreases n - k,
        {
            let ghost snap = self@;
            let ghost old_failures = failures@;
            let th = self.path_mapping[pi].handles[k];
            proof {
                assert(th == hs[k as int]);
                assert(handle_in_range(
                    old(self)@.paths[pi as int].handles[k as int],
                    old(self)@.render_pipelines.len() as int,
                    old(self)@.compute_pipelines.len() as int,
                ));
                assert(hs.take(k + 1 as int) =~= hs.take(k as int).push(hs[k as int]));
                assert forall|t: int| 0 <= t < k implies hs[t] != hs[k as int] by {
                    assert(old(self)@.paths[pi as int].handles[t] != old(
                        self,
                    )@.paths[pi as int].handles[k as int]);
                }
            }
            match th {
                TaggedHandle::Render(h) => {
                    let outcome = self.render.reload_pipeline(
                        h.index(),
                        &module,
                        &rematerialize_render,
                    );
                    let ghost om = outcome;
                    match outcome {
                        Some(msg) => {
                            failures.push(ReloadFailure { handle: th, message: msg });
                        },
                        None => {},
                    }
                    proof {
                        lemma_reload_render_step(
                            old(self)@,
                            snap,
                            self@,
                            hs,
                            k as int,
                            module,
                            rematerialize_render,
                            rematerialize_compute,
                            old_failures,
                            failures@,
                            h,
                            om,
                        );
                    }
                },
                TaggedHandle::Compute(h) => {
                    let outcome = self.compute.reload_pipeline(
                        h.index(),
                        &module,
                        &rematerialize_compute,
                    );
                    let ghost om = outcome;
                    match outcome {
                        Some(msg) => {
                            failures.push(ReloadFailure { handle: th, message: msg });
                        },
                        None => {},
                    }
                    proof {
                        lemma_reload_compute_step(
                            old(self)@,
                            snap,
                            self@,
                            hs,
                            k as int,
                            module,
                            rematerialize_render,
                            rematerialize_compute,
                            old_failures,
                            failures@,
                            h,
                            om,
                        );
                    }
                },
            }
            k = k + 1;
        }
        proof {
            assert(self@.inv()) by {
                assert(self@.render_dvs() =~= old(self)@.render_dvs());
                assert(self@.compute_dvs() =~= old(self)@.compute_dvs());
            }
            assert(has_path(old(self)@.paths, path@));
            assert(path_slot(old(self)@.paths, path@) == pi as int);
            assert(handles_of(old(self)@.paths, path@) == hs);
            assert(hs.take(n as int) =~= hs);
            assert(call_ensures(compile, (), Ok::<M, String>(module)));
            assert(reload_applied(
                old(self)@,
                self@,
                handles_of(old(self)@.paths, path@),
                handles_of(old(self)@.paths, path@).len() as int,
                module,
                rematerialize_render,
                rematerialize_compute,
                failures@,
            ));
            assert(exists|m: M|
                (#[trigger] call_ensures(compile, (), Ok::<M, String>(m))) && reload_applied(
                    old(self)@,
                    self@,
                    handles_of(old(self)@.paths, path@),
                    handles_of(old(self)@.paths, path@).len() as int,
                    m,
                    rematerialize_render,
                    rematerialize_compute,
                    failures@,
                ));
        }
        Ok(failures)
    }
}

/// A handle kind that knows which of an arena's two tables it indexes.
/// Render and compute handles implement it with disjoint namespaces: a
/// handle of one kind can never reach the other kind's table.
pub trait Handle<RP, CP>: Sized {
    type Pipeline;

    type Descriptor;

    /// True when this handle names a live slot of its own table.
    spec fn valid(self, arena: &Arena<RP, CP>) -> bool;

    /// The pipeline object this handle refers to.
    spec fn spec_pipeline(self, arena: &Arena<RP, CP>) -> Self::Pipeline;

    /// The descriptor the pipeline was built from.
    spec fn spec_descriptor(self, arena: &Arena<RP, CP>) -> Self::Descriptor;

    /// The pipeline behind this handle, or
    /// [`PipelineError::UnknownHandle`] when the handle does not belong to
    /// `arena` — a caller bug, since handles stay valid for the arena's
    /// whole lifetime.
    fn get_pipeline<'a>(self, arena: &'a Arena<RP, CP>) -> (r: Result<
        &'a Self::Pipeline,
        PipelineError,
    >)
        requires
            arena@.inv(),
        ensures
            match r {
                Ok(p) => self.valid(arena) && *p == self.spec_pipeline(arena),
                Err(PipelineError::UnknownHandle) => !self.valid(arena),
                Err(_) => false,
            },
    ;

    /// The descriptor behind this handle, under the same conditions.
    fn get_descriptor<'a>(self, arena: &'a Arena<RP, CP>) -> (r: Result<
        &'a Self::Descriptor,
        PipelineError,
    >)
        requires
            arena@.inv(),
        ensures
            match r {
                Ok(d) => self.valid(arena) && *d == self.spec_descriptor(arena),
                Err(PipelineError::UnknownHandle) => !self.valid(arena),
                Err(_) => false,
            },
    ;
}

impl<RP, CP> Handle<RP, CP> for RenderHandle {
    type Pipeline = RP;

    type Descriptor = RenderPipelineDescriptor;

    open spec fn valid(self, arena: &Arena<RP, CP>) -> bool {
        0 <= self@ < arena@.render_pipelines.len()
    }

    open spec fn spec_pipeline(self, arena: &Arena<RP, CP>) -> RP {
        arena@.render_pipelines[self@]
    }

    open spec fn spec_descriptor(self, arena: &Arena<RP, CP>) -> RenderPipelineDescriptor {
        arena@.render_descriptors[self@]
    }

    fn get_pipeline<'a>(self, arena: &'a Arena<RP, CP>) -> (r: Result<&'a RP, PipelineError>) {
        let i = self.index();
        if i < arena.render.pipelines.len() {
            Ok(&arena.render.pipelines[i])
        } else {
            Err(PipelineError::UnknownHandle)
        }
    }

    fn get_descriptor<'a>(self, arena: &'a Arena<RP, CP>) -> (r: Result<
        &'a RenderPipelineDescriptor,
        PipelineError,
    >) {
        let i = self.index();
        if i < arena.render.descriptors.len() {
            Ok(&arena.render.descriptors[i])
        } else {
            Err(PipelineError::UnknownHandle)
        }
    }
}

impl<RP, CP> Handle<RP, CP> for ComputeHandle {
    type Pipeline = CP;

    type Descriptor = ComputePipelineDescriptor;

    open spec fn valid(self, arena: &Arena<RP, CP>) -> bool {
        0 <= self@ < arena@.compute_pipelines.len()
    }

    open spec fn spec_pipeline(self, arena: &Arena<RP, CP>) -> CP {
        arena@.compute_pipelines[self@]
    }

    open spec fn spec_descriptor(self, arena: &Arena<RP, CP>) -> ComputePipelineDescriptor {
        arena@.compute_descriptors[self@]
    }

    fn get_pipeline<'a>(self, arena: &'a Arena<RP, CP>) -> (r: Result<&'a CP, PipelineError>) {
        let i = self.index();
        if i < arena.compute.pipelines.len() {
            Ok(&arena.compute.pipelines[i])
        } else {
            Err(PipelineError::UnknownHandle)
        }
    }

    fn get_descriptor<'a>(self, arena: &'a Arena<RP, CP>) -> (r: Result<
        &'a ComputePipelineDescriptor,
        PipelineError,
    >) {
        let i = self.index();
        if i < arena.compute.descriptors.len() {
            Ok(&arena.compute.descriptors[i])
        } else {
            Err(PipelineError::UnknownHandle)
        }
    }
}

} // verus!
