//! The streaming inference pipeline of one replica.
use crate::arithmetic::Arithmetic;
use crate::crdt::{
    covers, join, law_observations_commute, law_observe_commutes_with_merge, observed, VersionCrdt,
};
use crate::model::{batch_of, InferenceResult, TernaryModel};
use crate::slot::{HotswapSlot, SlotView};
use crate::version::{ModelVersion, NodeId};
use std::sync::Arc;
use vstd::prelude::*;

verus! {

/// What can happen to a pipeline.
pub enum PipelineEvent<A: Arithmetic> {
    /// A batch is processed from begin to end.
    Batch,
    /// A batch ends that began earlier, on a model of the given version.
    BatchEnd(ModelVersion),
    /// The model is replaced.
    Hotswap(TernaryModel<A>),
    /// A remote record is merged in.
    Merge(Map<u32, ModelVersion>),
}

/// What a pipeline holds: its slot, the number of its node, and its version record.
pub struct PipelineView<A: Arithmetic> {
    pub slot: SlotView<A>,
    pub node: u32,
    pub record: Map<u32, ModelVersion>,
}

impl<A: Arithmetic> PipelineView<A> {
    /// A pipeline that starts with a first model: the record knows the node, at the version of
    /// that model, and no other node.
    pub open spec fn started(node: u32, initial: TernaryModel<A>) -> PipelineView<A> {
        PipelineView {
            slot: SlotView { current: initial, swaps: 0 },
            node,
            record: Map::empty().insert(node, initial.version),
        }
    }

    /// The pipeline after a batch that ran on a model of the given version has ended.
    pub open spec fn batch_finished(self, version: ModelVersion) -> PipelineView<A> {
        PipelineView { record: observed(self.record, self.node, version), ..self }
    }

    /// The pipeline after its model was replaced.
    pub open spec fn hotswapped(self, new_model: TernaryModel<A>) -> PipelineView<A> {
        PipelineView {
            slot: self.slot.swapped(new_model),
            node: self.node,
            record: observed(self.record, self.node, new_model.version),
        }
    }

    /// The pipeline after its model was replaced by each of a sequence of models in turn.
    pub open spec fn hotswapped_all(self, models: Seq<TernaryModel<A>>) -> PipelineView<A>
        decreases models.len(),
    {
        if models.len() == 0 {
            self
        } else {
            self.hotswapped_all(models.drop_last()).hotswapped(models.last())
        }
    }

    /// The pipeline after a remote record was merged in.
    pub open spec fn merged(self, remote: Map<u32, ModelVersion>) -> PipelineView<A> {
        PipelineView { record: join(self.record, remote), ..self }
    }

    /// The pipeline after one event.
    pub open spec fn after(self, event: PipelineEvent<A>) -> PipelineView<A> {
        match event {
            PipelineEvent::Batch => self.batch_finished(self.slot.current.version),
            PipelineEvent::BatchEnd(version) => self.batch_finished(version),
            PipelineEvent::Hotswap(model) => self.hotswapped(model),
            PipelineEvent::Merge(remote) => self.merged(remote),
        }
    }

    /// The pipeline after a sequence of events.
    pub open spec fn after_all(self, events: Seq<PipelineEvent<A>>) -> PipelineView<A>
        decreases events.len(),
    {
        if events.len() == 0 {
            self
        } else {
            self.after_all(events.drop_last()).after(events.last())
        }
    }

    /// Whether the record has kept up with the slot: it knows the node, at the version of the
    /// current model or a later one.
    pub open spec fn kept_up(self) -> bool {
        &&& self.record.contains_key(self.node)
        &&& self.record[self.node].0 >= self.slot.current.version.0
    }
}

/// A pipeline that runs batches of frames through the current model of its slot.
///
/// A batch takes the current model once, when it begins, and runs every frame on it; a model
/// that goes in meanwhile serves the batches that begin later. A caller that shares a pipeline
/// between threads needs exclusive access only for [`AdaptiveInferencePipeline::begin_batch`]
/// and [`AdaptiveInferencePipeline::finish_batch`], and none while the frames are processed.
pub struct AdaptiveInferencePipeline<A: Arithmetic> {
    pub slot: HotswapSlot<A>,
    pub node_id: NodeId,
    pub crdt: VersionCrdt,
}

impl<A: Arithmetic> View for AdaptiveInferencePipeline<A> {
    type V = PipelineView<A>;

    open spec fn view(&self) -> PipelineView<A> {
        PipelineView { slot: self.slot@, node: self.node_id.0, record: self.crdt@ }
    }
}

impl<A: Arithmetic> AdaptiveInferencePipeline<A> {
    /// A pipeline for the given node that starts with a first model.
    pub fn new(node_id: u32, initial_model: TernaryModel<A>) -> (p: Self)
        ensures
            p@ == PipelineView::started(node_id, initial_model),
    {
        let mut crdt = VersionCrdt::new();
        crdt.observe(NodeId(node_id), initial_model.version);
        AdaptiveInferencePipeline {
            slot: HotswapSlot::new(initial_model),
            node_id: NodeId(node_id),
            crdt,
        }
    }

    /// Begins a batch: takes the model that all its frames will run on.
    pub fn begin_batch(&self) -> (model: Arc<TernaryModel<A>>)
        ensures
            *model == self@.slot.current,
    {
        self.slot.load()
    }

    /// Ends a batch: records that this node has used the version it ran on.
    pub fn finish_batch(&mut self, version: ModelVersion)
        ensures
            final(self)@ == old(self)@.batch_finished(version),
    {
        self.crdt.observe(self.node_id, version);
    }

    /// Processes a batch of frames, all on the model that is current when the batch begins.
    /// Returns one result for each frame.
    pub fn process_batch(&mut self, frames: &[Vec<A::Elem>]) -> (results: Vec<InferenceResult<A>>)
        requires
            forall|i: int|
                0 <= i < frames@.len() ==> old(self)@.slot.current.accepts(
                    (#[trigger] frames@[i])@,
                ),
        ensures
            batch_of(old(self)@.slot.current, frames@, results@),
            final(self)@ == old(self)@.batch_finished(old(self)@.slot.current.version),
    {
        let model = self.begin_batch();
        let results = model.infer_batch(frames);
        self.finish_batch(model.version);
        results
    }

    /// Replaces the running model. Returns the evicted one, for the caller to keep until the
    /// batches that run on it are done.
    pub fn hotswap_model(&mut self, new_model: TernaryModel<A>) -> (evicted: Arc<TernaryModel<A>>)
        ensures
            *evicted == old(self)@.slot.current,
            final(self)@ == old(self)@.hotswapped(new_model),
    {
        let new_version: ModelVersion = new_model.version;
        let evicted = self.slot.swap(new_model);
        self.crdt.observe(self.node_id, new_version);
        evicted
    }

    /// Merges the record of a remote replica into this one's.
    pub fn merge_crdt(&mut self, remote: &VersionCrdt)
        ensures
            final(self)@ == old(self)@.merged(remote@),
    {
        self.crdt.merge(remote);
    }

    /// A copy of the version record.
    pub fn crdt_snapshot(&self) -> (record: VersionCrdt)
        ensures
            record@ == self@.record,
    {
        self.crdt.clone()
    }
}

/// The record keeps up with the slot: it does so in a new pipeline, and whatever happens to a
/// pipeline whose record has kept up leaves it so, a rollback to an earlier model included. It
/// never falls back, for this node or for another, and it knows this node at the version that
/// was deployed or used, or at a later one.
pub proof fn law_record_keeps_up<A: Arithmetic>(
    p: PipelineView<A>,
    node: u32,
    model: TernaryModel<A>,
    version: ModelVersion,
    remote: Map<u32, ModelVersion>,
)
    ensures
        PipelineView::started(node, model).kept_up(),
        p.hotswapped(model).kept_up(),
        p.kept_up() ==> p.batch_finished(version).kept_up(),
        p.kept_up() ==> p.merged(remote).kept_up(),
        covers(p.hotswapped(model).record, p.record),
        covers(p.batch_finished(version).record, p.record),
        covers(p.merged(remote).record, p.record),
        p.hotswapped(model).record.contains_key(p.node),
        p.hotswapped(model).record[p.node].0 >= model.version.0,
        p.batch_finished(version).record.contains_key(p.node),
        p.batch_finished(version).record[p.node].0 >= version.0,
{
}

/// The entry of a node in its own record never falls, whatever happens, and neither does any
/// other.
pub proof fn law_record_never_falls<A: Arithmetic>(
    p: PipelineView<A>,
    events: Seq<PipelineEvent<A>>,
    k: int,
)
    requires
        0 <= k <= events.len(),
    ensures
        p.after_all(events).node == p.node,
        covers(p.after_all(events).record, p.after_all(events.take(k)).record),
    decreases events.len(),
{
    if events.len() > 0 {
        let rest = events.drop_last();
        if k == events.len() {
            law_record_never_falls(p, rest, rest.len() as int);
            assert(events.take(k) == events);
        } else {
            law_record_never_falls(p, rest, k);
            assert(rest.take(k) == events.take(k));
            let q = p.after_all(rest);
            assert(covers(q.after(events.last()).record, q.record));
        }
    } else {
        assert(events.take(k) == events);
    }
}

/// The record is an audit of all that a pipeline did: after any run of batches, swaps and
/// merges it knows the node, at the version of every model that the slot ever held, so of every
/// result that was ever returned, or at a later one; and likewise for every batch that ended
/// late.
pub proof fn law_record_covers_history<A: Arithmetic>(
    node: u32,
    initial: TernaryModel<A>,
    events: Seq<PipelineEvent<A>>,
    k: int,
)
    requires
        0 <= k <= events.len(),
    ensures
        ({
            let start = PipelineView::started(node, initial);
            let end = start.after_all(events);
            &&& end.node == node
            &&& end.kept_up()
            &&& end.record[node].0 >= start.after_all(events.take(k)).record[node].0
            &&& end.record[node].0 >= start.after_all(events.take(k)).slot.current.version.0
            &&& k < events.len() ==> match events[k] {
                PipelineEvent::Batch => true,
                PipelineEvent::BatchEnd(version) => end.record[node].0 >= version.0,
                PipelineEvent::Hotswap(model) => end.record[node].0 >= model.version.0,
                PipelineEvent::Merge(remote) => covers(end.record, remote),
            }
        }),
{
    let start = PipelineView::started(node, initial);
    let end = start.after_all(events);
    lemma_history_keeps_up(start, events);
    lemma_history_keeps_up(start, events.take(k));
    law_record_never_falls(start, events, k);
    let then = start.after_all(events.take(k));
    assert(then.record.contains_key(node));
    if k < events.len() {
        law_record_never_falls(start, events, k + 1);
        assert(events.take(k + 1).drop_last() == events.take(k));
        let next = start.after_all(events.take(k + 1));
        assert(next == then.after(events[k]));
        assert(next.record.contains_key(node));
        if let PipelineEvent::Merge(remote) = events[k] {
            assert forall|n: u32| #[trigger] remote.contains_key(n) implies end.record.contains_key(
                n,
            ) && end.record[n].0 >= remote[n].0 by {
                assert(next.record.contains_key(n) && next.record[n].0 >= remote[n].0);
            }
        }
    }
}

proof fn lemma_history_keeps_up<A: Arithmetic>(
    p: PipelineView<A>,
    events: Seq<PipelineEvent<A>>,
)
    requires
        p.kept_up(),
    ensures
        p.after_all(events).node == p.node,
        p.after_all(events).kept_up(),
    decreases events.len(),
{
    if events.len() > 0 {
        lemma_history_keeps_up(p, events.drop_last());
    }
}

/// Batches alone change nothing once the record has kept up: a batch leaves a pipeline as it
/// was.
pub proof fn law_batches_leave_pipeline<A: Arithmetic>(p: PipelineView<A>)
    requires
        p.kept_up(),
    ensures
        p.batch_finished(p.slot.current.version) == p,
{
    assert(p.batch_finished(p.slot.current.version).record == p.record);
}

/// A swap takes effect between batches: the batch that begins next runs on the new model
/// alone, and the batch before it ran on the model that the swap evicts, whether it ends before
/// the swap or after it. Either way the pipeline is left the same.
pub proof fn law_swap_at_batch_boundary<A: Arithmetic>(
    p: PipelineView<A>,
    new_model: TernaryModel<A>,
)
    ensures
        p.hotswapped(new_model).slot.current == new_model,
        p.batch_finished(p.slot.current.version).slot == p.slot,
        p.hotswapped(new_model).batch_finished(p.slot.current.version) == p.batch_finished(
            p.slot.current.version,
        ).hotswapped(new_model),
{
    law_observations_commute(
        p.record,
        p.node,
        p.slot.current.version,
        p.node,
        new_model.version,
    );
}

/// Whatever happens while a batch is in flight, any number of swaps included, its end leaves the
/// pipeline as if the batch had ended before all of it.
pub proof fn law_batch_in_flight<A: Arithmetic>(
    p: PipelineView<A>,
    meanwhile: Seq<PipelineEvent<A>>,
    version: ModelVersion,
)
    ensures
        p.after_all(meanwhile).batch_finished(version) == p.batch_finished(version).after_all(
            meanwhile,
        ),
    decreases meanwhile.len(),
{
    if meanwhile.len() > 0 {
        let rest = meanwhile.drop_last();
        law_batch_in_flight(p, rest, version);
        let q = p.after_all(rest);
        match meanwhile.last() {
            PipelineEvent::Batch => law_observations_commute(
                q.record,
                q.node,
                q.slot.current.version,
                q.node,
                version,
            ),
            PipelineEvent::BatchEnd(v) => law_observations_commute(
                q.record,
                q.node,
                v,
                q.node,
                version,
            ),
            PipelineEvent::Hotswap(model) => law_observations_commute(
                q.record,
                q.node,
                model.version,
                q.node,
                version,
            ),
            PipelineEvent::Merge(remote) => law_observe_commutes_with_merge(
                q.record,
                remote,
                q.node,
                version,
            ),
        }
    }
}

/// Gossip can arrive at any time: a merge before a swap or the end of a batch and a merge after
/// it leave the pipeline the same.
pub proof fn law_gossip_in_any_order<A: Arithmetic>(
    p: PipelineView<A>,
    new_model: TernaryModel<A>,
    version: ModelVersion,
    remote: Map<u32, ModelVersion>,
)
    ensures
        p.merged(remote).hotswapped(new_model) == p.hotswapped(new_model).merged(remote),
        p.merged(remote).batch_finished(version) == p.batch_finished(version).merged(remote),
        p.merged(remote).slot == p.slot,
{
    law_observe_commutes_with_merge(p.record, remote, p.node, new_model.version);
    law_observe_commutes_with_merge(p.record, remote, p.node, version);
}

/// The record is a full audit of a replica on its own: after a run of swaps it knows the node
/// alone, at the latest of the versions that were deployed, and the slot holds the last one.
pub proof fn law_record_is_latest_deployed<A: Arithmetic>(
    node: u32,
    initial: TernaryModel<A>,
    models: Seq<TernaryModel<A>>,
)
    ensures
        ({
            let p = PipelineView::started(node, initial).hotswapped_all(models);
            &&& p.node == node
            &&& p.slot == PipelineView::started(node, initial).slot.swapped_all(models)
            &&& p.record.dom() == Set::empty().insert(node)
            &&& p.record[node].0 >= initial.version.0
            &&& forall|i: int|
                0 <= i < models.len() ==> p.record[node].0 >= (#[trigger] models[i]).version.0
            &&& p.record[node] == initial.version || exists|i: int|
                0 <= i < models.len() && p.record[node] == (#[trigger] models[i]).version
        }),
    decreases models.len(),
{
    let p = PipelineView::started(node, initial).hotswapped_all(models);
    if models.len() > 0 {
        let rest = models.drop_last();
        law_record_is_latest_deployed(node, initial, rest);
        let q = PipelineView::started(node, initial).hotswapped_all(rest);
        assert forall|i: int| 0 <= i < models.len() implies p.record[node].0 >= (
        #[trigger] models[i]).version.0 by {
            if i < rest.len() {
                assert(q.record[node].0 >= rest[i].version.0);
            }
        }
        if p.record[node] == models.last().version {
            assert(models[models.len() - 1] == models.last());
        } else if q.record[node] != initial.version {
            let i = choose|i: int|
                0 <= i < rest.len() && q.record[node] == (#[trigger] rest[i]).version;
            assert(models[i] == rest[i]);
        }
    }
    assert(p.record.dom() == Set::empty().insert(node));
}

/// What a pipeline holds is what its fields hold.
pub proof fn law_view_is_fields<A: Arithmetic>(p: AdaptiveInferencePipeline<A>)
    ensures
        p@.slot == p.slot@,
        p@.node == p.node_id.0,
        p@.record == p.crdt.versions@,
{
}

/// A new pipeline serves the very model it was given: the slot holds it with no swap counted,
/// the first batch begins on it, and the record knows this node alone, at its version.
pub proof fn law_new_pipeline_serves_initial<A: Arithmetic>(
    node: u32,
    initial: TernaryModel<A>,
    p: AdaptiveInferencePipeline<A>,
    first: Arc<TernaryModel<A>>,
)
    requires
        call_ensures(AdaptiveInferencePipeline::<A>::new, (node, initial), p),
        call_ensures(AdaptiveInferencePipeline::<A>::begin_batch, (&p,), first),
    ensures
        *first == initial,
        p.slot@.current == initial,
        p.slot@.swaps == 0,
        p.node_id.0 == node,
        p.crdt.versions@.dom() == Set::empty().insert(node),
        p.crdt.versions@[node] == initial.version,
        PipelineView::started(node, initial).slot.current == initial,
        PipelineView::started(node, initial).slot.swaps == 0,
{
    assert(p@.record.dom() =~= Set::empty().insert(node));
}

/// The end of a batch leaves the slot and the node as they were, and moves the node's own entry
/// alone: up to the version that the batch ran on, where that is greater.
pub proof fn law_batch_moves_own_entry<A: Arithmetic>(
    p: PipelineView<A>,
    version: ModelVersion,
    k: u32,
)
    ensures
        p.batch_finished(version).slot == p.slot,
        p.batch_finished(version).node == p.node,
        p.batch_finished(version).record.contains_key(k) <==> p.record.contains_key(k) || k
            == p.node,
        k != p.node && p.record.contains_key(k) ==> p.batch_finished(version).record[k]
            == p.record[k],
        p.batch_finished(version).record[p.node].0 >= version.0,
        p.record.contains_key(p.node) ==> p.batch_finished(version).record[p.node].0
            >= p.record[p.node].0,
        p.batch_finished(version).record[p.node] == version || (p.record.contains_key(p.node)
            && p.batch_finished(version).record[p.node] == p.record[p.node]),
{
}

/// A hotswap puts the given model in, counts one swap, keeps the node, and moves the node's own
/// entry alone: up to the version of the new model, where that is greater.
pub proof fn law_hotswap_moves_own_entry<A: Arithmetic>(
    p: PipelineView<A>,
    model: TernaryModel<A>,
    k: u32,
)
    ensures
        p.hotswapped(model).slot.current == model,
        p.slot.swaps < usize::MAX ==> p.hotswapped(model).slot.swaps == p.slot.swaps + 1,
        p.slot.swaps == usize::MAX ==> p.hotswapped(model).slot.swaps == 0,
        p.hotswapped(model).node == p.node,
        p.hotswapped(model).record.contains_key(k) <==> p.record.contains_key(k) || k == p.node,
        k != p.node && p.record.contains_key(k) ==> p.hotswapped(model).record[k] == p.record[k],
        p.hotswapped(model).record[p.node].0 >= model.version.0,
        p.record.contains_key(p.node) ==> p.hotswapped(model).record[p.node].0
            >= p.record[p.node].0,
        p.hotswapped(model).record[p.node] == model.version || (p.record.contains_key(p.node)
            && p.hotswapped(model).record[p.node] == p.record[p.node]),
{
}

/// A merge leaves the slot and the node as they were, and makes the record the least one that
/// covers both: it knows just the nodes that the old record or the remote one knows, each at a
/// version that one of them has for it and that none of them exceeds. What the remote record
/// does not know, this node's own entry among it, stays as it was.
pub proof fn law_merge_is_least<A: Arithmetic>(
    p: PipelineView<A>,
    remote: Map<u32, ModelVersion>,
    k: u32,
)
    ensures
        p.merged(remote).slot == p.slot,
        p.merged(remote).node == p.node,
        p.merged(remote).record.contains_key(k) <==> p.record.contains_key(k)
            || remote.contains_key(k),
        p.record.contains_key(k) ==> p.merged(remote).record[k].0 >= p.record[k].0,
        remote.contains_key(k) ==> p.merged(remote).record[k].0 >= remote[k].0,
        p.merged(remote).record.contains_key(k) ==> (p.record.contains_key(k) && p.merged(
            remote,
        ).record[k] == p.record[k]) || (remote.contains_key(k) && p.merged(remote).record[k]
            == remote[k]),
        !remote.contains_key(k) && p.record.contains_key(k) ==> p.merged(remote).record[k]
            == p.record[k],
        forall|c: Map<u32, ModelVersion>|
            covers(c, p.record) && covers(c, remote) ==> #[trigger] covers(
                c,
                p.merged(remote).record,
            ),
{
}

/// No entry of a record comes from nowhere: after any run of events from the start of a
/// pipeline, a node's own entry is the version of a model that it was started with or that was
/// put in, or that a late batch ran on, or one that a merged record held for it; and any other
/// entry is one that a merged record held. The slot holds the last model that was put in.
pub proof fn law_entries_are_explained<A: Arithmetic>(
    node: u32,
    initial: TernaryModel<A>,
    events: Seq<PipelineEvent<A>>,
    k: u32,
)
    ensures
        ({
            let end = PipelineView::started(node, initial).after_all(events);
            &&& end.node == node
            &&& end.slot.current == initial || exists|i: int|
                0 <= i < events.len() && #[trigger] events[i] == PipelineEvent::Hotswap(
                    end.slot.current,
                )
            &&& end.record.contains_key(k) ==> {
                ||| k == node && end.record[k] == initial.version
                ||| exists|i: int|
                    0 <= i < events.len() && match #[trigger] events[i] {
                        PipelineEvent::Batch => false,
                        PipelineEvent::BatchEnd(version) => k == node && end.record[k] == version,
                        PipelineEvent::Hotswap(model) => k == node && end.record[k]
                            == model.version,
                        PipelineEvent::Merge(remote) => remote.contains_key(k) && end.record[k]
                            == remote[k],
                    }
            }
        }),
    decreases events.len(),
{
    let start = PipelineView::started(node, initial);
    if events.len() > 0 {
        let rest = events.drop_last();
        let n = events.len() - 1;
        law_entries_are_explained(node, initial, rest, k);
        let q = start.after_all(rest);
        let end = start.after_all(events);
        assert(end == q.after(events[n]));
        assert forall|i: int| 0 <= i < rest.len() implies #[trigger] rest[i] == events[i] by {}
        if q.slot.current != initial {
            let i = choose|i: int|
                0 <= i < rest.len() && #[trigger] rest[i] == PipelineEvent::Hotswap(
                    q.slot.current,
                );
            assert(events[i] == PipelineEvent::Hotswap(q.slot.current));
        }
        if q.record.contains_key(k) && !(k == node && q.record[k] == initial.version) {
            let i = choose|i: int|
                0 <= i < rest.len() && match #[trigger] rest[i] {
                    PipelineEvent::Batch => false,
                    PipelineEvent::BatchEnd(version) => k == node && q.record[k] == version,
                    PipelineEvent::Hotswap(model) => k == node && q.record[k] == model.version,
                    PipelineEvent::Merge(remote) => remote.contains_key(k) && q.record[k]
                        == remote[k],
                };
            assert(events[i] == rest[i]);
        }
    }
}

} // verus!
