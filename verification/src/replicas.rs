//! What the version records of a replica set say about its members.
use crate::arithmetic::Arithmetic;
use crate::crdt::{all_reached, covers};
use crate::model::TernaryModel;
use crate::pipeline::PipelineView;
use crate::version::ModelVersion;
use vstd::prelude::*;

verus! {

/// Whether the records of a replica set can be trusted: every replica has a number of its own
/// and a record that has kept up with its slot, and no replica believes another one to be
/// further than that one is by its own record.
pub open spec fn audit_holds<A: Arithmetic>(replicas: Seq<PipelineView<A>>) -> bool {
    &&& forall|i: int, j: int|
        0 <= i < replicas.len() && 0 <= j < replicas.len() && i != j ==> (
        #[trigger] replicas[i]).node != (#[trigger] replicas[j]).node
    &&& forall|i: int| 0 <= i < replicas.len() ==> (#[trigger] replicas[i]).kept_up()
    &&& forall|i: int, j: int|
        0 <= i < replicas.len() && 0 <= j < replicas.len() ==> no_further(
            #[trigger] replicas[i],
            #[trigger] replicas[j],
        )
}

/// Whether one replica believes another one to be no further than that one is by its own
/// record.
pub open spec fn no_further<A: Arithmetic>(
    observer: PipelineView<A>,
    subject: PipelineView<A>,
) -> bool {
    observer.record.contains_key(subject.node) ==> observer.record[subject.node].0
        <= subject.record[subject.node].0
}

/// Replicas that start under numbers of their own start with records that can be trusted.
pub proof fn law_audit_holds_at_start<A: Arithmetic>(
    nodes: Seq<u32>,
    models: Seq<TernaryModel<A>>,
    replicas: Seq<PipelineView<A>>,
)
    requires
        nodes.no_duplicates(),
        nodes.len() == models.len(),
        nodes.len() == replicas.len(),
        forall|i: int|
            0 <= i < nodes.len() ==> #[trigger] replicas[i] == PipelineView::started(
                nodes[i],
                models[i],
            ),
    ensures
        audit_holds(replicas),
{
}

/// A swap on one replica, or the end of a batch on it, leaves the records trustworthy.
pub proof fn law_audit_survives_local_step<A: Arithmetic>(
    replicas: Seq<PipelineView<A>>,
    i: int,
    model: TernaryModel<A>,
    version: ModelVersion,
)
    requires
        audit_holds(replicas),
        0 <= i < replicas.len(),
    ensures
        audit_holds(replicas.update(i, replicas[i].hotswapped(model))),
        audit_holds(replicas.update(i, replicas[i].batch_finished(version))),
{
}

/// Gossip leaves the records trustworthy: one replica merges a snapshot of the record of
/// another, be it current or taken at some earlier time.
pub proof fn law_audit_survives_gossip<A: Arithmetic>(
    replicas: Seq<PipelineView<A>>,
    i: int,
    j: int,
    snapshot: Map<u32, ModelVersion>,
)
    requires
        audit_holds(replicas),
        0 <= i < replicas.len(),
        0 <= j < replicas.len(),
        covers(replicas[j].record, snapshot),
    ensures
        audit_holds(replicas.update(i, replicas[i].merged(snapshot))),
{
}

/// A replica that sees a version reached by all is right: each replica that it knows has
/// recorded that version, or a later one, for itself.
pub proof fn law_audit_is_sound<A: Arithmetic>(
    replicas: Seq<PipelineView<A>>,
    i: int,
    j: int,
    target: ModelVersion,
)
    requires
        audit_holds(replicas),
        0 <= i < replicas.len(),
        0 <= j < replicas.len(),
        all_reached(replicas[i].record, target),
        replicas[i].record.contains_key(replicas[j].node),
    ensures
        replicas[j].record[replicas[j].node].0 >= target.0,
{
    assert(no_further(replicas[i], replicas[j]));
}

} // verus!
