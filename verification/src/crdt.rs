//! The version record of a replica set, which replicas merge without coordination.
use crate::version::{later, ModelVersion, NodeId};
use std::collections::HashMap;
use vstd::prelude::*;

verus! {

broadcast use vstd::std_specs::hash::group_hash_axioms;

/// A record with one more observation: the node is at the given version, or at the version
/// it was at where that is later.
pub open spec fn observed(
    m: Map<u32, ModelVersion>,
    node: u32,
    version: ModelVersion,
) -> Map<u32, ModelVersion> {
    m.insert(
        node,
        if m.contains_key(node) {
            later(m[node], version)
        } else {
            version
        },
    )
}

/// The least record that holds all that two records hold: every node that one of them knows,
/// at the later of the versions that they know for it.
pub open spec fn join(
    a: Map<u32, ModelVersion>,
    b: Map<u32, ModelVersion>,
) -> Map<u32, ModelVersion> {
    Map::new(
        |k: u32| a.contains_key(k) || b.contains_key(k),
        |k: u32|
            if !b.contains_key(k) {
                a[k]
            } else if !a.contains_key(k) {
                b[k]
            } else {
                later(a[k], b[k])
            },
    )
}

/// Whether every known node is at `target` or above, and some node is known.
pub open spec fn all_reached(m: Map<u32, ModelVersion>, target: ModelVersion) -> bool {
    &&& exists|k: u32| m.contains_key(k)
    &&& forall|k: u32| #[trigger] m.contains_key(k) ==> m[k].0 >= target.0
}

/// Whether `floor` is the least version in a record, or `None` for a record without a node.
pub open spec fn is_floor(m: Map<u32, ModelVersion>, floor: Option<ModelVersion>) -> bool {
    match floor {
        Some(v) => {
            &&& exists|k: u32| #[trigger] m.contains_key(k) && m[k] == v
            &&& forall|k: u32| #[trigger] m.contains_key(k) ==> v.0 <= m[k].0
        },
        None => forall|k: u32| !m.contains_key(k),
    }
}

/// A version record: the latest model version that each replica is known to have reached.
///
/// The map is keyed by the number inside the [`NodeId`]. Merging takes the later version for
/// each node, so that merges commute, associate and can be repeated.
#[derive(Debug)]
pub struct VersionCrdt {
    pub versions: HashMap<u32, ModelVersion>,
}

impl View for VersionCrdt {
    type V = Map<u32, ModelVersion>;

    open spec fn view(&self) -> Map<u32, ModelVersion> {
        self.versions@
    }
}

impl Clone for VersionCrdt {
    fn clone(&self) -> (r: Self)
        ensures
            r@ == self@,
    {
        VersionCrdt { versions: self.versions.clone() }
    }
}

impl Default for VersionCrdt {
    fn default() -> (r: Self)
        ensures
            r@ == Map::<u32, ModelVersion>::empty(),
    {
        VersionCrdt { versions: HashMap::new() }
    }
}

impl VersionCrdt {
    /// A record that knows no node.
    pub fn new() -> (r: Self)
        ensures
            r@ == Map::<u32, ModelVersion>::empty(),
    {
        VersionCrdt { versions: HashMap::new() }
    }

    /// Records that `node` has advanced to `version`. An earlier version than the one on
    /// record changes nothing.
    pub fn observe(&mut self, node: NodeId, version: ModelVersion)
        ensures
            final(self)@ == observed(old(self)@, node.0, version),
    {
        let entry = self.versions.entry(node.0).or_insert(ModelVersion(0));
        if version.0 > entry.0 {
            *entry = version;
        }
    }

    /// The version on record for a node, if the node is known.
    pub fn version_of(&self, node: NodeId) -> (r: Option<ModelVersion>)
        ensures
            r == (if self@.contains_key(node.0) {
                Some(self@[node.0])
            } else {
                None
            }),
    {
        match self.versions.get(&node.0) {
            Some(v) => Some(*v),
            None => None,
        }
    }

    /// Merges another record into this one.
    pub fn merge(&mut self, other: &VersionCrdt)
        ensures
            final(self)@ == join(old(self)@, other@),
    {
        for entry in it: other.versions.iter()
            invariant
                forall|k: u32| #[trigger]
                    self@.contains_key(k) <==> old(self)@.contains_key(k) || seen(
                        it.seq(),
                        it.index(),
                        k,
                    ),
                forall|k: u32| #[trigger]
                    self@.contains_key(k) ==> self@[k] == (if !seen(it.seq(), it.index(), k) {
                        old(self)@[k]
                    } else if !old(self)@.contains_key(k) {
                        other@[k]
                    } else {
                        later(old(self)@[k], other@[k])
                    }),
        {
            self.observe(NodeId(*entry.0), *entry.1);
        }
    }

    /// The least version across the known replicas: the point that a rollback is safe to.
    /// `None` where no replica is known.
    pub fn quorum_floor(&self) -> (floor: Option<ModelVersion>)
        ensures
            is_floor(self@, floor),
    {
        let mut floor: Option<ModelVersion> = None;
        for entry in it: self.versions.iter()
            invariant
                match floor {
                    Some(f) => {
                        &&& exists|k: u32| #[trigger] self@.contains_key(k) && self@[k] == f
                        &&& forall|i: int|
                            0 <= i < it.index() ==> f.0 <= (#[trigger] it.seq()[i]).1.0
                    },
                    None => it.index() == 0,
                },
        {
            assert(self@.contains_key(*entry.0) && self@[*entry.0] == *entry.1);
            let v: ModelVersion = *entry.1;
            floor = match floor {
                Some(f) => if v.0 < f.0 {
                    Some(v)
                } else {
                    Some(f)
                },
                None => Some(v),
            };
        }
        floor
    }

    /// Whether every known replica is at `target` or above. False where no replica is known.
    pub fn all_at_least(&self, target: ModelVersion) -> (r: bool)
        ensures
            r == all_reached(self@, target),
    {
        if self.versions.is_empty() {
            return false;
        }
        for entry in it: self.versions.iter()
            invariant
                forall|i: int| 0 <= i < it.index() ==> (#[trigger] it.seq()[i]).1.0 >= target.0,
        {
            assert(self@.contains_key(*entry.0) && self@[*entry.0] == *entry.1);
            if entry.1.0 < target.0 {
                return false;
            }
        }
        true
    }
}

/// Whether one of the first `n` entries has the key `k`.
spec fn seen(entries: Seq<(&u32, &ModelVersion)>, n: int, k: u32) -> bool {
    exists|i: int| 0 <= i < n && *(#[trigger] entries[i]).0 == k
}

/// Whether a record holds all that another one holds: every node that it knows, at the same
/// version or a later one.
pub open spec fn covers(a: Map<u32, ModelVersion>, b: Map<u32, ModelVersion>) -> bool {
    forall|k: u32| #[trigger] b.contains_key(k) ==> a.contains_key(k) && a[k].0 >= b[k].0
}

/// The record that comes of merging a sequence of records into an empty one, in order.
pub open spec fn join_all(records: Seq<Map<u32, ModelVersion>>) -> Map<u32, ModelVersion>
    decreases records.len(),
{
    if records.len() == 0 {
        Map::empty()
    } else {
        join(join_all(records.drop_last()), records.last())
    }
}

/// Merging is commutative.
pub proof fn law_merge_commutes(a: Map<u32, ModelVersion>, b: Map<u32, ModelVersion>)
    ensures
        join(a, b) == join(b, a),
{
}

/// Merging is associative.
pub proof fn law_merge_associates(
    a: Map<u32, ModelVersion>,
    b: Map<u32, ModelVersion>,
    c: Map<u32, ModelVersion>,
)
    ensures
        join(a, join(b, c)) == join(join(a, b), c),
{
}

/// Merging is idempotent: a record merged with itself, or merged a second time, changes
/// nothing. Merging an empty record changes nothing either.
pub proof fn law_merge_is_idempotent(a: Map<u32, ModelVersion>, b: Map<u32, ModelVersion>)
    ensures
        join(a, a) == a,
        join(join(a, b), b) == join(a, b),
        join(a, Map::empty()) == a,
{
}

/// Merging gives the least record that covers both.
pub proof fn law_merge_is_least_upper_bound(
    a: Map<u32, ModelVersion>,
    b: Map<u32, ModelVersion>,
    c: Map<u32, ModelVersion>,
)
    ensures
        covers(join(a, b), a),
        covers(join(a, b), b),
        covers(c, a) && covers(c, b) ==> covers(c, join(a, b)),
{
}

/// Records that cover each other are the same.
pub proof fn law_covering_is_antisymmetric(a: Map<u32, ModelVersion>, b: Map<u32, ModelVersion>)
    requires
        covers(a, b),
        covers(b, a),
    ensures
        a == b,
{
    assert forall|k: u32| #[trigger] a.contains_key(k) implies b.contains_key(k) && a[k]
        == b[k] by {
        assert(b.contains_key(k) && a[k].0 == b[k].0);
    }
    assert(a =~= b);
}

/// Observing never moves a record back: it covers what was there before, the node stands at
/// the observed version or a later one, and every other node stands where it stood.
pub proof fn law_observe_is_monotone(
    m: Map<u32, ModelVersion>,
    node: u32,
    version: ModelVersion,
)
    ensures
        covers(observed(m, node, version), m),
        observed(m, node, version)[node].0 >= version.0,
        m.contains_key(node) && version.0 <= m[node].0 ==> observed(m, node, version) == m,
        forall|k: u32|
            k != node ==> #[trigger] observed(m, node, version).contains_key(k)
                == m.contains_key(k) && observed(m, node, version)[k] == m[k],
{
}

/// Observing is merging a record of one node.
pub proof fn law_observe_is_merge_of_one(
    m: Map<u32, ModelVersion>,
    node: u32,
    version: ModelVersion,
)
    ensures
        observed(m, node, version) == join(m, Map::empty().insert(node, version)),
{
}

/// Observations can come in any order: a batch that ends after a newer model went in leaves
/// the record that it would have left before.
pub proof fn law_observations_commute(
    m: Map<u32, ModelVersion>,
    node1: u32,
    version1: ModelVersion,
    node2: u32,
    version2: ModelVersion,
)
    ensures
        observed(observed(m, node1, version1), node2, version2) == observed(
            observed(m, node2, version2),
            node1,
            version1,
        ),
{
}

/// Observing before a merge, on either side, and observing after it give the same record.
pub proof fn law_observe_commutes_with_merge(
    a: Map<u32, ModelVersion>,
    b: Map<u32, ModelVersion>,
    node: u32,
    version: ModelVersion,
)
    ensures
        join(observed(a, node, version), b) == observed(join(a, b), node, version),
        join(a, observed(b, node, version)) == observed(join(a, b), node, version),
{
}

/// A sequence of merges covers every merged record, and is covered by whatever covers them all.
proof fn lemma_join_all_is_least_upper_bound(
    records: Seq<Map<u32, ModelVersion>>,
    c: Map<u32, ModelVersion>,
)
    ensures
        forall|i: int| 0 <= i < records.len() ==> covers(join_all(records), #[trigger] records[i]),
        (forall|i: int| 0 <= i < records.len() ==> covers(c, #[trigger] records[i])) ==> covers(
            c,
            join_all(records),
        ),
    decreases records.len(),
{
    if records.len() > 0 {
        let rest = records.drop_last();
        lemma_join_all_is_least_upper_bound(rest, c);
        assert forall|i: int| 0 <= i < records.len() implies covers(
            join_all(records),
            #[trigger] records[i],
        ) by {
            if i < rest.len() {
                assert(rest[i] == records[i]);
                assert(covers(join_all(rest), rest[i]));
            }
        }
        if forall|i: int| 0 <= i < records.len() ==> covers(c, #[trigger] records[i]) {
            assert forall|i: int| 0 <= i < rest.len() implies covers(c, #[trigger] rest[i]) by {
                assert(covers(c, records[i]));
            }
            assert(covers(c, records[records.len() - 1]));
        }
    }
}

/// Replicas that merge the same records, in whatever order and however often, arrive at the
/// same record.
pub proof fn law_replicas_converge(
    one: Seq<Map<u32, ModelVersion>>,
    other: Seq<Map<u32, ModelVersion>>,
)
    requires
        one.to_set() == other.to_set(),
    ensures
        join_all(one) == join_all(other),
{
    lemma_same_records_cover(one, other);
    lemma_same_records_cover(other, one);
    law_covering_is_antisymmetric(join_all(one), join_all(other));
}

proof fn lemma_same_records_cover(
    one: Seq<Map<u32, ModelVersion>>,
    other: Seq<Map<u32, ModelVersion>>,
)
    requires
        one.to_set() == other.to_set(),
    ensures
        covers(join_all(one), join_all(other)),
{
    lemma_join_all_is_least_upper_bound(one, Map::empty());
    lemma_join_all_is_least_upper_bound(other, join_all(one));
    assert forall|i: int| 0 <= i < other.len() implies covers(
        join_all(one),
        #[trigger] other[i],
    ) by {
        assert(other.to_set().contains(other[i]));
        assert(one.to_set().contains(other[i]));
        let j = choose|j: int| 0 <= j < one.len() && one[j] == other[i];
        assert(covers(join_all(one), one[j]));
    }
}

/// All replicas have reached a version exactly where the floor of the record has.
pub proof fn law_convergence_is_floor(
    m: Map<u32, ModelVersion>,
    floor: Option<ModelVersion>,
    target: ModelVersion,
)
    requires
        is_floor(m, floor),
    ensures
        all_reached(m, target) <==> (floor matches Some(v) && v.0 >= target.0),
{
}

/// A record has one floor.
pub proof fn law_floor_is_unique(
    m: Map<u32, ModelVersion>,
    floor: Option<ModelVersion>,
    other: Option<ModelVersion>,
)
    requires
        is_floor(m, floor),
        is_floor(m, other),
    ensures
        floor == other,
{
}

/// Convergence is not lost: where all replicas have reached a version, they still have after
/// any observation of a known replica, and after a merge with a record in which all have.
pub proof fn law_convergence_is_stable(
    a: Map<u32, ModelVersion>,
    b: Map<u32, ModelVersion>,
    node: u32,
    version: ModelVersion,
    target: ModelVersion,
)
    requires
        all_reached(a, target),
    ensures
        a.contains_key(node) || version.0 >= target.0 ==> all_reached(
            observed(a, node, version),
            target,
        ),
        all_reached(b, target) ==> all_reached(join(a, b), target),
{
    let k = choose|k: u32| a.contains_key(k);
    assert(observed(a, node, version).contains_key(k));
    assert(join(a, b).contains_key(k));
}

/// An observation records the greater of the observed version and the one on record, for that
/// node, and nothing else.
pub proof fn law_observe_records_greater(
    m: Map<u32, ModelVersion>,
    node: u32,
    version: ModelVersion,
    k: u32,
)
    ensures
        observed(m, node, version).contains_key(k) <==> m.contains_key(k) || k == node,
        k != node && m.contains_key(k) ==> observed(m, node, version)[k] == m[k],
        observed(m, node, version)[node].0 >= version.0,
        m.contains_key(node) ==> observed(m, node, version)[node].0 >= m[node].0,
        observed(m, node, version)[node] == version || (m.contains_key(node) && observed(
            m,
            node,
            version,
        )[node] == m[node]),
{
}

/// A merge knows just the nodes that one of the records knows, each at a version that one of
/// them has for it and that none of them exceeds.
pub proof fn law_merge_takes_greater(
    a: Map<u32, ModelVersion>,
    b: Map<u32, ModelVersion>,
    k: u32,
)
    ensures
        join(a, b).contains_key(k) <==> a.contains_key(k) || b.contains_key(k),
        a.contains_key(k) ==> join(a, b)[k].0 >= a[k].0,
        b.contains_key(k) ==> join(a, b)[k].0 >= b[k].0,
        join(a, b).contains_key(k) ==> (a.contains_key(k) && join(a, b)[k] == a[k]) || (
        b.contains_key(k) && join(a, b)[k] == b[k]),
{
}

/// The view of a record is its map.
pub proof fn law_record_is_its_map(crdt: VersionCrdt)
    ensures
        crdt@ == crdt.versions@,
{
}

/// The floor of a record is the version of some known node and no known node is below it; a
/// record without a node, and no other, has none.
pub proof fn law_floor_is_least_version(m: Map<u32, ModelVersion>, floor: Option<ModelVersion>)
    ensures
        is_floor(m, floor) <==> match floor {
            Some(v) => m.values().contains(v) && forall|u: ModelVersion| #[trigger]
                m.values().contains(u) ==> v.0 <= u.0,
            None => m.dom() == Set::<u32>::empty(),
        },
{
    match floor {
        Some(v) => {
            if is_floor(m, floor) {
                let k = choose|k: u32| #[trigger] m.contains_key(k) && m[k] == v;
                assert(m.dom().contains(k) && m[k] == v);
                assert(m.values().contains(v));
            }
            if m.values().contains(v) && forall|u: ModelVersion| #[trigger]
                m.values().contains(u) ==> v.0 <= u.0 {
                assert forall|k: u32| #[trigger] m.contains_key(k) implies v.0 <= m[k].0 by {
                    assert(m.dom().contains(k));
                    assert(m.values().contains(m[k]));
                }
            }
        },
        None => {
            if is_floor(m, floor) {
                assert(m.dom() =~= Set::<u32>::empty());
            }
            if m.dom() == Set::<u32>::empty() {
                assert forall|k: u32| !m.contains_key(k) by {
                    assert(!m.dom().contains(k));
                }
            }
        },
    }
}

/// Convergence is complete and sound: all have reached a version exactly where some node is
/// known and no known node is below the version.
pub proof fn law_convergence_is_exact(m: Map<u32, ModelVersion>, target: ModelVersion)
    ensures
        all_reached(m, target) <==> m.dom() != Set::<u32>::empty() && forall|k: u32| #[trigger]
            m.dom().contains(k) ==> target.0 <= m[k].0,
{
    if all_reached(m, target) {
        let k = choose|k: u32| m.contains_key(k);
        assert(m.dom().contains(k));
    }
    if m.dom() != Set::<u32>::empty() && forall|k: u32| #[trigger]
        m.dom().contains(k) ==> target.0 <= m[k].0 {
        assert(exists|k: u32| m.contains_key(k)) by {
            if forall|k: u32| !m.contains_key(k) {
                assert(m.dom() =~= Set::<u32>::empty());
            }
        }
    }
}

/// A record in which every known node is at one version has that version for its floor, and has
/// reached it and nothing later.
pub proof fn law_uniform_record(m: Map<u32, ModelVersion>, k: u32, v: ModelVersion)
    requires
        m.contains_key(k),
        forall|n: u32| #[trigger] m.contains_key(n) ==> m[n] == v,
    ensures
        is_floor(m, Some(v)),
        forall|target: ModelVersion| #[trigger] all_reached(m, target) <==> target.0 <= v.0,
{
    assert(m[k] == v);
}

/// The answers to queries of a record: the floor that [`VersionCrdt::quorum_floor`] gives is
/// the version of a known node and below no known node, there is none just where no node is
/// known, and [`VersionCrdt::all_at_least`] says yes just where the floor is there and at the
/// target or above.
pub proof fn law_queries_agree(
    crdt: VersionCrdt,
    floor: Option<ModelVersion>,
    target: ModelVersion,
    reached: bool,
)
    requires
        call_ensures(VersionCrdt::quorum_floor, (&crdt,), floor),
        call_ensures(VersionCrdt::all_at_least, (&crdt, target), reached),
    ensures
        match floor {
            Some(v) => {
                &&& crdt.versions@.values().contains(v)
                &&& forall|k: u32| #[trigger]
                    crdt.versions@.dom().contains(k) ==> v.0 <= crdt.versions@[k].0
                &&& reached == (target.0 <= v.0)
            },
            None => crdt.versions@.dom() == Set::<u32>::empty() && !reached,
        },
{
    law_floor_is_least_version(crdt@, floor);
    law_convergence_is_floor(crdt@, floor, target);
}

/// A sequence of merges knows just the nodes that one of the records knows, each at a version
/// that one of them has for it and that none of them exceeds.
pub proof fn law_merging_all_takes_greatest(records: Seq<Map<u32, ModelVersion>>, k: u32)
    ensures
        join_all(records).contains_key(k) <==> exists|i: int|
            0 <= i < records.len() && (#[trigger] records[i]).contains_key(k),
        forall|i: int|
            0 <= i < records.len() && (#[trigger] records[i]).contains_key(k) ==> join_all(
                records,
            )[k].0 >= records[i][k].0,
        join_all(records).contains_key(k) ==> exists|i: int|
            0 <= i < records.len() && (#[trigger] records[i]).contains_key(k) && join_all(
                records,
            )[k] == records[i][k],
    decreases records.len(),
{
    if records.len() > 0 {
        let rest = records.drop_last();
        law_merging_all_takes_greatest(rest, k);
        assert(records.last() == records[records.len() - 1]);
        assert forall|i: int| 0 <= i < rest.len() implies #[trigger] records[i] == rest[i] by {}
        assert forall|i: int| 0 <= i < rest.len() implies #[trigger] rest[i] == records[i] by {}
    }
}

} // verus!
