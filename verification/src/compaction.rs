use crate::config::{word_of, to_word, IndexConfig};
use crate::error::HnswError;
use std::collections::HashSet;
use vstd::prelude::*;
use vstd::seq_lib::*;
use vstd::set_lib::*;

verus! {

broadcast use vstd::std_specs::hash::group_hash_axioms;

/// Whether the point at position `i` of an enumeration is carried over to
/// the rebuilt graph: its identifier is not tombstoned and occurs at no
/// earlier position.
pub open spec fn survives(ids: Seq<u64>, dead: Set<u64>, i: int) -> bool {
    &&& 0 <= i < ids.len()
    &&& !dead.contains(ids[i])
    &&& forall|j: int| 0 <= j < i ==> ids[j] != ids[i]
}

/// The identifiers a rebuilt graph holds: those enumerated, without the
/// tombstoned ones.
pub open spec fn live_ids(ids: Seq<u64>, dead: Set<u64>) -> Set<u64> {
    ids.to_set().difference(dead)
}

/// How many positions a mask keeps.
pub open spec fn kept_count(keep: Seq<bool>) -> nat
    decreases keep.len(),
{
    if keep.len() == 0 {
        0
    } else {
        kept_count(keep.drop_last()) + if keep.last() {
            1nat
        } else {
            0nat
        }
    }
}

/// Whether an identifier can be handed to the graph engine, which takes
/// identifiers in the machine's word.
pub open spec fn addressable(id: u64) -> bool {
    id <= usize::MAX
}

/// What a compaction does to the points of an index, decided before any
/// point is moved.
#[derive(Debug, PartialEq, Eq)]
pub struct CompactionPlan {
    /// The number of points the rebuilt graph is allocated for.
    pub capacity: usize,
    /// The number of points the rebuilt graph receives.
    pub survivors: usize,
    /// For each position of the enumeration, whether its point is carried over.
    pub keep: Vec<bool>,
}

impl CompactionPlan {
    /// The plan for an enumeration `ids` under the tombstones `dead` and a
    /// requested capacity of `max_elements`.
    pub open spec fn describes(self, ids: Seq<u64>, dead: Set<u64>, max_elements: u64) -> bool {
        &&& self.keep@.len() == ids.len()
        &&& forall|i: int| 0 <= i < ids.len() ==> #[trigger] self.keep@[i] == survives(ids, dead, i)
        &&& self.survivors == kept_count(self.keep@)
        &&& self.survivors == live_ids(ids, dead).len()
        &&& self.capacity == if word_of(max_elements) < self.survivors {
            self.survivors
        } else {
            word_of(max_elements)
        }
    }
}

/// Builds the lookup set of a tombstone list. A tombstone that the engine
/// could not address refuses the whole list.
pub fn tombstone_set(tombstones: &Vec<u64>) -> (r: Result<HashSet<u64>, HnswError>)
    ensures
        match r {
            Ok(dead) => {
                &&& dead@ == tombstones@.to_set()
                &&& forall|i: int| 0 <= i < tombstones@.len() ==> addressable(#[trigger] tombstones@[i])
            },
            Err(HnswError::IoError(message)) => {
                &&& exists|i: int| 0 <= i < tombstones@.len() && !addressable(#[trigger] tombstones@[i])
                &&& message@ == "Tombstone id exceeds addressable range"@
            },
            Err(_) => false,
        },
{
    let mut dead: HashSet<u64> = HashSet::new();
    let mut i: usize = 0;
    assert(tombstones@.take(0) =~= Seq::<u64>::empty());
    while i < tombstones.len()
        invariant
            i <= tombstones@.len(),
            dead@ == tombstones@.take(i as int).to_set(),
            forall|n: int| 0 <= n < i ==> addressable(#[trigger] tombstones@[n]),
        decreases tombstones@.len() - i,
    {
        let t = tombstones[i];
        if t > usize::MAX as u64 {
            return Err(HnswError::IoError("Tombstone id exceeds addressable range".to_string()));
        }
        dead.insert(t);
        proof {
            assert(tombstones@.take(i + 1) =~= tombstones@.take(i as int).push(t));
            tombstones@.take(i as int).lemma_push_to_set_commute(t);
        }
        i += 1;
    }
    assert(tombstones@.take(i as int) =~= tombstones@);
    Ok(dead)
}

proof fn lemma_kept_count_push(keep: Seq<bool>, b: bool)
    ensures
        kept_count(keep.push(b)) == kept_count(keep) + if b {
            1nat
        } else {
            0nat
        },
{
    assert(keep.push(b).drop_last() =~= keep);
}

proof fn lemma_seen_earlier(ids: Seq<u64>, i: int)
    requires
        0 <= i < ids.len(),
    ensures
        ids.take(i).to_set().contains(ids[i]) <==> exists|j: int| 0 <= j < i && ids[j] == ids[i],
{
    let prefix = ids.take(i);
    if prefix.to_set().contains(ids[i]) {
        assert(prefix.contains(ids[i]));
        let j = choose|j: int| 0 <= j < prefix.len() && prefix[j] == ids[i];
        assert(0 <= j < i && ids[j] == ids[i]);
    }
    if exists|j: int| 0 <= j < i && ids[j] == ids[i] {
        let j = choose|j: int| 0 <= j < i && ids[j] == ids[i];
        assert(prefix[j] == ids[i]);
        assert(prefix.contains(ids[i]));
    }
}

proof fn lemma_first_occurrence(ids: Seq<u64>, n: int) -> (i: int)
    requires
        0 <= n < ids.len(),
    ensures
        0 <= i <= n,
        ids[i] == ids[n],
        forall|k: int| 0 <= k < i ==> ids[k] != ids[n],
    decreases n,
{
    if exists|k: int| 0 <= k < n && ids[k] == ids[n] {
        let k = choose|k: int| 0 <= k < n && ids[k] == ids[n];
        lemma_first_occurrence(ids, k)
    } else {
        n
    }
}

/// A rebuilt graph holds one point for each identifier that stays: an
/// identifier is enumerated and not tombstoned exactly when some kept
/// position carries it, and no two kept positions carry the same identifier.
pub proof fn law_one_point_per_live_id(ids: Seq<u64>, dead: Set<u64>)
    ensures
        forall|id: u64| #[trigger]
            live_ids(ids, dead).contains(id) <==> exists|i: int|
                survives(ids, dead, i) && ids[i] == id,
        forall|i: int, j: int|
            survives(ids, dead, i) && survives(ids, dead, j) && ids[i] == ids[j] ==> i == j,
{
    assert forall|id: u64| #[trigger]
        live_ids(ids, dead).contains(id) implies exists|i: int|
        survives(ids, dead, i) && ids[i] == id by {
        assert(ids.contains(id));
        let n = choose|n: int| 0 <= n < ids.len() && ids[n] == id;
        let i = lemma_first_occurrence(ids, n);
        assert(survives(ids, dead, i) && ids[i] == id);
    }
    assert forall|id: u64|
        (exists|i: int| survives(ids, dead, i) && ids[i] == id) implies #[trigger] live_ids(
        ids,
        dead,
    ).contains(id) by {
        let i = choose|i: int| survives(ids, dead, i) && ids[i] == id;
        assert(ids.contains(ids[i]));
    }
    assert forall|i: int, j: int|
        survives(ids, dead, i) && survives(ids, dead, j) && ids[i] == ids[j] implies i == j by {
        if i < j {
            assert(ids[i] != ids[j]);
        }
        if j < i {
            assert(ids[j] != ids[i]);
        }
    }
}

/// Compacting without tombstones an index in whose enumeration no
/// identifier repeats carries every point over.
pub proof fn law_nothing_to_remove(
    plan: CompactionPlan,
    ids: Seq<u64>,
    tombstones: Seq<u64>,
    max_elements: u64,
)
    requires
        plan.describes(ids, tombstones.to_set(), max_elements),
        ids.no_duplicates(),
        tombstones.len() == 0,
    ensures
        plan.survivors == ids.len(),
        forall|i: int| 0 <= i < ids.len() ==> #[trigger] plan.keep@[i],
{
    assert(tombstones.to_set() =~= Set::<u64>::empty());
    assert(live_ids(ids, tombstones.to_set()) =~= ids.to_set());
    ids.unique_seq_to_set();
}

/// Compacting an index in whose enumeration no identifier repeats leaves as
/// many points as were enumerated, less the tombstones that name one of
/// them, and no point that is carried over has a tombstoned identifier.
pub proof fn law_count_after_compaction(
    plan: CompactionPlan,
    ids: Seq<u64>,
    tombstones: Seq<u64>,
    max_elements: u64,
)
    requires
        plan.describes(ids, tombstones.to_set(), max_elements),
        ids.no_duplicates(),
    ensures
        plan.survivors == ids.len() - tombstones.to_set().intersect(ids.to_set()).len(),
        forall|i: int|
            0 <= i < ids.len() && #[trigger] plan.keep@[i] ==> !tombstones.contains(ids[i]),
{
    let named = ids.to_set();
    let dead = tombstones.to_set();
    ids.unique_seq_to_set();
    seq_to_set_is_finite(ids);
    seq_to_set_is_finite(tombstones);
    lemma_set_difference_len(named, dead);
    assert(named.intersect(dead) =~= dead.intersect(named));
}

/// A rebuilt graph is never allocated for fewer points than it receives,
/// however small the requested capacity is.
pub proof fn law_capacity_holds_survivors(
    plan: CompactionPlan,
    ids: Seq<u64>,
    dead: Set<u64>,
    max_elements: u64,
)
    requires
        plan.describes(ids, dead, max_elements),
    ensures
        plan.capacity >= plan.survivors,
        plan.capacity >= word_of(max_elements),
        plan.survivors == kept_count(plan.keep@),
{
}

impl IndexConfig {
    /// Plans the rebuild of an index of this shape whose points enumerate
    /// under `ids`, leaving out the points whose identifier is in
    /// `tombstones` and all but the first point of each identifier.
    ///
    /// A requested shape of another metric or dimension is refused before
    /// anything else is looked at. An index without points gets an empty
    /// plan whatever the tombstones are.
    pub fn plan_compaction(
        &self,
        requested: &IndexConfig,
        ids: &Vec<u64>,
        tombstones: &Vec<u64>,
    ) -> (r: Result<CompactionPlan, HnswError>)
        ensures
            match self.spec_check_shape(*requested) {
                Err(e) => r == Err::<CompactionPlan, HnswError>(e),
                Ok(()) => if ids@.len() > 0 && exists|i: int|
                    0 <= i < tombstones@.len() && !addressable(#[trigger] tombstones@[i]) {
                    &&& r matches Err(HnswError::IoError(message))
                    &&& message@ == "Tombstone id exceeds addressable range"@
                } else {
                    &&& r matches Ok(plan)
                    &&& plan.describes(ids@, tombstones@.to_set(), requested.max_elements)
                },
            },
            r matches Ok(plan) ==> plan.capacity >= plan.survivors,
    {
        match self.check_shape(requested) {
            Err(e) => {
                return Err(e);
            },
            Ok(()) => {},
        }
        let floor = to_word(requested.max_elements);
        if ids.len() == 0 {
            proof {
                assert(live_ids(ids@, tombstones@.to_set()) =~= Set::<u64>::empty());
            }
            return Ok(CompactionPlan { capacity: floor, survivors: 0, keep: Vec::new() });
        }
        let dead = match tombstone_set(tombstones) {
            Ok(dead) => dead,
            Err(e) => {
                return Err(e);
            },
        };
        let mut seen: HashSet<u64> = HashSet::new();
        let mut keep: Vec<bool> = Vec::with_capacity(ids.len());
        let mut survivors: usize = 0;
        let mut i: usize = 0;
        proof {
            assert(ids@.take(0) =~= Seq::<u64>::empty());
            assert(live_ids(ids@.take(0), dead@) =~= Set::<u64>::empty());
        }
        while i < ids.len()
            invariant
                i <= ids@.len(),
                seen@.finite(),
                seen@ == live_ids(ids@.take(i as int), dead@),
                survivors == seen@.len(),
                survivors == kept_count(keep@),
                survivors <= i,
                keep@.len() == i,
                forall|n: int| 0 <= n < i ==> #[trigger] keep@[n] == survives(ids@, dead@, n),
            decreases ids@.len() - i,
        {
            let id = ids[i];
            let ghost before = keep@;
            let ghost prefix = ids@.take(i as int);
            proof {
                assert(ids@.take(i + 1) =~= prefix.push(id));
                prefix.lemma_push_to_set_commute(id);
                lemma_seen_earlier(ids@, i as int);
            }
            if dead.contains(&id) {
                keep.push(false);
                proof {
                    assert(live_ids(prefix.push(id), dead@) =~= live_ids(prefix, dead@));
                }
            } else if seen.insert(id) {
                keep.push(true);
                survivors += 1;
                proof {
                    assert(live_ids(prefix.push(id), dead@) =~= live_ids(prefix, dead@).insert(id));
                }
            } else {
                keep.push(false);
                proof {
                    assert(live_ids(prefix.push(id), dead@) =~= live_ids(prefix, dead@));
                }
            }
            proof {
                lemma_kept_count_push(before, keep@[i as int]);
                assert(keep@ =~= before.push(keep@[i as int]));
            }
            i += 1;
        }
        assert(ids@.take(i as int) =~= ids@);
        let capacity = if floor < survivors {
            survivors
        } else {
            floor
        };
        Ok(CompactionPlan { capacity, survivors, keep })
    }
}

} // verus!
