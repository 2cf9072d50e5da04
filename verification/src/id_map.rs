//! The map from superseded attachment ids to the ids that replace them.
//!
//! One map is built for each document from the outcomes of its
//! conversions, and read when the records of the document are rewritten.

use std::collections::HashMap;
use vstd::prelude::*;
use crate::attachment::ConversionOutcome;

verus! {

/// The map after `outcome` was recorded in `map`. Only an outcome that
/// supersedes its attachment is entered, and an id that is entered keeps
/// its successor.
pub open spec fn record_outcome(map: Map<u64, u64>, outcome: ConversionOutcome) -> Map<u64, u64> {
    if outcome.superseded() && !map.contains_key(outcome.old_id) {
        map.insert(outcome.old_id, outcome.new_id)
    } else {
        map
    }
}

/// The map that the results of a document's conversions give, taken in
/// order. A failed conversion enters nothing.
pub open spec fn id_map_of<E>(results: Seq<Result<ConversionOutcome, E>>) -> Map<u64, u64>
    decreases results.len(),
{
    if results.len() == 0 {
        Map::empty()
    } else {
        let before = id_map_of(results.drop_last());
        match results.last() {
            Ok(outcome) => record_outcome(before, outcome),
            Err(_) => before,
        }
    }
}

/// From old attachment id to new attachment id.
pub struct AttachmentIdMap {
    entries: HashMap<u64, u64>,
}

impl View for AttachmentIdMap {
    type V = Map<u64, u64>;

    closed spec fn view(&self) -> Map<u64, u64> {
        self.entries@
    }
}

impl AttachmentIdMap {
    /// A map without entries.
    pub fn new() -> (map: AttachmentIdMap)
        ensures
            map@ == Map::<u64, u64>::empty(),
    {
        AttachmentIdMap { entries: HashMap::new() }
    }

    /// Enters `outcome` where it supersedes an attachment that has no
    /// successor yet, and changes nothing otherwise.
    pub fn record(&mut self, outcome: ConversionOutcome)
        ensures
            final(self)@ == record_outcome(old(self)@, outcome),
    {
        broadcast use vstd::std_specs::hash::group_hash_axioms;

        if outcome.old_id != outcome.new_id && !self.entries.contains_key(&outcome.old_id) {
            self.entries.insert(outcome.old_id, outcome.new_id);
        }
    }

    /// Returns the successor of `old_id`, if one was entered.
    pub fn get(&self, old_id: u64) -> (new_id: Option<u64>)
        ensures
            new_id == (if self@.contains_key(old_id) {
                Some(self@[old_id])
            } else {
                None
            }),
    {
        broadcast use vstd::std_specs::hash::group_hash_axioms;

        match self.entries.get(&old_id) {
            Some(new_id) => Some(*new_id),
            None => None,
        }
    }

    /// Returns the number of entries.
    pub fn len(&self) -> (n: usize)
        ensures
            n == self@.len(),
            self@.dom().finite(),
    {
        broadcast use vstd::std_specs::hash::group_hash_axioms;

        self.entries.len()
    }
}

/// Builds the map of a document from the results of its conversions, taken
/// in order: every outcome that supersedes its attachment is entered, and a
/// failed conversion leaves the map as it was.
pub fn collect_id_map<E>(results: &Vec<Result<ConversionOutcome, E>>) -> (map: AttachmentIdMap)
    ensures
        map@ == id_map_of(results@),
{
    let mut map = AttachmentIdMap::new();
    let mut i: usize = 0;
    while i < results.len()
        invariant
            i <= results.len(),
            map@ == id_map_of(results@.take(i as int)),
        decreases results.len() - i,
    {
        proof {
            assert(results@.take(i + 1).drop_last() =~= results@.take(i as int));
        }
        match &results[i] {
            Ok(outcome) => {
                map.record(*outcome);
            },
            Err(_) => {},
        }
        i = i + 1;
    }
    assert(results@.take(i as int) =~= results@);
    map
}

/// Whether `result` is a conversion that succeeded and put `new_id` in the
/// place of `old_id`.
pub open spec fn supersedes<E>(result: Result<ConversionOutcome, E>, old_id: u64, new_id: u64) -> bool {
    match result {
        Ok(outcome) => outcome.old_id == old_id && outcome.new_id == new_id && outcome.superseded(),
        Err(_) => false,
    }
}

/// Every entry of the map comes from a conversion that succeeded and
/// superseded its attachment, and every such conversion has its old id in
/// the map.
pub proof fn lemma_id_map_entries<E>(results: Seq<Result<ConversionOutcome, E>>, old_id: u64)
    ensures
        id_map_of(results).contains_key(old_id) <==> exists|i: int, new_id: u64|
            0 <= i < results.len() && #[trigger] supersedes(results[i], old_id, new_id),
        id_map_of(results).contains_key(old_id) ==> exists|i: int|
            0 <= i < results.len() && supersedes(
                #[trigger] results[i],
                old_id,
                id_map_of(results)[old_id],
            ),
    decreases results.len(),
{
    if results.len() > 0 {
        let shorter = results.drop_last();
        let last = results.len() - 1;
        lemma_id_map_entries(shorter, old_id);
        if id_map_of(shorter).contains_key(old_id) {
            let i = choose|i: int|
                0 <= i < shorter.len() && supersedes(
                    #[trigger] shorter[i],
                    old_id,
                    id_map_of(shorter)[old_id],
                );
            assert(results[i] == shorter[i]);
            assert(supersedes(results[i], old_id, id_map_of(results)[old_id]));
        } else if id_map_of(results).contains_key(old_id) {
            assert(supersedes(results[last], old_id, id_map_of(results)[old_id]));
        }
        if exists|i: int, new_id: u64|
            0 <= i < results.len() && #[trigger] supersedes(results[i], old_id, new_id) {
            let (i, new_id) = choose|i: int, new_id: u64|
                0 <= i < results.len() && #[trigger] supersedes(results[i], old_id, new_id);
            if i < last {
                assert(supersedes(shorter[i], old_id, new_id));
            }
        }
    }
}

} // verus!
