//! Rewrites the attachment lists of a record with the new attachment ids.
//!
//! A cell is rewritten as a whole or left as it is: where one of its ids
//! has no successor, none of them is replaced.

use vstd::prelude::*;
use crate::attachment::ConversionOutcome;
use crate::cell::{
    create_new_cell_value, decode_cell, encode_cell, get_attachment_ids, CellError, CellView,
};
use crate::column::texts_of;
use crate::id_map::{id_map_of, lemma_id_map_entries, supersedes, AttachmentIdMap};
use crate::names::holds_name;
use crate::record::{cell_at, remove_all_non_attachment_fields, Record, RecordView};

verus! {

/// Whether every one of `ids` has a successor in `map`.
pub open spec fn resolves(ids: Seq<u64>, map: Map<u64, u64>) -> bool {
    forall|i: int| 0 <= i < ids.len() ==> map.contains_key(#[trigger] ids[i])
}

/// The successors of `ids` in `map`, in the order of `ids`.
pub open spec fn remapped(ids: Seq<u64>, map: Map<u64, u64>) -> Seq<u64> {
    ids.map_values(|id: u64| map[id])
}

/// Replaces each of `ids` by its successor in `map`, or returns `None`
/// where one of them has none.
pub fn remap_ids(ids: &Vec<u64>, map: &AttachmentIdMap) -> (new_ids: Option<Vec<u64>>)
    ensures
        match new_ids {
            Some(found) => resolves(ids@, map@) && found@ == remapped(ids@, map@),
            None => !resolves(ids@, map@),
        },
{
    let mut new_ids: Vec<u64> = Vec::new();
    let mut i: usize = 0;
    while i < ids.len()
        invariant
            i <= ids.len(),
            new_ids@.len() == i,
            forall|j: int| 0 <= j < i ==> map@.contains_key(#[trigger] ids@[j]),
            forall|j: int| 0 <= j < i ==> #[trigger] new_ids@[j] == map@[ids@[j]],
        decreases ids.len() - i,
    {
        match map.get(ids[i]) {
            Some(new_id) => {
                new_ids.push(new_id);
            },
            None => {
                assert(!map@.contains_key(ids@[i as int]));
                return None;
            },
        }
        i = i + 1;
    }
    assert(new_ids@ =~= remapped(ids@, map@));
    Some(new_ids)
}

/// What the cell of `record` in `column` is to be replaced by, if it is to
/// be replaced: the cell must refer to at least one attachment, and each
/// attachment it refers to must have a successor in `map`.
pub open spec fn rewritten_cell(
    record: RecordView,
    column: Seq<char>,
    map: Map<u64, u64>,
) -> Option<CellView> {
    match decode_cell(cell_at(record, column)) {
        Ok(ids) => {
            if ids.len() > 0 && resolves(ids, map) {
                Some(encode_cell(remapped(ids, map)))
            } else {
                None
            }
        },
        Err(_) => None,
    }
}

/// Why the cell of `record` in `column` cannot be read, if it cannot. A
/// record without a cell in the column is in order.
pub open spec fn malformed_cell(record: RecordView, column: Seq<char>) -> Option<CellError> {
    match decode_cell(cell_at(record, column)) {
        Ok(_) => None,
        Err(e) => if e == CellError::Missing {
            None
        } else {
            Some(e)
        },
    }
}

/// The cells that an update of `record` carries: for each of `columns`
/// whose cell is rewritten, the new cell, and nothing else.
pub open spec fn staged_fields(
    record: RecordView,
    columns: Seq<Seq<char>>,
    map: Map<u64, u64>,
) -> Map<Seq<char>, CellView> {
    Map::new(
        |column: Seq<char>| columns.contains(column) && rewritten_cell(record, column, map) is Some,
        |column: Seq<char>| rewritten_cell(record, column, map)->Some_0,
    )
}

/// A cell of an attachment column that is no attachment list.
#[derive(Clone, Copy, Debug, PartialEq, Eq, Structural)]
pub struct MalformedCell {
    /// The place of the column in the list of attachment columns.
    pub column: usize,
    /// Why the cell cannot be read.
    pub error: CellError,
}

/// What is to be done with one record.
pub enum RecordPlan {
    /// None of its attachment lists changes.
    Unchanged,
    /// The record is to be updated with these cells.
    Update(RecordView),
    /// One of its attachment columns holds a cell that cannot be read; the
    /// record is left alone.
    Malformed(MalformedCell),
}

/// Whether the cell of `record` in the column at place `at` is the first
/// of `columns` that cannot be read, and `error` says why.
pub open spec fn first_malformed(
    record: RecordView,
    columns: Seq<Seq<char>>,
    at: int,
    error: CellError,
) -> bool {
    &&& 0 <= at < columns.len()
    &&& malformed_cell(record, columns[at]) == Some(error)
    &&& forall|j: int| 0 <= j < at ==> malformed_cell(record, #[trigger] columns[j]) is None
}

/// Whether every cell of `record` in `columns` can be read.
pub open spec fn well_formed(record: RecordView, columns: Seq<Seq<char>>) -> bool {
    forall|j: int| 0 <= j < columns.len() ==> malformed_cell(record, #[trigger] columns[j]) is None
}

/// What is to be done with `record`, given the attachment `columns` of its
/// table and the successors in `map`.
pub open spec fn plan_of(
    record: RecordView,
    columns: Seq<Seq<char>>,
    map: Map<u64, u64>,
) -> RecordPlan {
    if !well_formed(record, columns) {
        RecordPlan::Malformed(
            choose|fault: MalformedCell|
                first_malformed(record, columns, fault.column as int, fault.error),
        )
    } else if staged_fields(record, columns, map) == Map::<Seq<char>, CellView>::empty() {
        RecordPlan::Unchanged
    } else {
        RecordPlan::Update(
            RecordView { id: record.id, fields: staged_fields(record, columns, map) },
        )
    }
}

/// What a prepared update says is to be done.
pub open spec fn plan_view(staged: Result<Option<Record>, MalformedCell>) -> RecordPlan {
    match staged {
        Ok(Some(update)) => RecordPlan::Update(update@),
        Ok(None) => RecordPlan::Unchanged,
        Err(fault) => RecordPlan::Malformed(fault),
    }
}

/// Only one cell is the first that cannot be read.
pub proof fn lemma_first_malformed_unique(
    record: RecordView,
    columns: Seq<Seq<char>>,
    fault: MalformedCell,
)
    requires
        first_malformed(record, columns, fault.column as int, fault.error),
    ensures
        !well_formed(record, columns),
        (choose|other: MalformedCell|
            first_malformed(record, columns, other.column as int, other.error)) == fault,
{
    let other = choose|other: MalformedCell|
        first_malformed(record, columns, other.column as int, other.error);
    assert(first_malformed(record, columns, other.column as int, other.error));
    assert(malformed_cell(record, columns[fault.column as int]) is Some);
    if other.column < fault.column {
        assert(malformed_cell(record, columns[other.column as int]) is None);
    } else if fault.column < other.column {
        assert(malformed_cell(record, columns[fault.column as int]) is None);
    }
}

/// Prepares the update of one record. In each of `columns` the cell is
/// rewritten where every attachment it refers to has a successor in `map`;
/// a cell that is empty, absent, or refers to an attachment without a
/// successor stays as it is. The update carries the rewritten cells and no
/// other: a cell that did not change, above all one that the service
/// computes, is not sent back. Where no cell is rewritten there is no
/// update. A cell that is no attachment list makes the record fail, and
/// nothing of it is updated.
pub fn stage_record(record: &Record, columns: &Vec<String>, map: &AttachmentIdMap) -> (result:
    Result<Option<Record>, MalformedCell>)
    ensures
        plan_view(result) == plan_of(record@, texts_of(columns@), map@),
        match result {
            Ok(Some(update)) => {
                &&& well_formed(record@, texts_of(columns@))
                &&& update@.id == record@.id
                &&& update@.fields == staged_fields(record@, texts_of(columns@), map@)
                &&& exists|column: Seq<char>| update@.fields.contains_key(column)
            },
            Ok(None) => {
                &&& well_formed(record@, texts_of(columns@))
                &&& staged_fields(record@, texts_of(columns@), map@) == Map::<
                    Seq<char>,
                    CellView,
                >::empty()
            },
            Err(fault) => first_malformed(
                record@,
                texts_of(columns@),
                fault.column as int,
                fault.error,
            ),
        },
{
    let ghost names = texts_of(columns@);
    // The update starts as a copy of the record; the cells that change are
    // put in; at the end everything else is taken out again.
    let mut staged = record.clone();
    let mut rewritten: Vec<String> = Vec::new();
    let mut i: usize = 0;
    proof {
        assert(staged_fields(record@, names.take(0), map@) =~= Map::empty());
        assert(staged@.fields =~= record@.fields.union_prefer_right(
            staged_fields(record@, names.take(0), map@),
        ));
    }
    while i < columns.len()
        invariant
            i <= columns.len(),
            names == texts_of(columns@),
            staged@.id == record@.id,
            staged@.fields == record@.fields.union_prefer_right(
                staged_fields(record@, names.take(i as int), map@),
            ),
            forall|c: Seq<char>|
                holds_name(rewritten@, c) <==> staged_fields(
                    record@,
                    names.take(i as int),
                    map@,
                ).contains_key(c),
            forall|j: int| 0 <= j < i ==> malformed_cell(record@, #[trigger] names[j]) is None,
        decreases columns.len() - i,
    {
        let column = &columns[i];
        let ghost name = names[i as int];
        let ghost named = rewritten@;
        assert(name == column@);
        proof {
            assert(names.take(i + 1) =~= names.take(i as int).push(name));
        }
        let changed = match get_attachment_ids(record.get(column.as_str())) {
            Ok(old_ids) => {
                if old_ids.len() == 0 {
                    false
                } else {
                    match remap_ids(&old_ids, map) {
                        Some(new_ids) => {
                            let cell = create_new_cell_value(&new_ids);
                            staged.set(column.clone(), cell);
                            rewritten.push(column.clone());
                            true
                        },
                        None => false,
                    }
                }
            },
            Err(error) => {
                match error {
                    CellError::Missing => false,
                    _ => {
                        proof {
                            lemma_first_malformed_unique(
                                record@,
                                names,
                                MalformedCell { column: i, error },
                            );
                        }
                        return Err(MalformedCell { column: i, error });
                    },
                }
            },
        };
        proof {
            let shorter = names.take(i as int);
            let longer = names.take(i + 1);
            assert(changed == (rewritten_cell(record@, name, map@) is Some));
            assert forall|c: Seq<char>| longer.contains(c) <==> (shorter.contains(c) || c
                == name) by {
                if longer.contains(c) {
                    let k = choose|k: int| 0 <= k < longer.len() && longer[k] == c;
                    if k < i {
                        assert(shorter[k] == c);
                    }
                }
                if shorter.contains(c) {
                    let k = choose|k: int| 0 <= k < shorter.len() && shorter[k] == c;
                    assert(longer[k] == c);
                }
                if c == name {
                    assert(longer[i as int] == c);
                }
            }
            assert(staged@.fields =~= record@.fields.union_prefer_right(
                staged_fields(record@, longer, map@),
            ));
            assert forall|c: Seq<char>|
                holds_name(rewritten@, c) <==> staged_fields(record@, longer, map@).contains_key(
                    c,
                ) by {
                if holds_name(rewritten@, c) {
                    let k = choose|k: int| 0 <= k < rewritten@.len() && (#[trigger] rewritten@[k])@ == c;
                    if k < named.len() {
                        assert(named[k]@ == c);
                        assert(holds_name(named, c));
                    }
                }
                if staged_fields(record@, longer, map@).contains_key(c) {
                    if c == name {
                        assert(rewritten@[named.len() as int]@ == c);
                    } else {
                        assert(holds_name(named, c));
                        let k = choose|k: int| 0 <= k < named.len() && (#[trigger] named[k])@ == c;
                        assert(rewritten@[k] == named[k]);
                    }
                }
            }
        }
        i = i + 1;
    }
    proof {
        assert(names.take(i as int) =~= names);
    }
    if rewritten.len() == 0 {
        proof {
            assert forall|c: Seq<char>| !staged_fields(record@, names, map@).contains_key(c) by {
                if staged_fields(record@, names, map@).contains_key(c) {
                    assert(holds_name(rewritten@, c));
                }
            }
            assert(staged_fields(record@, names, map@) =~= Map::empty());
        }
        return Ok(None);
    }
    remove_all_non_attachment_fields(&mut staged, &rewritten);
    proof {
        let first = rewritten@[0]@;
        assert(holds_name(rewritten@, first));
        assert(staged@.fields =~= staged_fields(record@, names, map@));
        assert(staged@.fields.contains_key(first));
        assert(staged@ == (RecordView { id: record@.id, fields: staged@.fields }));
    }
    Ok(Some(staged))
}

/// A cell is rewritten as a whole or not at all: where one of the
/// attachments it refers to has no successor, the update does not touch
/// its column.
pub proof fn lemma_unresolved_cell_is_left(
    record: RecordView,
    columns: Seq<Seq<char>>,
    column: Seq<char>,
    map: Map<u64, u64>,
    ids: Seq<u64>,
    missing: int,
)
    requires
        decode_cell(cell_at(record, column)) == Ok::<Seq<u64>, CellError>(ids),
        0 <= missing < ids.len(),
        !map.contains_key(ids[missing]),
    ensures
        !staged_fields(record, columns, map).contains_key(column),
{
}

/// Where every attachment that a cell refers to has a successor, the
/// update holds for its column the list of the successors, in the order
/// of the cell.
pub proof fn lemma_resolved_cell_is_rewritten(
    record: RecordView,
    columns: Seq<Seq<char>>,
    column: Seq<char>,
    map: Map<u64, u64>,
    ids: Seq<u64>,
)
    requires
        columns.contains(column),
        decode_cell(cell_at(record, column)) == Ok::<Seq<u64>, CellError>(ids),
        ids.len() > 0,
        resolves(ids, map),
    ensures
        staged_fields(record, columns, map).contains_key(column),
        staged_fields(record, columns, map)[column] == encode_cell(remapped(ids, map)),
        decode_cell(Some(staged_fields(record, columns, map)[column])) == Ok::<
            Seq<u64>,
            CellError,
        >(remapped(ids, map)),
        remapped(ids, map).len() == ids.len(),
        forall|i: int| 0 <= i < ids.len() ==> remapped(ids, map)[i] == map[#[trigger] ids[i]],
{
    crate::cell::lemma_decode_encode(remapped(ids, map));
}

/// An update carries cells of attachment columns only, and only cells
/// that changed hands.
pub proof fn lemma_update_holds_rewritten_cells_only(
    record: RecordView,
    columns: Seq<Seq<char>>,
    map: Map<u64, u64>,
    column: Seq<char>,
)
    requires
        staged_fields(record, columns, map).contains_key(column),
    ensures
        columns.contains(column),
        record.fields.contains_key(column),
        rewritten_cell(record, column, map) == Some(staged_fields(record, columns, map)[column]),
{
}

/// A conversion that failed leaves the work of the others standing. Where
/// one conversion of a document failed and another one, the only one that
/// speaks of its attachment, superseded it, the map of the document holds
/// the successor of that attachment, every entry of the map comes from a
/// conversion that succeeded, and a cell that refers to that attachment
/// alone is rewritten.
pub proof fn lemma_failure_is_isolated<E>(
    results: Seq<Result<ConversionOutcome, E>>,
    failed: int,
    succeeded: int,
    record: RecordView,
    columns: Seq<Seq<char>>,
    column: Seq<char>,
)
    requires
        0 <= failed < results.len(),
        results[failed] is Err,
        0 <= succeeded < results.len(),
        results[succeeded] is Ok,
        results[succeeded]->Ok_0.superseded(),
        forall|i: int|
            0 <= i < results.len() && (#[trigger] results[i]) is Ok && i != succeeded
                ==> results[i]->Ok_0.old_id != results[succeeded]->Ok_0.old_id,
        columns.contains(column),
        decode_cell(cell_at(record, column)) == Ok::<Seq<u64>, CellError>(
            seq![results[succeeded]->Ok_0.old_id],
        ),
    ensures
        id_map_of(results).contains_key(results[succeeded]->Ok_0.old_id),
        id_map_of(results)[results[succeeded]->Ok_0.old_id] == results[succeeded]->Ok_0.new_id,
        forall|old_id: u64| #[trigger]
            id_map_of(results).contains_key(old_id) ==> exists|i: int|
                0 <= i < results.len() && supersedes(
                    #[trigger] results[i],
                    old_id,
                    id_map_of(results)[old_id],
                ),
        staged_fields(record, columns, id_map_of(results)).contains_key(column),
        staged_fields(record, columns, id_map_of(results))[column] == encode_cell(
            seq![results[succeeded]->Ok_0.new_id],
        ),
{
    let outcome = results[succeeded]->Ok_0;
    let map = id_map_of(results);
    lemma_id_map_entries(results, outcome.old_id);
    assert(supersedes(results[succeeded], outcome.old_id, outcome.new_id));
    let i = choose|i: int|
        0 <= i < results.len() && supersedes(#[trigger] results[i], outcome.old_id, map[outcome.old_id]);
    assert(i == succeeded);
    assert forall|old_id: u64| #[trigger] map.contains_key(old_id) implies exists|i: int|
        0 <= i < results.len() && supersedes(#[trigger] results[i], old_id, map[old_id]) by {
        lemma_id_map_entries(results, old_id);
    }
    let ids = seq![outcome.old_id];
    assert(resolves(ids, map));
    assert(remapped(ids, map) =~= seq![outcome.new_id]);
    lemma_resolved_cell_is_rewritten(record, columns, column, map, ids);
}

} // verus!
