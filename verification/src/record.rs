//! Records and columns of a table, as far as the remapping reads them.

use vstd::prelude::*;
use crate::cell::{CellValue, CellView};
use crate::names::{contains_name, holds_name, str_eq};

verus! {

/// One cell of a record, with the id of its column.
#[derive(Debug, PartialEq, Eq)]
pub struct Field {
    pub column: String,
    pub value: CellValue,
}

impl Clone for Field {
    fn clone(&self) -> (copy: Field)
        ensures
            copy.column@ == self.column@,
            copy.value@ == self.value@,
    {
        Field { column: self.column.clone(), value: self.value.clone() }
    }
}

/// What a `Record` stands for: its id and its cells by column id.
pub struct RecordView {
    pub id: u64,
    pub fields: Map<Seq<char>, CellView>,
}

/// What `record` holds in `column`, if anything.
pub open spec fn cell_at(record: RecordView, column: Seq<char>) -> Option<CellView> {
    if record.fields.contains_key(column) {
        Some(record.fields[column])
    } else {
        None
    }
}

/// Whether no column id stands twice in `fields`.
pub open spec fn distinct_columns(fields: Seq<Field>) -> bool {
    forall|i: int, j: int|
        0 <= i < j < fields.len() ==> (#[trigger] fields[i]).column@ != (#[trigger] fields[j]).column@
}

/// Whether `fields` holds a cell for `column`.
pub open spec fn has_column(fields: Seq<Field>, column: Seq<char>) -> bool {
    exists|i: int| 0 <= i < fields.len() && (#[trigger] fields[i]).column@ == column
}

/// A place in `fields` that holds the cell for `column`, where there is one.
pub open spec fn column_index(fields: Seq<Field>, column: Seq<char>) -> int {
    choose|i: int| 0 <= i < fields.len() && (#[trigger] fields[i]).column@ == column
}

/// The cells of `fields` by column id.
pub open spec fn cells_of(fields: Seq<Field>) -> Map<Seq<char>, CellView> {
    Map::new(
        |column: Seq<char>| has_column(fields, column),
        |column: Seq<char>| fields[column_index(fields, column)].value@,
    )
}

/// Returns the first place in `fields` that holds the cell for `column`,
/// or the length of `fields` where there is none.
fn find_column(fields: &Vec<Field>, column: &str) -> (place: usize)
    ensures
        place <= fields.len(),
        forall|j: int| 0 <= j < place ==> (#[trigger] fields@[j]).column@ != column@,
        place < fields.len() ==> fields@[place as int].column@ == column@,
{
    let mut i: usize = 0;
    while i < fields.len()
        invariant
            i <= fields.len(),
            forall|j: int| 0 <= j < i ==> (#[trigger] fields@[j]).column@ != column@,
        decreases fields.len() - i,
    {
        if str_eq(fields[i].column.as_str(), column) {
            return i;
        }
        i = i + 1;
    }
    i
}

/// A record of a table: a mapping from column id to cell. No column
/// occurs twice.
#[derive(Debug)]
pub struct Record {
    id: u64,
    fields: Vec<Field>,
}

impl View for Record {
    type V = RecordView;

    closed spec fn view(&self) -> RecordView {
        RecordView { id: self.id, fields: cells_of(self.fields@) }
    }
}

impl Clone for Record {
    fn clone(&self) -> (copy: Record)
        ensures
            copy@ == self@,
    {
        proof {
            use_type_invariant(self);
        }
        let mut fields: Vec<Field> = Vec::new();
        let mut i: usize = 0;
        while i < self.fields.len()
            invariant
                i <= self.fields.len(),
                fields@.len() == i,
                forall|j: int|
                    0 <= j < i ==> (#[trigger] fields@[j]).column@ == self.fields@[j].column@
                        && fields@[j].value@ == self.fields@[j].value@,
            decreases self.fields.len() - i,
        {
            fields.push(self.fields[i].clone());
            i = i + 1;
        }
        proof {
            lemma_same_cells(self.fields@, fields@);
        }
        Record { id: self.id, fields }
    }
}

/// Fields that agree place by place, in column and in cell, hold the same
/// cells, and no column twice if the others do not.
proof fn lemma_same_cells(first: Seq<Field>, second: Seq<Field>)
    requires
        first.len() == second.len(),
        forall|j: int|
            0 <= j < first.len() ==> (#[trigger] second[j]).column@ == first[j].column@
                && second[j].value@ == first[j].value@,
        distinct_columns(first),
    ensures
        distinct_columns(second),
        cells_of(second) == cells_of(first),
{
    assert forall|k: Seq<char>| cells_of(second).contains_key(k) <==> cells_of(first).contains_key(
        k,
    ) by {
        if has_column(second, k) {
            let a = column_index(second, k);
            assert(first[a].column@ == k);
        }
        if has_column(first, k) {
            let a = column_index(first, k);
            assert(second[a].column@ == k);
        }
    }
    assert forall|k: Seq<char>| cells_of(second).contains_key(k) implies cells_of(second)[k]
        == cells_of(first)[k] by {
        let a = column_index(second, k);
        let b = column_index(first, k);
        assert(first[a].column@ == k);
        if a != b {
            if a < b {
                assert(first[a].column@ != first[b].column@);
            } else {
                assert(first[b].column@ != first[a].column@);
            }
        }
    }
    assert(cells_of(second) =~= cells_of(first));
}

impl Record {
    #[verifier::type_invariant]
    spec fn no_column_twice(self) -> bool {
        distinct_columns(self.fields@)
    }

    /// A record without cells.
    pub fn new(id: u64) -> (record: Record)
        ensures
            record@ == (RecordView { id, fields: Map::empty() }),
    {
        let record = Record { id, fields: Vec::new() };
        assert(record@.fields =~= Map::empty());
        record
    }

    /// Returns the id of the record.
    pub fn id(&self) -> (id: u64)
        ensures
            id == self@.id,
    {
        self.id
    }

    /// Returns the cells of the record, each column once, in no particular
    /// order.
    pub fn fields(&self) -> (fields: &Vec<Field>)
        ensures
            distinct_columns(fields@),
            self@.fields == cells_of(fields@),
    {
        proof {
            use_type_invariant(self);
        }
        &self.fields
    }

    /// Returns the cell that the record holds in `column`, if any.
    pub fn get(&self, column: &str) -> (cell: Option<&CellValue>)
        ensures
            match cell {
                Some(found) => cell_at(self@, column@) == Some(found@),
                None => cell_at(self@, column@) is None,
            },
    {
        proof {
            use_type_invariant(self);
        }
        let i = find_column(&self.fields, column);
        if i < self.fields.len() {
            proof {
                assert(has_column(self.fields@, column@));
                let k = column_index(self.fields@, column@);
                if k != i {
                    if k < i {
                        assert(self.fields@[k].column@ != self.fields@[i as int].column@);
                    } else {
                        assert(self.fields@[i as int].column@ != self.fields@[k].column@);
                    }
                }
            }
            return Some(&self.fields[i].value);
        }
        None
    }

    /// Puts `value` in `column`, in place of what the record held there.
    pub fn set(&mut self, column: String, value: CellValue)
        ensures
            final(self)@ == (RecordView {
                id: old(self)@.id,
                fields: old(self)@.fields.insert(column@, value@),
            }),
    {
        proof {
            use_type_invariant(&*self);
        }
        let ghost before = self.fields@;
        let mut fields: Vec<Field> = Vec::new();
        std::mem::swap(&mut self.fields, &mut fields);
        let i = find_column(&fields, column.as_str());
        let field = Field { column, value };
        if i < fields.len() {
            fields.set(i, field);
        } else {
            fields.push(field);
        }
        let ghost after = fields@;
        proof {
            assert(after[i as int] == field);
            assert forall|a: int, b: int| 0 <= a < b < after.len() implies (#[trigger] after[a]).column@
                != (#[trigger] after[b]).column@ by {
                if a != i && b != i {
                    assert(after[a] == before[a] && after[b] == before[b]);
                } else if a == i && b < before.len() {
                    assert(after[b] == before[b]);
                } else if b == i && a < before.len() {
                    assert(after[a] == before[a]);
                }
            }
            let wanted = cells_of(before).insert(field.column@, field.value@);
            assert forall|k: Seq<char>| cells_of(after).contains_key(k) <==> wanted.contains_key(
                k,
            ) by {
                if has_column(after, k) {
                    let a = column_index(after, k);
                    if a != i {
                        assert(before[a] == after[a]);
                    }
                }
                if has_column(before, k) {
                    let a = column_index(before, k);
                    if a != i {
                        assert(after[a] == before[a]);
                    } else {
                        assert(after[i as int].column@ == k);
                    }
                }
                if k == field.column@ {
                    assert(after[i as int].column@ == k);
                }
            }
            assert forall|k: Seq<char>| cells_of(after).contains_key(k) implies cells_of(after)[k]
                == wanted[k] by {
                let a = column_index(after, k);
                if k == field.column@ {
                    if a != i {
                        if a < i {
                            assert(after[a].column@ != after[i as int].column@);
                        } else {
                            assert(after[i as int].column@ != after[a].column@);
                        }
                    }
                } else {
                    assert(before[a] == after[a]);
                    let b = column_index(before, k);
                    if a != b {
                        if a < b {
                            assert(before[a].column@ != before[b].column@);
                        } else {
                            assert(before[b].column@ != before[a].column@);
                        }
                    }
                }
            }
            assert(cells_of(after) =~= wanted);
        }
        self.fields = fields;
    }
}

/// The column ids that `names` holds.
pub open spec fn name_set(names: Seq<String>) -> Set<Seq<char>> {
    Set::new(|name: Seq<char>| holds_name(names, name))
}

/// Removes from `record` every cell whose column is none of
/// `attachment_column_ids`.
pub fn remove_all_non_attachment_fields(record: &mut Record, attachment_column_ids: &Vec<String>)
    ensures
        final(record)@ == (RecordView {
            id: old(record)@.id,
            fields: old(record)@.fields.restrict(name_set(attachment_column_ids@)),
        }),
{
    proof {
        use_type_invariant(&*record);
    }
    let ghost before = record.fields@;
    let mut fields: Vec<Field> = Vec::new();
    std::mem::swap(&mut record.fields, &mut fields);
    let mut kept: Vec<Field> = Vec::new();
    for field in it: fields
        invariant
            it.seq() == before,
            distinct_columns(before),
            distinct_columns(kept@),
            forall|j: int|
                0 <= j < kept@.len() ==> holds_name(
                    attachment_column_ids@,
                    (#[trigger] kept@[j]).column@,
                ) && exists|a: int| 0 <= a < it.index() && #[trigger] before[a] == kept@[j],
            forall|a: int|
                0 <= a < it.index() && holds_name(
                    attachment_column_ids@,
                    (#[trigger] before[a]).column@,
                ) ==> exists|j: int| 0 <= j < kept@.len() && #[trigger] kept@[j] == before[a],
    {
        let ghost earlier = kept@;
        let ghost at = it.index() as int;
        if contains_name(attachment_column_ids, field.column.as_str()) {
            kept.push(field);
            proof {
                assert(kept@[earlier.len() as int] == before[at]);
                assert forall|i: int, j: int| 0 <= i < j < kept@.len() implies (#[trigger] kept@[i]).column@
                    != (#[trigger] kept@[j]).column@ by {
                    if j == earlier.len() {
                        assert(kept@[i] == earlier[i]);
                        let a = choose|a: int| 0 <= a < at && #[trigger] before[a] == earlier[i];
                        assert(before[a].column@ != before[at].column@);
                    } else {
                        assert(kept@[i] == earlier[i] && kept@[j] == earlier[j]);
                    }
                }
                assert forall|j: int| 0 <= j < kept@.len() implies holds_name(
                    attachment_column_ids@,
                    (#[trigger] kept@[j]).column@,
                ) && exists|a: int| 0 <= a < at + 1 && #[trigger] before[a] == kept@[j] by {
                    if j < earlier.len() {
                        assert(kept@[j] == earlier[j]);
                        let a = choose|a: int| 0 <= a < at && #[trigger] before[a] == earlier[j];
                        assert(before[a] == kept@[j]);
                    } else {
                        assert(before[at] == kept@[j]);
                    }
                }
                assert forall|a: int|
                    0 <= a < at + 1 && holds_name(
                        attachment_column_ids@,
                        (#[trigger] before[a]).column@,
                    ) implies exists|j: int| 0 <= j < kept@.len() && #[trigger] kept@[j]
                    == before[a] by {
                    if a < at {
                        let j = choose|j: int| 0 <= j < earlier.len() && #[trigger] earlier[j] == before[a];
                        assert(kept@[j] == before[a]);
                    } else {
                        assert(kept@[earlier.len() as int] == before[a]);
                    }
                }
            }
        }
    }
    proof {
        let wanted = cells_of(before).restrict(name_set(attachment_column_ids@));
        assert forall|k: Seq<char>| cells_of(kept@).contains_key(k) <==> wanted.contains_key(k) by {
            if has_column(kept@, k) {
                let j = column_index(kept@, k);
                let a = choose|a: int| 0 <= a < before.len() && #[trigger] before[a] == kept@[j];
                assert(before[a].column@ == k);
            }
            if has_column(before, k) && holds_name(attachment_column_ids@, k) {
                let a = column_index(before, k);
                let j = choose|j: int| 0 <= j < kept@.len() && #[trigger] kept@[j] == before[a];
                assert(kept@[j].column@ == k);
            }
        }
        assert forall|k: Seq<char>| cells_of(kept@).contains_key(k) implies cells_of(kept@)[k]
            == wanted[k] by {
            let j = column_index(kept@, k);
            let a = choose|a: int| 0 <= a < before.len() && #[trigger] before[a] == kept@[j];
            let b = column_index(before, k);
            if a != b {
                if a < b {
                    assert(before[a].column@ != before[b].column@);
                } else {
                    assert(before[b].column@ != before[a].column@);
                }
            }
        }
        assert(cells_of(kept@) =~= wanted);
    }
    record.fields = kept;
}

} // verus!
