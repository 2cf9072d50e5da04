//! Columns of a table, and which of them hold attachment lists.

use vstd::prelude::*;

verus! {

/// The type of a column, as far as the remapping tells types apart.
#[derive(Clone, Copy, Debug, PartialEq, Eq, Structural)]
pub enum ColumnType {
    /// The cells of the column are attachment lists.
    Attachments,
    /// Any other type. Attachment lists in a column of free type are left
    /// alone on purpose.
    Other,
}

/// A column as the document service lists it. The service may leave out
/// the id or the type.
#[derive(Debug, PartialEq, Eq)]
pub struct Column {
    pub id: Option<String>,
    pub col_type: Option<ColumnType>,
}

/// Why the columns of a table cannot be told apart.
#[derive(Clone, Copy, Debug, PartialEq, Eq, Structural)]
pub enum ColumnError {
    /// The column at this place of the list has no type.
    MissingType { index: usize },
    /// The attachment column at this place of the list has no id.
    MissingId { index: usize },
}

/// Whether `column` holds attachment lists.
pub open spec fn is_attachment_column(column: Column) -> bool {
    column.col_type == Some(ColumnType::Attachments)
}

/// Whether the listing of `column` lacks what the scan needs of it: a type,
/// and for an attachment column an id.
pub open spec fn is_faulty(column: Column) -> bool {
    column.col_type is None || (is_attachment_column(column) && column.id is None)
}

/// The error for a faulty column at place `index`.
pub open spec fn fault_of(column: Column, index: usize) -> ColumnError {
    if column.col_type is None {
        ColumnError::MissingType { index }
    } else {
        ColumnError::MissingId { index }
    }
}

/// The ids of the attachment columns among `columns`, in order.
pub open spec fn attachment_column_ids(columns: Seq<Column>) -> Seq<Seq<char>>
    decreases columns.len(),
{
    if columns.len() == 0 {
        Seq::empty()
    } else {
        let before = attachment_column_ids(columns.drop_last());
        if is_attachment_column(columns.last()) && columns.last().id is Some {
            before.push(columns.last().id->Some_0@)
        } else {
            before
        }
    }
}

/// Whether the column at place `at` is the first faulty one of `columns`.
pub open spec fn first_faulty(columns: Seq<Column>, at: int) -> bool {
    &&& 0 <= at < columns.len()
    &&& is_faulty(columns[at])
    &&& forall|j: int| 0 <= j < at ==> !is_faulty(#[trigger] columns[j])
}

/// The ids of the attachment columns among `columns`, or the error for the
/// first faulty column.
pub open spec fn scan_columns(columns: Seq<Column>) -> Result<Seq<Seq<char>>, ColumnError> {
    if exists|at: int| first_faulty(columns, at) {
        let at = choose|at: int| first_faulty(columns, at);
        Err(fault_of(columns[at], at as usize))
    } else {
        Ok(attachment_column_ids(columns))
    }
}

/// The texts of `names`.
pub open spec fn texts_of(names: Seq<String>) -> Seq<Seq<char>> {
    names.map_values(|name: String| name@)
}

/// Only one column is the first faulty one.
pub proof fn lemma_first_faulty_unique(columns: Seq<Column>, at: int)
    requires
        first_faulty(columns, at),
    ensures
        (choose|other: int| first_faulty(columns, other)) == at,
{
    let other = choose|other: int| first_faulty(columns, other);
    assert(first_faulty(columns, other));
    if other < at {
        assert(!is_faulty(columns[other]));
    } else if at < other {
        assert(!is_faulty(columns[at]));
    }
}

/// Returns the ids of the columns that hold attachment lists, in the order
/// of the list. The first column without a type, or attachment column
/// without an id, makes the scan fail.
pub fn scan_for_attachment_columns(columns: &Vec<Column>) -> (result: Result<
    Vec<String>,
    ColumnError,
>)
    ensures
        match result {
            Ok(ids) => {
                &&& forall|i: int| 0 <= i < columns.len() ==> !is_faulty(#[trigger] columns[i])
                &&& scan_columns(columns@) == Ok::<Seq<Seq<char>>, ColumnError>(texts_of(ids@))
            },
            Err(e) => {
                &&& exists|at: int| first_faulty(columns@, at) && e == fault_of(columns[at], at as usize)
                &&& scan_columns(columns@) == Err::<Seq<Seq<char>>, ColumnError>(e)
            },
        },
{
    let mut ids: Vec<String> = Vec::new();
    let mut i: usize = 0;
    while i < columns.len()
        invariant
            i <= columns.len(),
            forall|j: int| 0 <= j < i ==> !is_faulty(#[trigger] columns[j]),
            texts_of(ids@) == attachment_column_ids(columns@.take(i as int)),
        decreases columns.len() - i,
    {
        let column = &columns[i];
        proof {
            assert(columns@.take(i + 1).drop_last() =~= columns@.take(i as int));
        }
        let ghost before = ids@;
        match column.col_type {
            None => {
                proof {
                    assert(is_faulty(columns@[i as int]));
                    assert(first_faulty(columns@, i as int));
                    lemma_first_faulty_unique(columns@, i as int);
                }
                return Err(ColumnError::MissingType { index: i });
            },
            Some(ColumnType::Attachments) => match &column.id {
                None => {
                    proof {
                        assert(is_faulty(columns@[i as int]));
                        assert(first_faulty(columns@, i as int));
                        lemma_first_faulty_unique(columns@, i as int);
                    }
                    return Err(ColumnError::MissingId { index: i });
                },
                Some(id) => {
                    ids.push(id.clone());
                    assert(texts_of(ids@) =~= texts_of(before).push(id@));
                },
            },
            Some(ColumnType::Other) => {},
        }
        i = i + 1;
    }
    assert(columns@.take(i as int) =~= columns@);
    assert(!exists|at: int| first_faulty(columns@, at));
    Ok(ids)
}

} // verus!
