//! The cell encoding of an attachment list.
//!
//! A cell that refers to attachments is a list whose first element is the
//! text `L` and whose other elements are attachment ids, in reference order.

use vstd::prelude::*;
use crate::names::str_eq;

verus! {

/// One element of a list-valued cell.
#[derive(Debug, PartialEq, Eq)]
pub enum CellItem {
    /// A piece of text.
    Text(String),
    /// A non-negative whole number.
    Unsigned(u64),
    /// Anything else: a negative or fractional number, a truth value, a
    /// nested list, an object or an empty element.
    Other,
}

/// A record cell, as far as the remapping of attachments reads it.
#[derive(Debug, PartialEq, Eq)]
pub enum CellValue {
    /// The cell is empty.
    Null,
    /// The cell holds a list.
    List(Vec<CellItem>),
    /// The cell holds a single value that is no list.
    Other,
}

/// What a `CellItem` stands for.
pub enum ItemView {
    Text(Seq<char>),
    Unsigned(u64),
    Other,
}

/// What a `CellValue` stands for.
pub enum CellView {
    Null,
    List(Seq<ItemView>),
    Other,
}

impl View for CellItem {
    type V = ItemView;

    open spec fn view(&self) -> ItemView {
        match self {
            CellItem::Text(text) => ItemView::Text(text@),
            CellItem::Unsigned(n) => ItemView::Unsigned(*n),
            CellItem::Other => ItemView::Other,
        }
    }
}

impl View for CellValue {
    type V = CellView;

    open spec fn view(&self) -> CellView {
        match self {
            CellValue::Null => CellView::Null,
            CellValue::List(items) => CellView::List(items@.map_values(|item: CellItem| item@)),
            CellValue::Other => CellView::Other,
        }
    }
}

impl Clone for CellItem {
    fn clone(&self) -> (copy: CellItem)
        ensures
            copy@ == self@,
    {
        match self {
            CellItem::Text(text) => CellItem::Text(text.clone()),
            CellItem::Unsigned(n) => CellItem::Unsigned(*n),
            CellItem::Other => CellItem::Other,
        }
    }
}

impl Clone for CellValue {
    fn clone(&self) -> (copy: CellValue)
        ensures
            copy@ == self@,
    {
        match self {
            CellValue::Null => CellValue::Null,
            CellValue::Other => CellValue::Other,
            CellValue::List(items) => {
                let mut copies: Vec<CellItem> = Vec::new();
                let mut i: usize = 0;
                while i < items.len()
                    invariant
                        i <= items.len(),
                        copies@.len() == i,
                        forall|j: int| 0 <= j < i ==> (#[trigger] copies@[j])@ == items@[j]@,
                    decreases items.len() - i,
                {
                    copies.push(items[i].clone());
                    i = i + 1;
                }
                assert(copies@.map_values(|item: CellItem| item@) =~= items@.map_values(
                    |item: CellItem| item@,
                ));
                CellValue::List(copies)
            },
        }
    }
}

/// Why a cell is no attachment list.
#[derive(Clone, Copy, Debug, PartialEq, Eq, Structural)]
pub enum CellError {
    /// The record has no cell in the column.
    Missing,
    /// The cell holds a value that is neither empty nor a list.
    NotAList,
    /// The list has no elements, so the tag is missing.
    EmptyList,
    /// The first element of the list is no text.
    TagNotText,
    /// The first element of the list is a text other than `L`.
    TagMismatch,
    /// An element behind the tag is no attachment id.
    NotAnId,
}

impl CellError {
    /// The message for this error.
    pub open spec fn spec_message(self) -> Seq<char> {
        match self {
            CellError::Missing => "No attachment cell"@,
            CellError::NotAList => "Attachment cell is not an array"@,
            CellError::EmptyList => "No elements in array"@,
            CellError::TagNotText => "Attachment cell is not a string"@,
            CellError::TagMismatch => "Prefix value (L) is missing"@,
            CellError::NotAnId => "Element is not a positive integer"@,
        }
    }

    /// Returns the message for this error.
    pub fn message(&self) -> (text: &'static str)
        ensures
            text@ == self.spec_message(),
    {
        match self {
            CellError::Missing => "No attachment cell",
            CellError::NotAList => "Attachment cell is not an array",
            CellError::EmptyList => "No elements in array",
            CellError::TagNotText => "Attachment cell is not a string",
            CellError::TagMismatch => "Prefix value (L) is missing",
            CellError::NotAnId => "Element is not a positive integer",
        }
    }
}

/// The tag that opens an attachment list.
pub open spec fn list_tag() -> Seq<char> {
    "L"@
}

/// Whether every element of `items` is an attachment id.
pub open spec fn all_ids(items: Seq<ItemView>) -> bool {
    forall|i: int| 0 <= i < items.len() ==> #[trigger] items[i] is Unsigned
}

/// The ids that `items` holds, where every element is one.
pub open spec fn ids_of(items: Seq<ItemView>) -> Seq<u64> {
    items.map_values(|item: ItemView| item->Unsigned_0)
}

/// The attachment ids that a cell refers to, or why it is no attachment list.
pub open spec fn decode_cell(cell: Option<CellView>) -> Result<Seq<u64>, CellError> {
    match cell {
        None => Err(CellError::Missing),
        Some(CellView::Null) => Ok(Seq::empty()),
        Some(CellView::Other) => Err(CellError::NotAList),
        Some(CellView::List(items)) => {
            if items.len() == 0 {
                Err(CellError::EmptyList)
            } else {
                match items[0] {
                    ItemView::Text(tag) => {
                        if tag != list_tag() {
                            Err(CellError::TagMismatch)
                        } else if all_ids(items.skip(1)) {
                            Ok(ids_of(items.skip(1)))
                        } else {
                            Err(CellError::NotAnId)
                        }
                    },
                    _ => Err(CellError::TagNotText),
                }
            }
        },
    }
}

/// The cell that refers to the attachments `ids`, in that order.
pub open spec fn encode_cell(ids: Seq<u64>) -> CellView {
    CellView::List(
        seq![ItemView::Text(list_tag())] + ids.map_values(|id: u64| ItemView::Unsigned(id)),
    )
}

/// What `column` holds, by its view.
pub open spec fn view_of(column: Option<&CellValue>) -> Option<CellView> {
    match column {
        Some(cell) => Some(cell@),
        None => None,
    }
}

/// Reads the attachment ids out of a cell. An empty cell refers to no
/// attachment; an absent cell and any cell that is no tagged list of ids
/// are errors.
pub fn get_attachment_ids(column: Option<&CellValue>) -> (ids: Result<Vec<u64>, CellError>)
    ensures
        match ids {
            Ok(found) => decode_cell(view_of(column)) == Ok::<Seq<u64>, CellError>(found@),
            Err(e) => decode_cell(view_of(column)) == Err::<Seq<u64>, CellError>(e),
        },
{
    let cell = match column {
        Some(cell) => cell,
        None => {
            return Err(CellError::Missing);
        },
    };
    let items = match cell {
        CellValue::Null => {
            return Ok(Vec::new());
        },
        CellValue::Other => {
            return Err(CellError::NotAList);
        },
        CellValue::List(items) => items,
    };
    if items.len() == 0 {
        return Err(CellError::EmptyList);
    }
    let ghost shown = items@.map_values(|item: CellItem| item@);
    match &items[0] {
        CellItem::Text(tag) => {
            if !str_eq(tag.as_str(), "L") {
                return Err(CellError::TagMismatch);
            }
        },
        _ => {
            return Err(CellError::TagNotText);
        },
    }
    let mut ids: Vec<u64> = Vec::with_capacity(items.len() - 1);
    let mut i: usize = 1;
    while i < items.len()
        invariant
            1 <= i <= items.len(),
            shown == items@.map_values(|item: CellItem| item@),
            view_of(column) == Some(CellView::List(shown)),
            shown[0] == ItemView::Text(list_tag()),
            ids@.len() == i - 1,
            forall|j: int| 0 <= j < i - 1 ==> shown[j + 1] == ItemView::Unsigned(#[trigger] ids@[j]),
        decreases items.len() - i,
    {
        match &items[i] {
            CellItem::Unsigned(id) => {
                ids.push(*id);
            },
            _ => {
                proof {
                    assert(shown[i as int] == items@[i as int]@);
                    assert(!(shown.skip(1)[i - 1] is Unsigned));
                }
                return Err(CellError::NotAnId);
            },
        }
        i = i + 1;
    }
    proof {
        let rest = shown.skip(1);
        assert forall|j: int| 0 <= j < rest.len() implies #[trigger] rest[j] is Unsigned by {
            assert(shown[j + 1] == ItemView::Unsigned(ids@[j]));
        }
        assert(ids@ =~= ids_of(rest));
    }
    Ok(ids)
}

/// Builds the cell that refers to the attachments `ids`, in that order.
pub fn create_new_cell_value(ids: &Vec<u64>) -> (cell: CellValue)
    ensures
        cell@ == encode_cell(ids@),
{
    let mut values: Vec<CellItem> = Vec::new();
    values.push(CellItem::Text("L".to_owned()));
    let mut i: usize = 0;
    while i < ids.len()
        invariant
            i <= ids.len(),
            values@.len() == i + 1,
            values@[0]@ == ItemView::Text(list_tag()),
            forall|j: int| 0 <= j < i ==> (#[trigger] values@[j + 1])@ == ItemView::Unsigned(ids@[j]),
        decreases ids.len() - i,
    {
        values.push(CellItem::Unsigned(ids[i]));
        i = i + 1;
    }
    let cell = CellValue::List(values);
    proof {
        let shown = values@.map_values(|item: CellItem| item@);
        let wanted = seq![ItemView::Text(list_tag())] + ids@.map_values(
            |id: u64| ItemView::Unsigned(id),
        );
        assert forall|j: int| 0 <= j < shown.len() implies shown[j] == wanted[j] by {
            if j > 0 {
                assert(values@[(j - 1) + 1]@ == ItemView::Unsigned(ids@[j - 1]));
            }
        }
        assert(shown =~= wanted);
    }
    cell
}

/// Reading a cell that was built from `ids` gives `ids` back, in the same
/// order.
pub proof fn lemma_decode_encode(ids: Seq<u64>)
    ensures
        decode_cell(Some(encode_cell(ids))) == Ok::<Seq<u64>, CellError>(ids),
{
    let items = seq![ItemView::Text(list_tag())] + ids.map_values(|id: u64| ItemView::Unsigned(id));
    let rest = items.skip(1);
    assert(items[0] == ItemView::Text(list_tag()));
    assert forall|i: int| 0 <= i < rest.len() implies #[trigger] rest[i] is Unsigned by {
        assert(rest[i] == ItemView::Unsigned(ids[i]));
    }
    assert(ids_of(rest) =~= ids);
}

} // verus!
