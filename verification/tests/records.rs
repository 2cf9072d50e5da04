use grist_image_optimizer::cell::{CellItem, CellValue};
use grist_image_optimizer::column::{
    scan_for_attachment_columns, Column, ColumnError, ColumnType,
};
use grist_image_optimizer::record::{remove_all_non_attachment_fields, Record};

fn column(id: &str, col_type: ColumnType) -> Column {
    Column { id: Some(id.to_string()), col_type: Some(col_type) }
}

fn sorted_columns(record: &Record) -> Vec<String> {
    let mut names: Vec<String> = record.fields().iter().map(|f| f.column.clone()).collect();
    names.sort();
    names
}

#[test]
fn new_record_has_no_cells() {
    let record = Record::new(12);
    assert_eq!(record.id(), 12);
    assert!(record.fields().is_empty());
    assert_eq!(record.get("Photos"), None);
}

#[test]
fn record_set_then_get() {
    let mut record = Record::new(1);
    record.set("Photos".to_string(), CellValue::Null);
    record.set("Name".to_string(), CellValue::Other);
    assert_eq!(record.get("Photos"), Some(&CellValue::Null));
    assert_eq!(record.get("Name"), Some(&CellValue::Other));
    assert_eq!(record.get("photos"), None);
    assert_eq!(record.fields().len(), 2);
}

#[test]
fn record_set_replaces_the_cell_of_a_column() {
    let mut record = Record::new(1);
    record.set("Photos".to_string(), CellValue::Null);
    record.set("Other".to_string(), CellValue::Other);
    record.set("Photos".to_string(), CellValue::List(vec![CellItem::Unsigned(3)]));
    assert_eq!(record.fields().len(), 2);
    assert_eq!(record.get("Photos"), Some(&CellValue::List(vec![CellItem::Unsigned(3)])));
    assert_eq!(record.get("Other"), Some(&CellValue::Other));
    assert_eq!(record.id(), 1);
}

#[test]
fn remove_all_non_attachment_fields_keeps_the_named_columns() {
    let mut record = Record::new(4);
    record.set("A".to_string(), CellValue::Null);
    record.set("Formula".to_string(), CellValue::Other);
    record.set("B".to_string(), CellValue::List(Vec::new()));
    record.set("C".to_string(), CellValue::Other);
    remove_all_non_attachment_fields(&mut record, &vec!["B".to_string(), "A".to_string(), "Z".to_string()]);
    assert_eq!(sorted_columns(&record), vec!["A".to_string(), "B".to_string()]);
    assert_eq!(record.get("A"), Some(&CellValue::Null));
    assert_eq!(record.get("B"), Some(&CellValue::List(Vec::new())));
    assert_eq!(record.get("Formula"), None);
    assert_eq!(record.id(), 4);
}

#[test]
fn remove_all_non_attachment_fields_with_no_columns_empties_the_record() {
    let mut record = Record::new(4);
    record.set("A".to_string(), CellValue::Null);
    remove_all_non_attachment_fields(&mut record, &Vec::new());
    assert!(record.fields().is_empty());
}

#[test]
fn attachment_columns_are_picked_in_order() {
    let columns = vec![
        column("Name", ColumnType::Other),
        column("Photos", ColumnType::Attachments),
        column("Notes", ColumnType::Other),
        column("Scans", ColumnType::Attachments),
    ];
    assert_eq!(
        scan_for_attachment_columns(&columns),
        Ok(vec!["Photos".to_string(), "Scans".to_string()])
    );
}

#[test]
fn a_table_may_have_no_attachment_columns() {
    let columns = vec![column("Name", ColumnType::Other)];
    assert_eq!(scan_for_attachment_columns(&columns), Ok(Vec::new()));
    assert_eq!(scan_for_attachment_columns(&Vec::new()), Ok(Vec::new()));
}

#[test]
fn a_column_without_type_fails_the_scan() {
    let columns = vec![
        column("Photos", ColumnType::Attachments),
        Column { id: Some("X".to_string()), col_type: None },
        Column { id: None, col_type: Some(ColumnType::Attachments) },
    ];
    assert_eq!(scan_for_attachment_columns(&columns), Err(ColumnError::MissingType { index: 1 }));
}

#[test]
fn an_attachment_column_without_id_fails_the_scan() {
    let columns = vec![
        column("Name", ColumnType::Other),
        Column { id: None, col_type: Some(ColumnType::Attachments) },
    ];
    assert_eq!(scan_for_attachment_columns(&columns), Err(ColumnError::MissingId { index: 1 }));
}

#[test]
fn another_column_needs_no_id() {
    let columns = vec![
        Column { id: None, col_type: Some(ColumnType::Other) },
        column("Photos", ColumnType::Attachments),
    ];
    assert_eq!(scan_for_attachment_columns(&columns), Ok(vec!["Photos".to_string()]));
}

#[test]
fn cloned_record_holds_the_same_cells() {
    let mut record = Record::new(4);
    record.set("A".to_string(), CellValue::Null);
    record.set("B".to_string(), CellValue::List(vec![CellItem::Text("L".to_string()), CellItem::Unsigned(3)]));
    let mut copy = record.clone();
    assert_eq!(copy.id(), 4);
    assert_eq!(sorted_columns(&copy), sorted_columns(&record));
    assert_eq!(copy.get("A"), record.get("A"));
    assert_eq!(copy.get("B"), record.get("B"));
    copy.set("A".to_string(), CellValue::Other);
    assert_eq!(record.get("A"), Some(&CellValue::Null));
}

#[test]
fn cloned_cell_is_equal() {
    let cells = vec![
        CellValue::Null,
        CellValue::Other,
        CellValue::List(Vec::new()),
        CellValue::List(vec![CellItem::Text("L".to_string()), CellItem::Unsigned(3), CellItem::Other]),
    ];
    for cell in cells {
        assert_eq!(cell.clone(), cell);
    }
}
