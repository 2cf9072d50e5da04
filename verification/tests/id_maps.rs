use grist_image_optimizer::attachment::ConversionOutcome;
use grist_image_optimizer::id_map::{collect_id_map, AttachmentIdMap};
use grist_image_optimizer::worker::ConversionError;

fn outcome(old_id: u64, new_id: u64) -> ConversionOutcome {
    ConversionOutcome { old_id, new_id }
}

#[test]
fn new_map_is_empty() {
    let map = AttachmentIdMap::new();
    assert_eq!(map.len(), 0);
    assert_eq!(map.get(1), None);
}

#[test]
fn map_records_superseding_outcomes() {
    let mut map = AttachmentIdMap::new();
    map.record(outcome(5, 105));
    map.record(outcome(9, 109));
    assert_eq!(map.len(), 2);
    assert_eq!(map.get(5), Some(105));
    assert_eq!(map.get(9), Some(109));
    assert_eq!(map.get(105), None);
}

#[test]
fn map_leaves_out_kept_attachments() {
    let mut map = AttachmentIdMap::new();
    map.record(outcome(3, 3));
    map.record(ConversionOutcome::kept(4));
    assert_eq!(map.len(), 0);
    assert_eq!(map.get(3), None);
    assert_eq!(map.get(4), None);
}

#[test]
fn map_entries_are_written_once() {
    let mut map = AttachmentIdMap::new();
    map.record(outcome(5, 105));
    map.record(outcome(5, 205));
    assert_eq!(map.len(), 1);
    assert_eq!(map.get(5), Some(105));
}

#[test]
fn outcome_kept_and_superseded() {
    assert!(!ConversionOutcome::kept(8).is_superseded());
    assert_eq!(ConversionOutcome::kept(8), outcome(8, 8));
    assert!(outcome(8, 9).is_superseded());
}

#[test]
fn collect_takes_successes_and_skips_failures() {
    let results: Vec<Result<ConversionOutcome, ConversionError>> = vec![
        Ok(outcome(1, 101)),
        Err(ConversionError::Download),
        Ok(outcome(2, 2)),
        Err(ConversionError::Encode),
        Ok(outcome(3, 103)),
    ];
    let map = collect_id_map(&results);
    assert_eq!(map.len(), 2);
    assert_eq!(map.get(1), Some(101));
    assert_eq!(map.get(2), None);
    assert_eq!(map.get(3), Some(103));
}

#[test]
fn collect_of_nothing_is_empty() {
    let results: Vec<Result<ConversionOutcome, String>> = Vec::new();
    assert_eq!(collect_id_map(&results).len(), 0);
}

#[test]
fn collect_of_failures_alone_is_empty() {
    let results: Vec<Result<ConversionOutcome, ConversionError>> =
        vec![Err(ConversionError::Upload), Err(ConversionError::MissingNewId)];
    assert_eq!(collect_id_map(&results).len(), 0);
}

#[test]
fn collect_keeps_the_first_successor_of_an_id() {
    let results: Vec<Result<ConversionOutcome, ConversionError>> =
        vec![Ok(outcome(1, 101)), Ok(outcome(1, 201))];
    assert_eq!(collect_id_map(&results).get(1), Some(101));
}
