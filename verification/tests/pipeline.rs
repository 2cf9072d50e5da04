use grist_image_optimizer::attachment::{AttachmentMetadata, ConversionOutcome};
use grist_image_optimizer::cell::{create_new_cell_value, get_attachment_ids, CellValue};
use grist_image_optimizer::classifier::filter_attachments;
use grist_image_optimizer::id_map::collect_id_map;
use grist_image_optimizer::method::ConversionMethod;
use grist_image_optimizer::record::Record;
use grist_image_optimizer::remap::stage_record;
use grist_image_optimizer::worker::{ConversionError, ConversionWorker, WorkerAction, WorkerEvent};

fn attachment(id: u64, name: &str, kib: u64) -> AttachmentMetadata {
    AttachmentMetadata { id, file_name: Some(name.to_string()), file_size: Some(kib * 1024) }
}

/// Runs one worker against a service where every step succeeds, but for the
/// encoder on attachments named in `broken`. New ids are the old id plus 100.
fn convert(a: &AttachmentMetadata, broken: &[u64]) -> Result<ConversionOutcome, ConversionError> {
    let (mut worker, mut action) = ConversionWorker::begin(a, "/tmp", ConversionMethod::Normal)?;
    loop {
        let event = match action {
            WorkerAction::ProbeOutput { .. } => WorkerEvent::OutputProbed { present: false },
            WorkerAction::AcquirePermit => WorkerEvent::PermitAcquired,
            WorkerAction::Download { .. } => WorkerEvent::Downloaded,
            WorkerAction::ReleasePermit => WorkerEvent::PermitReleased,
            WorkerAction::SaveOriginal { .. } => WorkerEvent::Saved,
            WorkerAction::Encode { .. } => {
                if broken.contains(&a.id) {
                    WorkerEvent::Failed
                } else {
                    WorkerEvent::Encoded
                }
            }
            WorkerAction::RemoveOriginal { .. } => WorkerEvent::OriginalRemoved,
            WorkerAction::Upload { .. } => WorkerEvent::Uploaded(vec![a.id + 100]),
            WorkerAction::Finish(outcome) => return Ok(outcome),
            WorkerAction::Fail(error) => return Err(error),
        };
        let next = worker.step(event);
        worker = next.0;
        action = next.1;
    }
}

fn record_with(id: u64, photos: &[u64]) -> Record {
    let mut record = Record::new(id);
    record.set("Photos".to_string(), create_new_cell_value(&photos.to_vec()));
    record
}

fn photos_of(record: &Record) -> Vec<u64> {
    get_attachment_ids(record.get("Photos")).unwrap()
}

#[test]
fn failed_conversion_leaves_the_others_standing() {
    let all = vec![attachment(1, "a.jpg", 500), attachment(2, "b.png", 500)];
    let classified = filter_attachments(all).unwrap();
    let results: Vec<Result<ConversionOutcome, ConversionError>> =
        classified.iter().map(|a| convert(a, &[1])).collect();
    assert_eq!(results[0], Err(ConversionError::Encode));
    assert_eq!(results[1], Ok(ConversionOutcome { old_id: 2, new_id: 102 }));
    let map = collect_id_map(&results);
    assert_eq!(map.len(), 1);
    assert_eq!(map.get(1), None);
    assert_eq!(map.get(2), Some(102));
    let columns = vec!["Photos".to_string()];
    let update = stage_record(&record_with(1, &[2]), &columns, &map).unwrap().unwrap();
    assert_eq!(photos_of(&update), vec![102]);
    assert!(stage_record(&record_with(2, &[1]), &columns, &map).unwrap().is_none());
    assert!(stage_record(&record_with(3, &[1, 2]), &columns, &map).unwrap().is_none());
}

#[test]
fn document_with_a_photo_an_icon_and_a_logo() {
    let all = vec![
        attachment(1, "photo.jpg", 150),
        attachment(2, "icon.webp", 10),
        attachment(3, "logo.png", 50),
    ];
    // The icon is optimized already. The logo is a raster image without an
    // optimized counterpart, so it is classified like the photo.
    let classified = filter_attachments(all).unwrap();
    let ids: Vec<u64> = classified.iter().map(|a| a.id).collect();
    assert_eq!(ids, vec![1, 3]);
    // The photo is converted; the logo is below the size gate and kept.
    let results: Vec<Result<ConversionOutcome, ConversionError>> =
        classified.iter().map(|a| convert(a, &[])).collect();
    assert_eq!(results[0], Ok(ConversionOutcome { old_id: 1, new_id: 101 }));
    assert_eq!(results[1], Ok(ConversionOutcome { old_id: 3, new_id: 3 }));
    // Only the superseded attachment is entered in the map.
    let map = collect_id_map(&results);
    assert_eq!(map.len(), 1);
    assert_eq!(map.get(1), Some(101));
    assert_eq!(map.get(3), None);
    // A cell that also refers to the kept logo is left as it is.
    let columns = vec!["Photos".to_string()];
    let mixed = record_with(1, &[1, 3]);
    assert!(stage_record(&mixed, &columns, &map).unwrap().is_none());
    assert_eq!(photos_of(&mixed), vec![1, 3]);
    // A cell that refers to the photo alone is rewritten.
    let update = stage_record(&record_with(2, &[1]), &columns, &map).unwrap().unwrap();
    assert_eq!(update.get("Photos"), Some(&create_new_cell_value(&vec![101])));
    // The icon was never looked at: its references stay.
    assert!(stage_record(&record_with(3, &[2]), &columns, &map).unwrap().is_none());
    assert_eq!(record_with(3, &[2]).get("Photos"), Some(&create_new_cell_value(&vec![2])));
    assert_ne!(record_with(3, &[2]).get("Photos"), Some(&CellValue::Null));
}
