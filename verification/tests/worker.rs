use grist_image_optimizer::attachment::{AttachmentMetadata, ConversionOutcome};
use grist_image_optimizer::method::ConversionMethod;
use grist_image_optimizer::worker::{
    is_worth_converting, select_quality, size_in_kib, ConversionError, ConversionWorker,
    WorkerAction, WorkerEvent, MIN_SIZE_KB, QUALITY_KB_RATIO, QUALITY_MAX, QUALITY_MIN,
};

fn attachment(id: u64, name: &str, size: u64) -> AttachmentMetadata {
    AttachmentMetadata { id, file_name: Some(name.to_string()), file_size: Some(size) }
}

fn begin(a: &AttachmentMetadata) -> (ConversionWorker, WorkerAction) {
    ConversionWorker::begin(a, "/tmp/work", ConversionMethod::Slow).unwrap()
}

fn probed(a: &AttachmentMetadata, present: bool) -> (ConversionWorker, WorkerAction) {
    let (worker, _) = begin(a);
    worker.step(WorkerEvent::OutputProbed { present })
}

fn kept(id: u64) -> WorkerAction {
    WorkerAction::Finish(ConversionOutcome { old_id: id, new_id: id })
}

#[test]
fn quality_formula_values() {
    assert_eq!(select_quality(0), 70);
    assert_eq!(select_quality(300), 40);
    assert_eq!(select_quality(1000), 3);
    assert_eq!(select_quality(10000), 3);
}

#[test]
fn quality_uses_whole_tens_of_kibibytes() {
    assert_eq!(select_quality(9), 70);
    assert_eq!(select_quality(10), 69);
    assert_eq!(select_quality(19), 69);
    assert_eq!(select_quality(100), 60);
    assert_eq!(select_quality(659), 5);
    assert_eq!(select_quality(669), 4);
    assert_eq!(select_quality(670), 3);
    assert_eq!(select_quality(679), 3);
    assert_eq!(select_quality(680), 3);
    assert_eq!(select_quality(u64::MAX), 3);
}

#[test]
fn quality_stays_in_its_range_and_never_rises() {
    let mut last = select_quality(0);
    for kib in 0..2000u64 {
        let quality = select_quality(kib);
        assert!(QUALITY_MIN <= quality && quality <= QUALITY_MAX);
        assert!(quality <= last);
        last = quality;
    }
}

#[test]
fn constants_of_the_policy() {
    assert_eq!(MIN_SIZE_KB, 100);
    assert_eq!(QUALITY_MAX, 70);
    assert_eq!(QUALITY_MIN, 3);
    assert_eq!(QUALITY_KB_RATIO, 10);
}

#[test]
fn size_is_counted_in_whole_kibibytes() {
    assert_eq!(size_in_kib(0), 0);
    assert_eq!(size_in_kib(1023), 0);
    assert_eq!(size_in_kib(1024), 1);
    assert_eq!(size_in_kib(102399), 99);
    assert_eq!(size_in_kib(102400), 100);
    assert_eq!(size_in_kib(150 * 1024), 150);
}

#[test]
fn size_gate_is_at_one_hundred_kibibytes() {
    assert!(!is_worth_converting(0));
    assert!(!is_worth_converting(99));
    assert!(is_worth_converting(100));
    assert!(is_worth_converting(101));
}

#[test]
fn worker_begins_by_probing_for_the_converted_file() {
    let (worker, action) = begin(&attachment(1, "photo.jpg", 200000));
    assert_eq!(action, WorkerAction::ProbeOutput { path: "/tmp/work/photo.webp".to_string() });
    assert!(!worker.is_done());
}

#[test]
fn worker_needs_a_file_name() {
    let nameless = AttachmentMetadata { id: 1, file_name: None, file_size: Some(200000) };
    let start = ConversionWorker::begin(&nameless, "/tmp", ConversionMethod::Normal);
    assert_eq!(start.err(), Some(ConversionError::MissingFileName));
}

#[test]
fn worker_needs_an_extension() {
    let start =
        ConversionWorker::begin(&attachment(1, "photo", 200000), "/tmp", ConversionMethod::Normal);
    assert_eq!(start.err(), Some(ConversionError::MalformedFileName));
}

#[test]
fn converted_file_on_disk_means_kept() {
    let a = attachment(1, "photo.jpg", 200000);
    let (worker, action) = probed(&a, true);
    assert_eq!(action, kept(1));
    assert!(worker.is_done());
}

#[test]
fn second_run_downloads_and_uploads_nothing() {
    let a = attachment(1, "photo.jpg", 200000);
    // First run: the whole conversion.
    let (worker, action) = probed(&a, false);
    assert_eq!(action, WorkerAction::AcquirePermit);
    let (worker, action) = worker.step(WorkerEvent::PermitAcquired);
    assert_eq!(action, WorkerAction::Download { attachment_id: 1 });
    let (worker, _) = worker.step(WorkerEvent::Downloaded);
    let (worker, _) = worker.step(WorkerEvent::PermitReleased);
    let (worker, _) = worker.step(WorkerEvent::Saved);
    let (worker, _) = worker.step(WorkerEvent::Encoded);
    let (worker, _) = worker.step(WorkerEvent::OriginalRemoved);
    let (_, action) = worker.step(WorkerEvent::Uploaded(vec![41]));
    assert_eq!(action, WorkerAction::Finish(ConversionOutcome { old_id: 1, new_id: 41 }));
    // Second run: the converted file is there.
    let (mut worker, action) = probed(&a, true);
    assert_eq!(action, kept(1));
    let later = vec![
        WorkerEvent::PermitAcquired,
        WorkerEvent::Downloaded,
        WorkerEvent::PermitReleased,
        WorkerEvent::Saved,
        WorkerEvent::Encoded,
        WorkerEvent::OriginalRemoved,
        WorkerEvent::Uploaded(vec![5]),
        WorkerEvent::OutputProbed { present: false },
        WorkerEvent::Failed,
    ];
    for event in later {
        let (next, action) = worker.step(event);
        assert_eq!(action, WorkerAction::Fail(ConversionError::UnexpectedEvent));
        assert!(next.is_done());
        worker = next;
    }
}

#[test]
fn small_attachment_is_skipped_whatever_its_extension() {
    for name in ["a.jpg", "a.JPEG", "a.png", "a.webp", "a.txt", "a."] {
        for present in [false, true] {
            for size in [0, 1, 1024, 102399] {
                let a = attachment(3, name, size);
                let (worker, action) = probed(&a, present);
                assert_eq!(action, kept(3));
                assert!(worker.is_done());
            }
        }
    }
}

#[test]
fn attachment_at_the_size_gate_is_converted() {
    let (_, action) = probed(&attachment(3, "a.png", 102400), false);
    assert_eq!(action, WorkerAction::AcquirePermit);
}

#[test]
fn attachment_of_another_type_is_kept() {
    let (worker, action) = probed(&attachment(3, "a.webp", 500000), false);
    assert_eq!(action, kept(3));
    assert!(worker.is_done());
    let (_, action) = probed(&attachment(4, "notes.txt", 500000), false);
    assert_eq!(action, kept(4));
}

#[test]
fn extension_is_compared_without_regard_to_case() {
    for name in ["a.JPG", "a.Jpeg", "a.pNG"] {
        let (_, action) = probed(&attachment(3, name, 500000), false);
        assert_eq!(action, WorkerAction::AcquirePermit);
    }
}

#[test]
fn raster_image_without_size_fails() {
    let sizeless = AttachmentMetadata { id: 6, file_name: Some("a.jpg".to_string()), file_size: None };
    let (worker, action) = probed(&sizeless, false);
    assert_eq!(action, WorkerAction::Fail(ConversionError::MissingFileSize));
    assert!(worker.is_done());
}

#[test]
fn attachment_without_size_is_kept_where_the_size_is_not_needed() {
    let sizeless = AttachmentMetadata { id: 6, file_name: Some("a.jpg".to_string()), file_size: None };
    let (_, action) = probed(&sizeless, true);
    assert_eq!(action, kept(6));
    let other = AttachmentMetadata { id: 7, file_name: Some("a.txt".to_string()), file_size: None };
    let (_, action) = probed(&other, false);
    assert_eq!(action, kept(7));
}

#[test]
fn conversion_runs_through_its_steps_in_order() {
    let a = attachment(11, "holiday.photo.PNG", 300 * 1024);
    let (worker, action) =
        ConversionWorker::begin(&a, "work", ConversionMethod::Slowest).unwrap();
    assert_eq!(action, WorkerAction::ProbeOutput { path: "work/holiday.photo.webp".to_string() });
    let (worker, action) = worker.step(WorkerEvent::OutputProbed { present: false });
    assert_eq!(action, WorkerAction::AcquirePermit);
    let (worker, action) = worker.step(WorkerEvent::PermitAcquired);
    assert_eq!(action, WorkerAction::Download { attachment_id: 11 });
    let (worker, action) = worker.step(WorkerEvent::Downloaded);
    assert_eq!(action, WorkerAction::ReleasePermit);
    let (worker, action) = worker.step(WorkerEvent::PermitReleased);
    assert_eq!(action, WorkerAction::SaveOriginal { path: "work/holiday.photo.jpg".to_string() });
    let (worker, action) = worker.step(WorkerEvent::Saved);
    assert_eq!(
        action,
        WorkerAction::Encode {
            method: ConversionMethod::Slowest,
            quality: 40,
            input: "work/holiday.photo.jpg".to_string(),
            output: "work/holiday.photo.webp".to_string(),
        }
    );
    let (worker, action) = worker.step(WorkerEvent::Encoded);
    assert_eq!(action, WorkerAction::RemoveOriginal { path: "work/holiday.photo.jpg".to_string() });
    let (worker, action) = worker.step(WorkerEvent::OriginalRemoved);
    assert_eq!(action, WorkerAction::Upload { path: "work/holiday.photo.webp".to_string() });
    assert!(!worker.is_done());
    let (worker, action) = worker.step(WorkerEvent::Uploaded(vec![77, 78]));
    assert_eq!(action, WorkerAction::Finish(ConversionOutcome { old_id: 11, new_id: 77 }));
    assert!(worker.is_done());
}

fn worker_after(events: Vec<WorkerEvent>) -> ConversionWorker {
    let (mut worker, _) = begin(&attachment(1, "photo.jpg", 200000));
    for event in events {
        worker = worker.step(event).0;
    }
    worker
}

fn steps(count: usize) -> Vec<WorkerEvent> {
    let mut steps = vec![
        WorkerEvent::OutputProbed { present: false },
        WorkerEvent::PermitAcquired,
        WorkerEvent::Downloaded,
        WorkerEvent::PermitReleased,
        WorkerEvent::Saved,
        WorkerEvent::Encoded,
        WorkerEvent::OriginalRemoved,
    ];
    steps.truncate(count);
    steps
}

#[test]
fn each_step_can_fail() {
    let errors = [
        (1, ConversionError::Permit),
        (4, ConversionError::Save),
        (5, ConversionError::Encode),
        (6, ConversionError::Cleanup),
        (7, ConversionError::Upload),
    ];
    for (done, error) in errors {
        let worker = worker_after(steps(done));
        let (worker, action) = worker.step(WorkerEvent::Failed);
        assert_eq!(action, WorkerAction::Fail(error));
        assert!(worker.is_done());
    }
}

#[test]
fn failed_download_gives_the_permit_back_first() {
    let worker =
        worker_after(vec![WorkerEvent::OutputProbed { present: false }, WorkerEvent::PermitAcquired]);
    let (worker, action) = worker.step(WorkerEvent::Failed);
    assert_eq!(action, WorkerAction::ReleasePermit);
    assert!(!worker.is_done());
    let (worker, action) = worker.step(WorkerEvent::PermitReleased);
    assert_eq!(action, WorkerAction::Fail(ConversionError::Download));
    assert!(worker.is_done());
}

#[test]
fn permit_is_given_back_before_the_bytes_are_saved() {
    let worker = worker_after(vec![
        WorkerEvent::OutputProbed { present: false },
        WorkerEvent::PermitAcquired,
        WorkerEvent::Downloaded,
    ]);
    // Saving is not what the worker waits for: the permit comes first.
    let (worker, action) = worker.step(WorkerEvent::Saved);
    assert_eq!(action, WorkerAction::Fail(ConversionError::UnexpectedEvent));
    assert!(worker.is_done());
}

#[test]
fn upload_without_an_id_fails() {
    let worker = worker_after(steps(7));
    let (worker, action) = worker.step(WorkerEvent::Uploaded(Vec::new()));
    assert_eq!(action, WorkerAction::Fail(ConversionError::MissingNewId));
    assert!(worker.is_done());
}

#[test]
fn a_report_out_of_turn_ends_the_worker() {
    let (worker, _) = begin(&attachment(1, "photo.jpg", 200000));
    let (worker, action) = worker.step(WorkerEvent::Downloaded);
    assert_eq!(action, WorkerAction::Fail(ConversionError::UnexpectedEvent));
    assert!(worker.is_done());
    let (worker, _) = probed(&attachment(1, "photo.jpg", 200000), false);
    let (_, action) = worker.step(WorkerEvent::Encoded);
    assert_eq!(action, WorkerAction::Fail(ConversionError::UnexpectedEvent));
    let (worker, _) = begin(&attachment(1, "photo.jpg", 200000));
    let (_, action) = worker.step(WorkerEvent::Failed);
    assert_eq!(action, WorkerAction::Fail(ConversionError::UnexpectedEvent));
}

#[test]
fn download_path_ends_in_jpg_whatever_the_type() {
    let a = attachment(1, "drawing.png", 200000);
    let (worker, _) = probed(&a, false);
    let (worker, _) = worker.step(WorkerEvent::PermitAcquired);
    let (worker, _) = worker.step(WorkerEvent::Downloaded);
    let (_, action) = worker.step(WorkerEvent::PermitReleased);
    assert_eq!(action, WorkerAction::SaveOriginal { path: "/tmp/work/drawing.jpg".to_string() });
}
