use grist_image_optimizer::attachment::{AttachmentMetadata, ConversionOutcome};
use grist_image_optimizer::classifier::ClassifyError;
use grist_image_optimizer::document::{DocumentAction, DocumentError, DocumentEvent, DocumentRun};
use grist_image_optimizer::worker::ConversionError;

fn attachment(id: u64, name: &str) -> AttachmentMetadata {
    AttachmentMetadata { id, file_name: Some(name.to_string()), file_size: Some(500000) }
}

fn handed_out(action: &DocumentAction) -> Vec<u64> {
    match action {
        DocumentAction::Convert(attachments) => attachments.iter().map(|a| a.id).collect(),
        _ => panic!("nothing handed out"),
    }
}

fn is_abort(action: &DocumentAction, error: DocumentError) -> bool {
    matches!(action, DocumentAction::Abort(e) if *e == error)
}

fn classified() -> (DocumentRun, DocumentAction) {
    let (run, _) = DocumentRun::begin();
    run.step(DocumentEvent::Attachments(vec![
        attachment(1, "a.jpg"),
        attachment(2, "b.txt"),
        attachment(3, "c.png"),
        attachment(4, "c.webp"),
        attachment(5, "d.jpeg"),
    ]))
}

#[test]
fn run_begins_with_the_attachments() {
    let (run, action) = DocumentRun::begin();
    assert!(matches!(action, DocumentAction::ListAttachments));
    assert!(!run.is_done());
}

#[test]
fn run_hands_out_what_the_classifier_picks() {
    let (run, action) = classified();
    assert_eq!(handed_out(&action), vec![1, 5]);
    assert!(!run.is_done());
}

#[test]
fn run_remaps_after_all_conversions_with_their_map() {
    let (run, _) = classified();
    let (run, action) = run.step(DocumentEvent::Converted(vec![
        Ok(ConversionOutcome { old_id: 1, new_id: 101 }),
        Err(ConversionError::Encode),
    ]));
    match &action {
        DocumentAction::Remap(map) => {
            assert_eq!(map.len(), 1);
            assert_eq!(map.get(1), Some(101));
            assert_eq!(map.get(5), None);
        }
        _ => panic!("no remapping"),
    }
    assert!(!run.is_done());
    let (run, action) = run.step(DocumentEvent::Remapped);
    assert!(matches!(action, DocumentAction::Finish { optimized: 1 }));
    assert!(run.is_done());
}

#[test]
fn run_wants_a_result_for_each_attachment_handed_out() {
    let (run, _) = classified();
    let (run, action) = run
        .step(DocumentEvent::Converted(vec![Ok(ConversionOutcome { old_id: 1, new_id: 101 })]));
    assert!(is_abort(&action, DocumentError::UnexpectedEvent));
    assert!(run.is_done());
}

#[test]
fn run_does_not_remap_before_the_conversions() {
    let (run, _) = classified();
    let (run, action) = run.step(DocumentEvent::Remapped);
    assert!(is_abort(&action, DocumentError::UnexpectedEvent));
    assert!(run.is_done());
}

#[test]
fn run_with_nothing_to_convert_still_remaps_with_an_empty_map() {
    let (run, _) = DocumentRun::begin();
    let (run, action) = run.step(DocumentEvent::Attachments(vec![attachment(2, "b.txt")]));
    assert_eq!(handed_out(&action), Vec::<u64>::new());
    let (run, action) = run.step(DocumentEvent::Converted(Vec::new()));
    match &action {
        DocumentAction::Remap(map) => assert_eq!(map.len(), 0),
        _ => panic!("no remapping"),
    }
    let (run, action) = run.step(DocumentEvent::Remapped);
    assert!(matches!(action, DocumentAction::Finish { optimized: 0 }));
    assert!(run.is_done());
}

#[test]
fn run_fails_where_an_attachment_cannot_be_classified() {
    let (run, _) = DocumentRun::begin();
    let (run, action) =
        run.step(DocumentEvent::Attachments(vec![attachment(1, "a.jpg"), attachment(2, "nodot")]));
    assert!(is_abort(&action, DocumentError::Classify(ClassifyError::NoExtension { id: 2 })));
    assert!(run.is_done());
}

#[test]
fn run_fails_where_the_listing_or_the_remapping_fails() {
    let (run, _) = DocumentRun::begin();
    let (run, action) = run.step(DocumentEvent::Failed);
    assert!(is_abort(&action, DocumentError::Unavailable));
    assert!(run.is_done());
    let (run, _) = classified();
    let (run, _) = run.step(DocumentEvent::Converted(vec![
        Ok(ConversionOutcome { old_id: 1, new_id: 1 }),
        Ok(ConversionOutcome { old_id: 5, new_id: 105 }),
    ]));
    let (run, action) = run.step(DocumentEvent::Failed);
    assert!(is_abort(&action, DocumentError::Remap));
    assert!(run.is_done());
    let (run, action) = run.step(DocumentEvent::Remapped);
    assert!(is_abort(&action, DocumentError::UnexpectedEvent));
    assert!(run.is_done());
}
