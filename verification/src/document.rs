//! The run over one document: classify its attachments, convert them, and
//! only when every conversion has ended, rewrite the references.
//!
//! The run does no I/O. It says what is to be done next; the caller does
//! it and reports what came of it.

use vstd::prelude::*;
use crate::attachment::{AttachmentMetadata, ConversionOutcome};
use crate::classifier::{
    already_converted, filter_attachments, first_rejection, needs_conversion, rejection,
    ClassifyError,
};
use crate::id_map::{collect_id_map, id_map_of, AttachmentIdMap};
use crate::worker::ConversionError;

verus! {

/// What the run waits for.
#[derive(Clone, Copy, Debug, PartialEq, Eq, Structural)]
pub enum DocumentPhase {
    /// The attachments of the document.
    Attachments,
    /// The results of all conversions.
    Conversions,
    /// The end of the remapping.
    Remapping,
    /// Nothing: the run is over.
    Done,
}

/// Why the run over a document ends early.
#[derive(Clone, Copy, Debug, PartialEq, Eq, Structural)]
pub enum DocumentError {
    /// The service did not list the attachments.
    Unavailable,
    /// An attachment cannot be classified.
    Classify(ClassifyError),
    /// The remapping did not go through.
    Remap,
    /// The report does not answer what the run asked for.
    UnexpectedEvent,
}

/// What the caller reports to the run.
pub enum DocumentEvent {
    /// The attachments of the document.
    Attachments(Vec<AttachmentMetadata>),
    /// The results of the conversions, one for each attachment that was
    /// handed out and in the same order, after the last of them has ended.
    Converted(Vec<Result<ConversionOutcome, ConversionError>>),
    /// The references were rewritten.
    Remapped,
    /// What the run asked for last did not succeed.
    Failed,
}

/// What the run asks the caller to do next.
pub enum DocumentAction {
    /// List the attachments of the document and report them.
    ListAttachments,
    /// Convert these attachments, each on its own and all at a time, and
    /// report the results when the last one has ended.
    Convert(Vec<AttachmentMetadata>),
    /// Rewrite the references of the document with this map, and report
    /// `Remapped` or `Failed`.
    Remap(AttachmentIdMap),
    /// The document is done: so many attachments were superseded.
    Finish { optimized: usize },
    /// The run cannot go on.
    Abort(DocumentError),
}

/// What a `DocumentEvent` stands for.
pub enum DocumentEventView {
    Attachments(Seq<AttachmentMetadata>),
    Converted(Seq<Result<ConversionOutcome, ConversionError>>),
    Remapped,
    Failed,
}

/// What a `DocumentAction` stands for.
pub enum DocumentActionView {
    ListAttachments,
    Convert(Seq<AttachmentMetadata>),
    Remap(Map<u64, u64>),
    Finish { optimized: nat },
    Abort(DocumentError),
}

impl View for DocumentEvent {
    type V = DocumentEventView;

    open spec fn view(&self) -> DocumentEventView {
        match self {
            DocumentEvent::Attachments(all) => DocumentEventView::Attachments(all@),
            DocumentEvent::Converted(results) => DocumentEventView::Converted(results@),
            DocumentEvent::Remapped => DocumentEventView::Remapped,
            DocumentEvent::Failed => DocumentEventView::Failed,
        }
    }
}

impl View for DocumentAction {
    type V = DocumentActionView;

    open spec fn view(&self) -> DocumentActionView {
        match self {
            DocumentAction::ListAttachments => DocumentActionView::ListAttachments,
            DocumentAction::Convert(attachments) => DocumentActionView::Convert(attachments@),
            DocumentAction::Remap(map) => DocumentActionView::Remap(map@),
            DocumentAction::Finish { optimized } => DocumentActionView::Finish {
                optimized: *optimized as nat,
            },
            DocumentAction::Abort(error) => DocumentActionView::Abort(*error),
        }
    }
}

/// The state of a run: what it waits for, how many attachments were
/// handed out for conversion, and how many of them were superseded.
pub struct DocumentView {
    pub phase: DocumentPhase,
    pub handed_out: nat,
    pub optimized: nat,
}

/// The state of a run that has not begun.
pub open spec fn initial_run() -> DocumentView {
    DocumentView { phase: DocumentPhase::Attachments, handed_out: 0, optimized: 0 }
}

/// `run`, over.
pub open spec fn run_ended(run: DocumentView) -> DocumentView {
    DocumentView { phase: DocumentPhase::Done, ..run }
}

/// Whether one of `all` cannot be classified.
pub open spec fn some_rejected(all: Seq<AttachmentMetadata>) -> bool {
    exists|i: int| 0 <= i < all.len() && rejection(#[trigger] all[i]) is Some
}

/// The error for the first of `all` that cannot be classified.
pub open spec fn the_rejection(all: Seq<AttachmentMetadata>) -> ClassifyError {
    choose|e: ClassifyError| first_rejection(all, e)
}

/// The attachments of `all` that are handed out for conversion.
pub open spec fn to_convert(all: Seq<AttachmentMetadata>) -> Seq<AttachmentMetadata> {
    all.filter(|a: AttachmentMetadata| needs_conversion(all, a))
}

/// The state after `event` and what is to be done next. The references
/// are rewritten only after the results of all conversions are in, one for
/// each attachment that was handed out, and with the map that they give.
pub open spec fn document_step(run: DocumentView, event: DocumentEventView) -> (
    DocumentView,
    DocumentActionView,
) {
    match (run.phase, event) {
        (DocumentPhase::Attachments, DocumentEventView::Attachments(all)) => {
            if some_rejected(all) {
                (
                    run_ended(run),
                    DocumentActionView::Abort(DocumentError::Classify(the_rejection(all))),
                )
            } else {
                (
                    DocumentView {
                        phase: DocumentPhase::Conversions,
                        handed_out: to_convert(all).len(),
                        ..run
                    },
                    DocumentActionView::Convert(to_convert(all)),
                )
            }
        },
        (DocumentPhase::Attachments, DocumentEventView::Failed) => (
            run_ended(run),
            DocumentActionView::Abort(DocumentError::Unavailable),
        ),
        (DocumentPhase::Conversions, DocumentEventView::Converted(results)) => {
            if results.len() == run.handed_out {
                (
                    DocumentView {
                        phase: DocumentPhase::Remapping,
                        optimized: id_map_of(results).len(),
                        ..run
                    },
                    DocumentActionView::Remap(id_map_of(results)),
                )
            } else {
                (run_ended(run), DocumentActionView::Abort(DocumentError::UnexpectedEvent))
            }
        },
        (DocumentPhase::Remapping, DocumentEventView::Remapped) => (
            run_ended(run),
            DocumentActionView::Finish { optimized: run.optimized },
        ),
        (DocumentPhase::Remapping, DocumentEventView::Failed) => (
            run_ended(run),
            DocumentActionView::Abort(DocumentError::Remap),
        ),
        _ => (run_ended(run), DocumentActionView::Abort(DocumentError::UnexpectedEvent)),
    }
}

/// Only one error is the error for the first attachment that cannot be
/// classified.
pub proof fn lemma_first_rejection_unique(all: Seq<AttachmentMetadata>, e: ClassifyError)
    requires
        first_rejection(all, e),
    ensures
        some_rejected(all),
        the_rejection(all) == e,
{
    let other = the_rejection(all);
    assert(first_rejection(all, other));
    let i = choose|i: int|
        {
            &&& 0 <= i < all.len()
            &&& rejection(#[trigger] all[i]) == Some(e)
            &&& forall|j: int| 0 <= j < i ==> rejection(#[trigger] all[j]) is None
        };
    let k = choose|k: int|
        {
            &&& 0 <= k < all.len()
            &&& rejection(#[trigger] all[k]) == Some(other)
            &&& forall|j: int| 0 <= j < k ==> rejection(#[trigger] all[j]) is None
        };
    if i < k {
        assert(rejection(all[i]) is None);
    } else if k < i {
        assert(rejection(all[k]) is None);
    }
}

/// The run over one document.
pub struct DocumentRun {
    phase: DocumentPhase,
    handed_out: usize,
    optimized: usize,
}

impl View for DocumentRun {
    type V = DocumentView;

    closed spec fn view(&self) -> DocumentView {
        DocumentView {
            phase: self.phase,
            handed_out: self.handed_out as nat,
            optimized: self.optimized as nat,
        }
    }
}

impl DocumentRun {
    /// A run that has not begun, and the first thing it asks for.
    pub fn begin() -> (start: (DocumentRun, DocumentAction))
        ensures
            start.0@ == initial_run(),
            start.1@ == DocumentActionView::ListAttachments,
    {
        (
            DocumentRun { phase: DocumentPhase::Attachments, handed_out: 0, optimized: 0 },
            DocumentAction::ListAttachments,
        )
    }

    /// Tells whether the run is over.
    pub fn is_done(&self) -> (done: bool)
        ensures
            done == (self@.phase == DocumentPhase::Done),
    {
        match self.phase {
            DocumentPhase::Done => true,
            _ => false,
        }
    }

    fn abort(self, error: DocumentError) -> (step: (DocumentRun, DocumentAction))
        ensures
            step.0@ == run_ended(self@),
            step.1@ == DocumentActionView::Abort(error),
    {
        (
            DocumentRun {
                phase: DocumentPhase::Done,
                handed_out: self.handed_out,
                optimized: self.optimized,
            },
            DocumentAction::Abort(error),
        )
    }

    /// Takes the report of what was asked for last, and returns the run
    /// after it with what is to be done next.
    pub fn step(self, event: DocumentEvent) -> (step: (DocumentRun, DocumentAction))
        ensures
            (step.0@, step.1@) == document_step(self@, event@),
    {
        match self.phase {
            DocumentPhase::Attachments => match event {
                DocumentEvent::Attachments(all) => {
                    let ghost listed = all@;
                    match filter_attachments(all) {
                        Err(e) => {
                            proof {
                                lemma_first_rejection_unique(listed, e);
                            }
                            self.abort(DocumentError::Classify(e))
                        },
                        Ok(to_process) => {
                            assert(!some_rejected(listed));
                            let run = DocumentRun {
                                phase: DocumentPhase::Conversions,
                                handed_out: to_process.len(),
                                optimized: self.optimized,
                            };
                            (run, DocumentAction::Convert(to_process))
                        },
                    }
                },
                DocumentEvent::Failed => self.abort(DocumentError::Unavailable),
                _ => self.abort(DocumentError::UnexpectedEvent),
            },
            DocumentPhase::Conversions => match event {
                DocumentEvent::Converted(results) => {
                    if results.len() == self.handed_out {
                        let map = collect_id_map(&results);
                        let run = DocumentRun {
                            phase: DocumentPhase::Remapping,
                            handed_out: self.handed_out,
                            optimized: map.len(),
                        };
                        (run, DocumentAction::Remap(map))
                    } else {
                        self.abort(DocumentError::UnexpectedEvent)
                    }
                },
                _ => self.abort(DocumentError::UnexpectedEvent),
            },
            DocumentPhase::Remapping => match event {
                DocumentEvent::Remapped => {
                    let optimized = self.optimized;
                    (
                        DocumentRun {
                            phase: DocumentPhase::Done,
                            handed_out: self.handed_out,
                            optimized: self.optimized,
                        },
                        DocumentAction::Finish { optimized },
                    )
                },
                DocumentEvent::Failed => self.abort(DocumentError::Remap),
                _ => self.abort(DocumentError::UnexpectedEvent),
            },
            DocumentPhase::Done => self.abort(DocumentError::UnexpectedEvent),
        }
    }
}

/// The remapping never runs beside a conversion that has not ended: it is
/// asked for only by the report of the results, one for each attachment
/// that was handed out, and it gets the map that those results give. Before
/// that report no document-wide step but the conversions is asked for.
pub proof fn lemma_remap_follows_all_conversions(run: DocumentView, event: DocumentEventView)
    ensures
        document_step(run, event).1 is Remap ==> {
            &&& run.phase == DocumentPhase::Conversions
            &&& event is Converted
            &&& event->Converted_0.len() == run.handed_out
            &&& document_step(run, event).1->Remap_0 == id_map_of(event->Converted_0)
        },
        document_step(run, event).1 is Convert ==> {
            &&& run.phase == DocumentPhase::Attachments
            &&& event is Attachments
            &&& document_step(run, event).0.handed_out == document_step(
                run,
                event,
            ).1->Convert_0.len()
        },
{
}

/// What is handed out for conversion is what the classifier picks: raster
/// images worth converting, none of which has an optimized counterpart in
/// the document.
pub proof fn lemma_handed_out_is_classified(all: Seq<AttachmentMetadata>, k: int)
    requires
        0 <= k < to_convert(all).len(),
    ensures
        to_convert(all)[k].is_unoptimized(),
        !already_converted(all, to_convert(all)[k].base()),
        all.contains(to_convert(all)[k]),
{
    let wanted = |a: AttachmentMetadata| needs_conversion(all, a);
    all.lemma_filter_pred(wanted, k);
    all.lemma_filter_contains_rev(wanted, to_convert(all)[k]);
}

} // verus!
