//! The conversion of one attachment: probe, download, save, encode, clean
//! up, upload.
//!
//! The worker does no I/O. It says what is to be done next; the caller
//! does it and reports what came of it. A failure ends the worker of one
//! attachment and touches no other.

use vstd::prelude::*;
use vstd::string::*;
use crate::attachment::{AttachmentMetadata, ConversionOutcome};
use crate::method::ConversionMethod;
use crate::names::{
    base_name, has_extension, is_unoptimized_image_type, split_file_name, to_ascii_uppercase,
};

verus! {

/// An attachment of fewer kibibytes than this is not worth the round trip.
pub const MIN_SIZE_KB: u64 = 100;

/// The quality for the smallest originals, and the highest ever chosen.
pub const QUALITY_MAX: u64 = 70;

/// The lowest quality ever chosen.
pub const QUALITY_MIN: u64 = 3;

/// So many kibibytes of the original lower the quality by one.
pub const QUALITY_KB_RATIO: u64 = 10;

/// The size in whole kibibytes of `bytes` bytes.
pub open spec fn kib_of(bytes: u64) -> u64 {
    bytes / 1024
}

/// Whether an original of `old_size_kib` kibibytes is large enough to be
/// converted.
pub open spec fn passes_size_gate(old_size_kib: u64) -> bool {
    old_size_kib >= MIN_SIZE_KB
}

/// The encoder quality for an original of `old_size_kib` kibibytes: one
/// less for every ten kibibytes, from 70 down to 3 and no further.
pub open spec fn quality_for(old_size_kib: u64) -> u64 {
    let lowered = QUALITY_MAX - old_size_kib / QUALITY_KB_RATIO;
    if lowered < QUALITY_MIN {
        QUALITY_MIN
    } else if lowered > QUALITY_MAX {
        QUALITY_MAX
    } else {
        lowered as u64
    }
}

/// Returns the size in whole kibibytes of `bytes` bytes.
pub fn size_in_kib(bytes: u64) -> (kib: u64)
    ensures
        kib == kib_of(bytes),
{
    bytes / 1024
}

/// Tells whether an original of `old_size_kib` kibibytes is large enough
/// to be converted.
pub fn is_worth_converting(old_size_kib: u64) -> (worth: bool)
    ensures
        worth == passes_size_gate(old_size_kib),
{
    old_size_kib >= MIN_SIZE_KB
}

/// Returns the encoder quality for an original of `old_size_kib`
/// kibibytes.
pub fn select_quality(old_size_kib: u64) -> (quality: u64)
    ensures
        quality == quality_for(old_size_kib),
        QUALITY_MIN <= quality <= QUALITY_MAX,
{
    let steps = old_size_kib / QUALITY_KB_RATIO;
    if steps >= QUALITY_MAX - QUALITY_MIN {
        QUALITY_MIN
    } else {
        QUALITY_MAX - steps
    }
}

/// The path of a working file: `folder`, a `/`, `base` and `suffix`.
pub open spec fn work_path(folder: Seq<char>, base: Seq<char>, suffix: Seq<char>) -> Seq<char> {
    folder + "/"@ + base + suffix
}

/// The path under which the download of an attachment is kept, whatever
/// the type of the attachment.
pub open spec fn original_path(folder: Seq<char>, base: Seq<char>) -> Seq<char> {
    work_path(folder, base, ".jpg"@)
}

/// The path under which the converted image is kept.
pub open spec fn converted_path(folder: Seq<char>, base: Seq<char>) -> Seq<char> {
    work_path(folder, base, ".webp"@)
}

fn join_path(folder: &str, base: &str, suffix: &str) -> (path: String)
    ensures
        path@ == work_path(folder@, base@, suffix@),
{
    let mut path = String::from_str(folder);
    path.append("/");
    path.append(base);
    path.append(suffix);
    path
}

/// What the worker waits for.
#[derive(Clone, Copy, Debug, PartialEq, Eq, Structural)]
pub enum WorkerPhase {
    /// Whether the converted file is on disk already.
    Probing,
    /// A download permit.
    AwaitingPermit,
    /// The bytes of the attachment. The worker holds a download permit.
    Downloading,
    /// That the permit was given back, after the bytes were received.
    Releasing,
    /// That the permit was given back, after the download failed.
    ReleasingAfterFailure,
    /// That the bytes were written to the original path.
    Saving,
    /// The encoder.
    Encoding,
    /// That the original file was removed.
    Cleaning,
    /// The id of the uploaded attachment.
    Uploading,
    /// Nothing: the worker is through.
    Done,
}

/// Why the conversion of an attachment failed.
#[derive(Clone, Copy, Debug, PartialEq, Eq, Structural)]
pub enum ConversionError {
    /// The attachment has no file name.
    MissingFileName,
    /// The file name has no extension.
    MalformedFileName,
    /// The attachment has no size.
    MissingFileSize,
    /// No download permit could be had.
    Permit,
    /// The download failed.
    Download,
    /// The download could not be written to disk.
    Save,
    /// The encoder failed.
    Encode,
    /// The original file could not be removed.
    Cleanup,
    /// The upload failed.
    Upload,
    /// The upload gave no id of a new attachment.
    MissingNewId,
    /// The report does not answer what the worker asked for.
    UnexpectedEvent,
}

/// What the caller reports to the worker.
#[derive(Debug, PartialEq, Eq)]
pub enum WorkerEvent {
    /// Whether the converted file is on disk.
    OutputProbed { present: bool },
    /// A download permit was taken.
    PermitAcquired,
    /// The bytes of the attachment were received.
    Downloaded,
    /// The download permit was given back.
    PermitReleased,
    /// The bytes were written to the original path.
    Saved,
    /// The encoder ended well.
    Encoded,
    /// The original file was removed.
    OriginalRemoved,
    /// The upload went through and gave these ids.
    Uploaded(Vec<u64>),
    /// What the worker asked for last did not succeed.
    Failed,
}

/// What the worker asks the caller to do next.
#[derive(Debug, PartialEq, Eq)]
pub enum WorkerAction {
    /// Look whether a file is at `path`, and report `OutputProbed`.
    ProbeOutput { path: String },
    /// Wait for a download permit and take it, and report `PermitAcquired`
    /// or `Failed`.
    AcquirePermit,
    /// Fetch the bytes of the attachment, and report `Downloaded` or
    /// `Failed`.
    Download { attachment_id: u64 },
    /// Give the download permit back, and report `PermitReleased`.
    ReleasePermit,
    /// Write the bytes to `path` as they are, and report `Saved` or
    /// `Failed`.
    SaveOriginal { path: String },
    /// Run the encoder from `input` to `output`, and report `Encoded` or
    /// `Failed`.
    Encode { method: ConversionMethod, quality: u64, input: String, output: String },
    /// Remove the file at `path`, and report `OriginalRemoved` or `Failed`.
    RemoveOriginal { path: String },
    /// Upload the file at `path` as a new attachment, and report
    /// `Uploaded` with the ids or `Failed`.
    Upload { path: String },
    /// The worker is through, with this outcome.
    Finish(ConversionOutcome),
    /// The worker is through: the conversion failed.
    Fail(ConversionError),
}

/// What a `WorkerEvent` stands for.
pub enum WorkerEventView {
    OutputProbed { present: bool },
    PermitAcquired,
    Downloaded,
    PermitReleased,
    Saved,
    Encoded,
    OriginalRemoved,
    Uploaded(Seq<u64>),
    Failed,
}

/// What a `WorkerAction` stands for.
pub enum WorkerActionView {
    ProbeOutput { path: Seq<char> },
    AcquirePermit,
    Download { attachment_id: u64 },
    ReleasePermit,
    SaveOriginal { path: Seq<char> },
    Encode { method: ConversionMethod, quality: u64, input: Seq<char>, output: Seq<char> },
    RemoveOriginal { path: Seq<char> },
    Upload { path: Seq<char> },
    Finish(ConversionOutcome),
    Fail(ConversionError),
}

impl View for WorkerEvent {
    type V = WorkerEventView;

    open spec fn view(&self) -> WorkerEventView {
        match self {
            WorkerEvent::OutputProbed { present } => WorkerEventView::OutputProbed {
                present: *present,
            },
            WorkerEvent::PermitAcquired => WorkerEventView::PermitAcquired,
            WorkerEvent::Downloaded => WorkerEventView::Downloaded,
            WorkerEvent::PermitReleased => WorkerEventView::PermitReleased,
            WorkerEvent::Saved => WorkerEventView::Saved,
            WorkerEvent::Encoded => WorkerEventView::Encoded,
            WorkerEvent::OriginalRemoved => WorkerEventView::OriginalRemoved,
            WorkerEvent::Uploaded(ids) => WorkerEventView::Uploaded(ids@),
            WorkerEvent::Failed => WorkerEventView::Failed,
        }
    }
}

impl View for WorkerAction {
    type V = WorkerActionView;

    open spec fn view(&self) -> WorkerActionView {
        match self {
            WorkerAction::ProbeOutput { path } => WorkerActionView::ProbeOutput { path: path@ },
            WorkerAction::AcquirePermit => WorkerActionView::AcquirePermit,
            WorkerAction::Download { attachment_id } => WorkerActionView::Download {
                attachment_id: *attachment_id,
            },
            WorkerAction::ReleasePermit => WorkerActionView::ReleasePermit,
            WorkerAction::SaveOriginal { path } => WorkerActionView::SaveOriginal { path: path@ },
            WorkerAction::Encode { method, quality, input, output } => WorkerActionView::Encode {
                method: *method,
                quality: *quality,
                input: input@,
                output: output@,
            },
            WorkerAction::RemoveOriginal { path } => WorkerActionView::RemoveOriginal {
                path: path@,
            },
            WorkerAction::Upload { path } => WorkerActionView::Upload { path: path@ },
            WorkerAction::Finish(outcome) => WorkerActionView::Finish(*outcome),
            WorkerAction::Fail(error) => WorkerActionView::Fail(*error),
        }
    }
}

/// The state of a worker.
pub struct WorkerView {
    pub phase: WorkerPhase,
    pub attachment_id: u64,
    /// Whether the extension says that the attachment is a raster image
    /// worth converting.
    pub unoptimized: bool,
    pub file_size: Option<u64>,
    pub original_path: Seq<char>,
    pub converted_path: Seq<char>,
    pub method: ConversionMethod,
}

/// The outcome for an attachment that stays as it is.
pub open spec fn kept(attachment_id: u64) -> ConversionOutcome {
    ConversionOutcome { old_id: attachment_id, new_id: attachment_id }
}

/// `worker`, through.
pub open spec fn through(worker: WorkerView) -> WorkerView {
    WorkerView { phase: WorkerPhase::Done, ..worker }
}

/// `worker`, waiting for something else.
pub open spec fn waiting(worker: WorkerView, phase: WorkerPhase) -> WorkerView {
    WorkerView { phase, ..worker }
}

/// Why no worker can be made for `attachment`, if none can.
pub open spec fn begin_error(attachment: AttachmentMetadata) -> Option<ConversionError> {
    if attachment.file_name is None {
        Some(ConversionError::MissingFileName)
    } else if !has_extension(attachment.name()) {
        Some(ConversionError::MalformedFileName)
    } else {
        None
    }
}

/// The worker for `attachment` before anything was done, with the working
/// files in `folder`.
pub open spec fn initial_worker(
    attachment: AttachmentMetadata,
    folder: Seq<char>,
    method: ConversionMethod,
) -> WorkerView {
    WorkerView {
        phase: WorkerPhase::Probing,
        attachment_id: attachment.id,
        unoptimized: attachment.is_unoptimized(),
        file_size: attachment.file_size,
        original_path: original_path(folder, base_name(attachment.name())),
        converted_path: converted_path(folder, base_name(attachment.name())),
        method,
    }
}

/// What a worker does once it knows whether the converted file is there.
/// A converted file on disk means that an earlier run dealt with the
/// attachment: it is kept. So is an attachment that is no raster image
/// worth converting, and one below the size gate.
pub open spec fn after_probe(worker: WorkerView, present: bool) -> (WorkerView, WorkerActionView) {
    if present || !worker.unoptimized {
        (through(worker), WorkerActionView::Finish(kept(worker.attachment_id)))
    } else {
        match worker.file_size {
            None => (through(worker), WorkerActionView::Fail(ConversionError::MissingFileSize)),
            Some(bytes) => if passes_size_gate(kib_of(bytes)) {
                (waiting(worker, WorkerPhase::AwaitingPermit), WorkerActionView::AcquirePermit)
            } else {
                (through(worker), WorkerActionView::Finish(kept(worker.attachment_id)))
            },
        }
    }
}

/// The quality that `worker` hands to the encoder.
pub open spec fn worker_quality(worker: WorkerView) -> u64 {
    match worker.file_size {
        Some(bytes) => quality_for(kib_of(bytes)),
        None => QUALITY_MAX,
    }
}

/// What a worker does once the upload gave `ids`: the first of them takes
/// the place of the attachment.
pub open spec fn after_upload(worker: WorkerView, ids: Seq<u64>) -> (WorkerView, WorkerActionView) {
    if ids.len() == 0 {
        (through(worker), WorkerActionView::Fail(ConversionError::MissingNewId))
    } else {
        (
            through(worker),
            WorkerActionView::Finish(
                ConversionOutcome { old_id: worker.attachment_id, new_id: ids[0] },
            ),
        )
    }
}

/// The state after `event` and what is to be done next.
pub open spec fn worker_step(worker: WorkerView, event: WorkerEventView) -> (
    WorkerView,
    WorkerActionView,
) {
    match (worker.phase, event) {
        (WorkerPhase::Probing, WorkerEventView::OutputProbed { present }) => after_probe(
            worker,
            present,
        ),
        (WorkerPhase::AwaitingPermit, WorkerEventView::PermitAcquired) => (
            waiting(worker, WorkerPhase::Downloading),
            WorkerActionView::Download { attachment_id: worker.attachment_id },
        ),
        (WorkerPhase::AwaitingPermit, WorkerEventView::Failed) => (
            through(worker),
            WorkerActionView::Fail(ConversionError::Permit),
        ),
        (WorkerPhase::Downloading, WorkerEventView::Downloaded) => (
            waiting(worker, WorkerPhase::Releasing),
            WorkerActionView::ReleasePermit,
        ),
        (WorkerPhase::Downloading, WorkerEventView::Failed) => (
            waiting(worker, WorkerPhase::ReleasingAfterFailure),
            WorkerActionView::ReleasePermit,
        ),
        (WorkerPhase::Releasing, WorkerEventView::PermitReleased) => (
            waiting(worker, WorkerPhase::Saving),
            WorkerActionView::SaveOriginal { path: worker.original_path },
        ),
        (WorkerPhase::ReleasingAfterFailure, WorkerEventView::PermitReleased) => (
            through(worker),
            WorkerActionView::Fail(ConversionError::Download),
        ),
        (WorkerPhase::Saving, WorkerEventView::Saved) => (
            waiting(worker, WorkerPhase::Encoding),
            WorkerActionView::Encode {
                method: worker.method,
                quality: worker_quality(worker),
                input: worker.original_path,
                output: worker.converted_path,
            },
        ),
        (WorkerPhase::Saving, WorkerEventView::Failed) => (
            through(worker),
            WorkerActionView::Fail(ConversionError::Save),
        ),
        (WorkerPhase::Encoding, WorkerEventView::Encoded) => (
            waiting(worker, WorkerPhase::Cleaning),
            WorkerActionView::RemoveOriginal { path: worker.original_path },
        ),
        (WorkerPhase::Encoding, WorkerEventView::Failed) => (
            through(worker),
            WorkerActionView::Fail(ConversionError::Encode),
        ),
        (WorkerPhase::Cleaning, WorkerEventView::OriginalRemoved) => (
            waiting(worker, WorkerPhase::Uploading),
            WorkerActionView::Upload { path: worker.converted_path },
        ),
        (WorkerPhase::Cleaning, WorkerEventView::Failed) => (
            through(worker),
            WorkerActionView::Fail(ConversionError::Cleanup),
        ),
        (WorkerPhase::Uploading, WorkerEventView::Uploaded(ids)) => after_upload(worker, ids),
        (WorkerPhase::Uploading, WorkerEventView::Failed) => (
            through(worker),
            WorkerActionView::Fail(ConversionError::Upload),
        ),
        _ => (through(worker), WorkerActionView::Fail(ConversionError::UnexpectedEvent)),
    }
}

/// The worker of one attachment.
pub struct ConversionWorker {
    phase: WorkerPhase,
    attachment_id: u64,
    unoptimized: bool,
    file_size: Option<u64>,
    original_path: String,
    converted_path: String,
    method: ConversionMethod,
}

impl View for ConversionWorker {
    type V = WorkerView;

    closed spec fn view(&self) -> WorkerView {
        WorkerView {
            phase: self.phase,
            attachment_id: self.attachment_id,
            unoptimized: self.unoptimized,
            file_size: self.file_size,
            original_path: self.original_path@,
            converted_path: self.converted_path@,
            method: self.method,
        }
    }
}

impl ConversionWorker {
    /// Makes the worker for `attachment`, with the working files in
    /// `image_folder`, and returns it with the first thing it asks for: to
    /// look for the converted file. An attachment without a file name, or
    /// with a file name without an extension, gets no worker.
    pub fn begin(
        attachment: &AttachmentMetadata,
        image_folder: &str,
        method: ConversionMethod,
    ) -> (start: Result<(ConversionWorker, WorkerAction), ConversionError>)
        ensures
            match start {
                Ok((worker, action)) => {
                    &&& begin_error(*attachment) is None
                    &&& worker@ == initial_worker(*attachment, image_folder@, method)
                    &&& action@ == WorkerActionView::ProbeOutput { path: worker@.converted_path }
                },
                Err(error) => begin_error(*attachment) == Some(error),
            },
    {
        let name = match &attachment.file_name {
            Some(name) => name.as_str(),
            None => {
                return Err(ConversionError::MissingFileName);
            },
        };
        let (base, ext) = match split_file_name(name) {
            Some(parts) => parts,
            None => {
                return Err(ConversionError::MalformedFileName);
            },
        };
        let upper = to_ascii_uppercase(ext);
        let unoptimized = is_unoptimized_image_type(upper.as_str());
        let original_path = join_path(image_folder, base, ".jpg");
        let converted_path = join_path(image_folder, base, ".webp");
        let probe = WorkerAction::ProbeOutput { path: converted_path.clone() };
        let worker = ConversionWorker {
            phase: WorkerPhase::Probing,
            attachment_id: attachment.id,
            unoptimized,
            file_size: attachment.file_size,
            original_path,
            converted_path,
            method,
        };
        Ok((worker, probe))
    }

    /// Tells whether the worker is through.
    pub fn is_done(&self) -> (done: bool)
        ensures
            done == (self@.phase == WorkerPhase::Done),
    {
        match self.phase {
            WorkerPhase::Done => true,
            _ => false,
        }
    }

    fn enter(self, phase: WorkerPhase) -> (worker: ConversionWorker)
        ensures
            worker@ == waiting(self@, phase),
    {
        ConversionWorker {
            phase,
            attachment_id: self.attachment_id,
            unoptimized: self.unoptimized,
            file_size: self.file_size,
            original_path: self.original_path,
            converted_path: self.converted_path,
            method: self.method,
        }
    }

    fn fail(self, error: ConversionError) -> (step: (ConversionWorker, WorkerAction))
        ensures
            step.0@ == through(self@),
            step.1@ == WorkerActionView::Fail(error),
    {
        (self.enter(WorkerPhase::Done), WorkerAction::Fail(error))
    }

    fn keep(self) -> (step: (ConversionWorker, WorkerAction))
        ensures
            step.0@ == through(self@),
            step.1@ == WorkerActionView::Finish(kept(self@.attachment_id)),
    {
        let outcome = ConversionOutcome::kept(self.attachment_id);
        (self.enter(WorkerPhase::Done), WorkerAction::Finish(outcome))
    }

    fn probed(self, present: bool) -> (step: (ConversionWorker, WorkerAction))
        ensures
            (step.0@, step.1@) == after_probe(self@, present),
    {
        if present || !self.unoptimized {
            return self.keep();
        }
        let bytes = match self.file_size {
            Some(bytes) => bytes,
            None => {
                return self.fail(ConversionError::MissingFileSize);
            },
        };
        if is_worth_converting(size_in_kib(bytes)) {
            (self.enter(WorkerPhase::AwaitingPermit), WorkerAction::AcquirePermit)
        } else {
            self.keep()
        }
    }

    fn quality(&self) -> (quality: u64)
        ensures
            quality == worker_quality(self@),
            QUALITY_MIN <= quality <= QUALITY_MAX,
    {
        match self.file_size {
            Some(bytes) => select_quality(size_in_kib(bytes)),
            None => QUALITY_MAX,
        }
    }

    /// Takes the report of what was asked for last, and returns the worker
    /// after it with what is to be done next.
    pub fn step(self, event: WorkerEvent) -> (step: (ConversionWorker, WorkerAction))
        ensures
            (step.0@, step.1@) == worker_step(self@, event@),
    {
        match self.phase {
            WorkerPhase::Probing => match event {
                WorkerEvent::OutputProbed { present } => self.probed(present),
                _ => self.fail(ConversionError::UnexpectedEvent),
            },
            WorkerPhase::AwaitingPermit => match event {
                WorkerEvent::PermitAcquired => {
                    let action = WorkerAction::Download { attachment_id: self.attachment_id };
                    (self.enter(WorkerPhase::Downloading), action)
                },
                WorkerEvent::Failed => self.fail(ConversionError::Permit),
                _ => self.fail(ConversionError::UnexpectedEvent),
            },
            WorkerPhase::Downloading => match event {
                WorkerEvent::Downloaded => (
                    self.enter(WorkerPhase::Releasing),
                    WorkerAction::ReleasePermit,
                ),
                WorkerEvent::Failed => (
                    self.enter(WorkerPhase::ReleasingAfterFailure),
                    WorkerAction::ReleasePermit,
                ),
                _ => self.fail(ConversionError::UnexpectedEvent),
            },
            WorkerPhase::Releasing => match event {
                WorkerEvent::PermitReleased => {
                    let action = WorkerAction::SaveOriginal { path: self.original_path.clone() };
                    (self.enter(WorkerPhase::Saving), action)
                },
                _ => self.fail(ConversionError::UnexpectedEvent),
            },
            WorkerPhase::ReleasingAfterFailure => match event {
                WorkerEvent::PermitReleased => self.fail(ConversionError::Download),
                _ => self.fail(ConversionError::UnexpectedEvent),
            },
            WorkerPhase::Saving => match event {
                WorkerEvent::Saved => {
                    let action = WorkerAction::Encode {
                        method: self.method,
                        quality: self.quality(),
                        input: self.original_path.clone(),
                        output: self.converted_path.clone(),
                    };
                    (self.enter(WorkerPhase::Encoding), action)
                },
                WorkerEvent::Failed => self.fail(ConversionError::Save),
                _ => self.fail(ConversionError::UnexpectedEvent),
            },
            WorkerPhase::Encoding => match event {
                WorkerEvent::Encoded => {
                    let action = WorkerAction::RemoveOriginal { path: self.original_path.clone() };
                    (self.enter(WorkerPhase::Cleaning), action)
                },
                WorkerEvent::Failed => self.fail(ConversionError::Encode),
                _ => self.fail(ConversionError::UnexpectedEvent),
            },
            WorkerPhase::Cleaning => match event {
                WorkerEvent::OriginalRemoved => {
                    let action = WorkerAction::Upload { path: self.converted_path.clone() };
                    (self.enter(WorkerPhase::Uploading), action)
                },
                WorkerEvent::Failed => self.fail(ConversionError::Cleanup),
                _ => self.fail(ConversionError::UnexpectedEvent),
            },
            WorkerPhase::Uploading => match event {
                WorkerEvent::Uploaded(ids) => {
                    if ids.len() == 0 {
                        self.fail(ConversionError::MissingNewId)
                    } else {
                        let outcome = ConversionOutcome {
                            old_id: self.attachment_id,
                            new_id: ids[0],
                        };
                        (self.enter(WorkerPhase::Done), WorkerAction::Finish(outcome))
                    }
                },
                WorkerEvent::Failed => self.fail(ConversionError::Upload),
                _ => self.fail(ConversionError::UnexpectedEvent),
            },
            WorkerPhase::Done => self.fail(ConversionError::UnexpectedEvent),
        }
    }
}

/// Whether `action` fetches, encodes or uploads anything.
pub open spec fn transfers(action: WorkerActionView) -> bool {
    action is AcquirePermit || action is Download || action is SaveOriginal || action is Encode
        || action is Upload
}

/// What a worker asks for, one after the other, as `events` are reported to
/// it in turn.
pub open spec fn actions_of(worker: WorkerView, events: Seq<WorkerEventView>) -> Seq<
    WorkerActionView,
>
    decreases events.len(),
{
    if events.len() == 0 {
        Seq::empty()
    } else {
        let (next, action) = worker_step(worker, events[0]);
        seq![action] + actions_of(next, events.drop_first())
    }
}

/// The quality goes down as the original grows, and never leaves the range
/// from 3 to 70.
pub proof fn lemma_quality_range(smaller: u64, larger: u64)
    requires
        smaller <= larger,
    ensures
        QUALITY_MIN <= quality_for(larger) <= quality_for(smaller) <= QUALITY_MAX,
        quality_for(smaller) <= crate::encoder::QUALITY_LIMIT,
{
}

/// A worker that is through asks for nothing more, whatever is reported.
pub proof fn lemma_through_stays_through(worker: WorkerView, events: Seq<WorkerEventView>)
    requires
        worker.phase == WorkerPhase::Done,
    ensures
        forall|i: int|
            0 <= i < actions_of(worker, events).len() ==> !transfers(
                #[trigger] actions_of(worker, events)[i],
            ),
    decreases events.len(),
{
    if events.len() > 0 {
        let (next, action) = worker_step(worker, events[0]);
        lemma_through_stays_through(next, events.drop_first());
        let rest = actions_of(next, events.drop_first());
        assert forall|i: int| 0 <= i < actions_of(worker, events).len() implies !transfers(
            #[trigger] actions_of(worker, events)[i],
        ) by {
            if i > 0 {
                assert(actions_of(worker, events)[i] == rest[i - 1]);
            }
        }
    }
}

/// Running a worker again after the converted file was written downloads
/// and uploads nothing: the attachment is kept, and whatever is reported
/// afterwards, the worker asks for no transfer.
pub proof fn lemma_rerun_keeps(worker: WorkerView, events: Seq<WorkerEventView>)
    requires
        worker.phase == WorkerPhase::Probing,
        events.len() > 0,
        events[0] == (WorkerEventView::OutputProbed { present: true }),
    ensures
        worker_step(worker, events[0]) == (
            through(worker),
            WorkerActionView::Finish(kept(worker.attachment_id)),
        ),
        !kept(worker.attachment_id).superseded(),
        forall|i: int|
            0 <= i < actions_of(worker, events).len() ==> !transfers(
                #[trigger] actions_of(worker, events)[i],
            ),
{
    let (next, action) = worker_step(worker, events[0]);
    lemma_through_stays_through(next, events.drop_first());
    let rest = actions_of(next, events.drop_first());
    assert forall|i: int| 0 <= i < actions_of(worker, events).len() implies !transfers(
        #[trigger] actions_of(worker, events)[i],
    ) by {
        if i > 0 {
            assert(actions_of(worker, events)[i] == rest[i - 1]);
        }
    }
}

/// An attachment of fewer than 102400 bytes is kept, whatever its
/// extension and whether or not a converted file is on disk, and nothing
/// is transferred for it.
pub proof fn lemma_size_gate(
    worker: WorkerView,
    bytes: u64,
    present: bool,
    later: Seq<WorkerEventView>,
)
    requires
        worker.phase == WorkerPhase::Probing,
        worker.file_size == Some(bytes),
        bytes < 102400,
    ensures
        worker_step(worker, WorkerEventView::OutputProbed { present }) == (
            through(worker),
            WorkerActionView::Finish(kept(worker.attachment_id)),
        ),
        forall|i: int|
            0 <= i < actions_of(through(worker), later).len() ==> !transfers(
                #[trigger] actions_of(through(worker), later)[i],
            ),
{
    lemma_through_stays_through(through(worker), later);
}

/// The steps of a conversion come in one order: the original is saved
/// after the download, encoded after it was saved, removed after the
/// encoder ended well and never before, and the converted file is uploaded
/// after that.
pub proof fn lemma_steps_in_order(worker: WorkerView, event: WorkerEventView)
    ensures
        worker_step(worker, event).1 is AcquirePermit ==> worker.phase == WorkerPhase::Probing,
        worker_step(worker, event).1 is Download ==> worker.phase == WorkerPhase::AwaitingPermit
            && event is PermitAcquired,
        worker_step(worker, event).1 is SaveOriginal ==> worker.phase == WorkerPhase::Releasing
            && event is PermitReleased,
        worker_step(worker, event).1 is Encode ==> worker.phase == WorkerPhase::Saving && event
            is Saved,
        worker_step(worker, event).1 is RemoveOriginal ==> worker.phase == WorkerPhase::Encoding
            && event is Encoded,
        worker_step(worker, event).1 is Upload ==> worker.phase == WorkerPhase::Cleaning && event
            is OriginalRemoved,
        worker_step(worker, event).1 is Finish && worker_step(
            worker,
            event,
        ).1->Finish_0.superseded() ==> worker.phase == WorkerPhase::Uploading && event is Uploaded,
        worker_step(worker, event).1 is Finish ==> worker_step(
            worker,
            event,
        ).1->Finish_0.old_id == worker.attachment_id,
        worker_step(worker, event).1 is Finish || worker_step(worker, event).1 is Fail
            <==> worker_step(worker, event).0.phase == WorkerPhase::Done,
{
}

/// Whether a worker that waits for this holds a download permit.
pub open spec fn holds_permit(phase: WorkerPhase) -> bool {
    phase == WorkerPhase::Downloading || phase == WorkerPhase::Releasing || phase
        == WorkerPhase::ReleasingAfterFailure
}

/// A worker holds a download permit for the fetch and no longer. It takes
/// one only to fetch; whether the fetch succeeds or fails, the next thing
/// it asks for is to give the permit back; and it saves, encodes, cleans
/// up, uploads and finishes without one.
pub proof fn lemma_permit_held_for_the_fetch_alone(worker: WorkerView, event: WorkerEventView)
    ensures
        !holds_permit(worker.phase) && holds_permit(worker_step(worker, event).0.phase)
            ==> event is PermitAcquired && worker_step(worker, event).1 is Download,
        worker.phase == WorkerPhase::Downloading && (event is Downloaded || event is Failed)
            ==> worker_step(worker, event).1 is ReleasePermit,
        holds_permit(worker.phase) && event is PermitReleased ==> !holds_permit(
            worker_step(worker, event).0.phase,
        ),
        worker_step(worker, event).1 is SaveOriginal || worker_step(worker, event).1 is Encode
            || worker_step(worker, event).1 is RemoveOriginal || worker_step(worker, event).1
            is Upload || worker_step(worker, event).1 is Finish ==> !holds_permit(
            worker_step(worker, event).0.phase,
        ),
        !holds_permit(worker_step(worker, event).0.phase) || worker_step(worker, event).1
            is Download || worker_step(worker, event).1 is ReleasePermit,
{
}

/// The encoder is only ever asked for a quality that it takes.
pub proof fn lemma_encode_quality_in_range(worker: WorkerView, event: WorkerEventView)
    ensures
        worker_step(worker, event).1 is Encode ==> QUALITY_MIN <= worker_step(
            worker,
            event,
        ).1->Encode_quality <= QUALITY_MAX,
{
}

} // verus!
