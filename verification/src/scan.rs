//! The scan of one table: which columns hold attachments, which records
//! change, and how many updates went through.
//!
//! The scan does no I/O. It says what is to be done next; the caller does
//! it and reports what came of it. Each update carries one record, so a
//! record that the service turns down holds up no other.

use vstd::prelude::*;
use crate::column::{scan_columns, scan_for_attachment_columns, texts_of, Column, ColumnError};
use crate::id_map::AttachmentIdMap;
use crate::record::{Record, RecordView};
use crate::remap::{plan_of, stage_record, MalformedCell, RecordPlan};

verus! {

/// What the scan waits for.
#[derive(Clone, Copy, Debug, PartialEq, Eq, Structural)]
pub enum ScanPhase {
    /// The columns of the table.
    Columns,
    /// The records of the table.
    Records,
    /// Whether the service took the update that was submitted last.
    Verdict,
    /// That the warning issued last was taken note of.
    Note,
    /// Nothing: the scan is over.
    Done,
}

/// Why a scan ends before the table is done.
#[derive(Clone, Copy, Debug, PartialEq, Eq, Structural)]
pub enum ScanError {
    /// The columns cannot be told apart.
    Columns(ColumnError),
    /// The service did not list the columns or the records.
    Unavailable,
    /// The report does not answer what the scan asked for.
    UnexpectedEvent,
}

/// Why a record was not updated.
#[derive(Clone, Copy, Debug, PartialEq, Eq, Structural)]
pub enum RecordFault {
    /// One of its attachment columns holds a cell that cannot be read.
    Malformed(MalformedCell),
    /// The service turned its update down.
    Rejected,
}

/// What the caller reports to the scan.
#[derive(Debug)]
pub enum ScanEvent {
    /// The columns of the table.
    Columns(Vec<Column>),
    /// The records of the table, in the order the service lists them.
    Records(Vec<Record>),
    /// The service took the update.
    Accepted,
    /// The service turned the update down.
    Rejected,
    /// The warning was taken note of.
    Noted,
    /// The service did not answer the listing.
    Unavailable,
}

/// What the scan asks the caller to do next.
#[derive(Debug)]
pub enum ScanAction {
    /// List the columns of the table and report them.
    ListColumns,
    /// List the records of the table and report them.
    ListRecords,
    /// Send this update of a single record and report the verdict.
    Submit(Record),
    /// Warn that the record with this id was not updated, and why, then
    /// report that this was done.
    Warn { record_id: u64, fault: RecordFault },
    /// The table is done: so many records were updated.
    Finish { modified: usize },
    /// The scan cannot go on.
    Abort(ScanError),
}

/// What a `ScanEvent` stands for.
pub enum EventView {
    Columns(Seq<Column>),
    Records(Seq<RecordView>),
    Accepted,
    Rejected,
    Noted,
    Unavailable,
}

/// What a `ScanAction` stands for.
pub enum ActionView {
    ListColumns,
    ListRecords,
    Submit(RecordView),
    Warn { record_id: u64, fault: RecordFault },
    Finish { modified: nat },
    Abort(ScanError),
}

/// The records of `records`, each by its view.
pub open spec fn views_of(records: Seq<Record>) -> Seq<RecordView> {
    records.map_values(|record: Record| record@)
}

impl View for ScanEvent {
    type V = EventView;

    open spec fn view(&self) -> EventView {
        match self {
            ScanEvent::Columns(columns) => EventView::Columns(columns@),
            ScanEvent::Records(records) => EventView::Records(views_of(records@)),
            ScanEvent::Accepted => EventView::Accepted,
            ScanEvent::Rejected => EventView::Rejected,
            ScanEvent::Noted => EventView::Noted,
            ScanEvent::Unavailable => EventView::Unavailable,
        }
    }
}

impl View for ScanAction {
    type V = ActionView;

    open spec fn view(&self) -> ActionView {
        match self {
            ScanAction::ListColumns => ActionView::ListColumns,
            ScanAction::ListRecords => ActionView::ListRecords,
            ScanAction::Submit(update) => ActionView::Submit(update@),
            ScanAction::Warn { record_id, fault } => ActionView::Warn {
                record_id: *record_id,
                fault: *fault,
            },
            ScanAction::Finish { modified } => ActionView::Finish { modified: *modified as nat },
            ScanAction::Abort(error) => ActionView::Abort(*error),
        }
    }
}

/// The state of a scan: what it waits for, the attachment columns of the
/// table, its records, how many of them are dealt with, and how many
/// updates the service took.
pub struct ScanView {
    pub phase: ScanPhase,
    pub columns: Seq<Seq<char>>,
    pub records: Seq<RecordView>,
    pub next: nat,
    pub modified: nat,
}

/// The state of a scan that has not begun.
pub open spec fn initial_scan() -> ScanView {
    ScanView {
        phase: ScanPhase::Columns,
        columns: Seq::empty(),
        records: Seq::empty(),
        next: 0,
        modified: 0,
    }
}

/// `scan`, over.
pub open spec fn ended(scan: ScanView) -> ScanView {
    ScanView { phase: ScanPhase::Done, ..scan }
}

/// Goes on with the records that are not dealt with yet: passes over those
/// that do not change, and stops at the first that is to be updated or
/// warned of, or at the end of the table.
pub open spec fn advance(scan: ScanView, map: Map<u64, u64>) -> (ScanView, ActionView)
    decreases scan.records.len() - scan.next,
{
    if scan.next >= scan.records.len() {
        (ended(scan), ActionView::Finish { modified: scan.modified })
    } else {
        let record = scan.records[scan.next as int];
        let moved = ScanView { next: scan.next + 1, ..scan };
        match plan_of(record, scan.columns, map) {
            RecordPlan::Unchanged => advance(moved, map),
            RecordPlan::Update(update) => (
                ScanView { phase: ScanPhase::Verdict, ..moved },
                ActionView::Submit(update),
            ),
            RecordPlan::Malformed(fault) => (
                ScanView { phase: ScanPhase::Note, ..moved },
                ActionView::Warn { record_id: record.id, fault: RecordFault::Malformed(fault) },
            ),
        }
    }
}

/// How a scan goes on does not depend on what it waited for.
pub proof fn lemma_advance_ignores_phase(scan: ScanView, phase: ScanPhase, map: Map<u64, u64>)
    ensures
        advance(ScanView { phase, ..scan }, map) == advance(scan, map),
    decreases scan.records.len() - scan.next,
{
    if scan.next < scan.records.len() {
        let moved = ScanView { next: scan.next + 1, ..scan };
        lemma_advance_ignores_phase(moved, phase, map);
        assert(ScanView { next: scan.next + 1, ..(ScanView { phase, ..scan }) } == (ScanView {
            phase,
            ..moved
        }));
    }
}

/// The state after `event` and what is to be done next. A table without
/// attachment columns is done at once, and its records are never listed.
/// An update that the service turns down is warned of and not counted;
/// then the scan goes on as after one that the service took.
pub open spec fn scan_step(scan: ScanView, event: EventView, map: Map<u64, u64>) -> (
    ScanView,
    ActionView,
) {
    match (scan.phase, event) {
        (ScanPhase::Columns, EventView::Columns(columns)) => match scan_columns(columns) {
            Err(error) => (ended(scan), ActionView::Abort(ScanError::Columns(error))),
            Ok(ids) => if ids.len() == 0 {
                (ended(scan), ActionView::Finish { modified: 0 })
            } else {
                (
                    ScanView { phase: ScanPhase::Records, columns: ids, ..scan },
                    ActionView::ListRecords,
                )
            },
        },
        (ScanPhase::Records, EventView::Records(records)) => advance(
            ScanView { records, next: 0, ..scan },
            map,
        ),
        (ScanPhase::Verdict, EventView::Accepted) => advance(
            ScanView { modified: scan.modified + 1, ..scan },
            map,
        ),
        (ScanPhase::Verdict, EventView::Rejected) => (
            ScanView { phase: ScanPhase::Note, ..scan },
            ActionView::Warn {
                record_id: scan.records[scan.next - 1].id,
                fault: RecordFault::Rejected,
            },
        ),
        (ScanPhase::Note, EventView::Noted) => advance(scan, map),
        (ScanPhase::Columns, EventView::Unavailable) => (
            ended(scan),
            ActionView::Abort(ScanError::Unavailable),
        ),
        (ScanPhase::Records, EventView::Unavailable) => (
            ended(scan),
            ActionView::Abort(ScanError::Unavailable),
        ),
        _ => (ended(scan), ActionView::Abort(ScanError::UnexpectedEvent)),
    }
}

/// The scan of one table.
pub struct TableScan {
    phase: ScanPhase,
    columns: Vec<String>,
    records: Vec<Record>,
    next: usize,
    modified: usize,
}

impl View for TableScan {
    type V = ScanView;

    closed spec fn view(&self) -> ScanView {
        ScanView {
            phase: self.phase,
            columns: texts_of(self.columns@),
            records: views_of(self.records@),
            next: self.next as nat,
            modified: self.modified as nat,
        }
    }
}

impl TableScan {
    #[verifier::type_invariant]
    spec fn counts_in_range(self) -> bool {
        &&& self.next <= self.records@.len()
        &&& self.modified <= self.next
        &&& self.phase == ScanPhase::Verdict ==> self.modified < self.next
        &&& self.phase == ScanPhase::Columns || self.phase == ScanPhase::Records ==> self.next
            == 0
    }

    /// A scan that has not begun, and the first thing it asks for.
    pub fn begin() -> (start: (TableScan, ScanAction))
        ensures
            start.0@ == initial_scan(),
            start.1@ == ActionView::ListColumns,
    {
        let scan = TableScan {
            phase: ScanPhase::Columns,
            columns: Vec::new(),
            records: Vec::new(),
            next: 0,
            modified: 0,
        };
        assert(scan@.columns =~= Seq::empty());
        assert(scan@.records =~= Seq::empty());
        (scan, ScanAction::ListColumns)
    }

    /// Tells whether the scan is over.
    pub fn is_done(&self) -> (done: bool)
        ensures
            done == (self@.phase == ScanPhase::Done),
    {
        match self.phase {
            ScanPhase::Done => true,
            _ => false,
        }
    }

    /// Returns how many updates the service took so far.
    pub fn modified(&self) -> (count: usize)
        ensures
            count == self@.modified,
    {
        self.modified
    }

    fn finish(self, action: ScanAction) -> (step: (TableScan, ScanAction))
        ensures
            step.0@ == ended(self@),
            step.1 == action,
    {
        proof {
            use_type_invariant(&self);
        }
        (
            TableScan {
                phase: ScanPhase::Done,
                columns: self.columns,
                records: self.records,
                next: self.next,
                modified: self.modified,
            },
            action,
        )
    }

    fn go_on(self, map: &AttachmentIdMap) -> (step: (TableScan, ScanAction))
        ensures
            (step.0@, step.1@) == advance(self@, map@),
    {
        proof {
            use_type_invariant(&self);
        }
        let ghost start = self@;
        let columns = self.columns;
        let records = self.records;
        let modified = self.modified;
        let mut next = self.next;
        while next < records.len()
            invariant
                modified <= next <= records.len(),
                start == self@,
                start.columns == texts_of(columns@),
                start.records == views_of(records@),
                start.modified == modified,
                advance(start, map@) == advance(ScanView { next: next as nat, ..start }, map@),
            decreases records.len() - next,
        {
            let ghost here = ScanView { next: next as nat, ..start };
            assert(here.records[next as int] == records@[next as int]@);
            match stage_record(&records[next], &columns, map) {
                Ok(None) => {
                    next = next + 1;
                },
                Ok(Some(update)) => {
                    let scan = TableScan {
                        phase: ScanPhase::Verdict,
                        columns,
                        records,
                        next: next + 1,
                        modified,
                    };
                    return (scan, ScanAction::Submit(update));
                },
                Err(fault) => {
                    let record_id = records[next].id();
                    let scan = TableScan {
                        phase: ScanPhase::Note,
                        columns,
                        records,
                        next: next + 1,
                        modified,
                    };
                    return (
                        scan,
                        ScanAction::Warn { record_id, fault: RecordFault::Malformed(fault) },
                    );
                },
            }
        }
        let scan = TableScan { phase: ScanPhase::Done, columns, records, next, modified };
        (scan, ScanAction::Finish { modified })
    }

    /// Takes the report of what was asked for last, and returns the scan
    /// after it with what is to be done next.
    pub fn step(self, event: ScanEvent, map: &AttachmentIdMap) -> (step: (TableScan, ScanAction))
        ensures
            (step.0@, step.1@) == scan_step(self@, event@, map@),
    {
        proof {
            use_type_invariant(&self);
        }
        match self.phase {
            ScanPhase::Columns => match event {
                ScanEvent::Columns(listed) => match scan_for_attachment_columns(&listed) {
                    Err(error) => self.finish(ScanAction::Abort(ScanError::Columns(error))),
                    Ok(ids) => {
                        if ids.len() == 0 {
                            self.finish(ScanAction::Finish { modified: 0 })
                        } else {
                            let scan = TableScan {
                                phase: ScanPhase::Records,
                                columns: ids,
                                records: self.records,
                                next: self.next,
                                modified: self.modified,
                            };
                            (scan, ScanAction::ListRecords)
                        }
                    },
                },
                ScanEvent::Unavailable => self.finish(ScanAction::Abort(ScanError::Unavailable)),
                _ => self.finish(ScanAction::Abort(ScanError::UnexpectedEvent)),
            },
            ScanPhase::Records => match event {
                ScanEvent::Records(records) => {
                    let scan = TableScan {
                        phase: ScanPhase::Records,
                        columns: self.columns,
                        records,
                        next: 0,
                        modified: 0,
                    };
                    scan.go_on(map)
                },
                ScanEvent::Unavailable => self.finish(ScanAction::Abort(ScanError::Unavailable)),
                _ => self.finish(ScanAction::Abort(ScanError::UnexpectedEvent)),
            },
            ScanPhase::Verdict => match event {
                ScanEvent::Accepted => {
                    let scan = TableScan {
                        phase: ScanPhase::Note,
                        columns: self.columns,
                        records: self.records,
                        next: self.next,
                        modified: self.modified + 1,
                    };
                    proof {
                        lemma_advance_ignores_phase(
                            ScanView { modified: self@.modified + 1, ..self@ },
                            ScanPhase::Note,
                            map@,
                        );
                    }
                    scan.go_on(map)
                },
                ScanEvent::Rejected => {
                    let record_id = self.records[self.next - 1].id();
                    let scan = TableScan {
                        phase: ScanPhase::Note,
                        columns: self.columns,
                        records: self.records,
                        next: self.next,
                        modified: self.modified,
                    };
                    (scan, ScanAction::Warn { record_id, fault: RecordFault::Rejected })
                },
                _ => self.finish(ScanAction::Abort(ScanError::UnexpectedEvent)),
            },
            ScanPhase::Note => match event {
                ScanEvent::Noted => self.go_on(map),
                _ => self.finish(ScanAction::Abort(ScanError::UnexpectedEvent)),
            },
            ScanPhase::Done => self.finish(ScanAction::Abort(ScanError::UnexpectedEvent)),
        }
    }
}

/// Whether two scans differ in nothing but the number of updates that the
/// service took.
pub open spec fn same_but_count(first: ScanView, second: ScanView) -> bool {
    second == (ScanView { modified: second.modified, ..first })
}

/// Going on leaves the columns, the records and the count as they are, and
/// never goes back; at the end of the table the count is reported.
pub proof fn lemma_advance_keeps_count(scan: ScanView, map: Map<u64, u64>)
    requires
        scan.next <= scan.records.len(),
    ensures
        advance(scan, map).0.columns == scan.columns,
        advance(scan, map).0.records == scan.records,
        advance(scan, map).0.modified == scan.modified,
        scan.next <= advance(scan, map).0.next <= scan.records.len(),
        advance(scan, map).1 is Finish ==> advance(scan, map).1 == (ActionView::Finish {
            modified: scan.modified,
        }) && advance(scan, map).0.next == scan.records.len(),
        advance(scan, map).1 is Finish || advance(scan, map).1 is Submit || advance(scan, map).1 is Warn,
    decreases scan.records.len() - scan.next,
{
    if scan.next < scan.records.len() {
        lemma_advance_keeps_count(ScanView { next: scan.next + 1, ..scan }, map);
    }
}

/// How a scan goes on does not depend on the count: the same record is
/// met next and the same is asked for it.
pub proof fn lemma_advance_ignores_count(scan: ScanView, modified: nat, map: Map<u64, u64>)
    ensures
        same_but_count(advance(scan, map).0, advance(ScanView { modified, ..scan }, map).0),
        advance(ScanView { modified, ..scan }, map).0.modified == modified,
        advance(scan, map).1 is Finish <==> advance(ScanView { modified, ..scan }, map).1 is Finish,
        !(advance(scan, map).1 is Finish) ==> advance(ScanView { modified, ..scan }, map).1
            == advance(scan, map).1,
    decreases scan.records.len() - scan.next,
{
    if scan.next < scan.records.len() {
        let moved = ScanView { next: scan.next + 1, ..scan };
        lemma_advance_ignores_count(moved, modified, map);
        assert(ScanView { next: scan.next + 1, ..(ScanView { modified, ..scan }) } == (ScanView {
            modified,
            ..moved
        }));
    }
}

/// A record that the service turns down holds up no other. The scan warns
/// of the record by its id; after that it stands at the same record and
/// asks for the same as after an update that the service took. Only the
/// count tells the two apart: it goes up by one for an update that was
/// taken.
pub proof fn lemma_rejection_blocks_nothing(scan: ScanView, map: Map<u64, u64>)
    requires
        scan.phase == ScanPhase::Verdict,
        0 < scan.next <= scan.records.len(),
    ensures
        ({
            let taken = scan_step(scan, EventView::Accepted, map);
            let warned = scan_step(scan, EventView::Rejected, map);
            let passed = scan_step(warned.0, EventView::Noted, map);
            &&& warned.1 == (ActionView::Warn {
                record_id: scan.records[scan.next - 1].id,
                fault: RecordFault::Rejected,
            })
            &&& same_but_count(passed.0, taken.0)
            &&& passed.0.modified == scan.modified
            &&& taken.0.modified == scan.modified + 1
            &&& passed.1 is Finish <==> taken.1 is Finish
            &&& !(passed.1 is Finish) ==> taken.1 == passed.1
        }),
{
    lemma_advance_ignores_count(scan, scan.modified + 1, map);
    lemma_advance_ignores_count(scan, scan.modified, map);
    assert(ScanView { modified: scan.modified, ..scan } == scan);
    lemma_advance_ignores_phase(scan, ScanPhase::Note, map);
}

/// A table without attachment columns is done at once: its records are
/// not asked for.
pub proof fn lemma_no_attachment_columns_no_listing(columns: Seq<Column>, map: Map<u64, u64>)
    requires
        scan_columns(columns) == Ok::<Seq<Seq<char>>, ColumnError>(Seq::empty()),
    ensures
        scan_step(initial_scan(), EventView::Columns(columns), map) == (
            ended(initial_scan()),
            ActionView::Finish { modified: 0 },
        ),
{
}

} // verus!
