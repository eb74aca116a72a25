//! The record store.
//!
//! A store lives in one channel of the ledger, in the range of log positions
//! from its start up to the head. What the store holds is what that range
//! holds: the value of a record is the most recent blob of its id in the
//! range, found by a walk from the head down to the start. Nothing in the
//! log is ever changed. An update is a new blob under the same id, which
//! the walk meets before the older ones; a delete puts the id among the
//! deleted ids of the metadata, and an id that is deleted is absent whatever
//! the range holds.
//!
//! Every change of the store is one submission to the log: the new record,
//! where there is one, together with the metadata after the change. The two
//! reach the log at one position or not at all. The position is not known
//! when the metadata are written: what waits for it names [`HERE`] in the
//! blob, and reads as the position of the blob. The metadata also keep a
//! directory from record id to the position of the record's latest write;
//! the store maintains it and does not read by it.
//!
//! A store is in one of three states. It is made uninitialized; while
//! [`DatabaseClient::discover`] runs it is discovering; after that it is ready
//! and stays so. One operation runs at a time. An operation that needs the
//! ledger returns [`Step::Ask`] with the call to make, and goes on when the
//! reply is handed to [`DatabaseClient::resume`]. A position that cannot be
//! fetched counts as a position that holds nothing; a head that cannot be
//! read and a submission that fails end the operation.
//!
//! Two processes that write to one channel are not coordinated. Each submits
//! its own metadata, the one that the log holds at the highest position is
//! the one that a later discovery adopts, and what the other wrote to its
//! metadata is lost to that store.
//!
//! Within one process the store has one owner at a time. Where several
//! tasks share it, a lock around it need only be held for the call that
//! starts an operation and for each call of `resume`: none of them waits for
//! the ledger.

use crate::blob::{
    absorb_page, absorbed, find_metadata, find_record, first_metadata, first_record,
    metadata_view, page_of, records_of, BlobView, ClassifiedBlob,
};
use crate::error::{DatabaseError, ErrorKind, ErrorView};
use crate::metadata::{DatabaseMetadata, MetadataView, HERE};
use crate::namespace::{
    namespace_accepted, namespace_error_text, namespace_made, NAMESPACE_WIDTH,
};
use crate::protocol::{
    batch_of, Outcome, OutcomeView, Payload, Reply, ReplyView, Request, RequestView, Step,
    StepView,
};
use crate::record::{utc_now, Record, RecordView, Timestamp};
use crate::scanner::{positions_down, RangeScanner};
use crate::window::{search_window_start, window_start};
use celestia_types::nmt::Namespace;
use vstd::prelude::*;
use vstd::string::*;

verus! {

/// What a walk for a record is for.
#[derive(Debug)]
enum Aim {
    Read,
    Update(Vec<u8>),
    Delete,
}

/// What a walk for a record is for, as a mathematical value.
pub enum AimView {
    /// The record is to be returned.
    Read,
    /// The record is to get this payload.
    Update(Seq<u8>),
    /// The record is to be deleted.
    Delete,
}

impl View for Aim {
    type V = AimView;

    closed spec fn view(&self) -> AimView {
        match self {
            Aim::Read => AimView::Read,
            Aim::Update(data) => AimView::Update(data@),
            Aim::Delete => AimView::Delete,
        }
    }
}

/// What the store is waiting for.
#[derive(Debug)]
enum Phase {
    Idle,
    ProbingHint(u64),
    AwaitingHead,
    Scanning(u64, RangeScanner),
    Founding(DatabaseMetadata),
    Confirming(DatabaseMetadata),
    Committing(DatabaseMetadata, Outcome),
    Locating(DatabaseMetadata, Outcome),
    Ranging(String, Aim),
    Seeking(String, Aim, RangeScanner),
    ListRanging,
    Listing(RangeScanner, Vec<Record>),
}

/// What the store is waiting for, as a mathematical value.
pub enum PhaseView {
    /// No operation is running.
    Idle,
    /// Discovery: the blobs at the position that the caller hinted at.
    ProbingHint { position: u64 },
    /// Discovery: the head, to lay out the search window.
    AwaitingHead,
    /// Discovery: the blobs at the position `current` of the window;
    /// `remaining` are the positions to search after it.
    Scanning { current: u64, remaining: Seq<u64> },
    /// Creation of the store: the acknowledgement of its first metadata.
    Founding { fresh: MetadataView },
    /// Creation of the store: the head, to stand for the position of the
    /// metadata where the ledger acknowledged none.
    Confirming { fresh: MetadataView },
    /// Any change: the acknowledgement of the submission; `updated` are the
    /// metadata that it carries.
    Committing { updated: MetadataView, outcome: OutcomeView },
    /// Any change: the head, to stand for the position of the submission
    /// where the ledger acknowledged none.
    Locating { updated: MetadataView, outcome: OutcomeView },
    /// Read, update, delete: the head, to lay out the walk for the record.
    Ranging { id: Seq<char>, aim: AimView },
    /// Read, update, delete: the blobs at one position of the walk;
    /// `remaining` are the positions to search after it.
    Seeking { id: Seq<char>, aim: AimView, remaining: Seq<u64> },
    /// List: the head, to lay out the walk.
    ListRanging,
    /// List: the blobs at one position of the walk; `remaining` are the
    /// positions to search after it, `found` the records gathered so far.
    Listing { remaining: Seq<u64>, found: Seq<RecordView> },
}

impl View for Phase {
    type V = PhaseView;

    closed spec fn view(&self) -> PhaseView {
        match self {
            Phase::Idle => PhaseView::Idle,
            Phase::ProbingHint(position) => PhaseView::ProbingHint { position: *position },
            Phase::AwaitingHead => PhaseView::AwaitingHead,
            Phase::Scanning(current, scanner) => PhaseView::Scanning {
                current: *current,
                remaining: scanner@,
            },
            Phase::Founding(fresh) => PhaseView::Founding { fresh: fresh@ },
            Phase::Confirming(fresh) => PhaseView::Confirming { fresh: fresh@ },
            Phase::Committing(updated, outcome) => PhaseView::Committing {
                updated: updated@,
                outcome: outcome@,
            },
            Phase::Locating(updated, outcome) => PhaseView::Locating {
                updated: updated@,
                outcome: outcome@,
            },
            Phase::Ranging(id, aim) => PhaseView::Ranging { id: id@, aim: aim@ },
            Phase::Seeking(id, aim, scanner) => PhaseView::Seeking {
                id: id@,
                aim: aim@,
                remaining: scanner@,
            },
            Phase::ListRanging => PhaseView::ListRanging,
            Phase::Listing(scanner, found) => PhaseView::Listing {
                remaining: scanner@,
                found: records_of(found@),
            },
        }
    }
}

/// A record store in one channel of the ledger.
#[derive(Debug)]
pub struct DatabaseClient {
    namespace: Namespace,
    namespace_id: Vec<u8>,
    hint: Option<u64>,
    search_limit: Option<u64>,
    metadata: Option<DatabaseMetadata>,
    phase: Phase,
}

/// Mathematical content of a [`DatabaseClient`].
pub struct ClientView {
    /// The ledger's namespace of the channel.
    pub namespace: Namespace,
    /// The identifier of the channel.
    pub namespace_id: Seq<u8>,
    /// The position at which the caller expects the store's metadata.
    pub hint: Option<u64>,
    /// How far below the head discovery searches.
    pub search_limit: Option<u64>,
    /// The metadata of the store; `None` until the store is ready.
    pub metadata: Option<MetadataView>,
    /// What the store is waiting for.
    pub phase: PhaseView,
}

/// Text of the failure for a channel identifier that is not ten bytes wide.
pub open spec fn width_text() -> Seq<char> {
    "Namespace must be exactly 10 bytes"@
}

/// Text of the failure for a channel identifier that does not have the
/// width that the deployment is configured with.
pub open spec fn configured_width_text() -> Seq<char> {
    "Namespace does not have the configured width"@
}

/// Text of the failure for an operation started while another one runs.
pub open spec fn busy_text() -> Seq<char> {
    "an operation is already in progress"@
}

/// Text of the failure for an operation on a store that is not ready.
pub open spec fn not_ready_text() -> Seq<char> {
    "the store has not been opened"@
}

/// Text of the failure for a reply that does not fit the pending request.
pub open spec fn unexpected_text() -> Seq<char> {
    "the reply does not answer the pending request"@
}

/// Text of the failure for a reply when nothing was asked.
pub open spec fn idle_text() -> Seq<char> {
    "no request is pending"@
}

/// Text of the failure for an add to a store whose record count is at its
/// limit.
pub open spec fn exhausted_text() -> Seq<char> {
    "the record count cannot grow"@
}

impl ReplyView {
    /// The page that a reply to a fetch delivers: the blobs, or an empty page
    /// where the position holds nothing or could not be fetched. `None` for
    /// a reply that is none to a fetch.
    pub open spec fn page(self) -> Option<Seq<BlobView>> {
        match self {
            ReplyView::Blobs(page) => Some(page),
            ReplyView::NoBlobs => Some(Seq::empty()),
            ReplyView::Unreachable(_) => Some(Seq::empty()),
            _ => None,
        }
    }
}

impl ClientView {
    /// The store as it is made: uninitialized, nothing running, with the
    /// namespace of version 0 that the ledger builds for the identifier.
    pub open spec fn initial(
        namespace_id: Seq<u8>,
        hint: Option<u64>,
        search_limit: Option<u64>,
    ) -> ClientView {
        ClientView {
            namespace: namespace_made(0, namespace_id),
            namespace_id,
            hint,
            search_limit,
            metadata: None,
            phase: PhaseView::Idle,
        }
    }

    /// Whether the store is ready: it has its metadata.
    pub open spec fn is_ready(self) -> bool {
        self.metadata is Some
    }

    /// The operation ends with a failure.
    pub open spec fn fail(self, kind: ErrorKind, detail: Seq<char>) -> (ClientView, StepView) {
        (
            ClientView { phase: PhaseView::Idle, ..self },
            StepView::Done(Err(ErrorView { kind, detail })),
        )
    }

    /// The operation ends with an outcome.
    pub open spec fn finish(self, outcome: OutcomeView) -> (ClientView, StepView) {
        (ClientView { phase: PhaseView::Idle, ..self }, StepView::Done(Ok(outcome)))
    }

    /// The operation goes on with a request.
    pub open spec fn ask(self, phase: PhaseView, request: RequestView) -> (ClientView, StepView) {
        (ClientView { phase, ..self }, StepView::Ask(request))
    }

    /// The store takes `metadata` for its own and is ready.
    pub open spec fn adopt(self, metadata: MetadataView) -> (ClientView, StepView) {
        (
            ClientView { metadata: Some(metadata), phase: PhaseView::Idle, ..self },
            StepView::Done(Ok(OutcomeView::Ready)),
        )
    }

    /// A reply that the pending request cannot use ends the operation: with
    /// the failure that the reply carries, where it carries one, as a misuse
    /// otherwise. The store's metadata stays as it was.
    pub open spec fn refused(self, reply: ReplyView) -> (ClientView, StepView) {
        match reply {
            ReplyView::Unreachable(text) => self.fail(ErrorKind::CelestiaError, text),
            ReplyView::Rejected(text) => self.fail(ErrorKind::SubmissionRejected, text),
            ReplyView::NotEncoded(text) => self.fail(ErrorKind::SerializationError, text),
            _ => self.fail(ErrorKind::DatabaseError, unexpected_text()),
        }
    }

    /// The store is created: metadata for an empty store are submitted. They
    /// name [`HERE`] as the start: the store begins where the ledger puts
    /// them.
    pub open spec fn found(self, now: Timestamp) -> (ClientView, StepView) {
        let fresh = MetadataView::empty(HERE, now);
        self.ask(
            PhaseView::Founding { fresh },
            RequestView::Submit(seq![BlobView::Metadata(fresh)]),
        )
    }

    /// Discovery moves to the next position of the window, or, with the
    /// window exhausted, on to the creation of the store.
    pub open spec fn scan(self, remaining: Seq<u64>, now: Timestamp) -> (ClientView, StepView) {
        if remaining.len() > 0 {
            self.ask(
                PhaseView::Scanning { current: remaining[0], remaining: remaining.drop_first() },
                RequestView::Fetch(remaining[0]),
            )
        } else {
            self.found(now)
        }
    }

    /// Discovery has the page at a position of the window: the first
    /// metadata on it is adopted, as read at that position; without one the
    /// search goes on.
    pub open spec fn searched(
        self,
        page: Seq<BlobView>,
        position: u64,
        remaining: Seq<u64>,
        now: Timestamp,
    ) -> (ClientView, StepView) {
        match first_metadata(page) {
            Some(metadata) => self.adopt(metadata.resolved(position)),
            None => self.scan(remaining, now),
        }
    }

    /// Discovery has the page at the hinted position: metadata on it is
    /// adopted, as read at that position; without any the search of the
    /// window begins.
    pub open spec fn probed(self, page: Seq<BlobView>, position: u64) -> (ClientView, StepView) {
        match first_metadata(page) {
            Some(metadata) => self.adopt(metadata.resolved(position)),
            None => self.ask(PhaseView::AwaitingHead, RequestView::Head),
        }
    }

    /// The ledger has accepted the first metadata of the store. Where it
    /// acknowledged the position, the store adopts them as read there, and so
    /// begins at that position. Where it did not, the head is asked for in
    /// its place.
    pub open spec fn founded(self, fresh: MetadataView, position: Option<u64>) -> (
        ClientView,
        StepView,
    ) {
        match position {
            Some(height) => self.adopt(fresh.resolved(height)),
            None => self.ask(PhaseView::Confirming { fresh }, RequestView::Head),
        }
    }

    /// A change is in the log: the metadata that it carried become the
    /// store's metadata, and the change is done.
    pub open spec fn committed(self, updated: MetadataView, outcome: OutcomeView) -> (
        ClientView,
        StepView,
    ) {
        (
            ClientView { metadata: Some(updated), phase: PhaseView::Idle, ..self },
            StepView::Done(Ok(outcome)),
        )
    }

    /// The ledger has accepted a submission. Where it acknowledged the
    /// position, the metadata are taken as read there. Where it did not, the
    /// head is asked for in its place, unless nothing in the metadata waits
    /// for a position.
    pub open spec fn accepted(
        self,
        updated: MetadataView,
        outcome: OutcomeView,
        position: Option<u64>,
    ) -> (ClientView, StepView) {
        match position {
            Some(height) => self.committed(updated.resolved(height), outcome),
            None => if updated.is_pending() {
                self.ask(PhaseView::Locating { updated, outcome }, RequestView::Head)
            } else {
                self.committed(updated, outcome)
            },
        }
    }

    /// The positions of the store when the head stands at `head`, most
    /// recent first: from the head down to the start of the store.
    pub open spec fn range(self, head: u64) -> Seq<u64> {
        match self.metadata {
            Some(current) => positions_down(current.start_height, head),
            None => Seq::empty(),
        }
    }

    /// The walk has met no record of the id: a read answers that the record
    /// is not found; an update and a delete fail, for want of the record.
    pub open spec fn missed(self, id: Seq<char>, aim: AimView) -> (ClientView, StepView) {
        match aim {
            AimView::Read => self.finish(OutcomeView::NotFound(id)),
            _ => self.fail(ErrorKind::RecordNotFound, id),
        }
    }

    /// The walk has met the record. A read returns it. An update submits it
    /// with the new payload, stamped `now`, together with the metadata that
    /// point its id at the submission. A delete submits the metadata with
    /// the id among the deleted ones.
    pub open spec fn met(self, record: RecordView, aim: AimView, now: Timestamp) -> (
        ClientView,
        StepView,
    ) {
        match self.metadata {
            None => self.fail(ErrorKind::DatabaseError, not_ready_text()),
            Some(current) => match aim {
                AimView::Read => self.finish(OutcomeView::Found(record)),
                AimView::Update(data) => {
                    let revised = record.updated(data, now);
                    let updated = current.relocate_record(record.id, HERE, now);
                    self.ask(
                        PhaseView::Committing { updated, outcome: OutcomeView::Updated(revised) },
                        RequestView::Submit(
                            seq![BlobView::Record(revised), BlobView::Metadata(updated)],
                        ),
                    )
                },
                AimView::Delete => {
                    let updated = current.buried(record.id, now);
                    self.ask(
                        PhaseView::Committing { updated, outcome: OutcomeView::Deleted(record.id) },
                        RequestView::Submit(seq![BlobView::Metadata(updated)]),
                    )
                },
            },
        }
    }

    /// The walk for a record moves to the next position, or, with the range
    /// exhausted, ends without the record.
    pub open spec fn seek(self, id: Seq<char>, aim: AimView, remaining: Seq<u64>) -> (
        ClientView,
        StepView,
    ) {
        if remaining.len() > 0 {
            self.ask(
                PhaseView::Seeking { id, aim, remaining: remaining.drop_first() },
                RequestView::Fetch(remaining[0]),
            )
        } else {
            self.missed(id, aim)
        }
    }

    /// The walk for a record has a page: the first record of the id on it is
    /// the record; without one the walk goes on.
    pub open spec fn sought(
        self,
        page: Seq<BlobView>,
        id: Seq<char>,
        aim: AimView,
        remaining: Seq<u64>,
        now: Timestamp,
    ) -> (ClientView, StepView) {
        match first_record(page, id) {
            Some(record) => self.met(record, aim, now),
            None => self.seek(id, aim, remaining),
        }
    }

    /// The walk of a listing moves to the next position, or, with the range
    /// exhausted, ends with the records gathered.
    pub open spec fn list_on(self, remaining: Seq<u64>, found: Seq<RecordView>) -> (
        ClientView,
        StepView,
    ) {
        if remaining.len() > 0 {
            self.ask(
                PhaseView::Listing { remaining: remaining.drop_first(), found },
                RequestView::Fetch(remaining[0]),
            )
        } else {
            self.finish(OutcomeView::Listed(found))
        }
    }

    /// The walk of a listing has a page: its records join the records
    /// gathered, but for deleted ids and ids already met.
    pub open spec fn gathered(
        self,
        page: Seq<BlobView>,
        remaining: Seq<u64>,
        found: Seq<RecordView>,
    ) -> (ClientView, StepView) {
        match self.metadata {
            None => self.fail(ErrorKind::DatabaseError, not_ready_text()),
            Some(current) => self.list_on(remaining, absorbed(current, found, page)),
        }
    }

    /// The store after a reply has been handed to it at time `now`, and the
    /// step that the running operation takes.
    pub open spec fn resumed(self, reply: ReplyView, now: Timestamp) -> (ClientView, StepView) {
        match self.phase {
            PhaseView::Idle => self.fail(ErrorKind::DatabaseError, idle_text()),
            PhaseView::ProbingHint { position } => match reply.page() {
                Some(page) => self.probed(page, position),
                None => self.refused(reply),
            },
            PhaseView::AwaitingHead => match reply {
                ReplyView::Head(head) => self.scan(
                    positions_down(window_start(head, self.search_limit), head),
                    now,
                ),
                _ => self.refused(reply),
            },
            PhaseView::Scanning { current, remaining } => match reply.page() {
                Some(page) => self.searched(page, current, remaining, now),
                None => self.refused(reply),
            },
            PhaseView::Founding { fresh } => match reply {
                ReplyView::Submitted(position) => self.founded(fresh, position),
                _ => self.refused(reply),
            },
            PhaseView::Confirming { fresh } => match reply {
                ReplyView::Head(head) => self.adopt(fresh.resolved(head)),
                _ => self.refused(reply),
            },
            PhaseView::Committing { updated, outcome } => match reply {
                ReplyView::Submitted(position) => self.accepted(updated, outcome, position),
                _ => self.refused(reply),
            },
            PhaseView::Locating { updated, outcome } => match reply {
                ReplyView::Head(head) => self.committed(updated.resolved(head), outcome),
                _ => self.refused(reply),
            },
            PhaseView::Ranging { id, aim } => match reply {
                ReplyView::Head(head) => self.seek(id, aim, self.range(head)),
                _ => self.refused(reply),
            },
            PhaseView::Seeking { id, aim, remaining } => match reply.page() {
                Some(page) => self.sought(page, id, aim, remaining, now),
                None => self.refused(reply),
            },
            PhaseView::ListRanging => match reply {
                ReplyView::Head(head) => self.list_on(self.range(head), Seq::empty()),
                _ => self.refused(reply),
            },
            PhaseView::Listing { remaining, found } => match reply.page() {
                Some(page) => self.gathered(page, remaining, found),
                None => self.refused(reply),
            },
        }
    }

    /// An operation cannot start: another one is running. Nothing changes.
    pub open spec fn busy(self) -> (ClientView, StepView) {
        (
            self,
            StepView::Done(Err(ErrorView { kind: ErrorKind::DatabaseError, detail: busy_text() })),
        )
    }

    /// Discovery begins: at the hinted position where the caller gave one,
    /// with the head otherwise. A store that is ready stays as it is.
    pub open spec fn discovering(self) -> (ClientView, StepView) {
        if !(self.phase is Idle) {
            self.busy()
        } else if self.metadata is Some {
            self.finish(OutcomeView::Ready)
        } else {
            match self.hint {
                Some(hint) => self.ask(
                    PhaseView::ProbingHint { position: hint },
                    RequestView::Fetch(hint),
                ),
                None => self.ask(PhaseView::AwaitingHead, RequestView::Head),
            }
        }
    }

    /// An add begins: the record is submitted together with the metadata
    /// that count it and point its id at the submission.
    pub open spec fn adding(self, record: RecordView, now: Timestamp) -> (ClientView, StepView) {
        if !(self.phase is Idle) {
            self.busy()
        } else {
            match self.metadata {
                None => self.fail(ErrorKind::DatabaseError, not_ready_text()),
                Some(current) => if current.record_count == u64::MAX {
                    self.fail(ErrorKind::DatabaseError, exhausted_text())
                } else {
                    let updated = current.add_record(record.id, HERE, now);
                    self.ask(
                        PhaseView::Committing { updated, outcome: OutcomeView::Added(record.id) },
                        RequestView::Submit(
                            seq![BlobView::Record(record), BlobView::Metadata(updated)],
                        ),
                    )
                },
            }
        }
    }

    /// A walk for a record begins with the request for the head. For an id
    /// that is deleted there is nothing to walk for.
    pub open spec fn ranging(self, id: Seq<char>, aim: AimView) -> (ClientView, StepView) {
        if !(self.phase is Idle) {
            self.busy()
        } else {
            match self.metadata {
                None => self.fail(ErrorKind::DatabaseError, not_ready_text()),
                Some(current) => if current.is_deleted(id) {
                    self.missed(id, aim)
                } else {
                    self.ask(PhaseView::Ranging { id, aim }, RequestView::Head)
                },
            }
        }
    }

    /// A read begins: the head is asked for, and the range of the store is
    /// walked from there down for the most recent record of the id. An id
    /// that is deleted is not found, without any request.
    pub open spec fn getting(self, id: Seq<char>) -> (ClientView, StepView) {
        self.ranging(id, AimView::Read)
    }

    /// A listing begins: the head is asked for, and the range of the store is
    /// walked from there down.
    pub open spec fn listing(self) -> (ClientView, StepView) {
        if !(self.phase is Idle) {
            self.busy()
        } else {
            match self.metadata {
                None => self.fail(ErrorKind::DatabaseError, not_ready_text()),
                Some(current) => self.ask(PhaseView::ListRanging, RequestView::Head),
            }
        }
    }

    /// An update begins as a read does: the record must be found. For an id
    /// that is deleted it fails at once.
    pub open spec fn updating(self, id: Seq<char>, data: Seq<u8>) -> (ClientView, StepView) {
        self.ranging(id, AimView::Update(data))
    }

    /// A delete begins as a read does: the record must be found. For an id
    /// that is deleted it fails at once, and nothing changes.
    pub open spec fn deleting(self, id: Seq<char>) -> (ClientView, StepView) {
        self.ranging(id, AimView::Delete)
    }
}

impl View for DatabaseClient {
    type V = ClientView;

    closed spec fn view(&self) -> ClientView {
        ClientView {
            namespace: self.namespace,
            namespace_id: self.namespace_id@,
            hint: self.hint,
            search_limit: self.search_limit,
            metadata: metadata_view(self.metadata),
            phase: self.phase@,
        }
    }
}

/// The page that a reply to a fetch delivers, or the reply itself where it
/// is none to a fetch.
fn fetched(reply: Reply) -> (page: Result<Vec<ClassifiedBlob>, Reply>)
    ensures
        match page {
            Ok(blobs) => reply@.page() == Some(page_of(blobs@)),
            Err(other) => reply@.page() is None && other@ == reply@,
        },
{
    match reply {
        Reply::Blobs(blobs) => Ok(blobs),
        Reply::NoBlobs => {
            let blobs: Vec<ClassifiedBlob> = Vec::new();
            assert(page_of(blobs@) =~= Seq::empty());
            Ok(blobs)
        },
        Reply::Unreachable(_) => {
            let blobs: Vec<ClassifiedBlob> = Vec::new();
            assert(page_of(blobs@) =~= Seq::empty());
            Ok(blobs)
        },
        other => Err(other),
    }
}

/// The submission of metadata alone.
fn single(metadata: DatabaseMetadata) -> (request: Request)
    ensures
        request@ == RequestView::Submit(seq![BlobView::Metadata(metadata@)]),
{
    let mut batch: Vec<Payload> = Vec::new();
    batch.push(Payload::Metadata(metadata));
    assert(batch_of(batch@) =~= seq![BlobView::Metadata(metadata@)]);
    Request::Submit(batch)
}

/// The submission of a record together with metadata.
fn pair(record: Record, metadata: DatabaseMetadata) -> (request: Request)
    ensures
        request@ == RequestView::Submit(
            seq![BlobView::Record(record@), BlobView::Metadata(metadata@)],
        ),
{
    let mut batch: Vec<Payload> = Vec::new();
    batch.push(Payload::Record(record));
    batch.push(Payload::Metadata(metadata));
    assert(batch_of(batch@) =~= seq![BlobView::Record(record@), BlobView::Metadata(metadata@)]);
    Request::Submit(batch)
}

impl DatabaseClient {
    /// A store for the channel with the identifier `namespace_bytes`, not yet
    /// opened. `start_height` is a hint at the position of the store's
    /// metadata, `search_limit` the number of positions below the head that
    /// discovery searches. The identifier must be ten bytes wide.
    pub fn new(namespace_bytes: Vec<u8>, start_height: Option<u64>, search_limit: Option<u64>) -> (made:
        Result<DatabaseClient, DatabaseError>)
        ensures
            made is Ok <==> namespace_bytes@.len() == NAMESPACE_WIDTH,
            made matches Ok(client) ==> client@ == ClientView::initial(
                namespace_bytes@,
                start_height,
                search_limit,
            ),
            made matches Err(error) ==> error@ == (ErrorView {
                kind: ErrorKind::InvalidNamespace,
                detail: width_text(),
            }),
    {
        if namespace_bytes.len() != NAMESPACE_WIDTH {
            return Err(
                DatabaseError::InvalidNamespace(
                    String::from_str("Namespace must be exactly 10 bytes"),
                ),
            );
        }
        DatabaseClient::with_width(namespace_bytes, NAMESPACE_WIDTH, start_height, search_limit)
    }

    /// A store as [`DatabaseClient::new`] makes it, for a deployment whose
    /// channel identifiers are `width` bytes wide. The identifier must have
    /// that width, and the ledger must take it for a namespace of version 0.
    pub fn with_width(
        namespace_bytes: Vec<u8>,
        width: usize,
        start_height: Option<u64>,
        search_limit: Option<u64>,
    ) -> (made: Result<DatabaseClient, DatabaseError>)
        ensures
            made is Ok <==> namespace_bytes@.len() == width && namespace_accepted(
                0,
                namespace_bytes@,
            ),
            made matches Ok(client) ==> client@ == ClientView::initial(
                namespace_bytes@,
                start_height,
                search_limit,
            ),
            made matches Err(error) ==> error@.kind == ErrorKind::InvalidNamespace && (
            namespace_bytes@.len() != width ==> error@.detail == configured_width_text()),
    {
        if namespace_bytes.len() != width {
            return Err(
                DatabaseError::InvalidNamespace(
                    String::from_str("Namespace does not have the configured width"),
                ),
            );
        }
        match Namespace::new(0, namespace_bytes.as_slice()) {
            Ok(namespace) => Ok(
                DatabaseClient {
                    namespace,
                    namespace_id: namespace_bytes,
                    hint: start_height,
                    search_limit,
                    metadata: None,
                    phase: Phase::Idle,
                },
            ),
            Err(error) => Err(DatabaseError::InvalidNamespace(namespace_error_text(&error))),
        }
    }

    /// The ledger's namespace of the channel: the one that was built from
    /// the channel's identifier when the store was made.
    pub fn namespace(&self) -> (namespace: &Namespace)
        ensures
            *namespace == self@.namespace,
    {
        &self.namespace
    }

    /// The identifier of the channel.
    pub fn namespace_id(&self) -> (id: &Vec<u8>)
        ensures
            id@ == self@.namespace_id,
    {
        &self.namespace_id
    }

    /// How far below the head discovery searches, where the caller set it.
    pub fn search_limit(&self) -> (limit: Option<u64>)
        ensures
            limit == self@.search_limit,
    {
        self.search_limit
    }

    /// The store's metadata; `None` until the store is ready.
    pub fn metadata(&self) -> (metadata: &Option<DatabaseMetadata>)
        ensures
            metadata_view(*metadata) == self@.metadata,
    {
        &self.metadata
    }

    /// Whether the store is ready.
    pub fn is_ready(&self) -> (ready: bool)
        ensures
            ready == self@.is_ready(),
    {
        self.metadata.is_some()
    }

    /// Whether no operation is running.
    pub fn is_idle(&self) -> (idle: bool)
        ensures
            idle == (self@.phase is Idle),
    {
        match self.phase {
            Phase::Idle => true,
            _ => false,
        }
    }

    fn busy() -> (step: Step)
        ensures
            step@ == StepView::Done(
                Err(ErrorView { kind: ErrorKind::DatabaseError, detail: busy_text() }),
            ),
    {
        Step::Done(
            Err(DatabaseError::DatabaseError(String::from_str("an operation is already in progress"))),
        )
    }

    fn not_ready() -> (step: Step)
        ensures
            step@ == StepView::Done(
                Err(ErrorView { kind: ErrorKind::DatabaseError, detail: not_ready_text() }),
            ),
    {
        Step::Done(
            Err(DatabaseError::DatabaseError(String::from_str("the store has not been opened"))),
        )
    }

    fn exhausted() -> (step: Step)
        ensures
            step@ == StepView::Done(
                Err(ErrorView { kind: ErrorKind::DatabaseError, detail: exhausted_text() }),
            ),
    {
        Step::Done(
            Err(DatabaseError::DatabaseError(String::from_str("the record count cannot grow"))),
        )
    }

    fn refuse(reply: Reply) -> (step: Step)
        ensures
            step@ == match reply@ {
                ReplyView::Unreachable(text) => StepView::Done(
                    Err(ErrorView { kind: ErrorKind::CelestiaError, detail: text }),
                ),
                ReplyView::Rejected(text) => StepView::Done(
                    Err(ErrorView { kind: ErrorKind::SubmissionRejected, detail: text }),
                ),
                ReplyView::NotEncoded(text) => StepView::Done(
                    Err(ErrorView { kind: ErrorKind::SerializationError, detail: text }),
                ),
                _ => StepView::Done(
                    Err(ErrorView { kind: ErrorKind::DatabaseError, detail: unexpected_text() }),
                ),
            },
    {
        match reply {
            Reply::Unreachable(text) => Step::Done(Err(DatabaseError::CelestiaError(text))),
            Reply::Rejected(text) => Step::Done(Err(DatabaseError::SubmissionRejected(text))),
            Reply::NotEncoded(text) => Step::Done(Err(DatabaseError::SerializationError(text))),
            _ => Step::Done(
                Err(
                    DatabaseError::DatabaseError(
                        String::from_str("the reply does not answer the pending request"),
                    ),
                ),
            ),
        }
    }

    fn adopt_from(&mut self, metadata: DatabaseMetadata, position: u64) -> (step: Step)
        requires
            old(self)@.phase is Idle,
        ensures
            (final(self)@, step@) == old(self)@.adopt(metadata@.resolved(position)),
    {
        let mut metadata = metadata;
        metadata.resolve(position);
        self.metadata = Some(metadata);
        Step::Done(Ok(Outcome::Ready))
    }

    fn commit(&mut self, updated: DatabaseMetadata, outcome: Outcome) -> (step: Step)
        requires
            old(self)@.phase is Idle,
        ensures
            (final(self)@, step@) == old(self)@.committed(updated@, outcome@),
    {
        self.metadata = Some(updated);
        Step::Done(Ok(outcome))
    }

    fn accept(&mut self, updated: DatabaseMetadata, outcome: Outcome, position: Option<u64>) -> (step:
        Step)
        requires
            old(self)@.phase is Idle,
        ensures
            (final(self)@, step@) == old(self)@.accepted(updated@, outcome@, position),
    {
        let mut updated = updated;
        match position {
            Some(height) => {
                updated.resolve(height);
                self.commit(updated, outcome)
            },
            None => {
                if updated.is_pending() {
                    self.phase = Phase::Locating(updated, outcome);
                    Step::Ask(Request::Head)
                } else {
                    self.commit(updated, outcome)
                }
            },
        }
    }

    fn found(&mut self, now: Timestamp) -> (step: Step)
        requires
            old(self)@.phase is Idle,
        ensures
            (final(self)@, step@) == old(self)@.found(now),
    {
        let fresh = DatabaseMetadata::anchored(HERE, now);
        let request = single(fresh.clone());
        self.phase = Phase::Founding(fresh);
        Step::Ask(request)
    }

    fn scan(&mut self, scanner: RangeScanner, now: Timestamp) -> (step: Step)
        requires
            old(self)@.phase is Idle,
        ensures
            (final(self)@, step@) == old(self)@.scan(scanner@, now),
    {
        let mut scanner = scanner;
        match scanner.next_position() {
            Some(position) => {
                self.phase = Phase::Scanning(position, scanner);
                Step::Ask(Request::Fetch(position))
            },
            None => self.found(now),
        }
    }

    fn range(&self, head: u64) -> (scanner: RangeScanner)
        ensures
            scanner@ == self@.range(head),
    {
        match &self.metadata {
            Some(current) => RangeScanner::descending(current.start_height(), head),
            None => RangeScanner::descending(1, 0),
        }
    }

    fn missed(id: String, aim: Aim) -> (step: Step)
        ensures
            step@ == match aim@ {
                AimView::Read => StepView::Done(Ok(OutcomeView::NotFound(id@))),
                _ => StepView::Done(
                    Err(ErrorView { kind: ErrorKind::RecordNotFound, detail: id@ }),
                ),
            },
    {
        match aim {
            Aim::Read => Step::Done(Ok(Outcome::NotFound(id))),
            _ => Step::Done(Err(DatabaseError::RecordNotFound(id))),
        }
    }

    fn met(&mut self, record: Record, aim: Aim, now: Timestamp) -> (step: Step)
        requires
            old(self)@.phase is Idle,
        ensures
            (final(self)@, step@) == old(self)@.met(record@, aim@, now),
    {
        match &self.metadata {
            None => Self::not_ready(),
            Some(current) => match aim {
                Aim::Read => Step::Done(Ok(Outcome::Found(record))),
                Aim::Update(data) => {
                    let mut updated = current.clone();
                    updated.relocate_record_at(record.id.as_str(), HERE, now);
                    let mut revised = record;
                    revised.update_at(data, now);
                    let request = pair(revised.clone(), updated.clone());
                    self.phase = Phase::Committing(updated, Outcome::Updated(revised));
                    Step::Ask(request)
                },
                Aim::Delete => {
                    let mut updated = current.clone();
                    updated.bury_record_at(record.id.as_str(), now);
                    let request = single(updated.clone());
                    self.phase = Phase::Committing(updated, Outcome::Deleted(record.id));
                    Step::Ask(request)
                },
            },
        }
    }

    fn seek(&mut self, id: String, aim: Aim, scanner: RangeScanner) -> (step: Step)
        requires
            old(self)@.phase is Idle,
        ensures
            (final(self)@, step@) == old(self)@.seek(id@, aim@, scanner@),
    {
        let mut scanner = scanner;
        match scanner.next_position() {
            Some(position) => {
                self.phase = Phase::Seeking(id, aim, scanner);
                Step::Ask(Request::Fetch(position))
            },
            None => Self::missed(id, aim),
        }
    }

    fn list_on(&mut self, scanner: RangeScanner, found: Vec<Record>) -> (step: Step)
        requires
            old(self)@.phase is Idle,
        ensures
            (final(self)@, step@) == old(self)@.list_on(scanner@, records_of(found@)),
    {
        let mut scanner = scanner;
        match scanner.next_position() {
            Some(position) => {
                self.phase = Phase::Listing(scanner, found);
                Step::Ask(Request::Fetch(position))
            },
            None => Step::Done(Ok(Outcome::Listed(found))),
        }
    }

    fn gather(&mut self, page: Vec<ClassifiedBlob>, scanner: RangeScanner, found: Vec<Record>) -> (step:
        Step)
        requires
            old(self)@.phase is Idle,
        ensures
            (final(self)@, step@) == old(self)@.gathered(
                page_of(page@),
                scanner@,
                records_of(found@),
            ),
    {
        match &self.metadata {
            None => Self::not_ready(),
            Some(current) => {
                let grown = absorb_page(current, found, &page);
                self.list_on(scanner, grown)
            },
        }
    }

    fn begin(&mut self, key: &str, aim: Aim) -> (step: Step)
        ensures
            (final(self)@, step@) == old(self)@.ranging(key@, aim@),
    {
        if !self.is_idle() {
            return Self::busy();
        }
        match &self.metadata {
            None => Self::not_ready(),
            Some(current) => {
                if current.is_deleted(key) {
                    Self::missed(key.to_owned(), aim)
                } else {
                    self.phase = Phase::Ranging(key.to_owned(), aim);
                    Step::Ask(Request::Head)
                }
            },
        }
    }

    /// Begins the discovery of the store: the search for its metadata in the
    /// log, and, where there is none, its creation. On a store that is ready
    /// this is done at once.
    pub fn discover(&mut self) -> (step: Step)
        ensures
            (final(self)@, step@) == old(self)@.discovering(),
    {
        if !self.is_idle() {
            return Self::busy();
        }
        if self.metadata.is_some() {
            return Step::Done(Ok(Outcome::Ready));
        }
        match self.hint {
            Some(hint) => {
                self.phase = Phase::ProbingHint(hint);
                Step::Ask(Request::Fetch(hint))
            },
            None => {
                self.phase = Phase::AwaitingHead;
                Step::Ask(Request::Head)
            },
        }
    }

    /// Begins to add a record to the store, at time `now`.
    pub fn add_record_at(&mut self, record: Record, now: Timestamp) -> (step: Step)
        ensures
            (final(self)@, step@) == old(self)@.adding(record@, now),
    {
        if !self.is_idle() {
            return Self::busy();
        }
        match &self.metadata {
            None => Self::not_ready(),
            Some(current) => {
                if current.record_count() == u64::MAX {
                    return Self::exhausted();
                }
                let id = record.id.clone();
                let mut updated = current.clone();
                updated.add_record_at(record.id.clone(), HERE, now);
                let request = pair(record, updated.clone());
                self.phase = Phase::Committing(updated, Outcome::Added(id));
                Step::Ask(request)
            },
        }
    }

    /// Begins to add a record to the store, at the current time.
    pub fn add_record(&mut self, record: Record) -> (step: Step)
        ensures
            exists|now: Timestamp| (final(self)@, step@) == old(self)@.adding(record@, now),
    {
        let now = utc_now();
        self.add_record_at(record, now)
    }

    /// Begins to read the record with the id `key`: the most recent record
    /// of that id in the range of the store.
    pub fn get_record(&mut self, key: &str) -> (step: Step)
        ensures
            (final(self)@, step@) == old(self)@.getting(key@),
    {
        self.begin(key, Aim::Read)
    }

    /// Begins to list the records of the store: for each id in the range of
    /// the store that is not deleted its most recent record.
    pub fn list_records(&mut self) -> (step: Step)
        ensures
            (final(self)@, step@) == old(self)@.listing(),
    {
        if !self.is_idle() {
            return Self::busy();
        }
        match &self.metadata {
            None => Self::not_ready(),
            Some(_) => {
                self.phase = Phase::ListRanging;
                Step::Ask(Request::Head)
            },
        }
    }

    /// Begins to replace the payload of the record with the id `key`.
    pub fn update_record(&mut self, key: &str, data: Vec<u8>) -> (step: Step)
        ensures
            (final(self)@, step@) == old(self)@.updating(key@, data@),
    {
        self.begin(key, Aim::Update(data))
    }

    /// Begins to delete the record with the id `key`.
    pub fn delete_record(&mut self, key: &str) -> (step: Step)
        ensures
            (final(self)@, step@) == old(self)@.deleting(key@),
    {
        self.begin(key, Aim::Delete)
    }

    /// Hands the reply to the pending request to the store, at time `now`,
    /// and returns the next step of the running operation.
    pub fn resume_at(&mut self, reply: Reply, now: Timestamp) -> (step: Step)
        ensures
            (final(self)@, step@) == old(self)@.resumed(reply@, now),
    {
        let mut phase = Phase::Idle;
        core::mem::swap(&mut self.phase, &mut phase);
        match phase {
            Phase::Idle => Step::Done(
                Err(DatabaseError::DatabaseError(String::from_str("no request is pending"))),
            ),
            Phase::ProbingHint(position) => match fetched(reply) {
                Ok(page) => match find_metadata(&page) {
                    Some(metadata) => self.adopt_from(metadata, position),
                    None => {
                        self.phase = Phase::AwaitingHead;
                        Step::Ask(Request::Head)
                    },
                },
                Err(other) => Self::refuse(other),
            },
            Phase::AwaitingHead => match reply {
                Reply::Head(head) => {
                    let low = search_window_start(head, self.search_limit);
                    self.scan(RangeScanner::descending(low, head), now)
                },
                other => Self::refuse(other),
            },
            Phase::Scanning(current, scanner) => match fetched(reply) {
                Ok(page) => match find_metadata(&page) {
                    Some(metadata) => self.adopt_from(metadata, current),
                    None => self.scan(scanner, now),
                },
                Err(other) => Self::refuse(other),
            },
            Phase::Founding(fresh) => match reply {
                Reply::Submitted(Some(height)) => self.adopt_from(fresh, height),
                Reply::Submitted(None) => {
                    self.phase = Phase::Confirming(fresh);
                    Step::Ask(Request::Head)
                },
                other => Self::refuse(other),
            },
            Phase::Confirming(fresh) => match reply {
                Reply::Head(head) => self.adopt_from(fresh, head),
                other => Self::refuse(other),
            },
            Phase::Committing(updated, outcome) => match reply {
                Reply::Submitted(position) => self.accept(updated, outcome, position),
                other => Self::refuse(other),
            },
            Phase::Locating(updated, outcome) => match reply {
                Reply::Head(head) => {
                    let mut updated = updated;
                    updated.resolve(head);
                    self.commit(updated, outcome)
                },
                other => Self::refuse(other),
            },
            Phase::Ranging(id, aim) => match reply {
                Reply::Head(head) => {
                    let scanner = self.range(head);
                    self.seek(id, aim, scanner)
                },
                other => Self::refuse(other),
            },
            Phase::Seeking(id, aim, scanner) => match fetched(reply) {
                Ok(page) => match find_record(&page, &id) {
                    Some(record) => self.met(record, aim, now),
                    None => self.seek(id, aim, scanner),
                },
                Err(other) => Self::refuse(other),
            },
            Phase::ListRanging => match reply {
                Reply::Head(head) => {
                    let scanner = self.range(head);
                    let found: Vec<Record> = Vec::new();
                    assert(records_of(found@) =~= Seq::empty());
                    self.list_on(scanner, found)
                },
                other => Self::refuse(other),
            },
            Phase::Listing(scanner, found) => match fetched(reply) {
                Ok(page) => self.gather(page, scanner, found),
                Err(other) => Self::refuse(other),
            },
        }
    }

    /// Hands the reply to the pending request to the store and returns the
    /// next step of the running operation. Metadata and records that the
    /// step writes are stamped with the current time.
    pub fn resume(&mut self, reply: Reply) -> (step: Step)
        ensures
            exists|now: Timestamp| (final(self)@, step@) == old(self)@.resumed(reply@, now),
    {
        let now = utc_now();
        self.resume_at(reply, now)
    }
}

} // verus!
