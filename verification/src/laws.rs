//! What holds of the store over whole operations and over every state that
//! it can reach.
//!
//! The log is modelled as a map from position to the page of classified
//! blobs at that position. A position that is not in the map holds nothing
//! for the channel, or cannot be fetched: the store treats both alike.

use crate::blob::{
    absorbed, first_metadata, first_record, has_id, is_first_record, is_record_of,
    lemma_first_record_at, lemma_first_record_has_id, BlobView,
};
use crate::database::{AimView, ClientView, PhaseView};
use crate::error::{ErrorKind, ErrorView};
use crate::metadata::{
    lemma_add_record, lemma_buried, lemma_relocate_record, lemma_resolved, MetadataView, HERE,
};
use crate::protocol::{OutcomeView, ReplyView, RequestView, StepView};
use crate::record::{RecordView, Timestamp};
use crate::scanner::positions_down;
use crate::window::window_start;
use vstd::prelude::*;

verus! {

/// The page that the log holds at a position.
pub open spec fn page_at(log: Map<u64, Seq<BlobView>>, position: u64) -> Seq<BlobView> {
    if log.dom().contains(position) {
        log[position]
    } else {
        Seq::empty()
    }
}

/// How the ledger answers a fetch at a position.
pub open spec fn fetch(log: Map<u64, Seq<BlobView>>, position: u64) -> ReplyView {
    if log.dom().contains(position) {
        ReplyView::Blobs(log[position])
    } else {
        ReplyView::NoBlobs
    }
}

/// The log after a batch of blobs was included at a position, behind what
/// the position held before.
pub open spec fn submitted(log: Map<u64, Seq<BlobView>>, position: u64, batch: Seq<BlobView>)
    -> Map<u64, Seq<BlobView>> {
    log.insert(position, page_at(log, position) + batch)
}

/// Every metadata blob of the page is valid.
pub open spec fn page_wf(page: Seq<BlobView>) -> bool {
    forall|i: int| 0 <= i < page.len() && (#[trigger] page[i]) is Metadata ==> page[i]->Metadata_0.wf()
}

/// A reply as the store receives it: the metadata on a page of blobs is
/// valid.
pub open spec fn reply_wf(reply: ReplyView) -> bool {
    reply matches ReplyView::Blobs(page) ==> page_wf(page)
}

/// The metadata that the log holds at a position, as read there: the first
/// on the page.
pub open spec fn metadata_at(log: Map<u64, Seq<BlobView>>, position: u64) -> Option<MetadataView> {
    match first_metadata(page_at(log, position)) {
        Some(metadata) => Some(metadata.resolved(position)),
        None => None,
    }
}

/// The first metadata that a walk over the given positions meets.
pub open spec fn first_on_walk(log: Map<u64, Seq<BlobView>>, positions: Seq<u64>) -> Option<
    MetadataView,
>
    decreases positions.len(),
{
    if positions.len() == 0 {
        None
    } else {
        match metadata_at(log, positions[0]) {
            Some(metadata) => Some(metadata),
            None => first_on_walk(log, positions.drop_first()),
        }
    }
}

/// The metadata of the store that a log holds for a caller with the given
/// hint and search limit, when the head stands at `head`: what is at the
/// hinted position, else the most recent metadata in the search window.
pub open spec fn existing_store(
    log: Map<u64, Seq<BlobView>>,
    hint: Option<u64>,
    search_limit: Option<u64>,
    head: u64,
) -> Option<MetadataView> {
    let in_window = first_on_walk(log, positions_down(window_start(head, search_limit), head));
    match hint {
        Some(position) => match metadata_at(log, position) {
            Some(metadata) => Some(metadata),
            None => in_window,
        },
        None => in_window,
    }
}

/// The most recent record of an id that a walk over the given positions
/// meets: the first record of the id on the first page that has one.
pub open spec fn newest_on_walk(log: Map<u64, Seq<BlobView>>, positions: Seq<u64>, id: Seq<char>)
    -> Option<RecordView>
    decreases positions.len(),
{
    if positions.len() == 0 {
        None
    } else {
        match first_record(page_at(log, positions[0]), id) {
            Some(record) => Some(record),
            None => newest_on_walk(log, positions.drop_first(), id),
        }
    }
}

/// The records that a walk over the given positions gathers, beginning with
/// `found`: page by page, each record joins unless its id is deleted or
/// was met before.
pub open spec fn gathered_on_walk(
    m: MetadataView,
    log: Map<u64, Seq<BlobView>>,
    positions: Seq<u64>,
    found: Seq<RecordView>,
) -> Seq<RecordView>
    decreases positions.len(),
{
    if positions.len() == 0 {
        found
    } else {
        gathered_on_walk(
            m,
            log,
            positions.drop_first(),
            absorbed(m, found, page_at(log, positions[0])),
        )
    }
}

/// No two of the records share an id.
pub open spec fn distinct_record_ids(records: Seq<RecordView>) -> bool {
    forall|a: int, b: int|
        0 <= a < b < records.len() ==> (#[trigger] records[a]).id != (#[trigger] records[b]).id
}

/// What holds of the records that a listing has gathered: no two share an
/// id, and none has an id that is deleted.
pub open spec fn gathered_ok(m: MetadataView, found: Seq<RecordView>) -> bool {
    &&& distinct_record_ids(found)
    &&& forall|k: int| 0 <= k < found.len() ==> !m.is_deleted((#[trigger] found[k]).id)
}

/// The metadata `next` continue `prev`: the store begins where it began,
/// once that is settled, and never earlier; and what was deleted is deleted.
pub open spec fn continues(prev: MetadataView, next: MetadataView) -> bool {
    &&& prev.start_height != HERE ==> next.start_height == prev.start_height
    &&& next.start_height >= prev.start_height
    &&& forall|id: Seq<char>| prev.is_deleted(id) ==> #[trigger] next.is_deleted(id)
}

impl ClientView {
    /// What holds of every state that the store can reach.
    pub open spec fn consistent(self) -> bool {
        &&& self.metadata matches Some(m) ==> m.wf()
        &&& match self.phase {
            PhaseView::Idle => true,
            PhaseView::ProbingHint { position } => self.metadata is None,
            PhaseView::AwaitingHead => self.metadata is None,
            PhaseView::Scanning { current, remaining } => self.metadata is None,
            PhaseView::Founding { fresh } => {
                &&& self.metadata is None
                &&& fresh == MetadataView::empty(HERE, fresh.last_updated)
            },
            PhaseView::Confirming { fresh } => {
                &&& self.metadata is None
                &&& fresh == MetadataView::empty(HERE, fresh.last_updated)
            },
            PhaseView::Committing { updated, outcome } => {
                &&& self.metadata is Some
                &&& updated.wf()
                &&& continues(self.metadata->0, updated)
                &&& !(outcome is Listed)
            },
            PhaseView::Locating { updated, outcome } => {
                &&& self.metadata is Some
                &&& updated.wf()
                &&& continues(self.metadata->0, updated)
                &&& !(outcome is Listed)
            },
            PhaseView::Ranging { id, aim } => self.metadata is Some,
            PhaseView::Seeking { id, aim, remaining } => self.metadata is Some,
            PhaseView::ListRanging => self.metadata is Some,
            PhaseView::Listing { remaining, found } => {
                &&& self.metadata is Some
                &&& gathered_ok(self.metadata->0, found)
            },
        }
    }
}

/// A store is consistent when it is made.
pub proof fn initial_is_consistent(
    namespace_id: Seq<u8>,
    hint: Option<u64>,
    search_limit: Option<u64>,
)
    ensures
        ClientView::initial(namespace_id, hint, search_limit).consistent(),
{
}

proof fn lemma_continues_resolved(prev: MetadataView, next: MetadataView, position: u64)
    requires
        next.wf(),
        continues(prev, next),
    ensures
        next.resolved(position).wf(),
        continues(prev, next.resolved(position)),
{
    lemma_resolved(next, position);
    assert forall|id: Seq<char>| prev.is_deleted(id) implies #[trigger] next.resolved(
        position,
    ).is_deleted(id) by {
        assert(next.is_deleted(id));
    }
}

proof fn lemma_first_metadata_wf(page: Seq<BlobView>)
    requires
        page_wf(page) || page.len() == 0,
    ensures
        first_metadata(page) matches Some(m) ==> m.wf(),
{
    if exists|i: int| crate::blob::is_first_metadata(page, i) {
        let k = choose|k: int| crate::blob::is_first_metadata(page, k);
        assert(page[k] is Metadata);
    }
}

/// A page that joins the records gathered leaves them without a repeated
/// id and without a deleted id.
pub proof fn lemma_absorbed(m: MetadataView, found: Seq<RecordView>, page: Seq<BlobView>)
    requires
        gathered_ok(m, found),
    ensures
        gathered_ok(m, absorbed(m, found, page)),
        forall|k: int| 0 <= k < found.len() ==> absorbed(m, found, page).len() >= found.len()
            && #[trigger] absorbed(m, found, page)[k] == found[k],
        absorbed(m, found, page).len() >= found.len(),
    decreases page.len(),
{
    if page.len() > 0 {
        lemma_absorbed(m, found, page.drop_last());
        let before = absorbed(m, found, page.drop_last());
        if let BlobView::Record(r) = page.last() {
            if !(m.is_deleted(r.id) || has_id(before, r.id)) {
                let after = before.push(r);
                assert forall|a: int, b: int| 0 <= a < b < after.len() implies (
                #[trigger] after[a]).id != (#[trigger] after[b]).id by {
                    if b == before.len() {
                        assert(before[a].id != r.id);
                    } else {
                        assert(before[a].id != before[b].id);
                    }
                }
                assert forall|k: int| 0 <= k < after.len() implies !m.is_deleted(
                    (#[trigger] after[k]).id,
                ) by {
                    if k < before.len() {
                        assert(!m.is_deleted(before[k].id));
                    }
                }
            }
        }
    }
}

/// Whatever reply the store is handed, it stays consistent; once it has
/// metadata, it keeps the position at which the store begins and every id
/// that was deleted stays deleted.
pub proof fn resume_keeps_consistent(c: ClientView, reply: ReplyView, now: Timestamp)
    requires
        c.consistent(),
        reply_wf(reply),
    ensures
        c.resumed(reply, now).0.consistent(),
        c.metadata matches Some(m) ==> c.resumed(reply, now).0.metadata is Some && continues(
            m,
            c.resumed(reply, now).0.metadata->0,
        ),
{
    match c.phase {
        PhaseView::ProbingHint { position } => {
            if let Some(page) = reply.page() {
                lemma_first_metadata_wf(page);
                if let Some(metadata) = first_metadata(page) {
                    lemma_resolved(metadata, position);
                }
            }
        },
        PhaseView::Scanning { current, remaining } => {
            if let Some(page) = reply.page() {
                lemma_first_metadata_wf(page);
                if let Some(metadata) = first_metadata(page) {
                    lemma_resolved(metadata, current);
                }
            }
        },
        PhaseView::Founding { fresh } => {
            if let ReplyView::Submitted(Some(height)) = reply {
                lemma_resolved(fresh, height);
            }
        },
        PhaseView::Confirming { fresh } => {
            if let ReplyView::Head(head) = reply {
                lemma_resolved(fresh, head);
            }
        },
        PhaseView::Committing { updated, outcome } => {
            if let ReplyView::Submitted(Some(height)) = reply {
                lemma_continues_resolved(c.metadata->0, updated, height);
            }
        },
        PhaseView::Locating { updated, outcome } => {
            if let ReplyView::Head(head) = reply {
                lemma_continues_resolved(c.metadata->0, updated, head);
            }
        },
        PhaseView::Seeking { id, aim, remaining } => {
            if let Some(page) = reply.page() {
                if let Some(record) = first_record(page, id) {
                    lemma_met(c, record, aim, now);
                }
            }
        },
        PhaseView::Listing { remaining, found } => {
            if let Some(page) = reply.page() {
                lemma_absorbed(c.metadata->0, found, page);
            }
        },
        _ => {},
    }
}

proof fn lemma_met(c: ClientView, record: RecordView, aim: AimView, now: Timestamp)
    requires
        c.metadata matches Some(m) && m.wf(),
    ensures
        c.met(record, aim, now).0.consistent(),
        c.met(record, aim, now).0.metadata == c.metadata,
        !(c.met(record, aim, now).1 matches StepView::Done(Ok(OutcomeView::Listed(_)))),
{
    let m = c.metadata->0;
    match aim {
        AimView::Read => {},
        AimView::Update(data) => {
            if m.indexes(record.id) {
                lemma_relocate_record(m, record.id, HERE, now);
            }
        },
        AimView::Delete => {
            lemma_buried(m, record.id, now);
        },
    }
}

/// A listing that ends holds no id twice and no id that is deleted.
pub proof fn listing_has_distinct_live_ids(c: ClientView, reply: ReplyView, now: Timestamp)
    requires
        c.consistent(),
        reply_wf(reply),
    ensures
        c.resumed(reply, now).1 matches StepView::Done(Ok(OutcomeView::Listed(records))) ==> {
            &&& c.metadata is Some
            &&& distinct_record_ids(records)
            &&& forall|k: int|
                0 <= k < records.len() ==> !c.metadata->0.is_deleted((#[trigger] records[k]).id)
        },
{
    match c.phase {
        PhaseView::Seeking { id, aim, remaining } => {
            if let Some(page) = reply.page() {
                if let Some(record) = first_record(page, id) {
                    lemma_met(c, record, aim, now);
                }
            }
        },
        PhaseView::Listing { remaining, found } => {
            if let Some(page) = reply.page() {
                lemma_absorbed(c.metadata->0, found, page);
            }
        },
        _ => {},
    }
}

/// A submission that the ledger refuses, a head that cannot be read and a
/// payload that cannot be encoded end the running operation with their
/// failure, and the store's metadata stay as they were. A position that
/// cannot be fetched ends nothing: it counts as a position without blobs.
pub proof fn failed_reply_changes_nothing(c: ClientView, text: Seq<char>, now: Timestamp)
    requires
        !(c.phase is Idle),
    ensures
        c.resumed(ReplyView::Rejected(text), now) == c.fail(ErrorKind::SubmissionRejected, text),
        c.resumed(ReplyView::NotEncoded(text), now) == c.fail(ErrorKind::SerializationError, text),
        c.resumed(ReplyView::Unreachable(text), now) == if ReplyView::Unreachable(text).page()
            is Some && (c.phase is ProbingHint || c.phase is Scanning || c.phase is Seeking
            || c.phase is Listing) {
            c.resumed(ReplyView::NoBlobs, now)
        } else {
            c.fail(ErrorKind::CelestiaError, text)
        },
        c.fail(ErrorKind::SubmissionRejected, text).0.metadata == c.metadata,
        c.fail(ErrorKind::SubmissionRejected, text).0.phase is Idle,
{
}

/// What can happen to a store: an operation is started, or a reply is
/// handed to it.
pub enum Event {
    Discover,
    Add(RecordView, Timestamp),
    Get(Seq<char>),
    List,
    Update(Seq<char>, Seq<u8>),
    Delete(Seq<char>),
    Reply(ReplyView, Timestamp),
}

/// The store after an event, and the step that the store answers with.
pub open spec fn after_event(c: ClientView, event: Event) -> (ClientView, StepView) {
    match event {
        Event::Discover => c.discovering(),
        Event::Add(record, now) => c.adding(record, now),
        Event::Get(id) => c.getting(id),
        Event::List => c.listing(),
        Event::Update(id, data) => c.updating(id, data),
        Event::Delete(id) => c.deleting(id),
        Event::Reply(reply, now) => c.resumed(reply, now),
    }
}

/// The store after a sequence of events.
pub open spec fn after_events(c: ClientView, events: Seq<Event>) -> ClientView
    decreases events.len(),
{
    if events.len() == 0 {
        c
    } else {
        after_event(after_events(c, events.drop_last()), events.last()).0
    }
}

/// The replies among the events are such as the store receives them.
pub open spec fn events_wf(events: Seq<Event>) -> bool {
    forall|i: int|
        0 <= i < events.len() ==> ((#[trigger] events[i]) matches Event::Reply(reply, _)
            ==> reply_wf(reply))
}

/// One event keeps a store consistent. A store that has metadata keeps the
/// position at which it begins and all that it has deleted; the start of an
/// operation leaves the metadata as they are; no event changes the channel.
pub proof fn event_keeps_consistent(c: ClientView, event: Event)
    requires
        c.consistent(),
        event matches Event::Reply(reply, _) ==> reply_wf(reply),
    ensures
        after_event(c, event).0.consistent(),
        c.metadata matches Some(m) ==> after_event(c, event).0.metadata is Some && continues(
            m,
            after_event(c, event).0.metadata->0,
        ),
        !(event is Reply) ==> after_event(c, event).0.metadata == c.metadata,
        after_event(c, event).0.namespace == c.namespace,
        after_event(c, event).0.namespace_id == c.namespace_id,
        after_event(c, event).0.hint == c.hint,
        after_event(c, event).0.search_limit == c.search_limit,
{
    if let Event::Reply(reply, now) = event {
        resume_keeps_consistent(c, reply, now);
    } else if c.phase is Idle {
        if let Some(m) = c.metadata {
            if let Event::Add(record, now) = event {
                if m.record_count < u64::MAX {
                    lemma_add_record(m, record.id, HERE, now);
                }
            }
        }
    }
}

proof fn lemma_continues_chain(a: MetadataView, b: MetadataView, c: MetadataView)
    requires
        continues(a, b),
        continues(b, c),
    ensures
        continues(a, c),
{
    assert forall|id: Seq<char>| a.is_deleted(id) implies #[trigger] c.is_deleted(id) by {
        assert(b.is_deleted(id));
    }
}

/// Whatever happens to a store that is ready, in whatever order: it stays
/// consistent and ready, the position at which it begins never moves once
/// it is settled, an id that is deleted stays deleted, and the store stays
/// in its channel.
pub proof fn store_keeps_its_start_and_its_deletions(c: ClientView, events: Seq<Event>)
    requires
        c.consistent(),
        c.metadata is Some,
        events_wf(events),
    ensures
        after_events(c, events).consistent(),
        after_events(c, events).metadata is Some,
        continues(c.metadata->0, after_events(c, events).metadata->0),
        after_events(c, events).namespace == c.namespace,
        after_events(c, events).namespace_id == c.namespace_id,
    decreases events.len(),
{
    if events.len() > 0 {
        let earlier = events.drop_last();
        assert forall|i: int| 0 <= i < earlier.len() implies ((
        #[trigger] earlier[i]) matches Event::Reply(reply, _) ==> reply_wf(reply)) by {
            assert(earlier[i] == events[i]);
        }
        store_keeps_its_start_and_its_deletions(c, earlier);
        let before = after_events(c, earlier);
        assert(events.last() == events[events.len() - 1]);
        event_keeps_consistent(before, events.last());
        lemma_continues_chain(
            c.metadata->0,
            before.metadata->0,
            after_events(c, events).metadata->0,
        );
    }
}

/// An id that was deleted never comes back: after any sequence of events, a
/// read of it finds nothing, without any request, and no listing that ends
/// holds it.
pub proof fn deleted_id_never_returns(
    c: ClientView,
    events: Seq<Event>,
    id: Seq<char>,
    reply: ReplyView,
    now: Timestamp,
)
    requires
        c.consistent(),
        c.metadata matches Some(m) && m.is_deleted(id),
        events_wf(events),
        reply_wf(reply),
    ensures
        ({
            let later = after_events(c, events);
            &&& later.metadata matches Some(m) && m.is_deleted(id)
            &&& later.phase is Idle ==> later.getting(id).1 == StepView::Done(
                Ok(OutcomeView::NotFound(id)),
            )
            &&& later.resumed(reply, now).1 matches StepView::Done(
                Ok(OutcomeView::Listed(records)),
            ) ==> forall|k: int| 0 <= k < records.len() ==> (#[trigger] records[k]).id != id
        }),
{
    store_keeps_its_start_and_its_deletions(c, events);
    let later = after_events(c, events);
    assert(later.metadata->0.is_deleted(id));
    listing_has_distinct_live_ids(later, reply, now);
}

/// The walk for a record, run against a log until it ends: with the record
/// met, or with the range exhausted.
pub open spec fn sought_run(
    c: ClientView,
    log: Map<u64, Seq<BlobView>>,
    step: StepView,
    now: Timestamp,
) -> (ClientView, StepView)
    decreases
        (match c.phase {
            PhaseView::Seeking { id, aim, remaining } => remaining.len() + 1,
            _ => 0,
        }),
{
    match (c.phase, step) {
        (
            PhaseView::Seeking { id, aim, remaining },
            StepView::Ask(RequestView::Fetch(position)),
        ) => {
            let next = c.resumed(fetch(log, position), now);
            sought_run(next.0, log, next.1, now)
        },
        _ => (c, step),
    }
}

/// An operation that walks for a record, begun with `begun` and run against
/// a log whose head stands at `head`, up to the end of the walk.
pub open spec fn walked(
    begun: (ClientView, StepView),
    log: Map<u64, Seq<BlobView>>,
    head: u64,
    now: Timestamp,
) -> (ClientView, StepView) {
    let ranged = match begun.1 {
        StepView::Ask(RequestView::Head) => begun.0.resumed(ReplyView::Head(head), now),
        _ => begun,
    };
    sought_run(ranged.0, log, ranged.1, now)
}

/// A read of `id`, run against a log whose head stands at `head`.
pub open spec fn read_run(
    c: ClientView,
    log: Map<u64, Seq<BlobView>>,
    id: Seq<char>,
    head: u64,
    now: Timestamp,
) -> (ClientView, StepView) {
    walked(c.getting(id), log, head, now)
}

/// The walk for a record meets the most recent record of the id on its
/// way: the first on the first page that has one. Where no page has one,
/// the walk ends without the record.
pub proof fn walk_meets_the_newest(
    c: ClientView,
    log: Map<u64, Seq<BlobView>>,
    position: u64,
    now: Timestamp,
)
    requires
        c.phase is Seeking,
    ensures
        sought_run(c, log, StepView::Ask(RequestView::Fetch(position)), now) == (
        match newest_on_walk(log, seq![position] + c.phase->Seeking_remaining, c.phase->Seeking_id) {
            Some(record) => c.met(record, c.phase->Seeking_aim, now),
            None => c.missed(c.phase->Seeking_id, c.phase->Seeking_aim),
        }),
    decreases c.phase->Seeking_remaining.len(),
{
    reveal_with_fuel(sought_run, 2);
    reveal_with_fuel(newest_on_walk, 2);
    let id = c.phase->Seeking_id;
    let aim = c.phase->Seeking_aim;
    let remaining = c.phase->Seeking_remaining;
    let walk = seq![position] + remaining;
    assert(walk[0] == position);
    assert(walk.drop_first() =~= remaining);
    let page = page_at(log, position);
    assert(fetch(log, position).page() == Some(page));
    let next = c.resumed(fetch(log, position), now);
    assert(sought_run(c, log, StepView::Ask(RequestView::Fetch(position)), now) == sought_run(
        next.0,
        log,
        next.1,
        now,
    ));
    match first_record(page, id) {
        Some(record) => {
            assert(next == c.met(record, aim, now));
            assert(!(next.0.phase is Seeking));
        },
        None => {
            assert(newest_on_walk(log, walk, id) == newest_on_walk(log, remaining, id));
            if remaining.len() > 0 {
                assert(seq![remaining[0]] + remaining.drop_first() =~= remaining);
                assert(next.1 == StepView::Ask(RequestView::Fetch(remaining[0])));
                assert(next.0.phase == PhaseView::Seeking {
                    id,
                    aim,
                    remaining: remaining.drop_first(),
                });
                walk_meets_the_newest(next.0, log, remaining[0], now);
                assert(forall|r: RecordView| next.0.met(r, aim, now) == c.met(r, aim, now));
                assert(next.0.missed(id, aim) == c.missed(id, aim));
            } else {
                assert(next == c.missed(id, aim));
            }
        },
    }
}

/// The end of an operation that walks for a record: what the operation does
/// with the most recent record of the id in the range of the store, or
/// without it.
pub proof fn walk_ends_with_the_newest(
    c: ClientView,
    log: Map<u64, Seq<BlobView>>,
    id: Seq<char>,
    aim: AimView,
    head: u64,
    now: Timestamp,
)
    requires
        c.phase is Idle,
        c.metadata matches Some(m) && !m.is_deleted(id),
    ensures
        walked(c.ranging(id, aim), log, head, now) == (match newest_on_walk(
            log,
            positions_down(c.metadata->0.start_height, head),
            id,
        ) {
            Some(record) => c.met(record, aim, now),
            None => c.missed(id, aim),
        }),
{
    reveal_with_fuel(sought_run, 2);
    let walk = positions_down(c.metadata->0.start_height, head);
    let begun = c.ranging(id, aim);
    let ranged = begun.0.resumed(ReplyView::Head(head), now);
    assert(begun.0.range(head) == walk);
    if walk.len() > 0 {
        assert(seq![walk[0]] + walk.drop_first() =~= walk);
        walk_meets_the_newest(ranged.0, log, walk[0], now);
        assert(forall|r: RecordView| ranged.0.met(r, aim, now) == c.met(r, aim, now));
        assert(ranged.0.missed(id, aim) == c.missed(id, aim));
    } else {
        assert(newest_on_walk(log, walk, id) is None);
        assert(ranged == c.missed(id, aim));
    }
}

/// A read returns the most recent record of the id in the range of the
/// store, from the head down to the start, and answers that the record is
/// not found where the range holds none. A position that cannot be fetched
/// counts as one that holds nothing.
pub proof fn read_finds_the_newest(
    c: ClientView,
    log: Map<u64, Seq<BlobView>>,
    id: Seq<char>,
    head: u64,
    now: Timestamp,
)
    requires
        c.phase is Idle,
        c.metadata matches Some(m) && !m.is_deleted(id),
    ensures
        read_run(c, log, id, head, now).1 == (match newest_on_walk(
            log,
            positions_down(c.metadata->0.start_height, head),
            id,
        ) {
            Some(record) => StepView::Done(Ok(OutcomeView::Found(record))),
            None => StepView::Done(Ok(OutcomeView::NotFound(id))),
        }),
        read_run(c, log, id, head, now).0 == c,
        c.getting(id).1 == StepView::Ask(RequestView::Head),
{
    walk_ends_with_the_newest(c, log, id, AimView::Read, head, now);
}

/// A read fails only where the head cannot be read, and then before any
/// fetch; the store stays as it was.
pub proof fn read_fails_only_without_the_head(
    c: ClientView,
    id: Seq<char>,
    text: Seq<char>,
    now: Timestamp,
)
    requires
        c.phase is Idle,
        c.metadata matches Some(m) && !m.is_deleted(id),
    ensures
        c.getting(id).1 == StepView::Ask(RequestView::Head),
        c.getting(id).0.resumed(ReplyView::Unreachable(text), now) == c.fail(
            ErrorKind::CelestiaError,
            text,
        ),
        c.fail(ErrorKind::CelestiaError, text).0 == c,
{
}

/// Whether `position` is the highest position of `[low, high]` at which the
/// log holds a record of the id.
pub open spec fn is_newest_place(
    log: Map<u64, Seq<BlobView>>,
    low: u64,
    high: u64,
    id: Seq<char>,
    position: u64,
) -> bool {
    &&& low <= position <= high
    &&& first_record(page_at(log, position), id) is Some
    &&& forall|later: u64|
        position < later <= high ==> first_record(#[trigger] page_at(log, later), id) is None
}

/// The walk down a range meets the record of an id at the highest position
/// that holds one: the most recent write wins. It meets none only where the
/// range holds none.
pub proof fn walk_down_meets_the_newest_record(
    log: Map<u64, Seq<BlobView>>,
    low: u64,
    high: u64,
    id: Seq<char>,
)
    ensures
        match newest_on_walk(log, positions_down(low, high), id) {
            Some(record) => exists|position: u64|
                #[trigger] is_newest_place(log, low, high, id, position) && first_record(
                    page_at(log, position),
                    id,
                ) == Some(record),
            None => forall|position: u64|
                low <= position <= high ==> first_record(
                    #[trigger] page_at(log, position),
                    id,
                ) is None,
        },
    decreases high,
{
    let walk = positions_down(low, high);
    if high < low {
    } else {
        assert(walk[0] == high);
        match first_record(page_at(log, high), id) {
            Some(record) => {
                assert(is_newest_place(log, low, high, id, high));
            },
            None => {
                if high == low {
                    assert(walk.drop_first() =~= Seq::empty());
                    assert(newest_on_walk(log, walk.drop_first(), id) is None);
                    assert forall|position: u64| low <= position <= high implies first_record(
                        #[trigger] page_at(log, position),
                        id,
                    ) is None by {
                        assert(position == high);
                    }
                } else {
                    let below = (high - 1) as u64;
                    assert(walk.drop_first() =~= positions_down(low, below));
                    walk_down_meets_the_newest_record(log, low, below, id);
                    match newest_on_walk(log, positions_down(low, below), id) {
                        Some(record) => {
                            let position = choose|position: u64|
                                #[trigger] is_newest_place(log, low, below, id, position)
                                    && first_record(page_at(log, position), id) == Some(record);
                            assert(is_newest_place(log, low, high, id, position)) by {
                                assert forall|later: u64|
                                    position < later <= high implies first_record(
                                    #[trigger] page_at(log, later),
                                    id,
                                ) is None by {
                                    if later <= below {
                                    } else {
                                        assert(later == high);
                                    }
                                }
                            }
                        },
                        None => {
                            assert forall|position: u64|
                                low <= position <= high implies first_record(
                                #[trigger] page_at(log, position),
                                id,
                            ) is None by {
                                if position <= below {
                                } else {
                                    assert(position == high);
                                }
                            }
                        },
                    }
                }
            },
        }
    }
}

/// The record at the highest position of a range that holds one of the id
/// is the one that the walk down the range meets.
pub proof fn newest_place_is_met(
    log: Map<u64, Seq<BlobView>>,
    low: u64,
    high: u64,
    id: Seq<char>,
    position: u64,
)
    requires
        is_newest_place(log, low, high, id, position),
    ensures
        newest_on_walk(log, positions_down(low, high), id) == first_record(
            page_at(log, position),
            id,
        ),
    decreases high - position,
{
    let walk = positions_down(low, high);
    assert(walk[0] == high);
    if position < high {
        let below = (high - 1) as u64;
        assert(first_record(page_at(log, high), id) is None);
        assert(walk.drop_first() =~= positions_down(low, below));
        assert(is_newest_place(log, low, below, id, position));
        newest_place_is_met(log, low, below, id, position);
    }
}

/// A record that is submitted behind a page without a record of its id is
/// the first record of its id on the page, whatever follows it.
pub proof fn submitted_record_is_first(
    earlier: Seq<BlobView>,
    record: RecordView,
    later: Seq<BlobView>,
)
    requires
        forall|j: int| 0 <= j < earlier.len() ==> !is_record_of(#[trigger] earlier[j], record.id),
    ensures
        first_record(earlier + (seq![BlobView::Record(record)] + later), record.id) == Some(record),
{
    let page = earlier + (seq![BlobView::Record(record)] + later);
    let i = earlier.len() as int;
    assert(page[i] == BlobView::Record(record));
    assert forall|j: int| 0 <= j < i implies !is_record_of(#[trigger] page[j], record.id) by {
        assert(page[j] == earlier[j]);
    }
    assert(is_first_record(page, record.id, i));
    lemma_first_record_at(page, record.id, i);
}

/// Metadata that are submitted behind a page without metadata are the
/// first metadata on the page, whatever stands between.
pub proof fn submitted_metadata_is_first(
    earlier: Seq<BlobView>,
    record: RecordView,
    metadata: MetadataView,
)
    requires
        forall|j: int| 0 <= j < earlier.len() ==> !(#[trigger] earlier[j] is Metadata),
    ensures
        first_metadata(earlier + seq![BlobView::Record(record), BlobView::Metadata(metadata)])
            == Some(metadata),
        first_metadata(earlier + seq![BlobView::Metadata(metadata)]) == Some(metadata),
{
    let with_record = earlier + seq![BlobView::Record(record), BlobView::Metadata(metadata)];
    let i = earlier.len() as int;
    assert(with_record[i + 1] == BlobView::Metadata(metadata));
    assert forall|j: int| 0 <= j < i + 1 implies !(#[trigger] with_record[j] is Metadata) by {
        if j < i {
            assert(with_record[j] == earlier[j]);
        }
    }
    crate::blob::lemma_first_metadata_at(with_record, i + 1);
    let alone = earlier + seq![BlobView::Metadata(metadata)];
    assert(alone[i] == BlobView::Metadata(metadata));
    assert forall|j: int| 0 <= j < i implies !(#[trigger] alone[j] is Metadata) by {
        assert(alone[j] == earlier[j]);
    }
    crate::blob::lemma_first_metadata_at(alone, i);
}

/// A record that has been added is what a read of its id returns.
///
/// The add is one submission: the record, and the metadata that count it
/// and point its id at the submission. The ledger includes it at `height`,
/// inside the range of the store, where no other writer has put a record of
/// the same id; the read walks the log as it stands after the submission,
/// from a head above which nobody wrote a record of the id.
pub proof fn add_then_get_returns_the_record(
    c: ClientView,
    log: Map<u64, Seq<BlobView>>,
    record: RecordView,
    height: u64,
    head: u64,
    added: Timestamp,
    committed: Timestamp,
    read: Timestamp,
)
    requires
        c.consistent(),
        c.phase is Idle,
        c.metadata matches Some(m) && m.record_count < u64::MAX && !m.is_deleted(record.id)
            && m.start_height != HERE && m.start_height <= height,
        height <= head,
        forall|j: int|
            0 <= j < page_at(log, height).len() ==> !is_record_of(
                #[trigger] page_at(log, height)[j],
                record.id,
            ),
        forall|later: u64|
            height < later <= head ==> first_record(#[trigger] page_at(log, later), record.id)
                is None,
    ensures
        ({
            let m = c.metadata->0;
            let written = m.add_record(record.id, HERE, added);
            let batch = seq![BlobView::Record(record), BlobView::Metadata(written)];
            let after = submitted(log, height, batch);
            let (c1, s1) = c.adding(record, added);
            let (c2, s2) = c1.resumed(ReplyView::Submitted(Some(height)), committed);
            &&& s1 == StepView::Ask(RequestView::Submit(batch))
            &&& s2 == StepView::Done(Ok(OutcomeView::Added(record.id)))
            &&& c2.metadata == Some(written.resolved(height))
            &&& c2.metadata->0.height_of(record.id) == Some(height)
            &&& c2.metadata->0.record_count == m.record_count + 1
            &&& c2.metadata->0.start_height == m.start_height
            &&& read_run(c2, after, record.id, head, read).1 == StepView::Done(
                Ok(OutcomeView::Found(record)),
            )
            &&& read_run(c2, after, record.id, head, read).0 == c2
        }),
{
    let m = c.metadata->0;
    let written = m.add_record(record.id, HERE, added);
    let batch = seq![BlobView::Record(record), BlobView::Metadata(written)];
    let after = submitted(log, height, batch);
    lemma_add_record(m, record.id, HERE, added);
    lemma_resolved(written, height);
    assert(written.indexes(record.id));
    assert(written.resolved(height).indexes(record.id));
    assert(written.resolved(height).height_of(record.id) == Some(height));
    lemma_written_record_is_newest(log, m.start_height, head, height, record, written);
    let c2 = c.adding(record, added).0.resumed(ReplyView::Submitted(Some(height)), committed).0;
    assert(!c2.metadata->0.is_deleted(record.id));
    read_finds_the_newest(c2, after, record.id, head, read);
}

proof fn lemma_written_record_is_newest(
    log: Map<u64, Seq<BlobView>>,
    low: u64,
    head: u64,
    height: u64,
    record: RecordView,
    written: MetadataView,
)
    requires
        low <= height <= head,
        forall|j: int|
            0 <= j < page_at(log, height).len() ==> !is_record_of(
                #[trigger] page_at(log, height)[j],
                record.id,
            ),
        forall|later: u64|
            height < later <= head ==> first_record(#[trigger] page_at(log, later), record.id)
                is None,
    ensures
        newest_on_walk(
            submitted(
                log,
                height,
                seq![BlobView::Record(record), BlobView::Metadata(written)],
            ),
            positions_down(low, head),
            record.id,
        ) == Some(record),
{
    let batch = seq![BlobView::Record(record), BlobView::Metadata(written)];
    let after = submitted(log, height, batch);
    submitted_record_is_first(page_at(log, height), record, seq![BlobView::Metadata(written)]);
    assert(seq![BlobView::Record(record)] + seq![BlobView::Metadata(written)] =~= batch);
    assert(first_record(page_at(after, height), record.id) == Some(record));
    assert forall|later: u64| height < later <= head implies first_record(
        #[trigger] page_at(after, later),
        record.id,
    ) is None by {
        assert(page_at(after, later) == page_at(log, later));
    }
    assert(is_newest_place(after, low, head, record.id, height));
    newest_place_is_met(after, low, head, record.id, height);
}

/// After an update, a read returns the record with the new payload, and the
/// time of its update is the time at which the update ran: later than its
/// creation whenever the clock has moved on since.
///
/// The update walks the range for the record's current value; the ledger
/// includes the new value at `height`, inside the range of the store, where
/// no other writer has put a record of the same id; the read walks the log
/// as it stands after the submission.
pub proof fn update_then_get_returns_the_new_payload(
    c: ClientView,
    log: Map<u64, Seq<BlobView>>,
    id: Seq<char>,
    data: Seq<u8>,
    head: u64,
    height: u64,
    later_head: u64,
    revised: Timestamp,
    committed: Timestamp,
    read: Timestamp,
)
    requires
        c.consistent(),
        c.phase is Idle,
        c.metadata matches Some(m) && !m.is_deleted(id) && m.start_height != HERE
            && m.start_height <= height,
        newest_on_walk(log, positions_down(c.metadata->0.start_height, head), id) is Some,
        height <= later_head,
        forall|j: int|
            0 <= j < page_at(log, height).len() ==> !is_record_of(
                #[trigger] page_at(log, height)[j],
                id,
            ),
        forall|later: u64|
            height < later <= later_head ==> first_record(#[trigger] page_at(log, later), id)
                is None,
    ensures
        ({
            let m = c.metadata->0;
            let old_record = newest_on_walk(log, positions_down(m.start_height, head), id)->0;
            let new_record = old_record.updated(data, revised);
            let written = m.relocate_record(id, HERE, revised);
            let batch = seq![BlobView::Record(new_record), BlobView::Metadata(written)];
            let after = submitted(log, height, batch);
            let (c1, s1) = walked(c.updating(id, data), log, head, revised);
            let (c2, s2) = c1.resumed(ReplyView::Submitted(Some(height)), committed);
            &&& c.updating(id, data).1 == StepView::Ask(RequestView::Head)
            &&& s1 == StepView::Ask(RequestView::Submit(batch))
            &&& s2 == StepView::Done(Ok(OutcomeView::Updated(new_record)))
            &&& c2.metadata == Some(written.resolved(height))
            &&& read_run(c2, after, id, later_head, read).1 == StepView::Done(
                Ok(OutcomeView::Found(new_record)),
            )
            &&& new_record.id == id
            &&& new_record.data == data
            &&& new_record.created_at == old_record.created_at
            &&& new_record.updated_at == Some(revised)
            &&& revised > old_record.created_at ==> new_record.updated_at->0
                > new_record.created_at
            &&& c2.metadata->0.record_count == m.record_count
        }),
{
    let m = c.metadata->0;
    let walk = positions_down(m.start_height, head);
    let old_record = newest_on_walk(log, walk, id)->0;
    lemma_newest_has_id(log, walk, id);
    walk_ends_with_the_newest(c, log, id, AimView::Update(data), head, revised);
    let new_record = old_record.updated(data, revised);
    let written = m.relocate_record(id, HERE, revised);
    if m.indexes(id) {
        lemma_relocate_record(m, id, HERE, revised);
    }
    lemma_resolved(written, height);
    lemma_written_record_is_newest(log, m.start_height, later_head, height, new_record, written);
    let c1 = walked(c.updating(id, data), log, head, revised).0;
    let c2 = c1.resumed(ReplyView::Submitted(Some(height)), committed).0;
    assert(c2.metadata == Some(written.resolved(height)));
    assert(written.tombstones == m.tombstones);
    assert(!c2.metadata->0.is_deleted(id));
    read_finds_the_newest(c2, submitted(
        log,
        height,
        seq![BlobView::Record(new_record), BlobView::Metadata(written)],
    ), id, later_head, read);
}

proof fn lemma_newest_has_id(log: Map<u64, Seq<BlobView>>, positions: Seq<u64>, id: Seq<char>)
    ensures
        newest_on_walk(log, positions, id) matches Some(record) ==> record.id == id,
    decreases positions.len(),
{
    if positions.len() > 0 {
        lemma_first_record_has_id(page_at(log, positions[0]), id);
        lemma_newest_has_id(log, positions.drop_first(), id);
    }
}

/// After a delete, a read of the id finds nothing, without any request, and
/// the id is deleted in the store's metadata.
///
/// The delete walks the range for the record, which it must find.
pub proof fn delete_then_get_finds_nothing(
    c: ClientView,
    log: Map<u64, Seq<BlobView>>,
    id: Seq<char>,
    head: u64,
    height: u64,
    deleted: Timestamp,
    committed: Timestamp,
)
    requires
        c.consistent(),
        c.phase is Idle,
        c.metadata matches Some(m) && !m.is_deleted(id),
        newest_on_walk(log, positions_down(c.metadata->0.start_height, head), id) is Some,
    ensures
        ({
            let m = c.metadata->0;
            let written = m.buried(id, deleted);
            let (c1, s1) = walked(c.deleting(id), log, head, deleted);
            let (c2, s2) = c1.resumed(ReplyView::Submitted(Some(height)), committed);
            &&& c.deleting(id).1 == StepView::Ask(RequestView::Head)
            &&& s1 == StepView::Ask(RequestView::Submit(seq![BlobView::Metadata(written)]))
            &&& s2 == StepView::Done(Ok(OutcomeView::Deleted(id)))
            &&& c2.metadata == Some(written.resolved(height))
            &&& c2.metadata->0.is_deleted(id)
            &&& c2.getting(id) == (c2, StepView::Done(Ok(OutcomeView::NotFound(id))))
        }),
{
    let m = c.metadata->0;
    let walk = positions_down(m.start_height, head);
    lemma_newest_has_id(log, walk, id);
    walk_ends_with_the_newest(c, log, id, AimView::Delete, head, deleted);
    lemma_buried(m, id, deleted);
    lemma_resolved(m.buried(id, deleted), height);
}

/// A delete of an id that the range of the store does not hold ends with
/// `RecordNotFound`, and so does a delete of an id that is deleted, at
/// once: the store stays as it was and nothing is submitted.
pub proof fn delete_of_absent_id_changes_nothing(
    c: ClientView,
    log: Map<u64, Seq<BlobView>>,
    id: Seq<char>,
    head: u64,
    now: Timestamp,
)
    requires
        c.phase is Idle,
        c.metadata is Some,
        c.metadata->0.is_deleted(id) || newest_on_walk(
            log,
            positions_down(c.metadata->0.start_height, head),
            id,
        ) is None,
    ensures
        walked(c.deleting(id), log, head, now) == c.fail(ErrorKind::RecordNotFound, id),
        c.fail(ErrorKind::RecordNotFound, id).0 == c,
{
    reveal_with_fuel(sought_run, 2);
    if !c.metadata->0.is_deleted(id) {
        walk_ends_with_the_newest(c, log, id, AimView::Delete, head, now);
    }
}

/// The scan of discovery, run against a log until it ends: with metadata
/// adopted, or with the window exhausted.
pub open spec fn scanned(c: ClientView, log: Map<u64, Seq<BlobView>>, step: StepView, now: Timestamp)
    -> (ClientView, StepView)
    decreases
        (match c.phase {
            PhaseView::Scanning { current, remaining } => remaining.len() + 1,
            _ => 0,
        }),
{
    match (c.phase, step) {
        (
            PhaseView::Scanning { current, remaining },
            StepView::Ask(RequestView::Fetch(position)),
        ) => {
            let next = c.resumed(fetch(log, position), now);
            scanned(next.0, log, next.1, now)
        },
        _ => (c, step),
    }
}

/// Discovery, run against a log whose head stands at `head`, up to the point
/// where the store is ready or the metadata that create it are submitted.
pub open spec fn discovered(c: ClientView, log: Map<u64, Seq<BlobView>>, head: u64, now: Timestamp)
    -> (ClientView, StepView) {
    let begun = c.discovering();
    let probed = match begun.1 {
        StepView::Ask(RequestView::Fetch(position)) => begun.0.resumed(fetch(log, position), now),
        _ => begun,
    };
    let laid_out = match probed.1 {
        StepView::Ask(RequestView::Head) => probed.0.resumed(ReplyView::Head(head), now),
        _ => probed,
    };
    scanned(laid_out.0, log, laid_out.1, now)
}

/// The scan of discovery adopts the first metadata that the walk over its
/// positions meets: the most recent in the window. Where the walk meets
/// none, the scan ends with the submission that creates the store.
pub proof fn scan_adopts_the_most_recent(c: ClientView, log: Map<u64, Seq<BlobView>>, now: Timestamp)
    requires
        c.phase is Scanning,
    ensures
        scanned(c, log, StepView::Ask(RequestView::Fetch(c.phase->Scanning_current)), now) == (
        match first_on_walk(log, seq![c.phase->Scanning_current] + c.phase->Scanning_remaining) {
            Some(metadata) => c.adopt(metadata),
            None => c.found(now),
        }),
    decreases c.phase->Scanning_remaining.len(),
{
    reveal_with_fuel(scanned, 2);
    reveal_with_fuel(first_on_walk, 2);
    let position = c.phase->Scanning_current;
    let remaining = c.phase->Scanning_remaining;
    let walk = seq![position] + remaining;
    assert(walk[0] == position);
    assert(walk.drop_first() =~= remaining);
    let page = page_at(log, position);
    assert(fetch(log, position).page() == Some(page));
    let next = c.resumed(fetch(log, position), now);
    assert(scanned(c, log, StepView::Ask(RequestView::Fetch(position)), now) == scanned(
        next.0,
        log,
        next.1,
        now,
    ));
    match first_metadata(page) {
        Some(metadata) => {
            assert(next == c.adopt(metadata.resolved(position)));
            assert(first_on_walk(log, walk) == Some(metadata.resolved(position)));
        },
        None => {
            assert(first_on_walk(log, walk) == first_on_walk(log, remaining));
            if remaining.len() > 0 {
                assert(seq![remaining[0]] + remaining.drop_first() =~= remaining);
                assert(next.1 == StepView::Ask(RequestView::Fetch(remaining[0])));
                assert(next.0.phase == PhaseView::Scanning {
                    current: remaining[0],
                    remaining: remaining.drop_first(),
                });
                scan_adopts_the_most_recent(next.0, log, now);
                assert(forall|m: MetadataView| next.0.adopt(m) == c.adopt(m));
                assert(next.0.found(now) == c.found(now));
            } else {
                assert(next == c.found(now));
                assert(first_on_walk(log, remaining) is None);
            }
        },
    }
}

/// Whether `position` is the highest position of `[low, high]` at which the
/// log holds metadata.
pub open spec fn is_most_recent(
    log: Map<u64, Seq<BlobView>>,
    low: u64,
    high: u64,
    position: u64,
) -> bool {
    &&& low <= position <= high
    &&& metadata_at(log, position) is Some
    &&& forall|later: u64| position < later <= high ==> #[trigger] metadata_at(log, later) is None
}

/// The walk down a window meets the metadata at the highest position that
/// holds any: the most recent metadata win. It meets none only where the
/// window holds none.
pub proof fn walk_down_meets_the_most_recent(log: Map<u64, Seq<BlobView>>, low: u64, high: u64)
    ensures
        match first_on_walk(log, positions_down(low, high)) {
            Some(metadata) => exists|position: u64|
                #[trigger] is_most_recent(log, low, high, position) && metadata_at(log, position)
                    == Some(metadata),
            None => forall|position: u64|
                low <= position <= high ==> #[trigger] metadata_at(log, position) is None,
        },
    decreases high,
{
    let walk = positions_down(low, high);
    if high < low {
    } else {
        assert(walk[0] == high);
        match metadata_at(log, high) {
            Some(metadata) => {
                assert(is_most_recent(log, low, high, high));
            },
            None => {
                if high == low {
                    assert(walk.drop_first() =~= Seq::empty());
                    assert(first_on_walk(log, walk.drop_first()) is None);
                } else {
                    let below = (high - 1) as u64;
                    assert(walk.drop_first() =~= positions_down(low, below));
                    walk_down_meets_the_most_recent(log, low, below);
                    match first_on_walk(log, positions_down(low, below)) {
                        Some(metadata) => {
                            let position = choose|position: u64|
                                #[trigger] is_most_recent(log, low, below, position) && metadata_at(
                                    log,
                                    position,
                                ) == Some(metadata);
                            assert(is_most_recent(log, low, high, position)) by {
                                assert forall|later: u64|
                                    position < later <= high implies #[trigger] metadata_at(
                                    log,
                                    later,
                                ) is None by {
                                    if later <= below {
                                    }
                                }
                            }
                        },
                        None => {
                            assert forall|position: u64|
                                low <= position <= high implies #[trigger] metadata_at(
                                log,
                                position,
                            ) is None by {
                                if position <= below {
                                }
                            }
                        },
                    }
                }
            },
        }
    }
}

/// The metadata at the highest position of a window that holds any are the
/// ones that the walk down the window meets.
pub proof fn most_recent_is_met(log: Map<u64, Seq<BlobView>>, low: u64, high: u64, position: u64)
    requires
        is_most_recent(log, low, high, position),
    ensures
        first_on_walk(log, positions_down(low, high)) == metadata_at(log, position),
    decreases high - position,
{
    let walk = positions_down(low, high);
    assert(walk[0] == high);
    if position < high {
        let below = (high - 1) as u64;
        assert(metadata_at(log, high) is None);
        assert(walk.drop_first() =~= positions_down(low, below));
        assert(is_most_recent(log, low, below, position));
        most_recent_is_met(log, low, below, position);
    }
}

/// What a store holds after it has created itself is what a discovery
/// adopts that finds the metadata of the creation: the store and the log
/// agree, on the start of the store as on all else.
///
/// The metadata were included at `height`, where the log held no metadata
/// before.
pub proof fn founded_metadata_are_what_discovery_adopts(
    c: ClientView,
    log: Map<u64, Seq<BlobView>>,
    fresh: MetadataView,
    height: u64,
    now: Timestamp,
)
    requires
        c.phase == (PhaseView::Founding { fresh }),
        forall|j: int|
            0 <= j < page_at(log, height).len() ==> !(#[trigger] page_at(log, height)[j]
                is Metadata),
    ensures
        c.resumed(ReplyView::Submitted(Some(height)), now).0.metadata == metadata_at(
            submitted(log, height, seq![BlobView::Metadata(fresh)]),
            height,
        ),
        fresh.start_height == HERE ==> c.resumed(
            ReplyView::Submitted(Some(height)),
            now,
        ).0.metadata->0.start_height == height,
{
    submitted_metadata_is_first(
        page_at(log, height),
        RecordView::created(Seq::empty(), Seq::empty(), 0),
        fresh,
    );
}

/// A store that creates itself and a store that is opened afterwards on the
/// same log hold the same metadata, and both begin at the position at
/// which the ledger included the metadata of the creation.
///
/// The second store searches a window that reaches down to that position,
/// above which the log holds no metadata.
pub proof fn creating_and_finding_stores_agree(
    creating: ClientView,
    finding: ClientView,
    log: Map<u64, Seq<BlobView>>,
    height: u64,
    head: u64,
    created: Timestamp,
    found: Timestamp,
)
    requires
        creating.consistent(),
        creating.phase is Founding,
        finding.phase is Idle,
        finding.metadata is None,
        finding.hint is None,
        window_start(head, finding.search_limit) <= height <= head,
        forall|j: int|
            0 <= j < page_at(log, height).len() ==> !(#[trigger] page_at(log, height)[j]
                is Metadata),
        forall|later: u64|
            height < later <= head ==> first_metadata(#[trigger] page_at(log, later)) is None,
    ensures
        ({
            let fresh = creating.phase->Founding_fresh;
            let after = submitted(log, height, seq![BlobView::Metadata(fresh)]);
            let first = creating.resumed(ReplyView::Submitted(Some(height)), created);
            let second = discovered(finding, after, head, found);
            &&& first.1 == StepView::Done(Ok(OutcomeView::Ready))
            &&& second.1 == StepView::Done(Ok(OutcomeView::Ready))
            &&& second.0.metadata == first.0.metadata
            &&& first.0.metadata->0.start_height == height
        }),
{
    let fresh = creating.phase->Founding_fresh;
    let after = submitted(log, height, seq![BlobView::Metadata(fresh)]);
    founded_metadata_are_what_discovery_adopts(creating, log, fresh, height, created);
    let low = window_start(head, finding.search_limit);
    assert forall|later: u64| height < later <= head implies #[trigger] metadata_at(
        after,
        later,
    ) is None by {
        assert(page_at(after, later) == page_at(log, later));
    }
    assert(is_most_recent(after, low, head, height));
    most_recent_is_met(after, low, head, height);
    discovery_adopts_the_existing_store(finding, after, head, found);
}

/// What a store holds after a change is what a discovery adopts that finds
/// the submission of that change: the store and the log agree.
///
/// The change was included at `height`, where the log held no metadata
/// before.
pub proof fn committed_metadata_are_what_discovery_adopts(
    c: ClientView,
    log: Map<u64, Seq<BlobView>>,
    updated: MetadataView,
    outcome: OutcomeView,
    record: RecordView,
    height: u64,
    now: Timestamp,
)
    requires
        c.phase == (PhaseView::Committing { updated, outcome }),
        forall|j: int|
            0 <= j < page_at(log, height).len() ==> !(#[trigger] page_at(log, height)[j]
                is Metadata),
    ensures
        c.resumed(ReplyView::Submitted(Some(height)), now).0.metadata == metadata_at(
            submitted(log, height, seq![BlobView::Record(record), BlobView::Metadata(updated)]),
            height,
        ),
        c.resumed(ReplyView::Submitted(Some(height)), now).0.metadata == metadata_at(
            submitted(log, height, seq![BlobView::Metadata(updated)]),
            height,
        ),
{
    submitted_metadata_is_first(page_at(log, height), record, updated);
}

/// Discovery on a store that was just made adopts the metadata of the store
/// that the log holds, and submits the metadata of a new store where the
/// log holds none.
pub proof fn discovery_adopts_the_existing_store(
    c: ClientView,
    log: Map<u64, Seq<BlobView>>,
    head: u64,
    now: Timestamp,
)
    requires
        c.phase is Idle,
        c.metadata is None,
    ensures
        discovered(c, log, head, now) == (match existing_store(
            log,
            c.hint,
            c.search_limit,
            head,
        ) {
            Some(metadata) => c.adopt(metadata),
            None => c.found(now),
        }),
{
    let window = positions_down(window_start(head, c.search_limit), head);
    let begun = c.discovering();
    let probed = match begun.1 {
        StepView::Ask(RequestView::Fetch(position)) => begun.0.resumed(fetch(log, position), now),
        _ => begun,
    };
    if let Some(position) = c.hint {
        assert(fetch(log, position).page() == Some(page_at(log, position)));
    }
    if probed.1 == StepView::Ask(RequestView::Head) {
        let laid_out = probed.0.resumed(ReplyView::Head(head), now);
        if window.len() > 0 {
            assert(seq![window[0]] + window.drop_first() =~= window);
            scan_adopts_the_most_recent(laid_out.0, log, now);
        } else {
            assert(first_on_walk(log, window) is None);
        }
    }
}

/// Discovery is repeatable: two stores made for the same channel with the
/// same hint and search limit, run against the same log under the same head,
/// end with the same metadata, and so with the same start position and the
/// same directory.
pub proof fn discovery_is_repeatable(
    first: ClientView,
    second: ClientView,
    log: Map<u64, Seq<BlobView>>,
    head: u64,
    earlier: Timestamp,
    later: Timestamp,
)
    requires
        first.phase is Idle,
        first.metadata is None,
        second.phase is Idle,
        second.metadata is None,
        first.hint == second.hint,
        first.search_limit == second.search_limit,
    ensures
        discovered(first, log, head, earlier).0.metadata == discovered(
            second,
            log,
            head,
            later,
        ).0.metadata,
        discovered(first, log, head, earlier).1 is Done ==> discovered(
            first,
            log,
            head,
            earlier,
        ).1 == discovered(second, log, head, later).1,
        discovered(first, log, head, earlier).0.metadata matches Some(m) ==> existing_store(
            log,
            first.hint,
            first.search_limit,
            head,
        ) == Some(m),
{
    discovery_adopts_the_existing_store(first, log, head, earlier);
    discovery_adopts_the_existing_store(second, log, head, later);
}

/// The walk of a listing, run against a log until it ends.
pub open spec fn list_run(c: ClientView, log: Map<u64, Seq<BlobView>>, step: StepView, now: Timestamp)
    -> (ClientView, StepView)
    decreases
        (match c.phase {
            PhaseView::Listing { remaining, found } => remaining.len() + 1,
            _ => 0,
        }),
{
    match (c.phase, step) {
        (PhaseView::Listing { remaining, found }, StepView::Ask(RequestView::Fetch(position))) => {
            let next = c.resumed(fetch(log, position), now);
            list_run(next.0, log, next.1, now)
        },
        _ => (c, step),
    }
}

/// A listing, run against a log whose head stands at `head`.
pub open spec fn listing_run(c: ClientView, log: Map<u64, Seq<BlobView>>, head: u64, now: Timestamp)
    -> (ClientView, StepView) {
    let begun = c.listing();
    let ranged = match begun.1 {
        StepView::Ask(RequestView::Head) => begun.0.resumed(ReplyView::Head(head), now),
        _ => begun,
    };
    list_run(ranged.0, log, ranged.1, now)
}

proof fn lemma_list_walk(c: ClientView, log: Map<u64, Seq<BlobView>>, position: u64, now: Timestamp)
    requires
        c.phase is Listing,
        c.metadata is Some,
    ensures
        list_run(c, log, StepView::Ask(RequestView::Fetch(position)), now) == c.finish(
            OutcomeView::Listed(
                gathered_on_walk(
                    c.metadata->0,
                    log,
                    seq![position] + c.phase->Listing_remaining,
                    c.phase->Listing_found,
                ),
            ),
        ),
    decreases c.phase->Listing_remaining.len(),
{
    reveal_with_fuel(list_run, 2);
    reveal_with_fuel(gathered_on_walk, 2);
    let m = c.metadata->0;
    let remaining = c.phase->Listing_remaining;
    let found = c.phase->Listing_found;
    let walk = seq![position] + remaining;
    assert(walk[0] == position);
    assert(walk.drop_first() =~= remaining);
    let page = page_at(log, position);
    assert(fetch(log, position).page() == Some(page));
    let next = c.resumed(fetch(log, position), now);
    let grown = absorbed(m, found, page);
    assert(next == c.list_on(remaining, grown));
    if remaining.len() > 0 {
        assert(seq![remaining[0]] + remaining.drop_first() =~= remaining);
        lemma_list_walk(next.0, log, remaining[0], now);
        assert(forall|o: OutcomeView| next.0.finish(o) == c.finish(o));
    }
}

/// A listing returns what the walk over the range of the store gathers,
/// from the head down to the start: for each id the record met first, and
/// none for a deleted id. A position that cannot be fetched counts as one
/// that holds nothing.
pub proof fn listing_gathers_the_range(
    c: ClientView,
    log: Map<u64, Seq<BlobView>>,
    head: u64,
    now: Timestamp,
)
    requires
        c.phase is Idle,
        c.metadata is Some,
    ensures
        listing_run(c, log, head, now) == c.finish(
            OutcomeView::Listed(
                gathered_on_walk(
                    c.metadata->0,
                    log,
                    positions_down(c.metadata->0.start_height, head),
                    Seq::empty(),
                ),
            ),
        ),
        c.listing().1 == StepView::Ask(RequestView::Head),
{
    reveal_with_fuel(list_run, 2);
    let walk = positions_down(c.metadata->0.start_height, head);
    let begun = c.listing();
    let ranged = begun.0.resumed(ReplyView::Head(head), now);
    assert(begun.0.range(head) == walk);
    if walk.len() > 0 {
        assert(seq![walk[0]] + walk.drop_first() =~= walk);
        lemma_list_walk(ranged.0, log, walk[0], now);
        assert(forall|o: OutcomeView| ranged.0.finish(o) == c.finish(o));
    }
}

proof fn lemma_first_record_step(page: Seq<BlobView>, id: Seq<char>)
    requires
        page.len() > 0,
    ensures
        first_record(page, id) == (match first_record(page.drop_last(), id) {
            Some(record) => Some(record),
            None => if is_record_of(page.last(), id) {
                Some(page.last()->Record_0)
            } else {
                None
            },
        }),
{
    let front = page.drop_last();
    let last = page.len() - 1;
    if exists|i: int| is_first_record(front, id, i) {
        let i = choose|i: int| is_first_record(front, id, i);
        lemma_first_record_at(front, id, i);
        assert(page[i] == front[i]);
        assert forall|j: int| 0 <= j < i implies !is_record_of(#[trigger] page[j], id) by {
            assert(page[j] == front[j]);
        }
        assert(is_first_record(page, id, i));
        lemma_first_record_at(page, id, i);
    } else {
        assert forall|j: int| 0 <= j < last implies !is_record_of(#[trigger] page[j], id) by {
            assert(page[j] == front[j]);
            if is_record_of(front[j], id) {
                lemma_some_first_record(front, id, j);
            }
        }
        if is_record_of(page.last(), id) {
            assert(is_first_record(page, id, last));
            lemma_first_record_at(page, id, last);
        } else {
            crate::blob::lemma_no_record(page, id);
        }
    }
}

proof fn lemma_some_first_record(page: Seq<BlobView>, id: Seq<char>, j: int)
    requires
        0 <= j < page.len(),
        is_record_of(page[j], id),
    ensures
        exists|i: int| is_first_record(page, id, i),
    decreases j,
{
    if exists|k: int| 0 <= k < j && is_record_of(#[trigger] page[k], id) {
        let k = choose|k: int| 0 <= k < j && is_record_of(#[trigger] page[k], id);
        lemma_some_first_record(page, id, k);
    } else {
        assert(is_first_record(page, id, j));
    }
}

proof fn lemma_absorbed_page(m: MetadataView, found: Seq<RecordView>, page: Seq<BlobView>)
    requires
        gathered_ok(m, found),
    ensures
        ({
            let grown = absorbed(m, found, page);
            &&& gathered_ok(m, grown)
            &&& grown.len() >= found.len()
            &&& forall|k: int| 0 <= k < found.len() ==> #[trigger] grown[k] == found[k]
            &&& forall|k: int|
                found.len() <= k < grown.len() ==> !has_id(found, (#[trigger] grown[k]).id)
                    && first_record(page, grown[k].id) == Some(grown[k])
            &&& forall|id: Seq<char>|
                !has_id(found, id) && !m.is_deleted(id) && (#[trigger] first_record(page, id))
                    is Some ==> has_id(grown, id)
        }),
    decreases page.len(),
{
    let grown = absorbed(m, found, page);
    lemma_absorbed(m, found, page);
    if page.len() > 0 {
        let front = page.drop_last();
        let before = absorbed(m, found, front);
        lemma_absorbed_page(m, found, front);
        lemma_absorbed(m, found, front);
        assert forall|k: int| found.len() <= k < grown.len() implies !has_id(
            found,
            (#[trigger] grown[k]).id,
        ) && first_record(page, grown[k].id) == Some(grown[k]) by {
            lemma_first_record_step(page, grown[k].id);
            if k < before.len() {
                assert(grown[k] == before[k]);
            } else {
                let r = page.last()->Record_0;
                assert(grown[k] == r);
                assert(!has_id(before, r.id));
                if has_id(found, r.id) {
                    let a = choose|a: int| 0 <= a < found.len() && (#[trigger] found[a]).id == r.id;
                    assert(before[a].id == r.id);
                }
                if first_record(front, r.id) is Some {
                    assert(has_id(before, r.id));
                }
            }
        }
        assert forall|id: Seq<char>|
            !has_id(found, id) && !m.is_deleted(id) && (#[trigger] first_record(page, id))
                is Some implies has_id(grown, id) by {
            lemma_first_record_step(page, id);
            if first_record(front, id) is Some {
                assert(has_id(before, id));
                let a = choose|a: int| 0 <= a < before.len() && (#[trigger] before[a]).id == id;
                assert(grown[a].id == id);
            } else {
                let r = page.last()->Record_0;
                if has_id(before, id) {
                    let a = choose|a: int| 0 <= a < before.len() && (#[trigger] before[a]).id == id;
                    assert(grown[a].id == id);
                } else {
                    assert(grown == before.push(r));
                    assert(grown[before.len() as int].id == id);
                }
            }
        }
    } else {
        assert forall|id: Seq<char>|
            !has_id(found, id) && !m.is_deleted(id) && (#[trigger] first_record(page, id))
                is Some implies has_id(grown, id) by {
            crate::blob::lemma_no_record(page, id);
        }
    }
}

proof fn lemma_gathered(
    m: MetadataView,
    log: Map<u64, Seq<BlobView>>,
    positions: Seq<u64>,
    found: Seq<RecordView>,
)
    requires
        gathered_ok(m, found),
    ensures
        ({
            let all = gathered_on_walk(m, log, positions, found);
            &&& gathered_ok(m, all)
            &&& all.len() >= found.len()
            &&& forall|k: int| 0 <= k < found.len() ==> #[trigger] all[k] == found[k]
            &&& forall|k: int|
                found.len() <= k < all.len() ==> !has_id(found, (#[trigger] all[k]).id)
                    && newest_on_walk(log, positions, all[k].id) == Some(all[k])
            &&& forall|id: Seq<char>|
                !has_id(found, id) && !m.is_deleted(id) && (#[trigger] newest_on_walk(
                    log,
                    positions,
                    id,
                )) is Some ==> has_id(all, id)
        }),
    decreases positions.len(),
{
    let all = gathered_on_walk(m, log, positions, found);
    if positions.len() > 0 {
        let page = page_at(log, positions[0]);
        let grown = absorbed(m, found, page);
        let rest = positions.drop_first();
        lemma_absorbed_page(m, found, page);
        lemma_gathered(m, log, rest, grown);
        assert forall|k: int| 0 <= k < found.len() implies #[trigger] all[k] == found[k] by {
            assert(all[k] == grown[k]);
        }
        assert forall|k: int| found.len() <= k < all.len() implies !has_id(
            found,
            (#[trigger] all[k]).id,
        ) && newest_on_walk(log, positions, all[k].id) == Some(all[k]) by {
            let id = all[k].id;
            if k < grown.len() {
                assert(all[k] == grown[k]);
                assert(first_record(page, id) == Some(grown[k]));
            } else {
                assert(!has_id(grown, id));
                assert(!m.is_deleted(id));
                if has_id(found, id) {
                    let a = choose|a: int| 0 <= a < found.len() && (#[trigger] found[a]).id == id;
                    assert(grown[a].id == id);
                }
                if first_record(page, id) is Some {
                    assert(has_id(grown, id));
                }
            }
        }
        assert forall|id: Seq<char>|
            !has_id(found, id) && !m.is_deleted(id) && (#[trigger] newest_on_walk(
                log,
                positions,
                id,
            )) is Some implies has_id(all, id) by {
            if has_id(grown, id) {
                let a = choose|a: int| 0 <= a < grown.len() && (#[trigger] grown[a]).id == id;
                assert(all[a].id == id);
            } else {
                if first_record(page, id) is Some {
                    assert(has_id(grown, id));
                }
                assert(newest_on_walk(log, rest, id) is Some);
            }
        }
    }
}

/// What a listing shows is what the range of the store holds: no id twice,
/// no deleted id, for every other id of which the range holds a record the
/// most recent one, and nothing else.
pub proof fn listing_shows_the_newest_of_each_id(
    c: ClientView,
    log: Map<u64, Seq<BlobView>>,
    head: u64,
    now: Timestamp,
)
    requires
        c.phase is Idle,
        c.metadata is Some,
    ensures
        listing_run(c, log, head, now).0 == c,
        listing_run(c, log, head, now).1 matches StepView::Done(Ok(OutcomeView::Listed(records)))
            && {
            let walk = positions_down(c.metadata->0.start_height, head);
            &&& distinct_record_ids(records)
            &&& forall|k: int|
                0 <= k < records.len() ==> !c.metadata->0.is_deleted((#[trigger] records[k]).id)
                    && newest_on_walk(log, walk, records[k].id) == Some(records[k])
            &&& forall|id: Seq<char>|
                !c.metadata->0.is_deleted(id) && (#[trigger] newest_on_walk(log, walk, id))
                    is Some ==> has_id(records, id)
        },
{
    let m = c.metadata->0;
    let walk = positions_down(m.start_height, head);
    listing_gathers_the_range(c, log, head, now);
    lemma_gathered(m, log, walk, Seq::empty());
}

} // verus!
