//! The exchange between the store and whoever talks to the ledger for it.
//!
//! The store never performs a ledger call itself. Each operation hands out
//! one [`Request`] at a time; the caller performs it against the ledger and
//! hands back what came of it as a [`Reply`], until the operation is done.

use crate::blob::{page_of, records_of, BlobView, ClassifiedBlob};
use crate::error::{DatabaseError, ErrorView};
use crate::metadata::DatabaseMetadata;
use crate::record::{Record, RecordView};
use vstd::prelude::*;
use vstd::string::*;

verus! {

/// A blob that the store wants written to the log.
#[derive(Debug)]
pub enum Payload {
    Record(Record),
    Metadata(DatabaseMetadata),
}

impl View for Payload {
    type V = BlobView;

    /// What the blob will classify as once it is in the log.
    open spec fn view(&self) -> BlobView {
        match self {
            Payload::Record(record) => BlobView::Record(record@),
            Payload::Metadata(metadata) => BlobView::Metadata(metadata@),
        }
    }
}

/// The contents of a batch of payloads.
pub open spec fn batch_of(payloads: Seq<Payload>) -> Seq<BlobView> {
    Seq::new(payloads.len(), |i: int| payloads[i]@)
}

/// A call that the store needs made against the ledger.
#[derive(Debug)]
pub enum Request {
    /// Read the current head position.
    Head,
    /// Fetch all blobs of the channel at a position.
    Fetch(u64),
    /// Submit a batch of blobs to the channel in one submission.
    Submit(Vec<Payload>),
}

/// Mathematical content of a [`Request`].
pub enum RequestView {
    Head,
    Fetch(u64),
    Submit(Seq<BlobView>),
}

impl View for Request {
    type V = RequestView;

    open spec fn view(&self) -> RequestView {
        match self {
            Request::Head => RequestView::Head,
            Request::Fetch(position) => RequestView::Fetch(*position),
            Request::Submit(payloads) => RequestView::Submit(batch_of(payloads@)),
        }
    }
}

/// What came of a [`Request`].
#[derive(Debug)]
pub enum Reply {
    /// The head position.
    Head(u64),
    /// The blobs at the fetched position, classified, in log order.
    Blobs(Vec<ClassifiedBlob>),
    /// The position holds nothing for the channel, or could not be fetched.
    NoBlobs,
    /// The submission was accepted; with the position of its inclusion
    /// where the ledger acknowledged one.
    Submitted(Option<u64>),
    /// The ledger refused the submission.
    Rejected(String),
    /// The ledger could not be reached.
    Unreachable(String),
    /// A payload of the submission could not be encoded; nothing was sent.
    NotEncoded(String),
}

/// Mathematical content of a [`Reply`].
pub enum ReplyView {
    Head(u64),
    Blobs(Seq<BlobView>),
    NoBlobs,
    Submitted(Option<u64>),
    Rejected(Seq<char>),
    Unreachable(Seq<char>),
    NotEncoded(Seq<char>),
}

impl View for Reply {
    type V = ReplyView;

    open spec fn view(&self) -> ReplyView {
        match self {
            Reply::Head(position) => ReplyView::Head(*position),
            Reply::Blobs(blobs) => ReplyView::Blobs(page_of(blobs@)),
            Reply::NoBlobs => ReplyView::NoBlobs,
            Reply::Submitted(position) => ReplyView::Submitted(*position),
            Reply::Rejected(text) => ReplyView::Rejected(text@),
            Reply::Unreachable(text) => ReplyView::Unreachable(text@),
            Reply::NotEncoded(text) => ReplyView::NotEncoded(text@),
        }
    }
}

/// The reply for a submission that failed with the given text. A ledger that
/// still answers has refused the submission; one that does not cannot be
/// reached.
pub fn failed_submission(text: String, ledger_answers: bool) -> (reply: Reply)
    ensures
        reply@ == if ledger_answers {
            ReplyView::Rejected(text@)
        } else {
            ReplyView::Unreachable(text@)
        },
{
    if ledger_answers {
        Reply::Rejected(text)
    } else {
        Reply::Unreachable(text)
    }
}

/// What an operation that succeeded has to show.
#[derive(Debug)]
pub enum Outcome {
    /// The store is open.
    Ready,
    /// A record was added under this id.
    Added(String),
    /// The record that was asked for.
    Found(Record),
    /// The store holds no record under the id that was asked for.
    NotFound(String),
    /// The records of the store, one for each id.
    Listed(Vec<Record>),
    /// The record as it stands after the update.
    Updated(Record),
    /// The record with this id was deleted.
    Deleted(String),
}

/// Mathematical content of an [`Outcome`].
pub enum OutcomeView {
    Ready,
    Added(Seq<char>),
    Found(RecordView),
    NotFound(Seq<char>),
    Listed(Seq<RecordView>),
    Updated(RecordView),
    Deleted(Seq<char>),
}

impl View for Outcome {
    type V = OutcomeView;

    open spec fn view(&self) -> OutcomeView {
        match self {
            Outcome::Ready => OutcomeView::Ready,
            Outcome::Added(id) => OutcomeView::Added(id@),
            Outcome::Found(record) => OutcomeView::Found(record@),
            Outcome::NotFound(id) => OutcomeView::NotFound(id@),
            Outcome::Listed(records) => OutcomeView::Listed(records_of(records@)),
            Outcome::Updated(record) => OutcomeView::Updated(record@),
            Outcome::Deleted(id) => OutcomeView::Deleted(id@),
        }
    }
}

/// Where an operation stands: it needs a ledger call made, or it is done.
#[derive(Debug)]
pub enum Step {
    /// Perform the request and hand the reply to the store.
    Ask(Request),
    /// The operation has ended, with its outcome or its failure.
    Done(Result<Outcome, DatabaseError>),
}

/// Mathematical content of a [`Step`].
pub enum StepView {
    Ask(RequestView),
    Done(Result<OutcomeView, ErrorView>),
}

impl View for Step {
    type V = StepView;

    open spec fn view(&self) -> StepView {
        match self {
            Step::Ask(request) => StepView::Ask(request@),
            Step::Done(Ok(outcome)) => StepView::Done(Ok(outcome@)),
            Step::Done(Err(error)) => StepView::Done(Err(error@)),
        }
    }
}

} // verus!
