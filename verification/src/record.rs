//! The data record: an id, a payload and the times of its creation and last
//! change.

use vstd::prelude::*;
use vstd::string::*;

verus! {

/// A point in time, in microseconds since the Unix epoch (UTC).
pub type Timestamp = i64;

/// Number of characters in a freshly minted record id.
pub const MINTED_ID_LENGTH: usize = 36;

/// One record of the store. A record is never changed once it is written to
/// the log: an update writes a new record under the same id.
#[derive(Debug)]
pub struct Record {
    /// The record's identity; also its key.
    pub id: String,
    /// When the record was first created.
    pub created_at: Timestamp,
    /// When the record was last updated; `None` if it never was.
    pub updated_at: Option<Timestamp>,
    /// The payload.
    pub data: Vec<u8>,
}

/// Mathematical content of a [`Record`].
pub struct RecordView {
    pub id: Seq<char>,
    pub created_at: Timestamp,
    pub updated_at: Option<Timestamp>,
    pub data: Seq<u8>,
}

impl RecordView {
    /// The record as first created at time `now`.
    pub open spec fn created(id: Seq<char>, data: Seq<u8>, now: Timestamp) -> RecordView {
        RecordView { id, created_at: now, updated_at: None, data }
    }

    /// The record after its payload has been replaced at time `now`.
    pub open spec fn updated(self, data: Seq<u8>, now: Timestamp) -> RecordView {
        RecordView { id: self.id, created_at: self.created_at, updated_at: Some(now), data }
    }
}

impl View for Record {
    type V = RecordView;

    open spec fn view(&self) -> RecordView {
        RecordView {
            id: self.id@,
            created_at: self.created_at,
            updated_at: self.updated_at,
            data: self.data@,
        }
    }
}

/// Whether the character is a hexadecimal digit in lower case.
pub open spec fn is_lower_hex(c: char) -> bool {
    ('0' <= c <= '9') || ('a' <= c <= 'f')
}

/// The form of a freshly minted record id: a random UUID of version 4 in
/// its hyphenated lower-case form. It has 36 characters: hyphens at the
/// places 8, 13, 18 and 23, hexadecimal digits in lower case at all others,
/// of which the one at place 14 is the version, `4`, and the one at place
/// 19 holds the variant, and so is one of `8`, `9`, `a`, `b`.
pub open spec fn is_minted_id(id: Seq<char>) -> bool {
    &&& id.len() == MINTED_ID_LENGTH
    &&& forall|i: int|
        #![trigger id[i]]
        0 <= i < MINTED_ID_LENGTH ==> if i == 8 || i == 13 || i == 18 || i == 23 {
            id[i] == '-'
        } else {
            is_lower_hex(id[i])
        }
    &&& id[14] == '4'
    &&& (id[19] == '8' || id[19] == '9' || id[19] == 'a' || id[19] == 'b')
}

/// Draws a random version-4 UUID with `uuid::Uuid::new_v4` and renders it with
/// its `to_string`, which writes the hyphenated lower-case form. The contract
/// claims the form of the text: where its hyphens stand, that all else are
/// lower-case hexadecimal digits, and the digits that `new_v4` fixes for
/// version and variant. Which digits the others are is chance.
#[verifier::external_body]
fn mint_uuid() -> (id: String)
    ensures
        is_minted_id(id@),
{
    uuid::Uuid::new_v4().to_string()
}

/// Reads the wall clock with `chrono::Utc::now` and converts the instant with
/// `timestamp_micros`. Nothing is claimed of the value: the clock may stand
/// still or step backwards between two calls.
#[verifier::external_body]
pub(crate) fn utc_now() -> (now: Timestamp) {
    chrono::Utc::now().timestamp_micros()
}

/// Copies a byte vector.
fn copy_bytes(bytes: &Vec<u8>) -> (copy: Vec<u8>)
    ensures
        copy@ == bytes@,
{
    let mut copy: Vec<u8> = Vec::new();
    let mut i: usize = 0;
    while i < bytes.len()
        invariant
            i <= bytes.len(),
            copy@ == bytes@.subrange(0, i as int),
        decreases bytes.len() - i,
    {
        copy.push(bytes[i]);
        i += 1;
    }
    copy
}

impl Clone for Record {
    fn clone(&self) -> (copy: Record)
        ensures
            copy@ == self@,
    {
        Record {
            id: self.id.clone(),
            created_at: self.created_at,
            updated_at: self.updated_at,
            data: copy_bytes(&self.data),
        }
    }
}

impl Record {
    /// The record with the given id and payload, created at time `now`.
    pub fn created(id: String, data: Vec<u8>, now: Timestamp) -> (record: Record)
        ensures
            record@ == RecordView::created(id@, data@, now),
    {
        Record { id, created_at: now, updated_at: None, data }
    }

    /// A new record for `data` under a freshly minted random id, created at
    /// the current time.
    pub fn new(data: Vec<u8>) -> (record: Record)
        ensures
            record@ == RecordView::created(record.id@, data@, record.created_at),
            is_minted_id(record.id@),
    {
        let id = mint_uuid();
        let now = utc_now();
        Record::created(id, data, now)
    }

    /// A new record for `data` under a key that the caller chose, created at
    /// the current time.
    pub fn with_key(key: String, data: Vec<u8>) -> (record: Record)
        ensures
            record@ == RecordView::created(key@, data@, record.created_at),
    {
        let now = utc_now();
        Record::created(key, data, now)
    }

    /// Replaces the payload and records `now` as the time of the update. Id
    /// and creation time stay.
    pub fn update_at(&mut self, data: Vec<u8>, now: Timestamp)
        ensures
            final(self)@ == old(self)@.updated(data@, now),
    {
        self.data = data;
        self.updated_at = Some(now);
    }

    /// Replaces the payload and records the current time as the time of the
    /// update. Id and creation time stay.
    pub fn update(&mut self, data: Vec<u8>)
        ensures
            final(self).updated_at is Some,
            final(self)@ == old(self)@.updated(data@, final(self).updated_at->0),
    {
        let now = utc_now();
        self.update_at(data, now);
    }

    /// Whether the record carries the given id.
    pub fn has_id(&self, id: &String) -> (same: bool)
        ensures
            same == (self.id@ == id@),
    {
        self.id == *id
    }
}

} // verus!
