//! What the blobs of the log are to the store: metadata, a record, or
//! something that belongs to neither shape. A page is the sequence of blobs
//! that the log holds at one position, in the order of their submission.

use crate::metadata::{DatabaseMetadata, MetadataView};
use crate::record::{Record, RecordView};
use vstd::prelude::*;
use vstd::string::*;

verus! {

/// A blob of the log after the attempt to decode it.
#[derive(Debug)]
pub enum ClassifiedBlob {
    /// The blob decodes as metadata.
    Metadata(DatabaseMetadata),
    /// The blob decodes as a record, and not as metadata.
    Record(Record),
    /// The blob has neither shape.
    Unrecognized,
}

/// Mathematical content of a [`ClassifiedBlob`].
pub enum BlobView {
    Metadata(MetadataView),
    Record(RecordView),
    Unrecognized,
}

impl View for ClassifiedBlob {
    type V = BlobView;

    open spec fn view(&self) -> BlobView {
        match self {
            ClassifiedBlob::Metadata(metadata) => BlobView::Metadata(metadata@),
            ClassifiedBlob::Record(record) => BlobView::Record(record@),
            ClassifiedBlob::Unrecognized => BlobView::Unrecognized,
        }
    }
}

impl Clone for ClassifiedBlob {
    fn clone(&self) -> (copy: ClassifiedBlob)
        ensures
            copy@ == self@,
    {
        match self {
            ClassifiedBlob::Metadata(metadata) => ClassifiedBlob::Metadata(metadata.clone()),
            ClassifiedBlob::Record(record) => ClassifiedBlob::Record(record.clone()),
            ClassifiedBlob::Unrecognized => ClassifiedBlob::Unrecognized,
        }
    }
}

/// The content of a page of blobs.
pub open spec fn page_of(blobs: Seq<ClassifiedBlob>) -> Seq<BlobView> {
    Seq::new(blobs.len(), |i: int| blobs[i]@)
}

/// The contents of a sequence of records.
pub open spec fn records_of(records: Seq<Record>) -> Seq<RecordView> {
    Seq::new(records.len(), |i: int| records[i]@)
}

/// The rule of classification: a blob that decodes as metadata is metadata,
/// whatever else it decodes as; otherwise one that decodes as a record is a
/// record.
pub open spec fn classified(metadata: Option<MetadataView>, record: Option<RecordView>)
    -> BlobView {
    match (metadata, record) {
        (Some(m), _) => BlobView::Metadata(m),
        (None, Some(r)) => BlobView::Record(r),
        (None, None) => BlobView::Unrecognized,
    }
}

/// The content of optional metadata.
pub open spec fn metadata_view(metadata: Option<DatabaseMetadata>) -> Option<MetadataView> {
    match metadata {
        Some(m) => Some(m@),
        None => None,
    }
}

/// The content of an optional record.
pub open spec fn record_view(record: Option<Record>) -> Option<RecordView> {
    match record {
        Some(r) => Some(r@),
        None => None,
    }
}

/// Classifies a blob from the outcomes of decoding it against both shapes.
pub fn classify(metadata: Option<DatabaseMetadata>, record: Option<Record>) -> (blob:
    ClassifiedBlob)
    ensures
        blob@ == classified(metadata_view(metadata), record_view(record)),
{
    match metadata {
        Some(m) => ClassifiedBlob::Metadata(m),
        None => match record {
            Some(r) => ClassifiedBlob::Record(r),
            None => ClassifiedBlob::Unrecognized,
        },
    }
}

/// Whether the blob is a record with the given id.
pub open spec fn is_record_of(blob: BlobView, id: Seq<char>) -> bool {
    blob matches BlobView::Record(r) && r.id == id
}

/// Whether `i` is the place of the first metadata blob of the page.
pub open spec fn is_first_metadata(page: Seq<BlobView>, i: int) -> bool {
    &&& 0 <= i < page.len()
    &&& page[i] is Metadata
    &&& forall|j: int| 0 <= j < i ==> !(#[trigger] page[j] is Metadata)
}

/// The first metadata blob of the page, if it has any.
pub open spec fn first_metadata(page: Seq<BlobView>) -> Option<MetadataView> {
    if exists|i: int| is_first_metadata(page, i) {
        Some(page[choose|i: int| is_first_metadata(page, i)]->Metadata_0)
    } else {
        None
    }
}

/// Whether `i` is the place of the first record of the page with the id.
pub open spec fn is_first_record(page: Seq<BlobView>, id: Seq<char>, i: int) -> bool {
    &&& 0 <= i < page.len()
    &&& is_record_of(page[i], id)
    &&& forall|j: int| 0 <= j < i ==> !is_record_of(#[trigger] page[j], id)
}

/// The first record of the page that has the given id, if there is one.
pub open spec fn first_record(page: Seq<BlobView>, id: Seq<char>) -> Option<RecordView> {
    if exists|i: int| is_first_record(page, id, i) {
        Some(page[choose|i: int| is_first_record(page, id, i)]->Record_0)
    } else {
        None
    }
}

/// All records of the page, in page order.
pub open spec fn records_in(page: Seq<BlobView>) -> Seq<RecordView>
    decreases page.len(),
{
    if page.len() == 0 {
        Seq::empty()
    } else {
        match page.last() {
            BlobView::Record(r) => records_in(page.drop_last()).push(r),
            _ => records_in(page.drop_last()),
        }
    }
}

/// Whether one of the records has the id.
pub open spec fn has_id(records: Seq<RecordView>, id: Seq<char>) -> bool {
    exists|k: int| 0 <= k < records.len() && (#[trigger] records[k]).id == id
}

/// The records gathered so far, grown by a page: each record of the page, in
/// page order, joins them unless its id is deleted or a record of its id is
/// among them already. The record met first for an id is the one kept.
pub open spec fn absorbed(metadata: MetadataView, found: Seq<RecordView>, page: Seq<BlobView>)
    -> Seq<RecordView>
    decreases page.len(),
{
    if page.len() == 0 {
        found
    } else {
        let before = absorbed(metadata, found, page.drop_last());
        match page.last() {
            BlobView::Record(r) => if metadata.is_deleted(r.id) || has_id(before, r.id) {
                before
            } else {
                before.push(r)
            },
            _ => before,
        }
    }
}

/// The first metadata blob is the one at the first place that holds metadata.
pub proof fn lemma_first_metadata_at(page: Seq<BlobView>, i: int)
    requires
        is_first_metadata(page, i),
    ensures
        first_metadata(page) == Some(page[i]->Metadata_0),
{
    let k = choose|k: int| is_first_metadata(page, k);
    if k < i {
        assert(!(page[k] is Metadata));
    } else if i < k {
        assert(!(page[i] is Metadata));
    }
}

/// A page without metadata blobs has no first one.
pub proof fn lemma_no_metadata(page: Seq<BlobView>)
    requires
        forall|j: int| 0 <= j < page.len() ==> !(#[trigger] page[j] is Metadata),
    ensures
        first_metadata(page) is None,
{
    if exists|i: int| is_first_metadata(page, i) {
        let k = choose|k: int| is_first_metadata(page, k);
        assert(!(page[k] is Metadata));
    }
}

/// The first record with an id is the one at the first place that holds
/// such a record.
pub proof fn lemma_first_record_at(page: Seq<BlobView>, id: Seq<char>, i: int)
    requires
        is_first_record(page, id, i),
    ensures
        first_record(page, id) == Some(page[i]->Record_0),
{
    let k = choose|k: int| is_first_record(page, id, k);
    if k < i {
        assert(!is_record_of(page[k], id));
    } else if i < k {
        assert(!is_record_of(page[i], id));
    }
}

/// A page without a record of the id has no first one.
pub proof fn lemma_no_record(page: Seq<BlobView>, id: Seq<char>)
    requires
        forall|j: int| 0 <= j < page.len() ==> !is_record_of(#[trigger] page[j], id),
    ensures
        first_record(page, id) is None,
{
    if exists|i: int| is_first_record(page, id, i) {
        let k = choose|k: int| is_first_record(page, id, k);
        assert(!is_record_of(page[k], id));
    }
}

/// What `first_record` finds carries the id that was asked for.
pub proof fn lemma_first_record_has_id(page: Seq<BlobView>, id: Seq<char>)
    ensures
        first_record(page, id) matches Some(r) ==> r.id == id && page.contains(BlobView::Record(r)),
{
    if exists|i: int| is_first_record(page, id, i) {
        let k = choose|k: int| is_first_record(page, id, k);
        assert(page[k] == BlobView::Record(page[k]->Record_0));
    }
}

/// The first metadata blob of a page, copied out.
pub fn find_metadata(page: &Vec<ClassifiedBlob>) -> (found: Option<DatabaseMetadata>)
    ensures
        metadata_view(found) == first_metadata(page_of(page@)),
{
    let mut i: usize = 0;
    while i < page.len()
        invariant
            i <= page.len(),
            forall|j: int| 0 <= j < i ==> !(#[trigger] page_of(page@)[j] is Metadata),
        decreases page.len() - i,
    {
        match &page[i] {
            ClassifiedBlob::Metadata(metadata) => {
                proof {
                    assert(page_of(page@)[i as int] == BlobView::Metadata(metadata@));
                    lemma_first_metadata_at(page_of(page@), i as int);
                }
                return Some(metadata.clone());
            },
            _ => {
                assert(!(page_of(page@)[i as int] is Metadata));
            },
        }
        i += 1;
    }
    proof {
        lemma_no_metadata(page_of(page@));
    }
    None
}

/// The first record of a page that has the given id, copied out.
pub fn find_record(page: &Vec<ClassifiedBlob>, id: &String) -> (found: Option<Record>)
    ensures
        record_view(found) == first_record(page_of(page@), id@),
{
    let mut i: usize = 0;
    while i < page.len()
        invariant
            i <= page.len(),
            forall|j: int| 0 <= j < i ==> !is_record_of(#[trigger] page_of(page@)[j], id@),
        decreases page.len() - i,
    {
        match &page[i] {
            ClassifiedBlob::Record(record) => {
                assert(page_of(page@)[i as int] == BlobView::Record(record@));
                if record.has_id(id) {
                    proof {
                        lemma_first_record_at(page_of(page@), id@, i as int);
                    }
                    return Some(record.clone());
                }
            },
            _ => {
                assert(!(page_of(page@)[i as int] is Record));
            },
        }
        i += 1;
    }
    proof {
        lemma_no_record(page_of(page@), id@);
    }
    None
}

/// Whether one of the records has the id.
fn holds_id(records: &Vec<Record>, id: &String) -> (held: bool)
    ensures
        held == has_id(records_of(records@), id@),
{
    let mut i: usize = 0;
    while i < records.len()
        invariant
            i <= records.len(),
            forall|k: int| 0 <= k < i ==> (#[trigger] records_of(records@)[k]).id != id@,
        decreases records.len() - i,
    {
        if records[i].has_id(id) {
            assert(records_of(records@)[i as int].id == id@);
            return true;
        }
        i += 1;
    }
    false
}

/// Grows the records gathered so far by a page: each record of the page, in
/// page order, joins them unless its id is deleted in `metadata` or a record
/// of its id is among them already.
pub fn absorb_page(metadata: &DatabaseMetadata, found: Vec<Record>, page: &Vec<ClassifiedBlob>) -> (grown:
    Vec<Record>)
    ensures
        records_of(grown@) == absorbed(metadata@, records_of(found@), page_of(page@)),
{
    let mut grown = found;
    let mut i: usize = 0;
    assert(page_of(page@).take(0) =~= Seq::empty());
    while i < page.len()
        invariant
            i <= page.len(),
            records_of(grown@) == absorbed(
                metadata@,
                records_of(found@),
                page_of(page@).take(i as int),
            ),
        decreases page.len() - i,
    {
        let ghost before = grown@;
        let ghost prefix = page_of(page@).take(i as int + 1);
        assert(prefix.drop_last() =~= page_of(page@).take(i as int));
        assert(prefix.last() == page_of(page@)[i as int]);
        match &page[i] {
            ClassifiedBlob::Record(record) => {
                if !metadata.is_deleted(record.id.as_str()) && !holds_id(&grown, &record.id) {
                    grown.push(record.clone());
                    assert(records_of(grown@) =~= records_of(before).push(record@));
                }
            },
            _ => {},
        }
        i += 1;
    }
    assert(page_of(page@).take(i as int) =~= page_of(page@));
    grown
}

/// All records of a page, copied out in page order.
pub fn page_records(page: &Vec<ClassifiedBlob>) -> (records: Vec<Record>)
    ensures
        records_of(records@) == records_in(page_of(page@)),
{
    let mut records: Vec<Record> = Vec::new();
    let mut i: usize = 0;
    assert(page_of(page@).take(0) =~= Seq::empty());
    assert(records_of(records@) =~= Seq::empty());
    while i < page.len()
        invariant
            i <= page.len(),
            records_of(records@) == records_in(page_of(page@).take(i as int)),
        decreases page.len() - i,
    {
        let ghost before = records@;
        let ghost prefix = page_of(page@).take(i as int + 1);
        assert(prefix.drop_last() =~= page_of(page@).take(i as int));
        assert(prefix.last() == page_of(page@)[i as int]);
        match &page[i] {
            ClassifiedBlob::Record(record) => {
                records.push(record.clone());
                assert(records_of(records@) =~= records_of(before).push(record@));
            },
            _ => {},
        }
        i += 1;
    }
    assert(page_of(page@).take(i as int) =~= page_of(page@));
    records
}

} // verus!
