//! The store's metadata record: where the store begins in the log, how many
//! records it holds, a directory from record id to the log position of the
//! record's latest write, and the ids that have been deleted.

use crate::record::{utc_now, Timestamp};
use vstd::prelude::*;
use vstd::string::*;

verus! {

/// One line of the directory: a record id and the log position that holds the
/// record's latest value.
#[derive(Debug, Clone)]
pub struct IndexEntry {
    pub id: String,
    pub height: u64,
}

/// The metadata of one store.
///
/// The directory keeps its entries in the order in which their ids were first
/// added, and no id occurs twice in it. An id that is both in the directory
/// and among the deleted ids counts as absent.
#[derive(Debug)]
pub struct DatabaseMetadata {
    start_height: u64,
    record_count: u64,
    last_updated: Timestamp,
    index: Vec<IndexEntry>,
    deleted: Vec<String>,
}

/// The position that stands for "the position of the blob that carries this
/// metadata". What is submitted has no position yet when it is written: the
/// first metadata of a store name this one as the start of the store, the
/// directory line of a record that travels with its metadata names it as the
/// position of the record, and whoever reads the metadata from the log puts
/// the position of the blob in its place. Log positions proper begin at 1.
pub const HERE: u64 = 0;

/// Mathematical content of a [`DatabaseMetadata`].
pub struct MetadataView {
    /// The log position at which the store begins.
    pub start_height: u64,
    /// How many records were added and not deleted since.
    pub record_count: u64,
    /// When the metadata last changed.
    pub last_updated: Timestamp,
    /// The directory, in insertion order: record id and log position.
    pub entries: Seq<(Seq<char>, u64)>,
    /// The deleted ids, in the order of their deletion.
    pub tombstones: Seq<Seq<char>>,
}

/// The directory lines as pairs of id text and position.
pub open spec fn entries_of(index: Seq<IndexEntry>) -> Seq<(Seq<char>, u64)> {
    Seq::new(index.len(), |i: int| (index[i].id@, index[i].height))
}

/// The texts of a sequence of strings.
pub open spec fn texts_of(strings: Seq<String>) -> Seq<Seq<char>> {
    Seq::new(strings.len(), |i: int| strings[i]@)
}

/// No id occurs in two directory lines.
pub open spec fn distinct_ids(entries: Seq<(Seq<char>, u64)>) -> bool {
    forall|i: int, j: int|
        0 <= i < j < entries.len() ==> (#[trigger] entries[i]).0 != (#[trigger] entries[j]).0
}

/// No text occurs twice.
pub open spec fn distinct_texts(texts: Seq<Seq<char>>) -> bool {
    forall|i: int, j: int| 0 <= i < j < texts.len() ==> #[trigger] texts[i] != #[trigger] texts[j]
}

impl MetadataView {
    /// Metadata of a store that begins at `start_height` and holds nothing.
    pub open spec fn empty(start_height: u64, now: Timestamp) -> MetadataView {
        MetadataView {
            start_height,
            record_count: 0,
            last_updated: now,
            entries: Seq::empty(),
            tombstones: Seq::empty(),
        }
    }

    /// Validity: ids are unique in the directory, deleted ids are listed
    /// once, and the record count covers the directory.
    pub open spec fn wf(self) -> bool {
        &&& distinct_ids(self.entries)
        &&& distinct_texts(self.tombstones)
        &&& self.entries.len() <= self.record_count
    }

    /// Whether the directory has a line for `id`.
    pub open spec fn indexes(self, id: Seq<char>) -> bool {
        exists|i: int| 0 <= i < self.entries.len() && (#[trigger] self.entries[i]).0 == id
    }

    /// The directory line for `id`, where there is one.
    pub open spec fn position(self, id: Seq<char>) -> int {
        choose|i: int| 0 <= i < self.entries.len() && (#[trigger] self.entries[i]).0 == id
    }

    /// The position that the directory records for `id`, deleted or not.
    pub open spec fn height_of(self, id: Seq<char>) -> Option<u64> {
        if self.indexes(id) {
            Some(self.entries[self.position(id)].1)
        } else {
            None
        }
    }

    /// Whether `id` has been deleted.
    pub open spec fn is_deleted(self, id: Seq<char>) -> bool {
        self.tombstones.contains(id)
    }

    /// Whether `id` names a record of the store: it is in the directory and
    /// has not been deleted.
    pub open spec fn record_exists(self, id: Seq<char>) -> bool {
        self.indexes(id) && !self.is_deleted(id)
    }

    /// The log position of the record `id`, unless it is absent or deleted.
    pub open spec fn record_height(self, id: Seq<char>) -> Option<u64> {
        if self.is_deleted(id) {
            None
        } else {
            self.height_of(id)
        }
    }

    /// The directory as a map from id to position.
    pub open spec fn index(self) -> Map<Seq<char>, u64> {
        Map::new(|id: Seq<char>| self.indexes(id), |id: Seq<char>| self.height_of(id)->0)
    }

    /// The deleted ids as a set.
    pub open spec fn deleted(self) -> Set<Seq<char>> {
        Set::new(|id: Seq<char>| self.is_deleted(id))
    }

    /// The directory after `id` has been pointed at `height`: an existing
    /// line is overwritten in place, a new id is appended.
    pub open spec fn entries_with(self, id: Seq<char>, height: u64) -> Seq<(Seq<char>, u64)> {
        if self.indexes(id) {
            self.entries.update(self.position(id), (id, height))
        } else {
            self.entries.push((id, height))
        }
    }

    /// The metadata after a record was added at `height`: the count grows by
    /// one and the directory points `id` at `height`.
    pub open spec fn add_record(self, id: Seq<char>, height: u64, now: Timestamp) -> MetadataView {
        MetadataView {
            record_count: (self.record_count + 1) as u64,
            last_updated: now,
            entries: self.entries_with(id, height),
            ..self
        }
    }

    /// The metadata after a new value of the record `id` was written at
    /// `height`. Nothing changes where the directory has no line for `id`.
    pub open spec fn relocate_record(self, id: Seq<char>, height: u64, now: Timestamp)
        -> MetadataView {
        if self.indexes(id) {
            MetadataView { last_updated: now, entries: self.entries_with(id, height), ..self }
        } else {
            self
        }
    }

    /// The metadata after the record `id` was deleted: its directory line is
    /// gone, the count shrinks by one and the id is among the deleted ones.
    /// Nothing changes where the directory has no line for `id`.
    pub open spec fn delete_record(self, id: Seq<char>, now: Timestamp) -> MetadataView {
        if self.indexes(id) {
            MetadataView {
                record_count: (self.record_count - 1) as u64,
                last_updated: now,
                entries: self.entries.remove(self.position(id)),
                tombstones: if self.is_deleted(id) {
                    self.tombstones
                } else {
                    self.tombstones.push(id)
                },
                ..self
            }
        } else {
            self
        }
    }

    /// Whether the start or a directory line still names the position
    /// [`HERE`].
    pub open spec fn is_pending(self) -> bool {
        ||| self.start_height == HERE
        ||| exists|i: int| 0 <= i < self.entries.len() && (#[trigger] self.entries[i]).1 == HERE
    }

    /// The metadata as read from a blob at `position`: the start and every
    /// directory line that name [`HERE`] name `position` instead.
    pub open spec fn resolved(self, position: u64) -> MetadataView {
        MetadataView {
            start_height: if self.start_height == HERE {
                position
            } else {
                self.start_height
            },
            entries: Seq::new(
                self.entries.len(),
                |i: int|
                    if self.entries[i].1 == HERE {
                        (self.entries[i].0, position)
                    } else {
                        self.entries[i]
                    },
            ),
            ..self
        }
    }

    /// The metadata after the record `id` was deleted, whether the directory
    /// holds it or not: the id is among the deleted ones; a directory line
    /// for it is gone, and the count shrinks by one with it.
    pub open spec fn buried(self, id: Seq<char>, now: Timestamp) -> MetadataView {
        if self.indexes(id) {
            self.delete_record(id, now)
        } else {
            MetadataView {
                last_updated: now,
                tombstones: if self.is_deleted(id) {
                    self.tombstones
                } else {
                    self.tombstones.push(id)
                },
                ..self
            }
        }
    }
}

/// In a directory without repeated ids, the line that holds an id is the
/// line of that id.
pub proof fn lemma_position(m: MetadataView, id: Seq<char>, i: int)
    requires
        distinct_ids(m.entries),
        0 <= i < m.entries.len(),
        m.entries[i].0 == id,
    ensures
        m.indexes(id),
        m.position(id) == i,
        m.height_of(id) == Some(m.entries[i].1),
{
    let p = m.position(id);
    assert(0 <= p < m.entries.len() && m.entries[p].0 == id);
    if p < i {
        assert(m.entries[p].0 != m.entries[i].0);
    } else if i < p {
        assert(m.entries[i].0 != m.entries[p].0);
    }
}

/// Pointing an id at a position keeps the metadata valid and changes what
/// the directory says of that id, and of no other.
pub proof fn lemma_entries_with(m: MetadataView, id: Seq<char>, height: u64)
    requires
        m.wf(),
    ensures
        ({
            let after = MetadataView { entries: m.entries_with(id, height), ..m };
            &&& distinct_ids(after.entries)
            &&& after.entries.len() == m.entries.len() + if m.indexes(id) {
                0int
            } else {
                1int
            }
            &&& after.height_of(id) == Some(height)
            &&& forall|other: Seq<char>|
                other != id ==> #[trigger] after.height_of(other) == m.height_of(other)
            &&& after.index() == m.index().insert(id, height)
        }),
{
    let after = MetadataView { entries: m.entries_with(id, height), ..m };
    let place = if m.indexes(id) {
        m.position(id)
    } else {
        m.entries.len() as int
    };
    assert(0 <= place < after.entries.len());
    assert(after.entries[place] == (id, height));
    assert forall|i: int| 0 <= i < after.entries.len() && i != place implies #[trigger] after.entries[i]
        == m.entries[i] && after.entries[i].0 != id by {
        if m.indexes(id) {
            if i < place {
                assert(m.entries[i].0 != m.entries[place].0);
            } else {
                assert(m.entries[place].0 != m.entries[i].0);
            }
        }
    }
    assert(distinct_ids(after.entries)) by {
        assert forall|i: int, j: int| 0 <= i < j < after.entries.len() implies (
        #[trigger] after.entries[i]).0 != (#[trigger] after.entries[j]).0 by {
            if i != place && j != place {
                assert(m.entries[i].0 != m.entries[j].0);
            }
        }
    }
    lemma_position(after, id, place);
    assert forall|other: Seq<char>| other != id implies #[trigger] after.height_of(other)
        == m.height_of(other) by {
        if m.indexes(other) {
            let q = m.position(other);
            assert(after.entries[q] == m.entries[q]);
            lemma_position(after, other, q);
        } else if after.indexes(other) {
            let q = after.position(other);
            assert(after.entries[q] == m.entries[q]);
        }
    }
    assert(after.index() =~= m.index().insert(id, height)) by {
        assert forall|other: Seq<char>| after.index().dom().contains(other)
            <==> m.index().insert(id, height).dom().contains(other) by {
            if other != id {
                assert(after.height_of(other) == m.height_of(other));
            }
        }
        assert forall|other: Seq<char>| after.index().dom().contains(other) implies
            after.index()[other] == m.index().insert(id, height)[other] by {
            if other != id {
                assert(after.height_of(other) == m.height_of(other));
            }
        }
    }
}

/// Adding a record keeps the metadata valid, points its id at the new
/// position, leaves every other id and all deleted ids as they were.
pub proof fn lemma_add_record(m: MetadataView, id: Seq<char>, height: u64, now: Timestamp)
    requires
        m.wf(),
        m.record_count < u64::MAX,
    ensures
        m.add_record(id, height, now).wf(),
        m.add_record(id, height, now).height_of(id) == Some(height),
        m.add_record(id, height, now).index() == m.index().insert(id, height),
        m.add_record(id, height, now).deleted() == m.deleted(),
        m.add_record(id, height, now).record_count == m.record_count + 1,
        m.add_record(id, height, now).start_height == m.start_height,
{
    lemma_entries_with(m, id, height);
    let after = MetadataView { entries: m.entries_with(id, height), ..m };
    let added = m.add_record(id, height, now);
    assert(added.entries == after.entries);
    assert(added.height_of(id) == after.height_of(id));
    assert(added.index() =~= after.index());
    assert(added.deleted() =~= m.deleted());
}

/// Pointing a record at the position of its new value keeps the metadata
/// valid and changes only what the directory says of that record.
pub proof fn lemma_relocate_record(m: MetadataView, id: Seq<char>, height: u64, now: Timestamp)
    requires
        m.wf(),
        m.indexes(id),
    ensures
        m.relocate_record(id, height, now).wf(),
        m.relocate_record(id, height, now).height_of(id) == Some(height),
        m.relocate_record(id, height, now).index() == m.index().insert(id, height),
        m.relocate_record(id, height, now).deleted() == m.deleted(),
        m.relocate_record(id, height, now).record_count == m.record_count,
        m.relocate_record(id, height, now).start_height == m.start_height,
{
    lemma_entries_with(m, id, height);
    let after = MetadataView { entries: m.entries_with(id, height), ..m };
    let moved = m.relocate_record(id, height, now);
    assert(moved.entries == after.entries);
    assert(moved.height_of(id) == after.height_of(id));
    assert(moved.index() =~= after.index());
    assert(moved.deleted() =~= m.deleted());
}

/// Deleting a record keeps the metadata valid, takes its id out of the
/// directory and puts it among the deleted ids; every other id stays as it
/// was.
pub proof fn lemma_delete_record(m: MetadataView, id: Seq<char>, now: Timestamp)
    requires
        m.wf(),
        m.indexes(id),
    ensures
        m.delete_record(id, now).wf(),
        !m.delete_record(id, now).indexes(id),
        m.delete_record(id, now).is_deleted(id),
        m.delete_record(id, now).index() == m.index().remove(id),
        m.delete_record(id, now).deleted() == m.deleted().insert(id),
        m.delete_record(id, now).record_count == m.record_count - 1,
        m.delete_record(id, now).start_height == m.start_height,
{
    let after = m.delete_record(id, now);
    let place = m.position(id);
    assert(0 <= place < m.entries.len() && m.entries[place].0 == id);
    assert forall|i: int| 0 <= i < after.entries.len() implies #[trigger] after.entries[i] == (
    if i < place {
        m.entries[i]
    } else {
        m.entries[i + 1]
    }) && after.entries[i].0 != id by {
        if i < place {
            assert(m.entries[i].0 != m.entries[place].0);
        } else {
            assert(m.entries[place].0 != m.entries[i + 1].0);
        }
    }
    assert(distinct_ids(after.entries)) by {
        assert forall|i: int, j: int| 0 <= i < j < after.entries.len() implies (
        #[trigger] after.entries[i]).0 != (#[trigger] after.entries[j]).0 by {
            let a = if i < place {
                i
            } else {
                i + 1
            };
            let b = if j < place {
                j
            } else {
                j + 1
            };
            assert(m.entries[a].0 != m.entries[b].0);
        }
    }
    assert(distinct_texts(after.tombstones)) by {
        if !m.is_deleted(id) {
            assert forall|i: int, j: int| 0 <= i < j < after.tombstones.len() implies
                #[trigger] after.tombstones[i] != #[trigger] after.tombstones[j] by {
                if j == m.tombstones.len() {
                    assert(m.tombstones[i] != id);
                }
            }
        }
    }
    assert(after.is_deleted(id)) by {
        if !m.is_deleted(id) {
            assert(after.tombstones[m.tombstones.len() as int] == id);
        }
    }
    assert(!after.indexes(id));
    assert forall|other: Seq<char>| other != id implies #[trigger] after.height_of(other)
        == m.height_of(other) by {
        if m.indexes(other) {
            let q = m.position(other);
            let q2 = if q < place {
                q
            } else {
                q - 1
            };
            assert(after.entries[q2] == m.entries[q]);
            lemma_position(after, other, q2);
        } else if after.indexes(other) {
            let q = after.position(other);
            let q0 = if q < place {
                q
            } else {
                q + 1
            };
            assert(m.entries[q0].0 == other);
        }
    }
    assert(after.index() =~= m.index().remove(id)) by {
        assert forall|other: Seq<char>| after.index().dom().contains(other) <==> m.index().remove(
            id,
        ).dom().contains(other) by {
            if other != id {
                assert(after.height_of(other) == m.height_of(other));
            }
        }
        assert forall|other: Seq<char>| after.index().dom().contains(other) implies
            after.index()[other] == m.index().remove(id)[other] by {
            if other != id {
                assert(after.height_of(other) == m.height_of(other));
            }
        }
    }
    assert(after.deleted() =~= m.deleted().insert(id)) by {
        assert forall|other: Seq<char>| after.is_deleted(other) <==> (m.is_deleted(other) || other
            == id) by {
            if m.is_deleted(id) {
            } else {
                if m.is_deleted(other) {
                    let k = choose|k: int|
                        0 <= k < m.tombstones.len() && m.tombstones[k] == other;
                    assert(after.tombstones[k] == other);
                }
                if after.is_deleted(other) && other != id {
                    let k = choose|k: int|
                        0 <= k < after.tombstones.len() && after.tombstones[k] == other;
                    assert(m.tombstones[k] == other);
                }
            }
        }
    }
}

/// Reading metadata from a blob at a position keeps them valid, keeps the
/// ids of the directory and all else but the positions, and puts the
/// position in place of [`HERE`].
pub proof fn lemma_resolved(m: MetadataView, position: u64)
    requires
        m.wf(),
    ensures
        m.resolved(position).wf(),
        m.resolved(position).tombstones == m.tombstones,
        m.resolved(position).start_height == if m.start_height == HERE {
            position
        } else {
            m.start_height
        },
        m.resolved(position).record_count == m.record_count,
        m.resolved(position).last_updated == m.last_updated,
        !m.is_pending() ==> m.resolved(position) == m,
        forall|id: Seq<char>| #[trigger] m.resolved(position).indexes(id) == m.indexes(id),
        forall|id: Seq<char>|
            m.indexes(id) ==> #[trigger] m.resolved(position).height_of(id) == Some(
                if m.height_of(id)->0 == HERE {
                    position
                } else {
                    m.height_of(id)->0
                },
            ),
{
    let after = m.resolved(position);
    assert forall|i: int| 0 <= i < m.entries.len() implies (#[trigger] after.entries[i]).0
        == m.entries[i].0 by {}
    assert(distinct_ids(after.entries)) by {
        assert forall|i: int, j: int| 0 <= i < j < after.entries.len() implies (
        #[trigger] after.entries[i]).0 != (#[trigger] after.entries[j]).0 by {
            assert(m.entries[i].0 != m.entries[j].0);
        }
    }
    if !m.is_pending() {
        assert(after.entries =~= m.entries);
    }
    assert forall|id: Seq<char>| #[trigger] after.indexes(id) == m.indexes(id) by {
        if m.indexes(id) {
            let q = m.position(id);
            assert(after.entries[q].0 == id);
        }
        if after.indexes(id) {
            let q = after.position(id);
            assert(m.entries[q].0 == id);
        }
    }
    assert forall|id: Seq<char>| m.indexes(id) implies #[trigger] after.height_of(id) == Some(
        if m.height_of(id)->0 == HERE {
            position
        } else {
            m.height_of(id)->0
        },
    ) by {
        let q = m.position(id);
        assert(after.entries[q].0 == id);
        lemma_position(after, id, q);
    }
}

/// Deleting a record, whether the directory holds it or not, keeps the
/// metadata valid, puts its id among the deleted ones and keeps all that
/// was deleted before.
pub proof fn lemma_buried(m: MetadataView, id: Seq<char>, now: Timestamp)
    requires
        m.wf(),
    ensures
        m.buried(id, now).wf(),
        m.buried(id, now).is_deleted(id),
        m.buried(id, now).start_height == m.start_height,
        forall|other: Seq<char>| m.is_deleted(other) ==> #[trigger] m.buried(id, now).is_deleted(
            other,
        ),
        m.buried(id, now).record_count == if m.indexes(id) {
            m.record_count - 1
        } else {
            m.record_count as int
        },
{
    let after = m.buried(id, now);
    if m.indexes(id) {
        lemma_delete_record(m, id, now);
        assert forall|other: Seq<char>| m.is_deleted(other) implies #[trigger] after.is_deleted(
            other,
        ) by {
            assert(m.deleted().contains(other));
            assert(after.deleted().contains(other));
        }
    } else {
        if !m.is_deleted(id) {
            assert(after.tombstones[m.tombstones.len() as int] == id);
            assert forall|i: int, j: int| 0 <= i < j < after.tombstones.len() implies
                #[trigger] after.tombstones[i] != #[trigger] after.tombstones[j] by {
                if j == m.tombstones.len() {
                    assert(m.tombstones[i] != id);
                }
            }
            assert forall|other: Seq<char>| m.is_deleted(other) implies #[trigger] after.is_deleted(
                other,
            ) by {
                let k = choose|k: int| 0 <= k < m.tombstones.len() && m.tombstones[k] == other;
                assert(after.tombstones[k] == other);
            }
        }
    }
}

/// Whether no id occurs in two lines of `index`.
fn has_distinct_ids(index: &Vec<IndexEntry>) -> (distinct: bool)
    ensures
        distinct == distinct_ids(entries_of(index@)),
{
    let ghost entries = entries_of(index@);
    let mut j: usize = 0;
    while j < index.len()
        invariant
            j <= index.len(),
            entries == entries_of(index@),
            forall|a: int, b: int|
                0 <= a < b < j ==> (#[trigger] entries[a]).0 != (#[trigger] entries[b]).0,
        decreases index.len() - j,
    {
        let mut i: usize = 0;
        while i < j
            invariant
                i <= j < index.len(),
                entries == entries_of(index@),
                forall|a: int| 0 <= a < i ==> (#[trigger] entries[a]).0 != entries[j as int].0,
            decreases j - i,
        {
            if index[i].id == index[j].id {
                assert(entries[i as int].0 == entries[j as int].0);
                return false;
            }
            i += 1;
        }
        j += 1;
    }
    true
}

/// Whether no text occurs twice in `strings`.
fn has_distinct_texts(strings: &Vec<String>) -> (distinct: bool)
    ensures
        distinct == distinct_texts(texts_of(strings@)),
{
    let ghost texts = texts_of(strings@);
    let mut j: usize = 0;
    while j < strings.len()
        invariant
            j <= strings.len(),
            texts == texts_of(strings@),
            forall|a: int, b: int| 0 <= a < b < j ==> #[trigger] texts[a] != #[trigger] texts[b],
        decreases strings.len() - j,
    {
        let mut i: usize = 0;
        while i < j
            invariant
                i <= j < strings.len(),
                texts == texts_of(strings@),
                forall|a: int| 0 <= a < i ==> #[trigger] texts[a] != texts[j as int],
            decreases j - i,
        {
            if strings[i] == strings[j] {
                assert(texts[i as int] == texts[j as int]);
                return false;
            }
            i += 1;
        }
        j += 1;
    }
    true
}

impl View for DatabaseMetadata {
    type V = MetadataView;

    closed spec fn view(&self) -> MetadataView {
        MetadataView {
            start_height: self.start_height,
            record_count: self.record_count,
            last_updated: self.last_updated,
            entries: entries_of(self.index@),
            tombstones: texts_of(self.deleted@),
        }
    }
}

impl DatabaseMetadata {
    /// Every value of the type is valid.
    #[verifier::type_invariant]
    pub open spec fn valid(&self) -> bool {
        self@.wf()
    }

    /// Metadata of a store that begins at `start_height` and holds nothing,
    /// stamped with the time `now`.
    pub fn anchored(start_height: u64, now: Timestamp) -> (metadata: DatabaseMetadata)
        ensures
            metadata@ == MetadataView::empty(start_height, now),
            metadata@.wf(),
    {
        let metadata = DatabaseMetadata {
            start_height,
            record_count: 0,
            last_updated: now,
            index: Vec::new(),
            deleted: Vec::new(),
        };
        assert(metadata@.entries =~= Seq::empty());
        assert(metadata@.tombstones =~= Seq::empty());
        metadata
    }

    /// Empty metadata that begins at position 0, stamped with the current
    /// time.
    pub fn new() -> (metadata: DatabaseMetadata)
        ensures
            metadata@ == MetadataView::empty(0, metadata@.last_updated),
            metadata@.wf(),
    {
        let now = utc_now();
        DatabaseMetadata::anchored(0, now)
    }

    /// Metadata with the given content, or `None` where that content is not
    /// valid: an id in two directory lines, an id deleted twice, or a record
    /// count below the length of the directory.
    pub fn from_parts(
        start_height: u64,
        record_count: u64,
        last_updated: Timestamp,
        index: Vec<IndexEntry>,
        deleted: Vec<String>,
    ) -> (metadata: Option<DatabaseMetadata>)
        ensures
            metadata is Some <==> (MetadataView {
                start_height,
                record_count,
                last_updated,
                entries: entries_of(index@),
                tombstones: texts_of(deleted@),
            }).wf(),
            metadata matches Some(m) ==> m@ == (MetadataView {
                start_height,
                record_count,
                last_updated,
                entries: entries_of(index@),
                tombstones: texts_of(deleted@),
            }),
    {
        if !has_distinct_ids(&index) {
            return None;
        }
        if !has_distinct_texts(&deleted) {
            return None;
        }
        if index.len() as u64 > record_count {
            return None;
        }
        Some(DatabaseMetadata { start_height, record_count, last_updated, index, deleted })
    }

    /// The line of the directory that holds `id`.
    fn find(&self, id: &String) -> (found: Option<usize>)
        ensures
            found is Some <==> self@.indexes(id@),
            found matches Some(i) ==> i < self@.entries.len() && self@.position(id@) == i,
    {
        proof {
            use_type_invariant(self);
        }
        let mut i: usize = 0;
        while i < self.index.len()
            invariant
                i <= self.index.len(),
                self@.wf(),
                forall|a: int| 0 <= a < i ==> (#[trigger] self@.entries[a]).0 != id@,
            decreases self.index.len() - i,
        {
            if self.index[i].id == *id {
                proof {
                    assert(self@.entries[i as int].0 == id@);
                    let p = self@.position(id@);
                    assert(0 <= p < self@.entries.len() && self@.entries[p].0 == id@);
                    assert(p == i) by {
                        if p < i {
                            assert(self@.entries[p].0 != self@.entries[i as int].0);
                        } else if i < p {
                            assert(self@.entries[i as int].0 != self@.entries[p].0);
                        }
                    }
                }
                return Some(i);
            }
            i += 1;
        }
        None
    }

    /// Whether `id` is among the deleted ids.
    fn is_tombstoned(&self, id: &String) -> (deleted: bool)
        ensures
            deleted == self@.is_deleted(id@),
    {
        let mut i: usize = 0;
        while i < self.deleted.len()
            invariant
                i <= self.deleted.len(),
                forall|a: int| 0 <= a < i ==> #[trigger] self@.tombstones[a] != id@,
            decreases self.deleted.len() - i,
        {
            if self.deleted[i] == *id {
                assert(self@.tombstones[i as int] == id@);
                return true;
            }
            i += 1;
        }
        false
    }

    /// Points the directory line of `id` at `height`, appending a line where
    /// there is none.
    fn point_at(&mut self, id: String, height: u64)
        requires
            old(self)@.entries.len() < old(self)@.record_count || old(self)@.indexes(id@),
        ensures
            final(self)@ == (MetadataView {
                entries: old(self)@.entries_with(id@, height),
                ..old(self)@
            }),
            final(self)@.wf(),
            final(self)@.entries.len() == old(self)@.entries.len() + (if old(self)@.indexes(id@) {
                0int
            } else {
                1int
            }),
    {
        proof {
            use_type_invariant(&*self);
        }
        let ghost before = self@;
        let found = self.find(&id);
        let mut index: Vec<IndexEntry> = Vec::new();
        core::mem::swap(&mut self.index, &mut index);
        match found {
            Some(i) => {
                index.set(i, IndexEntry { id, height });
                assert(entries_of(index@) =~= before.entries.update(i as int, (id@, height)));
            },
            None => {
                index.push(IndexEntry { id, height });
                assert(entries_of(index@) =~= before.entries.push((id@, height)));
            },
        }
        core::mem::swap(&mut self.index, &mut index);
    }

    /// Records that a record was added under `record_id` at the log position
    /// `height`, at time `now`. An id that the directory already holds is
    /// pointed at the new position; the count grows either way.
    pub fn add_record_at(&mut self, record_id: String, height: u64, now: Timestamp)
        requires
            old(self)@.record_count < u64::MAX,
        ensures
            final(self)@ == old(self)@.add_record(record_id@, height, now),
            final(self)@.wf(),
    {
        proof {
            use_type_invariant(&*self);
        }
        self.record_count += 1;
        self.point_at(record_id, height);
        self.last_updated = now;
    }

    /// Records that a record was added under `record_id` at the log position
    /// `height`, stamped with the current time.
    pub fn add_record(&mut self, record_id: String, height: u64)
        requires
            old(self)@.record_count < u64::MAX,
        ensures
            final(self)@ == old(self)@.add_record(record_id@, height, final(self)@.last_updated),
            final(self)@.wf(),
    {
        let now = utc_now();
        self.add_record_at(record_id, height, now);
    }

    /// Points the record `record_id` at the position `height` of its new
    /// value, at time `now`. Returns whether the directory holds the id;
    /// nothing changes where it does not.
    pub fn relocate_record_at(&mut self, record_id: &str, height: u64, now: Timestamp) -> (known:
        bool)
        ensures
            known == old(self)@.indexes(record_id@),
            final(self)@ == old(self)@.relocate_record(record_id@, height, now),
            final(self)@.wf(),
    {
        proof {
            use_type_invariant(&*self);
        }
        let id = record_id.to_owned();
        if self.find(&id).is_some() {
            self.point_at(id, height);
            self.last_updated = now;
            true
        } else {
            false
        }
    }

    /// Marks the record `record_id` as deleted, at time `now`. Returns
    /// whether the directory held the id; nothing changes where it did not.
    pub fn delete_record_at(&mut self, record_id: &str, now: Timestamp) -> (removed: bool)
        ensures
            removed == old(self)@.indexes(record_id@),
            final(self)@ == old(self)@.delete_record(record_id@, now),
            final(self)@.wf(),
    {
        proof {
            use_type_invariant(&*self);
        }
        let ghost before = self@;
        let id = record_id.to_owned();
        match self.find(&id) {
            Some(i) => {
                let mut index: Vec<IndexEntry> = Vec::new();
                core::mem::swap(&mut self.index, &mut index);
                index.remove(i);
                assert(entries_of(index@) =~= before.entries.remove(i as int));
                core::mem::swap(&mut self.index, &mut index);
                self.record_count -= 1;
                if !self.is_tombstoned(&id) {
                    let mut deleted: Vec<String> = Vec::new();
                    core::mem::swap(&mut self.deleted, &mut deleted);
                    deleted.push(id);
                    assert(texts_of(deleted@) =~= before.tombstones.push(record_id@));
                    core::mem::swap(&mut self.deleted, &mut deleted);
                }
                self.last_updated = now;
                true
            },
            None => false,
        }
    }

    /// Marks the record `record_id` as deleted, stamped with the current
    /// time. Returns whether the directory held the id; nothing changes where
    /// it did not.
    pub fn delete_record(&mut self, record_id: &str) -> (removed: bool)
        ensures
            removed == old(self)@.indexes(record_id@),
            final(self)@ == old(self)@.delete_record(record_id@, final(self)@.last_updated),
            final(self)@.wf(),
    {
        let now = utc_now();
        self.delete_record_at(record_id, now)
    }

    /// Whether `record_id` names a record that exists and is not deleted.
    pub fn record_exists(&self, record_id: &str) -> (exists: bool)
        ensures
            exists == self@.record_exists(record_id@),
    {
        let id = record_id.to_owned();
        self.find(&id).is_some() && !self.is_tombstoned(&id)
    }

    /// The log position of the record `record_id`, if the record exists and
    /// is not deleted.
    pub fn get_record_height(&self, record_id: &str) -> (height: Option<u64>)
        ensures
            height == self@.record_height(record_id@),
    {
        let id = record_id.to_owned();
        if self.is_tombstoned(&id) {
            None
        } else {
            match self.find(&id) {
                Some(i) => Some(self.index[i].height),
                None => None,
            }
        }
    }

    /// Whether the start or a directory line still names the position
    /// [`HERE`].
    pub fn is_pending(&self) -> (pending: bool)
        ensures
            pending == self@.is_pending(),
    {
        if self.start_height == HERE {
            return true;
        }
        let mut i: usize = 0;
        while i < self.index.len()
            invariant
                i <= self.index.len(),
                forall|j: int| 0 <= j < i ==> (#[trigger] self@.entries[j]).1 != HERE,
            decreases self.index.len() - i,
        {
            if self.index[i].height == HERE {
                assert(self@.entries[i as int].1 == HERE);
                return true;
            }
            i += 1;
        }
        false
    }

    /// Takes the metadata as read from a blob at `position`: the start and
    /// every directory line that name [`HERE`] are made to name `position`.
    pub fn resolve(&mut self, position: u64)
        ensures
            final(self)@ == old(self)@.resolved(position),
    {
        proof {
            use_type_invariant(&*self);
            lemma_resolved(self@, position);
        }
        let ghost before = self@;
        let mut index: Vec<IndexEntry> = Vec::new();
        core::mem::swap(&mut self.index, &mut index);
        let mut i: usize = 0;
        while i < index.len()
            invariant
                i <= index.len(),
                index.len() == before.entries.len(),
                forall|j: int|
                    0 <= j < i ==> #[trigger] entries_of(index@)[j] == before.resolved(
                        position,
                    ).entries[j],
                forall|j: int|
                    i <= j < index.len() ==> #[trigger] entries_of(index@)[j] == before.entries[j],
            decreases index.len() - i,
        {
            let ghost earlier = index@;
            assert(entries_of(earlier)[i as int] == before.entries[i as int]);
            if index[i].height == HERE {
                let id = index[i].id.clone();
                index.set(i, IndexEntry { id, height: position });
            }
            assert forall|j: int| 0 <= j < index.len() && j != i implies #[trigger] entries_of(
                index@,
            )[j] == entries_of(earlier)[j] by {
                assert(index@[j] == earlier[j]);
            }
            assert(entries_of(index@)[i as int] == before.resolved(position).entries[i as int]);
            i += 1;
        }
        assert(entries_of(index@) =~= before.resolved(position).entries);
        core::mem::swap(&mut self.index, &mut index);
        if self.start_height == HERE {
            self.start_height = position;
        }
    }

    /// Whether the id is among the deleted ids.
    pub fn is_deleted(&self, record_id: &str) -> (deleted: bool)
        ensures
            deleted == self@.is_deleted(record_id@),
    {
        let id = record_id.to_owned();
        self.is_tombstoned(&id)
    }

    /// Marks the record `record_id` as deleted, at time `now`, whether the
    /// directory holds it or not.
    pub fn bury_record_at(&mut self, record_id: &str, now: Timestamp)
        ensures
            final(self)@ == old(self)@.buried(record_id@, now),
    {
        proof {
            use_type_invariant(&*self);
        }
        let ghost before = self@;
        if !self.delete_record_at(record_id, now) {
            let id = record_id.to_owned();
            if !self.is_tombstoned(&id) {
                let mut deleted: Vec<String> = Vec::new();
                core::mem::swap(&mut self.deleted, &mut deleted);
                deleted.push(id);
                assert(texts_of(deleted@) =~= before.tombstones.push(record_id@));
                core::mem::swap(&mut self.deleted, &mut deleted);
            }
            self.last_updated = now;
        }
    }

    /// The log position at which the store begins.
    pub fn start_height(&self) -> (height: u64)
        ensures
            height == self@.start_height,
    {
        self.start_height
    }

    /// How many records were added and not deleted since.
    pub fn record_count(&self) -> (count: u64)
        ensures
            count == self@.record_count,
    {
        self.record_count
    }

    /// When the metadata last changed.
    pub fn last_updated(&self) -> (at: Timestamp)
        ensures
            at == self@.last_updated,
    {
        self.last_updated
    }

    /// Number of lines in the directory.
    pub fn index_len(&self) -> (len: usize)
        ensures
            len == self@.entries.len(),
    {
        self.index.len()
    }

    /// The line `i` of the directory.
    pub fn index_entry(&self, i: usize) -> (entry: &IndexEntry)
        requires
            i < self@.entries.len(),
        ensures
            (entry.id@, entry.height) == self@.entries[i as int],
    {
        &self.index[i]
    }

    /// Number of deleted ids.
    pub fn deleted_len(&self) -> (len: usize)
        ensures
            len == self@.tombstones.len(),
    {
        self.deleted.len()
    }

    /// The deleted id number `i`.
    pub fn deleted_id(&self, i: usize) -> (id: &String)
        requires
            i < self@.tombstones.len(),
        ensures
            id@ == self@.tombstones[i as int],
    {
        &self.deleted[i]
    }
}

impl Clone for DatabaseMetadata {
    fn clone(&self) -> (copy: DatabaseMetadata)
        ensures
            copy@ == self@,
    {
        proof {
            use_type_invariant(self);
        }
        let mut index: Vec<IndexEntry> = Vec::new();
        let mut i: usize = 0;
        while i < self.index.len()
            invariant
                i <= self.index.len(),
                entries_of(index@) == entries_of(self.index@).subrange(0, i as int),
            decreases self.index.len() - i,
        {
            let ghost before = index@;
            index.push(IndexEntry { id: self.index[i].id.clone(), height: self.index[i].height });
            assert(entries_of(index@) =~= entries_of(before).push(entries_of(self.index@)[i as int]));
            i += 1;
        }
        assert(entries_of(self.index@).subrange(0, i as int) =~= entries_of(self.index@));
        let mut deleted: Vec<String> = Vec::new();
        let mut j: usize = 0;
        while j < self.deleted.len()
            invariant
                j <= self.deleted.len(),
                texts_of(deleted@) == texts_of(self.deleted@).subrange(0, j as int),
            decreases self.deleted.len() - j,
        {
            let ghost before = deleted@;
            deleted.push(self.deleted[j].clone());
            assert(texts_of(deleted@) =~= texts_of(before).push(texts_of(self.deleted@)[j as int]));
            j += 1;
        }
        assert(texts_of(self.deleted@).subrange(0, j as int) =~= texts_of(self.deleted@));
        DatabaseMetadata {
            start_height: self.start_height,
            record_count: self.record_count,
            last_updated: self.last_updated,
            index,
            deleted,
        }
    }
}

} // verus!
