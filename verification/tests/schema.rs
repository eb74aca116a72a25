use dummy_rollup::blob::{
    absorb_page, classify, find_metadata, find_record, page_records, ClassifiedBlob,
};
use dummy_rollup::error::{DatabaseError, ErrorKind};
use dummy_rollup::metadata::{DatabaseMetadata, IndexEntry};
use dummy_rollup::namespace::{pad_namespace, NAMESPACE_WIDTH};
use dummy_rollup::record::{Record, MINTED_ID_LENGTH};
use dummy_rollup::scanner::{Direction, RangeScanner};
use dummy_rollup::window::{search_window_start, DEFAULT_SEARCH_LIMIT};

fn entry(id: &str, height: u64) -> IndexEntry {
    IndexEntry { id: id.to_string(), height }
}

fn walk(mut scanner: RangeScanner) -> Vec<u64> {
    let mut seen = Vec::new();
    while let Some(position) = scanner.next_position() {
        seen.push(position);
    }
    assert_eq!(scanner.next_position(), None);
    seen
}

#[test]
fn new_record_has_a_fresh_id_and_no_update_time() {
    let a = Record::new(vec![1, 2, 3]);
    let b = Record::new(vec![1, 2, 3]);
    assert_eq!(a.id.len(), MINTED_ID_LENGTH);
    assert_eq!(a.id.len(), 36);
    assert_ne!(a.id, b.id);
    for id in [&a.id, &b.id] {
        for (place, letter) in id.chars().enumerate() {
            if [8, 13, 18, 23].contains(&place) {
                assert_eq!(letter, '-');
            } else {
                assert!(matches!(letter, '0'..='9' | 'a'..='f'), "{} at {}", letter, place);
            }
        }
        assert_eq!(id.chars().nth(14), Some('4'));
        assert!(matches!(id.chars().nth(19), Some('8' | '9' | 'a' | 'b')));
    }
    assert_eq!(a.data, vec![1, 2, 3]);
    assert_eq!(a.updated_at, None);
    assert!(a.created_at > 1_600_000_000_000_000);
}

#[test]
fn record_with_key_keeps_the_key() {
    let record = Record::with_key("colour".to_string(), b"blue".to_vec());
    assert_eq!(record.id, "colour");
    assert_eq!(record.data, b"blue".to_vec());
    assert_eq!(record.updated_at, None);
}

#[test]
fn record_update_replaces_payload_and_stamps_time() {
    let mut record = Record::created("id".to_string(), vec![1], 10);
    assert_eq!(record.created_at, 10);
    record.update_at(vec![2, 3], 25);
    assert_eq!(record.id, "id");
    assert_eq!(record.created_at, 10);
    assert_eq!(record.updated_at, Some(25));
    assert_eq!(record.data, vec![2, 3]);
    record.update(vec![4]);
    assert_eq!(record.data, vec![4]);
    assert_eq!(record.created_at, 10);
    assert!(record.updated_at.unwrap() > 1_600_000_000_000_000);
    let copy = record.clone();
    assert_eq!(copy.id, record.id);
    assert_eq!(copy.data, record.data);
    assert_eq!(copy.created_at, record.created_at);
    assert_eq!(copy.updated_at, record.updated_at);
    assert!(record.has_id(&"id".to_string()));
    assert!(!record.has_id(&"ID".to_string()));
}

#[test]
fn new_metadata_is_empty() {
    let metadata = DatabaseMetadata::new();
    assert_eq!(metadata.start_height(), 0);
    assert_eq!(metadata.record_count(), 0);
    assert_eq!(metadata.index_len(), 0);
    assert_eq!(metadata.deleted_len(), 0);
    assert!(metadata.last_updated() > 1_600_000_000_000_000);
    let anchored = DatabaseMetadata::anchored(17, 99);
    assert_eq!(anchored.start_height(), 17);
    assert_eq!(anchored.last_updated(), 99);
    assert_eq!(anchored.record_count(), 0);
}

#[test]
fn metadata_add_then_lookup() {
    let mut metadata = DatabaseMetadata::anchored(5, 0);
    metadata.add_record_at("a".to_string(), 10, 1);
    metadata.add_record_at("b".to_string(), 11, 2);
    assert_eq!(metadata.record_count(), 2);
    assert_eq!(metadata.last_updated(), 2);
    assert!(metadata.record_exists("a"));
    assert!(metadata.record_exists("b"));
    assert!(!metadata.record_exists("c"));
    assert_eq!(metadata.get_record_height("a"), Some(10));
    assert_eq!(metadata.get_record_height("b"), Some(11));
    assert_eq!(metadata.get_record_height("c"), None);
    // An id that is added again is pointed at the new position, in place.
    metadata.add_record_at("a".to_string(), 12, 3);
    assert_eq!(metadata.record_count(), 3);
    assert_eq!(metadata.index_len(), 2);
    assert_eq!(metadata.index_entry(0).id, "a");
    assert_eq!(metadata.index_entry(0).height, 12);
    assert_eq!(metadata.index_entry(1).id, "b");
    assert_eq!(metadata.get_record_height("a"), Some(12));
    assert_eq!(metadata.start_height(), 5);
    metadata.add_record("d".to_string(), 13);
    assert_eq!(metadata.get_record_height("d"), Some(13));
    assert_eq!(metadata.record_count(), 4);
}

#[test]
fn metadata_relocate_moves_a_known_id_only() {
    let mut metadata = DatabaseMetadata::anchored(5, 0);
    metadata.add_record_at("a".to_string(), 10, 1);
    assert!(metadata.relocate_record_at("a", 20, 2));
    assert_eq!(metadata.get_record_height("a"), Some(20));
    assert_eq!(metadata.record_count(), 1);
    assert_eq!(metadata.last_updated(), 2);
    assert!(!metadata.relocate_record_at("b", 30, 3));
    assert_eq!(metadata.get_record_height("b"), None);
    assert_eq!(metadata.index_len(), 1);
    assert_eq!(metadata.last_updated(), 2);
}

#[test]
fn metadata_delete_leaves_a_tombstone() {
    let mut metadata = DatabaseMetadata::anchored(5, 0);
    metadata.add_record_at("a".to_string(), 10, 1);
    metadata.add_record_at("b".to_string(), 11, 2);
    metadata.add_record_at("c".to_string(), 12, 3);
    assert!(metadata.delete_record_at("b", 4));
    assert_eq!(metadata.record_count(), 2);
    assert_eq!(metadata.last_updated(), 4);
    assert_eq!(metadata.index_len(), 2);
    assert_eq!(metadata.index_entry(0).id, "a");
    assert_eq!(metadata.index_entry(1).id, "c");
    assert_eq!(metadata.deleted_len(), 1);
    assert_eq!(metadata.deleted_id(0), "b");
    assert!(!metadata.record_exists("b"));
    assert_eq!(metadata.get_record_height("b"), None);
    assert!(!metadata.delete_record_at("b", 5));
    assert!(!metadata.delete_record("zzz"));
    assert_eq!(metadata.record_count(), 2);
    assert_eq!(metadata.last_updated(), 4);
    // The tombstone wins over a directory line for the same id.
    metadata.add_record_at("b".to_string(), 13, 6);
    assert_eq!(metadata.index_len(), 3);
    assert!(!metadata.record_exists("b"));
    assert_eq!(metadata.get_record_height("b"), None);
    assert!(metadata.delete_record("b"));
    assert_eq!(metadata.deleted_len(), 1);
    assert_eq!(metadata.index_len(), 2);
    assert_eq!(metadata.record_count(), 2);
}

#[test]
fn metadata_from_parts_checks_validity() {
    let good = DatabaseMetadata::from_parts(
        3,
        5,
        9,
        vec![entry("a", 4), entry("b", 6)],
        vec!["x".to_string(), "a".to_string()],
    )
    .unwrap();
    assert_eq!(good.start_height(), 3);
    assert_eq!(good.record_count(), 5);
    assert_eq!(good.last_updated(), 9);
    assert_eq!(good.index_len(), 2);
    assert_eq!(good.deleted_len(), 2);
    assert!(!good.record_exists("a"));
    assert!(good.record_exists("b"));
    assert_eq!(good.get_record_height("a"), None);
    assert_eq!(good.get_record_height("b"), Some(6));
    let copy = good.clone();
    assert_eq!(copy.index_entry(1).id, "b");
    assert_eq!(copy.index_entry(1).height, 6);
    assert_eq!(copy.deleted_id(1), "a");
    assert!(DatabaseMetadata::from_parts(3, 5, 9, vec![entry("a", 4), entry("a", 6)], vec![]).is_none());
    assert!(DatabaseMetadata::from_parts(3, 5, 9, vec![], vec!["x".to_string(), "x".to_string()]).is_none());
    assert!(DatabaseMetadata::from_parts(3, 1, 9, vec![entry("a", 4), entry("b", 6)], vec![]).is_none());
    assert!(DatabaseMetadata::from_parts(3, 2, 9, vec![entry("a", 4), entry("b", 6)], vec![]).is_some());
}

#[test]
fn metadata_read_at_a_position_names_it_in_place_of_here() {
    let mut metadata = DatabaseMetadata::from_parts(
        3,
        3,
        9,
        vec![entry("a", 4), entry("b", 0), entry("c", 6)],
        vec!["x".to_string()],
    )
    .unwrap();
    assert!(metadata.is_pending());
    assert_eq!(metadata.get_record_height("b"), Some(0));
    metadata.resolve(42);
    assert!(!metadata.is_pending());
    assert_eq!(metadata.get_record_height("a"), Some(4));
    assert_eq!(metadata.get_record_height("b"), Some(42));
    assert_eq!(metadata.get_record_height("c"), Some(6));
    assert_eq!(metadata.index_entry(1).id, "b");
    assert_eq!(metadata.start_height(), 3);
    assert_eq!(metadata.record_count(), 3);
    assert_eq!(metadata.last_updated(), 9);
    assert_eq!(metadata.deleted_len(), 1);
    metadata.resolve(50);
    assert_eq!(metadata.get_record_height("b"), Some(42));
    let mut fresh = DatabaseMetadata::anchored(0, 7);
    assert!(fresh.is_pending());
    fresh.resolve(31);
    assert_eq!(fresh.start_height(), 31);
    assert!(!fresh.is_pending());
    fresh.resolve(32);
    assert_eq!(fresh.start_height(), 31);
}

#[test]
fn metadata_bury_deletes_with_or_without_a_directory_line() {
    let mut metadata = DatabaseMetadata::anchored(5, 0);
    metadata.add_record_at("a".to_string(), 10, 1);
    assert!(!metadata.is_deleted("a"));
    metadata.bury_record_at("a", 2);
    assert!(metadata.is_deleted("a"));
    assert_eq!(metadata.index_len(), 0);
    assert_eq!(metadata.record_count(), 0);
    assert_eq!(metadata.last_updated(), 2);
    metadata.bury_record_at("b", 3);
    assert!(metadata.is_deleted("b"));
    assert_eq!(metadata.record_count(), 0);
    assert_eq!(metadata.deleted_len(), 2);
    assert_eq!(metadata.last_updated(), 3);
    metadata.bury_record_at("b", 4);
    assert_eq!(metadata.deleted_len(), 2);
    assert_eq!(metadata.last_updated(), 4);
    assert!(!metadata.is_deleted("c"));
}

#[test]
fn error_messages_name_their_kind() {
    let cases = [
        (DatabaseError::RecordNotFound("k".to_string()), ErrorKind::RecordNotFound, "Record not found: k"),
        (DatabaseError::SerializationError("bad".to_string()), ErrorKind::SerializationError, "Serialization error: bad"),
        (DatabaseError::CelestiaError("down".to_string()), ErrorKind::CelestiaError, "Celestia error: down"),
        (DatabaseError::SubmissionRejected("fee".to_string()), ErrorKind::SubmissionRejected, "Submission rejected: fee"),
        (DatabaseError::InvalidNamespace("short".to_string()), ErrorKind::InvalidNamespace, "Invalid namespace: short"),
        (DatabaseError::DatabaseError("odd".to_string()), ErrorKind::DatabaseError, "Database error: odd"),
    ];
    for (error, kind, text) in cases {
        assert_eq!(error.kind(), kind);
        assert_eq!(error.message(), text);
    }
}

#[test]
fn namespace_is_padded_in_front_or_cut_to_its_end() {
    assert_eq!(NAMESPACE_WIDTH, 10);
    assert_eq!(pad_namespace(b"demo", 10), vec![0, 0, 0, 0, 0, 0, b'd', b'e', b'm', b'o']);
    assert_eq!(pad_namespace(b"", 10), vec![0; 10]);
    assert_eq!(pad_namespace(b"0123456789", 10), b"0123456789".to_vec());
    assert_eq!(pad_namespace(b"abcdefghijklmno", 10), b"fghijklmno".to_vec());
    assert_eq!(pad_namespace(b"demo", 8), vec![0, 0, 0, 0, b'd', b'e', b'm', b'o']);
    assert_eq!(pad_namespace(b"demo", 0), Vec::<u8>::new());
}

#[test]
fn search_window_starts_at_head_minus_limit_but_not_below_one() {
    assert_eq!(DEFAULT_SEARCH_LIMIT, 100);
    assert_eq!(search_window_start(500, None), 400);
    assert_eq!(search_window_start(101, None), 1);
    assert_eq!(search_window_start(100, None), 1);
    assert_eq!(search_window_start(0, None), 1);
    assert_eq!(search_window_start(500, Some(1000)), 1);
    assert_eq!(search_window_start(5000, Some(1000)), 4000);
    assert_eq!(search_window_start(7, Some(0)), 7);
    assert_eq!(search_window_start(u64::MAX, Some(1)), u64::MAX - 1);
}

#[test]
fn scanner_walks_the_closed_range_once() {
    assert_eq!(walk(RangeScanner::descending(3, 6)), vec![6, 5, 4, 3]);
    assert_eq!(walk(RangeScanner::ascending(3, 6)), vec![3, 4, 5, 6]);
    assert_eq!(walk(RangeScanner::descending(4, 4)), vec![4]);
    assert_eq!(walk(RangeScanner::ascending(5, 4)), Vec::<u64>::new());
    assert_eq!(walk(RangeScanner::descending(1, 0)), Vec::<u64>::new());
    assert_eq!(walk(RangeScanner::descending(0, 1)), vec![1, 0]);
    assert_eq!(walk(RangeScanner::ascending(u64::MAX - 1, u64::MAX)), vec![u64::MAX - 1, u64::MAX]);
    assert_eq!(walk(RangeScanner::new(1, 3, Direction::Descending)), vec![3, 2, 1]);
    assert_eq!(walk(RangeScanner::new(1, 3, Direction::Ascending)), vec![1, 2, 3]);
}

#[test]
fn classification_tries_metadata_first() {
    let metadata = || Some(DatabaseMetadata::anchored(1, 2));
    let record = || Some(Record::created("r".to_string(), vec![9], 3));
    assert!(matches!(classify(metadata(), record()), ClassifiedBlob::Metadata(m) if m.start_height() == 1));
    assert!(matches!(classify(metadata(), None), ClassifiedBlob::Metadata(_)));
    assert!(matches!(classify(None, record()), ClassifiedBlob::Record(r) if r.id == "r"));
    assert!(matches!(classify(None, None), ClassifiedBlob::Unrecognized));
}

#[test]
fn page_lookups_take_the_first_match() {
    let page = vec![
        ClassifiedBlob::Unrecognized,
        ClassifiedBlob::Record(Record::created("a".to_string(), vec![1], 1)),
        ClassifiedBlob::Metadata(DatabaseMetadata::anchored(10, 1)),
        ClassifiedBlob::Record(Record::created("b".to_string(), vec![2], 2)),
        ClassifiedBlob::Record(Record::created("a".to_string(), vec![3], 3)),
        ClassifiedBlob::Metadata(DatabaseMetadata::anchored(20, 2)),
    ];
    assert_eq!(find_metadata(&page).unwrap().start_height(), 10);
    assert_eq!(find_record(&page, &"a".to_string()).unwrap().data, vec![1]);
    assert_eq!(find_record(&page, &"b".to_string()).unwrap().data, vec![2]);
    assert!(find_record(&page, &"c".to_string()).is_none());
    let records = page_records(&page);
    assert_eq!(records.iter().map(|r| r.data[0]).collect::<Vec<u8>>(), vec![1, 2, 3]);
    let empty: Vec<ClassifiedBlob> = Vec::new();
    assert!(find_metadata(&empty).is_none());
    assert!(find_record(&empty, &"a".to_string()).is_none());
    assert!(page_records(&empty).is_empty());
    assert!(find_metadata(&vec![ClassifiedBlob::Unrecognized]).is_none());
}

#[test]
fn a_page_joins_the_records_gathered_but_for_deleted_and_known_ids() {
    let mut metadata = DatabaseMetadata::anchored(1, 0);
    metadata.bury_record_at("d", 1);
    let known = vec![Record::created("a".to_string(), vec![0], 1)];
    let page = vec![
        ClassifiedBlob::Record(Record::created("b".to_string(), vec![1], 1)),
        ClassifiedBlob::Unrecognized,
        ClassifiedBlob::Record(Record::created("a".to_string(), vec![2], 1)),
        ClassifiedBlob::Record(Record::created("d".to_string(), vec![3], 1)),
        ClassifiedBlob::Metadata(DatabaseMetadata::anchored(9, 9)),
        ClassifiedBlob::Record(Record::created("b".to_string(), vec![4], 1)),
        ClassifiedBlob::Record(Record::created("c".to_string(), vec![5], 1)),
    ];
    let grown = absorb_page(&metadata, known, &page);
    let seen: Vec<(String, u8)> = grown.into_iter().map(|r| (r.id, r.data[0])).collect();
    assert_eq!(
        seen,
        vec![("a".to_string(), 0), ("b".to_string(), 1), ("c".to_string(), 5)]
    );
    assert!(absorb_page(&metadata, Vec::new(), &Vec::new()).is_empty());
}
