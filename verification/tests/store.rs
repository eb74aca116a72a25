use dummy_rollup::blob::{page_records, ClassifiedBlob};
use dummy_rollup::database::DatabaseClient;
use dummy_rollup::error::{DatabaseError, ErrorKind};
use dummy_rollup::metadata::DatabaseMetadata;
use dummy_rollup::namespace::pad_namespace;
use dummy_rollup::protocol::{failed_submission, Outcome, Payload, Reply, Request, Step};
use dummy_rollup::record::Record;
use dummy_rollup::scanner::RangeScanner;
use std::collections::BTreeMap;

/// A ledger in memory: one page of blobs for each position that was written.
struct Ledger {
    head: u64,
    pages: BTreeMap<u64, Vec<ClassifiedBlob>>,
    acknowledges: bool,
    rejects: bool,
    requests: Vec<String>,
}

impl Ledger {
    fn at(head: u64) -> Ledger {
        Ledger { head, pages: BTreeMap::new(), acknowledges: true, rejects: false, requests: Vec::new() }
    }

    fn put(&mut self, position: u64, blob: ClassifiedBlob) {
        self.pages.entry(position).or_default().push(blob);
    }

    fn perform(&mut self, request: Request) -> Reply {
        match request {
            Request::Head => {
                self.requests.push("head".to_string());
                Reply::Head(self.head)
            }
            Request::Fetch(position) => {
                self.requests.push(format!("fetch {}", position));
                match self.pages.get(&position) {
                    Some(page) => Reply::Blobs(page.clone()),
                    None => Reply::NoBlobs,
                }
            }
            Request::Submit(batch) => {
                self.requests.push(format!("submit {}", batch.len()));
                if self.rejects {
                    return Reply::Rejected("insufficient fee".to_string());
                }
                self.head += 1;
                let position = self.head;
                for payload in batch {
                    let blob = match payload {
                        Payload::Record(record) => ClassifiedBlob::Record(record),
                        Payload::Metadata(metadata) => ClassifiedBlob::Metadata(metadata),
                    };
                    self.put(position, blob);
                }
                if self.acknowledges {
                    Reply::Submitted(Some(position))
                } else {
                    Reply::Submitted(None)
                }
            }
        }
    }
}

fn drive(client: &mut DatabaseClient, ledger: &mut Ledger, first: Step) -> Result<Outcome, DatabaseError> {
    let mut step = first;
    loop {
        match step {
            Step::Done(result) => return result,
            Step::Ask(request) => {
                let reply = ledger.perform(request);
                step = client.resume(reply);
            }
        }
    }
}

fn open(ledger: &mut Ledger) -> DatabaseClient {
    let mut client = DatabaseClient::new(pad_namespace(b"demo", 10), None, None).unwrap();
    let first = client.discover();
    match drive(&mut client, ledger, first) {
        Ok(Outcome::Ready) => client,
        other => panic!("discovery ended with {:?}", other),
    }
}

fn create(client: &mut DatabaseClient, ledger: &mut Ledger, payload: &[u8]) -> String {
    let first = client.add_record(Record::new(payload.to_vec()));
    match drive(client, ledger, first) {
        Ok(Outcome::Added(id)) => id,
        other => panic!("add ended with {:?}", other),
    }
}

fn read(client: &mut DatabaseClient, ledger: &mut Ledger, id: &str) -> Result<Option<Record>, DatabaseError> {
    let first = client.get_record(id);
    match drive(client, ledger, first) {
        Ok(Outcome::Found(record)) => Ok(Some(record)),
        Ok(Outcome::NotFound(missing)) => {
            assert_eq!(missing, id);
            Ok(None)
        }
        Ok(other) => panic!("read ended with {:?}", other),
        Err(error) => Err(error),
    }
}

fn update(client: &mut DatabaseClient, ledger: &mut Ledger, id: &str, payload: &[u8]) -> Result<Record, DatabaseError> {
    let first = client.update_record(id, payload.to_vec());
    match drive(client, ledger, first) {
        Ok(Outcome::Updated(record)) => Ok(record),
        Ok(other) => panic!("update ended with {:?}", other),
        Err(error) => Err(error),
    }
}

fn delete(client: &mut DatabaseClient, ledger: &mut Ledger, id: &str) -> Result<String, DatabaseError> {
    let first = client.delete_record(id);
    match drive(client, ledger, first) {
        Ok(Outcome::Deleted(id)) => Ok(id),
        Ok(other) => panic!("delete ended with {:?}", other),
        Err(error) => Err(error),
    }
}

fn list(client: &mut DatabaseClient, ledger: &mut Ledger) -> Vec<Record> {
    let first = client.list_records();
    match drive(client, ledger, first) {
        Ok(Outcome::Listed(records)) => records,
        other => panic!("list ended with {:?}", other),
    }
}

fn record_count(client: &DatabaseClient) -> u64 {
    client.metadata().as_ref().unwrap().record_count()
}

fn start(client: &DatabaseClient) -> u64 {
    client.metadata().as_ref().unwrap().start_height()
}

fn record(id: &str, payload: &[u8]) -> ClassifiedBlob {
    ClassifiedBlob::Record(Record::created(id.to_string(), payload.to_vec(), 1))
}

fn history(ledger: &Ledger, low: u64, high: u64) -> Vec<Record> {
    let mut all = Vec::new();
    let mut scanner = RangeScanner::ascending(low, high);
    while let Some(position) = scanner.next_position() {
        if let Some(page) = ledger.pages.get(&position) {
            all.extend(page_records(page));
        }
    }
    all
}

#[test]
fn create_then_read_and_list_on_a_fresh_log() {
    let mut ledger = Ledger::at(0);
    let mut client = open(&mut ledger);
    assert_eq!(client.namespace_id(), &vec![0, 0, 0, 0, 0, 0, b'd', b'e', b'm', b'o']);
    let id = create(&mut client, &mut ledger, b"hello");
    assert_eq!(id.len(), 36);
    let record = read(&mut client, &mut ledger, &id).unwrap().unwrap();
    assert_eq!(record.id, id);
    assert_eq!(record.data, b"hello".to_vec());
    assert_eq!(record.updated_at, None);
    let records = list(&mut client, &mut ledger);
    assert_eq!(records.len(), 1);
    assert_eq!(records[0].id, id);
    assert_eq!(records[0].data, b"hello".to_vec());
    assert_eq!(record_count(&client), 1);
}

#[test]
fn second_write_shadows_the_first_and_history_keeps_both() {
    let mut ledger = Ledger::at(7);
    let mut client = open(&mut ledger);
    let id = create(&mut client, &mut ledger, b"A");
    let updated = update(&mut client, &mut ledger, &id, b"B").unwrap();
    assert_eq!(updated.data, b"B".to_vec());
    assert_eq!(read(&mut client, &mut ledger, &id).unwrap().unwrap().data, b"B".to_vec());
    let records = list(&mut client, &mut ledger);
    assert_eq!(records.len(), 1);
    assert_eq!(records[0].data, b"B".to_vec());
    let written: Vec<Record> = history(&ledger, start(&client), ledger.head).into_iter().filter(|r| r.id == id).collect();
    assert_eq!(written.len(), 2);
    assert_eq!(written[0].data, b"A".to_vec());
    assert_eq!(written[1].data, b"B".to_vec());
    assert_eq!(record_count(&client), 1);
}

#[test]
fn three_writes_to_one_id_list_once() {
    let mut ledger = Ledger::at(3);
    let mut client = open(&mut ledger);
    let id = create(&mut client, &mut ledger, b"first");
    let other = create(&mut client, &mut ledger, b"other");
    update(&mut client, &mut ledger, &id, b"A").unwrap();
    update(&mut client, &mut ledger, &id, b"B").unwrap();
    let records = list(&mut client, &mut ledger);
    assert_eq!(records.len(), 2);
    assert_eq!(records[0].id, id);
    assert_eq!(records[0].data, b"B".to_vec());
    assert_eq!(records[1].id, other);
    assert_eq!(records[1].data, b"other".to_vec());
    assert_eq!(history(&ledger, 1, ledger.head).iter().filter(|r| r.id == id).count(), 3);
}

#[test]
fn reads_go_by_the_range_of_the_store_and_not_by_its_directory() {
    let mut ledger = Ledger::at(7);
    ledger.put(5, record("a", b"1"));
    ledger.put(6, ClassifiedBlob::Metadata(DatabaseMetadata::anchored(5, 3)));
    ledger.put(6, ClassifiedBlob::Unrecognized);
    ledger.put(6, record("b", b"9"));
    ledger.put(7, record("a", b"2"));
    ledger.put(4, record("c", b"below the start"));
    let mut client = open(&mut ledger);
    assert_eq!(start(&client), 5);
    assert_eq!(client.metadata().as_ref().unwrap().index_len(), 0);
    let asked = ledger.requests.len();
    assert_eq!(read(&mut client, &mut ledger, "a").unwrap().unwrap().data, b"2".to_vec());
    assert_eq!(ledger.requests[asked..], ["head".to_string(), "fetch 7".to_string()]);
    let asked = ledger.requests.len();
    assert_eq!(read(&mut client, &mut ledger, "b").unwrap().unwrap().data, b"9".to_vec());
    assert_eq!(ledger.requests[asked..], ["head", "fetch 7", "fetch 6"]);
    let asked = ledger.requests.len();
    assert!(read(&mut client, &mut ledger, "c").unwrap().is_none());
    assert_eq!(ledger.requests[asked..], ["head", "fetch 7", "fetch 6", "fetch 5"]);
    let records = list(&mut client, &mut ledger);
    assert_eq!(records.len(), 2);
    assert_eq!((records[0].id.as_str(), records[0].data.clone()), ("a", b"2".to_vec()));
    assert_eq!((records[1].id.as_str(), records[1].data.clone()), ("b", b"9".to_vec()));
    assert_eq!(start(&client), 5);
    assert_eq!(client.metadata().as_ref().unwrap().last_updated(), 3);
    assert!(!ledger.requests.iter().any(|r| r.starts_with("submit")));
}

#[test]
fn read_skips_a_position_that_cannot_be_fetched() {
    let mut ledger = Ledger::at(0);
    let mut client = open(&mut ledger);
    let first = client.add_record(Record::with_key("k".to_string(), b"old".to_vec()));
    assert!(drive(&mut client, &mut ledger, first).is_ok());
    update(&mut client, &mut ledger, "k", b"new").unwrap();
    assert_eq!(read(&mut client, &mut ledger, "k").unwrap().unwrap().data, b"new".to_vec());
    let newest = ledger.head;
    let lost = ledger.pages.remove(&newest).unwrap();
    assert_eq!(read(&mut client, &mut ledger, "k").unwrap().unwrap().data, b"old".to_vec());
    assert_eq!(list(&mut client, &mut ledger)[0].data, b"old".to_vec());
    let older = newest - 1;
    ledger.pages.remove(&older);
    assert!(read(&mut client, &mut ledger, "k").unwrap().is_none());
    assert!(list(&mut client, &mut ledger).is_empty());
    ledger.pages.insert(newest, lost);
    assert_eq!(read(&mut client, &mut ledger, "k").unwrap().unwrap().data, b"new".to_vec());
    // A fetch that fails for want of the ledger counts as a position that holds nothing, too.
    assert!(matches!(client.get_record("k"), Step::Ask(Request::Head)));
    assert!(matches!(client.resume(Reply::Head(newest)), Step::Ask(Request::Fetch(p)) if p == newest));
    assert!(matches!(client.resume(Reply::Unreachable("timeout".to_string())), Step::Ask(Request::Fetch(p)) if p == older));
    let reply = ledger.perform(Request::Fetch(newest));
    match client.resume(reply) {
        Step::Done(Ok(Outcome::Found(record))) => assert_eq!(record.data, b"new".to_vec()),
        other => panic!("read ended with {:?}", other),
    }
}

#[test]
fn read_fails_only_where_the_head_cannot_be_read() {
    let mut ledger = Ledger::at(0);
    let mut client = open(&mut ledger);
    create(&mut client, &mut ledger, b"x");
    assert!(matches!(client.get_record("anything"), Step::Ask(Request::Head)));
    match client.resume(Reply::Unreachable("connection refused".to_string())) {
        Step::Done(Err(error)) => {
            assert_eq!(error.kind(), ErrorKind::CelestiaError);
            assert_eq!(error.message(), "Celestia error: connection refused");
        }
        other => panic!("read went on with {:?}", other),
    }
    assert!(client.is_idle());
    assert!(matches!(client.list_records(), Step::Ask(Request::Head)));
    assert!(matches!(
        client.resume(Reply::Unreachable("down".to_string())),
        Step::Done(Err(DatabaseError::CelestiaError(_)))
    ));
    assert_eq!(record_count(&client), 1);
}

#[test]
fn listing_keeps_the_first_record_met_for_each_id() {
    let mut ledger = Ledger::at(9);
    ledger.put(3, ClassifiedBlob::Metadata(DatabaseMetadata::anchored(3, 0)));
    ledger.put(4, record("a", b"a4"));
    ledger.put(5, record("b", b"b5"));
    ledger.put(5, record("a", b"a5"));
    ledger.put(5, record("a", b"a5 again"));
    ledger.put(8, record("b", b"b8"));
    ledger.put(8, ClassifiedBlob::Unrecognized);
    ledger.put(8, record("c", b"c8"));
    let mut client = DatabaseClient::new(pad_namespace(b"demo", 10), Some(3), None).unwrap();
    let first = client.discover();
    assert!(matches!(drive(&mut client, &mut ledger, first), Ok(Outcome::Ready)));
    let records = list(&mut client, &mut ledger);
    let seen: Vec<(String, Vec<u8>)> = records.into_iter().map(|r| (r.id, r.data)).collect();
    assert_eq!(
        seen,
        vec![
            ("b".to_string(), b"b8".to_vec()),
            ("c".to_string(), b"c8".to_vec()),
            ("a".to_string(), b"a5".to_vec()),
        ]
    );
    assert_eq!(delete(&mut client, &mut ledger, "b").unwrap(), "b");
    let records = list(&mut client, &mut ledger);
    let ids: Vec<String> = records.into_iter().map(|r| r.id).collect();
    assert_eq!(ids, vec!["c".to_string(), "a".to_string()]);
}

#[test]
fn update_keeps_creation_time_and_stamps_the_update() {
    let mut ledger = Ledger::at(1);
    let mut client = open(&mut ledger);
    let id = create(&mut client, &mut ledger, b"old");
    let created = read(&mut client, &mut ledger, &id).unwrap().unwrap().created_at;
    let mut step = client.update_record(&id, b"new".to_vec());
    while let Step::Ask(request) = step {
        let reply = ledger.perform(request);
        step = client.resume_at(reply, created + 5);
    }
    assert!(matches!(step, Step::Done(Ok(Outcome::Updated(_)))));
    let record = read(&mut client, &mut ledger, &id).unwrap().unwrap();
    assert_eq!(record.data, b"new".to_vec());
    assert_eq!(record.created_at, created);
    assert_eq!(record.updated_at, Some(created + 5));
    assert!(record.updated_at.unwrap() > record.created_at);
    assert_eq!(client.metadata().as_ref().unwrap().last_updated(), created + 5);
}

#[test]
fn delete_then_read_is_not_found_and_the_id_stays_out_of_the_list() {
    let mut ledger = Ledger::at(0);
    let mut client = open(&mut ledger);
    let gone = create(&mut client, &mut ledger, b"gone");
    let kept = create(&mut client, &mut ledger, b"kept");
    assert_eq!(delete(&mut client, &mut ledger, &gone).unwrap(), gone);
    let asked = ledger.requests.len();
    assert!(read(&mut client, &mut ledger, &gone).unwrap().is_none());
    assert_eq!(ledger.requests.len(), asked);
    let records = list(&mut client, &mut ledger);
    assert_eq!(records.len(), 1);
    assert_eq!(records[0].id, kept);
    assert_eq!(record_count(&client), 1);
    // Writing under the deleted id again does not bring it back.
    let first = client.add_record(Record::with_key(gone.clone(), b"again".to_vec()));
    assert!(matches!(drive(&mut client, &mut ledger, first), Ok(Outcome::Added(_))));
    assert!(read(&mut client, &mut ledger, &gone).unwrap().is_none());
    let error = update(&mut client, &mut ledger, &gone, b"x").unwrap_err();
    assert_eq!(error.kind(), ErrorKind::RecordNotFound);
    assert_eq!(error.message(), format!("Record not found: {}", gone));
    assert_eq!(delete(&mut client, &mut ledger, &gone).unwrap_err().kind(), ErrorKind::RecordNotFound);
    let records = list(&mut client, &mut ledger);
    assert_eq!(records.len(), 1);
    assert_eq!(records[0].id, kept);
    // A store opened later sees the same.
    let mut later = open(&mut ledger);
    assert!(read(&mut later, &mut ledger, &gone).unwrap().is_none());
    assert_eq!(list(&mut later, &mut ledger).len(), 1);
}

#[test]
fn delete_of_unknown_id_is_not_found_and_changes_nothing() {
    let mut ledger = Ledger::at(0);
    let mut client = open(&mut ledger);
    create(&mut client, &mut ledger, b"one");
    let before = record_count(&client);
    let asked = ledger.requests.len();
    let error = delete(&mut client, &mut ledger, "no-such-id").unwrap_err();
    assert_eq!(error.kind(), ErrorKind::RecordNotFound);
    assert_eq!(error.message(), "Record not found: no-such-id");
    assert_eq!(record_count(&client), before);
    assert_eq!(before, 1);
    assert!(!ledger.requests[asked..].iter().any(|r| r.starts_with("submit")));
    assert_eq!(client.metadata().as_ref().unwrap().deleted_len(), 0);
    assert!(client.is_idle());
    assert_eq!(update(&mut client, &mut ledger, "no-such-id", b"x").unwrap_err().kind(), ErrorKind::RecordNotFound);
}

#[test]
fn delete_of_a_record_that_the_directory_lacks_leaves_the_count() {
    let mut ledger = Ledger::at(6);
    ledger.put(5, ClassifiedBlob::Metadata(DatabaseMetadata::from_parts(5, 4, 0, vec![], vec![]).unwrap()));
    ledger.put(6, record("a", b"1"));
    let mut client = open(&mut ledger);
    assert_eq!(delete(&mut client, &mut ledger, "a").unwrap(), "a");
    assert_eq!(record_count(&client), 4);
    assert!(client.metadata().as_ref().unwrap().is_deleted("a"));
    assert!(read(&mut client, &mut ledger, "a").unwrap().is_none());
    assert!(list(&mut client, &mut ledger).is_empty());
}

#[test]
fn list_of_an_empty_store_is_empty() {
    let mut ledger = Ledger::at(0);
    let mut client = open(&mut ledger);
    let asked = ledger.requests.len();
    assert!(list(&mut client, &mut ledger).is_empty());
    assert_eq!(ledger.requests[asked..], ["head", "fetch 1"]);
}

#[test]
fn discovery_on_a_fresh_log_creates_the_store_at_the_acknowledged_position() {
    let mut ledger = Ledger::at(41);
    let client = open(&mut ledger);
    let metadata = client.metadata().as_ref().unwrap();
    assert_eq!(metadata.start_height(), 42);
    assert_eq!(metadata.record_count(), 0);
    assert_eq!(metadata.index_len(), 0);
    assert_eq!(metadata.deleted_len(), 0);
    assert!(!metadata.is_pending());
    // The blob that went out names its own position as the start.
    match &ledger.pages[&42][0] {
        ClassifiedBlob::Metadata(written) => {
            assert_eq!(written.start_height(), 0);
            assert!(written.is_pending());
        }
        other => panic!("position 42 holds {:?}", other),
    }
    assert_eq!(ledger.requests[0], "head");
    assert_eq!(ledger.requests[1], "fetch 41");
    assert_eq!(ledger.requests[41], "fetch 1");
    assert_eq!(ledger.requests[42], "submit 1");
    assert_eq!(ledger.requests.len(), 43);
}

#[test]
fn store_opened_after_the_creating_store_begins_where_that_one_begins() {
    let mut ledger = Ledger::at(41);
    let creating = open(&mut ledger);
    let submissions = ledger.requests.iter().filter(|r| r.starts_with("submit")).count();
    let finding = open(&mut ledger);
    assert_eq!(start(&creating), 42);
    assert_eq!(start(&finding), start(&creating));
    let a = creating.metadata().as_ref().unwrap();
    let b = finding.metadata().as_ref().unwrap();
    assert_eq!(a.record_count(), b.record_count());
    assert_eq!(a.last_updated(), b.last_updated());
    assert_eq!(a.index_len(), b.index_len());
    assert_eq!(a.deleted_len(), b.deleted_len());
    assert_eq!(ledger.requests.iter().filter(|r| r.starts_with("submit")).count(), submissions);
    assert_eq!(submissions, 1);
    assert_eq!(ledger.requests.last().unwrap(), "fetch 42");
}

#[test]
fn discovery_without_acknowledged_position_starts_at_the_head() {
    let mut ledger = Ledger::at(5);
    ledger.acknowledges = false;
    let client = open(&mut ledger);
    assert_eq!(start(&client), 6);
    assert_eq!(ledger.requests.last().unwrap(), "head");
    assert_eq!(start(&open(&mut ledger)), 6);
}

#[test]
fn discovery_adopts_the_most_recent_metadata_in_the_window() {
    let mut ledger = Ledger::at(500);
    ledger.put(450, ClassifiedBlob::Metadata(DatabaseMetadata::anchored(450, 1)));
    ledger.put(470, ClassifiedBlob::Unrecognized);
    ledger.put(470, ClassifiedBlob::Record(Record::created("r".to_string(), vec![1], 2)));
    ledger.put(470, ClassifiedBlob::Metadata(DatabaseMetadata::anchored(460, 3)));
    ledger.put(470, ClassifiedBlob::Metadata(DatabaseMetadata::anchored(461, 4)));
    let client = open(&mut ledger);
    let metadata = client.metadata().as_ref().unwrap();
    assert_eq!(metadata.start_height(), 460);
    assert_eq!(metadata.last_updated(), 3);
    assert_eq!(ledger.requests.len(), 32);
    assert_eq!(ledger.requests.last().unwrap(), "fetch 470");
}

#[test]
fn discovery_does_not_look_below_the_window() {
    let mut ledger = Ledger::at(500);
    ledger.put(399, ClassifiedBlob::Metadata(DatabaseMetadata::anchored(399, 1)));
    let client = open(&mut ledger);
    assert_eq!(start(&client), 501);
    assert!(ledger.requests.contains(&"fetch 400".to_string()));
    assert!(!ledger.requests.contains(&"fetch 399".to_string()));
}

#[test]
fn discovery_honours_the_search_limit() {
    let mut ledger = Ledger::at(500);
    ledger.put(100, ClassifiedBlob::Metadata(DatabaseMetadata::anchored(100, 1)));
    let mut client = DatabaseClient::new(pad_namespace(b"demo", 10), None, Some(400)).unwrap();
    assert_eq!(client.search_limit(), Some(400));
    let first = client.discover();
    assert!(matches!(drive(&mut client, &mut ledger, first), Ok(Outcome::Ready)));
    assert_eq!(start(&client), 100);
    assert_eq!(ledger.requests.last().unwrap(), "fetch 100");
}

#[test]
fn discovery_adopts_metadata_at_the_hint_without_searching() {
    let mut ledger = Ledger::at(9000);
    ledger.put(12, ClassifiedBlob::Metadata(DatabaseMetadata::anchored(12, 77)));
    let mut client = DatabaseClient::new(pad_namespace(b"demo", 10), Some(12), None).unwrap();
    let first = client.discover();
    assert!(matches!(drive(&mut client, &mut ledger, first), Ok(Outcome::Ready)));
    assert_eq!(start(&client), 12);
    assert_eq!(ledger.requests, vec!["fetch 12".to_string()]);
}

#[test]
fn discovery_with_an_empty_hint_searches_and_then_creates_the_store() {
    let mut ledger = Ledger::at(3);
    ledger.acknowledges = false;
    let mut client = DatabaseClient::new(pad_namespace(b"demo", 10), Some(2), None).unwrap();
    let first = client.discover();
    assert!(matches!(drive(&mut client, &mut ledger, first), Ok(Outcome::Ready)));
    assert_eq!(start(&client), 4);
    assert_eq!(
        ledger.requests,
        vec!["fetch 2", "head", "fetch 3", "fetch 2", "fetch 1", "submit 1", "head"]
    );
}

#[test]
fn discovery_twice_on_an_unchanged_log_gives_the_same_metadata() {
    let mut ledger = Ledger::at(20);
    let mut first = open(&mut ledger);
    let id = create(&mut first, &mut ledger, b"x");
    let again = open(&mut ledger);
    let third = open(&mut ledger);
    let a = again.metadata().as_ref().unwrap();
    let b = third.metadata().as_ref().unwrap();
    assert_eq!(a.start_height(), b.start_height());
    assert_eq!(a.start_height(), start(&first));
    assert_eq!(a.record_count(), b.record_count());
    assert_eq!(a.index_len(), 1);
    assert_eq!(b.index_len(), 1);
    assert_eq!(a.index_entry(0).id, id);
    assert_eq!(b.index_entry(0).id, id);
    assert_eq!(a.index_entry(0).height, b.index_entry(0).height);
    assert_eq!(a.get_record_height(&id), first.metadata().as_ref().unwrap().get_record_height(&id));
}

#[test]
fn discover_on_a_ready_store_is_done_at_once() {
    let mut ledger = Ledger::at(0);
    let mut client = open(&mut ledger);
    assert!(client.is_ready());
    assert!(matches!(client.discover(), Step::Done(Ok(Outcome::Ready))));
}

#[test]
fn rejected_submission_leaves_the_store_as_it_was() {
    let mut ledger = Ledger::at(0);
    let mut client = open(&mut ledger);
    let id = create(&mut client, &mut ledger, b"kept");
    ledger.rejects = true;
    let first = client.add_record(Record::new(b"refused".to_vec()));
    let error = drive(&mut client, &mut ledger, first).unwrap_err();
    assert_eq!(error.kind(), ErrorKind::SubmissionRejected);
    assert_eq!(error.message(), "Submission rejected: insufficient fee");
    assert_eq!(delete(&mut client, &mut ledger, &id).unwrap_err().kind(), ErrorKind::SubmissionRejected);
    assert_eq!(update(&mut client, &mut ledger, &id, b"no").unwrap_err().kind(), ErrorKind::SubmissionRejected);
    ledger.rejects = false;
    assert!(client.is_idle());
    assert_eq!(record_count(&client), 1);
    assert_eq!(client.metadata().as_ref().unwrap().deleted_len(), 0);
    assert_eq!(read(&mut client, &mut ledger, &id).unwrap().unwrap().data, b"kept".to_vec());
    assert_eq!(list(&mut client, &mut ledger).len(), 1);
}

#[test]
fn record_and_metadata_travel_in_one_submission() {
    let mut ledger = Ledger::at(10);
    let mut client = open(&mut ledger);
    let asked = ledger.requests.len();
    let first = client.add_record_at(Record::with_key("k".to_string(), b"v".to_vec()), 77);
    assert!(matches!(drive(&mut client, &mut ledger, first), Ok(Outcome::Added(id)) if id == "k"));
    assert_eq!(ledger.requests[asked..], ["submit 2".to_string()]);
    // The blob names the position of the submission as "here" ...
    let page = &ledger.pages[&12];
    assert_eq!(page.len(), 2);
    assert!(matches!(&page[0], ClassifiedBlob::Record(record) if record.id == "k"));
    match &page[1] {
        ClassifiedBlob::Metadata(written) => {
            assert_eq!(written.index_entry(0).id, "k");
            assert_eq!(written.index_entry(0).height, 0);
            assert!(written.is_pending());
            assert_eq!(written.record_count(), 1);
            assert_eq!(written.last_updated(), 77);
            assert_eq!(written.start_height(), 11);
        }
        other => panic!("position 12 holds {:?}", other),
    }
    // ... the store reads it as the acknowledged position ...
    let held = client.metadata().as_ref().unwrap();
    assert_eq!(held.get_record_height("k"), Some(12));
    assert!(!held.is_pending());
    assert_eq!(held.last_updated(), 77);
    // ... and so does a store that discovers the blob later.
    let later = open(&mut ledger);
    let found = later.metadata().as_ref().unwrap();
    assert_eq!(found.get_record_height("k"), Some(12));
    assert_eq!(found.record_count(), 1);
    assert_eq!(found.start_height(), 11);
    assert_eq!(found.last_updated(), 77);
}

#[test]
fn payload_that_cannot_be_encoded_ends_the_operation() {
    let mut ledger = Ledger::at(0);
    let mut client = open(&mut ledger);
    assert!(matches!(client.add_record(Record::new(vec![1])), Step::Ask(Request::Submit(batch)) if batch.len() == 2));
    match client.resume(Reply::NotEncoded("key must be a string".to_string())) {
        Step::Done(Err(error)) => {
            assert_eq!(error.kind(), ErrorKind::SerializationError);
            assert_eq!(error.message(), "Serialization error: key must be a string");
        }
        other => panic!("add went on with {:?}", other),
    }
    assert!(client.is_idle());
    assert_eq!(record_count(&client), 0);
    assert!(list(&mut client, &mut ledger).is_empty());
}

#[test]
fn delete_is_one_submission_of_metadata_and_needs_no_position() {
    let mut ledger = Ledger::at(0);
    let mut client = open(&mut ledger);
    let id = create(&mut client, &mut ledger, b"x");
    ledger.acknowledges = false;
    let asked = ledger.requests.len();
    assert_eq!(delete(&mut client, &mut ledger, &id).unwrap(), id);
    assert_eq!(ledger.requests[asked..], ["head", "fetch 2", "submit 1"]);
    assert_eq!(record_count(&client), 0);
    assert_eq!(client.metadata().as_ref().unwrap().deleted_len(), 1);
}

#[test]
fn failed_submissions_are_told_apart_by_whether_the_ledger_answers() {
    assert!(matches!(failed_submission("fee".to_string(), true), Reply::Rejected(text) if text == "fee"));
    assert!(matches!(failed_submission("gone".to_string(), false), Reply::Unreachable(text) if text == "gone"));
}

#[test]
fn add_to_a_store_with_a_full_record_count_is_refused() {
    let mut ledger = Ledger::at(5);
    ledger.put(5, ClassifiedBlob::Metadata(DatabaseMetadata::from_parts(1, u64::MAX, 0, vec![], vec![]).unwrap()));
    let mut client = open(&mut ledger);
    assert_eq!(record_count(&client), u64::MAX);
    let asked = ledger.requests.len();
    match client.add_record(Record::new(vec![1])) {
        Step::Done(Err(error)) => {
            assert_eq!(error.kind(), ErrorKind::DatabaseError);
            assert_eq!(error.message(), "Database error: the record count cannot grow");
        }
        other => panic!("add began with {:?}", other),
    }
    assert_eq!(ledger.requests.len(), asked);
    assert_eq!(record_count(&client), u64::MAX);
}

#[test]
fn unreachable_ledger_ends_the_operation() {
    let mut client = DatabaseClient::new(pad_namespace(b"demo", 10), None, None).unwrap();
    assert!(matches!(client.discover(), Step::Ask(Request::Head)));
    let step = client.resume(Reply::Unreachable("connection refused".to_string()));
    match step {
        Step::Done(Err(error)) => {
            assert_eq!(error.kind(), ErrorKind::CelestiaError);
            assert_eq!(error.message(), "Celestia error: connection refused");
        }
        other => panic!("discovery went on with {:?}", other),
    }
    assert!(client.is_idle());
    assert!(!client.is_ready());
}

#[test]
fn add_without_acknowledged_position_points_at_the_head() {
    let mut ledger = Ledger::at(0);
    let mut client = open(&mut ledger);
    ledger.acknowledges = false;
    let first = client.add_record(Record::with_key("k".to_string(), b"v".to_vec()));
    assert!(matches!(drive(&mut client, &mut ledger, first), Ok(Outcome::Added(id)) if id == "k"));
    assert_eq!(client.metadata().as_ref().unwrap().get_record_height("k"), Some(2));
    assert_eq!(read(&mut client, &mut ledger, "k").unwrap().unwrap().data, b"v".to_vec());
}

#[test]
fn operations_need_a_ready_and_idle_store() {
    let mut client = DatabaseClient::new(pad_namespace(b"demo", 10), None, None).unwrap();
    for step in [
        client.add_record(Record::new(vec![1])),
        client.get_record("a"),
        client.list_records(),
        client.update_record("a", vec![2]),
        client.delete_record("a"),
    ] {
        match step {
            Step::Done(Err(error)) => {
                assert_eq!(error.message(), "Database error: the store has not been opened")
            }
            other => panic!("started with {:?}", other),
        }
    }
    assert_eq!(
        match client.resume(Reply::Head(1)) {
            Step::Done(Err(error)) => error.message(),
            other => panic!("resumed with {:?}", other),
        },
        "Database error: no request is pending"
    );
    assert!(matches!(client.discover(), Step::Ask(Request::Head)));
    for step in [client.discover(), client.list_records(), client.get_record("a")] {
        match step {
            Step::Done(Err(error)) => {
                assert_eq!(error.message(), "Database error: an operation is already in progress")
            }
            other => panic!("started with {:?}", other),
        }
    }
    assert!(!client.is_idle());
    match client.resume(Reply::Submitted(Some(3))) {
        Step::Done(Err(error)) => assert_eq!(
            error.message(),
            "Database error: the reply does not answer the pending request"
        ),
        other => panic!("resumed with {:?}", other),
    }
    assert!(client.is_idle());
}

#[test]
fn namespace_must_be_ten_bytes_wide() {
    for width in [0usize, 8, 9, 11, 28] {
        match DatabaseClient::new(vec![1; width], None, None) {
            Err(error) => {
                assert_eq!(error.kind(), ErrorKind::InvalidNamespace);
                assert_eq!(error.message(), "Invalid namespace: Namespace must be exactly 10 bytes");
            }
            Ok(_) => panic!("a namespace of {} bytes was accepted", width),
        }
    }
    let narrow = DatabaseClient::with_width(vec![5; 8], 8, None, None).unwrap();
    assert_eq!(narrow.namespace_id(), &vec![5; 8]);
    assert_eq!(narrow.namespace().id_v0(), Some(&[0, 0, 5, 5, 5, 5, 5, 5, 5, 5][..]));
    let mut full = vec![0u8; 28];
    full[27] = 9;
    let wide = DatabaseClient::with_width(full.clone(), 28, None, None).unwrap();
    assert_eq!(wide.namespace().id(), &full[..]);
    match DatabaseClient::with_width(vec![5; 8], 10, None, None) {
        Err(error) => assert_eq!(
            error.message(),
            "Invalid namespace: Namespace does not have the configured width"
        ),
        Ok(_) => panic!("a namespace of the wrong width was accepted"),
    }
    match DatabaseClient::with_width(vec![5; 11], 11, None, None) {
        Err(error) => assert_eq!(error.message(), "Invalid namespace: Invalid namespace size"),
        Ok(_) => panic!("a namespace of eleven bytes was accepted"),
    }
    full[3] = 1;
    match DatabaseClient::with_width(full, 28, None, None) {
        Err(error) => assert_eq!(error.message(), "Invalid namespace: Invalid namespace v0"),
        Ok(_) => panic!("a full namespace without its zero prefix was accepted"),
    }
    let client = DatabaseClient::new(vec![7; 10], Some(3), Some(9)).unwrap();
    assert_eq!(client.namespace_id(), &vec![7; 10]);
    assert_eq!(client.namespace().id_v0(), Some(&[7u8; 10][..]));
    assert_eq!(client.namespace().version(), 0);
    assert!(!client.is_ready());
    assert!(client.is_idle());
    assert!(client.metadata().is_none());
}
