use rplace_fun::cursor::compute_skip_count;
use rplace_fun::errors::IngestError;
use rplace_fun::ingest::Ingestor;
use rplace_fun::models::{Pixel, RawRecord, User};
use rplace_fun::registry::Registry;

fn record(hash: &str, color: &str, coordinate: &str) -> RawRecord {
    RawRecord {
        timestamp: "2022-04-01 12:34:56.789 UTC".to_string(),
        user_hash: hash.to_string(),
        pixel_color: color.to_string(),
        coordinate: coordinate.to_string(),
    }
}

fn user(id: i32, hash: &str) -> User {
    User { user_id: id, hash: hash.to_string() }
}

#[test]
fn registry_same_hash_resolves_to_same_id() {
    let mut reg = Registry::initialize(Vec::new()).unwrap();
    let a1 = reg.resolve("aaa");
    let b = reg.resolve("bbb");
    let a2 = reg.resolve("aaa");
    assert_eq!(a1, 0);
    assert_eq!(b, 1);
    assert_eq!(a2, a1);
    let pending = reg.drain_pending();
    assert_eq!(pending.len(), 2);
    assert_eq!(pending[0].user_id, 0);
    assert_eq!(pending[0].hash, "aaa");
    assert_eq!(pending[1].user_id, 1);
    assert_eq!(pending[1].hash, "bbb");
}

#[test]
fn registry_distinct_hashes_get_increasing_ids() {
    let mut reg = Registry::initialize(Vec::new()).unwrap();
    let mut last: i32 = -1;
    for h in ["u1", "u2", "u3", "u4"] {
        let id = reg.resolve(h);
        assert!(id > last);
        last = id;
    }
}

#[test]
fn registry_seeds_from_snapshot() {
    let snapshot = vec![user(0, "old0"), user(1, "old1")];
    let mut reg = Registry::initialize(snapshot).unwrap();
    assert_eq!(reg.user_count(), 2);
    assert_eq!(reg.resolve("old1"), 1);
    assert_eq!(reg.resolve("old0"), 0);
    assert!(reg.drain_pending().is_empty());
    assert_eq!(reg.resolve("fresh"), 2);
    let pending = reg.drain_pending();
    assert_eq!(pending.len(), 1);
    assert_eq!(pending[0].user_id, 2);
}

#[test]
fn registry_rejects_gapped_snapshot() {
    let snapshot = vec![user(1, "a"), user(2, "b")];
    match Registry::initialize(snapshot) {
        Err(IngestError::ConstraintViolation { .. }) => {}
        other => panic!("expected ConstraintViolation, got {:?}", other.is_ok()),
    }
}

#[test]
fn registry_rejects_duplicate_hash_snapshot() {
    let snapshot = vec![user(0, "same"), user(1, "same")];
    assert!(Registry::initialize(snapshot).is_err());
}

#[test]
fn pixel_ids_match_stream_position() {
    let mut ing = Ingestor::new(Vec::new(), 0, 100).unwrap();
    for rec in [
        record("h0", "#000000", "0,0"),
        record("h1", "#000001", "1,1"),
        record("h0", "#000002", "2,2,3,3"),
    ] {
        ing.ingest(&rec).unwrap();
    }
    assert_eq!(ing.records_consumed(), 3);
    let batch = ing.take_flush();
    assert_eq!(batch.pixels.len(), 3);
    for (k, p) in batch.pixels.iter().enumerate() {
        assert_eq!(p.pixel_id, k as i32);
    }
    assert_eq!(batch.pixels[0].user_id, 0);
    assert_eq!(batch.pixels[1].user_id, 1);
    assert_eq!(batch.pixels[2].user_id, 0);
    assert_eq!(batch.pixels[2].x2, Some(3));
}

#[test]
fn pixel_ids_continue_from_skip_count() {
    let mut ing = Ingestor::new(vec![user(0, "h0")], 2, 100).unwrap();
    assert!(ing.should_skip());
    ing.note_skipped();
    assert!(ing.should_skip());
    ing.note_skipped();
    assert!(!ing.should_skip());
    ing.ingest(&record("h9", "#ABCDEF", "5,6")).unwrap();
    let batch = ing.take_flush();
    assert_eq!(batch.pixels.len(), 1);
    assert_eq!(batch.pixels[0].pixel_id, 2);
    assert_eq!(batch.pixels[0].user_id, 1);
}

/// A minimal in-memory stand-in for the store: committed users and pixels,
/// applied in flush order.
struct FakeStore {
    users: Vec<User>,
    pixels: Vec<Pixel>,
}

impl FakeStore {
    fn apply(&mut self, batch: rplace_fun::ingest::FlushBatch) {
        // Users first: each pixel must reference an already-visible user.
        self.users.extend(batch.users);
        for p in batch.pixels {
            assert!(
                self.users.iter().any(|u| u.user_id == p.user_id),
                "pixel references a user the store has not seen"
            );
            assert!(
                self.pixels.iter().all(|q| q.pixel_id != p.pixel_id),
                "duplicate pixel_id committed"
            );
            self.pixels.push(p);
        }
    }

    fn snapshot_users(&self) -> Vec<User> {
        self.users.iter().map(|u| user(u.user_id, &u.hash)).collect()
    }
}

fn input_stream() -> Vec<RawRecord> {
    vec![
        record("alice", "#FF00AA", "1,1"),
        record("bob", "#00FF00", "2,3"),
        record("alice", "#0000FF", "4,5,6,7"),
        record("carol", "#123456", "8,9"),
        record("bob", "#654321", "10,11"),
    ]
}

fn run_ingestion(store_users: Vec<User>, store_pixel_count: usize, store: &mut FakeStore) -> usize {
    let mut ing = Ingestor::new(store_users, store_pixel_count, 2).unwrap();
    for rec in input_stream() {
        if ing.should_skip() {
            ing.note_skipped();
            continue;
        }
        ing.ingest(&rec).unwrap();
        if ing.needs_flush() {
            store.apply(ing.take_flush());
        }
    }
    store.apply(ing.take_flush());
    ing.records_consumed()
}

#[test]
fn resume_skips_committed_records_and_appends_nothing() {
    let mut store = FakeStore { users: Vec::new(), pixels: Vec::new() };

    // First run over the full stream.
    let consumed = run_ingestion(Vec::new(), 0, &mut store);
    assert_eq!(consumed, 5);
    assert_eq!(store.pixels.len(), 5);
    assert_eq!(store.users.len(), 3);
    for (k, p) in store.pixels.iter().enumerate() {
        assert_eq!(p.pixel_id, k as i32);
    }

    // Second run against the same store and the same input: every record is
    // skipped and nothing new is committed.
    let committed = store.pixels.len();
    let snapshot = store.snapshot_users();
    let consumed_again = run_ingestion(snapshot, committed, &mut store);
    assert_eq!(consumed_again, 5);
    assert_eq!(store.pixels.len(), 5);
    assert_eq!(store.users.len(), 3);
}

#[test]
fn resume_after_partial_run_continues_ids() {
    let mut store = FakeStore { users: Vec::new(), pixels: Vec::new() };

    // A run that was interrupted after two committed pixels.
    let mut ing = Ingestor::new(Vec::new(), 0, 2).unwrap();
    let stream = input_stream();
    ing.ingest(&stream[0]).unwrap();
    ing.ingest(&stream[1]).unwrap();
    store.apply(ing.take_flush());
    assert_eq!(store.pixels.len(), 2);

    // The restart resumes behind the committed prefix.
    let snapshot = store.snapshot_users();
    let consumed = run_ingestion(snapshot, store.pixels.len(), &mut store);
    assert_eq!(consumed, 5);
    assert_eq!(store.pixels.len(), 5);
    assert_eq!(store.users.len(), 3);
    for (k, p) in store.pixels.iter().enumerate() {
        assert_eq!(p.pixel_id, k as i32);
    }
}

#[test]
fn flush_carries_new_users_before_their_pixels() {
    let mut ing = Ingestor::new(vec![user(0, "veteran")], 0, 100).unwrap();
    ing.ingest(&record("veteran", "#000000", "0,0")).unwrap();
    ing.ingest(&record("newcomer", "#000001", "1,1")).unwrap();
    let batch = ing.take_flush();
    // The brand-new hash is in the user half of the same batch, so applying
    // users first satisfies every pixel's foreign key.
    assert_eq!(batch.users.len(), 1);
    assert_eq!(batch.users[0].user_id, 1);
    assert_eq!(batch.users[0].hash, "newcomer");
    assert_eq!(batch.pixels[0].user_id, 0);
    assert_eq!(batch.pixels[1].user_id, 1);
    for p in &batch.pixels {
        assert!(
            p.user_id == 0 || batch.users.iter().any(|u| u.user_id == p.user_id),
            "pixel references a user outside store and batch"
        );
    }
}

#[test]
fn no_store_mode_counts_every_record_without_writes() {
    // No store: empty snapshot, zero committed pixels, and no flush is ever
    // applied anywhere.
    let mut ing = Ingestor::new(Vec::new(), 0, 2).unwrap();
    let mut validated: usize = 0;
    for rec in input_stream() {
        ing.ingest(&rec).unwrap();
        if ing.needs_flush() {
            // Dry run: the batch is dropped after validation.
            let batch = ing.take_flush();
            validated += batch.pixels.len();
        }
    }
    validated += ing.take_flush().pixels.len();
    assert_eq!(ing.records_consumed(), 5);
    assert_eq!(validated, 5);
}

#[test]
fn decode_failure_is_fatal_and_leaves_state() {
    let mut ing = Ingestor::new(Vec::new(), 0, 100).unwrap();
    ing.ingest(&record("ok", "#111111", "1,2")).unwrap();
    match ing.ingest(&record("bad", "#XYZXYZ", "3,4")) {
        Err(IngestError::MalformedColor { position, raw }) => {
            assert_eq!(position, 1);
            assert_eq!(raw, "#XYZXYZ");
        }
        other => panic!("expected MalformedColor, got {:?}", other.is_ok()),
    }
    // The failed record consumed nothing and registered nothing.
    assert_eq!(ing.records_consumed(), 1);
    assert_eq!(ing.user_count(), 1);
    match ing.ingest(&record("bad", "#222222", "1,2,3")) {
        Err(IngestError::MalformedCoordinates { position, .. }) => assert_eq!(position, 1),
        other => panic!("expected MalformedCoordinates, got {:?}", other.is_ok()),
    }
    match ing.ingest(&RawRecord {
        timestamp: "yesterday".to_string(),
        user_hash: "bad".to_string(),
        pixel_color: "#222222".to_string(),
        coordinate: "1,2".to_string(),
    }) {
        Err(IngestError::MalformedTimestamp { position, raw }) => {
            assert_eq!(position, 1);
            assert_eq!(raw, "yesterday");
        }
        other => panic!("expected MalformedTimestamp, got {:?}", other.is_ok()),
    }
}

#[test]
fn skip_count_from_store_report() {
    assert_eq!(compute_skip_count(None), 0);
    assert_eq!(compute_skip_count(Some(-5)), 0);
    assert_eq!(compute_skip_count(Some(0)), 0);
    assert_eq!(compute_skip_count(Some(7)), 7);
}

#[test]
fn batch_threshold_triggers_flush() {
    let mut ing = Ingestor::new(Vec::new(), 0, 2).unwrap();
    ing.ingest(&record("a", "#000000", "0,0")).unwrap();
    assert!(!ing.needs_flush());
    ing.ingest(&record("b", "#000000", "0,1")).unwrap();
    assert!(ing.needs_flush());
    let batch = ing.take_flush();
    assert_eq!(batch.pixels.len(), 2);
    assert!(!ing.needs_flush());
    ing.ingest(&record("c", "#000000", "0,2")).unwrap();
    let batch2 = ing.take_flush();
    assert_eq!(batch2.pixels.len(), 1);
    assert_eq!(batch2.pixels[0].pixel_id, 2);
}
