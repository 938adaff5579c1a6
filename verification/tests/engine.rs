use acropolis::consumers::ProbeIndex;
use acropolis::indexer::{ChainIndexer, Liveness};
use acropolis::point::{BlockHash, BlockInfo, Point};
use acropolis::process::Process;
use acropolis::store::{CursorStore, InMemoryCursorStore};

fn hash(b: u8) -> BlockHash {
    BlockHash { bytes: vec![b; 32] }
}

fn info(slot: u64) -> BlockInfo {
    BlockInfo { slot, hash: hash(slot as u8), height: slot }
}

fn empty_tx(n: u8) -> acropolis::tx::Tx {
    acropolis::tx::Tx { hash: vec![n; 32], inputs: vec![], outputs: vec![], datums: vec![] }
}

fn probe(tag: &str, fail_on_slot: Option<u64>) -> ProbeIndex {
    ProbeIndex::new(tag.to_string(), fail_on_slot)
}

fn slot_of(p: &Point) -> Option<u64> {
    match p {
        Point::Origin => None,
        Point::Specific(s, _) => Some(*s),
    }
}

#[test]
fn monotonic_progress_over_increasing_slots() {
    let mut ix = ChainIndexer::new(InMemoryCursorStore::new(vec![]));
    ix.add_index(probe("a", None), Point::Origin, false);
    for s in [1u64, 2, 3] {
        ix.handle_block_applied(&info(s), &vec![empty_tx(s as u8)]);
    }
    assert_eq!(ix.consumers.len(), 1);
    assert_eq!(ix.consumers[0].live, Liveness::Active);
    assert_eq!(slot_of(&ix.consumers[0].cursor), Some(3));
    assert_eq!(ix.consumers[0].index.applied, vec![1, 2, 3]);
    // the advanced cursor was persisted under the consumer's name
    let saved = ix.store.load(&"a".to_string()).unwrap();
    assert_eq!(slot_of(&saved), Some(3));
}

#[test]
fn rollback_rewinds_to_exactly_the_target() {
    let mut ix = ChainIndexer::new(InMemoryCursorStore::new(vec![]));
    ix.add_index(probe("a", None), Point::Origin, false);
    for s in [1u64, 2, 3] {
        ix.handle_block_applied(&info(s), &vec![empty_tx(s as u8)]);
    }
    ix.handle_rolled_back(&info(2));
    assert_eq!(slot_of(&ix.consumers[0].cursor), Some(2));
    // projection state attributed to slots > 2 was discarded
    assert_eq!(ix.consumers[0].index.applied, vec![1, 2]);
    let saved = ix.store.load(&"a".to_string()).unwrap();
    assert_eq!(slot_of(&saved), Some(2));
}

#[test]
fn rollback_skips_consumers_at_or_before_target() {
    let mut ix = ChainIndexer::new(InMemoryCursorStore::new(vec![]));
    ix.add_index(probe("a", None), Point::Origin, false);
    ix.handle_block_applied(&info(2), &vec![empty_tx(2)]);
    ix.handle_rolled_back(&info(5));
    // cursor at slot 2 does not exceed slot 5: untouched
    assert_eq!(slot_of(&ix.consumers[0].cursor), Some(2));
    assert_eq!(ix.consumers[0].index.applied, vec![2]);
}

#[test]
fn idempotent_replay_changes_nothing() {
    let mut ix = ChainIndexer::new(InMemoryCursorStore::new(vec![]));
    ix.add_index(probe("a", None), Point::Origin, false);
    ix.handle_block_applied(&info(5), &vec![empty_tx(5)]);
    assert_eq!(ix.consumers[0].index.applied, vec![5]);
    // redelivering the same block, and an older one, changes nothing
    ix.handle_block_applied(&info(5), &vec![empty_tx(5)]);
    ix.handle_block_applied(&info(4), &vec![empty_tx(4)]);
    assert_eq!(ix.consumers[0].index.applied, vec![5]);
    assert_eq!(slot_of(&ix.consumers[0].cursor), Some(5));
}

#[test]
fn failure_isolation_halts_only_the_failing_consumer() {
    let mut ix = ChainIndexer::new(InMemoryCursorStore::new(vec![]));
    ix.add_index(probe("a", Some(2)), Point::Origin, false);
    ix.add_index(probe("b", None), Point::Origin, false);
    for s in [1u64, 2, 3] {
        ix.handle_block_applied(&info(s), &vec![empty_tx(s as u8)]);
    }
    // a failed on block 2: halted, cursor frozen at block 1, failure kept
    assert_eq!(ix.consumers[0].live, Liveness::Halted);
    assert_eq!(slot_of(&ix.consumers[0].cursor), Some(1));
    assert_eq!(ix.consumers[0].index.applied, vec![1]);
    assert!(ix.consumers[0].failure.is_some());
    // b still received and processed blocks 2 and 3
    assert_eq!(ix.consumers[1].live, Liveness::Active);
    assert_eq!(slot_of(&ix.consumers[1].cursor), Some(3));
    assert_eq!(ix.consumers[1].index.applied, vec![1, 2, 3]);
    // and the halted consumer no longer holds the request position back
    let req = ix.request_point().unwrap();
    assert_eq!(slot_of(&req), Some(3));
}

#[test]
fn minimum_cursor_selects_slot_seven() {
    let store = InMemoryCursorStore::new(vec![
        ("a".to_string(), Point::Specific(10, hash(1))),
        ("b".to_string(), Point::Specific(25, hash(2))),
        ("c".to_string(), Point::Specific(7, hash(3))),
    ]);
    let mut ix = ChainIndexer::new(store);
    ix.add_index(probe("a", None), Point::Origin, true);
    ix.add_index(probe("b", None), Point::Origin, true);
    ix.add_index(probe("c", None), Point::Origin, true);
    let req = ix.request_point().unwrap();
    assert_eq!(slot_of(&req), Some(7));
}

#[test]
fn registration_prefers_persisted_cursor_only_when_resuming() {
    let store = InMemoryCursorStore::new(vec![("a".to_string(), Point::Specific(10, hash(1)))]);
    let mut ix = ChainIndexer::new(store);
    ix.add_index(probe("a", None), Point::Origin, true);
    assert_eq!(slot_of(&ix.consumers[0].cursor), Some(10));

    let store = InMemoryCursorStore::new(vec![("a".to_string(), Point::Specific(10, hash(1)))]);
    let mut ix = ChainIndexer::new(store);
    ix.add_index(probe("a", None), Point::Origin, false);
    assert_eq!(slot_of(&ix.consumers[0].cursor), None);
}

#[test]
fn request_point_is_none_without_active_consumers() {
    let mut ix: ChainIndexer<InMemoryCursorStore, ProbeIndex> =
        ChainIndexer::new(InMemoryCursorStore::new(vec![]));
    assert!(ix.request_point().is_none());
    ix.add_index(probe("a", Some(1)), Point::Origin, false);
    ix.handle_block_applied(&info(1), &vec![empty_tx(1)]);
    assert_eq!(ix.consumers[0].live, Liveness::Halted);
    assert!(ix.request_point().is_none());
}

#[test]
fn two_consumers_at_different_positions() {
    let mut ix = ChainIndexer::new(InMemoryCursorStore::new(vec![]));
    ix.add_index(probe("early", None), Point::Origin, false);
    ix.add_index(probe("late", None), Point::Specific(100, hash(9)), false);
    // the stream is requested at the minimum: origin
    assert!(matches!(ix.request_point(), Some(Point::Origin)));
    for s in [5u64, 50, 101, 102] {
        ix.handle_block_applied(&info(s), &vec![empty_tx(s as u8)]);
    }
    // events below slot 100 went only to the first consumer
    assert_eq!(ix.consumers[0].index.applied, vec![5, 50, 101, 102]);
    assert_eq!(ix.consumers[1].index.applied, vec![101, 102]);
    assert_eq!(slot_of(&ix.consumers[0].cursor), Some(102));
    assert_eq!(slot_of(&ix.consumers[1].cursor), Some(102));
}

#[test]
fn cursor_store_roundtrip() {
    let mut store = InMemoryCursorStore::new(vec![]);
    assert!(store.load(&"a".to_string()).is_none());
    store.save(&"a".to_string(), &Point::Specific(4, hash(4)));
    store.save(&"a".to_string(), &Point::Specific(6, hash(6)));
    store.save(&"b".to_string(), &Point::Origin);
    let a = store.load(&"a".to_string()).unwrap();
    assert_eq!(slot_of(&a), Some(6));
    assert!(matches!(store.load(&"b".to_string()), Some(Point::Origin)));
    assert!(store.load(&"c".to_string()).is_none());
}

#[test]
fn process_reports_first_failure_and_cancels_once() {
    let mut p = Process::create();
    let a = p.register();
    let b = p.register();
    let c = p.register();
    assert!(!p.all_finished());
    assert!(!p.service_finished(a, None));
    assert!(p.service_finished(c, Some("upstream connection lost".to_string())));
    // a later failure is not the first: no second cancellation
    assert!(!p.service_finished(b, Some("cancelled".to_string())));
    assert!(p.all_finished());
    assert!(!p.succeeded());
    let (failed_id, message) = p.first_failure.clone().unwrap();
    assert_eq!(failed_id, c);
    assert_eq!(message, "upstream connection lost");
}

#[test]
fn process_succeeds_when_all_services_finish() {
    let mut p = Process::create();
    let a = p.register();
    assert!(!p.service_finished(a, None));
    assert!(p.all_finished());
    assert!(p.succeeded());
}

#[test]
fn rollback_failure_halts_the_consumer_with_cursor_frozen() {
    let mut ix = ChainIndexer::new(InMemoryCursorStore::new(vec![]));
    ix.add_index(ProbeIndex::refusing_rollbacks("r".to_string()), Point::Origin, false);
    ix.add_index(probe("ok", None), Point::Origin, false);
    for s in [1u64, 2, 3] {
        ix.handle_block_applied(&info(s), &vec![empty_tx(s as u8)]);
    }
    ix.handle_rolled_back(&info(2));
    // the refusing consumer is halted, its cursor and projection frozen
    assert_eq!(ix.consumers[0].live, Liveness::Halted);
    assert_eq!(slot_of(&ix.consumers[0].cursor), Some(3));
    assert_eq!(ix.consumers[0].index.applied, vec![1, 2, 3]);
    assert!(ix.consumers[0].failure.is_some());
    // its persisted cursor is the last successfully applied block
    let saved = ix.store.load(&"r".to_string()).unwrap();
    assert_eq!(slot_of(&saved), Some(3));
    // the other consumer rewound normally
    assert_eq!(ix.consumers[1].live, Liveness::Active);
    assert_eq!(slot_of(&ix.consumers[1].cursor), Some(2));
    assert_eq!(ix.consumers[1].index.applied, vec![1, 2]);
}
