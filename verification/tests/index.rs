use harvester::finalize::{PendingBlock, TryFinalize, TryFinalizeAction, TryFinalizeEvent};
use harvester::handle::{HandleAction, HandleBlock, HandleEvent, HandleOutcome};
use harvester::indexer::{from_store, Error, Indexer};
use harvester::range::{RangeAction, RangeEvent, RangeWalk};
use harvester::storage_key_at;

type Handling = HandleBlock<u8, &'static str, String>;
type Index = Indexer<(), (), (), (), (), &'static str, String>;

fn index() -> Index {
    Indexer::new((), ())
}

fn chain_hash(block: u32) -> Vec<u8> {
    vec![block as u8, 0xaa]
}

fn pending(block: u32) -> PendingBlock {
    (block, Some(chain_hash(block)))
}

/// Finalizes against a chain whose hashes are `chain_hash`: what is answered, which blocks
/// were finalized, and above which block pending ones were dropped.
fn finalized(list: Vec<PendingBlock>, last: u32, end: u32) -> (Option<u32>, Vec<u32>, Vec<u32>) {
    let mut list = Some(list);
    let mut done = vec![];
    let mut purged = vec![];
    let mut state = index().try_finalize(end);
    loop {
        let event = match state.action() {
            TryFinalizeAction::NonFinalizedBlocks => {
                TryFinalizeEvent::NonFinalizedBlocks(Ok(list.take().unwrap_or_default()))
            }
            TryFinalizeAction::LastFinalizedBlock => TryFinalizeEvent::LastFinalizedBlock(Ok(last)),
            TryFinalizeAction::Hash(block) => TryFinalizeEvent::Hash(Ok(Some(chain_hash(block)))),
            TryFinalizeAction::Finalize(block) => {
                done.push(block);
                TryFinalizeEvent::Finalized(Ok(()))
            }
            TryFinalizeAction::PurgePending(block) => {
                purged.push(block);
                TryFinalizeEvent::Purged(Ok(()))
            }
            TryFinalizeAction::Return => break,
        };
        assert!(state.can_take(&event));
        state = state.step(event);
    }
    match state.outcome() {
        Some(Ok(answer)) => (answer, done, purged),
        other => panic!("{:?}", other),
    }
}

#[test]
fn matching_blocks_become_final() {
    let list = vec![pending(4), pending(5), pending(6)];
    assert_eq!(finalized(list, 3, 5), (None, vec![4, 5], vec![]));
}

#[test]
fn exhausted_pending_blocks_end_finalizing() {
    assert_eq!(finalized(vec![pending(4)], 3, 9), (Some(5), vec![4], vec![]));
    assert_eq!(finalized(vec![], 3, 9), (Some(4), vec![], vec![]));
}

#[test]
fn missing_pending_block_drops_the_rest() {
    let list = vec![pending(4), pending(6)];
    assert_eq!(finalized(list, 3, 9), (Some(5), vec![4], vec![4]));
}

#[test]
fn other_hash_drops_the_rest() {
    let list = vec![pending(4), (5, Some(vec![1])), pending(6)];
    assert_eq!(finalized(list, 3, 9), (Some(5), vec![4], vec![4]));
    let list = vec![(1, Some(vec![1, 0xaa, 0]))];
    assert_eq!(finalized(list, 0, 9), (Some(1), vec![], vec![0]));
}

#[test]
fn nothing_is_finalized_past_the_end() {
    assert_eq!(finalized(vec![pending(4)], 3, 3), (None, vec![], vec![]));
    assert_eq!(finalized(vec![pending(9)], 8, 3), (None, vec![], vec![]));
}

#[test]
fn pending_number_without_hash_is_not_compared() {
    let list = vec![(7, None)];
    assert_eq!(finalized(list, 3, 9), (Some(4), vec![], vec![3]));
}

fn finalize_to(events: Vec<TryFinalizeEvent>) -> TryFinalize {
    let mut state = TryFinalize::begin(9);
    for event in events {
        assert!(state.can_take(&event));
        state = state.step(event);
    }
    state
}

fn store_error(state: TryFinalize, expected: &str) {
    match state.outcome() {
        Some(Err(Error::Sqlite(text))) => assert_eq!(text, expected),
        other => panic!("{:?}", other),
    }
}

#[test]
fn store_errors_end_finalizing() {
    store_error(
        finalize_to(vec![TryFinalizeEvent::NonFinalizedBlocks(Err("list".to_string()))]),
        "list",
    );
    store_error(
        finalize_to(vec![
            TryFinalizeEvent::NonFinalizedBlocks(Ok(vec![])),
            TryFinalizeEvent::LastFinalizedBlock(Err("last".to_string())),
        ]),
        "last",
    );
    store_error(
        finalize_to(vec![
            TryFinalizeEvent::NonFinalizedBlocks(Ok(vec![pending(4)])),
            TryFinalizeEvent::LastFinalizedBlock(Ok(3)),
            TryFinalizeEvent::Hash(Ok(Some(chain_hash(4)))),
            TryFinalizeEvent::Finalized(Err("finalize".to_string())),
        ]),
        "finalize",
    );
    store_error(
        finalize_to(vec![
            TryFinalizeEvent::NonFinalizedBlocks(Ok(vec![pending(5)])),
            TryFinalizeEvent::LastFinalizedBlock(Ok(3)),
            TryFinalizeEvent::Hash(Ok(Some(chain_hash(4)))),
            TryFinalizeEvent::Purged(Err("purge".to_string())),
        ]),
        "purge",
    );
}

#[test]
fn client_errors_end_finalizing() {
    let state = finalize_to(vec![
        TryFinalizeEvent::NonFinalizedBlocks(Ok(vec![])),
        TryFinalizeEvent::LastFinalizedBlock(Ok(3)),
        TryFinalizeEvent::Hash(Err("client".to_string())),
    ]);
    match state.outcome() {
        Some(Err(Error::Client(text))) => assert_eq!(text, "client"),
        other => panic!("{:?}", other),
    }
}

#[test]
fn finalizing_needs_hashes_and_numbers() {
    let state = finalize_to(vec![TryFinalizeEvent::NonFinalizedBlocks(Ok(vec![(4, None)]))]);
    assert!(!state.can_take(&TryFinalizeEvent::LastFinalizedBlock(Ok(u32::MAX))));
    assert!(!state.can_take(&TryFinalizeEvent::Purged(Ok(()))));
    let state = state.step(TryFinalizeEvent::LastFinalizedBlock(Ok(3)));
    assert!(!state.can_take(&TryFinalizeEvent::Hash(Ok(None))));
    assert!(!state.can_take(&TryFinalizeEvent::Hash(Ok(Some(chain_hash(4))))));
    assert!(state.outcome().is_none());
}

/// Handles a block: what comes of it, and what was asked.
fn handled(
    state: Handling,
    entry: Option<Vec<u8>>,
    events: Vec<(u8, &'static str)>,
) -> (HandleOutcome<u8, &'static str, String>, Vec<String>) {
    let mut state = state;
    let mut events = Some(events);
    let mut asked = vec![];
    loop {
        let event = match state.action() {
            HandleAction::Storage { block, key } => {
                assert_eq!(key.0, storage_key_at(b"System", b"Events").0);
                asked.push(format!("storage {}", block));
                HandleEvent::Storage(Ok(entry.clone()))
            }
            HandleAction::Hash(block) => {
                asked.push(format!("hash {}", block));
                HandleEvent::Hash(Ok(Some(chain_hash(block))))
            }
            HandleAction::Decode(bytes) => {
                asked.push(format!("decode {:?}", bytes));
                HandleEvent::Decoded(Ok(events.take().unwrap_or_default()))
            }
            HandleAction::Extract { block, phase, event } => {
                asked.push(format!("extract {} {} {}", block, phase, event));
                HandleEvent::Extracted(format!("{}!", event))
            }
            HandleAction::Finish => break,
        };
        assert!(state.can_take(&event));
        state = state.step(event);
    }
    match state.outcome() {
        Some(outcome) => (outcome, asked),
        None => panic!("no outcome"),
    }
}

#[test]
fn pending_block_is_stored_under_its_hash() {
    let (outcome, asked) =
        handled(index().handle_pending(7), Some(vec![1, 2]), vec![(0, "a"), (1, "b")]);
    assert_eq!(
        asked,
        vec!["storage 7", "hash 7", "decode [1, 2]", "extract 7 0 a", "extract 7 1 b"]
    );
    match outcome {
        HandleOutcome::StorePending { block, hash, records } => {
            assert_eq!(block, 7);
            assert_eq!(hash, chain_hash(7));
            assert_eq!(records, vec![(0, "a", "a!".to_string()), (1, "b", "b!".to_string())]);
        }
        other => panic!("{:?}", other),
    }
}

#[test]
fn finalized_block_is_stored_without_hash() {
    let (outcome, asked) = handled(index().handle_final(7), Some(vec![]), vec![(3, "x")]);
    assert_eq!(asked, vec!["storage 7", "decode []", "extract 7 3 x"]);
    match outcome {
        HandleOutcome::StoreFinalized { block, records } => {
            assert_eq!(block, 7);
            assert_eq!(records, vec![(3, "x", "x!".to_string())]);
        }
        other => panic!("{:?}", other),
    }
}

#[test]
fn block_with_an_empty_list_of_events_is_stored() {
    let (outcome, _) = handled(index().handle_final(1), Some(vec![0]), vec![]);
    assert!(matches!(outcome, HandleOutcome::StoreFinalized { block: 1, records } if records.is_empty()));
}

#[test]
fn block_without_events_is_skipped() {
    let (outcome, asked) = handled(index().handle_final(1), None, vec![(1, "x")]);
    assert!(matches!(outcome, HandleOutcome::Return(Ok(()))));
    assert_eq!(asked, vec!["storage 1"]);
    let (outcome, asked) = handled(index().handle_pending(1), None, vec![(1, "x")]);
    assert!(matches!(outcome, HandleOutcome::Return(Ok(()))));
    assert_eq!(asked, vec!["storage 1", "hash 1"]);
}

fn handling_error(events: Vec<HandleEvent<u8, &'static str, String>>) -> Error {
    let mut state: Handling = index().handle_pending(5);
    for event in events {
        assert!(state.can_take(&event));
        state = state.step(event);
    }
    match state.outcome() {
        Some(HandleOutcome::Return(Err(e))) => e,
        other => panic!("{:?}", other),
    }
}

#[test]
fn errors_end_handling() {
    match handling_error(vec![HandleEvent::Storage(Err("s".to_string()))]) {
        Error::Client(text) => assert_eq!(text, "s"),
        other => panic!("{:?}", other),
    }
    match handling_error(vec![
        HandleEvent::Storage(Ok(None)),
        HandleEvent::Hash(Err("h".to_string())),
    ]) {
        Error::Client(text) => assert_eq!(text, "h"),
        other => panic!("{:?}", other),
    }
    match handling_error(vec![
        HandleEvent::Storage(Ok(Some(vec![1]))),
        HandleEvent::Hash(Ok(Some(vec![]))),
        HandleEvent::Decoded(Err("d".to_string())),
    ]) {
        Error::Decoder(text) => assert_eq!(text, "d"),
        other => panic!("{:?}", other),
    }
}

#[test]
fn pending_block_has_to_have_a_hash() {
    let state: Handling = index().handle_pending(5);
    assert!(!state.can_take(&HandleEvent::Hash(Ok(Some(vec![])))));
    let state = state.step(HandleEvent::Storage(Ok(None)));
    assert!(!state.can_take(&HandleEvent::Hash(Ok(None))));
    assert!(!state.can_take(&HandleEvent::Extracted("x".to_string())));
    assert!(state.outcome().is_none());
}

#[test]
fn errors_of_the_store_are_the_index_s() {
    assert!(matches!(from_store(Ok(4)), Ok(4)));
    match from_store::<u32>(Err("locked".to_string())) {
        Err(Error::Sqlite(text)) => assert_eq!(text, "locked"),
        other => panic!("{:?}", other),
    }
}

#[test]
fn finalized_and_repaired_blocks_fill_the_range() {
    let list = vec![pending(4), pending(5), (6, Some(vec![0]))];
    let (stopped_at, finalized, _) = finalized(list, 3, 8);
    let mut walk: RangeWalk<()> = RangeWalk::begin(stopped_at.unwrap_or_default() as u64, 8, 1);
    let mut handled = vec![];
    loop {
        let event = match walk.action() {
            RangeAction::Pause(_) => RangeEvent::Paused,
            RangeAction::RuntimeVersionAt(_) => RangeEvent::RuntimeVersion(Ok(1)),
            RangeAction::MetadataAt(_) => RangeEvent::Metadata(Ok(())),
            RangeAction::Handle(block) => {
                handled.push(block);
                RangeEvent::Handled(true)
            }
            RangeAction::Return => break,
        };
        assert!(walk.can_take(&event));
        walk = walk.step(event);
    }
    assert_eq!(finalized, vec![4, 5]);
    assert_eq!(handled, vec![6, 7, 8]);
    assert!(matches!(walk.outcome(), Some(Ok(8))));
}
