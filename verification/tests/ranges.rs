use harvester::harvester::Error;
use harvester::range::{RangeAction, RangeEvent, RangeWalk, PROCESSING_PACE_MILLIS};

fn step(walk: RangeWalk<&'static str>, event: RangeEvent<&'static str>) -> RangeWalk<&'static str> {
    assert!(walk.can_take(&event));
    walk.step(event)
}

/// Walks with the given runtime versions; says which blocks were handled, under which
/// metadata, and what came of it. The block `bad` cannot be handled.
fn walked(start: u64, end: u64, versions: Vec<u32>, bad: u64) -> (Vec<(u64, String)>, u64) {
    let base = "base";
    let mut walk = RangeWalk::begin(start, end, 1);
    let mut handled = vec![];
    let mut pauses = vec![];
    let mut at = 0;
    loop {
        let event = match walk.action() {
            RangeAction::Pause(millis) => {
                pauses.push(millis);
                RangeEvent::Paused
            }
            RangeAction::RuntimeVersionAt(block) => {
                assert_eq!(block, start + at as u64);
                at += 1;
                RangeEvent::RuntimeVersion(Ok(versions[at - 1]))
            }
            RangeAction::MetadataAt(_) => {
                RangeEvent::Metadata(Ok(["zero", "one", "two", "three"][versions[at - 1] as usize]))
            }
            RangeAction::Handle(block) => {
                handled.push((block, walk.metadata(&base).to_string()));
                RangeEvent::Handled(block != bad)
            }
            RangeAction::Return => break,
        };
        walk = step(walk, event);
    }
    assert_eq!(pauses[0], 0);
    for pause in &pauses[1..] {
        assert_eq!(*pause, PROCESSING_PACE_MILLIS);
    }
    match walk.outcome() {
        Some(Ok(last)) => (handled, last),
        other => panic!("{:?}", other),
    }
}

#[test]
fn pace_is_ten_blocks_a_second() {
    assert_eq!(PROCESSING_PACE_MILLIS, 100);
}

#[test]
fn walk_handles_every_block_in_order() {
    let (handled, last) = walked(3, 5, vec![1, 1, 1], 0);
    let blocks: Vec<u64> = handled.iter().map(|h| h.0).collect();
    assert_eq!(blocks, vec![3, 4, 5]);
    assert_eq!(last, 5);
}

#[test]
fn walk_stops_before_a_block_that_cannot_be_handled() {
    let (handled, last) = walked(3, 9, vec![1, 1, 1], 5);
    assert_eq!(handled.len(), 3);
    assert_eq!(last, 4);
}

#[test]
fn walk_whose_start_is_past_its_end_handles_one_block() {
    let (handled, last) = walked(8, 5, vec![1], 0);
    assert_eq!(handled, vec![(8, "base".to_string())]);
    assert_eq!(last, 5);
}

#[test]
fn walk_follows_the_runtime() {
    let (handled, _) = walked(1, 6, vec![1, 2, 2, 3, 1, 1], 0);
    let metadata: Vec<String> = handled.into_iter().map(|h| h.1).collect();
    assert_eq!(metadata, vec!["base", "two", "two", "three", "one", "one"]);
}

#[test]
fn client_errors_break_a_walk_off() {
    let walk: RangeWalk<&'static str> = RangeWalk::begin(1, 2, 1);
    let walk = step(walk, RangeEvent::Paused);
    let walk = step(walk, RangeEvent::RuntimeVersion(Err("down".to_string())));
    assert_eq!(walk.action(), RangeAction::Return);
    match walk.outcome() {
        Some(Err(Error::Client(text))) => assert_eq!(text, "down"),
        other => panic!("{:?}", other),
    }
    let walk: RangeWalk<&'static str> = RangeWalk::begin(1, 2, 1);
    let walk = step(walk, RangeEvent::Paused);
    let walk = step(walk, RangeEvent::RuntimeVersion(Ok(2)));
    assert_eq!(walk.action(), RangeAction::MetadataAt(1));
    let walk = step(walk, RangeEvent::Metadata(Err("gone".to_string())));
    match walk.outcome() {
        Some(Err(Error::Client(text))) => assert_eq!(text, "gone"),
        other => panic!("{:?}", other),
    }
}

#[test]
fn walk_takes_only_what_it_asked_for() {
    let walk: RangeWalk<&'static str> = RangeWalk::begin(0, 2, 1);
    assert!(!walk.can_take(&RangeEvent::Handled(true)));
    assert!(!walk.can_take(&RangeEvent::RuntimeVersion(Ok(1))));
    let walk = step(walk, RangeEvent::Paused);
    let walk = step(walk, RangeEvent::RuntimeVersion(Ok(1)));
    assert!(!walk.can_take(&RangeEvent::Handled(false)));
    assert!(walk.can_take(&RangeEvent::Handled(true)));
    assert!(walk.outcome().is_none());
}

#[test]
fn walk_stops_at_the_last_number() {
    let walk: RangeWalk<&'static str> = RangeWalk::begin(u64::MAX, u64::MAX, 1);
    let walk = step(walk, RangeEvent::Paused);
    let walk = step(walk, RangeEvent::RuntimeVersion(Ok(1)));
    assert!(!walk.can_take(&RangeEvent::Handled(true)));
    assert!(walk.can_take(&RangeEvent::Handled(false)));
}

#[test]
fn metadata_is_asked_for_only_where_the_runtime_changes() {
    let versions = [1, 2, 2, 1];
    let mut walk: RangeWalk<&'static str> = RangeWalk::begin(10, 13, 1);
    let mut asked = vec![];
    loop {
        let event = match walk.action() {
            RangeAction::Pause(_) => RangeEvent::Paused,
            RangeAction::RuntimeVersionAt(block) => {
                RangeEvent::RuntimeVersion(Ok(versions[block as usize - 10]))
            }
            RangeAction::MetadataAt(block) => {
                asked.push(block);
                RangeEvent::Metadata(Ok("metadata"))
            }
            RangeAction::Handle(_) => RangeEvent::Handled(true),
            RangeAction::Return => break,
        };
        walk = step(walk, event);
    }
    assert_eq!(asked, vec![11, 13]);
}
