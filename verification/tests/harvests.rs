use harvester::harvester::{
    start, Action, Error, Event, HarvestAll, HarvestFinalizeOnly, CATCH_UP_DISTANCE,
};

type All = HarvestAll<&'static str>;
type FinalizeOnly = HarvestFinalizeOnly<&'static str>;

fn text(s: &str) -> String {
    s.to_string()
}

fn all(harvest: All, event: Event<&'static str>) -> All {
    assert!(harvest.can_take(&event));
    harvest.step(event)
}

fn only(harvest: FinalizeOnly, event: Event<&'static str>) -> FinalizeOnly {
    assert!(harvest.can_take(&event));
    harvest.step(event)
}

/// A harvest that knows the chain, where the index stands at `last` and the chain at `head`.
fn all_at(last: u64, head: u64) -> All {
    let harvest = start();
    assert_eq!(harvest.action(), Action::LastFinalizedBlock);
    let harvest = all(harvest, Event::LastFinalizedBlock(Ok(last)));
    assert_eq!(harvest.action(), Action::FinalizedHead);
    let harvest = all(harvest, Event::FinalizedHead(Ok(head)));
    assert_eq!(harvest.action(), Action::RuntimeVersionAt(head));
    let harvest = all(harvest, Event::RuntimeVersion(Ok(12)));
    assert_eq!(harvest.action(), Action::MetadataAt(head));
    assert!(harvest.info.is_none());
    all(harvest, Event::Metadata(Ok("metadata")))
}

/// A harvest that waits for notifications.
fn racing() -> All {
    let harvest = all_at(5, 6);
    assert_eq!(harvest.action(), Action::SubscribeFinality);
    let harvest = all(harvest, Event::Subscribed);
    assert_eq!(harvest.action(), Action::SubscribeImports);
    let harvest = all(harvest, Event::Subscribed);
    assert_eq!(harvest.action(), Action::PeekFinality);
    let harvest = all(harvest, Event::Peeked(Some(6)));
    assert_eq!(harvest.action(), Action::NextNotification);
    harvest
}

fn peeked(last: u64, block: Option<u64>) -> All {
    let harvest = all(all(all_at(last, last), Event::Subscribed), Event::Subscribed);
    all(harvest, Event::Peeked(block))
}

#[test]
fn chain_is_known_before_anything_is_walked() {
    let harvest = all_at(5, 6);
    match &harvest.info {
        Some(info) => {
            assert_eq!(info.metadata, "metadata");
            assert_eq!(info.spec_version, 12);
        }
        None => panic!("nothing is known"),
    }
}

#[test]
fn chain_info_is_kept() {
    let harvest = all(racing(), Event::Finality(Some(9)));
    let harvest = all(harvest, Event::TryFinalized(Ok(Some(8))));
    assert_eq!(harvest.info.map(|info| info.metadata), Some("metadata"));
}

#[test]
fn harvest_catches_up_from_ten_blocks_on() {
    assert_eq!(CATCH_UP_DISTANCE, 10);
    assert_eq!(all_at(5, 14).action(), Action::SubscribeFinality);
    assert_eq!(all_at(5, 15).action(), Action::TryFinalize(15));
    assert_eq!(all_at(5, 5).action(), Action::SubscribeFinality);
}

#[test]
fn catching_up_goes_on_until_it_is_close() {
    let harvest = all(all_at(0, 20), Event::TryFinalized(Ok(Some(4))));
    assert_eq!(harvest.action(), Action::Repair { start: 4, end: 20 });
    let harvest = all(harvest, Event::RangeDone(Ok(20)));
    assert_eq!(harvest.action(), Action::LastFinalizedBlock);
    let harvest = all(harvest, Event::LastFinalizedBlock(Ok(20)));
    assert_eq!(harvest.action(), Action::FinalizedHead);
    let harvest = all(harvest, Event::FinalizedHead(Ok(40)));
    assert_eq!(harvest.action(), Action::TryFinalize(40));
    let harvest = all(harvest, Event::TryFinalized(Ok(None)));
    assert_eq!(harvest.action(), Action::LastFinalizedBlock);
    let harvest = all(harvest, Event::LastFinalizedBlock(Ok(40)));
    let harvest = all(harvest, Event::FinalizedHead(Ok(41)));
    assert_eq!(harvest.action(), Action::SubscribeFinality);
}

#[test]
fn gap_before_the_first_notification_is_closed() {
    let harvest = peeked(5, Some(8));
    assert_eq!(harvest.action(), Action::TryFinalize(7));
    let done = all(harvest, Event::TryFinalized(Ok(Some(6))));
    assert_eq!(done.action(), Action::Repair { start: 6, end: 7 });
    let done = all(done, Event::RangeDone(Ok(7)));
    assert_eq!(done.action(), Action::NextNotification);
    let harvest = all(peeked(5, Some(8)), Event::TryFinalized(Ok(None)));
    assert_eq!(harvest.action(), Action::NextNotification);
}

#[test]
fn no_gap_needs_no_closing() {
    assert_eq!(peeked(5, Some(6)).action(), Action::NextNotification);
    assert_eq!(peeked(5, Some(3)).action(), Action::NextNotification);
    assert_eq!(peeked(5, None).action(), Action::NextNotification);
    assert_eq!(peeked(5, Some(7)).action(), Action::TryFinalize(6));
}

#[test]
fn notified_block_is_finalized_and_the_rest_repaired() {
    let harvest = all(racing(), Event::Finality(Some(9)));
    assert_eq!(harvest.action(), Action::TryFinalize(9));
    let harvest = all(harvest, Event::TryFinalized(Ok(Some(8))));
    assert_eq!(harvest.action(), Action::Repair { start: 8, end: 9 });
    let harvest = all(harvest, Event::RangeDone(Ok(7)));
    assert_eq!(harvest.action(), Action::NextNotification);
    let harvest = all(harvest, Event::Finality(Some(10)));
    let harvest = all(harvest, Event::TryFinalized(Ok(None)));
    assert_eq!(harvest.action(), Action::NextNotification);
}

#[test]
fn imported_block_is_processed_once() {
    let harvest = all(racing(), Event::Import(Some(9)));
    assert_eq!(harvest.action(), Action::LastPendingBlock);
    let harvest = all(harvest, Event::LastPendingBlock(Ok(6)));
    assert_eq!(harvest.action(), Action::ProcessPending { start: 7, end: 9 });
    let harvest = all(harvest, Event::RangeDone(Ok(9)));
    assert_eq!(harvest.action(), Action::NextNotification);
    let harvest = all(harvest, Event::Import(Some(9)));
    let harvest = all(harvest, Event::LastPendingBlock(Ok(9)));
    assert_eq!(harvest.action(), Action::NextNotification);
}

fn all_error(harvest: All) -> Error {
    assert_eq!(harvest.action(), Action::Return);
    match harvest.outcome() {
        Some(e) => e,
        None => panic!("the harvest goes on"),
    }
}

#[test]
fn end_of_notifications_ends_a_harvest() {
    assert!(matches!(all_error(all(racing(), Event::Finality(None))), Error::Subscription));
    assert!(matches!(all_error(all(racing(), Event::Import(None))), Error::Subscription));
}

#[test]
fn failing_block_processor_ends_a_harvest() {
    let harvest = all(start(), Event::LastFinalizedBlock(Err(text("db"))));
    assert!(matches!(all_error(harvest), Error::BlockProcessor(e) if e == "db"));
    let harvest = all(racing(), Event::Import(Some(9)));
    let harvest = all(harvest, Event::LastPendingBlock(Err(text("db"))));
    assert!(matches!(all_error(harvest), Error::BlockProcessor(e) if e == "db"));
    let harvest = all(all_at(0, 20), Event::TryFinalized(Ok(None)));
    let harvest = all(harvest, Event::LastFinalizedBlock(Err(text("db"))));
    assert!(matches!(all_error(harvest), Error::BlockProcessor(e) if e == "db"));
}

#[test]
fn failing_client_ends_a_harvest() {
    let harvest = all(start(), Event::LastFinalizedBlock(Ok(1)));
    let harvest = all(harvest, Event::FinalizedHead(Err(text("net"))));
    assert!(matches!(all_error(harvest), Error::Client(e) if e == "net"));
    let harvest = all(start(), Event::LastFinalizedBlock(Ok(1)));
    let harvest = all(harvest, Event::FinalizedHead(Ok(1)));
    let harvest = all(harvest, Event::RuntimeVersion(Err(text("version"))));
    assert!(matches!(all_error(harvest), Error::Client(e) if e == "version"));
    let harvest = all(start(), Event::LastFinalizedBlock(Ok(1)));
    let harvest = all(harvest, Event::FinalizedHead(Ok(1)));
    let harvest = all(harvest, Event::RuntimeVersion(Ok(1)));
    let harvest = all(harvest, Event::Metadata(Err(text("metadata"))));
    assert!(matches!(all_error(harvest), Error::Client(e) if e == "metadata"));
}

#[test]
fn failure_to_finalize_ends_a_harvest() {
    let harvest = all(all_at(0, 20), Event::TryFinalized(Err(text("db"))));
    assert!(matches!(all_error(harvest), Error::Client(e) if e == "db"));
    let harvest = all(peeked(5, Some(8)), Event::TryFinalized(Err(text("db"))));
    assert!(matches!(all_error(harvest), Error::Client(e) if e == "db"));
    let harvest = all(racing(), Event::Finality(Some(9)));
    let harvest = all(harvest, Event::TryFinalized(Err(text("db"))));
    assert!(matches!(all_error(harvest), Error::Subscription));
}

#[test]
fn error_of_a_walk_ends_a_harvest() {
    let harvest = all(racing(), Event::Finality(Some(9)));
    let harvest = all(harvest, Event::TryFinalized(Ok(Some(9))));
    let harvest = all(harvest, Event::RangeDone(Err(Error::Client(text("net")))));
    assert!(matches!(all_error(harvest), Error::Client(e) if e == "net"));
}

#[test]
fn harvest_takes_only_what_it_asked_for() {
    let harvest: All = start();
    assert!(!harvest.can_take(&Event::FinalizedHead(Ok(1))));
    assert!(!harvest.can_take(&Event::Purged(Ok(()))));
    assert!(harvest.outcome().is_none());
    let harvest: All = start();
    let harvest = all(harvest, Event::LastFinalizedBlock(Ok(9)));
    let harvest = all(harvest, Event::FinalizedHead(Ok(3)));
    let harvest = all(harvest, Event::RuntimeVersion(Ok(1)));
    assert!(!harvest.can_take(&Event::Metadata(Ok("ahead of the chain"))));
}

fn only_at(last: u64) -> FinalizeOnly {
    let harvest: FinalizeOnly = HarvestFinalizeOnly::begin();
    assert_eq!(harvest.action(), Action::LastFinalizedBlock);
    let harvest = only(harvest, Event::LastFinalizedBlock(Ok(last)));
    assert_eq!(harvest.action(), Action::FinalizedHead);
    let harvest = only(harvest, Event::FinalizedHead(Ok(30)));
    assert_eq!(harvest.action(), Action::RuntimeVersionAt(30));
    let harvest = only(harvest, Event::RuntimeVersion(Ok(12)));
    assert_eq!(harvest.action(), Action::MetadataAt(30));
    let harvest = only(harvest, Event::Metadata(Ok("metadata")));
    assert_eq!(harvest.action(), Action::SubscribeFinality);
    let harvest = only(harvest, Event::Subscribed);
    assert_eq!(harvest.action(), Action::PurgePending(last));
    let harvest = only(harvest, Event::Purged(Ok(())));
    assert_eq!(harvest.action(), Action::PeekFinality);
    harvest
}

#[test]
fn finalized_blocks_are_walked_up_to_each_notification() {
    let harvest = only(only_at(5), Event::Peeked(Some(8)));
    assert_eq!(harvest.action(), Action::Repair { start: 6, end: 7 });
    let harvest = only(harvest, Event::RangeDone(Ok(7)));
    assert_eq!(harvest.action(), Action::NextFinality);
    let harvest = only(harvest, Event::Finality(Some(8)));
    assert_eq!(harvest.action(), Action::LastFinalizedBlock);
    let harvest = only(harvest, Event::LastFinalizedBlock(Ok(7)));
    assert_eq!(harvest.action(), Action::Repair { start: 8, end: 8 });
    let harvest = only(harvest, Event::RangeDone(Ok(8)));
    assert_eq!(harvest.action(), Action::NextFinality);
    match &harvest.info {
        Some(info) => assert_eq!((info.metadata, info.spec_version), ("metadata", 12)),
        None => panic!("nothing is known"),
    }
}

#[test]
fn finalized_blocks_without_gap_are_not_walked() {
    assert_eq!(only(only_at(5), Event::Peeked(Some(6))).action(), Action::NextFinality);
    assert_eq!(only(only_at(5), Event::Peeked(Some(2))).action(), Action::NextFinality);
    assert_eq!(only(only_at(5), Event::Peeked(None)).action(), Action::NextFinality);
}

#[test]
fn harvest_of_finalized_blocks_ends_with_failures() {
    let begun: FinalizeOnly = HarvestFinalizeOnly::begin();
    let harvest = only(begun, Event::LastFinalizedBlock(Err(text("db"))));
    assert!(matches!(harvest.outcome(), Some(Error::BlockProcessor(e)) if e == "db"));
    let harvest = only(only(only_at(1), Event::Peeked(None)), Event::Finality(None));
    assert!(matches!(harvest.outcome(), Some(Error::Subscription)));
    let harvest = only(only(only_at(1), Event::Peeked(None)), Event::Finality(Some(4)));
    assert!(!harvest.can_take(&Event::LastFinalizedBlock(Ok(u64::MAX))));
    let harvest = only(harvest, Event::LastFinalizedBlock(Ok(1)));
    let harvest = only(harvest, Event::RangeDone(Err(Error::Client(text("net")))));
    assert!(matches!(harvest.outcome(), Some(Error::Client(e)) if e == "net"));
}

#[test]
fn harvest_of_finalized_blocks_purges_once() {
    let mut harvest = only(only_at(5), Event::Peeked(Some(8)));
    let mut notified = vec![10, 9, 8];
    loop {
        let event = match harvest.action() {
            Action::Repair { end, .. } => Event::RangeDone(Ok(end)),
            Action::NextFinality => Event::Finality(notified.pop()),
            Action::LastFinalizedBlock => Event::LastFinalizedBlock(Ok(7)),
            Action::Return => break,
            other => panic!("{:?}", other),
        };
        assert!(!harvest.can_take(&Event::Purged(Ok(()))));
        harvest = only(harvest, event);
    }
    assert!(notified.is_empty());
}

#[test]
fn failing_purge_ends_a_harvest_of_finalized_blocks() {
    let harvest: FinalizeOnly = HarvestFinalizeOnly::begin();
    let harvest = only(harvest, Event::LastFinalizedBlock(Ok(5)));
    let harvest = only(harvest, Event::FinalizedHead(Ok(30)));
    let harvest = only(harvest, Event::RuntimeVersion(Ok(12)));
    let harvest = only(harvest, Event::Metadata(Ok("metadata")));
    let harvest = only(harvest, Event::Subscribed);
    let harvest = only(harvest, Event::Purged(Err(text("db"))));
    assert!(matches!(harvest.outcome(), Some(Error::BlockProcessor(e)) if e == "db"));
}

#[test]
fn metadata_errors_become_harvest_errors() {
    let error = Error::from(harvester::metadata::Error::MissingType(4));
    assert!(matches!(error, Error::Metadata(harvester::metadata::Error::MissingType(4))));
}
