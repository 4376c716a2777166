//! Following a chain: what to ask of it and of the index, and in which order.
//!
//! A harvest says what it needs next (its `action`); its driver does that and hands the
//! answer back (its `step`). [`HarvestAll`] follows pending blocks as well as finalized ones,
//! [`HarvestFinalizeOnly`] finalized blocks alone. Neither ends but in an error: a chain goes
//! on for as long as its notifications come.

use vstd::prelude::*;

use crate::finalize::{
    finalize_accepts, finalize_run, finalized_in, hashes_from, last_before,
    law_finalize_finalizes_what_matches, TryFinalize, TryFinalizeEvent, TryFinalizeStage,
};
use crate::range::{
    law_walk_visits_in_order, range_accepts, range_run, range_visits, RangeEvent, RangeStage,
    RangeWalk,
};

verus! {

/// How far the index may lag behind the last finalized block before it has to catch up.
pub const CATCH_UP_DISTANCE: u64 = 10;

/// Why harvesting ends.
#[derive(Debug)]
pub enum Error {
    /// The block subscription terminated.
    Subscription,
    Blockchain(String),
    CallApAt(String),
    ProvideRuntimeApi(String),
    Codec(String),
    Metadata(crate::metadata::Error),
    BlockHashNotFound,
    Client(String),
    BlockProcessor(String),
}

impl From<crate::metadata::Error> for Error {
    fn from(error: crate::metadata::Error) -> (converted: Error)
        ensures
            converted == Error::Metadata(error),
    {
        Error::Metadata(error)
    }
}

impl vstd::std_specs::convert::FromSpecImpl<crate::metadata::Error> for Error {
    open spec fn obeys_from_spec() -> bool {
        true
    }

    open spec fn from_spec(error: crate::metadata::Error) -> Error {
        Error::Metadata(error)
    }
}

/// What a harvest needs next.
#[derive(Clone, Copy, Debug, PartialEq, Eq, Structural)]
pub enum Action {
    /// Ask the block processor for the last block that it has finalized.
    LastFinalizedBlock,
    /// Ask the block processor for the last pending block that it has processed.
    LastPendingBlock,
    /// Have the block processor finalize its pending blocks up to this one.
    TryFinalize(u64),
    /// Have the block processor drop its pending blocks above this one.
    PurgePending(u64),
    /// Walk a range of finalized blocks.
    Repair { start: u64, end: u64 },
    /// Walk a range of pending blocks.
    ProcessPending { start: u64, end: u64 },
    /// Ask the client for the last finalized block of the chain.
    FinalizedHead,
    /// Ask the client for the runtime version at a block.
    RuntimeVersionAt(u64),
    /// Ask the client for the metadata at a block.
    MetadataAt(u64),
    /// Subscribe to the chain's notifications of finalized blocks.
    SubscribeFinality,
    /// Subscribe to the chain's notifications of imported blocks.
    SubscribeImports,
    /// Look at the next finalized block without taking it.
    PeekFinality,
    /// Take the next finalized block.
    NextFinality,
    /// Take the next finalized or imported block, whichever comes first.
    NextNotification,
    /// Nothing: the harvest is over.
    Return,
}

/// The answer to an action of a harvest. `M` is metadata; a text describes the error of a
/// client or of a block processor.
#[derive(Debug)]
pub enum Event<M> {
    LastFinalizedBlock(Result<u64, String>),
    LastPendingBlock(Result<u64, String>),
    /// The first block that could not be finalized, if there is one.
    TryFinalized(Result<Option<u64>, String>),
    Purged(Result<(), String>),
    /// What came of the walk through a range.
    RangeDone(Result<u64, Error>),
    FinalizedHead(Result<u64, String>),
    /// The number of the specification that the runtime follows.
    RuntimeVersion(Result<u32, String>),
    Metadata(Result<M, String>),
    Subscribed,
    /// The number of the next finalized block, or `None` where no more will come.
    Peeked(Option<u64>),
    /// The number of a finalized block, or `None` where no more will come.
    Finality(Option<u64>),
    /// The number of an imported block, or `None` where no more will come.
    Import(Option<u64>),
}

/// The chain's metadata and the specification that its runtime follows.
#[derive(Debug)]
pub struct ChainInfo<M> {
    pub metadata: M,
    pub spec_version: u32,
}

/// Where a [`HarvestAll`] stands. `last` is the last block that the index has finalized,
/// `head` the last finalized block of the chain.
#[derive(Debug)]
pub enum AllStage {
    LastFinalized,
    Head { last: u64 },
    HeadVersion { last: u64, head: u64 },
    HeadMetadata { last: u64, head: u64, spec_version: u32 },
    CatchUp { last: u64, head: u64 },
    CatchUpRepair { start: u64, head: u64 },
    CatchUpLastFinalized,
    CatchUpHead { last: u64 },
    SubscribeFinality { last: u64, head: u64 },
    SubscribeImports { last: u64 },
    Peek { last: u64 },
    PeekFinalize { last: u64, to: u64 },
    PeekRepair { start: u64, to: u64 },
    Race,
    Finalize { block: u64 },
    Repair { start: u64, block: u64 },
    LastPending { block: u64 },
    Pending { start: u64, block: u64 },
    Done(Error),
}

/// A harvest of finalized and pending blocks. `info` is what the chain said of itself at the
/// finalized block that the harvest started from.
#[derive(Debug)]
pub struct HarvestAll<M> {
    pub stage: AllStage,
    pub info: Option<ChainInfo<M>>,
}

/// What follows once the last finalized blocks of the index and of the chain are known: far
/// behind, the index catches up; else it goes on with notifications.
pub open spec fn catching_up(last: u64, head: u64) -> AllStage {
    if head - last < CATCH_UP_DISTANCE {
        AllStage::SubscribeFinality { last, head }
    } else {
        AllStage::CatchUp { last, head }
    }
}

impl AllStage {
    /// What a harvest at this stage needs next.
    pub open spec fn wants(self) -> Action {
        match self {
            AllStage::LastFinalized | AllStage::CatchUpLastFinalized => Action::LastFinalizedBlock,
            AllStage::Head { .. } | AllStage::CatchUpHead { .. } => Action::FinalizedHead,
            AllStage::HeadVersion { head, .. } => Action::RuntimeVersionAt(head),
            AllStage::HeadMetadata { head, .. } => Action::MetadataAt(head),
            AllStage::CatchUp { head, .. } => Action::TryFinalize(head),
            AllStage::CatchUpRepair { start, head } => Action::Repair { start, end: head },
            AllStage::SubscribeFinality { .. } => Action::SubscribeFinality,
            AllStage::SubscribeImports { .. } => Action::SubscribeImports,
            AllStage::Peek { .. } => Action::PeekFinality,
            AllStage::PeekFinalize { to, .. } => Action::TryFinalize(to),
            AllStage::PeekRepair { start, to } => Action::Repair { start, end: to },
            AllStage::Race => Action::NextNotification,
            AllStage::Finalize { block } => Action::TryFinalize(block),
            AllStage::Repair { start, block } => Action::Repair { start, end: block },
            AllStage::LastPending { .. } => Action::LastPendingBlock,
            AllStage::Pending { start, block } => Action::ProcessPending { start, end: block },
            AllStage::Done(_) => Action::Return,
        }
    }

    /// Whether `event` answers what a harvest at this stage needs, and every number that has
    /// to be computed from it is a block number.
    pub open spec fn accepts<M>(self, event: Event<M>) -> bool {
        match (self, event) {
            (AllStage::LastFinalized, Event::LastFinalizedBlock(_)) => true,
            (AllStage::CatchUpLastFinalized, Event::LastFinalizedBlock(_)) => true,
            (AllStage::Head { .. }, Event::FinalizedHead(_)) => true,
            (AllStage::HeadVersion { .. }, Event::RuntimeVersion(_)) => true,
            (AllStage::HeadMetadata { last, head, .. }, Event::Metadata(answer)) => answer is Err
                || last <= head,
            (AllStage::CatchUp { .. }, Event::TryFinalized(_)) => true,
            (AllStage::CatchUpRepair { .. }, Event::RangeDone(_)) => true,
            (AllStage::CatchUpHead { last }, Event::FinalizedHead(answer)) => match answer {
                Ok(head) => last <= head,
                Err(_) => true,
            },
            (AllStage::SubscribeFinality { .. }, Event::Subscribed) => true,
            (AllStage::SubscribeImports { .. }, Event::Subscribed) => true,
            (AllStage::Peek { last }, Event::Peeked(block)) => block is None || last < u64::MAX,
            (AllStage::PeekFinalize { .. }, Event::TryFinalized(_)) => true,
            (AllStage::PeekRepair { .. }, Event::RangeDone(_)) => true,
            (AllStage::Race, Event::Finality(_)) => true,
            (AllStage::Race, Event::Import(_)) => true,
            (AllStage::Finalize { .. }, Event::TryFinalized(_)) => true,
            (AllStage::Repair { .. }, Event::RangeDone(_)) => true,
            (AllStage::LastPending { .. }, Event::LastPendingBlock(_)) => true,
            (AllStage::Pending { .. }, Event::RangeDone(_)) => true,
            _ => false,
        }
    }

    /// The stage after an answer that is accepted.
    pub open spec fn after<M>(self, event: Event<M>) -> AllStage {
        match event {
            // Whoever was asked has failed.
            Event::LastFinalizedBlock(Err(text)) | Event::LastPendingBlock(Err(text))
            | Event::Purged(Err(text)) => AllStage::Done(Error::BlockProcessor(text)),
            Event::FinalizedHead(Err(text)) | Event::RuntimeVersion(Err(text))
            | Event::Metadata(Err(text)) => AllStage::Done(Error::Client(text)),
            Event::TryFinalized(Err(text)) => if self is Finalize {
                AllStage::Done(Error::Subscription)
            } else {
                AllStage::Done(Error::Client(text))
            },
            Event::RangeDone(Err(error)) => AllStage::Done(error),
            // No more blocks will come.
            Event::Finality(None) | Event::Import(None) => AllStage::Done(Error::Subscription),
            // Where the index and the chain stand.
            Event::LastFinalizedBlock(Ok(last)) => if self is LastFinalized {
                AllStage::Head { last }
            } else {
                AllStage::CatchUpHead { last }
            },
            Event::FinalizedHead(Ok(head)) => if self is Head {
                AllStage::HeadVersion { last: self->Head_last, head }
            } else {
                catching_up(self->CatchUpHead_last, head)
            },
            Event::RuntimeVersion(Ok(spec_version)) => AllStage::HeadMetadata {
                last: self->HeadVersion_last,
                head: self->HeadVersion_head,
                spec_version,
            },
            Event::Metadata(Ok(_)) => catching_up(self->HeadMetadata_last, self->HeadMetadata_head),
            // Pending blocks have become final; what is left of the range is walked.
            Event::TryFinalized(Ok(None)) => self.after_range(),
            Event::TryFinalized(Ok(Some(start))) => match self {
                AllStage::CatchUp { head, .. } => AllStage::CatchUpRepair { start, head },
                AllStage::PeekFinalize { to, .. } => AllStage::PeekRepair { start, to },
                _ => AllStage::Repair { start, block: self->Finalize_block },
            },
            Event::RangeDone(Ok(_)) => self.after_range(),
            // Notifications.
            Event::Subscribed => if self is SubscribeFinality {
                AllStage::SubscribeImports { last: self->SubscribeFinality_last }
            } else {
                AllStage::Peek { last: self->SubscribeImports_last }
            },
            Event::Peeked(None) => AllStage::Race,
            Event::Peeked(Some(block)) => if self->Peek_last + 1 < block {
                AllStage::PeekFinalize { last: self->Peek_last, to: (block - 1) as u64 }
            } else {
                AllStage::Race
            },
            Event::Finality(Some(block)) => AllStage::Finalize { block },
            Event::Import(Some(block)) => AllStage::LastPending { block },
            Event::LastPendingBlock(Ok(processed)) => if processed >= self->LastPending_block {
                AllStage::Race
            } else {
                AllStage::Pending {
                    start: (processed + 1) as u64,
                    block: self->LastPending_block,
                }
            },
            Event::Purged(Ok(_)) => self,
        }
    }

    /// The stage after a range is done: still catching up, or back to the notifications.
    pub open spec fn after_range(self) -> AllStage {
        if self is CatchUp || self is CatchUpRepair {
            AllStage::CatchUpLastFinalized
        } else {
            AllStage::Race
        }
    }

    /// Whether the chain's metadata is known at this stage.
    pub open spec fn knows_chain(self) -> bool {
        !(self is LastFinalized || self is Head || self is HeadVersion || self is HeadMetadata)
    }
}

impl<M> HarvestAll<M> {
    /// What the harvest needs next.
    pub open spec fn wants(self) -> Action {
        self.stage.wants()
    }

    /// Whether the harvest can take `event`.
    pub open spec fn accepts(self, event: Event<M>) -> bool {
        self.stage.accepts(event)
    }

    /// The harvest after an answer.
    pub open spec fn after(self, event: Event<M>) -> HarvestAll<M> {
        HarvestAll {
            stage: self.stage.after(event),
            info: match (self.stage, event) {
                (AllStage::HeadMetadata { spec_version, .. }, Event::Metadata(Ok(metadata))) => Some(
                    ChainInfo { metadata, spec_version },
                ),
                _ => self.info,
            },
        }
    }

    /// A harvest that has not asked anything yet.
    pub open spec fn begun() -> HarvestAll<M> {
        HarvestAll { stage: AllStage::LastFinalized, info: None }
    }

    /// Begins a harvest.
    pub fn begin() -> (harvest: HarvestAll<M>)
        ensures
            harvest == HarvestAll::<M>::begun(),
    {
        HarvestAll { stage: AllStage::LastFinalized, info: None }
    }

    /// What the harvest needs next.
    pub fn action(&self) -> (action: Action)
        ensures
            action == self.wants(),
    {
        match &self.stage {
            AllStage::LastFinalized | AllStage::CatchUpLastFinalized => Action::LastFinalizedBlock,
            AllStage::Head { .. } | AllStage::CatchUpHead { .. } => Action::FinalizedHead,
            AllStage::HeadVersion { head, .. } => Action::RuntimeVersionAt(*head),
            AllStage::HeadMetadata { head, .. } => Action::MetadataAt(*head),
            AllStage::CatchUp { head, .. } => Action::TryFinalize(*head),
            AllStage::CatchUpRepair { start, head } => Action::Repair { start: *start, end: *head },
            AllStage::SubscribeFinality { .. } => Action::SubscribeFinality,
            AllStage::SubscribeImports { .. } => Action::SubscribeImports,
            AllStage::Peek { .. } => Action::PeekFinality,
            AllStage::PeekFinalize { to, .. } => Action::TryFinalize(*to),
            AllStage::PeekRepair { start, to } => Action::Repair { start: *start, end: *to },
            AllStage::Race => Action::NextNotification,
            AllStage::Finalize { block } => Action::TryFinalize(*block),
            AllStage::Repair { start, block } => Action::Repair { start: *start, end: *block },
            AllStage::LastPending { .. } => Action::LastPendingBlock,
            AllStage::Pending { start, block } => Action::ProcessPending {
                start: *start,
                end: *block,
            },
            AllStage::Done(_) => Action::Return,
        }
    }

    /// Whether the harvest can take `event`.
    pub fn can_take(&self, event: &Event<M>) -> (yes: bool)
        ensures
            yes == self.accepts(*event),
    {
        match (&self.stage, event) {
            (AllStage::LastFinalized, Event::LastFinalizedBlock(_)) => true,
            (AllStage::CatchUpLastFinalized, Event::LastFinalizedBlock(_)) => true,
            (AllStage::Head { .. }, Event::FinalizedHead(_)) => true,
            (AllStage::HeadVersion { .. }, Event::RuntimeVersion(_)) => true,
            (AllStage::HeadMetadata { last, head, .. }, Event::Metadata(answer)) => answer.is_err()
                || *last <= *head,
            (AllStage::CatchUp { .. }, Event::TryFinalized(_)) => true,
            (AllStage::CatchUpRepair { .. }, Event::RangeDone(_)) => true,
            (AllStage::CatchUpHead { last }, Event::FinalizedHead(answer)) => match answer {
                Ok(head) => *last <= *head,
                Err(_) => true,
            },
            (AllStage::SubscribeFinality { .. }, Event::Subscribed) => true,
            (AllStage::SubscribeImports { .. }, Event::Subscribed) => true,
            (AllStage::Peek { last }, Event::Peeked(block)) => block.is_none() || *last < u64::MAX,
            (AllStage::PeekFinalize { .. }, Event::TryFinalized(_)) => true,
            (AllStage::PeekRepair { .. }, Event::RangeDone(_)) => true,
            (AllStage::Race, Event::Finality(_)) => true,
            (AllStage::Race, Event::Import(_)) => true,
            (AllStage::Finalize { .. }, Event::TryFinalized(_)) => true,
            (AllStage::Repair { .. }, Event::RangeDone(_)) => true,
            (AllStage::LastPending { .. }, Event::LastPendingBlock(_)) => true,
            (AllStage::Pending { .. }, Event::RangeDone(_)) => true,
            _ => false,
        }
    }

    /// Takes an answer.
    pub fn step(self, event: Event<M>) -> (harvest: HarvestAll<M>)
        requires
            self.accepts(event),
        ensures
            harvest == self.after(event),
    {
        let HarvestAll { stage, info } = self;
        match (stage, event) {
            (AllStage::LastFinalized, Event::LastFinalizedBlock(answer)) => {
                let stage = match answer {
                    Ok(last) => AllStage::Head { last },
                    Err(text) => AllStage::Done(Error::BlockProcessor(text)),
                };
                HarvestAll { stage, info }
            },
            (AllStage::Head { last }, Event::FinalizedHead(answer)) => {
                let stage = match answer {
                    Ok(head) => AllStage::HeadVersion { last, head },
                    Err(text) => AllStage::Done(Error::Client(text)),
                };
                HarvestAll { stage, info }
            },
            (AllStage::HeadVersion { last, head }, Event::RuntimeVersion(answer)) => {
                let stage = match answer {
                    Ok(spec_version) => AllStage::HeadMetadata { last, head, spec_version },
                    Err(text) => AllStage::Done(Error::Client(text)),
                };
                HarvestAll { stage, info }
            },
            (
                AllStage::HeadMetadata { last, head, spec_version },
                Event::Metadata(answer),
            ) => match answer {
                Ok(metadata) => HarvestAll {
                    stage: catch_up(last, head),
                    info: Some(ChainInfo { metadata, spec_version }),
                },
                Err(text) => HarvestAll { stage: AllStage::Done(Error::Client(text)), info },
            },
            (AllStage::CatchUp { head, .. }, Event::TryFinalized(answer)) => {
                let stage = match answer {
                    Ok(Some(start)) => AllStage::CatchUpRepair { start, head },
                    Ok(None) => AllStage::CatchUpLastFinalized,
                    Err(text) => AllStage::Done(Error::Client(text)),
                };
                HarvestAll { stage, info }
            },
            (AllStage::CatchUpRepair { .. }, Event::RangeDone(answer)) => {
                let stage = match answer {
                    Ok(_) => AllStage::CatchUpLastFinalized,
                    Err(error) => AllStage::Done(error),
                };
                HarvestAll { stage, info }
            },
            (AllStage::CatchUpLastFinalized, Event::LastFinalizedBlock(answer)) => {
                let stage = match answer {
                    Ok(last) => AllStage::CatchUpHead { last },
                    Err(text) => AllStage::Done(Error::BlockProcessor(text)),
                };
                HarvestAll { stage, info }
            },
            (AllStage::CatchUpHead { last }, Event::FinalizedHead(answer)) => {
                let stage = match answer {
                    Ok(head) => catch_up(last, head),
                    Err(text) => AllStage::Done(Error::Client(text)),
                };
                HarvestAll { stage, info }
            },
            (AllStage::SubscribeFinality { last, .. }, Event::Subscribed) => HarvestAll {
                stage: AllStage::SubscribeImports { last },
                info,
            },
            (AllStage::SubscribeImports { last }, Event::Subscribed) => HarvestAll {
                stage: AllStage::Peek { last },
                info,
            },
            (AllStage::Peek { last }, Event::Peeked(peeked)) => {
                let stage = match peeked {
                    Some(block) => if last + 1 < block {
                        AllStage::PeekFinalize { last, to: block - 1 }
                    } else {
                        AllStage::Race
                    },
                    None => AllStage::Race,
                };
                HarvestAll { stage, info }
            },
            (AllStage::PeekFinalize { to, .. }, Event::TryFinalized(answer)) => {
                let stage = match answer {
                    Ok(Some(start)) => AllStage::PeekRepair { start, to },
                    Ok(None) => AllStage::Race,
                    Err(text) => AllStage::Done(Error::Client(text)),
                };
                HarvestAll { stage, info }
            },
            (AllStage::Race, Event::Finality(notified)) => {
                let stage = match notified {
                    Some(block) => AllStage::Finalize { block },
                    None => AllStage::Done(Error::Subscription),
                };
                HarvestAll { stage, info }
            },
            (AllStage::Race, Event::Import(notified)) => {
                let stage = match notified {
                    Some(block) => AllStage::LastPending { block },
                    None => AllStage::Done(Error::Subscription),
                };
                HarvestAll { stage, info }
            },
            (AllStage::Finalize { block }, Event::TryFinalized(answer)) => {
                let stage = match answer {
                    Ok(Some(start)) => AllStage::Repair { start, block },
                    Ok(None) => AllStage::Race,
                    Err(_) => AllStage::Done(Error::Subscription),
                };
                HarvestAll { stage, info }
            },
            (AllStage::LastPending { block }, Event::LastPendingBlock(answer)) => {
                let stage = match answer {
                    Ok(processed) => if processed >= block {
                        AllStage::Race
                    } else {
                        AllStage::Pending { start: processed + 1, block }
                    },
                    Err(text) => AllStage::Done(Error::BlockProcessor(text)),
                };
                HarvestAll { stage, info }
            },
            (stage, Event::RangeDone(answer)) => {
                let stage = match answer {
                    Ok(_) => AllStage::Race,
                    Err(error) => AllStage::Done(error),
                };
                HarvestAll { stage, info }
            },
            (stage, _) => HarvestAll { stage, info },
        }
    }

    /// Why the harvest ended, once it is over.
    pub fn outcome(self) -> (error: Option<Error>)
        ensures
            error == (match self.stage {
                AllStage::Done(error) => Some(error),
                _ => None,
            }),
    {
        match self.stage {
            AllStage::Done(error) => Some(error),
            _ => None,
        }
    }
}

/// What follows once the last finalized blocks of the index and of the chain are known.
fn catch_up(last: u64, head: u64) -> (stage: AllStage)
    requires
        last <= head,
    ensures
        stage == catching_up(last, head),
{
    if head - last < CATCH_UP_DISTANCE {
        AllStage::SubscribeFinality { last, head }
    } else {
        AllStage::CatchUp { last, head }
    }
}

/// Where a [`HarvestFinalizeOnly`] stands. `last` is the last block that the index has
/// finalized, `head` the last finalized block of the chain.
#[derive(Debug)]
pub enum FinalizeOnlyStage {
    LastFinalized,
    Head { last: u64 },
    HeadVersion { last: u64, head: u64 },
    HeadMetadata { last: u64, head: u64, spec_version: u32 },
    Subscribe { last: u64 },
    Purge { last: u64 },
    Peek { last: u64 },
    PeekRepair { start: u64, end: u64 },
    Next,
    NotifiedLastFinalized { block: u64 },
    Repair { start: u64, block: u64 },
    Done(Error),
}

/// A harvest of finalized blocks. `info` is what the chain said of itself at the finalized
/// block that the harvest started from.
#[derive(Debug)]
pub struct HarvestFinalizeOnly<M> {
    pub stage: FinalizeOnlyStage,
    pub info: Option<ChainInfo<M>>,
}

impl FinalizeOnlyStage {
    /// What a harvest at this stage needs next.
    pub open spec fn wants(self) -> Action {
        match self {
            FinalizeOnlyStage::LastFinalized => Action::LastFinalizedBlock,
            FinalizeOnlyStage::Head { .. } => Action::FinalizedHead,
            FinalizeOnlyStage::HeadVersion { head, .. } => Action::RuntimeVersionAt(head),
            FinalizeOnlyStage::HeadMetadata { head, .. } => Action::MetadataAt(head),
            FinalizeOnlyStage::Subscribe { .. } => Action::SubscribeFinality,
            FinalizeOnlyStage::Purge { last } => Action::PurgePending(last),
            FinalizeOnlyStage::Peek { .. } => Action::PeekFinality,
            FinalizeOnlyStage::PeekRepair { start, end } => Action::Repair { start, end },
            FinalizeOnlyStage::Next => Action::NextFinality,
            FinalizeOnlyStage::NotifiedLastFinalized { .. } => Action::LastFinalizedBlock,
            FinalizeOnlyStage::Repair { start, block } => Action::Repair { start, end: block },
            FinalizeOnlyStage::Done(_) => Action::Return,
        }
    }

    /// Whether `event` answers what a harvest at this stage needs, and every number that has
    /// to be computed from it is a block number.
    pub open spec fn accepts<M>(self, event: Event<M>) -> bool {
        match (self, event) {
            (FinalizeOnlyStage::LastFinalized, Event::LastFinalizedBlock(_)) => true,
            (FinalizeOnlyStage::Head { .. }, Event::FinalizedHead(_)) => true,
            (FinalizeOnlyStage::HeadVersion { .. }, Event::RuntimeVersion(_)) => true,
            (FinalizeOnlyStage::HeadMetadata { .. }, Event::Metadata(_)) => true,
            (FinalizeOnlyStage::Subscribe { .. }, Event::Subscribed) => true,
            (FinalizeOnlyStage::Purge { .. }, Event::Purged(_)) => true,
            (FinalizeOnlyStage::Peek { last }, Event::Peeked(block)) => block is None || last
                < u64::MAX,
            (FinalizeOnlyStage::PeekRepair { .. }, Event::RangeDone(_)) => true,
            (FinalizeOnlyStage::Next, Event::Finality(_)) => true,
            (
                FinalizeOnlyStage::NotifiedLastFinalized { .. },
                Event::LastFinalizedBlock(answer),
            ) => match answer {
                Ok(last) => last < u64::MAX,
                Err(_) => true,
            },
            (FinalizeOnlyStage::Repair { .. }, Event::RangeDone(_)) => true,
            _ => false,
        }
    }

    /// The stage after an answer that is accepted.
    pub open spec fn after<M>(self, event: Event<M>) -> FinalizeOnlyStage {
        match event {
            // Whoever was asked has failed.
            Event::LastFinalizedBlock(Err(text)) | Event::LastPendingBlock(Err(text))
            | Event::Purged(Err(text)) => FinalizeOnlyStage::Done(Error::BlockProcessor(text)),
            Event::FinalizedHead(Err(text)) | Event::RuntimeVersion(Err(text))
            | Event::Metadata(Err(text)) | Event::TryFinalized(Err(text)) =>
                FinalizeOnlyStage::Done(Error::Client(text)),
            Event::RangeDone(Err(error)) => FinalizeOnlyStage::Done(error),
            // No more blocks will come.
            Event::Finality(None) => FinalizeOnlyStage::Done(Error::Subscription),
            // Where the index and the chain stand.
            Event::LastFinalizedBlock(Ok(last)) => if self is LastFinalized {
                FinalizeOnlyStage::Head { last }
            } else {
                FinalizeOnlyStage::Repair {
                    start: (last + 1) as u64,
                    block: self->NotifiedLastFinalized_block,
                }
            },
            Event::FinalizedHead(Ok(head)) => FinalizeOnlyStage::HeadVersion {
                last: self->Head_last,
                head,
            },
            Event::RuntimeVersion(Ok(spec_version)) => FinalizeOnlyStage::HeadMetadata {
                last: self->HeadVersion_last,
                head: self->HeadVersion_head,
                spec_version,
            },
            Event::Metadata(Ok(_)) => FinalizeOnlyStage::Subscribe {
                last: self->HeadMetadata_last,
            },
            // Pending blocks are dropped; the gap up to the first notification is walked.
            Event::Subscribed => FinalizeOnlyStage::Purge { last: self->Subscribe_last },
            Event::Purged(Ok(_)) => FinalizeOnlyStage::Peek { last: self->Purge_last },
            Event::Peeked(None) => FinalizeOnlyStage::Next,
            Event::Peeked(Some(block)) => if self->Peek_last + 1 < block {
                FinalizeOnlyStage::PeekRepair {
                    start: (self->Peek_last + 1) as u64,
                    end: (block - 1) as u64,
                }
            } else {
                FinalizeOnlyStage::Next
            },
            // Notifications.
            Event::Finality(Some(block)) => FinalizeOnlyStage::NotifiedLastFinalized { block },
            Event::RangeDone(Ok(_)) => FinalizeOnlyStage::Next,
            Event::LastPendingBlock(Ok(_)) | Event::TryFinalized(Ok(_)) | Event::Import(_) => self,
        }
    }

    /// Whether the chain's metadata is known at this stage.
    pub open spec fn knows_chain(self) -> bool {
        !(self is LastFinalized || self is Head || self is HeadVersion || self is HeadMetadata)
    }
}

impl<M> HarvestFinalizeOnly<M> {
    /// What the harvest needs next.
    pub open spec fn wants(self) -> Action {
        self.stage.wants()
    }

    /// Whether the harvest can take `event`.
    pub open spec fn accepts(self, event: Event<M>) -> bool {
        self.stage.accepts(event)
    }

    /// The harvest after an answer.
    pub open spec fn after(self, event: Event<M>) -> HarvestFinalizeOnly<M> {
        HarvestFinalizeOnly {
            stage: self.stage.after(event),
            info: match (self.stage, event) {
                (
                    FinalizeOnlyStage::HeadMetadata { spec_version, .. },
                    Event::Metadata(Ok(metadata)),
                ) => Some(ChainInfo { metadata, spec_version }),
                _ => self.info,
            },
        }
    }

    /// A harvest that has not asked anything yet.
    pub open spec fn begun() -> HarvestFinalizeOnly<M> {
        HarvestFinalizeOnly { stage: FinalizeOnlyStage::LastFinalized, info: None }
    }

    /// Begins a harvest.
    pub fn begin() -> (harvest: HarvestFinalizeOnly<M>)
        ensures
            harvest == HarvestFinalizeOnly::<M>::begun(),
    {
        HarvestFinalizeOnly { stage: FinalizeOnlyStage::LastFinalized, info: None }
    }

    /// What the harvest needs next.
    pub fn action(&self) -> (action: Action)
        ensures
            action == self.wants(),
    {
        match &self.stage {
            FinalizeOnlyStage::LastFinalized => Action::LastFinalizedBlock,
            FinalizeOnlyStage::Head { .. } => Action::FinalizedHead,
            FinalizeOnlyStage::HeadVersion { head, .. } => Action::RuntimeVersionAt(*head),
            FinalizeOnlyStage::HeadMetadata { head, .. } => Action::MetadataAt(*head),
            FinalizeOnlyStage::Subscribe { .. } => Action::SubscribeFinality,
            FinalizeOnlyStage::Purge { last } => Action::PurgePending(*last),
            FinalizeOnlyStage::Peek { .. } => Action::PeekFinality,
            FinalizeOnlyStage::PeekRepair { start, end } => Action::Repair {
                start: *start,
                end: *end,
            },
            FinalizeOnlyStage::Next => Action::NextFinality,
            FinalizeOnlyStage::NotifiedLastFinalized { .. } => Action::LastFinalizedBlock,
            FinalizeOnlyStage::Repair { start, block } => Action::Repair {
                start: *start,
                end: *block,
            },
            FinalizeOnlyStage::Done(_) => Action::Return,
        }
    }

    /// Whether the harvest can take `event`.
    pub fn can_take(&self, event: &Event<M>) -> (yes: bool)
        ensures
            yes == self.accepts(*event),
    {
        match (&self.stage, event) {
            (FinalizeOnlyStage::LastFinalized, Event::LastFinalizedBlock(_)) => true,
            (FinalizeOnlyStage::Head { .. }, Event::FinalizedHead(_)) => true,
            (FinalizeOnlyStage::HeadVersion { .. }, Event::RuntimeVersion(_)) => true,
            (FinalizeOnlyStage::HeadMetadata { .. }, Event::Metadata(_)) => true,
            (FinalizeOnlyStage::Subscribe { .. }, Event::Subscribed) => true,
            (FinalizeOnlyStage::Purge { .. }, Event::Purged(_)) => true,
            (FinalizeOnlyStage::Peek { last }, Event::Peeked(block)) => block.is_none() || *last
                < u64::MAX,
            (FinalizeOnlyStage::PeekRepair { .. }, Event::RangeDone(_)) => true,
            (FinalizeOnlyStage::Next, Event::Finality(_)) => true,
            (
                FinalizeOnlyStage::NotifiedLastFinalized { .. },
                Event::LastFinalizedBlock(answer),
            ) => match answer {
                Ok(last) => *last < u64::MAX,
                Err(_) => true,
            },
            (FinalizeOnlyStage::Repair { .. }, Event::RangeDone(_)) => true,
            _ => false,
        }
    }

    /// Takes an answer.
    pub fn step(self, event: Event<M>) -> (harvest: HarvestFinalizeOnly<M>)
        requires
            self.accepts(event),
        ensures
            harvest == self.after(event),
    {
        let HarvestFinalizeOnly { stage, info } = self;
        match (stage, event) {
            (FinalizeOnlyStage::LastFinalized, Event::LastFinalizedBlock(answer)) => {
                let stage = match answer {
                    Ok(last) => FinalizeOnlyStage::Head { last },
                    Err(text) => FinalizeOnlyStage::Done(Error::BlockProcessor(text)),
                };
                HarvestFinalizeOnly { stage, info }
            },
            (FinalizeOnlyStage::Head { last }, Event::FinalizedHead(answer)) => {
                let stage = match answer {
                    Ok(head) => FinalizeOnlyStage::HeadVersion { last, head },
                    Err(text) => FinalizeOnlyStage::Done(Error::Client(text)),
                };
                HarvestFinalizeOnly { stage, info }
            },
            (FinalizeOnlyStage::HeadVersion { last, head }, Event::RuntimeVersion(answer)) => {
                let stage = match answer {
                    Ok(spec_version) => FinalizeOnlyStage::HeadMetadata { last, head, spec_version },
                    Err(text) => FinalizeOnlyStage::Done(Error::Client(text)),
                };
                HarvestFinalizeOnly { stage, info }
            },
            (
                FinalizeOnlyStage::HeadMetadata { last, spec_version, .. },
                Event::Metadata(answer),
            ) => match answer {
                Ok(metadata) => HarvestFinalizeOnly {
                    stage: FinalizeOnlyStage::Subscribe { last },
                    info: Some(ChainInfo { metadata, spec_version }),
                },
                Err(text) => HarvestFinalizeOnly {
                    stage: FinalizeOnlyStage::Done(Error::Client(text)),
                    info,
                },
            },
            (FinalizeOnlyStage::Subscribe { last }, Event::Subscribed) => HarvestFinalizeOnly {
                stage: FinalizeOnlyStage::Purge { last },
                info,
            },
            (FinalizeOnlyStage::Purge { last }, Event::Purged(answer)) => {
                let stage = match answer {
                    Ok(_) => FinalizeOnlyStage::Peek { last },
                    Err(text) => FinalizeOnlyStage::Done(Error::BlockProcessor(text)),
                };
                HarvestFinalizeOnly { stage, info }
            },
            (FinalizeOnlyStage::Peek { last }, Event::Peeked(peeked)) => {
                let stage = match peeked {
                    Some(block) => if last + 1 < block {
                        FinalizeOnlyStage::PeekRepair { start: last + 1, end: block - 1 }
                    } else {
                        FinalizeOnlyStage::Next
                    },
                    None => FinalizeOnlyStage::Next,
                };
                HarvestFinalizeOnly { stage, info }
            },
            (FinalizeOnlyStage::Next, Event::Finality(notified)) => {
                let stage = match notified {
                    Some(block) => FinalizeOnlyStage::NotifiedLastFinalized { block },
                    None => FinalizeOnlyStage::Done(Error::Subscription),
                };
                HarvestFinalizeOnly { stage, info }
            },
            (
                FinalizeOnlyStage::NotifiedLastFinalized { block },
                Event::LastFinalizedBlock(answer),
            ) => {
                let stage = match answer {
                    Ok(last) => FinalizeOnlyStage::Repair { start: last + 1, block },
                    Err(text) => FinalizeOnlyStage::Done(Error::BlockProcessor(text)),
                };
                HarvestFinalizeOnly { stage, info }
            },
            (_, Event::RangeDone(answer)) => {
                let stage = match answer {
                    Ok(_) => FinalizeOnlyStage::Next,
                    Err(error) => FinalizeOnlyStage::Done(error),
                };
                HarvestFinalizeOnly { stage, info }
            },
            (stage, _) => HarvestFinalizeOnly { stage, info },
        }
    }

    /// Why the harvest ended, once it is over.
    pub fn outcome(self) -> (error: Option<Error>)
        ensures
            error == (match self.stage {
                FinalizeOnlyStage::Done(error) => Some(error),
                _ => None,
            }),
    {
        match self.stage {
            FinalizeOnlyStage::Done(error) => Some(error),
            _ => None,
        }
    }
}

/// Start harvesting: finalized and pending blocks.
pub fn start<M>() -> (harvest: HarvestAll<M>)
    ensures
        harvest == HarvestAll::<M>::begun(),
        harvest.wants() == Action::LastFinalizedBlock,
{
    HarvestAll::begin()
}

/// Whether an answer tells of a failure, or of the end of the notifications.
pub open spec fn is_failure<M>(event: Event<M>) -> bool {
    match event {
        Event::LastFinalizedBlock(answer) => answer is Err,
        Event::LastPendingBlock(answer) => answer is Err,
        Event::TryFinalized(answer) => answer is Err,
        Event::Purged(answer) => answer is Err,
        Event::RangeDone(answer) => answer is Err,
        Event::FinalizedHead(answer) => answer is Err,
        Event::RuntimeVersion(answer) => answer is Err,
        Event::Metadata(answer) => answer is Err,
        Event::Finality(block) => block is None,
        Event::Import(block) => block is None,
        Event::Subscribed | Event::Peeked(_) => false,
    }
}

/// A harvest of all blocks after it has taken the answers of `trace`.
pub open spec fn all_run<M>(trace: Seq<Event<M>>) -> HarvestAll<M>
    decreases trace.len(),
{
    if trace.len() == 0 {
        HarvestAll::begun()
    } else {
        all_run(trace.drop_last()).after(trace.last())
    }
}

/// Whether each answer of `trace` comes when a harvest of all blocks can take it.
pub open spec fn all_accepts<M>(trace: Seq<Event<M>>) -> bool
    decreases trace.len(),
{
    trace.len() == 0 || (all_accepts(trace.drop_last()) && all_run(trace.drop_last()).accepts(
        trace.last(),
    ))
}

/// A harvest of finalized blocks after it has taken the answers of `trace`.
pub open spec fn finalize_only_run<M>(trace: Seq<Event<M>>) -> HarvestFinalizeOnly<M>
    decreases trace.len(),
{
    if trace.len() == 0 {
        HarvestFinalizeOnly::begun()
    } else {
        finalize_only_run(trace.drop_last()).after(trace.last())
    }
}

/// Whether each answer of `trace` comes when a harvest of finalized blocks can take it.
pub open spec fn finalize_only_accepts<M>(trace: Seq<Event<M>>) -> bool
    decreases trace.len(),
{
    trace.len() == 0 || (finalize_only_accepts(trace.drop_last()) && finalize_only_run(
        trace.drop_last(),
    ).accepts(trace.last()))
}

/// Whatever the answers, a harvest of all blocks catches up exactly while it lags far behind,
/// and knows the chain's metadata before it has a range walked. A range of pending blocks is
/// never empty and never starts at the first block of the chain.
pub proof fn law_all_states_are_sound<M>(trace: Seq<Event<M>>)
    requires
        all_accepts(trace),
    ensures
        ({
            let harvest = all_run(trace);
            &&& harvest.stage.knows_chain() && !(harvest.stage is Done) ==> harvest.info is Some
            &&& harvest.info is Some ==> harvest.stage.knows_chain()
            &&& harvest.wants() is Repair || harvest.wants() is ProcessPending ==> harvest.info
                is Some
            &&& harvest.stage matches AllStage::CatchUp { last, head } ==> head - last
                >= CATCH_UP_DISTANCE
            &&& harvest.stage matches AllStage::SubscribeFinality { last, head } ==> 0 <= head
                - last < CATCH_UP_DISTANCE
            &&& harvest.stage matches AllStage::PeekFinalize { last, to } ==> last < to
            &&& harvest.stage matches AllStage::Pending { start, block } ==> 1 <= start <= block
        }),
    decreases trace.len(),
{
    if trace.len() > 0 {
        law_all_states_are_sound(trace.drop_last());
    }
}

/// A harvest of all blocks keeps the chain's metadata as it first learnt it.
pub proof fn law_all_keeps_chain_info<M>(trace: Seq<Event<M>>, k: int)
    requires
        all_accepts(trace),
        0 <= k <= trace.len(),
        all_run(trace.subrange(0, k)).info is Some,
    ensures
        all_run(trace).info == all_run(trace.subrange(0, k)).info,
    decreases trace.len(),
{
    if k == trace.len() {
        assert(trace.subrange(0, k) =~= trace);
    } else {
        assert(trace.drop_last().subrange(0, k) =~= trace.subrange(0, k));
        law_all_keeps_chain_info(trace.drop_last(), k);
        law_all_states_are_sound(trace.drop_last());
    }
}

/// Finalized blocks are walked only where the index could not finalize them itself: from the
/// first block that it could not, up to the block that it was asked for.
pub proof fn law_all_repairs_what_was_not_finalized<M>(
    harvest: HarvestAll<M>,
    event: Event<M>,
    start: u64,
    end: u64,
)
    requires
        harvest.accepts(event),
        harvest.after(event).wants() == (Action::Repair { start, end }),
    ensures
        harvest.wants() == Action::TryFinalize(end),
        event == Event::<M>::TryFinalized(Ok(Some(start))),
{
}

/// Pending blocks are walked when an import is notified, from the block after the last one
/// that was processed up to the one that was imported, and only where that is not behind.
pub proof fn law_all_processes_each_import_once<M>(
    harvest: HarvestAll<M>,
    block: u64,
    processed: u64,
)
    requires
        harvest.stage is Race,
    ensures
        ({
            let notified = harvest.after(Event::<M>::Import(Some(block)));
            let then = notified.after(Event::<M>::LastPendingBlock(Ok(processed)));
            &&& notified.wants() == Action::LastPendingBlock
            &&& notified.accepts(Event::<M>::LastPendingBlock(Ok(processed)))
            &&& then.wants() == if processed >= block {
                Action::NextNotification
            } else {
                Action::ProcessPending { start: (processed + 1) as u64, end: block }
            }
            &&& forall|done: u64|
                processed < block ==> (#[trigger] then.after(
                    Event::<M>::RangeDone(Ok(done)),
                )).wants() == Action::NextNotification
        }),
{
}

/// Every block that is notified as final is finalized, and then the next notification is
/// taken.
pub proof fn law_all_finalizes_each_notified_block<M>(
    harvest: HarvestAll<M>,
    block: u64,
    left: Option<u64>,
    done: u64,
)
    requires
        harvest.stage is Race,
    ensures
        ({
            let notified = harvest.after(Event::<M>::Finality(Some(block)));
            let then = notified.after(Event::<M>::TryFinalized(Ok(left)));
            &&& notified.wants() == Action::TryFinalize(block)
            &&& match left {
                None => then.wants() == Action::NextNotification,
                Some(start) => {
                    &&& then.wants() == (Action::Repair { start, end: block })
                    &&& then.after(Event::<M>::RangeDone(Ok(done))).wants()
                        == Action::NextNotification
                },
            }
        }),
{
}

/// A harvest of all blocks ends with a failure and goes on with any other answer.
pub proof fn law_all_ends_with_failures<M>(harvest: HarvestAll<M>, event: Event<M>)
    requires
        harvest.accepts(event),
    ensures
        harvest.after(event).wants() == Action::Return <==> is_failure(event),
{
}

/// Whatever the answers, a harvest of finalized blocks knows the chain's metadata before it
/// has a range walked, and the range before the first notification is never empty.
pub proof fn law_finalize_only_states_are_sound<M>(trace: Seq<Event<M>>)
    requires
        finalize_only_accepts(trace),
    ensures
        ({
            let harvest = finalize_only_run(trace);
            &&& harvest.stage.knows_chain() && !(harvest.stage is Done) ==> harvest.info is Some
            &&& harvest.info is Some ==> harvest.stage.knows_chain()
            &&& harvest.wants() is Repair ==> harvest.info is Some
            &&& harvest.stage matches FinalizeOnlyStage::PeekRepair { start, end } ==> start <= end
        }),
    decreases trace.len(),
{
    if trace.len() > 0 {
        law_finalize_only_states_are_sound(trace.drop_last());
    }
}

/// A harvest of finalized blocks keeps the chain's metadata as it first learnt it.
pub proof fn law_finalize_only_keeps_chain_info<M>(trace: Seq<Event<M>>, k: int)
    requires
        finalize_only_accepts(trace),
        0 <= k <= trace.len(),
        finalize_only_run(trace.subrange(0, k)).info is Some,
    ensures
        finalize_only_run(trace).info == finalize_only_run(trace.subrange(0, k)).info,
    decreases trace.len(),
{
    if k == trace.len() {
        assert(trace.subrange(0, k) =~= trace);
    } else {
        assert(trace.drop_last().subrange(0, k) =~= trace.subrange(0, k));
        law_finalize_only_keeps_chain_info(trace.drop_last(), k);
        law_finalize_only_states_are_sound(trace.drop_last());
    }
}

/// The first answer of the block processor about the last block that it has finalized.
pub open spec fn first_last_finalized<M>(trace: Seq<Event<M>>) -> Option<u64>
    decreases trace.len(),
{
    if trace.len() == 0 {
        None
    } else if first_last_finalized(trace.drop_last()) is Some {
        first_last_finalized(trace.drop_last())
    } else {
        match trace.last() {
            Event::LastFinalizedBlock(Ok(last)) => Some(last),
            _ => None,
        }
    }
}

/// The blocks above which a harvest of finalized blocks had pending ones dropped.
pub open spec fn finalize_only_purges<M>(trace: Seq<Event<M>>) -> Seq<u64>
    decreases trace.len(),
{
    if trace.len() == 0 {
        Seq::empty()
    } else {
        match trace.last() {
            Event::Purged(_) => finalize_only_purges(trace.drop_last()).push(
                finalize_only_run(trace.drop_last()).wants()->PurgePending_0,
            ),
            _ => finalize_only_purges(trace.drop_last()),
        }
    }
}

/// A harvest of finalized blocks drops pending blocks once: above the last finalized block
/// that it first learnt of, and before it has any range walked or takes a notification.
pub proof fn law_finalize_only_purges_once<M>(trace: Seq<Event<M>>)
    requires
        finalize_only_accepts(trace),
    ensures
        ({
            let harvest = finalize_only_run(trace);
            let purges = finalize_only_purges(trace);
            &&& purges.len() <= 1
            &&& purges.len() == 1 ==> first_last_finalized(trace) == Some(purges[0])
            &&& harvest.wants() matches Action::PurgePending(block) ==> purges.len() == 0
                && first_last_finalized(trace) == Some(block)
            &&& harvest.wants() is Repair || harvest.wants() is PeekFinality || harvest.wants()
                is NextFinality ==> purges.len() == 1
        }),
{
    lemma_finalize_only_purges(trace);
}

proof fn lemma_finalize_only_purges<M>(trace: Seq<Event<M>>)
    requires
        finalize_only_accepts(trace),
    ensures
        ({
            let purges = finalize_only_purges(trace);
            let first = first_last_finalized(trace);
            match finalize_only_run(trace).stage {
                FinalizeOnlyStage::LastFinalized => purges.len() == 0 && first is None,
                FinalizeOnlyStage::Head { last }
                | FinalizeOnlyStage::HeadVersion { last, .. }
                | FinalizeOnlyStage::HeadMetadata { last, .. }
                | FinalizeOnlyStage::Subscribe { last }
                | FinalizeOnlyStage::Purge { last } => purges.len() == 0 && first == Some(last),
                FinalizeOnlyStage::Done(_) => purges.len() <= 1 && (purges.len() == 1 ==> first
                    == Some(purges[0])),
                _ => purges.len() == 1 && first == Some(purges[0]),
            }
        }),
    decreases trace.len(),
{
    if trace.len() > 0 {
        lemma_finalize_only_purges(trace.drop_last());
    }
}

/// Every block that is notified as final has the blocks walked from the one after the last
/// that the index has finalized.
pub proof fn law_finalize_only_walks_up_to_each_notified_block<M>(
    harvest: HarvestFinalizeOnly<M>,
    block: u64,
    last: u64,
    done: u64,
)
    requires
        harvest.stage is Next,
        last < u64::MAX,
    ensures
        ({
            let notified = harvest.after(Event::<M>::Finality(Some(block)));
            let then = notified.after(Event::<M>::LastFinalizedBlock(Ok(last)));
            &&& notified.wants() == Action::LastFinalizedBlock
            &&& then.wants() == (Action::Repair { start: (last + 1) as u64, end: block })
            &&& then.after(Event::<M>::RangeDone(Ok(done))).wants() == Action::NextFinality
        }),
{
}

/// A harvest of finalized blocks ends with a failure and goes on with any other answer.
pub proof fn law_finalize_only_ends_with_failures<M>(
    harvest: HarvestFinalizeOnly<M>,
    event: Event<M>,
)
    requires
        harvest.accepts(event),
    ensures
        harvest.after(event).wants() == Action::Return <==> is_failure(event),
{
}

/// Where the index finalizes pending blocks up to `end`, has to stop at a block, and the rest
/// is walked from there to the end, every block after the last finalized one is dealt with
/// exactly once: first come the blocks that the store finalized, then those that were
/// handled, without a gap.
pub proof fn law_finalized_and_repaired_blocks_fill_the_range<M>(
    chain: spec_fn(int) -> Seq<u8>,
    finalizing: TryFinalize,
    answers: Seq<TryFinalizeEvent>,
    stopped_at: u32,
    spec_version: u32,
    walk_answers: Seq<RangeEvent<M>>,
)
    requires
        finalizing.is_begun(finalizing.end),
        finalize_accepts(finalizing, answers),
        hashes_from(chain, finalizing, answers),
        finalize_run(finalizing, answers).stage == TryFinalizeStage::Done(Ok(Some(stopped_at))),
        range_accepts(
            RangeWalk::begun(stopped_at as u64, finalizing.end as u64, spec_version),
            walk_answers,
        ),
        range_run(
            RangeWalk::begun(stopped_at as u64, finalizing.end as u64, spec_version),
            walk_answers,
        ).stage == RangeStage::Done(Ok(finalizing.end as u64)),
    ensures
        ({
            let last = last_before(answers)->0;
            let finalized = finalized_in(finalizing, answers);
            let visits = range_visits(
                RangeWalk::begun(stopped_at as u64, finalizing.end as u64, spec_version),
                walk_answers,
            );
            &&& finalized.len() + visits.len() == finalizing.end - last
            &&& forall|i: int| 0 <= i < finalized.len() ==> #[trigger] finalized[i] == last + 1 + i
            &&& forall|j: int|
                0 <= j < visits.len() ==> (#[trigger] visits[j]).block == last + 1
                    + finalized.len() + j && visits[j].handled
        }),
{
    let visits = range_visits(
        RangeWalk::begun(stopped_at as u64, finalizing.end as u64, spec_version),
        walk_answers,
    );
    law_finalize_finalizes_what_matches(chain, finalizing, answers);
    law_walk_visits_in_order(
        stopped_at as u64,
        finalizing.end as u64,
        spec_version,
        walk_answers,
    );
    assert forall|j: int| 0 <= j < visits.len() implies (#[trigger] visits[j]).handled by {
        if j == visits.len() - 1 {
            assert(visits[j] == visits.last());
        }
    }
}

/// The last finalized block that the block processor last named.
pub open spec fn last_finalized_in<M>(trace: Seq<Event<M>>) -> Option<u64>
    decreases trace.len(),
{
    if trace.len() == 0 {
        None
    } else {
        match trace.last() {
            Event::LastFinalizedBlock(Ok(last)) => Some(last),
            _ => last_finalized_in(trace.drop_last()),
        }
    }
}

/// The last finalized block of the chain that the client last named.
pub open spec fn head_in<M>(trace: Seq<Event<M>>) -> Option<u64>
    decreases trace.len(),
{
    if trace.len() == 0 {
        None
    } else {
        match trace.last() {
            Event::FinalizedHead(Ok(head)) => Some(head),
            _ => head_in(trace.drop_last()),
        }
    }
}

/// The specification that the client last said the runtime follows.
pub open spec fn version_in<M>(trace: Seq<Event<M>>) -> Option<u32>
    decreases trace.len(),
{
    if trace.len() == 0 {
        None
    } else {
        match trace.last() {
            Event::RuntimeVersion(Ok(version)) => Some(version),
            _ => version_in(trace.drop_last()),
        }
    }
}

/// The metadata that the client last gave.
pub open spec fn metadata_in<M>(trace: Seq<Event<M>>) -> Option<M>
    decreases trace.len(),
{
    if trace.len() == 0 {
        None
    } else {
        match trace.last() {
            Event::Metadata(Ok(metadata)) => Some(metadata),
            _ => metadata_in(trace.drop_last()),
        }
    }
}

/// The last block that was notified as imported.
pub open spec fn imported_in<M>(trace: Seq<Event<M>>) -> Option<u64>
    decreases trace.len(),
{
    if trace.len() == 0 {
        None
    } else {
        match trace.last() {
            Event::Import(Some(block)) => Some(block),
            _ => imported_in(trace.drop_last()),
        }
    }
}

/// The last block that was notified as final.
pub open spec fn notified_in<M>(trace: Seq<Event<M>>) -> Option<u64>
    decreases trace.len(),
{
    if trace.len() == 0 {
        None
    } else {
        match trace.last() {
            Event::Finality(Some(block)) => Some(block),
            _ => notified_in(trace.drop_last()),
        }
    }
}

/// How many subscriptions have been made.
pub open spec fn subscriptions_in<M>(trace: Seq<Event<M>>) -> nat
    decreases trace.len(),
{
    if trace.len() == 0 {
        0
    } else if trace.last() is Subscribed {
        subscriptions_in(trace.drop_last()) + 1
    } else {
        subscriptions_in(trace.drop_last())
    }
}

/// Whether `info` is what the client last said of the runtime, once its metadata is known.
pub open spec fn is_info_in<M>(info: Option<ChainInfo<M>>, trace: Seq<Event<M>>) -> bool {
    match info {
        Some(info) => metadata_in(trace) == Some(info.metadata) && version_in(trace) == Some(
            info.spec_version,
        ),
        None => metadata_in(trace) is None,
    }
}

/// Where a harvest of all blocks stands in the course of `trace`.
spec fn all_position<M>(trace: Seq<Event<M>>) -> bool {
    let harvest = all_run(trace);
    let known = metadata_in(trace) is Some;
    let subscribed = subscriptions_in(trace);
    &&& is_info_in(harvest.info, trace)
    &&& !(harvest.stage is Done) ==> (harvest.stage is Finalize <==> trace.len() > 0
        && trace.last() is Finality)
    &&& match harvest.stage {
        AllStage::LastFinalized => !known && subscribed == 0,
        AllStage::Head { last } => !known && subscribed == 0 && last_finalized_in(trace) == Some(
            last,
        ),
        AllStage::HeadVersion { last, head } => !known && subscribed == 0 && last_finalized_in(
            trace,
        ) == Some(last) && head_in(trace) == Some(head),
        AllStage::HeadMetadata { last, head, spec_version } => !known && subscribed == 0
            && last_finalized_in(trace) == Some(last) && head_in(trace) == Some(head)
            && version_in(trace) == Some(spec_version),
        AllStage::CatchUp { last, head } => known && subscribed == 0 && last_finalized_in(trace)
            == Some(last) && head_in(trace) == Some(head),
        AllStage::CatchUpRepair { head, .. } => known && subscribed == 0 && head_in(trace) == Some(
            head,
        ),
        AllStage::CatchUpLastFinalized => known && subscribed == 0,
        AllStage::CatchUpHead { last } => known && subscribed == 0 && last_finalized_in(trace)
            == Some(last),
        AllStage::SubscribeFinality { last, .. } => known && subscribed == 0 && last_finalized_in(
            trace,
        ) == Some(last),
        AllStage::SubscribeImports { last } => known && subscribed == 1 && last_finalized_in(trace)
            == Some(last),
        AllStage::Peek { last } => known && subscribed == 2 && last_finalized_in(trace) == Some(
            last,
        ),
        AllStage::LastPending { block } => known && subscribed == 2 && imported_in(trace) == Some(
            block,
        ),
        AllStage::Done(_) => true,
        _ => known && subscribed == 2,
    }
}

proof fn lemma_all_position<M>(trace: Seq<Event<M>>)
    requires
        all_accepts(trace),
    ensures
        all_position(trace),
    decreases trace.len(),
{
    if trace.len() > 0 {
        lemma_all_position(trace.drop_last());
    }
}

/// What a harvest of all blocks asks next, told from the answers alone.
///
/// It asks for the last finalized block of the index, for that of the chain, and for the
/// runtime and the metadata at the latter. While the index is ten blocks behind or more, it
/// has blocks finalized up to the chain's last finalized one, and asks for both again. Then
/// it subscribes to finalized and to imported blocks, and looks at the first finalized one:
/// if that is not the next one, the blocks before it are finalized first. From then on it
/// takes notifications. A finalized block is to be finalized. An imported block is processed
/// together with all blocks after the last one processed, unless it has been processed.
/// Whatever could not be finalized is walked, from the block that is named to the one up to
/// which blocks were to be finalized. Failures end the harvest, each with its error.
pub proof fn law_all_asks_in_order<M>(trace: Seq<Event<M>>)
    requires
        all_accepts(trace),
    ensures
        ({
            let now = all_run(trace);
            let asked = all_run(trace.drop_last()).wants();
            let last = last_finalized_in(trace)->0;
            let head = head_in(trace)->0;
            let known = metadata_in(trace) is Some;
            let following = if head - last < 10 {
                Action::SubscribeFinality
            } else {
                Action::TryFinalize(head)
            };
            &&& is_info_in(now.info, trace)
            &&& now.wants() == Action::Return <==> now.stage is Done
            &&& trace.len() == 0 ==> now.wants() == Action::LastFinalizedBlock
            &&& trace.len() > 0 ==> match trace.last() {
                Event::LastFinalizedBlock(Ok(_)) => now.wants() == Action::FinalizedHead,
                Event::FinalizedHead(Ok(head)) => {
                    &&& last_finalized_in(trace) is Some
                    &&& now.wants() == if known {
                        following
                    } else {
                        Action::RuntimeVersionAt(head)
                    }
                },
                Event::RuntimeVersion(Ok(_)) => head_in(trace) is Some && now.wants()
                    == Action::MetadataAt(head),
                Event::Metadata(Ok(_)) => {
                    &&& last_finalized_in(trace) is Some && head_in(trace) is Some
                    &&& now.wants() == following
                },
                Event::TryFinalized(Ok(Some(start))) => {
                    &&& asked is TryFinalize
                    &&& now.wants() == (Action::Repair { start, end: asked->TryFinalize_0 })
                },
                Event::TryFinalized(Ok(None)) | Event::RangeDone(Ok(_)) => now.wants()
                    == if subscriptions_in(trace) == 0 {
                    Action::LastFinalizedBlock
                } else {
                    Action::NextNotification
                },
                Event::Subscribed => now.wants() == if subscriptions_in(trace) == 1 {
                    Action::SubscribeImports
                } else {
                    Action::PeekFinality
                },
                Event::Peeked(None) => now.wants() == Action::NextNotification,
                Event::Peeked(Some(block)) => {
                    &&& last_finalized_in(trace) is Some
                    &&& now.wants() == if last + 1 < block {
                        Action::TryFinalize((block - 1) as u64)
                    } else {
                        Action::NextNotification
                    }
                },
                Event::Finality(Some(block)) => now.wants() == Action::TryFinalize(block),
                Event::Import(Some(_)) => now.wants() == Action::LastPendingBlock,
                Event::LastPendingBlock(Ok(processed)) => {
                    &&& imported_in(trace) matches Some(block) && now.wants() == if processed
                        < block {
                        Action::ProcessPending { start: (processed + 1) as u64, end: block }
                    } else {
                        Action::NextNotification
                    }
                },
                Event::Finality(None) | Event::Import(None) => now.stage == AllStage::Done(
                    Error::Subscription,
                ),
                Event::LastFinalizedBlock(Err(text)) | Event::LastPendingBlock(Err(text)) => now.stage
                    == AllStage::Done(Error::BlockProcessor(text)),
                Event::FinalizedHead(Err(text)) | Event::RuntimeVersion(Err(text))
                | Event::Metadata(Err(text)) => now.stage == AllStage::Done(Error::Client(text)),
                Event::TryFinalized(Err(text)) => now.stage == AllStage::Done(
                    if trace.len() > 1 && trace[trace.len() - 2] is Finality {
                        Error::Subscription
                    } else {
                        Error::Client(text)
                    },
                ),
                Event::RangeDone(Err(error)) => now.stage == AllStage::Done(error),
                Event::Purged(_) => false,
            }
        }),
{
    lemma_all_position(trace);
    if trace.len() > 0 {
        let before = trace.drop_last();
        lemma_all_position(before);
        if before.len() > 0 {
            assert(before.last() == trace[trace.len() - 2]);
        }
    }
}

/// A harvest of all blocks takes every answer to what it asked, but for two: a chain whose
/// last finalized block is before that of the index, and a notification where no block number
/// follows the last finalized block.
pub proof fn law_all_takes_every_answer<M>(trace: Seq<Event<M>>, event: Event<M>)
    requires
        all_accepts(trace),
    ensures
        ({
            let now = all_run(trace);
            let last = last_finalized_in(trace)->0;
            let known = metadata_in(trace) is Some;
            now.accepts(event) <==> match (now.wants(), event) {
                (Action::LastFinalizedBlock, Event::LastFinalizedBlock(_)) => true,
                (Action::LastPendingBlock, Event::LastPendingBlock(_)) => true,
                (Action::TryFinalize(_), Event::TryFinalized(_)) => true,
                (Action::Repair { .. }, Event::RangeDone(_)) => true,
                (Action::ProcessPending { .. }, Event::RangeDone(_)) => true,
                (Action::FinalizedHead, Event::FinalizedHead(answer)) => known && answer is Ok
                    ==> last <= answer->Ok_0,
                (Action::RuntimeVersionAt(_), Event::RuntimeVersion(_)) => true,
                (Action::MetadataAt(_), Event::Metadata(answer)) => answer is Ok ==> last
                    <= head_in(trace)->0,
                (Action::SubscribeFinality, Event::Subscribed) => true,
                (Action::SubscribeImports, Event::Subscribed) => true,
                (Action::PeekFinality, Event::Peeked(block)) => block is Some ==> last < u64::MAX,
                (Action::NextNotification, Event::Finality(_)) => true,
                (Action::NextNotification, Event::Import(_)) => true,
                _ => false,
            }
        }),
{
    lemma_all_position(trace);
}

/// Where a harvest of finalized blocks stands in the course of `trace`.
spec fn finalize_only_position<M>(trace: Seq<Event<M>>) -> bool {
    let harvest = finalize_only_run(trace);
    let known = metadata_in(trace) is Some;
    let first = first_last_finalized(trace);
    &&& is_info_in(harvest.info, trace)
    &&& match harvest.stage {
        FinalizeOnlyStage::LastFinalized => !known && first is None && head_in(trace) is None,
        FinalizeOnlyStage::Head { last } => !known && first == Some(last) && head_in(trace) is None,
        FinalizeOnlyStage::HeadVersion { last, head } => !known && first == Some(last) && head_in(
            trace,
        ) == Some(head),
        FinalizeOnlyStage::HeadMetadata { last, head, spec_version } => !known && first == Some(
            last,
        ) && head_in(trace) == Some(head) && version_in(trace) == Some(spec_version),
        FinalizeOnlyStage::Subscribe { last }
        | FinalizeOnlyStage::Purge { last }
        | FinalizeOnlyStage::Peek { last } => known && first == Some(last) && head_in(trace)
            is Some,
        FinalizeOnlyStage::NotifiedLastFinalized { block } => known && first is Some && head_in(
            trace,
        ) is Some && notified_in(trace) == Some(block),
        FinalizeOnlyStage::Done(_) => true,
        _ => known && first is Some && head_in(trace) is Some,
    }
}

proof fn lemma_finalize_only_position<M>(trace: Seq<Event<M>>)
    requires
        finalize_only_accepts(trace),
    ensures
        finalize_only_position(trace),
    decreases trace.len(),
{
    if trace.len() > 0 {
        lemma_finalize_only_position(trace.drop_last());
    }
}

/// What a harvest of finalized blocks asks next, told from the answers alone.
///
/// It asks for the last finalized block of the index, for that of the chain, and for the
/// runtime and the metadata at the latter. It subscribes to finalized blocks, drops what is
/// pending above the last finalized block of the index, and looks at the first notified
/// block: all blocks between the two are walked. From then on it takes notifications: for
/// each it asks for the last finalized block of the index and walks from the block after it
/// to the notified one. Failures end the harvest, each with its error.
pub proof fn law_finalize_only_asks_in_order<M>(trace: Seq<Event<M>>)
    requires
        finalize_only_accepts(trace),
    ensures
        ({
            let now = finalize_only_run(trace);
            let first = first_last_finalized(trace)->0;
            &&& is_info_in(now.info, trace)
            &&& now.wants() == Action::Return <==> now.stage is Done
            &&& trace.len() == 0 ==> now.wants() == Action::LastFinalizedBlock
            &&& trace.len() > 0 ==> match trace.last() {
                Event::LastFinalizedBlock(Ok(last)) => if head_in(trace) is None {
                    now.wants() == Action::FinalizedHead
                } else {
                    notified_in(trace) matches Some(block) && now.wants() == (Action::Repair {
                        start: (last + 1) as u64,
                        end: block,
                    })
                },
                Event::FinalizedHead(Ok(head)) => now.wants() == Action::RuntimeVersionAt(head),
                Event::RuntimeVersion(Ok(_)) => head_in(trace) matches Some(head) && now.wants()
                    == Action::MetadataAt(head),
                Event::Metadata(Ok(_)) => now.wants() == Action::SubscribeFinality,
                Event::Subscribed => first_last_finalized(trace) is Some && now.wants()
                    == Action::PurgePending(first),
                Event::Purged(Ok(_)) => now.wants() == Action::PeekFinality,
                Event::Peeked(None) => now.wants() == Action::NextFinality,
                Event::Peeked(Some(block)) => {
                    &&& first_last_finalized(trace) is Some
                    &&& now.wants() == if first + 1 < block {
                        Action::Repair { start: (first + 1) as u64, end: (block - 1) as u64 }
                    } else {
                        Action::NextFinality
                    }
                },
                Event::Finality(Some(_)) => now.wants() == Action::LastFinalizedBlock,
                Event::RangeDone(Ok(_)) => now.wants() == Action::NextFinality,
                Event::Finality(None) => now.stage == FinalizeOnlyStage::Done(Error::Subscription),
                Event::LastFinalizedBlock(Err(text)) | Event::Purged(Err(text)) => now.stage
                    == FinalizeOnlyStage::Done(Error::BlockProcessor(text)),
                Event::FinalizedHead(Err(text)) | Event::RuntimeVersion(Err(text))
                | Event::Metadata(Err(text)) => now.stage == FinalizeOnlyStage::Done(
                    Error::Client(text),
                ),
                Event::RangeDone(Err(error)) => now.stage == FinalizeOnlyStage::Done(error),
                Event::LastPendingBlock(_) | Event::TryFinalized(_) | Event::Import(_) => false,
            }
        }),
{
    lemma_finalize_only_position(trace);
    if trace.len() > 0 {
        lemma_finalize_only_position(trace.drop_last());
    }
}

/// A harvest of finalized blocks takes every answer to what it asked, but where no block
/// number follows the last finalized block that it has to go on from.
pub proof fn law_finalize_only_takes_every_answer<M>(trace: Seq<Event<M>>, event: Event<M>)
    requires
        finalize_only_accepts(trace),
    ensures
        ({
            let now = finalize_only_run(trace);
            now.accepts(event) <==> match (now.wants(), event) {
                (Action::LastFinalizedBlock, Event::LastFinalizedBlock(answer)) => head_in(trace)
                    is Some && answer is Ok ==> answer->Ok_0 < u64::MAX,
                (Action::PurgePending(_), Event::Purged(_)) => true,
                (Action::Repair { .. }, Event::RangeDone(_)) => true,
                (Action::FinalizedHead, Event::FinalizedHead(_)) => true,
                (Action::RuntimeVersionAt(_), Event::RuntimeVersion(_)) => true,
                (Action::MetadataAt(_), Event::Metadata(_)) => true,
                (Action::SubscribeFinality, Event::Subscribed) => true,
                (Action::PeekFinality, Event::Peeked(block)) => block is Some
                    ==> first_last_finalized(trace)->0 < u64::MAX,
                (Action::NextFinality, Event::Finality(_)) => true,
                _ => false,
            }
        }),
{
    lemma_finalize_only_position(trace);
}

} // verus!
