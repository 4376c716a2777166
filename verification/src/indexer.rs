//! The index: where it reads a block's events, what decodes them and where they are stored.

use vstd::prelude::*;

use crate::finalize::{TryFinalize, TryFinalizeStage};
use crate::handle::{HandleBlock, HandleBlockView, HandleStageView};
use crate::hashing::twox_128_of;
use crate::{storage_key, storage_key_at, StorageKey};
use std::marker::PhantomData;

verus! {

/// What can go wrong with a block. Each text describes the error of whoever was asked.
#[derive(Debug)]
pub enum Error {
    Sqlite(String),
    Client(String),
    Decoder(String),
    Other(String),
}

/// The name of the module that keeps a block's events: `System`.
pub open spec fn system_module() -> Seq<u8> {
    seq![0x53u8, 0x79u8, 0x73u8, 0x74u8, 0x65u8, 0x6du8]
}

/// The name of the storage item that a block's events are in: `Events`.
pub open spec fn events_item() -> Seq<u8> {
    seq![0x45u8, 0x76u8, 0x65u8, 0x6eu8, 0x74u8, 0x73u8]
}

/// An index: where events are read, how they are decoded, and where they are stored.
#[derive(Debug)]
pub struct Indexer<Decode, S, Block, Client, Extractor, RuntimeEvent, E> {
    decoder: Decode,
    events_store_key: StorageKey,
    store: S,
    _marker: PhantomData<(Block, Client, Extractor, RuntimeEvent, E)>,
}

impl<Decode, S, Block, Client, Extractor, RuntimeEvent, E> Indexer<
    Decode,
    S,
    Block,
    Client,
    Extractor,
    RuntimeEvent,
    E,
> {
    /// Events are read where a chain keeps them.
    #[verifier::type_invariant]
    closed spec fn reads_events(&self) -> bool {
        self.events_store_key@ == storage_key(system_module(), events_item())
    }

    /// What decodes the events.
    pub closed spec fn decoded_by(&self) -> Decode {
        self.decoder
    }

    /// What stores the events.
    pub closed spec fn stored_in(&self) -> S {
        self.store
    }

    /// An index over `store`, with events decoded by `decoder`.
    pub fn new(store: S, decoder: Decode) -> (indexer: Self)
        ensures
            indexer.stored_in() == store,
            indexer.decoded_by() == decoder,
    {
        let module: [u8; 6] = [0x53, 0x79, 0x73, 0x74, 0x65, 0x6d];
        let item: [u8; 6] = [0x45, 0x76, 0x65, 0x6e, 0x74, 0x73];
        proof {
            assert(module@ =~= system_module());
            assert(item@ =~= events_item());
        }
        Indexer {
            decoder,
            events_store_key: storage_key_at(&module, &item),
            store,
            _marker: PhantomData,
        }
    }

    /// What decodes the events.
    pub fn decoder(&self) -> (decoder: &Decode)
        ensures
            *decoder == self.decoded_by(),
    {
        &self.decoder
    }

    /// What stores the events.
    pub fn store(&self) -> (store: &S)
        ensures
            *store == self.stored_in(),
    {
        &self.store
    }

    /// The key under which a chain keeps the events of a block.
    pub fn events_store_key(&self) -> (key: &StorageKey)
        ensures
            key@ == storage_key(system_module(), events_item()),
            key.0@ == twox_128_of(seq![0x53u8, 0x79, 0x73, 0x74, 0x65, 0x6d]) + twox_128_of(
                seq![0x45u8, 0x76, 0x65, 0x6e, 0x74, 0x73],
            ),
    {
        proof {
            use_type_invariant(self);
        }
        &self.events_store_key
    }

    /// Begins to handle the pending block `block`.
    pub fn handle_pending<P>(&self, block: u32) -> (handling: HandleBlock<P, RuntimeEvent, E>)
        ensures
            handling@ == HandleBlockView::<P, RuntimeEvent, E>::begun(
                storage_key(system_module(), events_item()),
                true,
                block,
            ),
            handling@.block == block,
            handling@.key == storage_key(system_module(), events_item()),
            handling@.stage == (HandleStageView::<P, RuntimeEvent, E>::Storage { pending: true }),
    {
        HandleBlock::begin(self.events_store_key().clone(), true, block)
    }

    /// Begins to handle the finalized block `block`.
    pub fn handle_final<P>(&self, block: u32) -> (handling: HandleBlock<P, RuntimeEvent, E>)
        ensures
            handling@ == HandleBlockView::<P, RuntimeEvent, E>::begun(
                storage_key(system_module(), events_item()),
                false,
                block,
            ),
            handling@.block == block,
            handling@.key == storage_key(system_module(), events_item()),
            handling@.stage == (HandleStageView::<P, RuntimeEvent, E>::Storage { pending: false }),
    {
        HandleBlock::begin(self.events_store_key().clone(), false, block)
    }

    /// Begins to finalize the pending blocks up to `block`.
    pub fn try_finalize(&self, block: u32) -> (finalizing: TryFinalize)
        ensures
            finalizing.is_begun(block),
            finalizing.end == block,
            finalizing.pending@.len() == 0,
            finalizing.stage == TryFinalizeStage::NonFinalizedBlocks,
    {
        TryFinalize::begin(block)
    }
}

/// The answer of the store, whose errors are the index's.
pub fn from_store<T>(answer: Result<T, String>) -> (result: Result<T, Error>)
    ensures
        result == (match answer {
            Ok(value) => Ok::<T, Error>(value),
            Err(text) => Err(Error::Sqlite(text)),
        }),
{
    match answer {
        Ok(value) => Ok(value),
        Err(text) => Err(Error::Sqlite(text)),
    }
}

} // verus!
