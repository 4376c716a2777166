//! Handling one block: reading its events, decoding them, gathering what belongs to each, and
//! storing the records.
//!
//! [`HandleBlock`] says what it needs next ([`HandleBlock::action`]); its driver does that and
//! hands the answer back ([`HandleBlock::step`]). Pending blocks are stored under their hash,
//! finalized ones without it.

use vstd::prelude::*;

use crate::indexer::Error;
use crate::StorageKey;
use std::collections::VecDeque;

verus! {

/// What handling a block needs next. `P` is the phase in which an event was deposited, and
/// `R` the event.
#[derive(Debug)]
pub enum HandleAction<'a, P, R> {
    /// Ask the client for a storage entry at a block.
    Storage { block: u32, key: &'a StorageKey },
    /// Ask the client for the hash of a block.
    Hash(u32),
    /// Decode the events in an entry.
    Decode(&'a [u8]),
    /// Extract what belongs to an event of a block.
    Extract { block: u32, phase: &'a P, event: &'a R },
    /// Nothing: take the outcome.
    Finish,
}

/// The answer to an action of handling. A text describes the error of whoever was asked; `E`
/// is what was extracted for an event.
#[derive(Debug)]
pub enum HandleEvent<P, R, E> {
    Storage(Result<Option<Vec<u8>>, String>),
    Hash(Result<Option<Vec<u8>>, String>),
    Decoded(Result<Vec<(P, R)>, String>),
    Extracted(E),
}

/// What is to be done with a block in the end.
#[derive(Debug)]
pub enum HandleOutcome<P, R, E> {
    /// Store the records of a pending block under its hash.
    StorePending { block: u32, hash: Vec<u8>, records: Vec<(P, R, E)> },
    /// Store the records of a finalized block.
    StoreFinalized { block: u32, records: Vec<(P, R, E)> },
    /// Nothing more.
    Return(Result<(), Error>),
}

/// Where handling stands. `hash` is the hash under which a pending block is stored; `found`
/// is its entry, if it has one.
#[derive(Debug)]
pub enum HandleStage<P, R, E> {
    Storage { pending: bool },
    Hash { found: Option<Vec<u8>> },
    Decode { hash: Option<Vec<u8>>, entry: Vec<u8> },
    /// The events in `rest` are still without what belongs to them.
    Extract { hash: Option<Vec<u8>>, rest: VecDeque<(P, R)>, records: Vec<(P, R, E)> },
    Store { hash: Option<Vec<u8>>, records: Vec<(P, R, E)> },
    Done(Result<(), Error>),
}

/// Handling the block `block`, whose events are under `key`.
#[derive(Debug)]
pub struct HandleBlock<P, R, E> {
    pub key: StorageKey,
    pub block: u32,
    pub stage: HandleStage<P, R, E>,
}

/// What [`HandleStage`] stands for.
#[verifier::ext_equal]
pub enum HandleStageView<P, R, E> {
    Storage { pending: bool },
    Hash { found: Option<Seq<u8>> },
    Decode { hash: Option<Seq<u8>>, entry: Seq<u8> },
    Extract { hash: Option<Seq<u8>>, rest: Seq<(P, R)>, records: Seq<(P, R, E)> },
    Store { hash: Option<Seq<u8>>, records: Seq<(P, R, E)> },
    Done(Result<(), Error>),
}

/// What [`HandleBlock`] stands for.
#[verifier::ext_equal]
pub struct HandleBlockView<P, R, E> {
    pub key: Seq<u8>,
    pub block: u32,
    pub stage: HandleStageView<P, R, E>,
}

/// The bytes of a vector, where there is one.
pub open spec fn bytes_if_any(bytes: Option<Vec<u8>>) -> Option<Seq<u8>> {
    match bytes {
        Some(bytes) => Some(bytes@),
        None => None,
    }
}

impl<P, R, E> View for HandleStage<P, R, E> {
    type V = HandleStageView<P, R, E>;

    open spec fn view(&self) -> HandleStageView<P, R, E> {
        match *self {
            HandleStage::Storage { pending } => HandleStageView::Storage { pending },
            HandleStage::Hash { found } => HandleStageView::Hash { found: bytes_if_any(found) },
            HandleStage::Decode { hash, entry } => HandleStageView::Decode {
                hash: bytes_if_any(hash),
                entry: entry@,
            },
            HandleStage::Extract { hash, rest, records } => HandleStageView::Extract {
                hash: bytes_if_any(hash),
                rest: rest@,
                records: records@,
            },
            HandleStage::Store { hash, records } => HandleStageView::Store {
                hash: bytes_if_any(hash),
                records: records@,
            },
            HandleStage::Done(result) => HandleStageView::Done(result),
        }
    }
}

impl<P, R, E> View for HandleBlock<P, R, E> {
    type V = HandleBlockView<P, R, E>;

    open spec fn view(&self) -> HandleBlockView<P, R, E> {
        HandleBlockView { key: self.key@, block: self.block, stage: self.stage@ }
    }
}

impl<P, R, E> HandleBlockView<P, R, E> {
    /// The beginning of handling `block`, whose events are under `key`.
    pub open spec fn begun(key: Seq<u8>, pending: bool, block: u32) -> Self {
        HandleBlockView { key, block, stage: HandleStageView::Storage { pending } }
    }

    /// Whether no event waits without what belongs to it unless there is one.
    pub open spec fn wf(self) -> bool {
        self.stage matches HandleStageView::Extract { rest, .. } ==> rest.len() > 0
    }

    /// Whether `event` answers what is needed. A pending block has to have a hash.
    pub open spec fn accepts(self, event: HandleEvent<P, R, E>) -> bool {
        match event {
            HandleEvent::Storage(_) => self.stage is Storage,
            HandleEvent::Hash(answer) => self.stage is Hash && answer != Ok::<_, String>(
                None::<Vec<u8>>,
            ),
            HandleEvent::Decoded(_) => self.stage is Decode,
            HandleEvent::Extracted(_) => self.stage is Extract,
        }
    }

    /// The stage at which what belongs to the first event of `rest` is needed, or at which
    /// the records are complete.
    pub open spec fn gathering(
        hash: Option<Seq<u8>>,
        rest: Seq<(P, R)>,
        records: Seq<(P, R, E)>,
    ) -> HandleStageView<P, R, E> {
        if rest.len() == 0 {
            HandleStageView::Store { hash, records }
        } else {
            HandleStageView::Extract { hash, rest, records }
        }
    }

    /// The stage at which the events in an entry are needed. A block without an entry has no
    /// events, and nothing is left to do.
    pub open spec fn decoding(
        hash: Option<Seq<u8>>,
        entry: Option<Seq<u8>>,
    ) -> HandleStageView<P, R, E> {
        match entry {
            Some(entry) => HandleStageView::Decode { hash, entry },
            None => HandleStageView::Done(Ok(())),
        }
    }

    /// What is left to do after an answer that is accepted.
    pub open spec fn after(self, event: HandleEvent<P, R, E>) -> Self {
        HandleBlockView {
            stage: match event {
                HandleEvent::Storage(Err(text)) => HandleStageView::Done(Err(Error::Client(text))),
                HandleEvent::Storage(Ok(entry)) => if self.stage->Storage_pending {
                    HandleStageView::Hash { found: bytes_if_any(entry) }
                } else {
                    Self::decoding(None, bytes_if_any(entry))
                },
                HandleEvent::Hash(Err(text)) => HandleStageView::Done(Err(Error::Client(text))),
                HandleEvent::Hash(Ok(hash)) => Self::decoding(
                    bytes_if_any(hash),
                    self.stage->Hash_found,
                ),
                HandleEvent::Decoded(Err(text)) => HandleStageView::Done(
                    Err(Error::Decoder(text)),
                ),
                HandleEvent::Decoded(Ok(events)) => Self::gathering(
                    self.stage->Decode_hash,
                    events@,
                    Seq::empty(),
                ),
                HandleEvent::Extracted(data) => {
                    let (phase, event) = self.stage->Extract_rest[0];
                    Self::gathering(
                        self.stage->Extract_hash,
                        self.stage->Extract_rest.skip(1),
                        self.stage->Extract_records.push((phase, event, data)),
                    )
                },
            },
            ..self
        }
    }
}

impl<P, R, E> HandleBlock<P, R, E> {
    /// Begins to handle `block`, whose events are under `key`.
    pub fn begin(key: StorageKey, pending: bool, block: u32) -> (handling: Self)
        ensures
            handling@ == HandleBlockView::<P, R, E>::begun(key@, pending, block),
    {
        HandleBlock { key, block, stage: HandleStage::Storage { pending } }
    }

    /// What is needed next.
    pub fn action(&self) -> (action: HandleAction<'_, P, R>)
        requires
            self@.wf(),
        ensures
            match self@.stage {
                HandleStageView::Storage { .. } => action matches HandleAction::Storage { block, key }
                    && block == self@.block && key@ == self@.key,
                HandleStageView::Hash { .. } => action == HandleAction::<P, R>::Hash(self@.block),
                HandleStageView::Decode { entry, .. } => action matches HandleAction::Decode(bytes)
                    && bytes@ == entry,
                HandleStageView::Extract { rest, .. } => action matches HandleAction::Extract {
                    block,
                    phase,
                    event,
                } && block == self@.block && (*phase, *event) == rest[0],
                _ => action is Finish,
            },
    {
        match &self.stage {
            HandleStage::Storage { .. } => HandleAction::Storage {
                block: self.block,
                key: &self.key,
            },
            HandleStage::Hash { .. } => HandleAction::Hash(self.block),
            HandleStage::Decode { entry, .. } => HandleAction::Decode(entry.as_slice()),
            HandleStage::Extract { rest, .. } => {
                let first: &(P, R) = &rest[0];
                HandleAction::Extract { block: self.block, phase: &first.0, event: &first.1 }
            },
            _ => HandleAction::Finish,
        }
    }

    /// Whether `event` can be taken.
    pub fn can_take(&self, event: &HandleEvent<P, R, E>) -> (yes: bool)
        ensures
            yes == self@.accepts(*event),
    {
        match (&self.stage, event) {
            (HandleStage::Storage { .. }, HandleEvent::Storage(_)) => true,
            (HandleStage::Hash { .. }, HandleEvent::Hash(answer)) => match answer {
                Ok(hash) => hash.is_some(),
                Err(_) => true,
            },
            (HandleStage::Decode { .. }, HandleEvent::Decoded(_)) => true,
            (HandleStage::Extract { .. }, HandleEvent::Extracted(_)) => true,
            _ => false,
        }
    }

    /// Takes an answer.
    pub fn step(self, event: HandleEvent<P, R, E>) -> (handling: Self)
        requires
            self@.wf(),
            self@.accepts(event),
        ensures
            handling@ == self@.after(event),
            handling@.wf(),
    {
        let HandleBlock { key, block, stage } = self;
        let stage = match (stage, event) {
            (HandleStage::Storage { pending }, HandleEvent::Storage(answer)) => match answer {
                Ok(entry) => if pending {
                    HandleStage::Hash { found: entry }
                } else {
                    HandleStage::decode(None, entry)
                },
                Err(text) => HandleStage::Done(Err(Error::Client(text))),
            },
            (HandleStage::Hash { found }, HandleEvent::Hash(answer)) => match answer {
                Ok(hash) => HandleStage::decode(hash, found),
                Err(text) => HandleStage::Done(Err(Error::Client(text))),
            },
            (HandleStage::Decode { hash, .. }, HandleEvent::Decoded(answer)) => match answer {
                Ok(events) => HandleStage::gather(hash, queue(events), Vec::new()),
                Err(text) => HandleStage::Done(Err(Error::Decoder(text))),
            },
            (HandleStage::Extract { hash, rest, records }, HandleEvent::Extracted(data)) => {
                let mut rest = rest;
                let mut records = records;
                let ghost all = rest@;
                if let Some((phase, event)) = rest.pop_front() {
                    records.push((phase, event, data));
                }
                proof {
                    assert(rest@ =~= all.skip(1));
                }
                HandleStage::gather(hash, rest, records)
            },
            (stage, _) => stage,
        };
        HandleBlock { key, block, stage }
    }

    /// What is to be done with the block in the end.
    pub fn outcome(self) -> (outcome: Option<HandleOutcome<P, R, E>>)
        ensures
            match self@.stage {
                HandleStageView::Store { hash: Some(hash), records } => outcome matches Some(
                    HandleOutcome::StorePending { block, hash: under, records: list },
                ) && block == self@.block && under@ == hash && list@ == records,
                HandleStageView::Store { hash: None, records } => outcome matches Some(
                    HandleOutcome::StoreFinalized { block, records: list },
                ) && block == self@.block && list@ == records,
                HandleStageView::Done(result) => outcome == Some(
                    HandleOutcome::<P, R, E>::Return(result),
                ),
                _ => outcome is None,
            },
    {
        match self.stage {
            HandleStage::Store { hash, records } => match hash {
                Some(hash) => Some(
                    HandleOutcome::StorePending { block: self.block, hash, records },
                ),
                None => Some(HandleOutcome::StoreFinalized { block: self.block, records }),
            },
            HandleStage::Done(result) => Some(HandleOutcome::Return(result)),
            _ => None,
        }
    }
}

impl<P, R, E> HandleStage<P, R, E> {
    /// Goes on to the events in `entry`.
    fn decode(hash: Option<Vec<u8>>, entry: Option<Vec<u8>>) -> (stage: Self)
        ensures
            stage@ == HandleBlockView::<P, R, E>::decoding(bytes_if_any(hash), bytes_if_any(entry)),
    {
        match entry {
            Some(entry) => HandleStage::Decode { hash, entry },
            None => HandleStage::Done(Ok(())),
        }
    }

    /// Goes on to the first event of `rest`.
    fn gather(
        hash: Option<Vec<u8>>,
        rest: VecDeque<(P, R)>,
        records: Vec<(P, R, E)>,
    ) -> (stage: Self)
        ensures
            stage@ == HandleBlockView::<P, R, E>::gathering(bytes_if_any(hash), rest@, records@),
    {
        if rest.len() == 0 {
            HandleStage::Store { hash, records }
        } else {
            HandleStage::Extract { hash, rest, records }
        }
    }
}

/// `items`, to be taken from the front.
fn queue<T>(items: Vec<T>) -> (queued: VecDeque<T>)
    ensures
        queued@ == items@,
{
    let mut queued: VecDeque<T> = VecDeque::new();
    for item in it: items
        invariant
            it.seq() == items@,
            queued@ == items@.subrange(0, it.index()),
    {
        queued.push_back(item);
        proof {
            assert(queued@ =~= items@.subrange(0, it.index() + 1));
        }
    }
    proof {
        assert(items@.subrange(0, items@.len() as int) =~= items@);
    }
    queued
}

/// Handling, from where it has begun, after it has taken the answers of `trace`.
pub open spec fn handle_run<P, R, E>(
    begun: HandleBlockView<P, R, E>,
    trace: Seq<HandleEvent<P, R, E>>,
) -> HandleBlockView<P, R, E>
    decreases trace.len(),
{
    if trace.len() == 0 {
        begun
    } else {
        handle_run(begun, trace.drop_last()).after(trace.last())
    }
}

/// Whether each answer of `trace` comes when it can be taken.
pub open spec fn handle_accepts<P, R, E>(
    begun: HandleBlockView<P, R, E>,
    trace: Seq<HandleEvent<P, R, E>>,
) -> bool
    decreases trace.len(),
{
    trace.len() == 0 || (handle_accepts(begun, trace.drop_last()) && handle_run(
        begun,
        trace.drop_last(),
    ).accepts(trace.last()))
}

/// The storage entry that the client gave, once it has given one or said that there is none.
pub open spec fn entry_in<P, R, E>(trace: Seq<HandleEvent<P, R, E>>) -> Option<Option<Seq<u8>>>
    decreases trace.len(),
{
    if trace.len() == 0 {
        None
    } else {
        match trace.last() {
            HandleEvent::Storage(Ok(Some(entry))) => Some(Some(entry@)),
            HandleEvent::Storage(Ok(None)) => Some(None),
            _ => entry_in(trace.drop_last()),
        }
    }
}

/// The hash that the client gave.
pub open spec fn hash_in<P, R, E>(trace: Seq<HandleEvent<P, R, E>>) -> Option<Seq<u8>>
    decreases trace.len(),
{
    if trace.len() == 0 {
        None
    } else {
        match trace.last() {
            HandleEvent::Hash(Ok(Some(hash))) => Some(hash@),
            _ => hash_in(trace.drop_last()),
        }
    }
}

/// The events that were decoded.
pub open spec fn decoded_in<P, R, E>(trace: Seq<HandleEvent<P, R, E>>) -> Option<Seq<(P, R)>>
    decreases trace.len(),
{
    if trace.len() == 0 {
        None
    } else {
        match trace.last() {
            HandleEvent::Decoded(Ok(events)) => Some(events@),
            _ => decoded_in(trace.drop_last()),
        }
    }
}

/// What was extracted, in order.
pub open spec fn extracted_in<P, R, E>(trace: Seq<HandleEvent<P, R, E>>) -> Seq<E>
    decreases trace.len(),
{
    if trace.len() == 0 {
        Seq::empty()
    } else {
        match trace.last() {
            HandleEvent::Extracted(data) => extracted_in(trace.drop_last()).push(data),
            _ => extracted_in(trace.drop_last()),
        }
    }
}

/// The events for which something was extracted: for each answer, the event that was asked
/// about.
pub open spec fn extractions_in<P, R, E>(
    begun: HandleBlockView<P, R, E>,
    trace: Seq<HandleEvent<P, R, E>>,
) -> Seq<(P, R)>
    decreases trace.len(),
{
    if trace.len() == 0 {
        Seq::empty()
    } else {
        match trace.last() {
            HandleEvent::Extracted(_) => extractions_in(begun, trace.drop_last()).push(
                handle_run(begun, trace.drop_last()).stage->Extract_rest[0],
            ),
            _ => extractions_in(begun, trace.drop_last()),
        }
    }
}

/// The records that events make with what was extracted for the first of them.
pub open spec fn joined<P, R, E>(events: Seq<(P, R)>, data: Seq<E>) -> Seq<(P, R, E)> {
    Seq::new(data.len(), |i: int| (events[i].0, events[i].1, data[i]))
}

/// What is true of handling in the course of `trace`.
spec fn handle_invariant<P, R, E>(
    key: Seq<u8>,
    pending: bool,
    block: u32,
    trace: Seq<HandleEvent<P, R, E>>,
) -> bool {
    let state = handle_run(HandleBlockView::begun(key, pending, block), trace);
    let events = decoded_in(trace)->0;
    let data = extracted_in(trace);
    let asked = extractions_in(HandleBlockView::begun(key, pending, block), trace);
    &&& state.wf()
    &&& asked.len() == data.len()
    &&& state.key == key
    &&& state.block == block
    &&& match state.stage {
        HandleStageView::Storage { pending: as_pending } => {
            &&& as_pending == pending
            &&& trace.len() == 0
        },
        HandleStageView::Hash { found } => {
            &&& pending
            &&& entry_in(trace) == Some(found)
            &&& trace.len() == 1
            &&& hash_in(trace) is None
            &&& decoded_in(trace) is None
            &&& data.len() == 0
        },
        HandleStageView::Decode { hash, entry } => {
            &&& pending == hash is Some
            &&& hash == hash_in(trace)
            &&& entry_in(trace) == Some(Some(entry))
            &&& decoded_in(trace) is None
            &&& data.len() == 0
        },
        HandleStageView::Extract { hash, rest, records } => {
            &&& pending == hash is Some
            &&& hash == hash_in(trace)
            &&& entry_in(trace) matches Some(Some(_))
            &&& decoded_in(trace) is Some
            &&& data.len() < events.len()
            &&& asked == events.take(data.len() as int)
            &&& records == joined(events, data)
            &&& rest == events.skip(data.len() as int)
        },
        HandleStageView::Store { hash, records } => {
            &&& pending == hash is Some
            &&& hash == hash_in(trace)
            &&& entry_in(trace) matches Some(Some(_))
            &&& decoded_in(trace) is Some
            &&& data.len() == events.len()
            &&& asked == events
            &&& records == joined(events, data)
        },
        HandleStageView::Done(Ok(_)) => {
            &&& entry_in(trace) == Some(None::<Seq<u8>>)
            &&& decoded_in(trace) is None
            &&& pending == hash_in(trace) is Some
        },
        HandleStageView::Done(Err(_)) => true,
    }
}

proof fn lemma_handle_invariant<P, R, E>(
    key: Seq<u8>,
    pending: bool,
    block: u32,
    trace: Seq<HandleEvent<P, R, E>>,
)
    requires
        handle_accepts(HandleBlockView::begun(key, pending, block), trace),
    ensures
        handle_invariant(key, pending, block, trace),
    decreases trace.len(),
{
    if trace.len() > 0 {
        let before = trace.drop_last();
        lemma_handle_invariant(key, pending, block, before);
        match trace.last() {
            HandleEvent::Extracted(_) => {
                let events = decoded_in(trace)->0;
                let done = extracted_in(before).len() as int;
                assert(events.skip(done).skip(1) =~= events.skip(done + 1));
                assert(events.take(done).push(events[done]) =~= events.take(done + 1));
                assert(events.take(events.len() as int) =~= events);
                assert(joined(events, extracted_in(before)).push(
                    (events[done].0, events[done].1, extracted_in(trace)[done]),
                ) =~= joined(events, extracted_in(trace)));
            },
            HandleEvent::Decoded(Ok(events)) => {
                assert(events@.skip(0) =~= events@);
                assert(extractions_in(HandleBlockView::begun(key, pending, block), trace)
                    =~= events@.take(0));
                assert(events@.len() == 0 ==> events@.take(0) =~= events@);
                assert(joined(events@, extracted_in(trace)) =~= Seq::empty());
            },
            _ => {},
        }
    }
}

/// What is decoded is the entry that the client gave.
/// A block is stored with one record for each event that was decoded, in the order of the
/// events, each with what was extracted for it: whatever belongs to an event was asked for
/// when as many answers had come as there are events before it. A pending block is stored
/// under the hash that the client gave for it, a finalized one without a hash, either under
/// its own number.
pub proof fn law_records_follow_the_events<P, R, E>(
    key: Seq<u8>,
    pending: bool,
    block: u32,
    trace: Seq<HandleEvent<P, R, E>>,
)
    requires
        handle_accepts(HandleBlockView::begun(key, pending, block), trace),
    ensures
        ({
            let begun = HandleBlockView::begun(key, pending, block);
            let state = handle_run(begun, trace);
            let data = extracted_in(trace);
            &&& state.key == key
            &&& state.block == block
            &&& extractions_in(begun, trace).len() == data.len()
            &&& state.stage matches HandleStageView::Decode { entry, .. } ==> entry_in(trace)
                == Some(Some(entry))
            &&& state.stage matches HandleStageView::Extract { rest, records, .. } ==> {
                &&& decoded_in(trace) matches Some(events) && data.len() < events.len() && rest[0]
                    == events[data.len() as int] && extractions_in(begun, trace) == events.take(
                    data.len() as int,
                ) && records == joined(events, data)
            }
            &&& state.stage matches HandleStageView::Store { hash, records } ==> {
                &&& decoded_in(trace) matches Some(events) && data.len() == events.len()
                    && extractions_in(begun, trace) == events && records == joined(events, data)
                &&& hash == hash_in(trace)
                &&& hash is Some == pending
            }
        }),
{
    lemma_handle_invariant(key, pending, block, trace);
}

/// Handling ends without storing anything, and without an error, only for a block that has no
/// entry for its events; and such a block is never stored.
pub proof fn law_only_blocks_without_events_are_skipped<P, R, E>(
    key: Seq<u8>,
    pending: bool,
    block: u32,
    trace: Seq<HandleEvent<P, R, E>>,
)
    requires
        handle_accepts(HandleBlockView::begun(key, pending, block), trace),
    ensures
        ({
            let state = handle_run(HandleBlockView::begun(key, pending, block), trace);
            &&& state.stage matches HandleStageView::Done(Ok(_)) ==> entry_in(trace) == Some(
                None::<Seq<u8>>,
            )
            &&& state.stage is Decode || state.stage is Extract || state.stage is Store ==> (
            entry_in(trace) matches Some(Some(_)))
        }),
{
    lemma_handle_invariant(key, pending, block, trace);
}

/// What handling a block comes to, told from the answers alone. The entry under the key is
/// asked for at the block; for a pending block the hash is asked for next, with or without an
/// entry. Without an entry it is over. With one, exactly its bytes are decoded. Then the
/// events are asked about, one after the other, each once, and at last there is a record for
/// each: the event at a place with what was extracted at that place. The hash of a pending
/// block is the one that the client gave; a finalized block has none. A failure ends it with
/// the error of the one that failed.
pub proof fn law_handle_asks_in_order<P, R, E>(
    key: Seq<u8>,
    pending: bool,
    block: u32,
    trace: Seq<HandleEvent<P, R, E>>,
)
    requires
        handle_accepts(HandleBlockView::begun(key, pending, block), trace),
    ensures
        ({
            let now = handle_run(HandleBlockView::begun(key, pending, block), trace);
            let hash = if pending {
                hash_in(trace)
            } else {
                None
            };
            let events = decoded_in(trace)->0;
            let data = extracted_in(trace);
            &&& now.key == key
            &&& now.block == block
            &&& trace.len() == 0 ==> now.stage == (HandleStageView::<P, R, E>::Storage { pending })
            &&& trace.len() > 0 ==> match trace.last() {
                HandleEvent::Storage(Ok(entry)) => if pending {
                    now.stage is Hash
                } else {
                    match entry {
                        Some(entry) => now.stage == (HandleStageView::<P, R, E>::Decode {
                            hash: None,
                            entry: entry@,
                        }),
                        None => now.stage == HandleStageView::<P, R, E>::Done(Ok(())),
                    }
                },
                HandleEvent::Hash(Ok(answer)) => {
                    &&& pending
                    &&& answer is Some
                    &&& match entry_in(trace)->0 {
                        Some(entry) => now.stage == (HandleStageView::<P, R, E>::Decode {
                            hash: Some(answer->0@),
                            entry,
                        }),
                        None => now.stage == HandleStageView::<P, R, E>::Done(Ok(())),
                    }
                },
                HandleEvent::Decoded(Ok(_)) | HandleEvent::Extracted(_) => {
                    &&& decoded_in(trace) is Some
                    &&& data.len() <= events.len()
                    &&& hash is Some == pending
                    &&& match now.stage {
                        HandleStageView::Extract { hash: under, rest, records } => {
                            &&& under == hash
                            &&& rest.len() == events.len() - data.len() > 0
                            &&& forall|i: int|
                                0 <= i < rest.len() ==> #[trigger] rest[i] == events[data.len()
                                    + i]
                            &&& records.len() == data.len()
                            &&& forall|i: int|
                                0 <= i < data.len() ==> #[trigger] records[i] == (
                                    events[i].0,
                                    events[i].1,
                                    data[i],
                                )
                        },
                        HandleStageView::Store { hash: under, records } => {
                            &&& under == hash
                            &&& data.len() == events.len()
                            &&& records.len() == data.len()
                            &&& forall|i: int|
                                0 <= i < data.len() ==> #[trigger] records[i] == (
                                    events[i].0,
                                    events[i].1,
                                    data[i],
                                )
                        },
                        _ => false,
                    }
                },
                HandleEvent::Storage(Err(text)) | HandleEvent::Hash(Err(text)) => now.stage
                    == HandleStageView::<P, R, E>::Done(Err(Error::Client(text))),
                HandleEvent::Decoded(Err(text)) => now.stage == HandleStageView::<P, R, E>::Done(
                    Err(Error::Decoder(text)),
                ),
            }
        }),
{
    lemma_handle_invariant(key, pending, block, trace);
    if trace.len() > 0 {
        lemma_handle_invariant(key, pending, block, trace.drop_last());
    }
}

/// Every answer to what was asked can be taken, but that a pending block has no hash.
pub proof fn law_handle_takes_every_answer<P, R, E>(
    handling: HandleBlockView<P, R, E>,
    event: HandleEvent<P, R, E>,
)
    ensures
        handling.accepts(event) <==> match (handling.stage, event) {
            (HandleStageView::Storage { .. }, HandleEvent::Storage(_)) => true,
            (HandleStageView::Hash { .. }, HandleEvent::Hash(answer)) => match answer {
                Ok(hash) => hash is Some,
                Err(_) => true,
            },
            (HandleStageView::Decode { .. }, HandleEvent::Decoded(_)) => true,
            (HandleStageView::Extract { .. }, HandleEvent::Extracted(_)) => true,
            _ => false,
        },
{
}

/// What handling stands for is all that it holds, byte for byte and record for record.
pub proof fn law_handle_view_holds_everything<P, R, E>(handling: HandleBlock<P, R, E>)
    ensures
        handling@.block == handling.block,
        handling@.key == handling.key.0@,
        match handling.stage {
            HandleStage::Storage { pending } => handling@.stage == (HandleStageView::<
                P,
                R,
                E,
            >::Storage { pending }),
            HandleStage::Hash { found } => handling@.stage matches HandleStageView::Hash {
                found: bytes,
            } && match found {
                Some(found) => bytes == Some(found@),
                None => bytes is None,
            },
            HandleStage::Decode { hash, entry } => handling@.stage matches HandleStageView::Decode {
                hash: under,
                entry: bytes,
            } && bytes == entry@ && match hash {
                Some(hash) => under == Some(hash@),
                None => under is None,
            },
            HandleStage::Extract { hash, rest, records } => handling@.stage
                matches HandleStageView::Extract { hash: under, rest: left, records: made } && left
                == rest@ && made == records@ && match hash {
                Some(hash) => under == Some(hash@),
                None => under is None,
            },
            HandleStage::Store { hash, records } => handling@.stage matches HandleStageView::Store {
                hash: under,
                records: made,
            } && made == records@ && match hash {
                Some(hash) => under == Some(hash@),
                None => under is None,
            },
            HandleStage::Done(result) => handling@.stage == HandleStageView::<P, R, E>::Done(
                result,
            ),
        },
{
}

} // verus!
