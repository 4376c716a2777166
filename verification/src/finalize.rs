//! Finalizing pending blocks: which of them the chain has made final, and where the index
//! has to take over with the chain's own blocks.
//!
//! [`TryFinalize`] says what it needs next ([`TryFinalize::action`]); its driver does that and
//! hands the answer back ([`TryFinalize::step`]).

use vstd::prelude::*;

use crate::indexer::Error;

verus! {

/// A pending block as the store has it: its number and its hash.
pub type PendingBlock = (u32, Option<Vec<u8>>);

/// What finalizing pending blocks needs next.
#[derive(Clone, Copy, Debug, PartialEq, Eq, Structural)]
pub enum TryFinalizeAction {
    /// Ask the store for its pending blocks.
    NonFinalizedBlocks,
    /// Ask the store for the last block that it has finalized.
    LastFinalizedBlock,
    /// Ask the client for the hash of a block.
    Hash(u32),
    /// Have the store finalize a pending block.
    Finalize(u32),
    /// Have the store drop its pending blocks above this one.
    PurgePending(u32),
    /// Nothing: it is over.
    Return,
}

/// The answer to an action of finalizing. A text describes the error of whoever was asked.
#[derive(Debug)]
pub enum TryFinalizeEvent {
    NonFinalizedBlocks(Result<Vec<PendingBlock>, String>),
    LastFinalizedBlock(Result<u32, String>),
    Hash(Result<Option<Vec<u8>>, String>),
    Finalized(Result<(), String>),
    Purged(Result<(), String>),
}

/// Where finalizing stands. `current` is the block that is looked at, and `idx` the place of
/// the pending block that should be it.
#[derive(Debug)]
pub enum TryFinalizeStage {
    NonFinalizedBlocks,
    LastFinalizedBlock,
    Hash { idx: usize, current: u32 },
    Finalize { idx: usize, current: u32 },
    Purge { current: u32 },
    /// The first block that could not be finalized, if there is one.
    Done(Result<Option<u32>, Error>),
}

/// Finalizing the pending blocks up to `end`.
#[derive(Debug)]
pub struct TryFinalize {
    pub pending: Vec<PendingBlock>,
    pub end: u32,
    pub stage: TryFinalizeStage,
}

/// Whether the pending block at `idx` is the block `number` with the given hash.
pub open spec fn is_pending(pending: Seq<PendingBlock>, idx: int, number: int, hash: Seq<u8>) -> bool {
    &&& 0 <= idx < pending.len()
    &&& pending[idx].0 == number
    &&& pending[idx].1 matches Some(known) && known@ == hash
}

impl TryFinalize {
    /// What is needed next.
    pub open spec fn wants(self) -> TryFinalizeAction {
        match self.stage {
            TryFinalizeStage::NonFinalizedBlocks => TryFinalizeAction::NonFinalizedBlocks,
            TryFinalizeStage::LastFinalizedBlock => TryFinalizeAction::LastFinalizedBlock,
            TryFinalizeStage::Hash { current, .. } => TryFinalizeAction::Hash(current),
            TryFinalizeStage::Finalize { current, .. } => TryFinalizeAction::Finalize(current),
            TryFinalizeStage::Purge { current } => TryFinalizeAction::PurgePending(
                (current - 1) as u32,
            ),
            TryFinalizeStage::Done(_) => TryFinalizeAction::Return,
        }
    }

    /// Numbers that finalizing holds are in their bounds.
    pub open spec fn wf(self) -> bool {
        match self.stage {
            TryFinalizeStage::Hash { idx, current } => current > 0 && idx <= self.pending@.len(),
            TryFinalizeStage::Finalize { idx, current } => current > 0 && idx < self.pending@.len(),
            TryFinalizeStage::Purge { current } => current > 0,
            _ => true,
        }
    }

    /// Whether `event` answers what is needed. There has to be a block after the last
    /// finalized one, the client has to know the hash of every finalized block, and the store
    /// the hash of every pending one.
    pub open spec fn accepts(self, event: TryFinalizeEvent) -> bool {
        match (self.stage, event) {
            (
                TryFinalizeStage::NonFinalizedBlocks,
                TryFinalizeEvent::NonFinalizedBlocks(_),
            ) => true,
            (
                TryFinalizeStage::LastFinalizedBlock,
                TryFinalizeEvent::LastFinalizedBlock(answer),
            ) => match answer {
                Ok(last) => last < u32::MAX,
                Err(_) => true,
            },
            (TryFinalizeStage::Hash { idx, current }, TryFinalizeEvent::Hash(answer)) => match answer {
                Ok(hash) => hash is Some && (idx < self.pending@.len() && self.pending@[idx as int].0
                    == current ==> self.pending@[idx as int].1 is Some),
                Err(_) => true,
            },
            (TryFinalizeStage::Finalize { current, .. }, TryFinalizeEvent::Finalized(answer)) => answer
                is Err || current < u32::MAX,
            (TryFinalizeStage::Purge { .. }, TryFinalizeEvent::Purged(_)) => true,
            _ => false,
        }
    }

    /// The stage at which the block `current` is looked at: its hash is asked for, unless all
    /// blocks are done.
    pub open spec fn at(idx: int, current: int, end: u32) -> TryFinalizeStage {
        if current > end {
            TryFinalizeStage::Done(Ok(None))
        } else {
            TryFinalizeStage::Hash { idx: idx as usize, current: current as u32 }
        }
    }

    /// What is left to do after an answer that is accepted.
    ///
    /// The blocks after the last finalized one are looked at in order. A block that is
    /// pending under its hash is finalized. The first that is not ends it; if there are
    /// pending blocks left, they are dropped first.
    pub open spec fn after(self, event: TryFinalizeEvent) -> TryFinalize {
        match event {
            TryFinalizeEvent::NonFinalizedBlocks(Ok(pending)) => TryFinalize {
                pending,
                stage: TryFinalizeStage::LastFinalizedBlock,
                ..self
            },
            TryFinalizeEvent::LastFinalizedBlock(Ok(last)) => TryFinalize {
                stage: TryFinalize::at(0, last + 1, self.end),
                ..self
            },
            TryFinalizeEvent::Hash(Ok(hash)) => {
                let idx = self.stage->Hash_idx;
                let current = self.stage->Hash_current;
                TryFinalize {
                    stage: if is_pending(self.pending@, idx as int, current as int, hash->0@) {
                        TryFinalizeStage::Finalize { idx, current }
                    } else if idx < self.pending@.len() {
                        TryFinalizeStage::Purge { current }
                    } else {
                        TryFinalizeStage::Done(Ok(Some(current)))
                    },
                    ..self
                }
            },
            TryFinalizeEvent::Finalized(Ok(_)) => TryFinalize {
                stage: TryFinalize::at(
                    self.stage->Finalize_idx + 1,
                    self.stage->Finalize_current + 1,
                    self.end,
                ),
                ..self
            },
            TryFinalizeEvent::Purged(Ok(_)) => TryFinalize {
                stage: TryFinalizeStage::Done(Ok(Some(self.stage->Purge_current))),
                ..self
            },
            TryFinalizeEvent::Hash(Err(text)) => TryFinalize {
                stage: TryFinalizeStage::Done(Err(Error::Client(text))),
                ..self
            },
            TryFinalizeEvent::NonFinalizedBlocks(Err(text))
            | TryFinalizeEvent::LastFinalizedBlock(Err(text)) | TryFinalizeEvent::Finalized(Err(text))
            | TryFinalizeEvent::Purged(Err(text)) => TryFinalize {
                stage: TryFinalizeStage::Done(Err(Error::Sqlite(text))),
                ..self
            },
        }
    }

    /// Whether this is the beginning of finalizing up to `end`: nothing is known yet.
    pub open spec fn is_begun(self, end: u32) -> bool {
        &&& self.end == end
        &&& self.pending@.len() == 0
        &&& self.stage == TryFinalizeStage::NonFinalizedBlocks
    }

    /// Begins to finalize the pending blocks up to `end`.
    pub fn begin(end: u32) -> (finalizing: TryFinalize)
        ensures
            finalizing.is_begun(end),
            finalizing.end == end,
            finalizing.pending@.len() == 0,
            finalizing.stage == TryFinalizeStage::NonFinalizedBlocks,
    {
        TryFinalize { pending: Vec::new(), end, stage: TryFinalizeStage::NonFinalizedBlocks }
    }

    /// What is needed next.
    pub fn action(&self) -> (action: TryFinalizeAction)
        requires
            self.wf(),
        ensures
            action == self.wants(),
    {
        match &self.stage {
            TryFinalizeStage::NonFinalizedBlocks => TryFinalizeAction::NonFinalizedBlocks,
            TryFinalizeStage::LastFinalizedBlock => TryFinalizeAction::LastFinalizedBlock,
            TryFinalizeStage::Hash { current, .. } => TryFinalizeAction::Hash(*current),
            TryFinalizeStage::Finalize { current, .. } => TryFinalizeAction::Finalize(*current),
            TryFinalizeStage::Purge { current } => TryFinalizeAction::PurgePending(*current - 1),
            TryFinalizeStage::Done(_) => TryFinalizeAction::Return,
        }
    }

    /// Whether `event` can be taken.
    pub fn can_take(&self, event: &TryFinalizeEvent) -> (yes: bool)
        ensures
            yes == self.accepts(*event),
    {
        match (&self.stage, event) {
            (
                TryFinalizeStage::NonFinalizedBlocks,
                TryFinalizeEvent::NonFinalizedBlocks(_),
            ) => true,
            (
                TryFinalizeStage::LastFinalizedBlock,
                TryFinalizeEvent::LastFinalizedBlock(answer),
            ) => match answer {
                Ok(last) => *last < u32::MAX,
                Err(_) => true,
            },
            (TryFinalizeStage::Hash { idx, current }, TryFinalizeEvent::Hash(answer)) => match answer {
                Ok(hash) => hash.is_some() && (*idx >= self.pending.len() || self.pending[*idx].0
                    != *current || self.pending[*idx].1.is_some()),
                Err(_) => true,
            },
            (
                TryFinalizeStage::Finalize { current, .. },
                TryFinalizeEvent::Finalized(answer),
            ) => answer.is_err() || *current < u32::MAX,
            (TryFinalizeStage::Purge { .. }, TryFinalizeEvent::Purged(_)) => true,
            _ => false,
        }
    }

    /// Takes an answer.
    pub fn step(self, event: TryFinalizeEvent) -> (finalizing: TryFinalize)
        requires
            self.wf(),
            self.accepts(event),
        ensures
            finalizing == self.after(event),
            finalizing.wf(),
    {
        let TryFinalize { pending, end, stage } = self;
        match (stage, event) {
            (_, TryFinalizeEvent::NonFinalizedBlocks(answer)) => match answer {
                Ok(pending) => TryFinalize {
                    pending,
                    end,
                    stage: TryFinalizeStage::LastFinalizedBlock,
                },
                Err(text) => TryFinalize {
                    pending,
                    end,
                    stage: TryFinalizeStage::Done(Err(Error::Sqlite(text))),
                },
            },
            (_, TryFinalizeEvent::LastFinalizedBlock(answer)) => {
                let stage = match answer {
                    Ok(last) => if last + 1 > end {
                        TryFinalizeStage::Done(Ok(None))
                    } else {
                        TryFinalizeStage::Hash { idx: 0, current: last + 1 }
                    },
                    Err(text) => TryFinalizeStage::Done(Err(Error::Sqlite(text))),
                };
                TryFinalize { pending, end, stage }
            },
            (TryFinalizeStage::Hash { idx, current }, TryFinalizeEvent::Hash(answer)) => {
                let stage = match answer {
                    Ok(hash) => if idx >= pending.len() {
                        TryFinalizeStage::Done(Ok(Some(current)))
                    } else if pending[idx].0 != current {
                        TryFinalizeStage::Purge { current }
                    } else {
                        match (&pending[idx].1, &hash) {
                            (Some(known), Some(hash)) => if same_bytes(known, hash) {
                                TryFinalizeStage::Finalize { idx, current }
                            } else {
                                TryFinalizeStage::Purge { current }
                            },
                            _ => TryFinalizeStage::Purge { current },
                        }
                    },
                    Err(text) => TryFinalizeStage::Done(Err(Error::Client(text))),
                };
                TryFinalize { pending, end, stage }
            },
            (
                TryFinalizeStage::Finalize { idx, current },
                TryFinalizeEvent::Finalized(answer),
            ) => {
                let stage = match answer {
                    Ok(_) => if current + 1 > end {
                        TryFinalizeStage::Done(Ok(None))
                    } else {
                        // A vector's length, and so the place after `idx`, fits in `usize`.
                        assert(idx < pending.len());
                        TryFinalizeStage::Hash { idx: idx + 1, current: current + 1 }
                    },
                    Err(text) => TryFinalizeStage::Done(Err(Error::Sqlite(text))),
                };
                TryFinalize { pending, end, stage }
            },
            (TryFinalizeStage::Purge { current }, TryFinalizeEvent::Purged(answer)) => {
                let stage = match answer {
                    Ok(_) => TryFinalizeStage::Done(Ok(Some(current))),
                    Err(text) => TryFinalizeStage::Done(Err(Error::Sqlite(text))),
                };
                TryFinalize { pending, end, stage }
            },
            (stage, _) => TryFinalize { pending, end, stage },
        }
    }

    /// What came of it, once it is over: the first block that could not be finalized, if
    /// there is one.
    pub fn outcome(self) -> (result: Option<Result<Option<u32>, Error>>)
        ensures
            result == (match self.stage {
                TryFinalizeStage::Done(result) => Some(result),
                _ => None,
            }),
    {
        match self.stage {
            TryFinalizeStage::Done(result) => Some(result),
            _ => None,
        }
    }
}

/// Whether two byte strings are the same.
fn same_bytes(a: &Vec<u8>, b: &Vec<u8>) -> (same: bool)
    ensures
        same == (a@ == b@),
{
    if a.len() != b.len() {
        return false;
    }
    let mut i: usize = 0;
    while i < a.len()
        invariant
            i <= a.len(),
            a.len() == b.len(),
            forall|j: int| 0 <= j < i ==> a@[j] == b@[j],
        decreases a.len() - i,
    {
        if a[i] != b[i] {
            return false;
        }
        i = i + 1;
    }
    proof {
        assert(a@ =~= b@);
    }
    true
}

/// Finalizing, from where it has begun, after it has taken the answers of `trace`, one after the other.
pub open spec fn finalize_run(begun: TryFinalize, trace: Seq<TryFinalizeEvent>) -> TryFinalize
    decreases trace.len(),
{
    if trace.len() == 0 {
        begun
    } else {
        finalize_run(begun, trace.drop_last()).after(trace.last())
    }
}

/// Whether each answer of `trace` comes when it can be taken.
pub open spec fn finalize_accepts(begun: TryFinalize, trace: Seq<TryFinalizeEvent>) -> bool
    decreases trace.len(),
{
    trace.len() == 0 || (finalize_accepts(begun, trace.drop_last()) && finalize_run(begun,
        trace.drop_last(),
    ).accepts(trace.last()))
}

/// Whether the client's answers in `trace` are the hashes that `chain` has for the blocks that
/// it was asked about.
pub open spec fn hashes_from(
    chain: spec_fn(int) -> Seq<u8>,
    begun: TryFinalize,
    trace: Seq<TryFinalizeEvent>,
) -> bool
    decreases trace.len(),
{
    trace.len() == 0 || (hashes_from(chain, begun, trace.drop_last()) && match trace.last() {
        TryFinalizeEvent::Hash(Ok(Some(hash))) => hash@ == chain(
            finalize_run(begun, trace.drop_last()).wants()->Hash_0 as int,
        ),
        _ => true,
    })
}

/// The pending blocks that the store listed, once it has done so.
pub open spec fn listed_in(trace: Seq<TryFinalizeEvent>) -> Option<Seq<PendingBlock>>
    decreases trace.len(),
{
    if trace.len() == 0 {
        None
    } else {
        match trace.last() {
            TryFinalizeEvent::NonFinalizedBlocks(Ok(pending)) => Some(pending@),
            _ => listed_in(trace.drop_last()),
        }
    }
}

/// The last block that the store had finalized before, once it has said so.
pub open spec fn last_before(trace: Seq<TryFinalizeEvent>) -> Option<u32>
    decreases trace.len(),
{
    if trace.len() == 0 {
        None
    } else {
        match trace.last() {
            TryFinalizeEvent::LastFinalizedBlock(Ok(last)) => Some(last),
            _ => last_before(trace.drop_last()),
        }
    }
}

/// The blocks that the store finalized in the course of `trace`.
pub open spec fn finalized_in(begun: TryFinalize, trace: Seq<TryFinalizeEvent>) -> Seq<u32>
    decreases trace.len(),
{
    if trace.len() == 0 {
        Seq::empty()
    } else {
        match trace.last() {
            TryFinalizeEvent::Finalized(Ok(_)) => finalized_in(begun, trace.drop_last()).push(
                finalize_run(begun, trace.drop_last()).wants()->Finalize_0,
            ),
            _ => finalized_in(begun, trace.drop_last()),
        }
    }
}

/// The blocks above which the store dropped what was pending, in the course of `trace`.
pub open spec fn purged_in(begun: TryFinalize, trace: Seq<TryFinalizeEvent>) -> Seq<u32>
    decreases trace.len(),
{
    if trace.len() == 0 {
        Seq::empty()
    } else {
        match trace.last() {
            TryFinalizeEvent::Purged(Ok(_)) => purged_in(begun, trace.drop_last()).push(
                finalize_run(begun, trace.drop_last()).wants()->PurgePending_0,
            ),
            _ => purged_in(begun, trace.drop_last()),
        }
    }
}

/// Whether the pending block at `idx` is the block `number` of `chain`.
pub open spec fn agrees(
    pending: Seq<PendingBlock>,
    chain: spec_fn(int) -> Seq<u8>,
    idx: int,
    number: int,
) -> bool {
    is_pending(pending, idx, number, chain(number))
}

/// Whether `blocks` are the blocks from `start` on, in order, and each of them is pending in
/// its place.
pub open spec fn all_agree(
    pending: Seq<PendingBlock>,
    chain: spec_fn(int) -> Seq<u8>,
    start: int,
    blocks: Seq<u32>,
) -> bool {
    forall|i: int|
        0 <= i < blocks.len() ==> (#[trigger] blocks[i]) == start + i && agrees(
            pending,
            chain,
            i,
            start + i,
        )
}

/// The first block from `current` to `end` that is not pending under its hash, where the
/// pending block at `idx` should be `current`, the next one the block after it, and so on.
pub open spec fn first_unmatched(
    pending: Seq<PendingBlock>,
    chain: spec_fn(int) -> Seq<u8>,
    idx: int,
    current: int,
    end: int,
) -> Option<int>
    decreases end + 1 - current,
{
    if current > end {
        None
    } else if agrees(pending, chain, idx, current) {
        first_unmatched(pending, chain, idx + 1, current + 1, end)
    } else {
        Some(current)
    }
}

/// What is true of finalizing in the course of `trace`.
spec fn finalize_invariant(
    chain: spec_fn(int) -> Seq<u8>,
    begun: TryFinalize,
    trace: Seq<TryFinalizeEvent>,
) -> bool {
    let state = finalize_run(begun, trace);
    let done = finalized_in(begun, trace);
    let purged = purged_in(begun, trace);
    let start = last_before(trace)->0 + 1;
    let pending = state.pending@;
    let unmatched = first_unmatched(pending, chain, 0, start, begun.end as int);
    &&& state.wf()
    &&& state.end == begun.end
    &&& last_before(trace) is None ==> done.len() == 0
    &&& last_before(trace) is Some ==> listed_in(trace) is Some
    &&& listed_in(trace) matches Some(listed) ==> pending == listed
    &&& all_agree(pending, chain, start, done)
    &&& match state.stage {
        TryFinalizeStage::NonFinalizedBlocks => {
            &&& listed_in(trace) is None
            &&& last_before(trace) is None
            &&& purged.len() == 0
        },
        TryFinalizeStage::LastFinalizedBlock => {
            &&& listed_in(trace) is Some
            &&& last_before(trace) is None
            &&& purged.len() == 0
        },
        TryFinalizeStage::Hash { idx, current } => {
            &&& last_before(trace) is Some
            &&& purged.len() == 0
            &&& idx == done.len()
            &&& current == start + idx
            &&& current <= begun.end
            &&& unmatched == first_unmatched(pending, chain, idx as int, current as int, begun.end as int)
        },
        TryFinalizeStage::Finalize { idx, current } => {
            &&& last_before(trace) is Some
            &&& purged.len() == 0
            &&& idx == done.len()
            &&& current == start + idx
            &&& current <= begun.end
            &&& agrees(pending, chain, idx as int, current as int)
            &&& unmatched == first_unmatched(
                pending,
                chain,
                idx + 1,
                current + 1,
                begun.end as int,
            )
        },
        TryFinalizeStage::Purge { current } => {
            &&& last_before(trace) is Some
            &&& purged.len() == 0
            &&& current == start + done.len()
            &&& current <= begun.end
            &&& done.len() < pending.len()
            &&& unmatched == Some(current as int)
        },
        TryFinalizeStage::Done(Ok(None)) => {
            &&& last_before(trace) is Some
            &&& purged.len() == 0
            &&& unmatched == None::<int>
            &&& done.len() == (if start <= begun.end {
                begun.end + 1 - start
            } else {
                0
            })
        },
        TryFinalizeStage::Done(Ok(Some(block))) => {
            &&& last_before(trace) is Some
            &&& block == start + done.len()
            &&& block <= begun.end
            &&& unmatched == Some(block as int)
            &&& purged == if done.len() < pending.len() {
                seq![(block - 1) as u32]
            } else {
                Seq::empty()
            }
        },
        TryFinalizeStage::Done(Err(_)) => purged.len() == 0,
    }
}

proof fn lemma_finalize_invariant(
    chain: spec_fn(int) -> Seq<u8>,
    begun: TryFinalize,
    trace: Seq<TryFinalizeEvent>,
)
    requires
        begun.is_begun(begun.end),
        finalize_accepts(begun, trace),
        hashes_from(chain, begun, trace),
    ensures
        finalize_invariant(chain, begun, trace),
    decreases trace.len(),
{
    if trace.len() > 0 {
        let before = finalized_in(begun, trace.drop_last());
        let done = finalized_in(begun, trace);
        let pending = finalize_run(begun, trace).pending@;
        let start = last_before(trace)->0 + 1;
        lemma_finalize_invariant(chain, begun, trace.drop_last());
        assert forall|i: int| 0 <= i < done.len() implies (#[trigger] done[i]) == start + i
            && agrees(pending, chain, i, start + i) by {
            if i < before.len() {
                assert(done[i] == before[i]);
            }
        }
        assert(purged_in(begun, trace.drop_last()).len() == 0 ==> purged_in(
            begun,
            trace.drop_last(),
        ) =~= Seq::empty());
    }
}

/// What is held as pending is what the store listed, from when it has done so to the end.
pub proof fn law_finalize_holds_what_was_listed(begun: TryFinalize, trace: Seq<TryFinalizeEvent>)
    requires
        begun.is_begun(begun.end),
        finalize_accepts(begun, trace),
    ensures
        listed_in(trace) matches Some(listed) ==> finalize_run(begun, trace).pending@ == listed,
        listed_in(trace) is None ==> finalize_run(begun, trace).stage is NonFinalizedBlocks
            || finalize_run(begun, trace).stage is Done,
    decreases trace.len(),
{
    if trace.len() > 0 {
        law_finalize_holds_what_was_listed(begun, trace.drop_last());
    }
}

/// Finalizing answers the first block after the last finalized one, up to the end, that the
/// store has not listed as pending under the hash that the chain has for it, and `None` where
/// there is no such block.
pub proof fn law_finalize_stops_at_the_first_unmatched_block(
    chain: spec_fn(int) -> Seq<u8>,
    begun: TryFinalize,
    trace: Seq<TryFinalizeEvent>,
)
    requires
        begun.is_begun(begun.end),
        finalize_accepts(begun, trace),
        hashes_from(chain, begun, trace),
    ensures
        finalize_run(begun, trace).stage matches TryFinalizeStage::Done(Ok(answer)) ==> {
            &&& last_before(trace) is Some
            &&& listed_in(trace) is Some
            &&& first_unmatched(
                listed_in(trace)->0,
                chain,
                0,
                last_before(trace)->0 + 1,
                begun.end as int,
            ) == match answer {
                Some(block) => Some(block as int),
                None => None,
            }
        },
{
    lemma_finalize_invariant(chain, begun, trace);
}

/// The store is told to finalize the blocks after the last finalized one, in order and each
/// once, and only blocks that it has listed as pending under the hash that the chain has for
/// them. At the end it has finalized every block before the one that is answered, or all of them.
pub proof fn law_finalize_finalizes_what_matches(
    chain: spec_fn(int) -> Seq<u8>,
    begun: TryFinalize,
    trace: Seq<TryFinalizeEvent>,
)
    requires
        begun.is_begun(begun.end),
        finalize_accepts(begun, trace),
        hashes_from(chain, begun, trace),
    ensures
        ({
            let done = finalized_in(begun, trace);
            let last = last_before(trace)->0;
            &&& done.len() > 0 ==> last_before(trace) is Some && listed_in(trace) is Some
            &&& all_agree(listed_in(trace)->0, chain, last + 1, done)
            &&& finalize_run(begun, trace).stage matches TryFinalizeStage::Done(Ok(Some(block)))
                ==> last + done.len() == block - 1 && block <= begun.end
            &&& finalize_run(begun, trace).stage matches TryFinalizeStage::Done(Ok(None))
                ==> done.len() == if last < begun.end {
                begun.end - last
            } else {
                0
            }
        }),
{
    lemma_finalize_invariant(chain, begun, trace);
}

/// Pending blocks are dropped at most once: when a block does not match what is pending, and
/// then everything above the last finalized block goes. Where all pending blocks have been
/// finalized, or there is no block left to finalize, nothing is dropped.
pub proof fn law_finalize_purges_at_a_mismatch(
    chain: spec_fn(int) -> Seq<u8>,
    begun: TryFinalize,
    trace: Seq<TryFinalizeEvent>,
)
    requires
        begun.is_begun(begun.end),
        finalize_accepts(begun, trace),
        hashes_from(chain, begun, trace),
    ensures
        purged_in(begun, trace).len() <= 1,
        finalize_run(begun, trace).stage matches TryFinalizeStage::Done(Ok(answer)) ==> {
            let done = finalized_in(begun, trace);
            &&& listed_in(trace) is Some
            &&& purged_in(begun, trace) == if answer is Some && done.len() < listed_in(
                trace,
            )->0.len() {
                seq![(last_before(trace)->0 + done.len()) as u32]
            } else {
                Seq::empty()
            }
        },
{
    lemma_finalize_invariant(chain, begun, trace);
}

/// Where finalizing stands in the course of `trace`: as many pending blocks have been passed
/// as blocks have been finalized, and the block that is looked at is the next one.
spec fn finalize_position(begun: TryFinalize, trace: Seq<TryFinalizeEvent>) -> bool {
    let state = finalize_run(begun, trace);
    let passed = finalized_in(begun, trace).len();
    let next = last_before(trace)->0 + 1 + passed;
    &&& state.end == begun.end
    &&& listed_in(trace) matches Some(listed) ==> state.pending@ == listed
    &&& match state.stage {
        TryFinalizeStage::NonFinalizedBlocks => listed_in(trace) is None && passed == 0
            && last_before(trace) is None,
        TryFinalizeStage::LastFinalizedBlock => listed_in(trace) is Some && passed == 0
            && last_before(trace) is None,
        TryFinalizeStage::Hash { idx, current } => {
            &&& listed_in(trace) is Some && last_before(trace) is Some
            &&& idx == passed && idx <= state.pending@.len()
            &&& current == next <= begun.end
        },
        TryFinalizeStage::Finalize { idx, current } => {
            &&& listed_in(trace) is Some && last_before(trace) is Some
            &&& idx == passed && idx < state.pending@.len()
            &&& current == next <= begun.end
        },
        TryFinalizeStage::Purge { current } => {
            &&& listed_in(trace) is Some && last_before(trace) is Some
            &&& passed < state.pending@.len()
            &&& current == next <= begun.end
        },
        TryFinalizeStage::Done(_) => true,
    }
}

proof fn lemma_finalize_position(begun: TryFinalize, trace: Seq<TryFinalizeEvent>)
    requires
        begun.is_begun(begun.end),
        finalize_accepts(begun, trace),
    ensures
        finalize_position(begun, trace),
    decreases trace.len(),
{
    if trace.len() > 0 {
        lemma_finalize_position(begun, trace.drop_last());
    }
}

/// What is asked next, told from the answers alone. First the store is asked for its pending
/// blocks, then for its last finalized block. The client is asked about the blocks after that
/// one, each in its turn: the `n`-th block after the `n` that have been finalized. Its hash is
/// held against the pending block at place `n` of the store's list. If that is the same block
/// with the same hash, the block is finalized, and the next one is asked about unless the end
/// is reached. If it is not, what is pending above the block before is dropped; if the list
/// has no place `n`, nothing is. Either way the block is the answer. A failure of the store or
/// of the client ends it with the error of the one that failed.
pub proof fn law_finalize_asks_in_order(begun: TryFinalize, trace: Seq<TryFinalizeEvent>)
    requires
        begun.is_begun(begun.end),
        finalize_accepts(begun, trace),
    ensures
        ({
            let now = finalize_run(begun, trace);
            let asked = finalize_run(begun, trace.drop_last()).wants();
            let passed = finalized_in(begun, trace.drop_last()).len();
            let block = last_before(trace)->0 + 1 + passed;
            let listed = listed_in(trace)->0;
            &&& now.wants() == TryFinalizeAction::Return <==> now.stage is Done
            &&& trace.len() == 0 ==> now.wants() == TryFinalizeAction::NonFinalizedBlocks
            &&& trace.len() > 0 ==> match trace.last() {
                TryFinalizeEvent::NonFinalizedBlocks(Ok(_)) => now.wants()
                    == TryFinalizeAction::LastFinalizedBlock,
                TryFinalizeEvent::LastFinalizedBlock(Ok(last)) => if last < begun.end {
                    now.wants() == TryFinalizeAction::Hash((last + 1) as u32)
                } else {
                    now.stage == TryFinalizeStage::Done(Ok(None))
                },
                TryFinalizeEvent::Hash(Ok(hash)) => {
                    &&& last_before(trace) is Some && listed_in(trace) is Some
                    &&& block <= begun.end
                    &&& asked == TryFinalizeAction::Hash(block as u32)
                    &&& if passed >= listed.len() {
                        now.stage == TryFinalizeStage::Done(Ok(Some(block as u32)))
                    } else if listed[passed as int].0 == block && listed[passed as int].1->0@
                        == hash->0@ {
                        now.wants() == TryFinalizeAction::Finalize(block as u32)
                    } else {
                        now.wants() == TryFinalizeAction::PurgePending((block - 1) as u32)
                    }
                },
                TryFinalizeEvent::Finalized(Ok(_)) => {
                    &&& last_before(trace) is Some
                    &&& asked == TryFinalizeAction::Finalize(block as u32)
                    &&& if block < begun.end {
                        now.wants() == TryFinalizeAction::Hash((block + 1) as u32)
                    } else {
                        now.stage == TryFinalizeStage::Done(Ok(None))
                    }
                },
                TryFinalizeEvent::Purged(Ok(_)) => {
                    &&& last_before(trace) is Some
                    &&& asked == TryFinalizeAction::PurgePending((block - 1) as u32)
                    &&& now.stage == TryFinalizeStage::Done(Ok(Some(block as u32)))
                },
                TryFinalizeEvent::Hash(Err(text)) => now.stage == TryFinalizeStage::Done(
                    Err(Error::Client(text)),
                ),
                TryFinalizeEvent::NonFinalizedBlocks(Err(text))
                | TryFinalizeEvent::LastFinalizedBlock(Err(text))
                | TryFinalizeEvent::Finalized(Err(text))
                | TryFinalizeEvent::Purged(Err(text)) => now.stage == TryFinalizeStage::Done(
                    Err(Error::Sqlite(text)),
                ),
            }
        }),
{
    lemma_finalize_position(begun, trace);
    if trace.len() > 0 {
        lemma_finalize_position(begun, trace.drop_last());
    }
}

/// Every answer to what was asked can be taken, but for three: a last finalized block, or a
/// finalized block, that no block number follows; a block without a hash; and a hash to be
/// held against a pending block that has none.
pub proof fn law_finalize_takes_every_answer(
    begun: TryFinalize,
    trace: Seq<TryFinalizeEvent>,
    event: TryFinalizeEvent,
)
    requires
        begun.is_begun(begun.end),
        finalize_accepts(begun, trace),
    ensures
        ({
            let now = finalize_run(begun, trace);
            let passed = finalized_in(begun, trace).len() as int;
            let listed = listed_in(trace)->0;
            now.accepts(event) <==> match (now.wants(), event) {
                (
                    TryFinalizeAction::NonFinalizedBlocks,
                    TryFinalizeEvent::NonFinalizedBlocks(_),
                ) => true,
                (
                    TryFinalizeAction::LastFinalizedBlock,
                    TryFinalizeEvent::LastFinalizedBlock(answer),
                ) => answer matches Ok(last) ==> last < u32::MAX,
                (TryFinalizeAction::Hash(block), TryFinalizeEvent::Hash(answer)) => answer matches Ok(
                    hash,
                ) ==> hash is Some && !(passed < listed.len() && listed[passed].0 == block
                    && listed[passed].1 is None),
                (TryFinalizeAction::Finalize(block), TryFinalizeEvent::Finalized(answer)) => answer
                    is Ok ==> block < u32::MAX,
                (TryFinalizeAction::PurgePending(_), TryFinalizeEvent::Purged(_)) => true,
                _ => false,
            }
        }),
{
    lemma_finalize_position(begun, trace);
}

} // verus!
