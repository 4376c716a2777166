//! Walking a range of blocks, one after the other, each under the metadata of its runtime.
//!
//! A [`RangeWalk`] says what it needs next ([`RangeWalk::action`]); its driver does that and
//! hands the answer back ([`RangeWalk::step`]). The same walk serves finalized and pending
//! blocks: only how a block is handled differs, and the driver does the handling.

use vstd::prelude::*;

use crate::harvester::Error;

verus! {

/// The pause between two blocks, in milliseconds: roughly ten blocks per second.
pub const PROCESSING_PACE_MILLIS: u64 = 100;

/// What a walk needs next.
#[derive(Clone, Copy, Debug, PartialEq, Eq, Structural)]
pub enum RangeAction {
    /// Wait for so many milliseconds.
    Pause(u64),
    /// Ask for the runtime version at a block.
    RuntimeVersionAt(u64),
    /// Ask for the metadata at a block.
    MetadataAt(u64),
    /// Handle a block.
    Handle(u64),
    /// Nothing: the walk is over.
    Return,
}

/// The answer to an action of a walk. `M` is metadata; a text describes a client's error.
#[derive(Debug)]
pub enum RangeEvent<M> {
    Paused,
    /// The number of the specification that the runtime follows.
    RuntimeVersion(Result<u32, String>),
    Metadata(Result<M, String>),
    /// Whether the block was handled.
    Handled(bool),
}

/// Where a walk stands at its current block.
#[derive(Debug)]
pub enum RangeStage {
    Pause(u64),
    Version,
    /// The runtime has changed to this specification; its metadata is missing.
    Metadata(u32),
    Handle,
    /// The last block that was handled, or why the walk broke off.
    Done(Result<u64, Error>),
}

/// A walk through the blocks up to `end`. It stands at `next`. Its runtime follows
/// `spec_version`. `fresh` is the metadata that it has asked for, if it had to: until then
/// the metadata that its driver started with is in force.
#[derive(Debug)]
pub struct RangeWalk<M> {
    pub next: u64,
    pub end: u64,
    pub spec_version: u32,
    pub fresh: Option<M>,
    pub stage: RangeStage,
}

impl<M> RangeWalk<M> {
    /// What the walk needs next.
    pub open spec fn wants(self) -> RangeAction {
        match self.stage {
            RangeStage::Pause(millis) => RangeAction::Pause(millis),
            RangeStage::Version => RangeAction::RuntimeVersionAt(self.next),
            RangeStage::Metadata(_) => RangeAction::MetadataAt(self.next),
            RangeStage::Handle => RangeAction::Handle(self.next),
            RangeStage::Done(_) => RangeAction::Return,
        }
    }

    /// Whether `event` answers what the walk needs, and the number of the next block to
    /// speak of is a block number.
    pub open spec fn accepts(self, event: RangeEvent<M>) -> bool {
        match event {
            RangeEvent::Paused => self.stage is Pause,
            RangeEvent::RuntimeVersion(_) => self.stage is Version,
            RangeEvent::Metadata(_) => self.stage is Metadata,
            RangeEvent::Handled(true) => self.stage is Handle && self.next < u64::MAX,
            RangeEvent::Handled(false) => self.stage is Handle && self.next > 0,
        }
    }

    /// The walk after an answer.
    ///
    /// A runtime that follows the same specification as before keeps its metadata; one that
    /// follows another gets metadata of its own. A block that was handled makes way for the
    /// next one, until the last has been handled. A block that could not be handled ends the
    /// walk at the block before it.
    pub open spec fn after(self, event: RangeEvent<M>) -> RangeWalk<M> {
        match event {
            RangeEvent::Paused => RangeWalk { stage: RangeStage::Version, ..self },
            RangeEvent::RuntimeVersion(Ok(version)) => if version == self.spec_version {
                RangeWalk { stage: RangeStage::Handle, ..self }
            } else {
                RangeWalk { stage: RangeStage::Metadata(version), ..self }
            },
            RangeEvent::Metadata(Ok(metadata)) => RangeWalk {
                spec_version: self.stage->Metadata_0,
                fresh: Some(metadata),
                stage: RangeStage::Handle,
                ..self
            },
            RangeEvent::RuntimeVersion(Err(text)) | RangeEvent::Metadata(Err(text)) => RangeWalk {
                stage: RangeStage::Done(Err(Error::Client(text))),
                ..self
            },
            RangeEvent::Handled(true) => RangeWalk {
                next: (self.next + 1) as u64,
                stage: if self.next + 1 > self.end {
                    RangeStage::Done(Ok(self.end))
                } else {
                    RangeStage::Pause(PROCESSING_PACE_MILLIS)
                },
                ..self
            },
            RangeEvent::Handled(false) => RangeWalk {
                stage: RangeStage::Done(Ok((self.next - 1) as u64)),
                ..self
            },
        }
    }

    /// A walk from `start` to `end`, which begins without a pause, under a runtime that
    /// follows `spec_version`.
    pub open spec fn begun(start: u64, end: u64, spec_version: u32) -> RangeWalk<M> {
        RangeWalk { next: start, end, spec_version, fresh: None, stage: RangeStage::Pause(0) }
    }

    /// Begins a walk from `start` to `end`.
    pub fn begin(start: u64, end: u64, spec_version: u32) -> (walk: RangeWalk<M>)
        ensures
            walk == RangeWalk::<M>::begun(start, end, spec_version),
    {
        RangeWalk { next: start, end, spec_version, fresh: None, stage: RangeStage::Pause(0) }
    }

    /// What the walk needs next.
    pub fn action(&self) -> (action: RangeAction)
        ensures
            action == self.wants(),
    {
        match &self.stage {
            RangeStage::Pause(millis) => RangeAction::Pause(*millis),
            RangeStage::Version => RangeAction::RuntimeVersionAt(self.next),
            RangeStage::Metadata(_) => RangeAction::MetadataAt(self.next),
            RangeStage::Handle => RangeAction::Handle(self.next),
            RangeStage::Done(_) => RangeAction::Return,
        }
    }

    /// Whether the walk can take `event`.
    pub fn can_take(&self, event: &RangeEvent<M>) -> (yes: bool)
        ensures
            yes == self.accepts(*event),
    {
        match (&self.stage, event) {
            (RangeStage::Pause(_), RangeEvent::Paused) => true,
            (RangeStage::Version, RangeEvent::RuntimeVersion(_)) => true,
            (RangeStage::Metadata(_), RangeEvent::Metadata(_)) => true,
            (RangeStage::Handle, RangeEvent::Handled(handled)) => if *handled {
                self.next < u64::MAX
            } else {
                self.next > 0
            },
            _ => false,
        }
    }

    /// Takes an answer.
    pub fn step(self, event: RangeEvent<M>) -> (walk: RangeWalk<M>)
        requires
            self.accepts(event),
        ensures
            walk == self.after(event),
    {
        let RangeWalk { next, end, spec_version, fresh, stage } = self;
        match event {
            RangeEvent::Paused => RangeWalk {
                next,
                end,
                spec_version,
                fresh,
                stage: RangeStage::Version,
            },
            RangeEvent::RuntimeVersion(Ok(version)) => {
                let stage = if version != spec_version {
                    RangeStage::Metadata(version)
                } else {
                    RangeStage::Handle
                };
                RangeWalk { next, end, spec_version, fresh, stage }
            },
            RangeEvent::RuntimeVersion(Err(text)) | RangeEvent::Metadata(Err(text)) => RangeWalk {
                next,
                end,
                spec_version,
                fresh,
                stage: RangeStage::Done(Err(Error::Client(text))),
            },
            RangeEvent::Metadata(Ok(metadata)) => {
                let spec_version = match stage {
                    RangeStage::Metadata(version) => version,
                    _ => spec_version,
                };
                RangeWalk {
                    next,
                    end,
                    spec_version,
                    fresh: Some(metadata),
                    stage: RangeStage::Handle,
                }
            },
            RangeEvent::Handled(handled) => if handled {
                let stage = if next + 1 > end {
                    RangeStage::Done(Ok(end))
                } else {
                    RangeStage::Pause(PROCESSING_PACE_MILLIS)
                };
                RangeWalk { next: next + 1, end, spec_version, fresh, stage }
            } else {
                RangeWalk {
                    next,
                    end,
                    spec_version,
                    fresh,
                    stage: RangeStage::Done(Ok(next - 1)),
                }
            },
        }
    }

    /// What came of the walk, once it is over.
    pub fn outcome(self) -> (result: Option<Result<u64, Error>>)
        ensures
            result == (match self.stage {
                RangeStage::Done(result) => Some(result),
                _ => None,
            }),
    {
        match self.stage {
            RangeStage::Done(result) => Some(result),
            _ => None,
        }
    }

    /// The metadata in force: what the walk has asked for, or else `base`.
    pub fn metadata<'a>(&'a self, base: &'a M) -> (metadata: &'a M)
        ensures
            *metadata == self.in_force(*base),
    {
        match &self.fresh {
            Some(metadata) => metadata,
            None => base,
        }
    }

    /// The metadata in force, where the walk started with `base`.
    pub open spec fn in_force(self, base: M) -> M {
        match self.fresh {
            Some(metadata) => metadata,
            None => base,
        }
    }
}

/// A walk after it has taken the answers of `trace`, one after the other.
pub open spec fn range_run<M>(walk: RangeWalk<M>, trace: Seq<RangeEvent<M>>) -> RangeWalk<M>
    decreases trace.len(),
{
    if trace.len() == 0 {
        walk
    } else {
        range_run(walk, trace.drop_last()).after(trace.last())
    }
}

/// Whether each answer of `trace` comes when the walk can take it.
pub open spec fn range_accepts<M>(walk: RangeWalk<M>, trace: Seq<RangeEvent<M>>) -> bool
    decreases trace.len(),
{
    trace.len() == 0 || (range_accepts(walk, trace.drop_last()) && range_run(
        walk,
        trace.drop_last(),
    ).accepts(trace.last()))
}

/// One block that was to be handled: under which runtime and which metadata, and whether
/// that went well. `answered` is what the client last said of the runtime's specification,
/// and `asked` are the requests for metadata that were made since the block before.
pub struct Visit<M> {
    pub block: u64,
    pub spec_version: u32,
    pub fresh: Option<M>,
    pub answered: Option<u32>,
    pub asked: Seq<MetadataRequest<M>>,
    pub handled: bool,
}

/// A request for the metadata at a block, and what the client answered.
pub struct MetadataRequest<M> {
    pub block: u64,
    pub answer: Result<M, String>,
}

/// The specification that the client last said the runtime follows.
pub open spec fn last_version<M>(trace: Seq<RangeEvent<M>>) -> Option<u32>
    decreases trace.len(),
{
    if trace.len() == 0 {
        None
    } else {
        match trace.last() {
            RangeEvent::RuntimeVersion(Ok(version)) => Some(version),
            _ => last_version(trace.drop_last()),
        }
    }
}

/// The metadata that the client last gave.
pub open spec fn last_metadata<M>(trace: Seq<RangeEvent<M>>) -> Option<M>
    decreases trace.len(),
{
    if trace.len() == 0 {
        None
    } else {
        match trace.last() {
            RangeEvent::Metadata(Ok(metadata)) => Some(metadata),
            _ => last_metadata(trace.drop_last()),
        }
    }
}

/// The requests for metadata since a block was last to be handled.
pub open spec fn asked_since_visit<M>(walk: RangeWalk<M>, trace: Seq<RangeEvent<M>>) -> Seq<
    MetadataRequest<M>,
>
    decreases trace.len(),
{
    if trace.len() == 0 {
        Seq::empty()
    } else {
        match trace.last() {
            RangeEvent::Handled(_) => Seq::empty(),
            RangeEvent::Metadata(answer) => asked_since_visit(walk, trace.drop_last()).push(
                MetadataRequest {
                    block: range_run(walk, trace.drop_last()).wants()->MetadataAt_0,
                    answer,
                },
            ),
            _ => asked_since_visit(walk, trace.drop_last()),
        }
    }
}

/// The blocks that a walk had handled in the course of `trace`.
pub open spec fn range_visits<M>(walk: RangeWalk<M>, trace: Seq<RangeEvent<M>>) -> Seq<Visit<M>>
    decreases trace.len(),
{
    if trace.len() == 0 {
        Seq::empty()
    } else {
        let before = range_run(walk, trace.drop_last());
        match trace.last() {
            RangeEvent::Handled(handled) => range_visits(walk, trace.drop_last()).push(
                Visit {
                    block: before.wants()->Handle_0,
                    spec_version: before.spec_version,
                    fresh: before.fresh,
                    answered: last_version(trace.drop_last()),
                    asked: asked_since_visit(walk, trace.drop_last()),
                    handled,
                },
            ),
            _ => range_visits(walk, trace.drop_last()),
        }
    }
}

/// What is true of the visits of a walk that began at `start` and now is `walk`.
spec fn walk_invariant<M>(start: u64, walk: RangeWalk<M>, visits: Seq<Visit<M>>) -> bool {
    &&& forall|i: int| 0 <= i < visits.len() ==> (#[trigger] visits[i]).block == start + i
    &&& forall|i: int| 0 <= i < visits.len() - 1 ==> (#[trigger] visits[i]).handled
    &&& forall|i: int| 0 <= i < visits.len() - 1 ==> (#[trigger] visits[i]).block < walk.end
    &&& match walk.stage {
        RangeStage::Done(Ok(last)) => visits.len() > 0 && if visits.last().handled {
            last == walk.end && visits.last().block >= walk.end
        } else {
            last == visits.last().block - 1
        },
        _ => {
            &&& walk.next == start + visits.len()
            &&& visits.len() > 0 ==> visits.last().handled && visits.last().block < walk.end
        },
    }
}

/// A walk handles every block from its start on, in order and each once, and it stops at the
/// first that it cannot handle. While it goes on, or when a client's error ends it, every
/// block so far was handled; while it goes on, it stands at the block after them. When it ends otherwise, it answers the number of the last block
/// if that was handled, and else the number before the block that was not. A walk whose
/// start lies past its end handles its start alone.
pub proof fn law_walk_visits_in_order<M>(
    start: u64,
    end: u64,
    spec_version: u32,
    trace: Seq<RangeEvent<M>>,
)
    requires
        range_accepts(RangeWalk::begun(start, end, spec_version), trace),
    ensures
        ({
            let walk = range_run(RangeWalk::begun(start, end, spec_version), trace);
            let visits = range_visits(RangeWalk::begun(start, end, spec_version), trace);
            &&& forall|i: int| 0 <= i < visits.len() ==> (#[trigger] visits[i]).block == start + i
            &&& forall|i: int| 0 <= i < visits.len() - 1 ==> (#[trigger] visits[i]).handled
            &&& visits.len() <= (if start <= end {
                end - start + 1
            } else {
                1
            })
            &&& walk.end == end
            &&& match walk.stage {
                RangeStage::Done(Ok(last)) => visits.len() > 0 && if visits.last().handled {
                    last == end && visits.last().block == if start <= end {
                        end
                    } else {
                        start
                    }
                } else {
                    last == visits.last().block - 1
                },
                RangeStage::Done(Err(_)) => visits.len() > 0 ==> visits.last().handled,
                _ => {
                    &&& walk.next == start + visits.len()
                    &&& visits.len() > 0 ==> visits.last().handled
                },
            }
        }),
{
    let walk = range_run(RangeWalk::begun(start, end, spec_version), trace);
    let visits = range_visits(RangeWalk::begun(start, end, spec_version), trace);
    lemma_walk_invariant(start, end, spec_version, trace);
    if visits.len() > 1 {
        assert(visits[visits.len() - 2].block < end);
    }
}

proof fn lemma_walk_invariant<M>(
    start: u64,
    end: u64,
    spec_version: u32,
    trace: Seq<RangeEvent<M>>,
)
    requires
        range_accepts(RangeWalk::begun(start, end, spec_version), trace),
    ensures
        ({
            let walk = range_run(RangeWalk::begun(start, end, spec_version), trace);
            let visits = range_visits(RangeWalk::begun(start, end, spec_version), trace);
            walk.end == end && walk_invariant(start, walk, visits)
        }),
    decreases trace.len(),
{
    if trace.len() > 0 {
        lemma_walk_invariant(start, end, spec_version, trace.drop_last());
    }
}

/// A block is handled under the runtime that the client named for it.
pub proof fn law_walk_follows_the_runtime<M>(
    start: u64,
    end: u64,
    spec_version: u32,
    trace: Seq<RangeEvent<M>>,
)
    requires
        range_accepts(RangeWalk::begun(start, end, spec_version), trace),
    ensures
        ({
            let visits = range_visits(RangeWalk::begun(start, end, spec_version), trace);
            forall|i: int|
                0 <= i < visits.len() ==> (#[trigger] visits[i]).answered == Some(
                    visits[i].spec_version,
                )
        }),
    decreases trace.len(),
{
    if trace.len() > 0 {
        law_walk_follows_the_runtime(start, end, spec_version, trace.drop_last());
        lemma_walk_version(start, end, spec_version, trace.drop_last());
    }
}

proof fn lemma_walk_version<M>(
    start: u64,
    end: u64,
    spec_version: u32,
    trace: Seq<RangeEvent<M>>,
)
    requires
        range_accepts(RangeWalk::begun(start, end, spec_version), trace),
    ensures
        ({
            let walk = range_run(RangeWalk::begun(start, end, spec_version), trace);
            match walk.stage {
                RangeStage::Handle => last_version(trace) == Some(walk.spec_version),
                RangeStage::Metadata(version) => last_version(trace) == Some(version),
                _ => true,
            }
        }),
    decreases trace.len(),
{
    if trace.len() > 0 {
        lemma_walk_version(start, end, spec_version, trace.drop_last());
    }
}

/// The specification that the runtime followed before the visit at `k`.
pub open spec fn version_before<M>(spec_version: u32, visits: Seq<Visit<M>>, k: int) -> u32 {
    if k == 0 {
        spec_version
    } else {
        visits[k - 1].spec_version
    }
}

/// The metadata that had been asked for before the visit at `k`.
pub open spec fn fresh_before<M>(visits: Seq<Visit<M>>, k: int) -> Option<M> {
    if k == 0 {
        None
    } else {
        visits[k - 1].fresh
    }
}

/// Whether the visit at `k` has the metadata of its runtime. Where the runtime is the one
/// before, nothing was asked for and the metadata is the one before. Where it is another,
/// the metadata at the visited block was asked for, once, and is what the client gave.
pub open spec fn has_metadata_of_its_runtime<M>(
    spec_version: u32,
    visits: Seq<Visit<M>>,
    k: int,
) -> bool {
    if visits[k].spec_version == version_before(spec_version, visits, k) {
        &&& visits[k].asked == Seq::<MetadataRequest<M>>::empty()
        &&& visits[k].fresh == fresh_before(visits, k)
    } else {
        &&& visits[k].fresh is Some
        &&& visits[k].asked == seq![
            MetadataRequest { block: visits[k].block, answer: Ok(visits[k].fresh->0) },
        ]
    }
}

/// A walk asks for metadata when, and only when, the runtime has changed. Two blocks in a row
/// with one runtime have one metadata, as have the blocks before the first change, for which
/// the metadata that the walk started with is in force. At a block with another runtime than
/// the one before, the metadata is asked for once, at that block, and what the client gives
/// is in force. Past the last block that was to be handled it is the same: metadata is asked
/// for at the next block alone, at most once, and only where the client has named another
/// runtime for it.
pub proof fn law_walk_keeps_metadata_of_the_runtime<M>(
    start: u64,
    end: u64,
    spec_version: u32,
    trace: Seq<RangeEvent<M>>,
)
    requires
        range_accepts(RangeWalk::begun(start, end, spec_version), trace),
    ensures
        ({
            let begun = RangeWalk::begun(start, end, spec_version);
            let walk = range_run(begun, trace);
            let visits = range_visits(begun, trace);
            let asked = asked_since_visit(begun, trace);
            let before = version_before(spec_version, visits, visits.len() as int);
            &&& walk.fresh == last_metadata(trace)
            &&& forall|k: int|
                0 <= k < visits.len() ==> #[trigger] has_metadata_of_its_runtime(
                    spec_version,
                    visits,
                    k,
                )
            &&& asked.len() <= 1
            &&& asked.len() == 1 ==> asked[0].block == start + visits.len() && (last_version(trace)
                matches Some(version) && version != before)
            &&& walk.wants() matches RangeAction::MetadataAt(block) ==> {
                &&& block == start + visits.len()
                &&& asked.len() == 0
                &&& last_version(trace) matches Some(version) && version != before
            }
            &&& walk.stage is Handle ==> (asked.len() == 1 <==> walk.spec_version != before)
        }),
{
    lemma_walk_invariant(start, end, spec_version, trace);
    lemma_walk_version(start, end, spec_version, trace);
    lemma_walk_metadata(start, end, spec_version, trace);
}

/// What a walk holds between two visits: the runtime and the metadata of the last visit, or
/// a change of runtime with metadata of its own.
spec fn since_last_visit<M>(
    start: u64,
    spec_version: u32,
    walk: RangeWalk<M>,
    visits: Seq<Visit<M>>,
    asked: Seq<MetadataRequest<M>>,
    answered: Option<u32>,
) -> bool {
    let version = version_before(spec_version, visits, visits.len() as int);
    let fresh = fresh_before(visits, visits.len() as int);
    match walk.stage {
        RangeStage::Pause(_) | RangeStage::Version => {
            &&& asked == Seq::<MetadataRequest<M>>::empty()
            &&& walk.spec_version == version
            &&& walk.fresh == fresh
        },
        RangeStage::Metadata(named) => {
            &&& asked == Seq::<MetadataRequest<M>>::empty()
            &&& walk.spec_version == version
            &&& walk.fresh == fresh
            &&& named != version
        },
        RangeStage::Handle => if walk.spec_version == version {
            &&& asked == Seq::<MetadataRequest<M>>::empty()
            &&& walk.fresh == fresh
        } else {
            &&& walk.fresh is Some
            &&& asked == seq![MetadataRequest { block: walk.next, answer: Ok(walk.fresh->0) }]
        },
        RangeStage::Done(_) => {
            &&& asked.len() <= 1
            &&& asked.len() == 1 ==> {
                &&& asked[0].block == start + visits.len()
                &&& answered matches Some(named) && named != version
            }
        },
    }
}

proof fn lemma_walk_metadata<M>(
    start: u64,
    end: u64,
    spec_version: u32,
    trace: Seq<RangeEvent<M>>,
)
    requires
        range_accepts(RangeWalk::begun(start, end, spec_version), trace),
    ensures
        ({
            let begun = RangeWalk::begun(start, end, spec_version);
            let walk = range_run(begun, trace);
            let visits = range_visits(begun, trace);
            &&& walk.fresh == last_metadata(trace)
            &&& since_last_visit(
                start,
                spec_version,
                walk,
                visits,
                asked_since_visit(begun, trace),
                last_version(trace),
            )
            &&& forall|k: int|
                0 <= k < visits.len() ==> #[trigger] has_metadata_of_its_runtime(
                    spec_version,
                    visits,
                    k,
                )
        }),
    decreases trace.len(),
{
    if trace.len() > 0 {
        let begun = RangeWalk::begun(start, end, spec_version);
        let earlier = range_visits(begun, trace.drop_last());
        let visits = range_visits(begun, trace);
        lemma_walk_metadata(start, end, spec_version, trace.drop_last());
        lemma_walk_invariant(start, end, spec_version, trace.drop_last());
        lemma_walk_version(start, end, spec_version, trace.drop_last());
        assert forall|k: int| 0 <= k < visits.len() implies #[trigger] has_metadata_of_its_runtime(
            spec_version,
            visits,
            k,
        ) by {
            if k < earlier.len() {
                assert(has_metadata_of_its_runtime(spec_version, earlier, k));
            }
        }
    }
}

/// What is asked next, told from the answers alone. The walk begins without a pause. With `k`
/// blocks handled it is at the block `start + k`: it asks for the runtime at that block, asks
/// for the metadata at that block if the runtime is not the one that was last named, and has
/// that block handled. Then it pauses for a tenth of a second and goes on, unless the end is
/// reached. A block that could not be handled ends it with the block before, and a client's
/// error with that error. In force is the metadata that the client last gave, and before it
/// has given any the metadata that the walk started with.
pub proof fn law_walk_asks_in_order<M>(
    start: u64,
    end: u64,
    spec_version: u32,
    trace: Seq<RangeEvent<M>>,
    base: M,
)
    requires
        range_accepts(RangeWalk::begun(start, end, spec_version), trace),
    ensures
        ({
            let begun = RangeWalk::begun(start, end, spec_version);
            let now = range_run(begun, trace);
            let asked = range_run(begun, trace.drop_last()).wants();
            let block = start + range_visits(begun, trace.drop_last()).len();
            let version = match last_version(trace.drop_last()) {
                Some(version) => version,
                None => spec_version,
            };
            &&& now.in_force(base) == match last_metadata(trace) {
                Some(metadata) => metadata,
                None => base,
            }
            &&& now.wants() == RangeAction::Return <==> now.stage is Done
            &&& trace.len() == 0 ==> now.wants() == RangeAction::Pause(0)
            &&& trace.len() > 0 ==> match trace.last() {
                RangeEvent::Paused => now.wants() == RangeAction::RuntimeVersionAt(block as u64),
                RangeEvent::RuntimeVersion(Ok(named)) => {
                    &&& asked == RangeAction::RuntimeVersionAt(block as u64)
                    &&& now.wants() == if named == version {
                        RangeAction::Handle(block as u64)
                    } else {
                        RangeAction::MetadataAt(block as u64)
                    }
                },
                RangeEvent::Metadata(Ok(_)) => {
                    &&& asked == RangeAction::MetadataAt(block as u64)
                    &&& now.wants() == RangeAction::Handle(block as u64)
                },
                RangeEvent::Handled(handled) => {
                    &&& asked == RangeAction::Handle(block as u64)
                    &&& if !handled {
                        now.stage == RangeStage::Done(Ok((block - 1) as u64))
                    } else if block < end {
                        now.wants() == RangeAction::Pause(100)
                    } else {
                        now.stage == RangeStage::Done(Ok(end))
                    }
                },
                RangeEvent::RuntimeVersion(Err(text)) | RangeEvent::Metadata(Err(text)) => now.stage
                    == RangeStage::Done(Err(Error::Client(text))),
            }
            &&& trace.len() > 0 ==> block <= u64::MAX
        }),
{
    lemma_walk_metadata(start, end, spec_version, trace);
    if trace.len() > 0 {
        lemma_walk_invariant(start, end, spec_version, trace.drop_last());
        lemma_walk_named(start, end, spec_version, trace.drop_last());
    }
}

/// Until it is named anew, the runtime is the one that was last named.
proof fn lemma_walk_named<M>(
    start: u64,
    end: u64,
    spec_version: u32,
    trace: Seq<RangeEvent<M>>,
)
    requires
        range_accepts(RangeWalk::begun(start, end, spec_version), trace),
    ensures
        ({
            let walk = range_run(RangeWalk::begun(start, end, spec_version), trace);
            match walk.stage {
                RangeStage::Metadata(version) => last_version(trace) == Some(version),
                RangeStage::Done(_) => true,
                _ => walk.spec_version == match last_version(trace) {
                    Some(version) => version,
                    None => spec_version,
                },
            }
        }),
    decreases trace.len(),
{
    if trace.len() > 0 {
        lemma_walk_named(start, end, spec_version, trace.drop_last());
    }
}

/// Every answer to what was asked can be taken, but for two: that the last of all block
/// numbers was handled, and that block zero was not.
pub proof fn law_walk_takes_every_answer<M>(walk: RangeWalk<M>, event: RangeEvent<M>)
    ensures
        walk.accepts(event) <==> match (walk.wants(), event) {
            (RangeAction::Pause(_), RangeEvent::Paused) => true,
            (RangeAction::RuntimeVersionAt(_), RangeEvent::RuntimeVersion(_)) => true,
            (RangeAction::MetadataAt(_), RangeEvent::Metadata(_)) => true,
            (RangeAction::Handle(block), RangeEvent::Handled(handled)) => if handled {
                block < u64::MAX
            } else {
                block > 0
            },
            _ => false,
        },
{
}

} // verus!
