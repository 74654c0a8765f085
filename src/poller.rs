use vstd::prelude::*;

use crate::db::Torrent;
use crate::feed::TickError;
use crate::submit::SubmitOutcome;

verus! {

/// Where a tick stands on its current item.
#[derive(Debug, PartialEq, Eq)]
pub enum Stage {
    /// Asking the store whether the current item is known; once every item
    /// has been handled, the tick is over.
    Lookup,
    /// Asking the daemon to download the current item.
    Submitting,
    /// Recording the current item in the store.
    Persisting,
    /// Stopped on an error; the remaining items wait for the next tick.
    Failed(TickError),
}

/// What the outside world reports back to a tick.
#[derive(Debug)]
pub enum Event {
    /// The store answered whether it knows the current item.
    Found(bool),
    /// The store could not be asked.
    LookupFailed,
    /// The daemon's answer to the submission of the current item.
    Replied(SubmitOutcome),
    /// The store recorded the current item.
    Stored,
    /// The store did not record the current item.
    StoreFailed,
}

/// What a tick asks of the outside world next.
#[derive(Debug, PartialEq, Eq)]
pub enum Action {
    /// Ask the store whether it knows the current item.
    Lookup,
    /// Submit the current item to the daemon.
    Submit,
    /// Record the current item in the store.
    Store,
    /// The tick is over; its result is ready.
    Finish,
}

/// One tick over the items of one fetch of a feed, handled in document order.
#[derive(Debug)]
pub struct Tick {
    pub items: Vec<Torrent>,
    pub pos: usize,
    pub stage: Stage,
}

/// The state of a tick as a value.
pub struct TickModel {
    pub items: Seq<Torrent>,
    pub pos: int,
    pub stage: Stage,
}

impl View for Tick {
    type V = TickModel;

    open spec fn view(&self) -> TickModel {
        TickModel { items: self.items@, pos: self.pos as int, stage: self.stage }
    }
}

/// A tick that has not yet handled any of the items.
pub open spec fn start(items: Seq<Torrent>) -> TickModel {
    TickModel { items, pos: 0, stage: Stage::Lookup }
}

pub open spec fn model_wf(m: TickModel) -> bool {
    &&& 0 <= m.pos <= m.items.len()
    &&& (m.stage is Submitting || m.stage is Persisting) ==> m.pos < m.items.len()
}

/// Every item has been handled, or the tick stopped on an error.
pub open spec fn finished(m: TickModel) -> bool {
    (m.stage is Lookup && m.pos >= m.items.len()) || m.stage is Failed
}

/// The same tick, moved on to the next item.
pub open spec fn skip(m: TickModel) -> TickModel {
    TickModel { items: m.items, pos: m.pos + 1, stage: Stage::Lookup }
}

pub open spec fn with_stage(m: TickModel, stage: Stage) -> TickModel {
    TickModel { items: m.items, pos: m.pos, stage }
}

/// How a tick answers an event: a known item is skipped, an unknown one is
/// submitted, an accepted one is recorded, and any failure stops the tick.
/// An event that does not fit the stage changes nothing.
pub open spec fn next(m: TickModel, ev: Event) -> TickModel {
    if finished(m) {
        m
    } else {
        match m.stage {
            Stage::Lookup => match ev {
                Event::Found(known) => if known {
                    skip(m)
                } else {
                    with_stage(m, Stage::Submitting)
                },
                Event::LookupFailed => with_stage(m, Stage::Failed(TickError::Lookup)),
                _ => m,
            },
            Stage::Submitting => match ev {
                Event::Replied(outcome) => match outcome {
                    SubmitOutcome::Accepted => with_stage(m, Stage::Persisting),
                    SubmitOutcome::Rejected { reason } => with_stage(
                        m,
                        Stage::Failed(TickError::Rejected { reason }),
                    ),
                    SubmitOutcome::TransportError => with_stage(
                        m,
                        Stage::Failed(TickError::Transport),
                    ),
                },
                _ => m,
            },
            Stage::Persisting => match ev {
                Event::Stored => skip(m),
                Event::StoreFailed => with_stage(m, Stage::Failed(TickError::Store)),
                _ => m,
            },
            Stage::Failed(_) => m,
        }
    }
}

/// What a tick asks for in a state.
pub open spec fn action_of(m: TickModel) -> Action {
    if finished(m) {
        Action::Finish
    } else {
        match m.stage {
            Stage::Lookup => Action::Lookup,
            Stage::Submitting => Action::Submit,
            _ => Action::Store,
        }
    }
}

impl Tick {
    pub open spec fn wf(&self) -> bool {
        model_wf(self@)
    }

    /// A tick over the items of one fetch, in document order.
    pub fn new(items: Vec<Torrent>) -> (r: Tick)
        ensures
            r@ == start(items@),
            r.wf(),
    {
        Tick { items, pos: 0, stage: Stage::Lookup }
    }

    pub fn is_finished(&self) -> (r: bool)
        requires
            self.wf(),
        ensures
            r == finished(self@),
    {
        match self.stage {
            Stage::Lookup => self.pos >= self.items.len(),
            Stage::Failed(_) => true,
            _ => false,
        }
    }

    /// What the tick asks of the outside world next.
    pub fn action(&self) -> (r: Action)
        requires
            self.wf(),
        ensures
            r == action_of(self@),
    {
        if self.is_finished() {
            Action::Finish
        } else {
            match self.stage {
                Stage::Lookup => Action::Lookup,
                Stage::Submitting => Action::Submit,
                _ => Action::Store,
            }
        }
    }

    /// The item that the tick is handling.
    pub fn current(&self) -> (r: &Torrent)
        requires
            self.wf(),
            !finished(self@),
        ensures
            *r == self@.items[self@.pos],
    {
        &self.items[self.pos]
    }

    /// Moves the tick on by what the outside world reported.
    pub fn advance(&mut self, ev: Event)
        requires
            old(self).wf(),
        ensures
            final(self).wf(),
            final(self)@ == next(old(self)@, ev),
    {
        if self.is_finished() {
            return;
        }
        let len = self.items.len();
        assert(self.pos < len);
        match self.stage {
            Stage::Lookup => match ev {
                Event::Found(known) => {
                    if known {
                        self.pos = self.pos + 1;
                    } else {
                        self.stage = Stage::Submitting;
                    }
                },
                Event::LookupFailed => {
                    self.stage = Stage::Failed(TickError::Lookup);
                },
                _ => {},
            },
            Stage::Submitting => match ev {
                Event::Replied(outcome) => match outcome {
                    SubmitOutcome::Accepted => {
                        self.stage = Stage::Persisting;
                    },
                    SubmitOutcome::Rejected { reason } => {
                        self.stage = Stage::Failed(TickError::Rejected { reason });
                    },
                    SubmitOutcome::TransportError => {
                        self.stage = Stage::Failed(TickError::Transport);
                    },
                },
                _ => {},
            },
            Stage::Persisting => match ev {
                Event::Stored => {
                    self.pos = self.pos + 1;
                    self.stage = Stage::Lookup;
                },
                Event::StoreFailed => {
                    self.stage = Stage::Failed(TickError::Store);
                },
                _ => {},
            },
            Stage::Failed(_) => {},
        }
    }

    /// The result of a finished tick: success once every item was handled,
    /// else the error that stopped it.
    pub fn into_result(self) -> (r: Result<(), TickError>)
        requires
            self.wf(),
            finished(self@),
        ensures
            match self.stage {
                Stage::Failed(e) => r == Err::<(), TickError>(e),
                _ => r is Ok,
            },
    {
        match self.stage {
            Stage::Failed(e) => Err(e),
            _ => Ok(()),
        }
    }
}

/// A tick driven against a store, seen as the set of identifiers it holds,
/// and a daemon, seen as its answer to each item: the state it ends in, what
/// the store holds after it, and the items submitted, in order.
pub struct Run {
    pub tick: TickModel,
    pub store: Set<Seq<char>>,
    pub submitted: Seq<Torrent>,
}

/// Drives a tick for at most `fuel` events: the store answers lookups and
/// keeps what is recorded, the daemon answers each submission.
pub open spec fn drive(
    m: TickModel,
    store: Set<Seq<char>>,
    daemon: spec_fn(Torrent) -> SubmitOutcome,
    fuel: nat,
) -> Run
    decreases fuel,
{
    if fuel == 0 || finished(m) || !model_wf(m) {
        Run { tick: m, store, submitted: Seq::empty() }
    } else {
        let item = m.items[m.pos];
        match m.stage {
            Stage::Lookup => drive(
                next(m, Event::Found(store.contains(item.guid@))),
                store,
                daemon,
                (fuel - 1) as nat,
            ),
            Stage::Submitting => {
                let rest = drive(
                    next(m, Event::Replied(daemon(item))),
                    store,
                    daemon,
                    (fuel - 1) as nat,
                );
                Run { tick: rest.tick, store: rest.store, submitted: seq![item] + rest.submitted }
            },
            _ => drive(next(m, Event::Stored), store.insert(item.guid@), daemon, (fuel - 1) as nat),
        }
    }
}

/// A whole tick over the items, with events enough for every item.
pub open spec fn run_tick(
    items: Seq<Torrent>,
    store: Set<Seq<char>>,
    daemon: spec_fn(Torrent) -> SubmitOutcome,
) -> Run {
    drive(start(items), store, daemon, 3 * items.len() + 1)
}

/// The tick handled every item without an error.
pub open spec fn succeeded(r: Run) -> bool {
    r.tick.stage is Lookup && r.tick.pos >= r.tick.items.len()
}

/// Two items with one identifier in one tick: the daemon is asked once, and
/// the store gains that identifier once.
pub proof fn lemma_same_id_in_one_tick(
    a: Torrent,
    b: Torrent,
    store: Set<Seq<char>>,
    daemon: spec_fn(Torrent) -> SubmitOutcome,
)
    requires
        a.guid@ == b.guid@,
        !store.contains(a.guid@),
        daemon(a) == SubmitOutcome::Accepted,
    ensures
        ({
            let r = run_tick(seq![a, b], store, daemon);
            &&& r.submitted == seq![a]
            &&& r.store == store.insert(a.guid@)
            &&& succeeded(r)
        }),
{
    reveal_with_fuel(drive, 8);
}

/// An item whose identifier a tick recorded is not submitted again by a later
/// tick.
pub proof fn lemma_same_id_across_ticks(
    a: Torrent,
    b: Torrent,
    store: Set<Seq<char>>,
    daemon: spec_fn(Torrent) -> SubmitOutcome,
    later: spec_fn(Torrent) -> SubmitOutcome,
)
    requires
        a.guid@ == b.guid@,
        !store.contains(a.guid@),
        daemon(a) == SubmitOutcome::Accepted,
    ensures
        ({
            let first = run_tick(seq![a], store, daemon);
            let second = run_tick(seq![b], first.store, later);
            &&& first.submitted == seq![a]
            &&& first.store == store.insert(a.guid@)
            &&& second.submitted.len() == 0
            &&& second.store == first.store
            &&& succeeded(second)
        }),
{
    reveal_with_fuel(drive, 5);
}

/// Items `a`, `b`, `c` where the daemon takes `a` and not `b`: `a` is
/// recorded, `b` is not, `c` is not tried. A later tick over the same items
/// skips `a` and tries `b` first; where the daemon then takes `b` and `c`,
/// both are submitted and recorded.
pub proof fn lemma_partial_failure(
    a: Torrent,
    b: Torrent,
    c: Torrent,
    store: Set<Seq<char>>,
    daemon: spec_fn(Torrent) -> SubmitOutcome,
    later: spec_fn(Torrent) -> SubmitOutcome,
)
    requires
        a.guid@ != b.guid@,
        a.guid@ != c.guid@,
        b.guid@ != c.guid@,
        !store.contains(a.guid@),
        !store.contains(b.guid@),
        !store.contains(c.guid@),
        daemon(a) == SubmitOutcome::Accepted,
        daemon(b) != SubmitOutcome::Accepted,
    ensures
        ({
            let first = run_tick(seq![a, b, c], store, daemon);
            let second = run_tick(seq![a, b, c], first.store, later);
            &&& first.submitted == seq![a, b]
            &&& first.store == store.insert(a.guid@)
            &&& first.tick.stage is Failed
            &&& second.submitted.len() >= 1
            &&& second.submitted[0] == b
            &&& (later(b) == SubmitOutcome::Accepted && later(c) == SubmitOutcome::Accepted) ==> {
                &&& second.submitted == seq![b, c]
                &&& second.store == first.store.insert(b.guid@).insert(c.guid@)
                &&& succeeded(second)
            }
        }),
{
    reveal_with_fuel(drive, 11);
}

/// What the store holds, counting an item that is being recorded.
pub open spec fn held(m: TickModel, store: Set<Seq<char>>) -> Set<Seq<char>> {
    if m.stage is Persisting {
        store.insert(m.items[m.pos].guid@)
    } else {
        store
    }
}

proof fn lemma_drive_submits_unknown_once(
    m: TickModel,
    store: Set<Seq<char>>,
    daemon: spec_fn(Torrent) -> SubmitOutcome,
    fuel: nat,
)
    requires
        model_wf(m),
        m.stage is Submitting ==> !store.contains(m.items[m.pos].guid@),
    ensures
        ({
            let r = drive(m, store, daemon, fuel);
            &&& store.subset_of(r.store)
            &&& forall|i: int|
                0 <= i < r.submitted.len() ==> !held(m, store).contains(
                    #[trigger] r.submitted[i].guid@,
                )
            &&& forall|i: int, j: int|
                0 <= i < j < r.submitted.len() ==> r.submitted[i].guid@
                    != r.submitted[j].guid@
        }),
    decreases fuel,
{
    if fuel == 0 || finished(m) {
    } else {
        let item = m.items[m.pos];
        let f = (fuel - 1) as nat;
        match m.stage {
            Stage::Lookup => {
                let m1 = next(m, Event::Found(store.contains(item.guid@)));
                lemma_drive_submits_unknown_once(m1, store, daemon, f);
            },
            Stage::Submitting => {
                let m1 = next(m, Event::Replied(daemon(item)));
                lemma_drive_submits_unknown_once(m1, store, daemon, f);
                let rest = drive(m1, store, daemon, f);
                let r = drive(m, store, daemon, fuel);
                assert(r.submitted == seq![item] + rest.submitted);
                if daemon(item) != SubmitOutcome::Accepted {
                    assert(rest.submitted.len() == 0);
                }
                assert forall|i: int|
                    0 <= i < r.submitted.len() implies !held(m, store).contains(
                    #[trigger] r.submitted[i].guid@,
                ) by {
                    if i > 0 {
                        assert(r.submitted[i] == rest.submitted[i - 1]);
                    }
                }
                assert forall|i: int, j: int|
                    0 <= i < j < r.submitted.len() implies r.submitted[i].guid@
                    != r.submitted[j].guid@ by {
                    assert(r.submitted[j] == rest.submitted[j - 1]);
                    if i > 0 {
                        assert(r.submitted[i] == rest.submitted[i - 1]);
                    } else {
                        assert(held(m1, store).contains(item.guid@));
                    }
                }
            },
            _ => {
                let m1 = next(m, Event::Stored);
                lemma_drive_submits_unknown_once(m1, store.insert(item.guid@), daemon, f);
            },
        }
    }
}

/// A tick submits no item whose identifier the store already held, and no
/// identifier twice; the store only grows.
pub proof fn lemma_no_resubmission(
    items: Seq<Torrent>,
    store: Set<Seq<char>>,
    daemon: spec_fn(Torrent) -> SubmitOutcome,
)
    ensures
        ({
            let r = run_tick(items, store, daemon);
            &&& store.subset_of(r.store)
            &&& forall|i: int|
                0 <= i < r.submitted.len() ==> !store.contains(#[trigger] r.submitted[i].guid@)
            &&& forall|i: int, j: int|
                0 <= i < j < r.submitted.len() ==> r.submitted[i].guid@
                    != r.submitted[j].guid@
        }),
{
    lemma_drive_submits_unknown_once(start(items), store, daemon, 3 * items.len() + 1);
}

} // verus!
