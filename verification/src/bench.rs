//! The three benchmarks, as state machines that a caller drives.
//!
//! A [`Workload`] hands out the actions of its schedule one at a time. The
//! caller performs each action on the engine, keeps the clock, and reports
//! back whether the action succeeded; the workload decides whether the run
//! goes on.

use crate::access::access_pattern;
use crate::access::is_access_pattern;
use crate::schedule::lemma_marching_places;
use crate::schedule::lemma_random_get_places;
use crate::schedule::lemma_seq_write_places;
use crate::schedule::marching_action;
use crate::schedule::marching_schedule;
use crate::schedule::random_get_action;
use crate::schedule::random_get_schedule;
use crate::schedule::seq_write_action;
use crate::schedule::seq_write_schedule;
use crate::schedule::Action;
use crate::schedule::Phase;
use crate::schedule::WINDOW;
use vstd::prelude::*;

verus! {

/// What a workload tells its caller to do next.
#[derive(Clone, Copy, Debug, PartialEq, Eq, Structural)]
pub enum Next {
    /// Perform the action, then ask again and say how it went.
    Perform(Action),
    /// Every action has been handed out and none failed fatally.
    Done,
    /// An action failed that the benchmark cannot go on without.
    Abort,
}

/// A run of a benchmark as its caller sees it.
pub struct Run {
    /// Every action of the run, in order.
    pub schedule: Seq<Action>,
    /// Reads that fail are passed over: the store may not show a write yet.
    pub tolerant_reads: bool,
    /// How many actions have been handed out.
    pub position: nat,
    /// A failure has ended the run.
    pub aborted: bool,
}

impl Run {
    /// A run that has handed out nothing yet.
    pub open spec fn fresh(schedule: Seq<Action>, tolerant_reads: bool) -> Run {
        Run { schedule, tolerant_reads, position: 0, aborted: false }
    }

    /// A failure of `action` ends the run. Only a read can be passed over,
    /// and only where the run tolerates it.
    pub open spec fn is_fatal(self, action: Action) -> bool {
        !(self.tolerant_reads && action is Get)
    }

    /// The run after its caller reports how the action handed out last went,
    /// and what the caller is told to do. The report is ignored while nothing
    /// has been handed out.
    pub open spec fn step(self, previous_succeeded: bool) -> (Run, Next) {
        if self.aborted {
            (self, Next::Abort)
        } else if self.position > 0 && !previous_succeeded && self.is_fatal(
            self.schedule[self.position - 1],
        ) {
            (Run { aborted: true, ..self }, Next::Abort)
        } else if self.position >= self.schedule.len() {
            (self, Next::Done)
        } else {
            (
                Run { position: self.position + 1, ..self },
                Next::Perform(self.schedule[self.position as int]),
            )
        }
    }
}

#[derive(Clone, Copy, Debug, PartialEq, Eq, Structural)]
enum Kind {
    SequentialWrite,
    RandomizedRead,
    Marching,
}

/// A benchmark in progress.
pub struct Workload {
    kind: Kind,
    count: u64,
    pattern: Vec<u64>,
    position: u128,
    aborted: bool,
}

impl View for Workload {
    type V = Run;

    closed spec fn view(&self) -> Run {
        Run {
            schedule: self.schedule(),
            tolerant_reads: self.kind is Marching,
            position: self.position as nat,
            aborted: self.aborted,
        }
    }
}

impl Workload {
    #[verifier::type_invariant]
    spec fn well_formed(self) -> bool {
        &&& self.kind is RandomizedRead ==> self.pattern@.len() == self.count
        &&& self.position <= self.schedule().len()
    }

    /// Every action of the benchmark, in order.
    pub closed spec fn schedule(self) -> Seq<Action> {
        match self.kind {
            Kind::SequentialWrite => seq_write_schedule(self.count as nat),
            Kind::RandomizedRead => random_get_schedule(self.count as nat, self.pattern@),
            Kind::Marching => marching_schedule(self.count as nat),
        }
    }

    /// The order in which a randomized read visits its keys; of no meaning
    /// for the other benchmarks.
    pub closed spec fn access(self) -> Seq<u64> {
        self.pattern@
    }

    fn length(&self) -> (length: u128)
        requires
            self.well_formed(),
        ensures
            length == self.schedule().len(),
    {
        let count: u128 = self.count as u128;
        proof {
            lemma_seq_write_places(self.count as nat);
            lemma_random_get_places(self.count as nat, self.pattern@);
            lemma_marching_places(self.count as nat);
        }
        match self.kind {
            Kind::SequentialWrite => 2 * count,
            Kind::RandomizedRead => 2 * count + 6,
            Kind::Marching => count + (WINDOW as u128) * (count / (WINDOW as u128)),
        }
    }

    fn action_at(&self, at: u128) -> (action: Action)
        requires
            self.well_formed(),
            at < self.schedule().len(),
        ensures
            action == self.schedule()[at as int],
    {
        let count: u128 = self.count as u128;
        proof {
            lemma_seq_write_places(self.count as nat);
            lemma_random_get_places(self.count as nat, self.pattern@);
            lemma_marching_places(self.count as nat);
        }
        match self.kind {
            Kind::SequentialWrite => {
                assert(self.schedule()[at as int] == seq_write_action(at as int));
                assert(at / 2 < count);
                if at % 2 == 0 {
                    Action::Put((at / 2) as u64)
                } else {
                    Action::Sync
                }
            },
            Kind::RandomizedRead => {
                assert(self.schedule()[at as int] == random_get_action(
                    self.count as nat,
                    self.pattern@,
                    at as int,
                ));
                if at == 0 {
                    Action::BeginPhase(Phase::Putting)
                } else if at <= count {
                    Action::Put((at - 1) as u64)
                } else if at == count + 1 {
                    Action::Sync
                } else if at == count + 2 {
                    Action::EndPhase(Phase::Putting)
                } else if at == count + 3 {
                    Action::BeginPhase(Phase::Getting)
                } else if at < 2 * count + 4 {
                    let place: u128 = at - count - 4;
                    let entries: usize = self.pattern.len();
                    assert(place < entries);
                    Action::Get(self.pattern[place as usize])
                } else if at == 2 * count + 4 {
                    Action::Sync
                } else {
                    Action::EndPhase(Phase::Getting)
                }
            },
            Kind::Marching => {
                assert(self.schedule()[at as int] == marching_action(at as int));
                let span: u128 = 2 * (WINDOW as u128);
                let window: u128 = at / span;
                let within: u128 = at % span;
                assert(100 * window + within < count + 100) by {
                    assert(at < count + 100 * (count / 100));
                    assert(at == 200 * window + within);
                }
                if within < WINDOW as u128 {
                    Action::Put(((WINDOW as u128) * window + within) as u64)
                } else {
                    Action::Get(((WINDOW as u128) * window + within - (WINDOW as u128)) as u64)
                }
            },
        }
    }

    /// Takes the caller's report on the action handed out last and says what
    /// to do next.
    ///
    /// A failed write or flush ends the run, and so does a failed read,
    /// except in the marching benchmark, which passes it over. Once the run
    /// has ended in failure every further call says `Abort` again. The report
    /// that comes with the first call is ignored.
    pub fn next_action(&mut self, previous_succeeded: bool) -> (next: Next)
        ensures
            final(self)@ == old(self)@.step(previous_succeeded).0,
            next == old(self)@.step(previous_succeeded).1,
            final(self).access() == old(self).access(),
    {
        proof {
            use_type_invariant(&*self);
        }
        if self.aborted {
            return Next::Abort;
        }
        if self.position > 0 && !previous_succeeded {
            let last: Action = self.action_at(self.position - 1);
            let passed_over: bool = match (self.kind, last) {
                (Kind::Marching, Action::Get(_)) => true,
                _ => false,
            };
            if !passed_over {
                self.aborted = true;
                return Next::Abort;
            }
        }
        if self.position >= self.length() {
            return Next::Done;
        }
        let action: Action = self.action_at(self.position);
        self.position = self.position + 1;
        Next::Perform(action)
    }
}

/// The sequential write of `count` keys: each key is written and the journal
/// flushed before the next. Nothing is read.
pub fn seq_write(count: u64) -> (workload: Workload)
    ensures
        workload@ == Run::fresh(seq_write_schedule(count as nat), false),
{
    Workload {
        kind: Kind::SequentialWrite,
        count,
        pattern: Vec::new(),
        position: 0,
        aborted: false,
    }
}

/// The randomized read of `count` keys: all keys are written in rising order
/// and the journal flushed once; then every key is read exactly once, in an
/// order drawn at random, and the journal flushed again.
pub fn random_get(count: u64) -> (workload: Workload)
    ensures
        is_access_pattern(workload.access(), count as nat),
        workload@ == Run::fresh(random_get_schedule(count as nat, workload.access()), false),
{
    let pattern: Vec<u64> = access_pattern(count);
    proof {
        lemma_random_get_places(count as nat, pattern@);
    }
    Workload { kind: Kind::RandomizedRead, count, pattern, position: 0, aborted: false }
}

/// The marching benchmark of `count` keys: keys are written in rising order,
/// and after every hundredth write the hundred keys written last are read
/// back in the order they were written. Keys after the last full hundred are
/// written and never read. A read that fails is passed over.
pub fn marching(count: u64) -> (workload: Workload)
    ensures
        workload@ == Run::fresh(marching_schedule(count as nat), true),
{
    Workload { kind: Kind::Marching, count, pattern: Vec::new(), position: 0, aborted: false }
}

} // verus!
