//! The workload driver: the decisions of one timed run.
//!
//! A run starts idle, launches attempts while its time lasts and permits are
//! free, then drains the attempts in flight, and is done. The driver decides;
//! its caller performs each launched attempt against the backend and reports
//! how it ended.
//!
//! An attempt holds one permit from its launch to the report of its end,
//! whatever that end is. Attempts on prepared keys go round the key set, so a
//! deletion run can aim at a key that it has deleted before: whether that
//! attempt succeeds is the backend's answer, and it is counted as answered.

use crate::histogram::{recorded_into, LatencyHistogram, MAX_TRACKABLE_US};
use crate::key::{generate_key, is_generated_key, key_texts};
use crate::mode::{needs_prepared_key, takes_prepared_key, ConfigError, Operation};
use vstd::multiset::Multiset;
use vstd::prelude::*;

verus! {

/// Microseconds in a second.
pub const MICROS_PER_SECOND: u64 = 1_000_000;

/// The phase of a run.
#[derive(Clone, Copy, Debug, PartialEq, Eq, Structural)]
pub enum Phase {
    /// Configured, not started.
    Idle,
    /// Launching attempts.
    Running,
    /// Out of time: waiting for the attempts in flight.
    Draining,
    /// Finished: counters and histogram are final.
    Done,
}

/// How one attempt ended.
#[derive(Clone, Copy, Debug, PartialEq, Eq, Structural)]
pub enum Outcome {
    /// The backend answered, after this many microseconds.
    Success { latency_us: u64 },
    /// The backend reported an error.
    Failure,
}

/// One attempt to perform: an operation on a key.
#[derive(Debug)]
pub struct Attempt {
    /// The attempt's number within its run, counted from 0.
    pub ordinal: u64,
    pub operation: Operation,
    /// The key to work on; for a listing, the prefix to list.
    pub key: String,
}

/// What the caller of the driver has to do next.
#[derive(Debug)]
pub enum Action {
    /// Start this attempt, without waiting for it, and ask again.
    Launch(Attempt),
    /// Wait until one attempt in flight has ended, report it, and ask again.
    Wait,
    /// Nothing: the run is done.
    Finished,
}

/// The state of a run, as its contracts speak of it.
#[verifier::ext_equal]
pub struct RunState {
    pub operation: Operation,
    /// The number of permits.
    pub concurrency: nat,
    /// For how long the run launches attempts.
    pub duration_seconds: nat,
    pub keys: Seq<Seq<char>>,
    pub prefix: Seq<char>,
    pub phase: Phase,
    /// The time at which the run stops launching; set when it starts.
    pub deadline_us: nat,
    /// The attempts launched and not yet reported.
    pub in_flight: nat,
    pub launched: nat,
    pub succeeded: nat,
    pub failed: nat,
    /// The successes whose latency the histogram did not take.
    pub dropped: nat,
    pub samples: Multiset<u64>,
}

/// What holds of every state of a run: the state is consistent.
pub open spec fn consistent(s: RunState) -> bool {
    &&& s.concurrency >= 1
    &&& s.in_flight <= s.concurrency
    &&& s.launched == s.succeeded + s.failed + s.in_flight
    &&& s.samples.len() + s.dropped == s.succeeded
    &&& s.launched <= u64::MAX
    &&& s.phase == Phase::Idle ==> s.launched == 0
    &&& s.phase == Phase::Done ==> s.in_flight == 0
    &&& takes_prepared_key(s.operation) ==> s.keys.len() > 0
}

/// The state of a run that has been set up and not started.
pub open spec fn initial(
    operation: Operation,
    concurrency: nat,
    duration_seconds: nat,
    keys: Seq<Seq<char>>,
    prefix: Seq<char>,
) -> RunState {
    RunState {
        operation,
        concurrency,
        duration_seconds,
        keys,
        prefix,
        phase: Phase::Idle,
        deadline_us: 0,
        in_flight: 0,
        launched: 0,
        succeeded: 0,
        failed: 0,
        dropped: 0,
        samples: Multiset::empty(),
    }
}

/// The deadline of a run that is asked at `now`, in microseconds: an idle
/// run starts at `now`, a started run keeps its deadline. No deadline lies
/// beyond the largest `u64`.
pub open spec fn deadline_at(s: RunState, now: nat) -> nat {
    if s.phase == Phase::Idle {
        if now + s.duration_seconds * (MICROS_PER_SECOND as nat) > u64::MAX {
            u64::MAX as nat
        } else {
            now + s.duration_seconds * (MICROS_PER_SECOND as nat)
        }
    } else {
        s.deadline_us
    }
}

/// Whether a run still admits new attempts at `now`.
pub open spec fn admitting(s: RunState, now: nat) -> bool {
    &&& s.phase == Phase::Idle || s.phase == Phase::Running
    &&& now < deadline_at(s, now)
    &&& s.launched < u64::MAX
}

/// Whether `key` is what the attempt of the given ordinal works on: for a
/// write a fresh key under the prefix, for a listing the prefix, and else the
/// prepared key at the ordinal's place, counted round the key set.
pub open spec fn aims_at(s: RunState, ordinal: nat, key: Seq<char>) -> bool {
    match s.operation {
        Operation::Write => is_generated_key(key, s.prefix, ordinal),
        Operation::List => key == s.prefix,
        _ => key == s.keys[(ordinal % s.keys.len()) as int],
    }
}

/// The step of asking a run at `now`: which action is given, and the state
/// that follows.
pub open spec fn polled(pre: RunState, now: nat, action: Action, post: RunState) -> bool {
    let started = RunState { deadline_us: deadline_at(pre, now), ..pre };
    if admitting(pre, now) && pre.in_flight < pre.concurrency {
        &&& action matches Action::Launch(attempt)
        &&& attempt.ordinal == pre.launched
        &&& attempt.operation == pre.operation
        &&& aims_at(pre, pre.launched, attempt.key@)
        &&& post == RunState {
            phase: Phase::Running,
            in_flight: pre.in_flight + 1,
            launched: pre.launched + 1,
            ..started
        }
    } else if admitting(pre, now) {
        &&& action is Wait
        &&& post == RunState { phase: Phase::Running, ..started }
    } else if pre.in_flight > 0 {
        &&& action is Wait
        &&& post == RunState { phase: Phase::Draining, ..started }
    } else {
        &&& action is Finished
        &&& post == RunState { phase: Phase::Done, ..started }
    }
}

/// The step of reporting how an attempt ended: whether the report is taken,
/// and the state that follows. A report is taken while an attempt is in
/// flight. A success counts as one, and its latency goes to the histogram
/// unless it is beyond what the histogram keeps; a failure counts as one and
/// leaves the histogram alone.
pub open spec fn completed(pre: RunState, outcome: Outcome, taken: bool, post: RunState) -> bool {
    if pre.in_flight == 0 {
        !taken && post == pre
    } else {
        let landed = RunState { in_flight: (pre.in_flight - 1) as nat, ..pre };
        &&& taken
        &&& match outcome {
            Outcome::Failure => post == RunState { failed: pre.failed + 1, ..landed },
            Outcome::Success { latency_us } => if latency_us <= MAX_TRACKABLE_US {
                &&& recorded_into(pre.samples, latency_us, post.samples)
                &&& post == RunState {
                    succeeded: pre.succeeded + 1,
                    samples: post.samples,
                    ..landed
                }
            } else {
                post == RunState {
                    succeeded: pre.succeeded + 1,
                    dropped: pre.dropped + 1,
                    ..landed
                }
            },
        }
    }
}

/// The driver of one run.
pub struct Driver {
    operation: Operation,
    concurrency: usize,
    duration_seconds: u64,
    keys: Vec<String>,
    prefix: String,
    phase: Phase,
    deadline_us: u64,
    in_flight: usize,
    launched: u64,
    succeeded: u64,
    failed: u64,
    dropped: u64,
    histogram: LatencyHistogram,
}

impl View for Driver {
    type V = RunState;

    closed spec fn view(&self) -> RunState {
        RunState {
            operation: self.operation,
            concurrency: self.concurrency as nat,
            duration_seconds: self.duration_seconds as nat,
            keys: key_texts(self.keys@),
            prefix: self.prefix@,
            phase: self.phase,
            deadline_us: self.deadline_us as nat,
            in_flight: self.in_flight as nat,
            launched: self.launched as nat,
            succeeded: self.succeeded as nat,
            failed: self.failed as nat,
            dropped: self.dropped as nat,
            samples: self.histogram@,
        }
    }
}

impl Driver {
    /// Whether the driver is in a state that a run can reach.
    pub open spec fn wf(&self) -> bool {
        consistent(self@)
    }

    /// Sets up a run of `operation` with `concurrency` permits that launches
    /// attempts for `duration_seconds`, on the prepared `keys` and under
    /// `prefix`. Fails where no permit is given, and where the operation
    /// works on prepared keys and none is given.
    pub fn new(
        operation: Operation,
        concurrency: usize,
        duration_seconds: u64,
        keys: Vec<String>,
        prefix: String,
    ) -> (r: Result<Driver, ConfigError>)
        ensures
            match r {
                Ok(driver) => {
                    &&& concurrency > 0
                    &&& takes_prepared_key(operation) ==> keys@.len() > 0
                    &&& driver.wf()
                    &&& driver@ == initial(
                        operation,
                        concurrency as nat,
                        duration_seconds as nat,
                        key_texts(keys@),
                        prefix@,
                    )
                },
                Err(ConfigError::ZeroConcurrency) => concurrency == 0,
                Err(ConfigError::EmptyKeySet) => concurrency > 0 && takes_prepared_key(operation)
                    && keys@.len() == 0,
                Err(ConfigError::UnknownMode) => false,
            },
    {
        if concurrency == 0 {
            return Err(ConfigError::ZeroConcurrency);
        }
        if needs_prepared_key(operation) && keys.len() == 0 {
            return Err(ConfigError::EmptyKeySet);
        }
        let driver = Driver {
            operation,
            concurrency,
            duration_seconds,
            keys,
            prefix,
            phase: Phase::Idle,
            deadline_us: 0,
            in_flight: 0,
            launched: 0,
            succeeded: 0,
            failed: 0,
            dropped: 0,
            histogram: LatencyHistogram::new(),
        };
        assert(driver@ =~= initial(
            operation,
            concurrency as nat,
            duration_seconds as nat,
            key_texts(keys@),
            prefix@,
        ));
        Ok(driver)
    }

    /// The key that the attempt of the given ordinal works on.
    fn key_for(&self, ordinal: u64) -> (key: String)
        requires
            self.wf(),
        ensures
            aims_at(self@, ordinal as nat, key@),
    {
        match self.operation {
            Operation::Write => generate_key(self.prefix.as_str(), ordinal),
            Operation::List => self.prefix.clone(),
            _ => {
                let count = self.keys.len();
                let index = (ordinal % (count as u64)) as usize;
                self.keys[index].clone()
            },
        }
    }

    /// Asks what to do at the time `now_us`, in microseconds on the caller's
    /// clock. An idle run starts. While the run has time left, a free permit
    /// gives a launch, and no free permit a wait. Once the time is over
    /// nothing is launched any more: the run waits while attempts are in
    /// flight and is finished when none is left.
    pub fn poll(&mut self, now_us: u64) -> (action: Action)
        requires
            old(self).wf(),
        ensures
            final(self).wf(),
            polled(old(self)@, now_us as nat, action, final(self)@),
    {
        if self.phase == Phase::Idle {
            let duration_us = match self.duration_seconds.checked_mul(MICROS_PER_SECOND) {
                Some(us) => us,
                None => u64::MAX,
            };
            self.deadline_us = now_us.saturating_add(duration_us);
            self.phase = Phase::Running;
        }
        if self.phase == Phase::Running {
            if now_us < self.deadline_us && self.launched < u64::MAX {
                if self.in_flight < self.concurrency {
                    let ordinal = self.launched;
                    let key = self.key_for(ordinal);
                    self.launched = ordinal + 1;
                    self.in_flight = self.in_flight + 1;
                    let attempt = Attempt { ordinal, operation: self.operation, key };
                    assert(polled(old(self)@, now_us as nat, Action::Launch(attempt), self@));
                    return Action::Launch(attempt);
                }
                assert(polled(old(self)@, now_us as nat, Action::Wait, self@));
                return Action::Wait;
            }
            self.phase = Phase::Draining;
        }
        if self.phase == Phase::Draining && self.in_flight > 0 {
            assert(polled(old(self)@, now_us as nat, Action::Wait, self@));
            return Action::Wait;
        }
        self.phase = Phase::Done;
        assert(polled(old(self)@, now_us as nat, Action::Finished, self@));
        Action::Finished
    }

    /// Reports how one attempt in flight ended. With no attempt in flight the
    /// report is refused and nothing changes.
    pub fn complete(&mut self, outcome: Outcome) -> (taken: bool)
        requires
            old(self).wf(),
        ensures
            final(self).wf(),
            completed(old(self)@, outcome, taken, final(self)@),
    {
        if self.in_flight == 0 {
            return false;
        }
        self.in_flight = self.in_flight - 1;
        match outcome {
            Outcome::Failure => {
                self.failed = self.failed + 1;
            },
            Outcome::Success { latency_us } => {
                self.succeeded = self.succeeded + 1;
                let kept = self.histogram.record(latency_us);
                if !kept {
                    self.dropped = self.dropped + 1;
                }
            },
        }
        assert(completed(old(self)@, outcome, true, self@));
        true
    }

    /// The phase of the run.
    pub fn phase(&self) -> (phase: Phase)
        ensures
            phase == self@.phase,
    {
        self.phase
    }

    /// The operation of the run.
    pub fn operation(&self) -> (operation: Operation)
        ensures
            operation == self@.operation,
    {
        self.operation
    }

    /// The number of permits.
    pub fn concurrency(&self) -> (n: usize)
        ensures
            n == self@.concurrency,
    {
        self.concurrency
    }

    /// For how many seconds the run launches attempts.
    pub fn duration_seconds(&self) -> (n: u64)
        ensures
            n == self@.duration_seconds,
    {
        self.duration_seconds
    }

    /// The number of attempts launched and not yet reported.
    pub fn in_flight(&self) -> (n: usize)
        ensures
            n == self@.in_flight,
    {
        self.in_flight
    }

    /// The number of attempts launched.
    pub fn launched(&self) -> (n: u64)
        ensures
            n == self@.launched,
    {
        self.launched
    }

    /// The number of attempts that succeeded.
    pub fn succeeded(&self) -> (n: u64)
        ensures
            n == self@.succeeded,
    {
        self.succeeded
    }

    /// The number of attempts that failed.
    pub fn failed(&self) -> (n: u64)
        ensures
            n == self@.failed,
    {
        self.failed
    }

    /// The number of successes whose latency the histogram did not take.
    pub fn dropped(&self) -> (n: u64)
        ensures
            n == self@.dropped,
    {
        self.dropped
    }

    /// The histogram of the latencies of the successes.
    pub fn histogram(&self) -> (histogram: &LatencyHistogram)
        ensures
            histogram@ == self@.samples,
    {
        &self.histogram
    }

    /// Gives back the prepared keys.
    pub fn into_keys(self) -> (keys: Vec<String>)
        ensures
            key_texts(keys@) == self@.keys,
    {
        self.keys
    }
}

/// One step of a run: a question with its answer, or a report with its
/// reception.
pub enum Step {
    Poll { now: nat, action: Action },
    Complete { outcome: Outcome, taken: bool },
}

/// Whether `step` leads from `pre` to `post`.
pub open spec fn stepped(pre: RunState, step: Step, post: RunState) -> bool {
    match step {
        Step::Poll { now, action } => polled(pre, now, action, post),
        Step::Complete { outcome, taken } => completed(pre, outcome, taken, post),
    }
}

/// A history of a run: the states it went through, from a consistent first
/// state on, and the steps that led from each to the next.
pub open spec fn is_history(states: Seq<RunState>, steps: Seq<Step>) -> bool {
    &&& states.len() == steps.len() + 1
    &&& consistent(states[0])
    &&& forall|i: int| 0 <= i < steps.len() ==> stepped(states[i], #[trigger] steps[i], states[i + 1])
}

/// The place of a phase in the order of a run.
pub open spec fn phase_rank(phase: Phase) -> nat {
    match phase {
        Phase::Idle => 0,
        Phase::Running => 1,
        Phase::Draining => 2,
        Phase::Done => 3,
    }
}

/// Law: a run that is set up with at least one permit, and with keys where
/// its operation works on them, starts in a consistent state.
pub proof fn lemma_initial_consistent(
    operation: Operation,
    concurrency: nat,
    duration_seconds: nat,
    keys: Seq<Seq<char>>,
    prefix: Seq<char>,
)
    requires
        concurrency >= 1,
        takes_prepared_key(operation) ==> keys.len() > 0,
    ensures
        consistent(initial(operation, concurrency, duration_seconds, keys, prefix)),
{
}

/// Law: a step leaves a consistent run consistent. It lowers no counter,
/// moves the run to no earlier phase, and changes nothing of what was
/// configured.
pub proof fn lemma_step_advances(pre: RunState, step: Step, post: RunState)
    requires
        consistent(pre),
        stepped(pre, step, post),
    ensures
        consistent(post),
        post.launched >= pre.launched,
        post.succeeded >= pre.succeeded,
        post.failed >= pre.failed,
        post.dropped >= pre.dropped,
        post.samples.len() >= pre.samples.len(),
        phase_rank(post.phase) >= phase_rank(pre.phase),
        post.operation == pre.operation,
        post.concurrency == pre.concurrency,
        post.duration_seconds == pre.duration_seconds,
        post.keys == pre.keys,
        post.prefix == pre.prefix,
{
    broadcast use vstd::multiset::group_multiset_axioms;

}

/// Law: every state of a history is consistent.
pub proof fn lemma_history_consistent(states: Seq<RunState>, steps: Seq<Step>, i: int)
    requires
        is_history(states, steps),
        0 <= i < states.len(),
    ensures
        consistent(states[i]),
    decreases i,
{
    if i > 0 {
        lemma_history_consistent(states, steps, i - 1);
        assert(stepped(states[i - 1], steps[i - 1], states[i - 1 + 1]));
        lemma_step_advances(states[i - 1], steps[i - 1], states[i]);
    }
}

/// Law: at no point of a history are more attempts in flight than there are
/// permits.
pub proof fn lemma_cap_respected(states: Seq<RunState>, steps: Seq<Step>, i: int)
    requires
        is_history(states, steps),
        0 <= i < states.len(),
    ensures
        states[i].in_flight <= states[i].concurrency,
{
    lemma_history_consistent(states, steps, i);
}

/// Law: at every point of a history, successes and failures add up to the
/// attempts that have ended, and the histogram holds one sample for each
/// success whose latency it took. When the run is done, every attempt that
/// was launched has ended; if no latency was beyond the histogram's range,
/// the histogram then holds exactly as many samples as there were successes.
pub proof fn lemma_counts(states: Seq<RunState>, steps: Seq<Step>, i: int)
    requires
        is_history(states, steps),
        0 <= i < states.len(),
    ensures
        states[i].succeeded + states[i].failed == states[i].launched - states[i].in_flight,
        states[i].samples.len() == states[i].succeeded - states[i].dropped,
        states[i].phase == Phase::Done ==> states[i].succeeded + states[i].failed
            == states[i].launched,
        states[i].phase == Phase::Done && states[i].dropped == 0 ==> states[i].samples.len()
            == states[i].succeeded,
{
    lemma_history_consistent(states, steps, i);
}

/// Law: along a history no counter falls and the phase never goes back.
pub proof fn lemma_history_advances(states: Seq<RunState>, steps: Seq<Step>, i: int, j: int)
    requires
        is_history(states, steps),
        0 <= i <= j < states.len(),
    ensures
        states[j].launched >= states[i].launched,
        states[j].succeeded >= states[i].succeeded,
        states[j].failed >= states[i].failed,
        states[j].dropped >= states[i].dropped,
        states[j].samples.len() >= states[i].samples.len(),
        phase_rank(states[j].phase) >= phase_rank(states[i].phase),
        states[j].concurrency == states[i].concurrency,
        states[j].operation == states[i].operation,
        states[j].keys == states[i].keys,
        states[j].prefix == states[i].prefix,
    decreases j - i,
{
    if i < j {
        lemma_history_advances(states, steps, i, j - 1);
        lemma_history_consistent(states, steps, j - 1);
        assert(stepped(states[j - 1], steps[j - 1], states[j - 1 + 1]));
        lemma_step_advances(states[j - 1], steps[j - 1], states[j]);
    }
}

/// Law: an attempt is launched only while the run has time left and a permit
/// is free, and nothing is launched once the run drains or is done. A wait is
/// asked for only while an attempt is in flight. The run is done exactly
/// when it answers that it is finished.
pub proof fn lemma_answers(pre: RunState, now: nat, action: Action, post: RunState)
    requires
        consistent(pre),
        polled(pre, now, action, post),
    ensures
        action is Launch ==> now < post.deadline_us && pre.in_flight < pre.concurrency
            && post.phase == Phase::Running,
        pre.phase == Phase::Draining || pre.phase == Phase::Done ==> !(action is Launch),
        action is Wait ==> pre.in_flight > 0 && post.in_flight == pre.in_flight,
        action is Finished <==> post.phase == Phase::Done,
{
}

/// Law: the attempts of a history are numbered in the order of their
/// launching, so no two of them have one ordinal.
pub proof fn lemma_ordinals_rise(states: Seq<RunState>, steps: Seq<Step>, i: int, j: int)
    requires
        is_history(states, steps),
        0 <= i < j < steps.len(),
        steps[i] matches Step::Poll { action: Action::Launch(_), .. },
        steps[j] matches Step::Poll { action: Action::Launch(_), .. },
    ensures
        launched_ordinal(steps[i]) < launched_ordinal(steps[j]),
{
    lemma_history_consistent(states, steps, i);
    lemma_history_consistent(states, steps, j);
    assert(stepped(states[i], steps[i], states[i + 1]));
    assert(stepped(states[j], steps[j], states[j + 1]));
    lemma_history_advances(states, steps, i + 1, j);
}

/// The ordinal of the attempt that a step launches.
pub open spec fn launched_ordinal(step: Step) -> u64 {
    match step {
        Step::Poll { action: Action::Launch(attempt), .. } => attempt.ordinal,
        _ => 0,
    }
}

/// Law: going round a key set reaches every key: among any `count` ordinals
/// in a row, each place of a set of `count` keys is aimed at once.
pub proof fn lemma_round_robin_covers(count: nat, first: nat, place: nat)
    requires
        place < count,
    ensures
        exists|ordinal: nat|
            first <= ordinal < first + count && #[trigger] (ordinal % count) == place,
{
    let quotient = (first / count) as int;
    let rest = (first % count) as int;
    vstd::arithmetic::div_mod::lemma_fundamental_div_mod(first as int, count as int);
    vstd::arithmetic::div_mod::lemma_mod_bound(first as int, count as int);
    let turns = if place >= rest {
        quotient
    } else {
        quotient + 1
    };
    let ordinal = turns * count + place;
    assert(first == quotient * count + rest) by (nonlinear_arith)
        requires
            first == count * quotient + rest,
    ;
    assert((quotient + 1) * count == quotient * count + count) by (nonlinear_arith);
    vstd::arithmetic::div_mod::lemma_fundamental_div_mod_converse(
        ordinal,
        count as int,
        turns,
        place as int,
    );
    assert(first <= ordinal < first + count);
    assert((ordinal as nat) % count == place);
}

} // verus!
