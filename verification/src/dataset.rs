//! The data set of a run: the objects written before a benchmark that reads,
//! and their deletion afterwards.
//!
//! Both go one object at a time. The bookkeeping decides what to write or
//! delete next; its caller performs it against the backend and reports
//! whether it succeeded. A failure is skipped and never ends the work.

use crate::key::{generate_key, is_generated_key, key_texts};
use vstd::prelude::*;

verus! {

/// After how many objects progress is reported.
pub const PROGRESS_INTERVAL: usize = 1000;

/// One object to write.
#[derive(Debug)]
pub struct WriteRequest {
    /// The object's number, counted from 0.
    pub ordinal: usize,
    pub key: String,
    /// The size of the payload in bytes.
    pub size: usize,
}

/// The state of a population, as its contracts speak of it.
#[verifier::ext_equal]
pub struct PopulationState {
    pub prefix: Seq<char>,
    /// The number of objects asked for.
    pub requested: nat,
    pub object_size: nat,
    /// The number of writes handed out.
    pub issued: nat,
    /// The key of the write that was handed out and is not yet reported.
    pub pending: Option<Seq<char>>,
    /// The keys of the writes that succeeded, in the order of their writing.
    pub keys: Seq<Seq<char>>,
}

/// What holds of every state of a population.
pub open spec fn population_consistent(s: PopulationState) -> bool {
    &&& s.issued <= s.requested
    &&& s.keys.len() + (if s.pending is Some { 1nat } else { 0nat }) <= s.issued
}

/// The state of a population before its first write.
pub open spec fn population_start(prefix: Seq<char>, requested: nat, object_size: nat) -> PopulationState {
    PopulationState { prefix, requested, object_size, issued: 0, pending: None, keys: Seq::empty() }
}

/// The step of asking a population for its next write.
pub open spec fn write_issued(
    pre: PopulationState,
    request: Option<WriteRequest>,
    post: PopulationState,
) -> bool {
    if pre.pending is None && pre.issued < pre.requested {
        &&& request matches Some(r)
        &&& r.ordinal == pre.issued
        &&& r.size == pre.object_size
        &&& is_generated_key(r.key@, pre.prefix, pre.issued)
        &&& post == PopulationState { issued: pre.issued + 1, pending: Some(r.key@), ..pre }
    } else {
        request is None && post == pre
    }
}

/// The step of reporting the write that is pending: a success adds its key, a
/// failure adds nothing. Progress is due after every thousandth write, if it
/// succeeded.
pub open spec fn write_reported(
    pre: PopulationState,
    succeeded: bool,
    progress: Option<usize>,
    post: PopulationState,
) -> bool {
    match pre.pending {
        Some(key) => {
            &&& post == PopulationState {
                pending: None,
                keys: if succeeded {
                    pre.keys.push(key)
                } else {
                    pre.keys
                },
                ..pre
            }
            &&& progress == if succeeded && pre.issued % (PROGRESS_INTERVAL as nat) == 0 {
                Some(pre.issued as usize)
            } else {
                None
            }
        },
        None => post == pre && progress is None,
    }
}

/// The population of a data set.
pub struct Population {
    prefix: String,
    requested: usize,
    object_size: usize,
    issued: usize,
    pending: Option<String>,
    keys: Vec<String>,
}

impl View for Population {
    type V = PopulationState;

    closed spec fn view(&self) -> PopulationState {
        PopulationState {
            prefix: self.prefix@,
            requested: self.requested as nat,
            object_size: self.object_size as nat,
            issued: self.issued as nat,
            pending: match self.pending {
                Some(key) => Some(key@),
                None => None,
            },
            keys: key_texts(self.keys@),
        }
    }
}

impl Population {
    /// Whether the population is in a state that it can reach.
    pub open spec fn wf(&self) -> bool {
        population_consistent(self@)
    }

    /// Sets up the writing of `requested` objects of `object_size` bytes under
    /// `prefix`.
    pub fn new(prefix: String, requested: usize, object_size: usize) -> (population: Population)
        ensures
            population.wf(),
            population@ == population_start(prefix@, requested as nat, object_size as nat),
    {
        let population = Population {
            prefix,
            requested,
            object_size,
            issued: 0,
            pending: None,
            keys: Vec::new(),
        };
        assert(population@ =~= population_start(prefix@, requested as nat, object_size as nat));
        population
    }

    /// The next object to write, under a fresh key, or `None` where all
    /// objects have been handed out or one is still to be reported.
    pub fn next_write(&mut self) -> (request: Option<WriteRequest>)
        requires
            old(self).wf(),
        ensures
            final(self).wf(),
            write_issued(old(self)@, request, final(self)@),
    {
        if self.pending.is_some() || self.issued >= self.requested {
            return None;
        }
        let ordinal = self.issued;
        let key = generate_key(self.prefix.as_str(), ordinal as u64);
        self.pending = Some(key.clone());
        self.issued = ordinal + 1;
        let request = WriteRequest { ordinal, key, size: self.object_size };
        assert(self@ =~= PopulationState {
            issued: old(self)@.issued + 1,
            pending: Some(request.key@),
            ..old(self)@
        });
        Some(request)
    }

    /// Reports whether the pending write succeeded. Gives the number of
    /// writes so far where progress is due. With no write pending nothing
    /// changes.
    pub fn record_outcome(&mut self, succeeded: bool) -> (progress: Option<usize>)
        requires
            old(self).wf(),
        ensures
            final(self).wf(),
            write_reported(old(self)@, succeeded, progress, final(self)@),
    {
        let pending = self.pending.take();
        match pending {
            None => {
                assert(self@ =~= old(self)@);
                None
            },
            Some(key) => {
                if succeeded {
                    self.keys.push(key);
                    assert(key_texts(self.keys@) =~= key_texts(old(self).keys@).push(key@));
                }
                assert(self@ =~= PopulationState {
                    pending: None,
                    keys: if succeeded {
                        old(self)@.keys.push(key@)
                    } else {
                        old(self)@.keys
                    },
                    ..old(self)@
                });
                if succeeded && self.issued % PROGRESS_INTERVAL == 0 {
                    Some(self.issued)
                } else {
                    None
                }
            },
        }
    }

    /// Whether every object has been written or skipped.
    pub fn is_complete(&self) -> (complete: bool)
        ensures
            complete <==> self@.issued == self@.requested && self@.pending is None,
    {
        self.issued == self.requested && self.pending.is_none()
    }

    /// The number of objects written so far.
    pub fn created(&self) -> (n: usize)
        ensures
            n == self@.keys.len(),
    {
        self.keys.len()
    }

    /// The keys of the objects written: the key set of the run.
    pub fn into_keys(self) -> (keys: Vec<String>)
        ensures
            key_texts(keys@) == self@.keys,
    {
        self.keys
    }
}

/// A payload of zero bytes.
pub fn zero_payload(size: usize) -> (payload: Vec<u8>)
    ensures
        payload@ == Seq::new(size as nat, |i: int| 0u8),
{
    let payload = vec![0u8; size];
    assert(payload@ =~= Seq::new(size as nat, |i: int| 0u8));
    payload
}

/// The state of a deletion, as its contracts speak of it.
#[verifier::ext_equal]
pub struct CleanupState {
    pub keys: Seq<Seq<char>>,
    /// The number of deletions handed out.
    pub issued: nat,
    /// Whether a deletion was handed out and is not yet reported.
    pub pending: bool,
    /// The number of deletions that succeeded.
    pub deleted: nat,
}

/// What holds of every state of a deletion.
pub open spec fn cleanup_consistent(s: CleanupState) -> bool {
    &&& s.issued <= s.keys.len()
    &&& s.deleted + (if s.pending { 1nat } else { 0nat }) <= s.issued
}

/// The step of asking a deletion for its next key.
pub open spec fn delete_issued(pre: CleanupState, key: Option<String>, post: CleanupState) -> bool {
    if !pre.pending && pre.issued < pre.keys.len() {
        &&& key matches Some(k)
        &&& k@ == pre.keys[pre.issued as int]
        &&& post == CleanupState { issued: pre.issued + 1, pending: true, ..pre }
    } else {
        key is None && post == pre
    }
}

/// The step of reporting the deletion that is pending: a success counts, a
/// failure does not. Progress is due at every thousandth success.
pub open spec fn delete_reported(
    pre: CleanupState,
    succeeded: bool,
    progress: Option<usize>,
    post: CleanupState,
) -> bool {
    if pre.pending {
        &&& post == CleanupState {
            pending: false,
            deleted: if succeeded {
                pre.deleted + 1
            } else {
                pre.deleted
            },
            ..pre
        }
        &&& progress == if succeeded && (pre.deleted + 1) % (PROGRESS_INTERVAL as nat) == 0 {
            Some((pre.deleted + 1) as usize)
        } else {
            None
        }
    } else {
        post == pre && progress is None
    }
}

/// The deletion of a key set.
pub struct Cleanup {
    keys: Vec<String>,
    issued: usize,
    pending: bool,
    deleted: usize,
}

impl View for Cleanup {
    type V = CleanupState;

    closed spec fn view(&self) -> CleanupState {
        CleanupState {
            keys: key_texts(self.keys@),
            issued: self.issued as nat,
            pending: self.pending,
            deleted: self.deleted as nat,
        }
    }
}

impl Cleanup {
    /// Whether the deletion is in a state that it can reach.
    pub open spec fn wf(&self) -> bool {
        cleanup_consistent(self@)
    }

    /// Sets up the deletion of `keys`.
    pub fn new(keys: Vec<String>) -> (cleanup: Cleanup)
        ensures
            cleanup.wf(),
            cleanup@ == (CleanupState {
                keys: key_texts(keys@),
                issued: 0,
                pending: false,
                deleted: 0,
            }),
    {
        Cleanup { keys, issued: 0, pending: false, deleted: 0 }
    }

    /// The next key to delete, or `None` where every key has been handed out
    /// or a deletion is still to be reported.
    pub fn next_delete(&mut self) -> (key: Option<String>)
        requires
            old(self).wf(),
        ensures
            final(self).wf(),
            delete_issued(old(self)@, key, final(self)@),
    {
        if self.pending || self.issued >= self.keys.len() {
            return None;
        }
        let key = self.keys[self.issued].clone();
        self.issued = self.issued + 1;
        self.pending = true;
        Some(key)
    }

    /// Reports whether the pending deletion succeeded. Gives the number of
    /// objects deleted so far where progress is due. With no deletion
    /// pending nothing changes.
    pub fn record_outcome(&mut self, succeeded: bool) -> (progress: Option<usize>)
        requires
            old(self).wf(),
        ensures
            final(self).wf(),
            delete_reported(old(self)@, succeeded, progress, final(self)@),
    {
        if !self.pending {
            return None;
        }
        self.pending = false;
        if succeeded {
            self.deleted = self.deleted + 1;
            if self.deleted % PROGRESS_INTERVAL == 0 {
                return Some(self.deleted);
            }
        }
        None
    }

    /// The number of keys in the set.
    pub fn total(&self) -> (n: usize)
        ensures
            n == self@.keys.len(),
    {
        self.keys.len()
    }

    /// The number of objects deleted so far.
    pub fn deleted(&self) -> (n: usize)
        ensures
            n == self@.deleted,
    {
        self.deleted
    }
}

/// One step of a population: the handing out of a write, or the report of
/// how it ended.
pub enum PopulationStep {
    Issue { request: Option<WriteRequest> },
    Report { succeeded: bool, progress: Option<usize> },
}

/// Whether `step` leads from `pre` to `post`.
pub open spec fn population_stepped(
    pre: PopulationState,
    step: PopulationStep,
    post: PopulationState,
) -> bool {
    match step {
        PopulationStep::Issue { request } => write_issued(pre, request, post),
        PopulationStep::Report { succeeded, progress } => write_reported(
            pre,
            succeeded,
            progress,
            post,
        ),
    }
}

/// A history of a population: the states it went through, from its start on,
/// and the steps that led from each to the next.
pub open spec fn is_population_history(
    states: Seq<PopulationState>,
    steps: Seq<PopulationStep>,
) -> bool {
    &&& states.len() == steps.len() + 1
    &&& states[0] == population_start(states[0].prefix, states[0].requested, states[0].object_size)
    &&& forall|i: int|
        0 <= i < steps.len() ==> population_stepped(states[i], #[trigger] steps[i], states[i + 1])
}

/// The number of writes that the first `n` steps of a history reported as
/// failed.
pub open spec fn failed_writes(
    states: Seq<PopulationState>,
    steps: Seq<PopulationStep>,
    n: int,
) -> nat
    decreases n,
{
    if n <= 0 {
        0
    } else {
        let failed = steps[n - 1] matches PopulationStep::Report { succeeded: false, .. }
            && states[n - 1].pending is Some;
        failed_writes(states, steps, n - 1) + if failed {
            1nat
        } else {
            0nat
        }
    }
}

/// Law: a step leaves a consistent population consistent, asks for no other
/// number of objects, takes back no write and drops no key.
pub proof fn lemma_population_steps(pre: PopulationState, step: PopulationStep, post: PopulationState)
    requires
        population_consistent(pre),
        population_stepped(pre, step, post),
    ensures
        population_consistent(post),
        post.requested == pre.requested,
        post.issued >= pre.issued,
        post.keys.len() >= pre.keys.len(),
{
}

/// Law: at every point of a history, each write that was handed out is
/// pending, has failed, or has left its key: the key set holds one key for
/// every write that succeeded and none for a write that failed. So when all
/// objects asked for have been written or skipped, the key set is short of
/// their number by the number of failures.
pub proof fn lemma_population_accounts(
    states: Seq<PopulationState>,
    steps: Seq<PopulationStep>,
    n: int,
)
    requires
        is_population_history(states, steps),
        0 <= n < states.len(),
    ensures
        population_consistent(states[n]),
        states[n].requested == states[0].requested,
        states[n].keys.len() + failed_writes(states, steps, n) + (if states[n].pending is Some {
            1nat
        } else {
            0nat
        }) == states[n].issued,
        states[n].issued == states[n].requested && states[n].pending is None
            ==> states[n].keys.len() == states[n].requested - failed_writes(states, steps, n),
    decreases n,
{
    if n > 0 {
        lemma_population_accounts(states, steps, n - 1);
        assert(population_stepped(states[n - 1], steps[n - 1], states[n - 1 + 1]));
        lemma_population_steps(states[n - 1], steps[n - 1], states[n]);
    }
}

/// Law: a key set holds no more keys than writes were handed out, and no more
/// of those than objects were asked for. It may hold fewer: a failed write
/// leaves no key.
pub proof fn lemma_population_bounds(s: PopulationState)
    requires
        population_consistent(s),
    ensures
        s.keys.len() <= s.issued <= s.requested,
{
}

/// One step of a deletion: the handing out of a key, or the report of how
/// its deletion ended.
pub enum CleanupStep {
    Issue { key: Option<String> },
    Report { succeeded: bool, progress: Option<usize> },
}

/// Whether `step` leads from `pre` to `post`.
pub open spec fn cleanup_stepped(pre: CleanupState, step: CleanupStep, post: CleanupState) -> bool {
    match step {
        CleanupStep::Issue { key } => delete_issued(pre, key, post),
        CleanupStep::Report { succeeded, progress } => delete_reported(
            pre,
            succeeded,
            progress,
            post,
        ),
    }
}

/// A history of a deletion: the states it went through, from its start on,
/// and the steps that led from each to the next.
pub open spec fn is_cleanup_history(states: Seq<CleanupState>, steps: Seq<CleanupStep>) -> bool {
    &&& states.len() == steps.len() + 1
    &&& states[0] == (CleanupState { keys: states[0].keys, issued: 0, pending: false, deleted: 0 })
    &&& forall|i: int|
        0 <= i < steps.len() ==> cleanup_stepped(states[i], #[trigger] steps[i], states[i + 1])
}

/// The number of deletions that the first `n` steps of a history reported as
/// failed.
pub open spec fn failed_deletions(states: Seq<CleanupState>, steps: Seq<CleanupStep>, n: int) -> nat
    decreases n,
{
    if n <= 0 {
        0
    } else {
        let failed = steps[n - 1] matches CleanupStep::Report { succeeded: false, .. }
            && states[n - 1].pending;
        failed_deletions(states, steps, n - 1) + if failed {
            1nat
        } else {
            0nat
        }
    }
}

/// Law: a step leaves a consistent deletion consistent, keeps its keys, takes
/// back no deletion and lowers no count.
pub proof fn lemma_cleanup_steps(pre: CleanupState, step: CleanupStep, post: CleanupState)
    requires
        cleanup_consistent(pre),
        cleanup_stepped(pre, step, post),
    ensures
        cleanup_consistent(post),
        post.keys == pre.keys,
        post.issued >= pre.issued,
        post.deleted >= pre.deleted,
{
}

/// Law: at every point of a history, each deletion that was handed out is
/// pending, has failed, or is counted: the count is that of the deletions
/// that succeeded. It never exceeds the number of keys.
pub proof fn lemma_cleanup_accounts(states: Seq<CleanupState>, steps: Seq<CleanupStep>, n: int)
    requires
        is_cleanup_history(states, steps),
        0 <= n < states.len(),
    ensures
        cleanup_consistent(states[n]),
        states[n].keys == states[0].keys,
        states[n].deleted + failed_deletions(states, steps, n) + (if states[n].pending {
            1nat
        } else {
            0nat
        }) == states[n].issued,
        states[n].deleted <= states[n].issued <= states[n].keys.len(),
    decreases n,
{
    if n > 0 {
        lemma_cleanup_accounts(states, steps, n - 1);
        assert(cleanup_stepped(states[n - 1], steps[n - 1], states[n - 1 + 1]));
        lemma_cleanup_steps(states[n - 1], steps[n - 1], states[n]);
    }
}

} // verus!
