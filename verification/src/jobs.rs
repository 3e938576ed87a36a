//! Bookkeeping of build and run jobs: the state of each job, and counts
//! over a list of jobs.
use std::collections::HashMap;
use vstd::prelude::*;

verus! {

broadcast use vstd::std_specs::hash::group_hash_axioms;

/// Where a job stands.
#[derive(Debug, Clone, Copy, PartialEq, Eq, Structural)]
pub enum JobState {
    Planned,
    Running,
    Completed,
    Failed,
}

/// Something that knows the state of jobs by their id.
pub trait JobController {
    /// The state of job `id`, as a mathematical function.
    spec fn spec_job_state(&self, id: u64) -> JobState;

    /// The state of job `id`.
    fn job_state(&self, id: u64) -> (r: JobState)
        ensures
            r == self.spec_job_state(id),
    ;
}

/// Job states recorded as jobs start and finish; a job never seen is
/// planned.
pub struct BatchJobController {
    states: HashMap<u64, JobState>,
}

impl BatchJobController {
    /// The recorded states, by job id.
    pub closed spec fn view(&self) -> Map<u64, JobState> {
        self.states@
    }

    /// A controller with no job recorded.
    pub fn new() -> (r: Self)
        ensures
            r.view() == Map::<u64, JobState>::empty(),
    {
        BatchJobController { states: HashMap::new() }
    }

    /// Records that job `id` has started.
    pub fn add_job(&mut self, id: u64)
        ensures
            final(self).view() == old(self).view().insert(id, JobState::Running),
    {
        self.states.insert(id, JobState::Running);
    }

    /// Records that job `id` has completed.
    pub fn end_job(&mut self, id: u64)
        ensures
            final(self).view() == old(self).view().insert(id, JobState::Completed),
    {
        self.states.insert(id, JobState::Completed);
    }

    /// Records that job `id` has failed.
    pub fn fail_job(&mut self, id: u64)
        ensures
            final(self).view() == old(self).view().insert(id, JobState::Failed),
    {
        self.states.insert(id, JobState::Failed);
    }
}

/// The state of `id` in a record of states: planned when not recorded.
pub open spec fn recorded_state(m: Map<u64, JobState>, id: u64) -> JobState {
    if m.contains_key(id) {
        m[id]
    } else {
        JobState::Planned
    }
}

impl JobController for BatchJobController {
    open spec fn spec_job_state(&self, id: u64) -> JobState {
        recorded_state(self.view(), id)
    }

    fn job_state(&self, id: u64) -> (r: JobState) {
        match self.states.get(&id) {
            Some(s) => *s,
            None => JobState::Planned,
        }
    }
}

/// Counts of jobs by state.
#[derive(Default)]
pub struct JobStats {
    pub planned: usize,
    pub running: usize,
    pub completed: usize,
    pub failed: usize,
}

impl JobStats {
    /// Total number of jobs counted.
    pub fn sum(&self) -> (r: usize)
        requires
            self.planned + self.running + self.completed + self.failed <= usize::MAX,
        ensures
            r == self.planned + self.running + self.completed + self.failed,
    {
        self.planned + self.running + self.completed + self.failed
    }

    /// No job is planned or running any more.
    pub fn complete(&self) -> (r: bool)
        requires
            self.planned + self.running <= usize::MAX,
        ensures
            r == (self.planned == 0 && self.running == 0),
    {
        (self.planned + self.running) == 0
    }
}

/// Number of the jobs `ids` that are in state `st` according to `states`.
pub open spec fn count_state(ids: Seq<u64>, states: spec_fn(u64) -> JobState, st: JobState) -> nat
    decreases ids.len(),
{
    if ids.len() == 0 {
        0
    } else {
        count_state(ids.drop_last(), states, st) + if states(ids.last()) == st {
            1nat
        } else {
            0nat
        }
    }
}

/// Counts the jobs `ids` by the state that `ctrl` reports for each.
pub fn job_stats<C: JobController>(ids: &[u64], ctrl: &C) -> (r: JobStats)
    ensures
        r.planned == count_state(ids@, |id: u64| ctrl.spec_job_state(id), JobState::Planned),
        r.running == count_state(ids@, |id: u64| ctrl.spec_job_state(id), JobState::Running),
        r.completed == count_state(ids@, |id: u64| ctrl.spec_job_state(id), JobState::Completed),
        r.failed == count_state(ids@, |id: u64| ctrl.spec_job_state(id), JobState::Failed),
{
    let ghost f = |id: u64| ctrl.spec_job_state(id);
    let mut stats = JobStats { planned: 0, running: 0, completed: 0, failed: 0 };
    let mut i: usize = 0;
    while i < ids.len()
        invariant
            i <= ids@.len(),
            f == (|id: u64| ctrl.spec_job_state(id)),
            stats.planned == count_state(ids@.take(i as int), f, JobState::Planned),
            stats.running == count_state(ids@.take(i as int), f, JobState::Running),
            stats.completed == count_state(ids@.take(i as int), f, JobState::Completed),
            stats.failed == count_state(ids@.take(i as int), f, JobState::Failed),
            stats.planned + stats.running + stats.completed + stats.failed == i,
        decreases ids@.len() - i,
    {
        let st = ctrl.job_state(ids[i]);
        proof {
            let t = ids@.take(i + 1);
            assert(t.drop_last() =~= ids@.take(i as int));
            assert(t.last() == ids@[i as int]);
        }
        match st {
            JobState::Planned => stats.planned = stats.planned + 1,
            JobState::Running => stats.running = stats.running + 1,
            JobState::Completed => stats.completed = stats.completed + 1,
            JobState::Failed => stats.failed = stats.failed + 1,
        }
        i = i + 1;
    }
    proof {
        assert(ids@.take(ids@.len() as int) =~= ids@);
    }
    stats
}

/// Every job is counted in exactly one state: the four counts add up to
/// the number of jobs.
pub proof fn lemma_counts_cover(ids: Seq<u64>, states: spec_fn(u64) -> JobState)
    ensures
        count_state(ids, states, JobState::Planned) + count_state(ids, states, JobState::Running)
            + count_state(ids, states, JobState::Completed) + count_state(
            ids,
            states,
            JobState::Failed,
        ) == ids.len(),
    decreases ids.len(),
{
    if ids.len() > 0 {
        lemma_counts_cover(ids.drop_last(), states);
    }
}

/// What a worker reports about a job.
pub enum BatchEvent {
    /// The job has started.
    JobBegin(u64),
    /// The job has ended, successfully or not.
    JobEnd(u64, bool),
}

/// What reading the workers' reports gives.
pub enum Received {
    Event(BatchEvent),
    /// No report is waiting.
    Empty,
    /// Every worker is gone.
    Disconnected,
}

/// What to do after a report.
#[derive(Debug, Clone, Copy, PartialEq, Eq, Structural)]
pub enum BatchStep {
    /// Read the next report.
    ReadMore,
    /// Stop reading for now; the run goes on.
    Pause,
    /// Stop: the run is over.
    Finish,
}

impl BatchJobController {
    /// Takes in one report: a job that starts is running, a job that ends
    /// is completed or failed; no report pauses reading, and the end of
    /// all workers ends the run.
    pub fn handle(&mut self, r: Received) -> (step: BatchStep)
        ensures
            match r {
                Received::Event(BatchEvent::JobBegin(id)) => step == BatchStep::ReadMore
                    && final(self).view() == old(self).view().insert(id, JobState::Running),
                Received::Event(BatchEvent::JobEnd(id, ok)) => step == BatchStep::ReadMore
                    && final(self).view() == old(self).view().insert(
                    id,
                    if ok {
                        JobState::Completed
                    } else {
                        JobState::Failed
                    },
                ),
                Received::Empty => step == BatchStep::Pause && final(self).view() == old(
                    self,
                ).view(),
                Received::Disconnected => step == BatchStep::Finish && final(self).view() == old(
                    self,
                ).view(),
            },
    {
        match r {
            Received::Event(BatchEvent::JobBegin(id)) => {
                self.add_job(id);
                BatchStep::ReadMore
            },
            Received::Event(BatchEvent::JobEnd(id, ok)) => {
                if ok {
                    self.end_job(id);
                } else {
                    self.fail_job(id);
                }
                BatchStep::ReadMore
            },
            Received::Empty => BatchStep::Pause,
            Received::Disconnected => BatchStep::Finish,
        }
    }
}

/// The run is done when none of its jobs is planned or running.
pub fn batch_done<C: JobController>(ids: &[u64], ctrl: &C) -> (r: bool)
    ensures
        r == (count_state(ids@, |id: u64| ctrl.spec_job_state(id), JobState::Planned) == 0
            && count_state(ids@, |id: u64| ctrl.spec_job_state(id), JobState::Running) == 0),
{
    let n = ids.len();
    let stats = job_stats(ids, ctrl);
    proof {
        lemma_counts_cover(ids@, |id: u64| ctrl.spec_job_state(id));
        assert(stats.planned + stats.running <= n);
    }
    stats.complete()
}

/// What is read back after recording a state is that state, and the
/// other jobs read as before.
pub proof fn lemma_record_then_read(m: Map<u64, JobState>, id: u64, st: JobState, other: u64)
    ensures
        recorded_state(m.insert(id, st), id) == st,
        other != id ==> recorded_state(m.insert(id, st), other) == recorded_state(m, other),
{
}

} // verus!
