//! Bookkeeping for asynchronous terrain-generation jobs.
//!
//! A job is spawned for every generation request, handed to a worker, and
//! polled — never blocked on — by the control loop once per tick. Jobs move
//! `Pending -> Running -> Completed -> Materialized` and are never
//! deduplicated, cancelled or discarded: two requests issued before either
//! finishes produce two jobs, and both are materialized. The worker pool and
//! the scene live with the embedding application; it reports job progress
//! here and materializes exactly the jobs `poll` hands back.

use vstd::prelude::*;

use vstd::pervasive::VecAdditionalExecFns;

verus! {

/// Lifecycle of one generation job. `Materialized` is terminal: the job's
/// result has been handed to the scene, and the record only remains as
/// history.
#[derive(Clone, Copy, PartialEq, Eq, Structural, Debug)]
pub enum JobState {
    /// Created, not yet handed to a worker.
    Pending,
    /// Executing on a worker.
    Running,
    /// Result ready, not yet applied to the scene.
    Completed,
    /// Result applied to the scene.
    Materialized,
}

/// One generation job: the request it was spawned for and where it stands.
/// A job is identified by its index in the scheduler's list.
#[derive(Clone, Copy, PartialEq, Eq, Structural, Debug)]
pub struct Job {
    pub seed: u64,
    pub size: u32,
    pub state: JobState,
}

/// A freshly spawned record for `(seed, size)`.
pub open spec fn spec_new_job(seed: u64, size: u32) -> Job {
    Job { seed, size, state: JobState::Pending }
}

/// Job list after spawning a request: the new job is appended, every
/// existing job untouched.
pub open spec fn spec_spawn(jobs: Seq<Job>, seed: u64, size: u32) -> Seq<Job> {
    jobs.push(spec_new_job(seed, size))
}

/// Job list after job `id` moves to state `st`, everything else untouched.
pub open spec fn spec_with_state(jobs: Seq<Job>, id: int, st: JobState) -> Seq<Job> {
    jobs.update(id, Job { state: st, ..jobs[id] })
}

/// Job list after one poll tick: every completed job becomes materialized,
/// every other job is untouched — no job is ever dropped or reordered.
pub open spec fn spec_poll(jobs: Seq<Job>) -> Seq<Job> {
    Seq::new(
        jobs.len(),
        |i: int|
            if jobs[i].state is Completed {
                Job { state: JobState::Materialized, ..jobs[i] }
            } else {
                jobs[i]
            },
    )
}

/// Tracks every spawned job. Jobs are only appended; the index of a job is
/// its identifier for the rest of its life.
pub struct Scheduler {
    pub jobs: Vec<Job>,
}

impl Scheduler {
    /// A scheduler that has seen no request.
    pub fn new() -> (s: Scheduler)
        ensures
            s.jobs@.len() == 0,
    {
        Scheduler { jobs: Vec::new() }
    }

    /// Number of jobs ever spawned.
    pub fn job_count(&self) -> (n: usize)
        ensures
            n == self.jobs@.len(),
    {
        self.jobs.len()
    }

    /// The job with identifier `id`.
    pub fn job(&self, id: usize) -> (j: Job)
        requires
            id < self.jobs@.len(),
        ensures
            j == self.jobs@[id as int],
    {
        self.jobs[id]
    }

    /// Registers a generation request and returns the new job's identifier.
    /// Returns immediately; the caller hands the request to a worker and
    /// reports back through `mark_running` and `mark_completed`.
    pub fn spawn(&mut self, seed: u64, size: u32) -> (id: usize)
        ensures
            final(self).jobs@ == spec_spawn(old(self).jobs@, seed, size),
            id == old(self).jobs@.len(),
    {
        let id: usize = self.jobs.len();
        self.jobs.push(Job { seed, size, state: JobState::Pending });
        id
    }

    /// Records that a worker picked job `id` up.
    pub fn mark_running(&mut self, id: usize)
        requires
            id < old(self).jobs@.len(),
            old(self).jobs@[id as int].state is Pending,
        ensures
            final(self).jobs@ == spec_with_state(old(self).jobs@, id as int, JobState::Running),
    {
        let mut j: Job = self.jobs[id];
        j.state = JobState::Running;
        self.jobs.set(id, j);
    }

    /// Records that the worker running job `id` delivered its result.
    pub fn mark_completed(&mut self, id: usize)
        requires
            id < old(self).jobs@.len(),
            old(self).jobs@[id as int].state is Running,
        ensures
            final(self).jobs@ == spec_with_state(old(self).jobs@, id as int, JobState::Completed),
    {
        let mut j: Job = self.jobs[id];
        j.state = JobState::Completed;
        self.jobs.set(id, j);
    }

    /// One scheduling tick: moves every completed job to `Materialized` and
    /// returns their identifiers in increasing order, so the caller can add
    /// each result to the scene. Jobs in any other state are untouched, and
    /// a tick with nothing completed returns an empty list.
    pub fn poll(&mut self) -> (done: Vec<usize>)
        ensures
            final(self).jobs@ == spec_poll(old(self).jobs@),
            forall|k: int| 0 <= k < done@.len() ==> done@[k] < old(self).jobs@.len()
                && old(self).jobs@[#[trigger] done@[k] as int].state is Completed,
            forall|i: int| 0 <= i < old(self).jobs@.len() && old(self).jobs@[i].state is Completed
                ==> done@.contains(i as usize),
            forall|k1: int, k2: int| 0 <= k1 < k2 < done@.len()
                ==> #[trigger] done@[k1] < #[trigger] done@[k2],
    {
        let ghost jobs0 = self.jobs@;
        let n: usize = self.jobs.len();
        let mut done: Vec<usize> = Vec::new();
        for i in 0..n
            invariant
                n == jobs0.len(),
                self.jobs@.len() == n,
                forall|t: int| 0 <= t < i ==> self.jobs@[t] == spec_poll(jobs0)[t],
                forall|t: int| i <= t < n ==> self.jobs@[t] == jobs0[t],
                forall|k: int| 0 <= k < done@.len() ==> done@[k] < i && jobs0[
                    #[trigger] done@[k] as int
                ].state is Completed,
                forall|t: int| 0 <= t < i && jobs0[t].state is Completed ==> done@.contains(
                    t as usize,
                ),
                forall|k1: int, k2: int| 0 <= k1 < k2 < done@.len()
                    ==> #[trigger] done@[k1] < #[trigger] done@[k2],
        {
            let j: Job = self.jobs[i];
            if j.state == JobState::Completed {
                let ghost done0 = done@;
                let mut m: Job = j;
                m.state = JobState::Materialized;
                self.jobs.set(i, m);
                done.push(i);
                proof {
                    assert forall|t: int| 0 <= t < i + 1 && jobs0[t].state is Completed
                        implies done@.contains(t as usize) by {
                        if t < i {
                            assert(done0.contains(t as usize));
                            let k = choose|k: int| 0 <= k < done0.len() && done0[k] == t as usize;
                            assert(done@[k] == t as usize);
                        } else {
                            assert(done@[done@.len() - 1] == i as usize);
                        }
                    }
                }
            }
        }
        proof {
            assert(self.jobs@ =~= spec_poll(jobs0));
        }
        done
    }
}

/// Two generation requests spawned before either completes — the
/// undeduplicated race the design accepts — are both materialized once each
/// has run, completed and been polled: neither spawn nor the other job's
/// progress discards a job, and one poll tick materializes every completed
/// job.
pub proof fn lemma_racing_jobs_both_materialize(
    jobs0: Seq<Job>,
    seed_a: u64,
    size_a: u32,
    seed_b: u64,
    size_b: u32,
)
    ensures
        ({
            let ia = jobs0.len() as int;
            let ib = ia + 1;
            let spawned = spec_spawn(spec_spawn(jobs0, seed_a, size_a), seed_b, size_b);
            let running = spec_with_state(
                spec_with_state(spawned, ia, JobState::Running),
                ib,
                JobState::Running,
            );
            let completed = spec_with_state(
                spec_with_state(running, ia, JobState::Completed),
                ib,
                JobState::Completed,
            );
            let polled = spec_poll(completed);
            &&& polled.len() == jobs0.len() + 2
            &&& polled[ia].state is Materialized
            &&& polled[ib].state is Materialized
            &&& polled[ia].seed == seed_a && polled[ia].size == size_a
            &&& polled[ib].seed == seed_b && polled[ib].size == size_b
            &&& forall|t: int| 0 <= t < jobs0.len() && !(jobs0[t].state is Completed)
                ==> polled[t] == jobs0[t]
        }),
{
}

} // verus!
