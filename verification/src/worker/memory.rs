//! In-memory worker spawner for local development and tests.

use crate::clock::new_id;
use crate::text::{byte_len, chars_of, concat_strings, copy_string, fit_prefix, fit_prefix_from, owned, str_eq, string_of, sub_chars};
use crate::worker::spec::{default_config, ConfigView, WorkerError, WorkerJobHandle, WorkerJobSpec, WorkerJobStatus, WorkerSpawnerConfig};
use vstd::prelude::*;

verus! {

broadcast use vstd::string::group_string_axioms;

/// The jobs a list of (name, status) pairs records: a later pair for a
/// name replaces an earlier one.
pub open spec fn status_map(v: Seq<(String, WorkerJobStatus)>) -> Map<Seq<char>, WorkerJobStatus>
    decreases v.len(),
{
    if v.len() == 0 {
        Map::empty()
    } else {
        status_map(v.drop_last()).insert(v.last().0@, v.last().1)
    }
}

/// No two pairs name the same job.
pub open spec fn unique_names(v: Seq<(String, WorkerJobStatus)>) -> bool {
    forall|i: int, j: int| 0 <= i < j < v.len() ==> (#[trigger] v[i]).0@ != (#[trigger] v[j]).0@
}

/// The part of a task id a job name keeps: its first 8 bytes.
pub open spec fn job_suffix(task_id: Seq<char>) -> Seq<char> {
    task_id.take(fit_prefix_from(task_id, 8, 0))
}

/// Whether the task id can be cut after 8 bytes: it is no longer, or its
/// 8th byte ends a character.
pub open spec fn cuts_cleanly(task_id: Seq<char>) -> bool {
    fit_prefix_from(task_id, 8, 0) == task_id.len() || byte_len(job_suffix(task_id)) == 8
}

/// The job name for a task: `oxg-worker-` and the first 8 bytes of its id.
pub open spec fn job_name_for(task_id: Seq<char>) -> Seq<char> {
    "oxg-worker-"@ + job_suffix(task_id)
}

proof fn lemma_status_absent(v: Seq<(String, WorkerJobStatus)>, k: Seq<char>)
    requires
        forall|i: int| 0 <= i < v.len() ==> (#[trigger] v[i]).0@ != k,
    ensures
        !status_map(v).contains_key(k),
    decreases v.len(),
{
    if v.len() > 0 {
        lemma_status_absent(v.drop_last(), k);
        assert(v.last() == v[v.len() - 1]);
    }
}

proof fn lemma_status_at(v: Seq<(String, WorkerJobStatus)>, p: int)
    requires
        unique_names(v),
        0 <= p < v.len(),
    ensures
        status_map(v).contains_key(v[p].0@),
        status_map(v)[v[p].0@] == v[p].1,
    decreases v.len(),
{
    if p < v.len() - 1 {
        let init = v.drop_last();
        assert(unique_names(init)) by {
            assert forall|i: int, j: int| 0 <= i < j < init.len() implies (#[trigger] init[i]).0@ != (#[trigger] init[j]).0@ by {
                assert(init[i] == v[i] && init[j] == v[j]);
            }
        }
        assert(init[p] == v[p]);
        lemma_status_at(init, p);
        assert(v[p].0@ != v[v.len() - 1].0@);
    }
}

proof fn lemma_status_update(v: Seq<(String, WorkerJobStatus)>, p: int, x: (String, WorkerJobStatus))
    requires
        unique_names(v),
        0 <= p < v.len(),
        x.0@ == v[p].0@,
    ensures
        status_map(v.update(p, x)) == status_map(v).insert(x.0@, x.1),
        unique_names(v.update(p, x)),
    decreases v.len(),
{
    let w = v.update(p, x);
    let init = v.drop_last();
    assert(unique_names(init)) by {
        assert forall|i: int, j: int| 0 <= i < j < init.len() implies (#[trigger] init[i]).0@ != (#[trigger] init[j]).0@ by {
            assert(init[i] == v[i] && init[j] == v[j]);
        }
    }
    assert forall|i: int, j: int| 0 <= i < j < w.len() implies (#[trigger] w[i]).0@ != (#[trigger] w[j]).0@ by {
        assert(v[i].0@ != v[j].0@);
    }
    if p == v.len() - 1 {
        assert(w.drop_last() == init);
        assert(status_map(v).insert(x.0@, x.1) =~= status_map(init).insert(x.0@, x.1));
    } else {
        assert(w.drop_last() == init.update(p, x));
        assert(init[p] == v[p]);
        lemma_status_update(init, p, x);
        let last = v[v.len() - 1];
        assert(w.last() == last);
        assert(last.0@ != x.0@);
        assert(status_map(w) =~= status_map(v).insert(x.0@, x.1));
    }
}

/// Simulates worker job spawning without a cluster: every spawned job runs
/// until it is marked complete.
#[derive(Debug)]
pub struct MemoryWorkerSpawner {
    config: WorkerSpawnerConfig,
    jobs: Vec<(String, WorkerJobStatus)>,
}

impl View for MemoryWorkerSpawner {
    type V = Map<Seq<char>, WorkerJobStatus>;

    closed spec fn view(&self) -> Map<Seq<char>, WorkerJobStatus> {
        status_map(self.jobs@)
    }
}

impl MemoryWorkerSpawner {
    /// Each job is listed once.
    pub closed spec fn inv(&self) -> bool {
        unique_names(self.jobs@)
    }

    /// The configuration it spawns with.
    pub closed spec fn config_view(&self) -> ConfigView {
        self.config@
    }

    /// A spawner with the given configuration and no jobs.
    pub fn new(config: WorkerSpawnerConfig) -> (r: Self)
        ensures
            r.inv(),
            r.config_view() == config@,
            r@ == Map::<Seq<char>, WorkerJobStatus>::empty(),
    {
        let r = MemoryWorkerSpawner { config, jobs: Vec::new() };
        assert(r@ == Map::<Seq<char>, WorkerJobStatus>::empty());
        r
    }

    /// A spawner with the default configuration.
    pub fn default_spawner() -> (r: Self)
        ensures
            r.inv(),
            r.config_view() == default_config(),
            r@ == Map::<Seq<char>, WorkerJobStatus>::empty(),
    {
        MemoryWorkerSpawner::new(WorkerSpawnerConfig::default())
    }

    fn position(&self, name: &str) -> (r: Option<usize>)
        ensures
            match r {
                Some(p) => p < self.jobs@.len() && self.jobs@[p as int].0@ == name@,
                None => forall|i: int| 0 <= i < self.jobs@.len() ==> (#[trigger] self.jobs@[i]).0@ != name@,
            },
    {
        let mut i: usize = 0;
        while i < self.jobs.len()
            invariant
                i <= self.jobs@.len(),
                forall|k: int| 0 <= k < i ==> (#[trigger] self.jobs@[k]).0@ != name@,
            decreases self.jobs@.len() - i,
        {
            if str_eq(self.jobs[i].0.as_str(), name) {
                return Some(i);
            }
            i += 1;
        }
        None
    }

    fn set_status(&mut self, name: String, status: WorkerJobStatus)
        requires
            old(self).inv(),
        ensures
            final(self).inv(),
            final(self).config_view() == old(self).config_view(),
            final(self)@ == old(self)@.insert(name@, status),
    {
        match self.position(name.as_str()) {
            Some(p) => {
                let ghost v = self.jobs@;
                let ghost x = (name, status);
                proof {
                    lemma_status_update(v, p as int, x);
                }
                self.jobs.set(p, (name, status));
                assert(self.jobs@ == v.update(p as int, x));
            },
            None => {
                let ghost v = self.jobs@;
                let ghost k = name@;
                self.jobs.push((name, status));
                proof {
                    assert(self.jobs@.drop_last() == v);
                    assert forall|i: int, j: int| 0 <= i < j < self.jobs@.len() implies (#[trigger] self.jobs@[i]).0@ != (
                    #[trigger] self.jobs@[j]).0@ by {
                        assert(self.jobs@[i] == v[i]);
                        if j < v.len() {
                            assert(self.jobs@[j] == v[j]);
                        }
                    }
                }
            },
        }
    }

    /// Spawns a simulated job for the task, named `oxg-worker-` and the
    /// first 8 bytes of the task id, in the configured namespace; the job
    /// is running at once.
    pub fn spawn(&mut self, spec: &WorkerJobSpec) -> (r: Result<WorkerJobHandle, WorkerError>)
        requires
            old(self).inv(),
            cuts_cleanly(spec.task_id@),
        ensures
            final(self).inv(),
            final(self).config_view() == old(self).config_view(),
            r matches Ok(h) && h.job_name@ == job_name_for(spec.task_id@) && h.namespace@ == old(self).config_view().namespace,
            final(self)@ == old(self)@.insert(job_name_for(spec.task_id@), WorkerJobStatus::Running),
    {
        let v = chars_of(spec.task_id.as_str());
        let n = fit_prefix(v.as_slice(), 8);
        let suffix = sub_chars(v.as_slice(), 0, n);
        let tail = string_of(suffix.as_slice());
        let job_name = concat_strings("oxg-worker-", tail.as_str());
        let handle = WorkerJobHandle { job_name: copy_string(&job_name), namespace: copy_string(&self.config.namespace) };
        self.set_status(job_name, WorkerJobStatus::Running);
        Ok(handle)
    }

    /// The status of a job: not found unless it was spawned or completed.
    pub fn status(&self, job_name: &str) -> (r: Result<WorkerJobStatus, WorkerError>)
        requires
            self.inv(),
        ensures
            r matches Ok(s) && s == if self@.contains_key(job_name@) {
                self@[job_name@]
            } else {
                WorkerJobStatus::NotFound
            },
    {
        match self.position(job_name) {
            Some(p) => {
                proof {
                    lemma_status_at(self.jobs@, p as int);
                }
                Ok(self.jobs[p].1)
            },
            None => {
                proof {
                    lemma_status_absent(self.jobs@, job_name@);
                }
                Ok(WorkerJobStatus::NotFound)
            },
        }
    }

    /// Marks a simulated job as succeeded.
    pub fn complete_job(&mut self, job_name: &str)
        requires
            old(self).inv(),
        ensures
            final(self).inv(),
            final(self).config_view() == old(self).config_view(),
            final(self)@ == old(self)@.insert(job_name@, WorkerJobStatus::Succeeded),
    {
        self.set_status(owned(job_name), WorkerJobStatus::Succeeded);
    }

    /// A fresh job name: `oxg-worker-` and a random UUID.
    pub fn next_job_name(&self) -> (r: String)
        ensures
            r@.len() == "oxg-worker-"@.len() + 36,
            r@.take("oxg-worker-"@.len() as int) == "oxg-worker-"@,
    {
        let id = new_id();
        let r = concat_strings("oxg-worker-", id.as_str());
        assert(r@.take("oxg-worker-"@.len() as int) =~= "oxg-worker-"@);
        r
    }
}

impl Default for MemoryWorkerSpawner {
    fn default() -> (r: Self)
        ensures
            r.inv(),
            r.config_view() == default_config(),
            r@ == Map::<Seq<char>, WorkerJobStatus>::empty(),
    {
        MemoryWorkerSpawner::default_spawner()
    }
}

/// A spawned job reads as running until it is completed, and a completed
/// job reads as succeeded; the status of every other job is unchanged.
pub proof fn lemma_spawn_then_complete(jobs: Map<Seq<char>, WorkerJobStatus>, task_id: Seq<char>, other: Seq<char>)
    ensures
        ({
            let name = job_name_for(task_id);
            let spawned = jobs.insert(name, WorkerJobStatus::Running);
            let done = spawned.insert(name, WorkerJobStatus::Succeeded);
            &&& spawned.contains_key(name) && spawned[name] == WorkerJobStatus::Running
            &&& done.contains_key(name) && done[name] == WorkerJobStatus::Succeeded
            &&& other != name ==> (done.contains_key(other) == jobs.contains_key(other) && (jobs.contains_key(other)
                ==> done[other] == jobs[other]))
        }),
{
}

} // verus!
