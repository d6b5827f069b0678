//! The history model: an append-only log of player actions, a redo buffer,
//! and the deterministic expansion of the log into a concrete job sequence.

use vstd::prelude::*;
use crate::config::{Config, CombinationResult};
use crate::job::{Job, JobV};

verus! {

/// One player action recorded in the log. The indices of the structural
/// edits refer to the expanded job sequence at the moment of the edit, not
/// to the log's own positions.
#[derive(Debug, PartialEq)]
pub enum HistoryStep {
    /// Apply a concrete job.
    Job(Job),
    /// Duplicate the job at the given expanded position.
    AddOne(usize),
    /// Delete the job at the given expanded position.
    RemoveOne(usize),
    /// Delete the job at the given expanded position together with all
    /// immediately following jobs that share its id.
    RemoveCluster(usize),
}

/// Mathematical image of `HistoryStep`.
#[verifier::ext_equal]
pub enum HistoryStepV {
    Job(JobV),
    AddOne(int),
    RemoveOne(int),
    RemoveCluster(int),
}

impl View for HistoryStep {
    type V = HistoryStepV;

    open spec fn view(&self) -> HistoryStepV {
        match self {
            HistoryStep::Job(job) => HistoryStepV::Job(job@),
            HistoryStep::AddOne(i) => HistoryStepV::AddOne(*i as int),
            HistoryStep::RemoveOne(i) => HistoryStepV::RemoveOne(*i as int),
            HistoryStep::RemoveCluster(i) => HistoryStepV::RemoveCluster(*i as int),
        }
    }
}

/// The images of a list of steps.
pub open spec fn steps_view(steps: Seq<HistoryStep>) -> Seq<HistoryStepV> {
    steps.map_values(|s: HistoryStep| s@)
}

/// The images of a list of jobs.
pub open spec fn jobs_view(jobs: Seq<Job>) -> Seq<JobV> {
    jobs.map_values(|j: Job| j@)
}

/// The length of the run of jobs with id `id` starting at position `i`.
pub open spec fn run_len(jobs: Seq<JobV>, i: int, id: int) -> int
    decreases jobs.len() - i,
{
    if 0 <= i < jobs.len() && jobs[i].id == id {
        1 + run_len(jobs, i + 1, id)
    } else {
        0
    }
}

/// A run of exactly `k` jobs with id `id` starts at `i`: `k` matches, then
/// either the sequence ends or a job with another id follows.
proof fn lemma_run_len_exact(jobs: Seq<JobV>, i: int, id: int, k: int)
    requires
        0 <= i,
        0 <= k,
        i + k <= jobs.len(),
        forall|d: int| 0 <= d < k ==> #[trigger] jobs[i + d].id == id,
        i + k == jobs.len() || jobs[i + k].id != id,
    ensures
        run_len(jobs, i, id) == k,
    decreases k,
{
    if k == 0 {
    } else {
        assert(jobs[i + 0].id == id);
        assert(forall|d: int| 0 <= d < k - 1 ==> #[trigger] jobs[i + 1 + d].id == id) by {
            assert forall|d: int| 0 <= d < k - 1 implies #[trigger] jobs[i + 1 + d].id == id by {
                assert(jobs[i + (d + 1)].id == id);
            }
        }
        lemma_run_len_exact(jobs, i + 1, id, k - 1);
    }
}

/// Remove the job at `i` and every immediately following job with its id.
pub open spec fn remove_cluster_spec(jobs: Seq<JobV>, i: int) -> Seq<JobV>
    recommends
        0 <= i < jobs.len(),
{
    jobs.take(i) + jobs.skip(i + 1 + run_len(jobs, i + 1, jobs[i].id))
}

/// How one history step rewrites the expanded job sequence. Steps whose
/// index falls outside the sequence do nothing.
pub open spec fn expand_step(jobs: Seq<JobV>, step: HistoryStepV) -> Seq<JobV> {
    match step {
        HistoryStepV::Job(j) => jobs.push(j),
        HistoryStepV::AddOne(i) => if 0 <= i < jobs.len() {
            jobs.insert(i, jobs[i])
        } else {
            jobs
        },
        HistoryStepV::RemoveOne(i) => if 0 <= i < jobs.len() {
            jobs.remove(i)
        } else {
            jobs
        },
        HistoryStepV::RemoveCluster(i) => if 0 <= i < jobs.len() {
            remove_cluster_spec(jobs, i)
        } else {
            jobs
        },
    }
}

/// The expanded job sequence after the first `n` steps of the log.
pub open spec fn expand_prefix(init: Seq<JobV>, steps: Seq<HistoryStepV>, n: int) -> Seq<JobV>
    recommends
        0 <= n <= steps.len(),
    decreases n,
{
    if n <= 0 {
        init
    } else {
        expand_step(expand_prefix(init, steps, n - 1), steps[n - 1])
    }
}

/// The concrete job sequence a log denotes, starting from `init`.
pub open spec fn expand(init: Seq<JobV>, steps: Seq<HistoryStepV>) -> Seq<JobV> {
    expand_prefix(init, steps, steps.len() as int)
}

/// Expand the log left to right into the concrete job sequence replay runs,
/// starting from the synthetic starting job.
pub fn expand_history(steps: &Vec<HistoryStep>, start: &Job) -> (jobs: Vec<Job>)
    ensures
        jobs_view(jobs@) == expand(seq![start@], steps_view(steps@)),
{
    let ghost stepsv = steps_view(steps@);
    let mut jobs: Vec<Job> = Vec::new();
    jobs.push(start.clone());
    proof {
        assert(jobs_view(jobs@) =~= seq![start@]);
    }
    let mut n: usize = 0;
    while n < steps.len()
        invariant
            n <= steps.len(),
            stepsv == steps_view(steps@),
            jobs_view(jobs@) == expand_prefix(seq![start@], stepsv, n as int),
        decreases steps.len() - n,
    {
        let ghost before = jobs_view(jobs@);
        proof {
            assert(stepsv[n as int] == steps@[n as int]@);
        }
        match &steps[n] {
            HistoryStep::Job(job) => {
                jobs.push(job.clone());
                proof {
                    assert(jobs_view(jobs@) =~= before.push(job@));
                }
            },
            HistoryStep::AddOne(index) => {
                let index = *index;
                if index < jobs.len() {
                    let job = jobs[index].clone();
                    jobs.insert(index, job);
                    proof {
                        assert(jobs_view(jobs@) =~= before.insert(index as int, before[index as int]));
                    }
                } else {
                    proof {
                        assert(expand_step(before, stepsv[n as int]) == before);
                    }
                }
            },
            HistoryStep::RemoveOne(index) => {
                let index = *index;
                if index < jobs.len() {
                    jobs.remove(index);
                    proof {
                        assert(jobs_view(jobs@) =~= before.remove(index as int));
                    }
                } else {
                    proof {
                        assert(expand_step(before, stepsv[n as int]) == before);
                    }
                }
            },
            HistoryStep::RemoveCluster(index) => {
                let index = *index;
                if index < jobs.len() {
                    let first_job = jobs.remove(index);
                    let ghost id = first_job@.id;
                    proof {
                        assert(first_job@ == before[index as int]);
                        assert(jobs_view(jobs@) =~= before.take(index as int) + before.skip(
                            index as int + 1,
                        ));
                    }
                    // The later elements have moved over, so the same slot
                    // keeps exposing the next member of the cluster.
                    let mut removed: usize = 0;
                    loop
                        invariant
                            before.len() <= usize::MAX as int,
                            index as int <= before.len() - 1,
                            id == before[index as int].id,
                            id == first_job@.id,
                            removed as int <= before.len() - 1 - index as int,
                            jobs@.len() == before.len() - 1 - removed as int,
                            jobs_view(jobs@) =~= before.take(index as int) + before.skip(
                                index as int + 1 + removed as int,
                            ),
                            forall|d: int|
                                0 <= d < removed as int ==> #[trigger] before[index as int + 1 + d].id
                                    == id,
                        ensures
                            removed as int == run_len(before, index as int + 1, id),
                            jobs_view(jobs@) =~= before.take(index as int) + before.skip(
                                index as int + 1 + removed as int,
                            ),
                        decreases before.len() - removed as int,
                    {
                        if index >= jobs.len() {
                            proof {
                                assert(index as int + 1 + removed as int >= before.len());
                                lemma_run_len_exact(before, index as int + 1, id, removed as int);
                            }
                            break;
                        }
                        let same = jobs[index].id == first_job.id;
                        proof {
                            assert(jobs_view(jobs@)[index as int] == before[index as int + 1
                                + removed as int]);
                            assert(jobs@[index as int]@ == before[index as int + 1 + removed as int]);
                            assert(same == (before[index as int + 1 + removed as int].id == id));
                        }
                        if same {
                            let ghost ov = before.take(index as int) + before.skip(
                                index as int + 1 + removed as int,
                            );
                            jobs.remove(index);
                            proof {
                                assert(jobs_view(jobs@) =~= ov.remove(index as int));
                                assert(ov.remove(index as int) =~= before.take(index as int)
                                    + before.skip(index as int + 1 + removed as int + 1));
                            }
                            removed += 1;
                        } else {
                            proof {
                                lemma_run_len_exact(before, index as int + 1, id, removed as int);
                            }
                            break;
                        }
                    }
                    proof {
                        assert(jobs_view(jobs@) =~= remove_cluster_spec(before, index as int));
                    }
                } else {
                    proof {
                        assert(expand_step(before, stepsv[n as int]) == before);
                    }
                }
            },
        }
        n += 1;
    }
    jobs
}

/// Translate a list of resource pairings into the history steps they cause:
/// a pairing that yields a job appends it, the others leave no trace.
pub fn history_from_combinations(
    config: &Config,
    combinations: Vec<(crate::resource::Resource, crate::resource::Resource)>,
) -> (history: Vec<HistoryStep>)
    ensures
        steps_view(history@) == combination_steps(
            config@.combinations,
            combinations@,
            combinations@.len() as int,
        ),
{
    let mut history: Vec<HistoryStep> = Vec::new();
    let mut i: usize = 0;
    while i < combinations.len()
        invariant
            i <= combinations.len(),
            steps_view(history@) =~= combination_steps(
                config@.combinations,
                combinations@,
                i as int,
            ),
        decreases combinations.len() - i,
    {
        let (first, second) = combinations[i];
        let result = config.combine(first, second);
        match result {
            CombinationResult::Job(job, _) => {
                history.push(HistoryStep::Job(job));
            },
            CombinationResult::Text(_) => {},
            CombinationResult::Nothing => {},
        }
        proof {
            assert(steps_view(history@) =~= combination_steps(
                config@.combinations,
                combinations@,
                i as int + 1,
            ));
        }
        i += 1;
    }
    history
}

/// The steps the first `n` pairings cause.
pub open spec fn combination_steps(
    rules: Seq<(crate::resource::Resource, crate::resource::Resource, crate::config::CombinationResultV)>,
    pairs: Seq<(crate::resource::Resource, crate::resource::Resource)>,
    n: int,
) -> Seq<HistoryStepV>
    recommends
        0 <= n <= pairs.len(),
    decreases n,
{
    if n <= 0 {
        Seq::empty()
    } else {
        let rest = combination_steps(rules, pairs, n - 1);
        match crate::config::combine_spec(rules, pairs[n - 1].0, pairs[n - 1].1) {
            crate::config::CombinationResultV::Job(j, _) => rest.push(HistoryStepV::Job(j)),
            _ => rest,
        }
    }
}

} // verus!
