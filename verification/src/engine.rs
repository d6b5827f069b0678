//! The engine state: the action log, the redo buffer, the discovered jobs,
//! and the cached projection, with the five operations that mutate them.

use vstd::prelude::*;
use crate::config::{CombinationResult, CombinationResultV, Config, combine_spec, config_wf};
use crate::evaluate::EngineError;
use crate::history::{HistoryStep, HistoryStepV, steps_view};
use crate::job::{Job, JobV};
use crate::resource::Resource;
use crate::view_logic::{GameState, ViewCache, create_view_cache, vc_err, vc_ok, view_cache_spec};

verus! {

/// Appending a step: the log grows, the redo buffer is discarded.
pub open spec fn engine_append(
    history: Seq<HistoryStepV>,
    redo: Seq<HistoryStepV>,
    step: HistoryStepV,
) -> (Seq<HistoryStepV>, Seq<HistoryStepV>) {
    (history.push(step), Seq::empty())
}

/// Undo: the log's last step moves onto the redo buffer; a no-op on an
/// empty log.
pub open spec fn engine_undo(history: Seq<HistoryStepV>, redo: Seq<HistoryStepV>) -> (
    Seq<HistoryStepV>,
    Seq<HistoryStepV>,
) {
    if history.len() == 0 {
        (history, redo)
    } else {
        (history.drop_last(), redo.push(history.last()))
    }
}

/// Redo: the redo buffer's last step moves back onto the log; a no-op on an
/// empty buffer.
pub open spec fn engine_redo(history: Seq<HistoryStepV>, redo: Seq<HistoryStepV>) -> (
    Seq<HistoryStepV>,
    Seq<HistoryStepV>,
) {
    if redo.len() == 0 {
        (history, redo)
    } else {
        (history.push(redo.last()), redo.drop_last())
    }
}

/// Some discovered job already carries this id.
pub open spec fn has_job_id(jobs: Seq<JobV>, id: int) -> bool {
    exists|k: int| 0 <= k < jobs.len() && #[trigger] jobs[k].id == id
}

/// The engine: the only durable state is the log and the redo buffer; the
/// view cache is a pure derivation refreshed after every operation.
#[derive(Debug)]
pub struct App {
    /// The injected content tables.
    pub config: Config,
    /// The action log.
    pub history: Vec<HistoryStep>,
    /// The steps undone along the most recently undone path.
    pub redo_queue: Vec<HistoryStep>,
    /// Jobs the player has discovered through combinations.
    pub discovered_jobs: Vec<Job>,
    /// What the last combination attempt yielded.
    pub last_combination: CombinationResult,
    /// The current projection.
    pub view_cache: ViewCache,
    /// A pending engine-internal error, surfaced apart from gameplay.
    pub programmer_error: Option<EngineError>,
}

/// The refresh outcome: on success the cache shows the log's projection and
/// the error channel is untouched; on an engine error the cache is left
/// alone and the error is recorded.
pub open spec fn refreshed(pre: App, post: App) -> bool {
    if vc_ok(steps_view(post.history@), pre.config@) {
        post.view_cache@ == view_cache_spec(steps_view(post.history@), pre.config@)
            && post.programmer_error == pre.programmer_error
    } else {
        post.view_cache == pre.view_cache && post.programmer_error == Option::Some(
            vc_err(steps_view(post.history@), pre.config@),
        )
    }
}

/// The parts an operation never touches.
pub open spec fn core_unchanged(pre: App, post: App) -> bool {
    post.config == pre.config && post.discovered_jobs == pre.discovered_jobs
        && post.last_combination == pre.last_combination
}

impl App {
    /// Derive the projection a log denotes under a configuration; the
    /// engine's own state plays no part.
    pub fn create_view_cache(steps: &Vec<HistoryStep>, config: &Config) -> (r: Result<ViewCache, EngineError>)
        requires
            config_wf(config@),
        ensures
            r is Ok <==> vc_ok(steps_view(steps@), config@),
            r is Ok ==> r->Ok_0@ == view_cache_spec(steps_view(steps@), config@),
            r is Err ==> r->Err_0 == vc_err(steps_view(steps@), config@),
    {
        create_view_cache(steps, config)
    }

    /// A fresh engine over the given content: empty log, empty redo buffer,
    /// nothing discovered, and the empty log's projection (or, on an engine
    /// error, an empty placeholder cache and the recorded error).
    pub fn new(config: Config) -> (r: App)
        requires
            config_wf(config@),
        ensures
            r.config == config,
            r.history@ == Seq::<HistoryStep>::empty(),
            r.redo_queue@ == Seq::<HistoryStep>::empty(),
            r.discovered_jobs@ == Seq::<Job>::empty(),
            r.last_combination@ == CombinationResultV::Nothing,
            vc_ok(steps_view(r.history@), config@) ==> r.view_cache@ == view_cache_spec(
                steps_view(r.history@),
                config@,
            ) && r.programmer_error is None,
            !vc_ok(steps_view(r.history@), config@) ==> r.programmer_error == Option::Some(
                vc_err(steps_view(r.history@), config@),
            ),
    {
        let history: Vec<HistoryStep> = Vec::new();
        let (view_cache, programmer_error) = match create_view_cache(&history, &config) {
            Ok(cache) => (cache, None),
            Err(error) => (
                ViewCache {
                    job_rows: Vec::new(),
                    seen_resources: Vec::new(),
                    current_resources: Vec::new(),
                    total_days: 0,
                    user_error: None,
                    max_row: 0,
                    game_state: GameState::Playing,
                },
                Some(error),
            ),
        };
        proof {
            assert(steps_view(history@) =~= Seq::<HistoryStepV>::empty());
        }
        App {
            config,
            history,
            redo_queue: Vec::new(),
            discovered_jobs: Vec::new(),
            last_combination: CombinationResult::Nothing,
            view_cache,
            programmer_error,
        }
    }

    /// Rederive the projection from the log; an engine error goes to the
    /// diagnostic channel and leaves the cache alone.
    pub fn refresh_view_cache(&mut self)
        requires
            config_wf(old(self).config@),
        ensures
            final(self).history == old(self).history,
            final(self).redo_queue == old(self).redo_queue,
            core_unchanged(*old(self), *final(self)),
            refreshed(*old(self), *final(self)),
    {
        let result = create_view_cache(&self.history, &self.config);
        match result {
            Ok(view_cache) => {
                self.view_cache = view_cache;
            },
            Err(programmer_error) => {
                self.programmer_error = Some(programmer_error);
            },
        }
    }

    /// Append one step to the log: the redo buffer is discarded and the
    /// projection rederived.
    pub fn apply_history_step(&mut self, step: HistoryStep)
        requires
            config_wf(old(self).config@),
        ensures
            (steps_view(final(self).history@), steps_view(final(self).redo_queue@))
                == engine_append(
                steps_view(old(self).history@),
                steps_view(old(self).redo_queue@),
                step@,
            ),
            core_unchanged(*old(self), *final(self)),
            refreshed(*old(self), *final(self)),
    {
        self.history.push(step);
        self.redo_queue.clear();
        proof {
            assert(steps_view(self.history@) =~= steps_view(old(self).history@).push(step@));
            assert(steps_view(self.redo_queue@) =~= Seq::<HistoryStepV>::empty());
        }
        self.refresh_view_cache();
    }

    /// Record one job application in the log.
    pub fn add_job(&mut self, job: Job)
        requires
            config_wf(old(self).config@),
        ensures
            (steps_view(final(self).history@), steps_view(final(self).redo_queue@))
                == engine_append(
                steps_view(old(self).history@),
                steps_view(old(self).redo_queue@),
                HistoryStepV::Job(job@),
            ),
            core_unchanged(*old(self), *final(self)),
            refreshed(*old(self), *final(self)),
    {
        self.apply_history_step(HistoryStep::Job(job));
    }

    /// Move the log's last step onto the redo buffer; a no-op on an empty
    /// log. The projection is rederived either way.
    pub fn undo(&mut self)
        requires
            config_wf(old(self).config@),
        ensures
            (steps_view(final(self).history@), steps_view(final(self).redo_queue@)) == engine_undo(
                steps_view(old(self).history@),
                steps_view(old(self).redo_queue@),
            ),
            core_unchanged(*old(self), *final(self)),
            refreshed(*old(self), *final(self)),
    {
        match self.history.pop() {
            None => {},
            Some(step) => {
                self.redo_queue.push(step);
            },
        }
        proof {
            if old(self).history@.len() > 0 {
                assert(steps_view(self.history@) =~= steps_view(old(self).history@).drop_last());
                assert(steps_view(self.redo_queue@) =~= steps_view(old(self).redo_queue@).push(
                    old(self).history@.last()@,
                ));
                assert(steps_view(old(self).history@).last() == old(self).history@.last()@);
            } else {
                assert(steps_view(old(self).history@).len() == 0);
            }
        }
        self.refresh_view_cache();
    }

    /// Move the redo buffer's last step back onto the log; a no-op on an
    /// empty buffer. The projection is rederived either way.
    pub fn redo(&mut self)
        requires
            config_wf(old(self).config@),
        ensures
            (steps_view(final(self).history@), steps_view(final(self).redo_queue@)) == engine_redo(
                steps_view(old(self).history@),
                steps_view(old(self).redo_queue@),
            ),
            core_unchanged(*old(self), *final(self)),
            refreshed(*old(self), *final(self)),
    {
        match self.redo_queue.pop() {
            None => {},
            Some(step) => {
                self.history.push(step);
            },
        }
        proof {
            if old(self).redo_queue@.len() > 0 {
                assert(steps_view(self.redo_queue@) =~= steps_view(
                    old(self).redo_queue@,
                ).drop_last());
                assert(steps_view(self.history@) =~= steps_view(old(self).history@).push(
                    old(self).redo_queue@.last()@,
                ));
                assert(steps_view(old(self).redo_queue@).last() == old(self).redo_queue@.last()@);
            } else {
                assert(steps_view(old(self).redo_queue@).len() == 0);
            }
        }
        self.refresh_view_cache();
    }

    /// Translate a player's pairing of two resources: a pairing that yields
    /// a job records its application (remembering a saved job the first time
    /// it appears); any pairing leaves its result for display.
    pub fn apply_combination(&mut self, first_resource: &Resource, second_resource: &Resource)
        requires
            config_wf(old(self).config@),
        ensures
            final(self).config == old(self).config,
            final(self).last_combination@ == combine_spec(
                old(self).config@.combinations,
                *first_resource,
                *second_resource,
            ),
            match combine_spec(old(self).config@.combinations, *first_resource, *second_resource) {
                CombinationResultV::Job(j, _) => {
                    &&& (steps_view(final(self).history@), steps_view(final(self).redo_queue@))
                        == engine_append(
                        steps_view(old(self).history@),
                        steps_view(old(self).redo_queue@),
                        HistoryStepV::Job(j),
                    )
                    &&& crate::history::jobs_view(final(self).discovered_jobs@) == (if j.saved
                        && !has_job_id(crate::history::jobs_view(old(self).discovered_jobs@), j.id) {
                        crate::history::jobs_view(old(self).discovered_jobs@).push(j)
                    } else {
                        crate::history::jobs_view(old(self).discovered_jobs@)
                    })
                    &&& refreshed(*old(self), *final(self))
                },
                _ => {
                    &&& final(self).history == old(self).history
                    &&& final(self).redo_queue == old(self).redo_queue
                    &&& final(self).discovered_jobs == old(self).discovered_jobs
                    &&& final(self).view_cache == old(self).view_cache
                    &&& final(self).programmer_error == old(self).programmer_error
                },
            },
    {
        let combination_result = self.config.combine(*first_resource, *second_resource);
        match &combination_result {
            CombinationResult::Job(new_job, _) => {
                if new_job.saved {
                    let ghost discovered = crate::history::jobs_view(self.discovered_jobs@);
                    let mut found = false;
                    let mut k: usize = 0;
                    while k < self.discovered_jobs.len()
                        invariant
                            k <= self.discovered_jobs.len(),
                            discovered == crate::history::jobs_view(self.discovered_jobs@),
                            found ==> has_job_id(discovered, new_job@.id),
                            !found ==> forall|k2: int|
                                0 <= k2 < k as int ==> #[trigger] discovered[k2].id != new_job@.id,
                        decreases self.discovered_jobs.len() - k,
                    {
                        proof {
                            assert(discovered[k as int] == self.discovered_jobs@[k as int]@);
                        }
                        if self.discovered_jobs[k].id == new_job.id {
                            found = true;
                            proof {
                                assert(discovered[k as int].id == new_job@.id);
                            }
                        }
                        k += 1;
                    }
                    proof {
                        if !found {
                            assert(!has_job_id(discovered, new_job@.id)) by {
                                if has_job_id(discovered, new_job@.id) {
                                    let w = choose|k2: int|
                                        0 <= k2 < discovered.len() && #[trigger] discovered[k2].id
                                            == new_job@.id;
                                    assert(discovered[w].id != new_job@.id);
                                }
                            }
                        }
                        assert(found == has_job_id(
                            crate::history::jobs_view(self.discovered_jobs@),
                            new_job@.id,
                        ));
                    }
                    if !found {
                        let ghost before = crate::history::jobs_view(self.discovered_jobs@);
                        self.discovered_jobs.push(new_job.clone());
                        proof {
                            assert(crate::history::jobs_view(self.discovered_jobs@) =~= before.push(
                                new_job@,
                            ));
                        }
                    }
                }
                let job_for_log = new_job.clone();
                self.add_job(job_for_log);
            },
            CombinationResult::Text(_) => {},
            CombinationResult::Nothing => {},
        }
        self.last_combination = combination_result;
    }
}

} // verus!
