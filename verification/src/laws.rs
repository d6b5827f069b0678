//! The engine's laws: properties that hold of every input, proved once and
//! for all over the same specifications the executable contracts use.

use vstd::prelude::*;
use crate::amount::Amount;
use crate::config::{AttrV, ConfigV};
use crate::evaluate::{
    EngineError, chosen_tier, eval_err, eval_ok, eval_output, status_delta_index, status_is_ok,
    tier_ok,
};
use crate::engine::{engine_append, engine_redo, engine_undo};
use crate::history::{HistoryStepV, expand_step};
use crate::job::{JobOutputV, JobV, job_is_ok};
use crate::resource::Resource;
use crate::view_logic::{
    GameStateV, ViewCache, game_state_spec, rows_merge_prefix, total_days_prefix, view_cache_spec,
};

verus! {

/// Determinism: the view cache is a function of the log and the content
/// alone, so two derivations of the same log are identical.
pub proof fn lemma_view_cache_deterministic(
    first: ViewCache,
    second: ViewCache,
    steps: Seq<HistoryStepV>,
    cfg: ConfigV,
)
    requires
        first@ == view_cache_spec(steps, cfg),
        second@ == view_cache_spec(steps, cfg),
    ensures
        first@ == second@,
{
}

/// Undo/redo inverse law: for any log, redo buffer and step, redoing the
/// undo of an append restores exactly the appended state.
pub proof fn lemma_redo_undo_append(
    history: Seq<HistoryStepV>,
    redo: Seq<HistoryStepV>,
    step: HistoryStepV,
)
    ensures
        ({
            let appended = engine_append(history, redo, step);
            let undone = engine_undo(appended.0, appended.1);
            engine_redo(undone.0, undone.1) == appended
        }),
{
    let appended = engine_append(history, redo, step);
    assert(appended.0.last() == step);
    assert(appended.0.drop_last() =~= history);
    let undone = engine_undo(appended.0, appended.1);
    assert(undone.1.last() == step);
    assert(undone.1.drop_last() =~= Seq::<HistoryStepV>::empty());
    let redone = engine_redo(undone.0, undone.1);
    assert(redone.0 =~= appended.0);
    assert(redone.1 =~= appended.1);
}

/// Redo invalidation: any append discards the redo buffer, so a redo right
/// after an append is a no-op.
pub proof fn lemma_redo_after_append(
    history: Seq<HistoryStepV>,
    redo: Seq<HistoryStepV>,
    step: HistoryStepV,
)
    ensures
        ({
            let appended = engine_append(history, redo, step);
            engine_redo(appended.0, appended.1) == appended
        }),
{
}

/// Tier fallback: with an infeasible first tier and a feasible second, the
/// evaluator settles on the second and reports tier index 1.
pub proof fn lemma_tier_fallback(led: Seq<int>, tiers: Seq<Seq<(Resource, Amount)>>, m: int)
    requires
        tiers.len() == 2,
        !tier_ok(led, tiers[0], m),
        tier_ok(led, tiers[1], m),
    ensures
        chosen_tier(led, tiers, m) == 1,
        status_is_ok(eval_output(led, tiers, m).status),
        status_delta_index(eval_output(led, tiers, m).status) == 1,
{
    assert(chosen_tier(led, tiers, m) == 1) by {
        assert(crate::evaluate::chosen_tier_from(led, tiers, m, 1) == 1);
    }
}

/// Merge law, first half: two consecutive successful applications of the
/// same job id collapse into one row whose instance count is their sum.
pub proof fn lemma_merge_two_successes(
    outs: Seq<(JobV, JobOutputV)>,
    seen: Seq<Resource>,
    attrs: Seq<Option<AttrV>>,
)
    requires
        outs.len() == 2,
        outs[0].0.id == outs[1].0.id,
        job_is_ok(outs[0].1),
        job_is_ok(outs[1].1),
    ensures
        rows_merge_prefix(outs, seen, attrs, 2).len() == 1,
        rows_merge_prefix(outs, seen, attrs, 2)[0].job.instances == outs[0].0.instances
            + outs[1].0.instances,
{
    let rows1 = rows_merge_prefix(outs, seen, attrs, 1);
    assert(rows_merge_prefix(outs, seen, attrs, 0) == Seq::<crate::view_logic::JobRowV>::empty());
    assert(rows1.len() == 1 && rows1[0].job == outs[0].0);
    assert(crate::view_logic::merge_joins(outs, rows1, 2));
}

/// Merge law, second half: one success and one failure of the same job id
/// never collapse.
pub proof fn lemma_no_merge_on_mixed_outcome(
    outs: Seq<(JobV, JobOutputV)>,
    seen: Seq<Resource>,
    attrs: Seq<Option<AttrV>>,
)
    requires
        outs.len() == 2,
        outs[0].0.id == outs[1].0.id,
        job_is_ok(outs[0].1) != job_is_ok(outs[1].1),
    ensures
        rows_merge_prefix(outs, seen, attrs, 2).len() == 2,
{
    let rows1 = rows_merge_prefix(outs, seen, attrs, 1);
    assert(rows_merge_prefix(outs, seen, attrs, 0) == Seq::<crate::view_logic::JobRowV>::empty());
    assert(rows1.len() == 1 && rows1[0].output == outs[0].1);
    assert(!crate::view_logic::merge_joins(outs, rows1, 2));
}

/// Cluster removal: in a sequence `[a, b1, b2, b3, c]` where the three `b`s
/// share an id that neither neighbour carries, removing the cluster at the
/// first `b` leaves `[a, c]`.
pub proof fn lemma_remove_cluster(a: JobV, b1: JobV, b2: JobV, b3: JobV, c: JobV)
    requires
        b1.id == b2.id,
        b2.id == b3.id,
        a.id != b1.id,
        c.id != b1.id,
    ensures
        expand_step(seq![a, b1, b2, b3, c], HistoryStepV::RemoveCluster(1)) == seq![a, c],
{
    let jobs = seq![a, b1, b2, b3, c];
    assert(crate::history::run_len(jobs, 4, b1.id) == 0);
    assert(crate::history::run_len(jobs, 3, b1.id) == 1);
    assert(crate::history::run_len(jobs, 2, b1.id) == 2);
    assert(crate::history::remove_cluster_spec(jobs, 1) =~= seq![a, c]);
}

proof fn lemma_win_from(outs: Seq<(JobV, JobOutputV)>, win_id: int, k: int, n: int)
    requires
        0 <= k < n <= outs.len(),
        job_is_ok(outs[k].1),
        outs[k].0.id == win_id,
        forall|k2: int| k < k2 < n ==> !job_is_ok(#[trigger] outs[k2].1),
    ensures
        game_state_spec(outs, win_id, n) == (GameStateV::Won {
            spent_days: total_days_prefix(outs, k + 1),
        }),
        total_days_prefix(outs, n) == total_days_prefix(outs, k + 1),
    decreases n,
{
    if n > k + 1 {
        lemma_win_from(outs, win_id, k, n - 1);
    }
}

/// Win detection: when the last successful application is the win job, the
/// game state is Won, carrying the sum of instances of every successful
/// application up to and including it — which is also the displayed total.
pub proof fn lemma_win_detection(outs: Seq<(JobV, JobOutputV)>, win_id: int, k: int)
    requires
        0 <= k < outs.len(),
        job_is_ok(outs[k].1),
        outs[k].0.id == win_id,
        forall|k2: int| k < k2 < outs.len() ==> !job_is_ok(#[trigger] outs[k2].1),
    ensures
        game_state_spec(outs, win_id, outs.len() as int) == (GameStateV::Won {
            spent_days: total_days_prefix(outs, outs.len() as int),
        }),
{
    lemma_win_from(outs, win_id, k, outs.len() as int);
}

/// Negative multiplier rejection: a delta-list evaluation at a multiplier
/// of zero or less reports the engine-internal error, never a user-facing
/// failure.
pub proof fn lemma_non_positive_multiplier_rejected(
    led: Seq<int>,
    tiers: Seq<Seq<(Resource, Amount)>>,
    m: int,
)
    requires
        m <= 0,
    ensures
        !eval_ok(led, tiers, m),
        eval_err(led, tiers, m) == EngineError::NonPositiveMultiplier,
{
}

} // verus!
