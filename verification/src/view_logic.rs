//! The view projector: replays the whole history, merges consecutive
//! identical applications into display rows, computes the visible resource
//! columns, totals and the win condition, and packs them into an immutable
//! view cache for the presentation layer.

use vstd::prelude::*;
use crate::config::{AttrV, Config, attr_of, column_visible, config_wf, row_of};
use crate::evaluate::EngineError;
use crate::job::{
    Job, JobOutput, JobOutputV, JobV, JobRunV, apply_job, job_changed, job_eval, job_is_ok,
    job_outputs_mergeable, job_user_message,
};
use crate::history::{HistoryStep, HistoryStepV, expand, expand_history, jobs_view, steps_view};
use crate::ledger::{Ledger, empty_ledger, ledger_wf};
use crate::resource::{Resource, RESOURCE_COUNT, res_idx, res_of, resource_at};

verus! {

/// A display annotation for a resource shown inline by name.
#[derive(Debug, PartialEq, Eq)]
pub struct ResourceTool {
    pub resource_pair: (Resource, i64),
    pub status: ResourceToolStatus,
}

/// How an inline resource is marked: unchanged, changed and present, or
/// changed and gone.
#[derive(Clone, Copy, Debug, PartialEq, Eq, Structural)]
pub enum ResourceToolStatus {
    Standard,
    Changed,
    Removed,
}

/// Mathematical image of `ResourceTool`.
#[verifier::ext_equal]
pub struct ResourceToolV {
    pub resource_pair: (Resource, int),
    pub status: ResourceToolStatus,
}

impl View for ResourceTool {
    type V = ResourceToolV;

    open spec fn view(&self) -> ResourceToolV {
        ResourceToolV {
            resource_pair: (self.resource_pair.0, self.resource_pair.1 as int),
            status: self.status,
        }
    }
}

/// A resource the player can select, with its quantity and display row.
#[derive(Debug, PartialEq, Eq)]
pub struct CurrentResource {
    pub resource: Resource,
    pub amount: i64,
    pub row: usize,
}

/// Mathematical image of `CurrentResource`.
#[verifier::ext_equal]
pub struct CurrentResourceV {
    pub resource: Resource,
    pub amount: int,
    pub row: int,
}

impl View for CurrentResource {
    type V = CurrentResourceV;

    open spec fn view(&self) -> CurrentResourceV {
        CurrentResourceV {
            resource: self.resource,
            amount: self.amount as int,
            row: self.row as int,
        }
    }
}

/// Whether the game is still running or has been won, and at what cost.
#[derive(Debug, PartialEq, Eq)]
pub enum GameState {
    Playing,
    Won { spent_days: usize },
}

/// Mathematical image of `GameState`.
#[verifier::ext_equal]
pub enum GameStateV {
    Playing,
    Won { spent_days: int },
}

impl View for GameState {
    type V = GameStateV;

    open spec fn view(&self) -> GameStateV {
        match self {
            GameState::Playing => GameStateV::Playing,
            GameState::Won { spent_days } => GameStateV::Won { spent_days: *spent_days as int },
        }
    }
}

/// One display row: one or more consecutive, id-equal, outcome-compatible
/// applications collapsed together.
#[derive(Debug, PartialEq)]
pub struct JobRow {
    /// The representative job, its instance count tallied over the group.
    pub job: Job,
    /// The newest member's output, its changed list accumulated.
    pub output: JobOutput,
    /// The newest quantities of the column resources.
    pub resource_list: Vec<(Resource, i64)>,
    /// The inline-name annotations of the newest member.
    pub resource_tool_list: Vec<ResourceTool>,
    /// The position of the group's first member in the job sequence.
    pub index: usize,
}

/// Mathematical image of `JobRow`.
#[verifier::ext_equal]
pub struct JobRowV {
    pub job: JobV,
    pub output: JobOutputV,
    pub resource_list: Seq<(Resource, int)>,
    pub resource_tool_list: Seq<ResourceToolV>,
    pub index: int,
}

impl View for JobRow {
    type V = JobRowV;

    open spec fn view(&self) -> JobRowV {
        JobRowV {
            job: self.job@,
            output: self.output@,
            resource_list: pairs_view(self.resource_list@),
            resource_tool_list: self.resource_tool_list@.map_values(|t: ResourceTool| t@),
            index: self.index as int,
        }
    }
}

/// The sole contract with the presentation layer: everything the user sees,
/// recomputed from the history on every read.
#[derive(Debug, PartialEq)]
pub struct ViewCache {
    pub job_rows: Vec<JobRow>,
    pub seen_resources: Vec<Resource>,
    pub current_resources: Vec<CurrentResource>,
    pub total_days: usize,
    pub user_error: Option<String>,
    pub max_row: usize,
    pub game_state: GameState,
}

/// Mathematical image of `ViewCache`.
#[verifier::ext_equal]
pub struct ViewCacheV {
    pub job_rows: Seq<JobRowV>,
    pub seen_resources: Seq<Resource>,
    pub current_resources: Seq<CurrentResourceV>,
    pub total_days: int,
    pub user_error: Option<Seq<char>>,
    pub max_row: int,
    pub game_state: GameStateV,
}

impl View for ViewCache {
    type V = ViewCacheV;

    open spec fn view(&self) -> ViewCacheV {
        ViewCacheV {
            job_rows: self.job_rows@.map_values(|r: JobRow| r@),
            seen_resources: self.seen_resources@,
            current_resources: self.current_resources@.map_values(|c: CurrentResource| c@),
            total_days: self.total_days as int,
            user_error: match &self.user_error {
                Option::Some(e) => Option::Some(e@),
                Option::None => Option::None,
            },
            max_row: self.max_row as int,
            game_state: self.game_state@,
        }
    }
}

/// The images of quantity pairs.
pub open spec fn pairs_view(s: Seq<(Resource, i64)>) -> Seq<(Resource, int)> {
    s.map_values(|p: (Resource, i64)| (p.0, p.1 as int))
}

/// The images of job applications and their outputs.
pub open spec fn outs_view(s: Seq<(Job, JobOutput)>) -> Seq<(JobV, JobOutputV)> {
    s.map_values(|p: (Job, JobOutput)| (p.0@, p.1@))
}

// ---------------------------------------------------------------------------
// Replay
// ---------------------------------------------------------------------------

/// The outcome of replaying a job sequence from the empty ledger.
#[verifier::ext_equal]
pub enum ReplayV {
    /// Every step evaluated; `outs` records each job with its output, and
    /// `carried` is the ledger after the last successful step.
    Done { outs: Seq<(JobV, JobOutputV)>, carried: Seq<int> },
    /// A step hit an engine error.
    Failed { err: EngineError },
}

/// Replay the first `n` jobs in order against a ledger that starts empty.
/// A failing step's output is recorded, but only a successful step advances
/// the carried ledger.
pub open spec fn replay_prefix(jobs: Seq<JobV>, attrs: Seq<Option<AttrV>>, n: int) -> ReplayV
    recommends
        0 <= n <= jobs.len(),
    decreases n,
{
    if n <= 0 {
        ReplayV::Done { outs: Seq::empty(), carried: empty_ledger() }
    } else {
        match replay_prefix(jobs, attrs, n - 1) {
            ReplayV::Failed { err } => ReplayV::Failed { err },
            ReplayV::Done { outs, carried } => match job_eval(carried, jobs[n - 1], attrs) {
                JobRunV::Failed { err } => ReplayV::Failed { err },
                JobRunV::Done { output } => ReplayV::Done {
                    outs: outs.push((jobs[n - 1], output)),
                    carried: if job_is_ok(output) {
                        output.resources_after
                    } else {
                        carried
                    },
                },
            },
        }
    }
}

/// Replay a whole job sequence.
pub open spec fn replay(jobs: Seq<JobV>, attrs: Seq<Option<AttrV>>) -> ReplayV {
    replay_prefix(jobs, attrs, jobs.len() as int)
}

/// Once the replay fails, every longer prefix fails the same way.
proof fn lemma_replay_failed_persists(
    jobs: Seq<JobV>,
    attrs: Seq<Option<AttrV>>,
    n1: int,
    n2: int,
)
    requires
        0 <= n1 <= n2,
        replay_prefix(jobs, attrs, n1) is Failed,
    ensures
        replay_prefix(jobs, attrs, n2) == replay_prefix(jobs, attrs, n1),
    decreases n2 - n1,
{
    if n1 < n2 {
        lemma_replay_failed_persists(jobs, attrs, n1, n2 - 1);
    }
}

// ---------------------------------------------------------------------------
// Seen resources
// ---------------------------------------------------------------------------

/// The resource at index `i` had a nonzero quantity after some step.
pub open spec fn seen_flag(outs: Seq<(JobV, JobOutputV)>, i: int) -> bool {
    exists|k: int| 0 <= k < outs.len() && #[trigger] outs[k].1.resources_after[i] != 0
}

proof fn lemma_seen_flag_push(outs: Seq<(JobV, JobOutputV)>, p: (JobV, JobOutputV), i: int)
    ensures
        seen_flag(outs.push(p), i) == (seen_flag(outs, i) || p.1.resources_after[i] != 0),
{
    if seen_flag(outs, i) {
        let k = choose|k: int| 0 <= k < outs.len() && #[trigger] outs[k].1.resources_after[i] != 0;
        assert(outs.push(p)[k].1.resources_after[i] != 0);
    }
    if p.1.resources_after[i] != 0 {
        assert(outs.push(p)[outs.len() as int].1.resources_after[i] != 0);
    }
    if seen_flag(outs.push(p), i) {
        let k = choose|k: int|
            0 <= k < outs.push(p).len() && #[trigger] outs.push(p)[k].1.resources_after[i] != 0;
        if k < outs.len() {
            assert(outs[k].1.resources_after[i] != 0);
        }
    }
}

/// The resources worth a column, in display order: those seen nonzero at
/// least once whose attributes do not hide them, over indices below `i`.
pub open spec fn seen_list_prefix(
    outs: Seq<(JobV, JobOutputV)>,
    attrs: Seq<Option<AttrV>>,
    i: int,
) -> Seq<Resource>
    recommends
        0 <= i <= RESOURCE_COUNT as int,
    decreases i,
{
    if i <= 0 {
        Seq::empty()
    } else {
        let rest = seen_list_prefix(outs, attrs, i - 1);
        if seen_flag(outs, i - 1) && column_visible(attrs, res_of(i - 1)) {
            rest.push(res_of(i - 1))
        } else {
            rest
        }
    }
}

/// All resources worth a column, in display order.
pub open spec fn seen_list(outs: Seq<(JobV, JobOutputV)>, attrs: Seq<Option<AttrV>>) -> Seq<
    Resource,
> {
    seen_list_prefix(outs, attrs, RESOURCE_COUNT as int)
}

// ---------------------------------------------------------------------------
// Totals and the win condition
// ---------------------------------------------------------------------------

/// Elapsed units: the sum of `instances` over the successful applications
/// among the first `n`.
pub open spec fn total_days_prefix(outs: Seq<(JobV, JobOutputV)>, n: int) -> int
    recommends
        0 <= n <= outs.len(),
    decreases n,
{
    if n <= 0 {
        0
    } else {
        total_days_prefix(outs, n - 1) + if job_is_ok(outs[n - 1].1) {
            outs[n - 1].0.instances
        } else {
            0
        }
    }
}

/// Every running total along the way fits the machine counter.
pub open spec fn totals_fit(outs: Seq<(JobV, JobOutputV)>, n: int) -> bool
    recommends
        0 <= n <= outs.len(),
    decreases n,
{
    if n <= 0 {
        true
    } else {
        totals_fit(outs, n - 1) && 0 <= total_days_prefix(outs, n) <= usize::MAX as int
    }
}

proof fn lemma_totals_fit_monotone(outs: Seq<(JobV, JobOutputV)>, n1: int, n2: int)
    requires
        0 <= n1 <= n2,
        totals_fit(outs, n2),
    ensures
        totals_fit(outs, n1),
    decreases n2,
{
    if n1 < n2 {
        lemma_totals_fit_monotone(outs, n1, n2 - 1);
    }
}

/// The game state after the first `n` applications: Won exactly when a
/// successful application of the win job id has been reached, carrying the
/// cumulative total at the latest such point.
pub open spec fn game_state_spec(outs: Seq<(JobV, JobOutputV)>, win_id: int, n: int) -> GameStateV
    recommends
        0 <= n <= outs.len(),
    decreases n,
{
    if n <= 0 {
        GameStateV::Playing
    } else if job_is_ok(outs[n - 1].1) && outs[n - 1].0.id == win_id {
        GameStateV::Won { spent_days: total_days_prefix(outs, n) }
    } else {
        game_state_spec(outs, win_id, n - 1)
    }
}

// ---------------------------------------------------------------------------
// Column quantities and inline annotations
// ---------------------------------------------------------------------------

/// The quantities the column resources have in a ledger, in column order.
pub open spec fn normalize_spec(led: Seq<int>, seen: Seq<Resource>) -> Seq<(Resource, int)> {
    seen.map_values(|r: Resource| (r, led[res_idx(r)]))
}

/// How an inline resource is marked, given whether it changed.
pub open spec fn tool_status(amount: int, changed: bool) -> ResourceToolStatus {
    if changed {
        if amount > 0 {
            ResourceToolStatus::Changed
        } else {
            ResourceToolStatus::Removed
        }
    } else {
        ResourceToolStatus::Standard
    }
}

/// An inline annotation is shown: the resource is inline and visible, and
/// either it changed or it is present.
pub open spec fn tool_included(
    attrs: Seq<Option<AttrV>>,
    r: Resource,
    amount: int,
    changed: bool,
) -> bool {
    (match attr_of(attrs, r) {
        Option::Some(a) => a.display_as_name && a.visible,
        Option::None => false,
    }) && (changed || amount > 0)
}

/// The inline annotations over resource indices below `i`, in display
/// order, computed against an optional changed-resources filter.
pub open spec fn tool_list_prefix(
    led: Seq<int>,
    attrs: Seq<Option<AttrV>>,
    changed: Option<Seq<Resource>>,
    i: int,
) -> Seq<ResourceToolV>
    recommends
        0 <= i <= RESOURCE_COUNT as int,
    decreases i,
{
    if i <= 0 {
        Seq::empty()
    } else {
        let rest = tool_list_prefix(led, attrs, changed, i - 1);
        let r = res_of(i - 1);
        let amount = led[i - 1];
        let ch = match changed {
            Option::Some(cs) => cs.contains(r),
            Option::None => false,
        };
        if tool_included(attrs, r, amount, ch) {
            rest.push(ResourceToolV { resource_pair: (r, amount), status: tool_status(amount, ch) })
        } else {
            rest
        }
    }
}

/// All inline annotations of a ledger.
pub open spec fn tool_list(
    led: Seq<int>,
    attrs: Seq<Option<AttrV>>,
    changed: Option<Seq<Resource>>,
) -> Seq<ResourceToolV> {
    tool_list_prefix(led, attrs, changed, RESOURCE_COUNT as int)
}

/// Whether a list of resources holds `r`.
pub fn contains_resource(v: &Vec<Resource>, r: Resource) -> (b: bool)
    ensures
        b == v@.contains(r),
{
    let mut i: usize = 0;
    while i < v.len()
        invariant
            i <= v.len(),
            forall|k: int| 0 <= k < i as int ==> v@[k] != r,
        decreases v.len() - i,
    {
        if v[i] == r {
            return true;
        }
        i += 1;
    }
    proof {
        assert(!v@.contains(r)) by {
            if v@.contains(r) {
                let k = choose|k: int| 0 <= k < v@.len() && v@[k] == r;
                assert(v@[k] != r);
            }
        }
    }
    false
}

/// The quantities the column resources have in a ledger, in column order.
pub fn normalize(resource_set: &Ledger, seen_resources: &Vec<Resource>) -> (r: Vec<(Resource, i64)>)
    requires
        ledger_wf(*resource_set),
    ensures
        pairs_view(r@) == normalize_spec(resource_set@, seen_resources@),
{
    let mut result: Vec<(Resource, i64)> = Vec::new();
    let mut i: usize = 0;
    while i < seen_resources.len()
        invariant
            ledger_wf(*resource_set),
            i <= seen_resources.len(),
            result@.len() == i as int,
            forall|k: int|
                0 <= k < i as int ==> #[trigger] result@[k] == (
                    seen_resources@[k],
                    resource_set@[res_idx(seen_resources@[k])] as i64,
                ),
        decreases seen_resources.len() - i,
    {
        let r = seen_resources[i];
        result.push((r, resource_set.get(r)));
        i += 1;
    }
    proof {
        assert(pairs_view(result@) =~= normalize_spec(resource_set@, seen_resources@));
    }
    result
}

/// The inline annotations of a ledger, against an optional changed filter.
pub fn create_resource_tool_list(
    resources: &Ledger,
    changed: Option<&Vec<Resource>>,
    config: &Config,
) -> (r: Vec<ResourceTool>)
    requires
        ledger_wf(*resources),
        config_wf(config@),
    ensures
        r@.map_values(|t: ResourceTool| t@) == tool_list(
            resources@,
            config@.attrs,
            match changed {
                Option::Some(c) => Option::Some(c@),
                Option::None => Option::None,
            },
        ),
{
    let ghost changed_v: Option<Seq<Resource>> = match changed {
        Option::Some(c) => Option::Some(c@),
        Option::None => Option::None,
    };
    let mut result: Vec<ResourceTool> = Vec::new();
    let mut i: usize = 0;
    while i < RESOURCE_COUNT
        invariant
            ledger_wf(*resources),
            config_wf(config@),
            i <= RESOURCE_COUNT,
            changed_v == (match changed {
                Option::Some(c) => Option::<Seq<Resource>>::Some(c@),
                Option::None => Option::<Seq<Resource>>::None,
            }),
            result@.map_values(|t: ResourceTool| t@) =~= tool_list_prefix(
                resources@,
                config@.attrs,
                changed_v,
                i as int,
            ),
        decreases RESOURCE_COUNT - i,
    {
        let r = resource_at(i);
        let amount = resources.get(r);
        let is_changed = match changed {
            Option::Some(list) => contains_resource(list, r),
            Option::None => false,
        };
        let (display_as_name, visible) = match &config.attrs[i] {
            Option::Some(attribute) => (attribute.display_as_name, attribute.visible),
            Option::None => (false, false),
        };
        proof {
            crate::resource::lemma_res_of_idx(i as int);
        }
        if display_as_name && visible && (is_changed || amount > 0) {
            let status = if is_changed {
                if amount > 0 {
                    ResourceToolStatus::Changed
                } else {
                    ResourceToolStatus::Removed
                }
            } else {
                ResourceToolStatus::Standard
            };
            result.push(ResourceTool { resource_pair: (r, amount), status });
        }
        proof {
            assert(result@.map_values(|t: ResourceTool| t@) =~= tool_list_prefix(
                resources@,
                config@.attrs,
                changed_v,
                i as int + 1,
            ));
        }
        i += 1;
    }
    result
}


// ---------------------------------------------------------------------------
// Row merging
// ---------------------------------------------------------------------------

/// The representative job of a row after absorbing `extra` more instances.
pub open spec fn merged_job(base: JobV, extra: int) -> JobV {
    JobV {
        button_text: base.button_text,
        deltas: base.deltas,
        removable: base.removable,
        saved: base.saved,
        instances: base.instances + extra,
        id: base.id,
        combination_resources: base.combination_resources,
    }
}

/// A row's output after absorbing a newer member: the newer member's changed
/// resources are appended to the accumulated changed list.
pub open spec fn merged_output(base: JobOutputV, more_changed: Seq<Resource>) -> JobOutputV {
    JobOutputV {
        main_output: crate::evaluate::DeltaOutputV {
            status: base.main_output.status,
            changed_resources: base.main_output.changed_resources + more_changed,
            resources_after: base.main_output.resources_after,
        },
        upkeep_outputs: base.upkeep_outputs,
        resources_after: base.resources_after,
    }
}

/// The application at `n - 1` joins the latest row: same job id, and the
/// outcomes are compatible.
pub open spec fn merge_joins(
    outs: Seq<(JobV, JobOutputV)>,
    rows: Seq<JobRowV>,
    n: int,
) -> bool {
    rows.len() > 0 && outs[n - 1].0.id == rows.last().job.id && job_outputs_mergeable(
        outs[n - 1].1,
        rows.last().output,
    )
}

/// The display rows of the first `n` applications: iterate in order; a new
/// row starts unless the application joins the latest row, in which case the
/// row's instance count grows and its snapshots refresh to the newer output.
pub open spec fn rows_merge_prefix(
    outs: Seq<(JobV, JobOutputV)>,
    seen: Seq<Resource>,
    attrs: Seq<Option<AttrV>>,
    n: int,
) -> Seq<JobRowV>
    recommends
        0 <= n <= outs.len(),
    decreases n,
{
    if n <= 0 {
        Seq::empty()
    } else {
        let rows = rows_merge_prefix(outs, seen, attrs, n - 1);
        let j = outs[n - 1].0;
        let o = outs[n - 1].1;
        let resource_list = normalize_spec(o.resources_after, seen);
        if merge_joins(outs, rows, n) {
            let last = rows.last();
            let combined = job_changed(o) + job_changed(last.output);
            let new_last = JobRowV {
                job: merged_job(last.job, j.instances),
                output: merged_output(last.output, job_changed(o)),
                resource_list,
                resource_tool_list: tool_list(o.resources_after, attrs, Option::Some(combined)),
                index: last.index,
            };
            rows.update(rows.len() - 1, new_last)
        } else {
            rows.push(
                JobRowV {
                    job: j,
                    output: o,
                    resource_list,
                    resource_tool_list: tool_list(
                        o.resources_after,
                        attrs,
                        Option::Some(job_changed(o)),
                    ),
                    index: n - 1,
                },
            )
        }
    }
}

/// Every tallied instance count along the merge fits the machine counter.
pub open spec fn merge_fits(
    outs: Seq<(JobV, JobOutputV)>,
    seen: Seq<Resource>,
    attrs: Seq<Option<AttrV>>,
    n: int,
) -> bool
    recommends
        0 <= n <= outs.len(),
    decreases n,
{
    if n <= 0 {
        true
    } else {
        merge_fits(outs, seen, attrs, n - 1) && {
            let rows = rows_merge_prefix(outs, seen, attrs, n - 1);
            if merge_joins(outs, rows, n) {
                rows.last().job.instances + outs[n - 1].0.instances <= usize::MAX as int
            } else {
                true
            }
        }
    }
}

proof fn lemma_merge_fits_monotone(
    outs: Seq<(JobV, JobOutputV)>,
    seen: Seq<Resource>,
    attrs: Seq<Option<AttrV>>,
    n1: int,
    n2: int,
)
    requires
        0 <= n1 <= n2,
        merge_fits(outs, seen, attrs, n2),
    ensures
        merge_fits(outs, seen, attrs, n1),
    decreases n2,
{
    if n1 < n2 {
        lemma_merge_fits_monotone(outs, seen, attrs, n1, n2 - 1);
    }
}

// ---------------------------------------------------------------------------
// Current resources
// ---------------------------------------------------------------------------

/// The selectable column resources: those of the seen list whose final
/// quantity is nonzero, over seen positions below `n`.
pub open spec fn current_from_seen(
    carried: Seq<int>,
    seen: Seq<Resource>,
    attrs: Seq<Option<AttrV>>,
    n: int,
) -> Seq<CurrentResourceV>
    recommends
        0 <= n <= seen.len(),
    decreases n,
{
    if n <= 0 {
        Seq::empty()
    } else {
        let rest = current_from_seen(carried, seen, attrs, n - 1);
        let r = seen[n - 1];
        let amount = carried[res_idx(r)];
        if amount != 0 {
            rest.push(CurrentResourceV { resource: r, amount, row: row_of(attrs, r) })
        } else {
            rest
        }
    }
}

/// The selectable inline resources: the final ledger's inline annotations
/// with a nonzero quantity, over annotation positions below `n`.
pub open spec fn current_from_tools(
    tools: Seq<ResourceToolV>,
    attrs: Seq<Option<AttrV>>,
    n: int,
) -> Seq<CurrentResourceV>
    recommends
        0 <= n <= tools.len(),
    decreases n,
{
    if n <= 0 {
        Seq::empty()
    } else {
        let rest = current_from_tools(tools, attrs, n - 1);
        let r = tools[n - 1].resource_pair.0;
        let amount = tools[n - 1].resource_pair.1;
        if amount != 0 {
            rest.push(CurrentResourceV { resource: r, amount, row: row_of(attrs, r) })
        } else {
            rest
        }
    }
}

/// All selectable resources: the nonzero column resources, then the nonzero
/// inline ones.
pub open spec fn current_list(
    carried: Seq<int>,
    seen: Seq<Resource>,
    attrs: Seq<Option<AttrV>>,
) -> Seq<CurrentResourceV> {
    let tools = tool_list(carried, attrs, Option::None);
    current_from_seen(carried, seen, attrs, seen.len() as int) + current_from_tools(
        tools,
        attrs,
        tools.len() as int,
    )
}

/// The largest display row among the first `n` selectable resources; 0 when
/// there are none.
pub open spec fn max_row_of(crs: Seq<CurrentResourceV>, n: int) -> int
    recommends
        0 <= n <= crs.len(),
    decreases n,
{
    if n <= 0 {
        0
    } else {
        let m = max_row_of(crs, n - 1);
        if crs[n - 1].row > m {
            crs[n - 1].row
        } else {
            m
        }
    }
}

proof fn lemma_max_row_push(s: Seq<CurrentResourceV>, x: CurrentResourceV, n: int)
    requires
        0 <= n <= s.len(),
    ensures
        max_row_of(s.push(x), n) == max_row_of(s, n),
    decreases n,
{
    if n > 0 {
        lemma_max_row_push(s, x, n - 1);
    }
}

// ---------------------------------------------------------------------------
// The view cache
// ---------------------------------------------------------------------------

/// The user-facing error shown: the last application's message, if any.
pub open spec fn last_user_error(outs: Seq<(JobV, JobOutputV)>) -> Option<Seq<char>> {
    if outs.len() == 0 {
        Option::None
    } else {
        job_user_message(outs.last().1)
    }
}

/// The concrete job sequence a log denotes under a configuration.
pub open spec fn vc_jobs(steps: Seq<HistoryStepV>, cfg: crate::config::ConfigV) -> Seq<JobV> {
    expand(seq![cfg.start_job], steps)
}

/// The replay a log denotes under a configuration.
pub open spec fn vc_replay(steps: Seq<HistoryStepV>, cfg: crate::config::ConfigV) -> ReplayV {
    replay(vc_jobs(steps, cfg), cfg.attrs)
}

/// Deriving the view cache hits no engine error: the replay completes and
/// every tallied counter fits its machine integer.
pub open spec fn vc_ok(steps: Seq<HistoryStepV>, cfg: crate::config::ConfigV) -> bool {
    match vc_replay(steps, cfg) {
        ReplayV::Done { outs, carried } => {
            let seen = seen_list(outs, cfg.attrs);
            totals_fit(outs, outs.len() as int) && merge_fits(
                outs,
                seen,
                cfg.attrs,
                outs.len() as int,
            )
        },
        ReplayV::Failed { .. } => false,
    }
}

/// Which engine error deriving the view cache reports, when it reports one.
pub open spec fn vc_err(steps: Seq<HistoryStepV>, cfg: crate::config::ConfigV) -> EngineError {
    match vc_replay(steps, cfg) {
        ReplayV::Failed { err } => err,
        ReplayV::Done { .. } => EngineError::Overflow,
    }
}

/// The view cache a log denotes: the merged rows, the seen columns, the
/// selectable resources, the elapsed total, the last failure message and
/// the game state.
pub open spec fn view_cache_spec(steps: Seq<HistoryStepV>, cfg: crate::config::ConfigV) -> ViewCacheV {
    match vc_replay(steps, cfg) {
        ReplayV::Done { outs, carried } => {
            let seen = seen_list(outs, cfg.attrs);
            let current = current_list(carried, seen, cfg.attrs);
            ViewCacheV {
                job_rows: rows_merge_prefix(outs, seen, cfg.attrs, outs.len() as int),
                seen_resources: seen,
                current_resources: current,
                total_days: total_days_prefix(outs, outs.len() as int),
                user_error: last_user_error(outs),
                max_row: max_row_of(current, current.len() as int),
                game_state: game_state_spec(outs, cfg.win_job_id, outs.len() as int),
            }
        },
        ReplayV::Failed { .. } => vstd::pervasive::arbitrary(),
    }
}


/// Record, per resource, whether this output left it at a nonzero quantity.
fn update_seen_flags(flags: &mut Vec<bool>, output: &JobOutput)
    requires
        old(flags)@.len() == RESOURCE_COUNT as int,
        ledger_wf(output.resources_after),
    ensures
        final(flags)@.len() == RESOURCE_COUNT as int,
        forall|i: int|
            0 <= i < RESOURCE_COUNT as int ==> final(flags)@[i] == (old(flags)@[i]
                || output@.resources_after[i] != 0),
{
    let mut i: usize = 0;
    while i < RESOURCE_COUNT
        invariant
            i <= RESOURCE_COUNT,
            flags@.len() == RESOURCE_COUNT as int,
            ledger_wf(output.resources_after),
            forall|i2: int|
                0 <= i2 < i as int ==> flags@[i2] == (old(flags)@[i2]
                    || output@.resources_after[i2] != 0),
            forall|i2: int|
                i as int <= i2 < RESOURCE_COUNT as int ==> flags@[i2] == old(flags)@[i2],
        decreases RESOURCE_COUNT - i,
    {
        let r = resource_at(i);
        proof {
            crate::resource::lemma_res_of_idx(i as int);
        }
        if output.resources_after.get(r) != 0 {
            flags.set(i, true);
        }
        i += 1;
    }
}

/// Derive the complete projection of a history log: expand the log into the
/// concrete job sequence, replay it from an empty ledger, and compute the
/// merged rows, the seen columns, the selectable resources, the elapsed
/// total, the last failure message and the game state.
///
/// Returns an engine error exactly when a replayed step hits one, or a
/// tallied counter leaves the machine range.
pub fn create_view_cache(steps: &Vec<HistoryStep>, config: &Config) -> (r: Result<ViewCache, EngineError>)
    requires
        config_wf(config@),
    ensures
        r is Ok <==> vc_ok(steps_view(steps@), config@),
        r is Ok ==> r->Ok_0@ == view_cache_spec(steps_view(steps@), config@),
        r is Err ==> r->Err_0 == vc_err(steps_view(steps@), config@),
{
    let ghost stepsv = steps_view(steps@);
    let ghost cfg = config@;
    let ghost attrs = cfg.attrs;
    // Expand the history into the concrete job application order.
    let jobs_to_execute = expand_history(steps, &config.start_job);
    let ghost jobsv = jobs_view(jobs_to_execute@);
    proof {
        assert(jobsv == vc_jobs(stepsv, cfg));
    }

    // Replay every job against a ledger that starts empty; only a successful
    // step advances the carried ledger. Track which resources were ever
    // nonzero.
    let mut resources = Ledger::new();
    let mut pairs: Vec<(Job, JobOutput)> = Vec::new();
    let mut flags: Vec<bool> = Vec::new();
    let mut f: usize = 0;
    while f < RESOURCE_COUNT
        invariant
            f <= RESOURCE_COUNT,
            flags@.len() == f as int,
            forall|i: int| 0 <= i < f as int ==> flags@[i] == false,
        decreases RESOURCE_COUNT - f,
    {
        flags.push(false);
        f += 1;
    }
    let mut k: usize = 0;
    while k < jobs_to_execute.len()
        invariant
            k <= jobs_to_execute.len(),
            stepsv == steps_view(steps@),
            cfg == config@,
            attrs == cfg.attrs,
            config_wf(cfg),
            jobsv == jobs_view(jobs_to_execute@),
            jobsv == vc_jobs(stepsv, cfg),
            ledger_wf(resources),
            flags@.len() == RESOURCE_COUNT as int,
            replay_prefix(jobsv, attrs, k as int) == (ReplayV::Done {
                outs: outs_view(pairs@),
                carried: resources@,
            }),
            forall|i: int|
                0 <= i < RESOURCE_COUNT as int ==> flags@[i] == seen_flag(outs_view(pairs@), i),
            forall|k2: int|
                0 <= k2 < pairs@.len() ==> ledger_wf(#[trigger] pairs@[k2].1.resources_after),
        decreases jobs_to_execute.len() - k,
    {
        let ghost old_outs = outs_view(pairs@);
        let job = jobs_to_execute[k].clone();
        proof {
            assert(job@ == jobsv[k as int]);
        }
        let job_output = match apply_job(resources.duplicate(), &job, config) {
            Ok(o) => o,
            Err(e) => {
                proof {
                    assert(replay_prefix(jobsv, attrs, k as int + 1) == (ReplayV::Failed {
                        err: e,
                    }));
                    lemma_replay_failed_persists(jobsv, attrs, k as int + 1, jobsv.len() as int);
                    assert(vc_replay(stepsv, cfg) == (ReplayV::Failed { err: e }));
                }
                return Err(e);
            },
        };
        let ghost outv = job_output@;
        let ghost old_flags = flags@;
        update_seen_flags(&mut flags, &job_output);
        if job_output.is_ok() {
            resources = job_output.resources_after.duplicate();
        }
        pairs.push((job, job_output));
        proof {
            assert(outs_view(pairs@) =~= old_outs.push((jobsv[k as int], outv)));
            assert forall|i2: int| 0 <= i2 < RESOURCE_COUNT as int implies flags@[i2] == seen_flag(
                outs_view(pairs@),
                i2,
            ) by {
                assert(flags@[i2] == (old_flags[i2] || outv.resources_after[i2] != 0));
                assert(old_flags[i2] == seen_flag(old_outs, i2));
                lemma_seen_flag_push(old_outs, (jobsv[k as int], outv), i2);
            }
        }
        k += 1;
    }
    let ghost outs = outs_view(pairs@);
    let ghost carried = resources@;
    proof {
        assert(vc_replay(stepsv, cfg) == (ReplayV::Done { outs, carried }));
    }

    // The user-facing error: the last application's message, if any.
    let user_error: Option<String> = if pairs.len() > 0 {
        let last_pair = &pairs[pairs.len() - 1];
        match last_pair.1.user_message() {
            Option::Some(m) => Option::Some(String::from_str(m)),
            Option::None => Option::None,
        }
    } else {
        Option::None
    };
    proof {
        assert((match user_error {
            Option::Some(e) => Option::Some(e@),
            Option::None => Option::<Seq<char>>::None,
        }) == last_user_error(outs));
    }

    // Total elapsed units and the win condition.
    let mut total_days: usize = 0;
    let mut game_state = GameState::Playing;
    let mut k2: usize = 0;
    while k2 < pairs.len()
        invariant
            k2 <= pairs.len(),
            stepsv == steps_view(steps@),
            cfg == config@,
            attrs == cfg.attrs,
            config_wf(cfg),
            outs == outs_view(pairs@),
            vc_replay(stepsv, cfg) == (ReplayV::Done { outs, carried }),
            total_days as int == total_days_prefix(outs, k2 as int),
            totals_fit(outs, k2 as int),
            game_state@ == game_state_spec(outs, cfg.win_job_id, k2 as int),
        decreases pairs.len() - k2,
    {
        let pair = &pairs[k2];
        if pair.1.is_ok() {
            total_days = match total_days.checked_add(pair.0.instances) {
                Option::Some(t) => t,
                Option::None => {
                    proof {
                        assert(!totals_fit(outs, k2 as int + 1));
                        if totals_fit(outs, outs.len() as int) {
                            lemma_totals_fit_monotone(outs, k2 as int + 1, outs.len() as int);
                        }
                        assert(!vc_ok(stepsv, cfg));
                    }
                    return Err(EngineError::Overflow);
                },
            };
            if pair.0.id == config.win_job_id {
                game_state = GameState::Won { spent_days: total_days };
            }
        }
        k2 += 1;
    }

    // The columns worth showing, in display order.
    let mut seen_resources: Vec<Resource> = Vec::new();
    let mut i: usize = 0;
    while i < RESOURCE_COUNT
        invariant
            i <= RESOURCE_COUNT,
            cfg == config@,
            attrs == cfg.attrs,
            config_wf(cfg),
            flags@.len() == RESOURCE_COUNT as int,
            forall|i2: int|
                0 <= i2 < RESOURCE_COUNT as int ==> flags@[i2] == seen_flag(outs, i2),
            seen_resources@ =~= seen_list_prefix(outs, attrs, i as int),
        decreases RESOURCE_COUNT - i,
    {
        proof {
            crate::resource::lemma_res_of_idx(i as int);
        }
        if flags[i] {
            let visible = match &config.attrs[i] {
                Option::Some(attribute) => attribute.visible && !attribute.display_as_name,
                Option::None => true,
            };
            if visible {
                seen_resources.push(resource_at(i));
            }
        }
        proof {
            assert(seen_resources@ =~= seen_list_prefix(outs, attrs, i as int + 1));
        }
        i += 1;
    }
    let ghost seenv = seen_resources@;
    proof {
        assert(seenv == seen_list(outs, attrs));
    }

    // Merge consecutive, id-equal, outcome-compatible applications into rows.
    let ghost full = outs;
    let mut rows: Vec<JobRow> = Vec::new();
    let mut index: usize = 0;
    proof {
        assert(outs_view(pairs@) =~= full.skip(0));
        assert(full.len() <= usize::MAX as int);
    }
    while pairs.len() > 0
        invariant
            stepsv == steps_view(steps@),
            cfg == config@,
            attrs == cfg.attrs,
            config_wf(cfg),
            vc_replay(stepsv, cfg) == (ReplayV::Done { outs: full, carried }),
            seenv == seen_list(full, attrs),
            seen_resources@ == seenv,
            full.len() <= usize::MAX as int,
            index as int == full.len() - pairs@.len(),
            0 <= index as int <= full.len(),
            outs_view(pairs@) =~= full.skip(index as int),
            rows@.map_values(|r: JobRow| r@) =~= rows_merge_prefix(full, seenv, attrs, index as int),
            merge_fits(full, seenv, attrs, index as int),
            forall|k3: int|
                0 <= k3 < pairs@.len() ==> ledger_wf(#[trigger] pairs@[k3].1.resources_after),
        decreases pairs.len(),
    {
        let ghost pairs_before = pairs@;
        let (this_job, this_output) = pairs.remove(0);
        proof {
            assert(outs_view(pairs_before)[0] == (pairs_before[0].0@, pairs_before[0].1@));
            assert(outs_view(pairs_before)[0] == full.skip(index as int)[0]);
            assert((this_job@, this_output@) == full[index as int]);
            assert(outs_view(pairs@) =~= outs_view(pairs_before).remove(0));
            assert(outs_view(pairs_before).remove(0) =~= full.skip(index as int + 1));
        }
        let resource_list = normalize(&this_output.resources_after, &seen_resources);
        let joins = if rows.len() > 0 {
            let last = &rows[rows.len() - 1];
            this_job.id == last.job.id && this_output.is_mergeable(&last.output)
        } else {
            false
        };
        proof {
            assert(joins == merge_joins(
                full,
                rows_merge_prefix(full, seenv, attrs, index as int),
                index as int + 1,
            ));
        }
        if joins {
            let ghost rows_before = rows@.map_values(|r: JobRow| r@);
            let mut last_row = match rows.pop() {
                Option::Some(row) => row,
                Option::None => unreached(),
            };
            let new_instances = match last_row.job.instances.checked_add(this_job.instances) {
                Option::Some(v) => v,
                Option::None => {
                    proof {
                        assert(!merge_fits(full, seenv, attrs, index as int + 1));
                        if merge_fits(full, seenv, attrs, full.len() as int) {
                            lemma_merge_fits_monotone(
                                full,
                                seenv,
                                attrs,
                                index as int + 1,
                                full.len() as int,
                            );
                        }
                        assert(!vc_ok(stepsv, cfg));
                    }
                    return Err(EngineError::Overflow);
                },
            };
            let mut this_changed = this_output.get_changed_resources();
            let mut combined = crate::resource::copy_resources(&this_changed);
            let mut last_changed = last_row.output.get_changed_resources();
            combined.append(&mut last_changed);
            let tools = create_resource_tool_list(
                &this_output.resources_after,
                Option::Some(&combined),
                config,
            );
            last_row.job.instances = new_instances;
            last_row.resource_list = resource_list;
            last_row.resource_tool_list = tools;
            last_row.output.main_output.changed_resources.append(&mut this_changed);
            rows.push(last_row);
            proof {
                assert(rows@.map_values(|r: JobRow| r@) =~= rows_merge_prefix(
                    full,
                    seenv,
                    attrs,
                    index as int + 1,
                ));
            }
        } else {
            let changed = this_output.get_changed_resources();
            let tools = create_resource_tool_list(
                &this_output.resources_after,
                Option::Some(&changed),
                config,
            );
            rows.push(
                JobRow {
                    job: this_job,
                    output: this_output,
                    resource_list,
                    resource_tool_list: tools,
                    index,
                },
            );
            proof {
                assert(rows@.map_values(|r: JobRow| r@) =~= rows_merge_prefix(
                    full,
                    seenv,
                    attrs,
                    index as int + 1,
                ));
            }
        }
        index += 1;
    }
    proof {
        assert(index as int == full.len());
    }

    // The selectable resources and the largest display row among them.
    let final_tools = create_resource_tool_list(&resources, Option::None, config);
    let ghost toolsv = tool_list(carried, attrs, Option::None);
    let normalized = normalize(&resources, &seen_resources);
    let ghost part1 = current_from_seen(carried, seenv, attrs, seenv.len() as int);
    proof {
        assert(pairs_view(normalized@).len() == normalized@.len());
        assert(normalize_spec(carried, seenv).len() == seenv.len());
        assert(final_tools@.map_values(|t: ResourceTool| t@).len() == final_tools@.len());
    }
    let mut current_resources: Vec<CurrentResource> = Vec::new();
    let mut max_row: usize = 0;
    let mut c1: usize = 0;
    while c1 < normalized.len()
        invariant
            cfg == config@,
            attrs == cfg.attrs,
            config_wf(cfg),
            ledger_wf(resources),
            carried == resources@,
            seenv == seen_resources@,
            pairs_view(normalized@) == normalize_spec(carried, seenv),
            c1 <= normalized.len(),
            normalized@.len() == seenv.len(),
            current_resources@.map_values(|c: CurrentResource| c@) =~= current_from_seen(
                carried,
                seenv,
                attrs,
                c1 as int,
            ),
            max_row as int == max_row_of(
                current_from_seen(carried, seenv, attrs, c1 as int),
                current_from_seen(carried, seenv, attrs, c1 as int).len() as int,
            ),
        decreases normalized.len() - c1,
    {
        let (r, amount) = normalized[c1];
        proof {
            assert(pairs_view(normalized@)[c1 as int] == (r, amount as int));
            assert((r, amount as int) == (seenv[c1 as int], carried[res_idx(seenv[c1 as int])]));
        }
        let ghost before_list = current_from_seen(carried, seenv, attrs, c1 as int);
        if amount != 0 {
            let row = match &config.attrs[r.index()] {
                Option::Some(attribute) => attribute.row,
                Option::None => 0,
            };
            proof {
                crate::resource::lemma_res_idx_of(r);
                assert(row as int == row_of(attrs, r));
            }
            if row > max_row {
                max_row = row;
            }
            current_resources.push(CurrentResource { resource: r, amount, row });
            proof {
                let x = CurrentResourceV { resource: r, amount: amount as int, row: row as int };
                lemma_max_row_push(before_list, x, before_list.len() as int);
                assert(current_from_seen(carried, seenv, attrs, c1 as int + 1)
                    =~= before_list.push(x));
            }
        } else {
            proof {
                assert(current_from_seen(carried, seenv, attrs, c1 as int + 1) =~= before_list);
            }
        }
        c1 += 1;
    }
    proof {
        assert(current_from_seen(carried, seenv, attrs, seenv.len() as int) == part1);
    }
    let mut c2: usize = 0;
    while c2 < final_tools.len()
        invariant
            cfg == config@,
            attrs == cfg.attrs,
            config_wf(cfg),
            seenv == seen_resources@,
            part1 == current_from_seen(carried, seenv, attrs, seenv.len() as int),
            final_tools@.map_values(|t: ResourceTool| t@) == toolsv,
            toolsv == tool_list(carried, attrs, Option::<Seq<Resource>>::None),
            c2 <= final_tools.len(),
            final_tools@.len() == toolsv.len(),
            current_resources@.map_values(|c: CurrentResource| c@) =~= part1 + current_from_tools(
                toolsv,
                attrs,
                c2 as int,
            ),
            max_row as int == max_row_of(
                part1 + current_from_tools(toolsv, attrs, c2 as int),
                (part1 + current_from_tools(toolsv, attrs, c2 as int)).len() as int,
            ),
        decreases final_tools.len() - c2,
    {
        let tool = &final_tools[c2];
        let (r, amount) = tool.resource_pair;
        proof {
            assert(final_tools@.map_values(|t: ResourceTool| t@)[c2 as int] == toolsv[c2 as int]);
            assert(toolsv[c2 as int].resource_pair == (r, amount as int));
        }
        let ghost before_list = part1 + current_from_tools(toolsv, attrs, c2 as int);
        if amount != 0 {
            let row = match &config.attrs[r.index()] {
                Option::Some(attribute) => attribute.row,
                Option::None => 0,
            };
            proof {
                crate::resource::lemma_res_idx_of(r);
                assert(row as int == row_of(attrs, r));
            }
            if row > max_row {
                max_row = row;
            }
            current_resources.push(CurrentResource { resource: r, amount, row });
            proof {
                let x = CurrentResourceV { resource: r, amount: amount as int, row: row as int };
                lemma_max_row_push(before_list, x, before_list.len() as int);
                assert(part1 + current_from_tools(toolsv, attrs, c2 as int + 1)
                    =~= before_list.push(x));
            }
        } else {
            proof {
                assert(part1 + current_from_tools(toolsv, attrs, c2 as int + 1) =~= before_list);
            }
        }
        c2 += 1;
    }

    let cache = ViewCache {
        job_rows: rows,
        seen_resources,
        current_resources,
        total_days,
        user_error,
        max_row,
        game_state,
    };
    proof {
        assert(current_list(carried, seenv, attrs) == part1 + current_from_tools(
            toolsv,
            attrs,
            toolsv.len() as int,
        ));
        assert(cache@ =~~= view_cache_spec(stepsv, cfg));
    }
    Ok(cache)
}


} // verus!
