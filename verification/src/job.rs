//! Jobs and the job applicator: a job's primary tiers, then every standing
//! upkeep rule, threaded through the ledger.

use vstd::prelude::*;
use crate::amount::Amount;
use crate::config::{AttrV, Config, config_wf};
use crate::evaluate::{
    DeltaOutput, DeltaOutputV, EngineError, apply_deltas, eval_err, eval_ok, eval_output,
    status_failing, status_is_ok, tiers_view,
};
use crate::ledger::{Ledger, ledger_wf};
use crate::resource::{Resource, RESOURCE_COUNT, res_of, resource_at, copy_resources};

verus! {

/// A player action: its display text, effect tiers, repeat count, flags and
/// stable identity. Jobs with equal ids count as "the same kind of job".
#[derive(Debug, PartialEq)]
pub struct Job {
    /// Text on the button.
    pub button_text: &'static str,
    /// How resources change when this is applied: tiers in fallback order.
    pub deltas: Vec<Vec<(Resource, Amount)>>,
    /// Can this be removed by the user?
    pub removable: bool,
    /// Does this show up in the quick list of jobs?
    pub saved: bool,
    /// How many applications are collapsed into this item.
    pub instances: usize,
    /// Jobs with the same id are considered to be the exact same.
    pub id: usize,
    /// The resources whose pairing produced this job.
    pub combination_resources: Vec<Resource>,
}

/// Mathematical image of `Job`.
#[verifier::ext_equal]
pub struct JobV {
    pub button_text: Seq<char>,
    pub deltas: Seq<Seq<(Resource, Amount)>>,
    pub removable: bool,
    pub saved: bool,
    pub instances: int,
    pub id: int,
    pub combination_resources: Seq<Resource>,
}

impl View for Job {
    type V = JobV;

    open spec fn view(&self) -> JobV {
        JobV {
            button_text: self.button_text@,
            deltas: tiers_view(self.deltas@),
            removable: self.removable,
            saved: self.saved,
            instances: self.instances as int,
            id: self.id as int,
            combination_resources: self.combination_resources@,
        }
    }
}

/// An element-wise copy of a delta list.
pub fn copy_tiers(v: &Vec<Vec<(Resource, Amount)>>) -> (r: Vec<Vec<(Resource, Amount)>>)
    ensures
        tiers_view(r@) == tiers_view(v@),
{
    let mut r: Vec<Vec<(Resource, Amount)>> = Vec::new();
    let mut i: usize = 0;
    while i < v.len()
        invariant
            i <= v.len(),
            r@.len() == i as int,
            forall|k: int| 0 <= k < i as int ==> #[trigger] r@[k]@ == v@[k]@,
        decreases v.len() - i,
    {
        let tier = &v[i];
        let mut t: Vec<(Resource, Amount)> = Vec::new();
        let mut j: usize = 0;
        while j < tier.len()
            invariant
                j <= tier.len(),
                t@ =~= tier@.take(j as int),
            decreases tier.len() - j,
        {
            t.push(tier[j]);
            j += 1;
        }
        proof {
            assert(t@ =~= tier@);
        }
        r.push(t);
        i += 1;
    }
    proof {
        assert(tiers_view(r@) =~= tiers_view(v@));
    }
    r
}

impl Clone for Job {
    /// An independent copy with the same fields.
    fn clone(&self) -> (r: Self)
        ensures
            r@ == self@,
    {
        Job {
            button_text: self.button_text,
            deltas: copy_tiers(&self.deltas),
            removable: self.removable,
            saved: self.saved,
            instances: self.instances,
            id: self.id,
            combination_resources: copy_resources(&self.combination_resources),
        }
    }
}

impl Job {
    /// A fresh removable, saved job under the next id; bumps the id counter.
    pub fn new(
        button_text: &'static str,
        deltas: Vec<Vec<(Resource, Amount)>>,
        combination_resources: Vec<Resource>,
        id: &mut usize,
    ) -> (r: Job)
        requires
            *old(id) < usize::MAX,
        ensures
            *final(id) == *old(id) + 1,
            r@ == (JobV {
                button_text: button_text@,
                deltas: tiers_view(deltas@),
                removable: true,
                saved: true,
                instances: 1,
                id: *old(id) as int,
                combination_resources: combination_resources@,
            }),
    {
        let this_id: usize = *id;
        *id += 1;
        Job {
            button_text,
            deltas,
            removable: true,
            saved: true,
            instances: 1,
            id: this_id,
            combination_resources,
        }
    }

    /// A fresh removable job that is kept out of the quick list.
    pub fn new_unsaved(
        button_text: &'static str,
        deltas: Vec<Vec<(Resource, Amount)>>,
        combination_resources: Vec<Resource>,
        id: &mut usize,
    ) -> (r: Job)
        requires
            *old(id) < usize::MAX,
        ensures
            *final(id) == *old(id) + 1,
            r@ == (JobV {
                button_text: button_text@,
                deltas: tiers_view(deltas@),
                removable: true,
                saved: false,
                instances: 1,
                id: *old(id) as int,
                combination_resources: combination_resources@,
            }),
    {
        let this_id: usize = *id;
        *id += 1;
        Job {
            button_text,
            deltas,
            removable: true,
            saved: false,
            instances: 1,
            id: this_id,
            combination_resources,
        }
    }
}

/// The result of applying one job: the primary evaluation, every upkeep
/// evaluation in resource order, and the ledger after all of them.
#[derive(Debug, PartialEq)]
pub struct JobOutput {
    pub main_output: DeltaOutput,
    pub upkeep_outputs: Vec<(Resource, DeltaOutput)>,
    pub resources_after: Ledger,
}

/// Mathematical image of `JobOutput`.
#[verifier::ext_equal]
pub struct JobOutputV {
    pub main_output: DeltaOutputV,
    pub upkeep_outputs: Seq<(Resource, DeltaOutputV)>,
    pub resources_after: Seq<int>,
}

impl View for JobOutput {
    type V = JobOutputV;

    open spec fn view(&self) -> JobOutputV {
        JobOutputV {
            main_output: self.main_output@,
            upkeep_outputs: self.upkeep_outputs@.map_values(
                |p: (Resource, DeltaOutput)| (p.0, p.1@),
            ),
            resources_after: self.resources_after@,
        }
    }
}

/// Every ledger a job output carries has one slot per resource.
pub open spec fn job_output_ledgers_wf(o: JobOutput) -> bool {
    &&& ledger_wf(o.resources_after)
    &&& ledger_wf(o.main_output.resources_after)
    &&& forall|k: int|
        0 <= k < o.upkeep_outputs@.len() ==> ledger_wf(#[trigger] o.upkeep_outputs@[k].1.resources_after)
}

/// A job application succeeded: the primary step and every upkeep step did.
pub open spec fn job_is_ok(o: JobOutputV) -> bool {
    status_is_ok(o.main_output.status) && forall|k: int|
        0 <= k < o.upkeep_outputs.len() ==> status_is_ok(#[trigger] o.upkeep_outputs[k].1.status)
}

/// Two applications may collapse into one display row exactly when both
/// succeeded or both failed.
pub open spec fn job_outputs_mergeable(a: JobOutputV, b: JobOutputV) -> bool {
    job_is_ok(a) == job_is_ok(b)
}

/// The blocking resources of the upkeep steps before `n`, concatenated.
pub open spec fn upkeep_failing_prefix(ups: Seq<(Resource, DeltaOutputV)>, n: int) -> Seq<Resource>
    recommends
        0 <= n <= ups.len(),
    decreases n,
{
    if n <= 0 {
        Seq::empty()
    } else {
        upkeep_failing_prefix(ups, n - 1) + status_failing(ups[n - 1].1.status)
    }
}

/// All blocking resources of a job application: primary first, then every
/// upkeep step in order.
pub open spec fn job_failing(o: JobOutputV) -> Seq<Resource> {
    status_failing(o.main_output.status) + upkeep_failing_prefix(
        o.upkeep_outputs,
        o.upkeep_outputs.len() as int,
    )
}

/// The changed resources of the upkeep steps before `n`, concatenated.
pub open spec fn upkeep_changed_prefix(ups: Seq<(Resource, DeltaOutputV)>, n: int) -> Seq<Resource>
    recommends
        0 <= n <= ups.len(),
    decreases n,
{
    if n <= 0 {
        Seq::empty()
    } else {
        upkeep_changed_prefix(ups, n - 1) + ups[n - 1].1.changed_resources
    }
}

/// All changed resources of a job application: primary first, then every
/// upkeep step in order.
pub open spec fn job_changed(o: JobOutputV) -> Seq<Resource> {
    o.main_output.changed_resources + upkeep_changed_prefix(
        o.upkeep_outputs,
        o.upkeep_outputs.len() as int,
    )
}

/// The first failure message one evaluation carries, if any.
pub open spec fn status_first_error(s: crate::evaluate::DeltaOutputStatusV) -> Option<Seq<char>> {
    match s {
        crate::evaluate::DeltaOutputStatusV::Failure { errors, .. } => if errors.len() > 0 {
            Option::Some(errors[0])
        } else {
            Option::None
        },
        _ => Option::None,
    }
}

/// The first failure message among the upkeep steps before `n`, in step
/// order.
pub open spec fn upkeep_first_error(ups: Seq<(Resource, DeltaOutputV)>, n: int) -> Option<
    Seq<char>,
>
    recommends
        0 <= n <= ups.len(),
    decreases n,
{
    if n <= 0 {
        Option::None
    } else {
        match upkeep_first_error(ups, n - 1) {
            Option::Some(m) => Option::Some(m),
            Option::None => status_first_error(ups[n - 1].1.status),
        }
    }
}

/// Once an upkeep step has supplied a message, later steps do not change it.
proof fn lemma_upkeep_first_error_persists(ups: Seq<(Resource, DeltaOutputV)>, n1: int, n2: int)
    requires
        0 <= n1 <= n2,
        upkeep_first_error(ups, n1) is Some,
    ensures
        upkeep_first_error(ups, n2) == upkeep_first_error(ups, n1),
    decreases n2,
{
    if n1 < n2 {
        lemma_upkeep_first_error_persists(ups, n1, n2 - 1);
    }
}

/// The user-facing message of a job application: the first failing step's
/// first message — the primary step first, then the upkeep steps in order.
pub open spec fn job_user_message(o: JobOutputV) -> Option<Seq<char>> {
    match status_first_error(o.main_output.status) {
        Option::Some(m) => Option::Some(m),
        Option::None => upkeep_first_error(o.upkeep_outputs, o.upkeep_outputs.len() as int),
    }
}

impl JobOutput {
    /// The user-facing message: the first failing step's first message, the
    /// primary step scanned before the upkeep steps.
    pub fn user_message(&self) -> (r: Option<&str>)
        ensures
            r is Some <==> job_user_message(self@) is Some,
            r matches Some(s) ==> Option::Some(s@) == job_user_message(self@),
    {
        match self.main_output.user_messages() {
            Option::None => {},
            Option::Some(list) => {
                if list.len() > 0 {
                    return Some(list[0].as_str());
                }
            },
        }
        proof {
            assert(status_first_error(self@.main_output.status) is None);
        }
        let mut k: usize = 0;
        while k < self.upkeep_outputs.len()
            invariant
                k <= self.upkeep_outputs.len(),
                status_first_error(self@.main_output.status) is None,
                upkeep_first_error(self@.upkeep_outputs, k as int) is None,
            decreases self.upkeep_outputs.len() - k,
        {
            match self.upkeep_outputs[k].1.user_messages() {
                Option::None => {},
                Option::Some(list) => {
                    if list.len() > 0 {
                        proof {
                            assert(upkeep_first_error(self@.upkeep_outputs, k as int + 1)
                                == Option::Some(list@.map_values(|e: String| e@)[0]));
                            lemma_upkeep_first_error_persists(
                                self@.upkeep_outputs,
                                k as int + 1,
                                self@.upkeep_outputs.len() as int,
                            );
                        }
                        return Some(list[0].as_str());
                    }
                },
            }
            proof {
                assert(upkeep_first_error(self@.upkeep_outputs, k as int + 1) is None);
            }
            k += 1;
        }
        None
    }

    /// Overall success: the primary step and every upkeep step succeeded.
    pub fn is_ok(&self) -> (r: bool)
        ensures
            r == job_is_ok(self@),
    {
        if !self.main_output.is_ok() {
            return false;
        }
        let mut k: usize = 0;
        while k < self.upkeep_outputs.len()
            invariant
                k <= self.upkeep_outputs.len(),
                forall|k2: int|
                    0 <= k2 < k as int ==> status_is_ok(#[trigger] self@.upkeep_outputs[k2].1.status),
        decreases self.upkeep_outputs.len() - k,
        {
            if !self.upkeep_outputs[k].1.is_ok() {
                proof {
                    assert(!status_is_ok(self@.upkeep_outputs[k as int].1.status));
                }
                return false;
            }
            k += 1;
        }
        true
    }

    /// The tier index the primary step settled on.
    pub fn delta_index(&self) -> (r: usize)
        ensures
            r as int == crate::evaluate::status_delta_index(self@.main_output.status),
    {
        self.main_output.delta_index()
    }

    /// All blocking resources: primary first, then every upkeep step.
    pub fn failing_resources(&self) -> (r: Vec<Resource>)
        ensures
            r@ == job_failing(self@),
    {
        let mut failing = self.main_output.failing_resources();
        let mut k: usize = 0;
        while k < self.upkeep_outputs.len()
            invariant
                k <= self.upkeep_outputs.len(),
                failing@ =~= status_failing(self@.main_output.status) + upkeep_failing_prefix(
                    self@.upkeep_outputs,
                    k as int,
                ),
            decreases self.upkeep_outputs.len() - k,
        {
            let mut more = self.upkeep_outputs[k].1.failing_resources();
            failing.append(&mut more);
            proof {
                assert(failing@ =~= status_failing(self@.main_output.status)
                    + upkeep_failing_prefix(self@.upkeep_outputs, k as int + 1));
            }
            k += 1;
        }
        failing
    }

    /// Whether this application may share a display row with `other`.
    pub fn is_mergeable(&self, other: &Self) -> (r: bool)
        ensures
            r == job_outputs_mergeable(self@, other@),
    {
        (self.is_ok() && other.is_ok()) || (!self.is_ok() && !other.is_ok())
    }

    /// All changed resources: primary first, then every upkeep step.
    pub fn get_changed_resources(&self) -> (r: Vec<Resource>)
        ensures
            r@ == job_changed(self@),
    {
        let mut total = copy_resources(&self.main_output.changed_resources);
        let mut k: usize = 0;
        while k < self.upkeep_outputs.len()
            invariant
                k <= self.upkeep_outputs.len(),
                total@ =~= self@.main_output.changed_resources + upkeep_changed_prefix(
                    self@.upkeep_outputs,
                    k as int,
                ),
            decreases self.upkeep_outputs.len() - k,
        {
            let mut more = copy_resources(&self.upkeep_outputs[k].1.changed_resources);
            total.append(&mut more);
            proof {
                assert(total@ =~= self@.main_output.changed_resources
                    + upkeep_changed_prefix(self@.upkeep_outputs, k as int + 1));
            }
            k += 1;
        }
        total
    }
}

/// The outcome of a run of upkeep steps, mathematically.
#[verifier::ext_equal]
pub enum UpkeepRunV {
    Done { outputs: Seq<(Resource, DeltaOutputV)>, after: Seq<int> },
    Failed { err: EngineError },
}

/// Run every resource's standing upkeep rule, from resource index `i` on,
/// in resource order: a resource with an upkeep rule and a strictly positive
/// quantity has the rule applied at multiplier `quantity * inst`, the ledger
/// threading from one step to the next.
pub open spec fn run_upkeep(
    led: Seq<int>,
    attrs: Seq<Option<AttrV>>,
    inst: int,
    i: int,
) -> UpkeepRunV
    recommends
        0 <= i <= RESOURCE_COUNT as int,
    decreases RESOURCE_COUNT as int - i,
{
    if i < 0 || i >= RESOURCE_COUNT as int {
        UpkeepRunV::Done { outputs: Seq::empty(), after: led }
    } else {
        match attrs[i] {
            Option::Some(att) => {
                if led[i] > 0 {
                    let m = led[i] * inst;
                    if m < i64::MIN || m > i64::MAX {
                        UpkeepRunV::Failed { err: EngineError::Overflow }
                    } else if eval_ok(led, att.upkeep, m) {
                        let out = eval_output(led, att.upkeep, m);
                        match run_upkeep(out.resources_after, attrs, inst, i + 1) {
                            UpkeepRunV::Done { outputs, after } => UpkeepRunV::Done {
                                outputs: seq![(res_of(i), out)] + outputs,
                                after,
                            },
                            UpkeepRunV::Failed { err } => UpkeepRunV::Failed { err },
                        }
                    } else {
                        UpkeepRunV::Failed { err: eval_err(led, att.upkeep, m) }
                    }
                } else {
                    run_upkeep(led, attrs, inst, i + 1)
                }
            },
            Option::None => run_upkeep(led, attrs, inst, i + 1),
        }
    }
}

/// Prefix already-produced upkeep outputs onto the rest of a run.
pub open spec fn upkeep_prepend(pre: Seq<(Resource, DeltaOutputV)>, r: UpkeepRunV) -> UpkeepRunV {
    match r {
        UpkeepRunV::Done { outputs, after } => UpkeepRunV::Done { outputs: pre + outputs, after },
        UpkeepRunV::Failed { err } => UpkeepRunV::Failed { err },
    }
}

/// The outcome of one whole job application, mathematically.
#[verifier::ext_equal]
pub enum JobRunV {
    Done { output: JobOutputV },
    Failed { err: EngineError },
}

/// One job application: the primary delta list at multiplier `instances`,
/// then every standing upkeep rule in resource order.
pub open spec fn job_eval(led: Seq<int>, job: JobV, attrs: Seq<Option<AttrV>>) -> JobRunV {
    if job.instances > i64::MAX as int {
        JobRunV::Failed { err: EngineError::Overflow }
    } else if !eval_ok(led, job.deltas, job.instances) {
        JobRunV::Failed { err: eval_err(led, job.deltas, job.instances) }
    } else {
        let main = eval_output(led, job.deltas, job.instances);
        match run_upkeep(main.resources_after, attrs, job.instances, 0) {
            UpkeepRunV::Done { outputs, after } => JobRunV::Done {
                output: JobOutputV {
                    main_output: main,
                    upkeep_outputs: outputs,
                    resources_after: after,
                },
            },
            UpkeepRunV::Failed { err } => JobRunV::Failed { err },
        }
    }
}

/// Apply one job to the ledger: evaluate its primary tiers at multiplier
/// `job.instances`, then every resource's standing upkeep rule, scaled by
/// that resource's post-update quantity, threading the ledger through each
/// step in resource order.
pub fn apply_job(orig_resources: Ledger, job: &Job, config: &Config) -> (r: Result<JobOutput, EngineError>)
    requires
        ledger_wf(orig_resources),
        config_wf(config@),
    ensures
        r is Ok <==> (job_eval(orig_resources@, job@, config@.attrs) is Done),
        r is Ok ==> job_output_ledgers_wf(r->Ok_0) && r->Ok_0@ == (job_eval(
            orig_resources@,
            job@,
            config@.attrs,
        )->output),
        r is Err ==> (JobRunV::Failed { err: r->Err_0 }) == job_eval(
            orig_resources@,
            job@,
            config@.attrs,
        ),
{
    let ghost led0 = orig_resources@;
    let ghost jv = job@;
    let ghost attrs = config@.attrs;
    if job.instances as u64 > i64::MAX as u64 {
        return Err(EngineError::Overflow);
    }
    let inst: i64 = job.instances as i64;
    let main_output = match apply_deltas(orig_resources, &job.deltas, inst) {
        Ok(out) => out,
        Err(e) => {
            return Err(e);
        },
    };
    let ghost main = main_output@;
    let mut resources = main_output.resources_after.duplicate();
    let mut upkeep_outputs: Vec<(Resource, DeltaOutput)> = Vec::new();
    proof {
        let r0 = run_upkeep(main.resources_after, attrs, jv.instances, 0);
        assert(upkeep_outputs@.map_values(|p: (Resource, DeltaOutput)| (p.0, p.1@))
            =~= Seq::<(Resource, DeltaOutputV)>::empty());
        assert(upkeep_prepend(Seq::empty(), r0) =~~= r0);
    }
    let mut i: usize = 0;
    while i < RESOURCE_COUNT
        invariant
            i <= RESOURCE_COUNT,
            ledger_wf(resources),
            config_wf(config@),
            led0 == orig_resources@,
            jv == job@,
            attrs == config@.attrs,
            inst as int == jv.instances,
            jv.instances <= i64::MAX as int,
            eval_ok(led0, jv.deltas, jv.instances),
            main == eval_output(led0, jv.deltas, jv.instances),
            main == main_output@,
            forall|k: int|
                0 <= k < upkeep_outputs@.len() ==> ledger_wf(
                    #[trigger] upkeep_outputs@[k].1.resources_after,
                ),
            run_upkeep(main.resources_after, attrs, jv.instances, 0) == upkeep_prepend(
                upkeep_outputs@.map_values(|p: (Resource, DeltaOutput)| (p.0, p.1@)),
                run_upkeep(resources@, attrs, jv.instances, i as int),
            ),
        decreases RESOURCE_COUNT - i,
    {
        let ghost pre = upkeep_outputs@.map_values(|p: (Resource, DeltaOutput)| (p.0, p.1@));
        let ghost led_i = resources@;
        let current_resource = resource_at(i);
        let has_attr = match &config.attrs[i] {
            Option::Some(_) => true,
            Option::None => false,
        };
        if has_attr {
            let num = resources.get(current_resource);
            proof {
                crate::resource::lemma_res_of_idx(i as int);
                assert(num as int == led_i[i as int]);
            }
            if num > 0 {
                let m = match num.checked_mul(inst) {
                    Option::Some(m) => m,
                    Option::None => {
                        proof {
                            assert(run_upkeep(led_i, attrs, jv.instances, i as int)
                                == (UpkeepRunV::Failed { err: EngineError::Overflow }));
                            assert(run_upkeep(main.resources_after, attrs, jv.instances, 0)
                                == (UpkeepRunV::Failed { err: EngineError::Overflow }));
                            assert(job_eval(led0, jv, attrs)
                                == (JobRunV::Failed { err: EngineError::Overflow }));
                        }
                        return Err(EngineError::Overflow);
                    },
                };
                let att = match &config.attrs[i] {
                    Option::Some(att) => att,
                    Option::None => {
                        proof {
                            assert(false);
                        }
                        unreached()
                    },
                };
                let delta_output = match apply_deltas(resources, &att.upkeep, m) {
                    Ok(out) => out,
                    Err(e) => {
                        proof {
                            assert(run_upkeep(led_i, attrs, jv.instances, i as int)
                                == (UpkeepRunV::Failed { err: e }));
                            assert(run_upkeep(main.resources_after, attrs, jv.instances, 0)
                                == (UpkeepRunV::Failed { err: e }));
                            assert(job_eval(led0, jv, attrs) == (JobRunV::Failed { err: e }));
                        }
                        return Err(e);
                    },
                };
                resources = delta_output.resources_after.duplicate();
                upkeep_outputs.push((current_resource, delta_output));
                proof {
                    let head = (res_of(i as int), eval_output(led_i, attrs[i as int]->Some_0.upkeep, m as int));
                    assert(upkeep_outputs@.map_values(|p: (Resource, DeltaOutput)| (p.0, p.1@))
                        =~= pre + seq![head]);
                    assert(run_upkeep(led_i, attrs, jv.instances, i as int) == upkeep_prepend(
                        seq![head],
                        run_upkeep(resources@, attrs, jv.instances, i as int + 1),
                    ));
                    assert(upkeep_prepend(
                        pre,
                        upkeep_prepend(
                            seq![head],
                            run_upkeep(resources@, attrs, jv.instances, i as int + 1),
                        ),
                    ) =~~= upkeep_prepend(
                        pre + seq![head],
                        run_upkeep(resources@, attrs, jv.instances, i as int + 1),
                    ));
                }
            } else {
                proof {
                    assert(run_upkeep(led_i, attrs, jv.instances, i as int) == run_upkeep(
                        led_i,
                        attrs,
                        jv.instances,
                        i as int + 1,
                    ));
                }
            }
        } else {
            proof {
                assert(run_upkeep(led_i, attrs, jv.instances, i as int) == run_upkeep(
                    led_i,
                    attrs,
                    jv.instances,
                    i as int + 1,
                ));
            }
        }
        i += 1;
    }
    let out = JobOutput { main_output, upkeep_outputs, resources_after: resources };
    proof {
        let ghost fin = out.resources_after@;
        let ghost pre = out.upkeep_outputs@.map_values(|p: (Resource, DeltaOutput)| (p.0, p.1@));
        assert(run_upkeep(fin, attrs, jv.instances, RESOURCE_COUNT as int)
            == (UpkeepRunV::Done { outputs: Seq::<(Resource, DeltaOutputV)>::empty(), after: fin }));
        assert(pre + Seq::<(Resource, DeltaOutputV)>::empty() =~= pre);
        assert(run_upkeep(main.resources_after, attrs, jv.instances, 0)
            == (UpkeepRunV::Done { outputs: pre, after: fin }));
        assert(job_eval(led0, jv, attrs) =~~= (JobRunV::Done { output: out@ }));
    }
    Ok(out)
}

} // verus!
