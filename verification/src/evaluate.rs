//! The delta evaluator: applies one ordered list of per-resource change
//! tiers to a ledger, selecting the first tier whose hard requirements are
//! satisfiable, resolving the proportional factor X, and reporting which
//! resources changed or blocked progress.

use vstd::prelude::*;
use crate::amount::{Amount, amount_value, scaled_value, scale_fits};
use crate::ledger::{Ledger, ledger_wf};
use crate::resource::{Resource, short_name_spec, res_idx};

verus! {

/// An engine-internal ("programmer") error: never ordinary gameplay feedback.
#[derive(Clone, Copy, Debug, PartialEq, Eq, Structural)]
pub enum EngineError {
    /// A multiplier of zero or less reached the evaluator.
    NonPositiveMultiplier,
    /// A proportional rule with a zero per-unit quantity met a resource with
    /// a positive quantity: the configuration is inconsistent with the ledger.
    ZeroScale,
    /// A quantity left the range its machine integer can carry.
    Overflow,
}

/// The outcome class of one delta-list evaluation.
#[derive(Debug, PartialEq, Eq)]
pub enum DeltaOutputStatus {
    /// All requirements of the tier at `delta_index` were fulfilled.
    Success { delta_index: usize },
    /// All requirements were fulfilled and a proportional factor X was
    /// resolved; `x` is the value that was used.
    SuccessX { delta_index: usize, x: i64 },
    /// No tier's requirements held; the last tier reports the failure.
    Failure { errors: Vec<String>, failing_resources: Vec<Resource> },
}

/// The result of applying one delta list to a ledger.
#[derive(Debug, PartialEq, Eq)]
pub struct DeltaOutput {
    pub status: DeltaOutputStatus,
    pub changed_resources: Vec<Resource>,
    pub resources_after: Ledger,
}

/// Mathematical image of `DeltaOutputStatus`.
#[verifier::ext_equal]
pub enum DeltaOutputStatusV {
    Success { delta_index: int },
    SuccessX { delta_index: int, x: int },
    Failure { errors: Seq<Seq<char>>, failing_resources: Seq<Resource> },
}

/// Mathematical image of `DeltaOutput`.
#[verifier::ext_equal]
pub struct DeltaOutputV {
    pub status: DeltaOutputStatusV,
    pub changed_resources: Seq<Resource>,
    pub resources_after: Seq<int>,
}

impl View for DeltaOutputStatus {
    type V = DeltaOutputStatusV;

    open spec fn view(&self) -> DeltaOutputStatusV {
        match self {
            DeltaOutputStatus::Success { delta_index } => DeltaOutputStatusV::Success {
                delta_index: *delta_index as int,
            },
            DeltaOutputStatus::SuccessX { delta_index, x } => DeltaOutputStatusV::SuccessX {
                delta_index: *delta_index as int,
                x: *x as int,
            },
            DeltaOutputStatus::Failure { errors, failing_resources } => DeltaOutputStatusV::Failure {
                errors: errors@.map_values(|e: String| e@),
                failing_resources: failing_resources@,
            },
        }
    }
}

impl View for DeltaOutput {
    type V = DeltaOutputV;

    open spec fn view(&self) -> DeltaOutputV {
        DeltaOutputV {
            status: self.status@,
            changed_resources: self.changed_resources@,
            resources_after: self.resources_after@,
        }
    }
}

/// One tier, mathematically: an ordered set of (resource, amount) pairs.
pub open spec fn tiers_view(d: Seq<Vec<(Resource, Amount)>>) -> Seq<Seq<(Resource, Amount)>> {
    d.map_values(|v: Vec<(Resource, Amount)>| v@)
}

/// Amounts that gate a tier: they demand `quantity <= current`.
pub open spec fn is_spend_like(a: Amount) -> bool {
    a is Spend || a is Catalyst
}

/// Amounts proportional to the resolved factor X.
pub open spec fn is_x_like(a: Amount) -> bool {
    a is SpendX || a is CatalystX
}

/// Every scaled quantity of every tier fits an `i64`.
pub open spec fn all_scale_fits(tiers: Seq<Seq<(Resource, Amount)>>, m: int) -> bool {
    forall|k: int, j: int|
        0 <= k < tiers.len() && 0 <= j < tiers[k].len() ==> scale_fits(
            #[trigger] tiers[k][j].1,
            m,
        )
}

/// A hard requirement of the entry is not met by the ledger.
pub open spec fn entry_shortfall(led: Seq<int>, e: (Resource, Amount), m: int) -> bool {
    is_spend_like(e.1) && scaled_value(e.1, m) > led[res_idx(e.0)]
}

/// Every hard requirement of the tier is met: the tier is selected.
pub open spec fn tier_ok(led: Seq<int>, tier: Seq<(Resource, Amount)>, m: int) -> bool {
    forall|j: int| 0 <= j < tier.len() ==> !entry_shortfall(led, #[trigger] tier[j], m)
}

/// A proportional entry whose scaled per-unit quantity is zero while the
/// resource's quantity is positive: an inconsistent configuration.
pub open spec fn entry_zero_scale(led: Seq<int>, e: (Resource, Amount), m: int) -> bool {
    is_x_like(e.1) && scaled_value(e.1, m) == 0 && led[res_idx(e.0)] > 0
}

pub open spec fn tier_zero_scale(led: Seq<int>, tier: Seq<(Resource, Amount)>, m: int) -> bool {
    exists|j: int| 0 <= j < tier.len() && entry_zero_scale(led, #[trigger] tier[j], m)
}

/// The tier the evaluator settles on, scanning from `k`: the first tier all
/// of whose hard requirements hold, or the last tier when none qualifies.
pub open spec fn chosen_tier_from(
    led: Seq<int>,
    tiers: Seq<Seq<(Resource, Amount)>>,
    m: int,
    k: int,
) -> int
    recommends
        0 <= k < tiers.len(),
    decreases tiers.len() - k,
{
    if k >= tiers.len() - 1 {
        tiers.len() - 1
    } else if tier_ok(led, tiers[k], m) {
        k
    } else {
        chosen_tier_from(led, tiers, m, k + 1)
    }
}

pub open spec fn chosen_tier(led: Seq<int>, tiers: Seq<Seq<(Resource, Amount)>>, m: int) -> int {
    chosen_tier_from(led, tiers, m, 0)
}

proof fn lemma_chosen_tier_from_bounds(
    led: Seq<int>,
    tiers: Seq<Seq<(Resource, Amount)>>,
    m: int,
    k: int,
)
    requires
        0 <= k < tiers.len(),
    ensures
        k <= chosen_tier_from(led, tiers, m, k) < tiers.len(),
        forall|k2: int|
            k <= k2 < chosen_tier_from(led, tiers, m, k) ==> !tier_ok(led, #[trigger] tiers[k2], m),
        chosen_tier_from(led, tiers, m, k) < tiers.len() - 1 ==> tier_ok(
            led,
            tiers[chosen_tier_from(led, tiers, m, k)],
            m,
        ),
    decreases tiers.len() - k,
{
    if k >= tiers.len() - 1 || tier_ok(led, tiers[k], m) {
    } else {
        lemma_chosen_tier_from_bounds(led, tiers, m, k + 1);
    }
}

proof fn lemma_chosen_tier_skip(
    led: Seq<int>,
    tiers: Seq<Seq<(Resource, Amount)>>,
    m: int,
    t: int,
)
    requires
        0 <= t < tiers.len(),
        forall|k: int| 0 <= k < t ==> !tier_ok(led, #[trigger] tiers[k], m),
    ensures
        chosen_tier(led, tiers, m) == chosen_tier_from(led, tiers, m, t),
    decreases t,
{
    if t > 0 {
        lemma_chosen_tier_skip(led, tiers, m, t - 1);
        assert(chosen_tier_from(led, tiers, m, t - 1) == chosen_tier_from(led, tiers, m, t));
    }
}

/// A zero-scale inconsistency is met while scanning tiers up to the chosen
/// one: the evaluation aborts with an engine error.
pub open spec fn zero_scale_abort(led: Seq<int>, tiers: Seq<Seq<(Resource, Amount)>>, m: int) -> bool {
    exists|k: int|
        0 <= k <= chosen_tier(led, tiers, m) && tier_zero_scale(led, #[trigger] tiers[k], m)
}

/// Flooring division: the largest integer at most the exact quotient. The
/// built-in `/` rounds so the remainder is never negative, which agrees with
/// the floor for a positive divisor; a negative divisor floors once both
/// operands are negated.
pub open spec fn div_floor(x: int, d: int) -> int
    recommends
        d != 0,
{
    if d > 0 {
        x / d
    } else {
        (-x) / (-d)
    }
}

/// The candidate X an entry contributes: `floor(current / per-unit)`, for
/// proportional entries with a nonzero scaled per-unit quantity, whenever
/// the quotient fits its machine integer.
pub open spec fn entry_x_candidate(led: Seq<int>, e: (Resource, Amount), m: int) -> Option<int> {
    if is_x_like(e.1) && scaled_value(e.1, m) != 0 {
        let q = div_floor(led[res_idx(e.0)], scaled_value(e.1, m));
        if i64::MIN <= q <= i64::MAX {
            Some(q)
        } else {
            None
        }
    } else {
        None
    }
}

/// Fold two optional candidates, keeping the minimum.
pub open spec fn x_combine(a: Option<int>, b: Option<int>) -> Option<int> {
    match (a, b) {
        (Option::None, o) => o,
        (Option::Some(v), Option::None) => Option::Some(v),
        (Option::Some(v), Option::Some(w)) => Option::Some(
            if w < v {
                w
            } else {
                v
            },
        ),
    }
}

/// The resolved X over the first `n` entries of a tier: the minimum
/// candidate, or `None` when no entry contributed one.
pub open spec fn tier_x_prefix(led: Seq<int>, tier: Seq<(Resource, Amount)>, m: int, n: int) -> Option<
    int,
>
    recommends
        0 <= n <= tier.len(),
    decreases n,
{
    if n <= 0 {
        Option::None
    } else {
        x_combine(tier_x_prefix(led, tier, m, n - 1), entry_x_candidate(led, tier[n - 1], m))
    }
}

/// The resolved X of a whole tier.
pub open spec fn tier_x(led: Seq<int>, tier: Seq<(Resource, Amount)>, m: int) -> Option<int> {
    tier_x_prefix(led, tier, m, tier.len() as int)
}

/// The value the `..X` variants multiply by: the resolved X, default 0.
pub open spec fn x_value(xo: Option<int>) -> int {
    match xo {
        Option::Some(v) => v,
        Option::None => 0,
    }
}

/// The ledger change one entry makes, given the multiplier and resolved X.
pub open spec fn entry_effect(v: int, a: Amount, m: int, x: int) -> int {
    match a {
        Amount::Gain(_) => v + scaled_value(a, m),
        Amount::Spend(_) => v - scaled_value(a, m),
        Amount::Catalyst(_) => v,
        Amount::GainX(_) => v + scaled_value(a, m) * x,
        Amount::SpendX(_) => v - scaled_value(a, m) * x,
        Amount::CatalystX(_) => v,
        Amount::SetTo(_) => v - scaled_value(a, m),
    }
}

/// The ledger after the first `n` entries of the tier are applied in order.
pub open spec fn apply_prefix(
    led: Seq<int>,
    tier: Seq<(Resource, Amount)>,
    m: int,
    x: int,
    n: int,
) -> Seq<int>
    recommends
        0 <= n <= tier.len(),
    decreases n,
{
    if n <= 0 {
        led
    } else {
        let prev = apply_prefix(led, tier, m, x, n - 1);
        let i = res_idx(tier[n - 1].0);
        prev.update(i, entry_effect(prev[i], tier[n - 1].1, m, x))
    }
}

/// Every machine step of applying the first `n` entries stays in range.
pub open spec fn apply_fits_prefix(
    led: Seq<int>,
    tier: Seq<(Resource, Amount)>,
    m: int,
    x: int,
    n: int,
) -> bool
    recommends
        0 <= n <= tier.len(),
    decreases n,
{
    if n <= 0 {
        true
    } else {
        let prev = apply_prefix(led, tier, m, x, n - 1);
        let a = tier[n - 1].1;
        let v = prev[res_idx(tier[n - 1].0)];
        apply_fits_prefix(led, tier, m, x, n - 1) && (match a {
            Amount::GainX(_) | Amount::SpendX(_) => i64::MIN <= scaled_value(a, m) * x
                <= i64::MAX,
            _ => true,
        }) && i64::MIN <= entry_effect(v, a, m, x) <= i64::MAX
    }
}

/// Once a machine step of the application leaves the range, every longer
/// prefix is out of range too.
proof fn lemma_apply_fits_monotone(
    led: Seq<int>,
    tier: Seq<(Resource, Amount)>,
    m: int,
    x: int,
    n1: int,
    n2: int,
)
    requires
        0 <= n1 <= n2,
        apply_fits_prefix(led, tier, m, x, n2),
    ensures
        apply_fits_prefix(led, tier, m, x, n1),
    decreases n2,
{
    if n1 < n2 {
        lemma_apply_fits_monotone(led, tier, m, x, n1, n2 - 1);
    }
}

/// A machine step of the application that leaves the range makes the whole
/// evaluation report an overflow.
proof fn lemma_step_overflow(
    led: Seq<int>,
    tiers: Seq<Seq<(Resource, Amount)>>,
    m: int,
    xv: int,
    j: int,
)
    requires
        tiers.len() > 0,
        m > 0,
        all_scale_fits(tiers, m),
        !zero_scale_abort(led, tiers, m),
        0 <= j < tiers[chosen_tier(led, tiers, m)].len(),
        xv == x_value(tier_x(led, tiers[chosen_tier(led, tiers, m)], m)),
        !apply_fits_prefix(led, tiers[chosen_tier(led, tiers, m)], m, xv, j + 1),
    ensures
        !eval_ok(led, tiers, m),
        eval_err(led, tiers, m) == EngineError::Overflow,
{
    let c = chosen_tier(led, tiers, m);
    if apply_fits_prefix(led, tiers[c], m, xv, tiers[c].len() as int) {
        lemma_apply_fits_monotone(led, tiers[c], m, xv, j + 1, tiers[c].len() as int);
    }
}

/// An entry is tracked as a change: it is not a pure requirement and its
/// nonzero scaled quantity participated.
pub open spec fn entry_changes(a: Amount, m: int) -> bool {
    match a {
        Amount::Gain(_) | Amount::Spend(_) | Amount::GainX(_) | Amount::SpendX(_)
        | Amount::SetTo(_) => scaled_value(a, m) != 0,
        Amount::Catalyst(_) | Amount::CatalystX(_) => false,
    }
}

/// The resources of the first `n` entries whose amounts count as changes.
pub open spec fn changed_prefix(tier: Seq<(Resource, Amount)>, m: int, n: int) -> Seq<Resource>
    recommends
        0 <= n <= tier.len(),
    decreases n,
{
    if n <= 0 {
        Seq::empty()
    } else {
        let rest = changed_prefix(tier, m, n - 1);
        if entry_changes(tier[n - 1].1, m) {
            rest.push(tier[n - 1].0)
        } else {
            rest
        }
    }
}

/// The user-facing message for an unmet hard requirement.
pub open spec fn not_enough_spec(r: Resource) -> Seq<char> {
    "Not enough "@ + short_name_spec(r)
}

/// The failure messages of the first `n` entries of a tier: one per unmet
/// hard requirement, in entry order.
pub open spec fn errors_prefix(
    led: Seq<int>,
    tier: Seq<(Resource, Amount)>,
    m: int,
    n: int,
) -> Seq<Seq<char>>
    recommends
        0 <= n <= tier.len(),
    decreases n,
{
    if n <= 0 {
        Seq::empty()
    } else {
        let rest = errors_prefix(led, tier, m, n - 1);
        if entry_shortfall(led, tier[n - 1], m) {
            rest.push(not_enough_spec(tier[n - 1].0))
        } else {
            rest
        }
    }
}

/// An entry marks its resource as blocking: an unmet hard requirement, or a
/// proportional entry whose scaled per-unit quantity exceeds the current one.
pub open spec fn entry_failing_mark(led: Seq<int>, e: (Resource, Amount), m: int) -> bool {
    entry_shortfall(led, e, m) || (is_x_like(e.1) && led[res_idx(e.0)] < scaled_value(e.1, m))
}

/// The blocking resources of the first `n` entries of a tier, in entry order.
pub open spec fn failing_prefix(
    led: Seq<int>,
    tier: Seq<(Resource, Amount)>,
    m: int,
    n: int,
) -> Seq<Resource>
    recommends
        0 <= n <= tier.len(),
    decreases n,
{
    if n <= 0 {
        Seq::empty()
    } else {
        let rest = failing_prefix(led, tier, m, n - 1);
        if entry_failing_mark(led, tier[n - 1], m) {
            rest.push(tier[n - 1].0)
        } else {
            rest
        }
    }
}

/// The evaluation completes without an engine error.
pub open spec fn eval_ok(led: Seq<int>, tiers: Seq<Seq<(Resource, Amount)>>, m: int) -> bool {
    m > 0 && all_scale_fits(tiers, m) && (tiers.len() == 0 || {
        let c = chosen_tier(led, tiers, m);
        let x = x_value(tier_x(led, tiers[c], m));
        !zero_scale_abort(led, tiers, m) && apply_fits_prefix(
            led,
            tiers[c],
            m,
            x,
            tiers[c].len() as int,
        )
    })
}

/// Which engine error the evaluation reports, when it reports one.
pub open spec fn eval_err(led: Seq<int>, tiers: Seq<Seq<(Resource, Amount)>>, m: int) -> EngineError {
    if m <= 0 {
        EngineError::NonPositiveMultiplier
    } else if !all_scale_fits(tiers, m) {
        EngineError::Overflow
    } else if zero_scale_abort(led, tiers, m) {
        EngineError::ZeroScale
    } else {
        EngineError::Overflow
    }
}

/// The status of a successful evaluation of the chosen tier.
pub open spec fn status_of(led: Seq<int>, tiers: Seq<Seq<(Resource, Amount)>>, m: int) -> DeltaOutputStatusV {
    let c = chosen_tier(led, tiers, m);
    if tier_ok(led, tiers[c], m) {
        match tier_x(led, tiers[c], m) {
            Option::Some(x) => DeltaOutputStatusV::SuccessX { delta_index: c, x },
            Option::None => DeltaOutputStatusV::Success { delta_index: c },
        }
    } else {
        DeltaOutputStatusV::Failure {
            errors: errors_prefix(led, tiers[c], m, tiers[c].len() as int),
            failing_resources: failing_prefix(led, tiers[c], m, tiers[c].len() as int),
        }
    }
}

/// The full result of an evaluation that reports no engine error.
pub open spec fn eval_output(led: Seq<int>, tiers: Seq<Seq<(Resource, Amount)>>, m: int) -> DeltaOutputV {
    if tiers.len() == 0 {
        DeltaOutputV {
            status: DeltaOutputStatusV::Success { delta_index: 0 },
            changed_resources: Seq::empty(),
            resources_after: led,
        }
    } else {
        let c = chosen_tier(led, tiers, m);
        let x = x_value(tier_x(led, tiers[c], m));
        DeltaOutputV {
            status: status_of(led, tiers, m),
            changed_resources: changed_prefix(tiers[c], m, tiers[c].len() as int),
            resources_after: apply_prefix(led, tiers[c], m, x, tiers[c].len() as int),
        }
    }
}

/// Flooring division on machine integers: `Some` of the largest integer at
/// most the exact quotient, or `None` for the one quotient past the machine
/// range.
fn checked_div_floor(x: i64, d: i64) -> (r: Option<i64>)
    requires
        d != 0,
    ensures
        ({
            let q = div_floor(x as int, d as int);
            if i64::MIN <= q <= i64::MAX {
                r == Option::Some(q as i64)
            } else {
                r is None
            }
        }),
{
    if d > 0 {
        // the built-in division already floors for a positive divisor
        let r = x.checked_div_euclid(d);
        proof {
            assert(div_floor(x as int, d as int) == x as int / d as int);
        }
        r
    } else if d == i64::MIN {
        // the divisor's magnitude exceeds every quantity's but the smallest
        if x == i64::MIN {
            proof {
                vstd::arithmetic::div_mod::lemma_fundamental_div_mod_converse(
                    -(i64::MIN as int),
                    -(i64::MIN as int),
                    1,
                    0,
                );
            }
            Some(1)
        } else if x > 0 {
            proof {
                vstd::arithmetic::div_mod::lemma_fundamental_div_mod_converse(
                    -(x as int),
                    -(i64::MIN as int),
                    -1,
                    -(i64::MIN as int) - x as int,
                );
            }
            Some(-1)
        } else {
            proof {
                vstd::arithmetic::div_mod::lemma_fundamental_div_mod_converse(
                    -(x as int),
                    -(i64::MIN as int),
                    0,
                    -(x as int),
                );
            }
            Some(0)
        }
    } else if x == i64::MIN {
        // divide the magnitudes as unsigned quantities
        let dd: u64 = (-d) as u64;
        let q: u64 = 9223372036854775808u64 / dd;
        proof {
            assert(dd as int == -(d as int));
            assert(q as int == -(x as int) / -(d as int));
            assert(div_floor(x as int, d as int) == q as int);
        }
        if q > i64::MAX as u64 {
            None
        } else {
            Some(q as i64)
        }
    } else {
        let r = (-x).checked_div_euclid(-d);
        proof {
            assert(div_floor(x as int, d as int) == -(x as int) / -(d as int));
        }
        r
    }
}

/// The message for an unmet hard requirement on `r`.
fn not_enough_message(r: Resource) -> (s: String)
    ensures
        s@ == not_enough_spec(r),
{
    let prefix = String::from_str("Not enough ");
    prefix.concat(r.short_name())
}

/// Apply a delta list to a ledger: scale every tier by `multiplier`, select
/// the first tier whose hard requirements hold (else the last tier, whose
/// effects are still written, reporting failure), resolve the proportional
/// factor X on that tier, and apply its amounts.
///
/// Returns an engine error exactly when the multiplier is not positive, a
/// scaled quantity or an applied quantity leaves the machine range, or a
/// proportional rule is configured with a zero quantity against a positive
/// resource.
pub fn apply_deltas(resources: Ledger, deltas: &Vec<Vec<(Resource, Amount)>>, multiplier: i64) -> (r:
    Result<DeltaOutput, EngineError>)
    requires
        ledger_wf(resources),
    ensures
        r is Ok <==> eval_ok(resources@, tiers_view(deltas@), multiplier as int),
        r is Ok ==> ledger_wf(r->Ok_0.resources_after) && r->Ok_0@ == eval_output(
            resources@,
            tiers_view(deltas@),
            multiplier as int,
        ),
        r is Err ==> r->Err_0 == eval_err(resources@, tiers_view(deltas@), multiplier as int),
{
    let ghost led = resources@;
    let ghost tiers = tiers_view(deltas@);
    let ghost mi = multiplier as int;
    if multiplier <= 0 {
        return Err(EngineError::NonPositiveMultiplier);
    }
    // Scale every tier's amounts by the multiplier; any product that leaves
    // the machine range aborts.
    let mut k: usize = 0;
    while k < deltas.len()
        invariant
            ledger_wf(resources),
            led == resources@,
            tiers == tiers_view(deltas@),
            mi == multiplier as int,
            multiplier > 0,
            k <= deltas.len(),
            forall|k2: int, j2: int|
                0 <= k2 < k as int && 0 <= j2 < tiers[k2].len() ==> scale_fits(
                    #[trigger] tiers[k2][j2].1,
                    mi,
                ),
        decreases deltas.len() - k,
    {
        let tier = &deltas[k];
        let mut j: usize = 0;
        while j < tier.len()
            invariant
                ledger_wf(resources),
                tiers == tiers_view(deltas@),
                mi == multiplier as int,
                multiplier > 0,
                k < deltas.len(),
                tier == &deltas[k as int],
                j <= tier.len(),
                forall|j2: int| 0 <= j2 < j as int ==> scale_fits(#[trigger] tiers[k as int][j2].1, mi),
            decreases tier.len() - j,
        {
            let (_, a) = tier[j];
            let q = amount_quantity(a);
            if q.checked_mul(multiplier).is_none() {
                proof {
                    assert(tiers[k as int][j as int].1 == a);
                    assert(!scale_fits(a, mi));
                    assert(!all_scale_fits(tiers, mi)) by {
                        assert((k as int) < tiers.len() && (j as int) < tiers[k as int].len()
                            && !scale_fits(tiers[k as int][j as int].1, mi));
                    }
                }
                return Err(EngineError::Overflow);
            }
            proof {
                assert(tiers[k as int][j as int].1 == a);
            }
            j += 1;
        }
        k += 1;
    }
    assert(all_scale_fits(tiers, mi));

    if deltas.len() == 0 {
        let out = DeltaOutput {
            status: DeltaOutputStatus::Success { delta_index: 0 },
            changed_resources: Vec::new(),
            resources_after: resources,
        };
        proof {
            assert(out@.changed_resources =~= eval_output(led, tiers, mi).changed_resources);
        }
        return Ok(out);
    }

    // Scan tiers in order: abort on a zero-scale inconsistency, stop at the
    // first tier whose hard requirements all hold, else settle on the last.
    let mut t: usize = 0;
    let mut tier_is_ok: bool;
    loop
        invariant
            ledger_wf(resources),
            led == resources@,
            tiers == tiers_view(deltas@),
            mi == multiplier as int,
            multiplier > 0,
            all_scale_fits(tiers, mi),
            deltas.len() > 0,
            t < deltas.len(),
            forall|k2: int| 0 <= k2 < t as int ==> !tier_ok(led, #[trigger] tiers[k2], mi),
            forall|k2: int| 0 <= k2 < t as int ==> !tier_zero_scale(led, #[trigger] tiers[k2], mi),
        ensures
            t == chosen_tier(led, tiers, mi),
            tier_is_ok == tier_ok(led, tiers[t as int], mi),
            !zero_scale_abort(led, tiers, mi),
        decreases deltas.len() - t,
    {
        let tier = &deltas[t];
        let mut j: usize = 0;
        let mut found_shortfall: bool = false;
        while j < tier.len()
            invariant
                ledger_wf(resources),
                led == resources@,
                tiers == tiers_view(deltas@),
                mi == multiplier as int,
                multiplier > 0,
                all_scale_fits(tiers, mi),
                t < deltas.len(),
                tier == &deltas[t as int],
                j <= tier.len(),
                forall|k2: int| 0 <= k2 < t as int ==> !tier_ok(led, #[trigger] tiers[k2], mi),
                forall|k2: int| 0 <= k2 < t as int ==> !tier_zero_scale(led, #[trigger] tiers[k2], mi),
                forall|j2: int|
                    0 <= j2 < j as int ==> !entry_zero_scale(led, #[trigger] tiers[t as int][j2], mi),
                found_shortfall <==> exists|j2: int|
                    0 <= j2 < j as int && entry_shortfall(led, #[trigger] tiers[t as int][j2], mi),
            decreases tier.len() - j,
        {
            let (res, a) = tier[j];
            proof {
                assert(tiers[t as int][j as int] == (res, a));
                assert(scale_fits(a, mi));
            }
            let q = amount_quantity(a);
            let scaled = q * multiplier;
            let current = resources.get(res);
            match a {
                Amount::Spend(_) | Amount::Catalyst(_) => {
                    if scaled > current {
                        found_shortfall = true;
                        proof {
                            assert(entry_shortfall(led, tiers[t as int][j as int], mi));
                        }
                    } else {
                        proof {
                            assert(!entry_shortfall(led, tiers[t as int][j as int], mi));
                        }
                    }
                },
                Amount::SpendX(_) | Amount::CatalystX(_) => {
                    if scaled == 0 && current > 0 {
                        proof {
                            assert(entry_zero_scale(led, tiers[t as int][j as int], mi));
                            assert(tier_zero_scale(led, tiers[t as int], mi));
                            lemma_chosen_tier_skip(led, tiers, mi, t as int);
                            lemma_chosen_tier_from_bounds(led, tiers, mi, t as int);
                            assert(t as int <= chosen_tier(led, tiers, mi));
                            assert(zero_scale_abort(led, tiers, mi));
                        }
                        return Err(EngineError::ZeroScale);
                    }
                },
                _ => {},
            }
            proof {
                assert(!entry_zero_scale(led, tiers[t as int][j as int], mi));
            }
            j += 1;
        }
        proof {
            assert(found_shortfall <==> !tier_ok(led, tiers[t as int], mi));
            assert(!tier_zero_scale(led, tiers[t as int], mi));
        }
        if !found_shortfall || t == deltas.len() - 1 {
            tier_is_ok = !found_shortfall;
            proof {
                lemma_chosen_tier_skip(led, tiers, mi, t as int);
                assert(chosen_tier_from(led, tiers, mi, t as int) == t as int);
                assert forall|k2: int|
                    0 <= k2 <= chosen_tier(led, tiers, mi) implies !tier_zero_scale(
                    led,
                    tiers[k2],
                    mi,
                ) by {}
            }
            break;
        }
        t += 1;
    }
    let ghost c = t as int;
    let tier = &deltas[t];
    proof {
        assert(tiers[c] == tier@);
    }

    // Resolve X on the settled tier: the smallest floored quotient the
    // proportional entries allow.
    let mut x: Option<i64> = None;
    let mut j: usize = 0;
    while j < tier.len()
        invariant
            ledger_wf(resources),
            led == resources@,
            tiers == tiers_view(deltas@),
            mi == multiplier as int,
            multiplier > 0,
            all_scale_fits(tiers, mi),
            c == t as int,
            t < deltas.len(),
            tier == &deltas[c],
            j <= tier.len(),
            !tier_zero_scale(led, tiers[c], mi),
            match x {
                Option::Some(v) => tier_x_prefix(led, tiers[c], mi, j as int) == Option::Some(
                    v as int,
                ),
                Option::None => tier_x_prefix(led, tiers[c], mi, j as int) is None,
            },
        decreases tier.len() - j,
    {
        let (res, a) = tier[j];
        proof {
            assert(tiers[c][j as int] == (res, a));
            assert(scale_fits(a, mi));
        }
        let is_x = match a {
            Amount::SpendX(_) | Amount::CatalystX(_) => true,
            _ => false,
        };
        if is_x {
            let q = amount_quantity(a);
            let scaled = q * multiplier;
            let current = resources.get(res);
            if scaled != 0 {
                match checked_div_floor(current, scaled) {
                    Some(candidate) => {
                        proof {
                            assert(entry_x_candidate(led, tiers[c][j as int], mi) == Option::Some(
                                candidate as int,
                            ));
                        }
                        match x {
                            Some(cur) => {
                                if candidate < cur {
                                    x = Some(candidate);
                                }
                            },
                            None => {
                                x = Some(candidate);
                            },
                        }
                    },
                    None => {
                        proof {
                            assert(entry_x_candidate(led, tiers[c][j as int], mi) is None);
                        }
                    },
                }
            } else {
                proof {
                    assert(entry_x_candidate(led, tiers[c][j as int], mi) is None);
                }
            }
        } else {
            proof {
                assert(entry_x_candidate(led, tiers[c][j as int], mi) is None);
            }
        }
        j += 1;
    }
    let ghost xo = tier_x(led, tiers[c], mi);
    let x_val: i64 = match x {
        Some(v) => v,
        None => 0,
    };
    proof {
        assert(x_value(xo) == x_val as int);
    }

    // On a settled tier that still falls short, collect the user-facing
    // messages and blocking marks against the untouched ledger.
    let mut errors: Vec<String> = Vec::new();
    let mut failing: Vec<Resource> = Vec::new();
    if !tier_is_ok {
        let mut j2: usize = 0;
        while j2 < tier.len()
            invariant
                ledger_wf(resources),
                led == resources@,
                tiers == tiers_view(deltas@),
                mi == multiplier as int,
                multiplier > 0,
                all_scale_fits(tiers, mi),
                c == t as int,
                t < deltas.len(),
                tier == &deltas[c],
                j2 <= tier.len(),
                errors@.map_values(|e: String| e@) =~= errors_prefix(led, tiers[c], mi, j2 as int),
                failing@ =~= failing_prefix(led, tiers[c], mi, j2 as int),
            decreases tier.len() - j2,
        {
            let (res, a) = tier[j2];
            proof {
                assert(tiers[c][j2 as int] == (res, a));
                assert(scale_fits(a, mi));
            }
            let q = amount_quantity(a);
            let scaled = q * multiplier;
            let current = resources.get(res);
            match a {
                Amount::Spend(_) | Amount::Catalyst(_) => {
                    if scaled > current {
                        errors.push(not_enough_message(res));
                        failing.push(res);
                    }
                },
                Amount::SpendX(_) | Amount::CatalystX(_) => {
                    if current < scaled {
                        failing.push(res);
                    }
                },
                _ => {},
            }
            proof {
                assert(errors@.map_values(|e: String| e@) =~= errors_prefix(
                    led,
                    tiers[c],
                    mi,
                    j2 as int + 1,
                ));
                assert(failing@ =~= failing_prefix(led, tiers[c], mi, j2 as int + 1));
            }
            j2 += 1;
        }
    }

    // Write the settled tier's effects into the ledger, tracking changes.
    let mut out_ledger = resources;
    let mut changed: Vec<Resource> = Vec::new();
    let mut j3: usize = 0;
    while j3 < tier.len()
        invariant
            ledger_wf(out_ledger),
            led == resources@,
            tiers == tiers_view(deltas@),
            mi == multiplier as int,
            multiplier > 0,
            all_scale_fits(tiers, mi),
            c == t as int,
            c == chosen_tier(led, tiers, mi),
            !zero_scale_abort(led, tiers, mi),
            t < deltas.len(),
            tier == &deltas[c],
            j3 <= tier.len(),
            xo == tier_x(led, tiers[c], mi),
            x_value(xo) == x_val as int,
            apply_fits_prefix(led, tiers[c], mi, x_val as int, j3 as int),
            out_ledger@ =~= apply_prefix(led, tiers[c], mi, x_val as int, j3 as int),
            changed@ =~= changed_prefix(tiers[c], mi, j3 as int),
        decreases tier.len() - j3,
    {
        let (res, a) = tier[j3];
        proof {
            assert(tiers[c][j3 as int] == (res, a));
            assert(scale_fits(a, mi));
            crate::resource::lemma_res_idx_of(res);
        }
        let q = amount_quantity(a);
        let scaled = q * multiplier;
        let current = out_ledger.get(res);
        let ghost prev = out_ledger@;
        match a {
            Amount::Gain(_) => {
                match current.checked_add(scaled) {
                    Some(v) => {
                        out_ledger.set(res, v);
                        if scaled != 0 {
                            changed.push(res);
                        }
                    },
                    None => {
                        proof {
                            assert(!apply_fits_prefix(led, tiers[c], mi, x_val as int, j3 as int + 1));
                            lemma_step_overflow(led, tiers, mi, x_val as int, j3 as int);
                        }
                        return Err(EngineError::Overflow);
                    },
                }
            },
            Amount::Spend(_) => {
                match current.checked_sub(scaled) {
                    Some(v) => {
                        out_ledger.set(res, v);
                        if scaled != 0 {
                            changed.push(res);
                        }
                    },
                    None => {
                        proof {
                            assert(!apply_fits_prefix(led, tiers[c], mi, x_val as int, j3 as int + 1));
                            lemma_step_overflow(led, tiers, mi, x_val as int, j3 as int);
                        }
                        return Err(EngineError::Overflow);
                    },
                }
            },
            Amount::GainX(_) => {
                match scaled.checked_mul(x_val) {
                    Some(p) => {
                        match current.checked_add(p) {
                            Some(v) => {
                                out_ledger.set(res, v);
                                if scaled != 0 {
                                    changed.push(res);
                                }
                            },
                            None => {
                                proof {
                                    assert(!apply_fits_prefix(
                                        led,
                                        tiers[c],
                                        mi,
                                        x_val as int,
                                        j3 as int + 1,
                                    ));
                                    lemma_step_overflow(led, tiers, mi, x_val as int, j3 as int);
                                }
                                return Err(EngineError::Overflow);
                            },
                        }
                    },
                    None => {
                        proof {
                            assert(!apply_fits_prefix(led, tiers[c], mi, x_val as int, j3 as int + 1));
                            lemma_step_overflow(led, tiers, mi, x_val as int, j3 as int);
                        }
                        return Err(EngineError::Overflow);
                    },
                }
            },
            Amount::SpendX(_) => {
                match scaled.checked_mul(x_val) {
                    Some(p) => {
                        match current.checked_sub(p) {
                            Some(v) => {
                                out_ledger.set(res, v);
                                if scaled != 0 {
                                    changed.push(res);
                                }
                            },
                            None => {
                                proof {
                                    assert(!apply_fits_prefix(
                                        led,
                                        tiers[c],
                                        mi,
                                        x_val as int,
                                        j3 as int + 1,
                                    ));
                                    lemma_step_overflow(led, tiers, mi, x_val as int, j3 as int);
                                }
                                return Err(EngineError::Overflow);
                            },
                        }
                    },
                    None => {
                        proof {
                            assert(!apply_fits_prefix(led, tiers[c], mi, x_val as int, j3 as int + 1));
                            lemma_step_overflow(led, tiers, mi, x_val as int, j3 as int);
                        }
                        return Err(EngineError::Overflow);
                    },
                }
            },
            Amount::SetTo(_) => {
                match current.checked_sub(scaled) {
                    Some(v) => {
                        out_ledger.set(res, v);
                        if scaled != 0 {
                            changed.push(res);
                        }
                    },
                    None => {
                        proof {
                            assert(!apply_fits_prefix(led, tiers[c], mi, x_val as int, j3 as int + 1));
                            lemma_step_overflow(led, tiers, mi, x_val as int, j3 as int);
                        }
                        return Err(EngineError::Overflow);
                    },
                }
            },
            Amount::Catalyst(_) | Amount::CatalystX(_) => {},
        }
        proof {
            assert(out_ledger@ =~= apply_prefix(led, tiers[c], mi, x_val as int, j3 as int + 1));
            assert(changed@ =~= changed_prefix(tiers[c], mi, j3 as int + 1));
        }
        j3 += 1;
    }

    let status = if tier_is_ok {
        match x {
            Some(v) => DeltaOutputStatus::SuccessX { delta_index: t, x: v },
            None => DeltaOutputStatus::Success { delta_index: t },
        }
    } else {
        DeltaOutputStatus::Failure { errors, failing_resources: failing }
    };
    let out = DeltaOutput { status, changed_resources: changed, resources_after: out_ledger };
    proof {
        assert(eval_ok(led, tiers, mi));
        assert(out@.status == status_of(led, tiers, mi));
        assert(out@ == eval_output(led, tiers, mi));
    }
    Ok(out)
}

/// The embedded quantity of an amount, as the machine carries it.
fn amount_quantity(a: Amount) -> (q: i64)
    ensures
        q as int == amount_value(a),
{
    match a {
        Amount::Gain(v) => v,
        Amount::Spend(v) => v,
        Amount::Catalyst(v) => v,
        Amount::GainX(v) => v,
        Amount::SpendX(v) => v,
        Amount::CatalystX(v) => v,
        Amount::SetTo(v) => v,
    }
}


/// The evaluation succeeded: its status is not a failure.
pub open spec fn status_is_ok(s: DeltaOutputStatusV) -> bool {
    !(s is Failure)
}

/// The tier index a status reports; a failure reports 0.
pub open spec fn status_delta_index(s: DeltaOutputStatusV) -> int {
    match s {
        DeltaOutputStatusV::Success { delta_index } => delta_index,
        DeltaOutputStatusV::SuccessX { delta_index, .. } => delta_index,
        DeltaOutputStatusV::Failure { .. } => 0,
    }
}

/// The blocking resources a status reports; successes report none.
pub open spec fn status_failing(s: DeltaOutputStatusV) -> Seq<Resource> {
    match s {
        DeltaOutputStatusV::Failure { failing_resources, .. } => failing_resources,
        _ => Seq::empty(),
    }
}

/// Two evaluations may share a display row: same outcome class, and for
/// successes the same tier index.
pub open spec fn delta_outputs_mergeable(a: DeltaOutputV, b: DeltaOutputV) -> bool {
    match (a.status, b.status) {
        (
            DeltaOutputStatusV::Success { delta_index: i },
            DeltaOutputStatusV::Success { delta_index: j },
        ) => i == j,
        (
            DeltaOutputStatusV::SuccessX { delta_index: i, .. },
            DeltaOutputStatusV::SuccessX { delta_index: j, .. },
        ) => i == j,
        (DeltaOutputStatusV::Failure { .. }, DeltaOutputStatusV::Failure { .. }) => true,
        (_, _) => false,
    }
}

impl DeltaOutputStatus {
    /// Whether all requirements were fulfilled.
    pub fn is_ok(&self) -> (r: bool)
        ensures
            r == status_is_ok(self@),
    {
        match self {
            DeltaOutputStatus::Success { .. } => true,
            DeltaOutputStatus::SuccessX { .. } => true,
            DeltaOutputStatus::Failure { .. } => false,
        }
    }

    /// Which tier index was settled on.
    pub fn delta_index(&self) -> (r: usize)
        ensures
            r as int == status_delta_index(self@),
    {
        match self {
            DeltaOutputStatus::Success { delta_index } => *delta_index,
            DeltaOutputStatus::SuccessX { delta_index, .. } => *delta_index,
            DeltaOutputStatus::Failure { .. } => 0,
        }
    }

    /// The resources that blocked progress, if any.
    pub fn failing_resources(&self) -> (r: Vec<Resource>)
        ensures
            r@ == status_failing(self@),
    {
        match self {
            DeltaOutputStatus::Success { .. } => Vec::new(),
            DeltaOutputStatus::SuccessX { .. } => Vec::new(),
            DeltaOutputStatus::Failure { failing_resources, .. } => crate::resource::copy_resources(
                failing_resources,
            ),
        }
    }
}

impl DeltaOutput {
    /// The user-facing failure messages, when the evaluation failed.
    pub fn user_messages(&self) -> (r: Option<&Vec<String>>)
        ensures
            r is Some <==> self@.status is Failure,
            r matches Some(msgs) ==> msgs@.map_values(|e: String| e@) == self@.status->errors,
    {
        match &self.status {
            DeltaOutputStatus::Success { .. } => None,
            DeltaOutputStatus::SuccessX { .. } => None,
            DeltaOutputStatus::Failure { errors, .. } => Some(errors),
        }
    }

    /// Whether all requirements were fulfilled.
    pub fn is_ok(&self) -> (r: bool)
        ensures
            r == status_is_ok(self@.status),
    {
        self.status.is_ok()
    }

    /// Which tier index was settled on.
    pub fn delta_index(&self) -> (r: usize)
        ensures
            r as int == status_delta_index(self@.status),
    {
        self.status.delta_index()
    }

    /// The resources that blocked progress, if any.
    pub fn failing_resources(&self) -> (r: Vec<Resource>)
        ensures
            r@ == status_failing(self@.status),
    {
        self.status.failing_resources()
    }

    /// Whether this evaluation may share a display row with `other`.
    pub fn is_mergeable(&self, other: &DeltaOutput) -> (r: bool)
        ensures
            r == delta_outputs_mergeable(self@, other@),
    {
        match (&self.status, &other.status) {
            (
                DeltaOutputStatus::Success { delta_index: first_index },
                DeltaOutputStatus::Success { delta_index: second_index },
            ) => first_index == second_index,
            (
                DeltaOutputStatus::SuccessX { delta_index: first_index, .. },
                DeltaOutputStatus::SuccessX { delta_index: second_index, .. },
            ) => first_index == second_index,
            (DeltaOutputStatus::Failure { .. }, DeltaOutputStatus::Failure { .. }) => true,
            (_, _) => false,
        }
    }
}

} // verus!
