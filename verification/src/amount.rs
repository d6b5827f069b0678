//! The amount algebra: how a single resource changes, or gates an action,
//! under one multiplier.

use vstd::prelude::*;

verus! {

/// One effect or requirement on one resource.
///
/// `Gain` adds, `Spend` subtracts, `Catalyst` requires a minimum quantity but
/// changes nothing. The `..X` variants are proportional: their quantity is a
/// per-unit amount, multiplied by a shared factor X that the evaluator
/// resolves per tier. `SetTo` mirrors `Spend`'s arithmetic (it subtracts its
/// target from the current quantity).
#[derive(Clone, Copy, Debug, PartialEq, Eq, Structural)]
pub enum Amount {
    Gain(i64),
    Spend(i64),
    Catalyst(i64),
    GainX(i64),
    SpendX(i64),
    CatalystX(i64),
    SetTo(i64),
}

/// The quantity embedded in an amount.
pub open spec fn amount_value(a: Amount) -> int {
    match a {
        Amount::Gain(q) => q as int,
        Amount::Spend(q) => q as int,
        Amount::Catalyst(q) => q as int,
        Amount::GainX(q) => q as int,
        Amount::SpendX(q) => q as int,
        Amount::CatalystX(q) => q as int,
        Amount::SetTo(q) => q as int,
    }
}

/// The same variant as `a`, carrying `q` as its quantity.
pub open spec fn with_value(a: Amount, q: int) -> Amount {
    match a {
        Amount::Gain(_) => Amount::Gain(q as i64),
        Amount::Spend(_) => Amount::Spend(q as i64),
        Amount::Catalyst(_) => Amount::Catalyst(q as i64),
        Amount::GainX(_) => Amount::GainX(q as i64),
        Amount::SpendX(_) => Amount::SpendX(q as i64),
        Amount::CatalystX(_) => Amount::CatalystX(q as i64),
        Amount::SetTo(_) => Amount::SetTo(q as i64),
    }
}

/// The quantity of `a` once scaled by the multiplier `m`.
pub open spec fn scaled_value(a: Amount, m: int) -> int {
    amount_value(a) * m
}

/// The scaled quantity fits the machine integer that carries it.
pub open spec fn scale_fits(a: Amount, m: int) -> bool {
    i64::MIN <= scaled_value(a, m) <= i64::MAX
}

impl Amount {
    /// The same variant with its embedded quantity multiplied by `factor`.
    pub fn multiply(self, factor: i64) -> (r: Self)
        requires
            scale_fits(self, factor as int),
        ensures
            r == with_value(self, scaled_value(self, factor as int)),
    {
        match self {
            Amount::Gain(delta) => Amount::Gain(delta * factor),
            Amount::Spend(delta) => Amount::Spend(delta * factor),
            Amount::Catalyst(delta) => Amount::Catalyst(delta * factor),
            Amount::GainX(delta) => Amount::GainX(delta * factor),
            Amount::SpendX(delta) => Amount::SpendX(delta * factor),
            Amount::CatalystX(delta) => Amount::CatalystX(delta * factor),
            Amount::SetTo(target) => Amount::SetTo(target * factor),
        }
    }
}

} // verus!
