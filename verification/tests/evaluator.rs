//! Tests of the amount algebra and the delta evaluator.

use strange_facility::amount::Amount;
use strange_facility::evaluate::{apply_deltas, DeltaOutputStatus, EngineError};
use strange_facility::ledger::Ledger;
use strange_facility::resource::Resource;

fn ledger_with(values: &[(Resource, i64)]) -> Ledger {
    let mut ledger = Ledger::new();
    for (resource, amount) in values {
        ledger.set(*resource, *amount);
    }
    ledger
}

#[test]
fn multiply_scales_every_variant() {
    assert_eq!(Amount::Gain(3).multiply(4), Amount::Gain(12));
    assert_eq!(Amount::Spend(3).multiply(4), Amount::Spend(12));
    assert_eq!(Amount::Catalyst(2).multiply(5), Amount::Catalyst(10));
    assert_eq!(Amount::GainX(1).multiply(7), Amount::GainX(7));
    assert_eq!(Amount::SpendX(2).multiply(3), Amount::SpendX(6));
    assert_eq!(Amount::CatalystX(2).multiply(2), Amount::CatalystX(4));
    assert_eq!(Amount::SetTo(5).multiply(3), Amount::SetTo(15));
}

#[test]
fn zero_multiplier_is_an_engine_error() {
    let deltas = vec![vec![(Resource::Fish, Amount::Gain(1))]];
    let result = apply_deltas(Ledger::new(), &deltas, 0);
    assert_eq!(result.unwrap_err(), EngineError::NonPositiveMultiplier);
}

#[test]
fn negative_multiplier_is_an_engine_error() {
    let deltas = vec![vec![(Resource::Fish, Amount::Gain(1))]];
    let result = apply_deltas(Ledger::new(), &deltas, -3);
    assert_eq!(result.unwrap_err(), EngineError::NonPositiveMultiplier);
}

#[test]
fn gain_and_spend_update_the_ledger() {
    let ledger = ledger_with(&[(Resource::Fish, 10)]);
    let deltas = vec![vec![
        (Resource::Fish, Amount::Spend(4)),
        (Resource::Scrap, Amount::Gain(2)),
    ]];
    let output = apply_deltas(ledger, &deltas, 1).unwrap();
    assert!(output.is_ok());
    assert_eq!(output.delta_index(), 0);
    assert_eq!(output.resources_after.get(Resource::Fish), 6);
    assert_eq!(output.resources_after.get(Resource::Scrap), 2);
    assert_eq!(
        output.changed_resources,
        vec![Resource::Fish, Resource::Scrap]
    );
}

#[test]
fn multiplier_scales_the_amounts() {
    let ledger = ledger_with(&[(Resource::Fish, 10)]);
    let deltas = vec![vec![(Resource::Fish, Amount::Spend(2))]];
    let output = apply_deltas(ledger, &deltas, 3).unwrap();
    assert!(output.is_ok());
    assert_eq!(output.resources_after.get(Resource::Fish), 4);
}

#[test]
fn tier_fallback_selects_the_second_tier() {
    let ledger = ledger_with(&[(Resource::Fish, 1)]);
    let deltas = vec![
        vec![(Resource::Fish, Amount::Spend(5))],
        vec![(Resource::Scrap, Amount::Gain(1))],
    ];
    let output = apply_deltas(ledger, &deltas, 1).unwrap();
    assert!(output.is_ok());
    assert_eq!(output.delta_index(), 1);
    assert_eq!(output.resources_after.get(Resource::Fish), 1);
    assert_eq!(output.resources_after.get(Resource::Scrap), 1);
}

#[test]
fn x_resolves_to_the_floor_quotient() {
    let ledger = ledger_with(&[(Resource::Fish, 23)]);
    let deltas = vec![vec![(Resource::Fish, Amount::SpendX(5))]];
    let output = apply_deltas(ledger, &deltas, 1).unwrap();
    match output.status {
        DeltaOutputStatus::SuccessX { delta_index, x } => {
            assert_eq!(delta_index, 0);
            assert_eq!(x, 4);
        }
        _ => panic!("expected a proportional success"),
    }
    assert_eq!(output.resources_after.get(Resource::Fish), 3);
}

#[test]
fn x_is_capped_by_the_scarcest_entry() {
    let ledger = ledger_with(&[(Resource::Fish, 23), (Resource::Scrap, 10)]);
    let deltas = vec![vec![
        (Resource::Fish, Amount::SpendX(5)),
        (Resource::Scrap, Amount::SpendX(3)),
    ]];
    let output = apply_deltas(ledger, &deltas, 1).unwrap();
    match output.status {
        DeltaOutputStatus::SuccessX { delta_index, x } => {
            assert_eq!(delta_index, 0);
            assert_eq!(x, 3);
        }
        _ => panic!("expected a proportional success"),
    }
    assert_eq!(output.resources_after.get(Resource::Fish), 8);
    assert_eq!(output.resources_after.get(Resource::Scrap), 1);
}

#[test]
fn gain_x_uses_the_resolved_factor() {
    let ledger = ledger_with(&[(Resource::Fish, 23)]);
    let deltas = vec![vec![
        (Resource::Fish, Amount::SpendX(5)),
        (Resource::FoodRation, Amount::GainX(2)),
    ]];
    let output = apply_deltas(ledger, &deltas, 1).unwrap();
    assert!(output.is_ok());
    assert_eq!(output.resources_after.get(Resource::Fish), 3);
    assert_eq!(output.resources_after.get(Resource::FoodRation), 8);
}

#[test]
fn zero_per_unit_with_stock_is_an_engine_error() {
    let ledger = ledger_with(&[(Resource::Fish, 5)]);
    let deltas = vec![vec![(Resource::Fish, Amount::SpendX(0))]];
    let result = apply_deltas(ledger, &deltas, 1);
    assert_eq!(result.unwrap_err(), EngineError::ZeroScale);
}

#[test]
fn zero_per_unit_without_stock_is_skipped() {
    let ledger = Ledger::new();
    let deltas = vec![vec![(Resource::Fish, Amount::SpendX(0))]];
    let output = apply_deltas(ledger, &deltas, 1).unwrap();
    match output.status {
        DeltaOutputStatus::Success { delta_index } => assert_eq!(delta_index, 0),
        _ => panic!("expected a plain success without a resolved factor"),
    }
}

#[test]
fn catalyst_requires_but_does_not_change() {
    let ledger = ledger_with(&[(Resource::Fish, 3)]);
    let deltas = vec![vec![
        (Resource::Fish, Amount::Catalyst(2)),
        (Resource::Scrap, Amount::Gain(1)),
    ]];
    let output = apply_deltas(ledger, &deltas, 1).unwrap();
    assert!(output.is_ok());
    assert_eq!(output.resources_after.get(Resource::Fish), 3);
    assert_eq!(output.resources_after.get(Resource::Scrap), 1);
    assert_eq!(output.changed_resources, vec![Resource::Scrap]);
}

#[test]
fn failure_reports_messages_and_blocking_resources() {
    let ledger = ledger_with(&[(Resource::Fish, 1)]);
    let deltas = vec![vec![(Resource::Fish, Amount::Spend(5))]];
    let output = apply_deltas(ledger, &deltas, 1).unwrap();
    assert!(!output.is_ok());
    assert_eq!(output.failing_resources(), vec![Resource::Fish]);
    let messages = output.user_messages().unwrap();
    assert_eq!(messages.len(), 1);
    assert_eq!(messages[0], "Not enough Fish");
}

#[test]
fn failing_tier_effects_still_reach_the_ledger() {
    // The documented quirk: the last attempted tier is written even though
    // the evaluation reports failure.
    let ledger = ledger_with(&[(Resource::Fish, 1)]);
    let deltas = vec![vec![
        (Resource::Fish, Amount::Spend(5)),
        (Resource::Scrap, Amount::Gain(2)),
    ]];
    let output = apply_deltas(ledger, &deltas, 1).unwrap();
    assert!(!output.is_ok());
    assert_eq!(output.resources_after.get(Resource::Fish), -4);
    assert_eq!(output.resources_after.get(Resource::Scrap), 2);
}

#[test]
fn set_to_with_a_zero_target_is_not_a_change() {
    let ledger = ledger_with(&[(Resource::Fish, 20)]);
    let deltas = vec![vec![(Resource::Fish, Amount::SetTo(0))]];
    let output = apply_deltas(ledger, &deltas, 1).unwrap();
    assert!(output.is_ok());
    assert_eq!(output.resources_after.get(Resource::Fish), 20);
    assert_eq!(output.changed_resources, Vec::<Resource>::new());
}

#[test]
fn set_to_subtracts_its_target() {
    let ledger = ledger_with(&[(Resource::Fish, 20)]);
    let deltas = vec![vec![(Resource::Fish, Amount::SetTo(5))]];
    let output = apply_deltas(ledger, &deltas, 1).unwrap();
    assert!(output.is_ok());
    assert_eq!(output.resources_after.get(Resource::Fish), 15);
    assert_eq!(output.changed_resources, vec![Resource::Fish]);
}

#[test]
fn scaling_overflow_is_an_engine_error() {
    let deltas = vec![vec![(Resource::Fish, Amount::Gain(i64::MAX))]];
    let result = apply_deltas(Ledger::new(), &deltas, 2);
    assert_eq!(result.unwrap_err(), EngineError::Overflow);
}

#[test]
fn application_overflow_is_an_engine_error() {
    let ledger = ledger_with(&[(Resource::Fish, i64::MAX)]);
    let deltas = vec![vec![(Resource::Fish, Amount::Gain(1))]];
    let result = apply_deltas(ledger, &deltas, 1);
    assert_eq!(result.unwrap_err(), EngineError::Overflow);
}

#[test]
fn empty_delta_list_succeeds_without_change() {
    let ledger = ledger_with(&[(Resource::Fish, 2)]);
    let deltas: Vec<Vec<(Resource, Amount)>> = vec![];
    let output = apply_deltas(ledger, &deltas, 1).unwrap();
    assert!(output.is_ok());
    assert_eq!(output.delta_index(), 0);
    assert_eq!(output.resources_after.get(Resource::Fish), 2);
    assert!(output.changed_resources.is_empty());
}

#[test]
fn outputs_merge_only_within_the_same_outcome_class() {
    let success_zero = DeltaOutputStatus::Success { delta_index: 0 };
    let success_one = DeltaOutputStatus::Success { delta_index: 1 };
    let failure = DeltaOutputStatus::Failure {
        errors: vec!["Not enough Fish".to_string()],
        failing_resources: vec![Resource::Fish],
    };
    assert!(success_zero.is_ok());
    assert!(!failure.is_ok());
    assert_eq!(success_one.delta_index(), 1);
    assert_eq!(failure.delta_index(), 0);
    assert_eq!(failure.failing_resources(), vec![Resource::Fish]);
    assert_eq!(success_zero.failing_resources(), Vec::<Resource>::new());
}

#[test]
fn x_division_floors_on_negative_stock() {
    let ledger = ledger_with(&[(Resource::Fish, -7)]);
    let deltas = vec![vec![(Resource::Fish, Amount::SpendX(5))]];
    let output = apply_deltas(ledger, &deltas, 1).unwrap();
    match output.status {
        DeltaOutputStatus::SuccessX { delta_index, x } => {
            assert_eq!(delta_index, 0);
            assert_eq!(x, -2);
        }
        _ => panic!("expected a proportional success"),
    }
    assert_eq!(output.resources_after.get(Resource::Fish), 3);
}

#[test]
fn x_division_floors_on_a_negative_per_unit_amount() {
    let ledger = ledger_with(&[(Resource::Fish, 7)]);
    let deltas = vec![vec![(Resource::Fish, Amount::SpendX(-2))]];
    let output = apply_deltas(ledger, &deltas, 1).unwrap();
    match output.status {
        DeltaOutputStatus::SuccessX { x, .. } => assert_eq!(x, -4),
        _ => panic!("expected a proportional success"),
    }
    assert_eq!(output.resources_after.get(Resource::Fish), -1);
}

#[test]
fn catalyst_x_bounds_the_factor_without_spending() {
    let ledger = ledger_with(&[(Resource::Fish, 12)]);
    let deltas = vec![vec![
        (Resource::Fish, Amount::CatalystX(5)),
        (Resource::Scrap, Amount::GainX(1)),
    ]];
    let output = apply_deltas(ledger, &deltas, 1).unwrap();
    match output.status {
        DeltaOutputStatus::SuccessX { x, .. } => assert_eq!(x, 2),
        _ => panic!("expected a proportional success"),
    }
    assert_eq!(output.resources_after.get(Resource::Fish), 12);
    assert_eq!(output.resources_after.get(Resource::Scrap), 2);
}
