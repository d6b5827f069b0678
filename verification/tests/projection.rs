//! Tests of the view projector: replay, row merging, totals, the win
//! condition, and the live game's content.

use strange_facility::amount::Amount;
use strange_facility::config::{Config, ResourceAttributes};
use strange_facility::engine::App;
use strange_facility::evaluate::EngineError;
use strange_facility::game::{game_config, starting_resources, WIN_JOB_ID};
use strange_facility::history::HistoryStep;
use strange_facility::job::{apply_job, Job};
use strange_facility::ledger::Ledger;
use strange_facility::resource::Resource;
use strange_facility::view_logic::{create_view_cache, GameState, ResourceToolStatus};

fn blank_attrs() -> Vec<Option<ResourceAttributes>> {
    let mut attrs: Vec<Option<ResourceAttributes>> = Vec::new();
    for _ in 0..13 {
        attrs.push(None);
    }
    attrs
}

fn blank_config() -> Config {
    Config {
        attrs: blank_attrs(),
        win_job_id: 999,
        start_job: empty_job(0),
        combinations: vec![],
    }
}

fn empty_job(id: usize) -> Job {
    Job {
        button_text: "rest",
        deltas: vec![],
        removable: true,
        saved: false,
        instances: 1,
        id,
        combination_resources: vec![],
    }
}

fn gain_job(id: usize, resource: Resource, amount: i64) -> Job {
    Job {
        button_text: "gather",
        deltas: vec![vec![(resource, Amount::Gain(amount))]],
        removable: true,
        saved: false,
        instances: 1,
        id,
        combination_resources: vec![],
    }
}

fn spend_job(id: usize, resource: Resource, amount: i64) -> Job {
    Job {
        button_text: "spend",
        deltas: vec![vec![(resource, Amount::Spend(amount))]],
        removable: true,
        saved: false,
        instances: 1,
        id,
        combination_resources: vec![],
    }
}

#[test]
fn replaying_the_same_log_twice_is_deterministic() {
    let config = blank_config();
    let steps = vec![
        HistoryStep::Job(gain_job(1, Resource::Fish, 3)),
        HistoryStep::Job(spend_job(2, Resource::Fish, 10)),
        HistoryStep::AddOne(1),
        HistoryStep::Job(gain_job(1, Resource::Fish, 2)),
    ];
    let first = create_view_cache(&steps, &config).unwrap();
    let second = create_view_cache(&steps, &config).unwrap();
    assert_eq!(first, second);
}

#[test]
fn consecutive_equal_successes_merge_into_one_row() {
    let config = blank_config();
    let steps = vec![
        HistoryStep::Job(gain_job(5, Resource::Fish, 1)),
        HistoryStep::Job(gain_job(5, Resource::Fish, 1)),
    ];
    let cache = create_view_cache(&steps, &config).unwrap();
    // One row for the starting job, one merged row for the pair.
    assert_eq!(cache.job_rows.len(), 2);
    assert_eq!(cache.job_rows[1].job.id, 5);
    assert_eq!(cache.job_rows[1].job.instances, 2);
    assert_eq!(cache.job_rows[1].index, 1);
}

#[test]
fn a_success_and_a_failure_never_merge() {
    let config = blank_config();
    let steps = vec![
        HistoryStep::Job(gain_job(5, Resource::Fish, 1)),
        HistoryStep::Job(spend_job(5, Resource::Fish, 10)),
    ];
    let cache = create_view_cache(&steps, &config).unwrap();
    assert_eq!(cache.job_rows.len(), 3);
    assert_eq!(cache.job_rows[1].job.instances, 1);
    assert_eq!(cache.job_rows[2].job.instances, 1);
}

#[test]
fn a_failing_step_does_not_advance_the_carried_ledger() {
    let config = blank_config();
    let steps = vec![
        HistoryStep::Job(gain_job(1, Resource::Fish, 3)),
        HistoryStep::Job(spend_job(2, Resource::Fish, 10)),
        HistoryStep::Job(spend_job(3, Resource::Fish, 2)),
    ];
    let cache = create_view_cache(&steps, &config).unwrap();
    // The failing spend of 10 is ignored; the later spend of 2 still works.
    let fish = cache
        .current_resources
        .iter()
        .find(|c| c.resource == Resource::Fish)
        .unwrap();
    assert_eq!(fish.amount, 1);
}

#[test]
fn the_last_failure_message_is_surfaced() {
    let config = blank_config();
    let steps = vec![HistoryStep::Job(spend_job(1, Resource::Fish, 10))];
    let cache = create_view_cache(&steps, &config).unwrap();
    assert_eq!(cache.user_error, Some("Not enough Fish".to_string()));
    let after_success = vec![
        HistoryStep::Job(spend_job(1, Resource::Fish, 10)),
        HistoryStep::Job(gain_job(2, Resource::Fish, 1)),
    ];
    let cache = create_view_cache(&after_success, &config).unwrap();
    assert_eq!(cache.user_error, None);
}

#[test]
fn totals_sum_instances_of_successful_steps_only() {
    let config = blank_config();
    let mut repeated = gain_job(1, Resource::Fish, 1);
    repeated.instances = 4;
    let steps = vec![
        HistoryStep::Job(repeated),
        HistoryStep::Job(spend_job(2, Resource::Fish, 100)),
    ];
    let cache = create_view_cache(&steps, &config).unwrap();
    // The empty starting job counts 1, the repeated job 4, the failure 0.
    assert_eq!(cache.total_days, 5);
    assert!(matches!(cache.game_state, GameState::Playing));
}

#[test]
fn winning_carries_the_total_at_the_winning_step() {
    let mut config = blank_config();
    config.win_job_id = 5;
    let steps = vec![
        HistoryStep::Job(gain_job(1, Resource::Fish, 1)),
        HistoryStep::Job(gain_job(5, Resource::Fish, 1)),
    ];
    let cache = create_view_cache(&steps, &config).unwrap();
    // Start (1) + gather (1) + win job (1).
    assert_eq!(cache.total_days, 3);
    match cache.game_state {
        GameState::Won { spent_days } => assert_eq!(spent_days, 3),
        GameState::Playing => panic!("expected the game to be won"),
    }
}

#[test]
fn a_failing_win_job_does_not_win() {
    let mut config = blank_config();
    config.win_job_id = 5;
    let steps = vec![HistoryStep::Job(spend_job(5, Resource::Fish, 10))];
    let cache = create_view_cache(&steps, &config).unwrap();
    assert!(matches!(cache.game_state, GameState::Playing));
}

#[test]
fn an_engine_error_aborts_the_whole_projection() {
    let config = blank_config();
    let mut zero_instances = gain_job(1, Resource::Fish, 1);
    zero_instances.instances = 0;
    let steps = vec![HistoryStep::Job(zero_instances)];
    let result = create_view_cache(&steps, &config);
    assert_eq!(result.unwrap_err(), EngineError::NonPositiveMultiplier);
}

#[test]
fn the_engine_keeps_the_old_cache_on_an_engine_error() {
    let config = blank_config();
    let mut app = App::new(config);
    app.add_job(gain_job(1, Resource::Fish, 3));
    let cache_before = create_view_cache(&app.history, &app.config).unwrap();
    let mut zero_instances = gain_job(2, Resource::Scrap, 1);
    zero_instances.instances = 0;
    app.add_job(zero_instances);
    assert_eq!(app.view_cache, cache_before);
    assert_eq!(
        app.programmer_error,
        Some(EngineError::NonPositiveMultiplier)
    );
}

#[test]
fn the_starting_job_grants_the_documented_resources() {
    let config = game_config();
    let output = apply_job(Ledger::new(), &starting_resources(), &config).unwrap();
    assert!(output.is_ok());
    assert_eq!(output.resources_after.get(Resource::Player), 1);
    // The player's upkeep eats one ration of the granted seven.
    assert_eq!(output.resources_after.get(Resource::FoodRation), 6);
    assert_eq!(output.resources_after.get(Resource::Martha), 1);
    assert_eq!(output.resources_after.get(Resource::Forge), 1);
    assert_eq!(output.resources_after.get(Resource::Net), 1);
    assert_eq!(output.resources_after.get(Resource::Submarine), 1);
    assert_eq!(output.resources_after.get(Resource::Claw), 1);
}

#[test]
fn the_live_game_projects_columns_and_tools() {
    let config = game_config();
    let steps: Vec<HistoryStep> = vec![];
    let cache = create_view_cache(&steps, &config).unwrap();
    // Only the food ration deserves a column: the tools are inline and the
    // player is hidden.
    assert_eq!(cache.seen_resources, vec![Resource::FoodRation]);
    assert_eq!(cache.job_rows.len(), 1);
    assert_eq!(
        cache.job_rows[0].resource_list,
        vec![(Resource::FoodRation, 6)]
    );
    let tools: Vec<Resource> = cache.job_rows[0]
        .resource_tool_list
        .iter()
        .map(|t| t.resource_pair.0)
        .collect();
    assert_eq!(
        tools,
        vec![
            Resource::Submarine,
            Resource::Net,
            Resource::Claw,
            Resource::Martha,
            Resource::Forge,
        ]
    );
    assert_eq!(cache.total_days, 1);
    assert_eq!(cache.max_row, 1);
    // The selectable resources: the ration column, then the inline tools.
    assert_eq!(cache.current_resources.len(), 6);
    assert_eq!(cache.current_resources[0].resource, Resource::FoodRation);
    assert_eq!(cache.current_resources[0].amount, 6);
    assert_eq!(cache.current_resources[0].row, 0);
    assert_eq!(cache.current_resources[1].resource, Resource::Submarine);
    assert_eq!(cache.current_resources[1].row, 1);
}

#[test]
fn a_failing_upkeep_step_supplies_the_message() {
    let config = game_config();
    let mut ledger = Ledger::new();
    ledger.set(Resource::Player, 1);
    let output = apply_job(ledger, &empty_job(3), &config).unwrap();
    // The primary step succeeds; the player's upkeep finds no rations.
    assert!(!output.is_ok());
    assert_eq!(output.user_message(), Some("Not enough Food ration"));
}

#[test]
fn a_failing_upkeep_message_reaches_the_view() {
    let config = game_config();
    // Spending the last six rations leaves the player's upkeep unpaid.
    let steps = vec![HistoryStep::Job(spend_job(2, Resource::FoodRation, 6))];
    let cache = create_view_cache(&steps, &config).unwrap();
    assert_eq!(cache.user_error, Some("Not enough Food ration".to_string()));
}

#[test]
fn martha_at_work_cans_fish_into_rations() {
    let config = game_config();
    let mut ledger = Ledger::new();
    ledger.set(Resource::MarthaAtWork, 1);
    ledger.set(Resource::Fish, 20);
    let output = apply_job(ledger, &empty_job(3), &config).unwrap();
    assert!(output.is_ok());
    assert_eq!(output.resources_after.get(Resource::Fish), 5);
    assert_eq!(output.resources_after.get(Resource::FoodRation), 5);
    assert_eq!(output.resources_after.get(Resource::MarthaAtWork), 1);
}

#[test]
fn martha_at_work_steps_back_to_idle_without_fish() {
    let config = game_config();
    let mut ledger = Ledger::new();
    ledger.set(Resource::MarthaAtWork, 1);
    ledger.set(Resource::Fish, 3);
    let output = apply_job(ledger, &empty_job(3), &config).unwrap();
    assert!(output.is_ok());
    assert_eq!(output.resources_after.get(Resource::Fish), 3);
    assert_eq!(output.resources_after.get(Resource::MarthaAtWork), 0);
    assert_eq!(output.resources_after.get(Resource::Martha), 1);
}

#[test]
fn winning_the_live_game_reports_spent_days() {
    let config = game_config();
    let mut app = App::new(config);
    let mut escape = gain_job(WIN_JOB_ID, Resource::Scrap, 1);
    escape.instances = 3;
    app.add_job(escape);
    assert_eq!(app.programmer_error, None);
    match app.view_cache.game_state {
        GameState::Won { spent_days } => assert_eq!(spent_days, 4),
        GameState::Playing => panic!("expected the game to be won"),
    }
}

#[test]
fn changed_resources_mark_the_tool_list() {
    let config = game_config();
    // Gaining an upgraded net marks the new tool as changed; spending the
    // old net away marks it removed.
    let job = Job {
        button_text: "improve the net",
        deltas: vec![vec![
            (Resource::Net, Amount::Spend(1)),
            (Resource::NetUpgraded, Amount::Gain(1)),
        ]],
        removable: true,
        saved: false,
        instances: 1,
        id: 6,
        combination_resources: vec![],
    };
    let steps = vec![HistoryStep::Job(job)];
    let cache = create_view_cache(&steps, &config).unwrap();
    let row = &cache.job_rows[1];
    let net = row
        .resource_tool_list
        .iter()
        .find(|t| t.resource_pair.0 == Resource::Net)
        .unwrap();
    assert_eq!(net.status, ResourceToolStatus::Removed);
    let upgraded = row
        .resource_tool_list
        .iter()
        .find(|t| t.resource_pair.0 == Resource::NetUpgraded)
        .unwrap();
    assert_eq!(upgraded.status, ResourceToolStatus::Changed);
    let submarine = row
        .resource_tool_list
        .iter()
        .find(|t| t.resource_pair.0 == Resource::Submarine)
        .unwrap();
    assert_eq!(submarine.status, ResourceToolStatus::Standard);
}

#[test]
fn long_and_short_names_describe_the_resources() {
    assert_eq!(Resource::Submarine.short_name(), "Sub");
    assert_eq!(Resource::NetUpgraded.short_name(), "Net+");
    assert_eq!(Resource::Scrap.long_name(), "Scrap metal");
    assert_eq!(
        Resource::Martha.long_name(),
        "Martha, the canning machine"
    );
}

#[test]
fn an_upkeep_multiplier_past_the_machine_range_is_an_overflow() {
    let config = game_config();
    let mut ledger = Ledger::new();
    ledger.set(Resource::MarthaAtWork, i64::MAX);
    ledger.set(Resource::Fish, i64::MAX);
    let mut job = empty_job(3);
    job.instances = 2;
    let result = apply_job(ledger, &job, &config);
    assert_eq!(result.unwrap_err(), EngineError::Overflow);
}
