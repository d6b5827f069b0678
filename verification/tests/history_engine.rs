//! Tests of the history log: expansion, structural edits, undo and redo.

use strange_facility::amount::Amount;
use strange_facility::config::{CombinationResult, Config, ResourceAttributes};
use strange_facility::engine::App;
use strange_facility::history::{expand_history, history_from_combinations, HistoryStep};
use strange_facility::job::Job;
use strange_facility::resource::Resource;
use strange_facility::view_logic::create_view_cache;

fn blank_attrs() -> Vec<Option<ResourceAttributes>> {
    let mut attrs: Vec<Option<ResourceAttributes>> = Vec::new();
    for _ in 0..13 {
        attrs.push(None);
    }
    attrs
}

fn blank_config() -> Config {
    Config {
        attrs: blank_attrs(),
        win_job_id: 999,
        start_job: empty_job(0),
        combinations: vec![],
    }
}

fn empty_job(id: usize) -> Job {
    Job {
        button_text: "rest",
        deltas: vec![],
        removable: true,
        saved: false,
        instances: 1,
        id,
        combination_resources: vec![],
    }
}

fn gain_job(id: usize, resource: Resource, amount: i64) -> Job {
    Job {
        button_text: "gather",
        deltas: vec![vec![(resource, Amount::Gain(amount))]],
        removable: true,
        saved: false,
        instances: 1,
        id,
        combination_resources: vec![],
    }
}

#[test]
fn job_steps_append_in_order() {
    let steps = vec![
        HistoryStep::Job(empty_job(1)),
        HistoryStep::Job(empty_job(2)),
    ];
    let jobs = expand_history(&steps, &empty_job(0));
    let ids: Vec<usize> = jobs.iter().map(|job| job.id).collect();
    assert_eq!(ids, vec![0, 1, 2]);
}

#[test]
fn add_one_duplicates_in_place() {
    let steps = vec![
        HistoryStep::Job(empty_job(1)),
        HistoryStep::Job(empty_job(2)),
        HistoryStep::AddOne(1),
    ];
    let jobs = expand_history(&steps, &empty_job(0));
    let ids: Vec<usize> = jobs.iter().map(|job| job.id).collect();
    assert_eq!(ids, vec![0, 1, 1, 2]);
}

#[test]
fn add_one_out_of_range_is_a_no_op() {
    let steps = vec![HistoryStep::Job(empty_job(1)), HistoryStep::AddOne(9)];
    let jobs = expand_history(&steps, &empty_job(0));
    let ids: Vec<usize> = jobs.iter().map(|job| job.id).collect();
    assert_eq!(ids, vec![0, 1]);
}

#[test]
fn remove_one_deletes_a_single_job() {
    let steps = vec![
        HistoryStep::Job(empty_job(1)),
        HistoryStep::Job(empty_job(2)),
        HistoryStep::RemoveOne(1),
    ];
    let jobs = expand_history(&steps, &empty_job(0));
    let ids: Vec<usize> = jobs.iter().map(|job| job.id).collect();
    assert_eq!(ids, vec![0, 2]);
}

#[test]
fn remove_cluster_deletes_the_whole_run() {
    // Ids [a, b, b, b, c]: removing the cluster at the first b leaves
    // [a, c]. The starting job occupies slot 0, so the first b sits at
    // slot 2 of the expanded sequence.
    let steps = vec![
        HistoryStep::Job(empty_job(7)),
        HistoryStep::Job(empty_job(8)),
        HistoryStep::Job(empty_job(8)),
        HistoryStep::Job(empty_job(8)),
        HistoryStep::Job(empty_job(9)),
        HistoryStep::RemoveCluster(2),
    ];
    let jobs = expand_history(&steps, &empty_job(0));
    let ids: Vec<usize> = jobs.iter().map(|job| job.id).collect();
    assert_eq!(ids, vec![0, 7, 9]);
}

#[test]
fn remove_cluster_at_the_tail_stops_at_the_end() {
    let steps = vec![
        HistoryStep::Job(empty_job(7)),
        HistoryStep::Job(empty_job(7)),
        HistoryStep::RemoveCluster(1),
    ];
    let jobs = expand_history(&steps, &empty_job(0));
    let ids: Vec<usize> = jobs.iter().map(|job| job.id).collect();
    assert_eq!(ids, vec![0]);
}

#[test]
fn undo_then_redo_restores_the_log() {
    let mut app = App::new(blank_config());
    app.add_job(gain_job(1, Resource::Fish, 3));
    app.add_job(gain_job(2, Resource::Scrap, 1));
    let log_before: Vec<HistoryStep> = vec![
        HistoryStep::Job(gain_job(1, Resource::Fish, 3)),
        HistoryStep::Job(gain_job(2, Resource::Scrap, 1)),
    ];
    assert_eq!(app.history, log_before);
    app.undo();
    assert_eq!(app.history.len(), 1);
    assert_eq!(app.redo_queue.len(), 1);
    app.redo();
    assert_eq!(app.history, log_before);
    assert_eq!(app.redo_queue.len(), 0);
    let fresh = create_view_cache(&app.history, &app.config).unwrap();
    assert_eq!(app.view_cache, fresh);
}

#[test]
fn undo_on_an_empty_log_is_a_no_op() {
    let mut app = App::new(blank_config());
    app.undo();
    assert_eq!(app.history.len(), 0);
    assert_eq!(app.redo_queue.len(), 0);
}

#[test]
fn appending_after_an_undo_clears_the_redo_buffer() {
    let mut app = App::new(blank_config());
    app.add_job(gain_job(1, Resource::Fish, 3));
    app.undo();
    assert_eq!(app.redo_queue.len(), 1);
    app.add_job(gain_job(2, Resource::Scrap, 1));
    assert_eq!(app.redo_queue.len(), 0);
    // A subsequent redo is a no-op.
    let log_before = app.history.len();
    app.redo();
    assert_eq!(app.history.len(), log_before);
    assert_eq!(app.redo_queue.len(), 0);
}

#[test]
fn job_new_bumps_the_id_counter() {
    let mut next_id: usize = 7;
    let first = Job::new("fish", vec![], vec![], &mut next_id);
    let second = Job::new_unsaved("forge", vec![], vec![], &mut next_id);
    assert_eq!(first.id, 7);
    assert_eq!(second.id, 8);
    assert_eq!(next_id, 9);
    assert!(first.saved);
    assert!(!second.saved);
    assert!(first.removable && second.removable);
    assert_eq!(first.instances, 1);
}

#[test]
fn combinations_become_history_steps() {
    let mut config = blank_config();
    config.combinations = vec![
        (
            Resource::Fish,
            Resource::Scrap,
            CombinationResult::Job(empty_job(4), None),
        ),
        (
            Resource::Player,
            Resource::Fish,
            CombinationResult::Text("nothing happens".to_string()),
        ),
    ];
    let pairs = vec![
        (Resource::Scrap, Resource::Fish),
        (Resource::Player, Resource::Fish),
        (Resource::Net, Resource::Claw),
    ];
    let history = history_from_combinations(&config, pairs);
    assert_eq!(history.len(), 1);
    match &history[0] {
        HistoryStep::Job(job) => assert_eq!(job.id, 4),
        _ => panic!("expected a job step"),
    }
}

#[test]
fn apply_combination_records_and_discovers() {
    let mut config = blank_config();
    let mut saved_job = empty_job(4);
    saved_job.saved = true;
    config.combinations = vec![(
        Resource::Fish,
        Resource::Scrap,
        CombinationResult::Job(saved_job, None),
    )];
    let mut app = App::new(config);
    app.apply_combination(&Resource::Fish, &Resource::Scrap);
    app.apply_combination(&Resource::Scrap, &Resource::Fish);
    assert_eq!(app.history.len(), 2);
    assert_eq!(app.discovered_jobs.len(), 1);
    assert_eq!(app.discovered_jobs[0].id, 4);
    match &app.last_combination {
        CombinationResult::Job(job, None) => assert_eq!(job.id, 4),
        _ => panic!("expected the job result to be remembered"),
    }
}

#[test]
fn combining_unpaired_resources_yields_nothing() {
    let mut app = App::new(blank_config());
    app.apply_combination(&Resource::Net, &Resource::Claw);
    assert_eq!(app.history.len(), 0);
    assert_eq!(app.last_combination, CombinationResult::Nothing);
}
