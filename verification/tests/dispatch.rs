use spyglass::config::{Config, Limit, UserSettings};
use spyglass::crawler::{
    decide_dispatch, dispatch, may_dispatch, report, run_turn, turn, DispatchDecision,
    FetchOutcome, Settlement,
};
use spyglass::error::CrawlError;
use spyglass::models::crawl_queue::{enqueue_all, CrawlStatus, EnqueueSettings, TaskStore};
use spyglass::state::AppState;

fn settings(domain_limit: Limit, global: Limit, per_domain: Limit) -> UserSettings {
    let mut settings = UserSettings::default();
    settings.block_list = Vec::new();
    settings.domain_crawl_limit = domain_limit;
    settings.inflight_crawl_limit = global;
    settings.inflight_domain_limit = per_domain;
    settings
}

fn store(urls: &[&str], settings: &UserSettings) -> TaskStore {
    let mut db = TaskStore::new();
    let batch: Vec<String> = urls.iter().map(|u| u.to_string()).collect();
    enqueue_all(&mut db, &batch, &Vec::new(), settings, &EnqueueSettings::default(), 1);
    db
}

#[test]
fn decide_dispatch_checks_in_order() {
    let s = settings(Limit::Infinite, Limit::Finite(3), Limit::Finite(2));
    assert_eq!(decide_dispatch(true, 0, 0, true, &s), DispatchDecision::Paused);
    assert_eq!(decide_dispatch(true, 9, 9, false, &s), DispatchDecision::Paused);
    assert_eq!(decide_dispatch(false, 3, 0, true, &s), DispatchDecision::GlobalLimit);
    assert_eq!(decide_dispatch(false, 4, 5, true, &s), DispatchDecision::GlobalLimit);
    assert_eq!(decide_dispatch(false, 2, 2, true, &s), DispatchDecision::DomainLimit);
    assert_eq!(decide_dispatch(false, 2, 1, false, &s), DispatchDecision::NotQueued);
    assert_eq!(decide_dispatch(false, 2, 1, true, &s), DispatchDecision::Approved);
    assert_eq!(decide_dispatch(false, 0, 0, true, &s), DispatchDecision::Approved);
}

#[test]
fn infinite_limits_never_reject() {
    let s = settings(Limit::Infinite, Limit::Infinite, Limit::Infinite);
    assert_eq!(decide_dispatch(false, 1_000_000, 1_000_000, true, &s), DispatchDecision::Approved);
}

#[test]
fn scenario_one_task_per_domain_at_a_time() {
    let s = settings(Limit::Finite(2), Limit::Finite(10), Limit::Finite(1));
    let mut db = store(&["https://a.com/1", "https://a.com/2", "https://a.com/3"], &s);
    assert_eq!(db.len(), 2);
    assert_eq!(dispatch(&mut db, false, &s, 0, 5), Ok(DispatchDecision::Approved));
    assert_eq!(dispatch(&mut db, false, &s, 1, 5), Ok(DispatchDecision::DomainLimit));
    assert_eq!(db.inflight_for_domain("a.com"), 1);
    assert_eq!(db.get(0).unwrap().status, CrawlStatus::Processing);
    assert_eq!(db.get(1).unwrap().status, CrawlStatus::Queued);
    assert_eq!(report(&mut db, 0, FetchOutcome::Fetched, 6), Ok(Settlement::Completed));
    assert_eq!(dispatch(&mut db, false, &s, 1, 7), Ok(DispatchDecision::Approved));
    assert_eq!(db.inflight_for_domain("a.com"), 1);
}

#[test]
fn dispatch_moves_only_approved_tasks() {
    let s = settings(Limit::Infinite, Limit::Finite(1), Limit::Finite(5));
    let mut db = store(&["https://a.com/1", "https://b.com/1"], &s);
    assert_eq!(may_dispatch(&db, false, &s, 0), Ok(DispatchDecision::Approved));
    assert_eq!(db.get(0).unwrap().status, CrawlStatus::Queued);
    assert_eq!(dispatch(&mut db, true, &s, 0, 2), Ok(DispatchDecision::Paused));
    assert_eq!(db.get(0).unwrap().status, CrawlStatus::Queued);
    assert_eq!(dispatch(&mut db, false, &s, 0, 3), Ok(DispatchDecision::Approved));
    assert_eq!(db.get(0).unwrap().status, CrawlStatus::Processing);
    assert_eq!(db.get(0).unwrap().updated_at, 3);
    assert_eq!(dispatch(&mut db, false, &s, 1, 4), Ok(DispatchDecision::GlobalLimit));
    assert_eq!(db.get(1).unwrap().status, CrawlStatus::Queued);
    assert_eq!(db.get(1).unwrap().updated_at, 1);
}

#[test]
fn dispatch_of_unknown_task_is_not_found() {
    let s = settings(Limit::Infinite, Limit::Finite(1), Limit::Finite(5));
    let mut db = store(&["https://a.com/1"], &s);
    assert_eq!(dispatch(&mut db, false, &s, 7, 2), Err(CrawlError::NotFound));
    assert_eq!(may_dispatch(&db, false, &s, 1), Err(CrawlError::NotFound));
    assert_eq!(report(&mut db, 7, FetchOutcome::Failed, 2), Err(CrawlError::NotFound));
}

#[test]
fn dispatch_never_requeues_or_restarts() {
    let s = settings(Limit::Infinite, Limit::Finite(5), Limit::Finite(5));
    let mut db = store(&["https://a.com/1"], &s);
    assert_eq!(dispatch(&mut db, false, &s, 0, 2), Ok(DispatchDecision::Approved));
    assert_eq!(dispatch(&mut db, false, &s, 0, 3), Ok(DispatchDecision::NotQueued));
    assert_eq!(db.get(0).unwrap().updated_at, 2);
    assert_eq!(report(&mut db, 0, FetchOutcome::Failed, 4), Ok(Settlement::Failed));
    assert_eq!(db.get(0).unwrap().status, CrawlStatus::Failed);
    assert_eq!(dispatch(&mut db, false, &s, 0, 5), Ok(DispatchDecision::NotQueued));
    assert_eq!(report(&mut db, 0, FetchOutcome::Fetched, 6), Ok(Settlement::NotInFlight));
    assert_eq!(db.get(0).unwrap().status, CrawlStatus::Failed);
    assert_eq!(db.get(0).unwrap().updated_at, 4);
}

#[test]
fn report_of_queued_task_changes_nothing() {
    let s = settings(Limit::Infinite, Limit::Finite(5), Limit::Finite(5));
    let mut db = store(&["https://a.com/1"], &s);
    assert_eq!(report(&mut db, 0, FetchOutcome::Fetched, 4), Ok(Settlement::NotInFlight));
    assert_eq!(db.get(0).unwrap().status, CrawlStatus::Queued);
    assert_eq!(db.get(0).unwrap().updated_at, 1);
}

#[test]
fn failed_fetch_leaves_other_tasks_alone() {
    let s = settings(Limit::Infinite, Limit::Finite(5), Limit::Finite(5));
    let mut db = store(&["https://a.com/1", "https://a.com/2", "https://b.com/1"], &s);
    let started = turn(&mut db, false, &s, 2);
    assert_eq!(started.len(), 3);
    assert_eq!(report(&mut db, 1, FetchOutcome::Failed, 3), Ok(Settlement::Failed));
    let rows = db.list();
    assert_eq!(rows[0].status, CrawlStatus::Processing);
    assert_eq!(rows[0].updated_at, 2);
    assert_eq!(rows[1].status, CrawlStatus::Failed);
    assert_eq!(rows[1].updated_at, 3);
    assert_eq!(rows[2].status, CrawlStatus::Processing);
    assert_eq!(rows[2].updated_at, 2);
}

#[test]
fn turn_respects_both_limits() {
    let s = settings(Limit::Infinite, Limit::Finite(3), Limit::Finite(1));
    let mut db = store(
        &[
            "https://a.com/1",
            "https://a.com/2",
            "https://b.com/1",
            "https://c.com/1",
            "https://d.com/1",
        ],
        &s,
    );
    let started = turn(&mut db, false, &s, 2);
    let ids: Vec<u64> = started.iter().map(|t| t.id).collect();
    assert_eq!(ids, vec![0, 2]);
    assert!(started.iter().all(|t| t.status == CrawlStatus::Processing && t.updated_at == 2));
    assert_eq!(db.count_by_status(CrawlStatus::Processing), 2);
    let started = turn(&mut db, false, &s, 3);
    let ids: Vec<u64> = started.iter().map(|t| t.id).collect();
    assert_eq!(ids, vec![3]);
    assert_eq!(db.count_by_status(CrawlStatus::Processing), 3);
    assert_eq!(db.inflight_for_domain("a.com"), 1);
    assert!(turn(&mut db, false, &s, 4).is_empty());
    assert_eq!(db.count_by_status(CrawlStatus::Processing), 3);
    assert_eq!(report(&mut db, 0, FetchOutcome::Fetched, 5), Ok(Settlement::Completed));
    let started = turn(&mut db, false, &s, 6);
    let ids: Vec<u64> = started.iter().map(|t| t.id).collect();
    assert_eq!(ids, vec![1]);
}

#[test]
fn paused_turns_start_nothing() {
    let s = settings(Limit::Infinite, Limit::Finite(3), Limit::Finite(1));
    let mut db = store(&["https://a.com/1", "https://b.com/1"], &s);
    assert_eq!(dispatch(&mut db, false, &s, 0, 2), Ok(DispatchDecision::Approved));
    for now in 3..20 {
        assert!(turn(&mut db, true, &s, now).is_empty());
        assert_eq!(db.count_by_status(CrawlStatus::Processing), 1);
        assert_eq!(db.count_by_status(CrawlStatus::Queued), 1);
    }
    assert_eq!(db.get(1).unwrap().updated_at, 1);
}

#[test]
fn run_turn_reads_the_pause_flag() {
    let config = Config::with_settings(settings(Limit::Infinite, Limit::Finite(3), Limit::Finite(1)));
    let mut state = AppState::new(&config);
    let batch = vec!["https://a.com/1".to_string()];
    enqueue_all(
        &mut state.db,
        &batch,
        &Vec::new(),
        &state.user_settings,
        &EnqueueSettings::default(),
        1,
    );
    state.set_paused(true);
    assert!(run_turn(&mut state, 2).is_empty());
    assert_eq!(state.db.count_by_status(CrawlStatus::Processing), 0);
    state.set_paused(false);
    assert_eq!(run_turn(&mut state, 3).len(), 1);
    assert_eq!(state.db.count_by_status(CrawlStatus::Processing), 1);
}

#[test]
fn racing_dispatches_overshoot_by_less_than_their_number() {
    let s = settings(Limit::Infinite, Limit::Finite(10), Limit::Finite(1));
    let mut db = store(&["https://a.com/1", "https://a.com/2", "https://a.com/3"], &s);
    // Three dispatches decide on the same rows before any of them moves its task.
    let decisions: Vec<DispatchDecision> =
        (0..3).map(|id| may_dispatch(&db, false, &s, id).unwrap()).collect();
    assert_eq!(decisions, vec![DispatchDecision::Approved; 3]);
    for id in 0..3 {
        db.transition(id, CrawlStatus::Processing, 2).unwrap();
    }
    let inflight = db.inflight_for_domain("a.com");
    assert_eq!(inflight, 3);
    assert!(inflight < 1 + 3);
}
