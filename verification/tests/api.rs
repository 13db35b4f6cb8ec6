use spyglass::api::route::{
    _get_current_status, add_queue, app_stats, list_queue, search_lenses, toggle_pause,
};
use spyglass::config::{Config, Lens, Limit, UserSettings};
use spyglass::crawler::{dispatch, DispatchDecision};
use spyglass::error::CrawlError;
use spyglass::models::crawl_queue::{CrawlStatus, CrawlType};
use spyglass::request::{QueueItemParam, SearchLensesParam};
use spyglass::response::AppStatus;
use spyglass::state::{flag_text, AppState};

fn lens(name: &str, description: Option<&str>) -> Lens {
    Lens {
        name: name.to_string(),
        author: "someone".to_string(),
        description: description.map(|d| d.to_string()),
        domains: vec![format!("{}.example.com", name)],
        urls: Vec::new(),
        version: "1".to_string(),
    }
}

fn state_with(lenses: Vec<Lens>) -> AppState {
    let mut config = Config::with_settings(UserSettings::default());
    for l in lenses {
        config.insert_lens(l);
    }
    AppState::new(&config)
}

fn item(url: &str) -> QueueItemParam {
    QueueItemParam { url: url.to_string() }
}

#[test]
fn new_state_runs_with_an_empty_queue() {
    let state = state_with(Vec::new());
    assert!(!state.is_paused());
    assert_eq!(state.db.len(), 0);
    assert!(state.list_lenses().is_empty());
    assert_eq!(state.user_settings.inflight_crawl_limit, Limit::Finite(10));
    assert_eq!(state.user_settings.block_list, vec!["web.archive.org".to_string()]);
}

#[test]
fn new_state_can_start_paused() {
    let mut settings = UserSettings::default();
    settings.pause_at_start = true;
    let state = AppState::new(&Config::with_settings(settings));
    assert!(state.is_paused());
    assert_eq!(
        app_stats(&state, 0),
        AppStatus { num_docs: 0, num_queued: 0, num_in_progress: 0, is_paused: true }
    );
}

#[test]
fn new_state_holds_the_lenses_by_name() {
    let state = state_with(vec![lens("wiki", Some("old")), lens("rust", None), lens("wiki", Some("new"))]);
    let mut listed: Vec<(String, Option<String>)> =
        state.list_lenses().into_iter().map(|(key, l)| (key, l.description)).collect();
    listed.sort();
    assert_eq!(
        listed,
        vec![("rust".to_string(), None), ("wiki".to_string(), Some("new".to_string()))]
    );
}

#[test]
fn flag_text_spells_booleans() {
    assert_eq!(flag_text(true), "true");
    assert_eq!(flag_text(false), "false");
}

#[test]
fn set_paused_only_touches_the_flag() {
    let mut state = state_with(vec![lens("wiki", None)]);
    add_queue(&mut state, &item("https://a.com/"), 1).unwrap();
    state.set_paused(true);
    assert!(state.is_paused());
    assert_eq!(state.db.len(), 1);
    assert_eq!(state.list_lenses().len(), 1);
    state.set_paused(true);
    assert!(state.is_paused());
    state.set_paused(false);
    assert!(!state.is_paused());
}

#[test]
fn scenario_toggle_pause_twice() {
    let mut state = state_with(Vec::new());
    let before = state.is_paused();
    let first = toggle_pause(&mut state, 3);
    assert_eq!(first.is_paused, !before);
    assert_eq!(state.is_paused(), !before);
    assert_eq!(app_stats(&state, 3).is_paused, !before);
    let second = toggle_pause(&mut state, 3);
    assert_eq!(second.is_paused, before);
    assert_eq!(state.is_paused(), before);
    assert_eq!(app_stats(&state, 3).is_paused, before);
}

#[test]
fn app_stats_counts_the_queue() {
    let mut state = state_with(Vec::new());
    for url in ["https://a.com/1", "https://b.com/1", "https://c.com/1"] {
        assert_eq!(add_queue(&mut state, &item(url), 1), Ok("ok".to_string()));
    }
    let settings = state.user_settings.clone();
    assert_eq!(dispatch(&mut state.db, false, &settings, 0, 2), Ok(DispatchDecision::Approved));
    assert_eq!(
        app_stats(&state, 42),
        AppStatus { num_docs: 42, num_queued: 2, num_in_progress: 1, is_paused: false }
    );
    assert_eq!(_get_current_status(&state, 42), app_stats(&state, 42));
}

#[test]
fn app_stats_shows_nothing_in_progress_while_paused() {
    let mut state = state_with(Vec::new());
    add_queue(&mut state, &item("https://a.com/1"), 1).unwrap();
    let settings = state.user_settings.clone();
    dispatch(&mut state.db, false, &settings, 0, 2).unwrap();
    let paused = toggle_pause(&mut state, 7);
    assert_eq!(
        paused,
        AppStatus { num_docs: 7, num_queued: 0, num_in_progress: 0, is_paused: true }
    );
    assert_eq!(state.db.count_by_status(CrawlStatus::Processing), 1);
    let running = toggle_pause(&mut state, 7);
    assert_eq!(
        running,
        AppStatus { num_docs: 7, num_queued: 0, num_in_progress: 1, is_paused: false }
    );
}

#[test]
fn add_queue_goes_through_the_enqueue_rules() {
    let mut state = state_with(Vec::new());
    assert_eq!(add_queue(&mut state, &item("HTTPS://A.com/x/../y"), 5), Ok("ok".to_string()));
    let queue = list_queue(&state).queue;
    assert_eq!(queue.len(), 1);
    assert_eq!(queue[0].url, "https://a.com/y");
    assert_eq!(queue[0].domain, "a.com");
    assert_eq!(queue[0].crawl_type, CrawlType::Normal);
    assert_eq!(queue[0].status, CrawlStatus::Queued);
    assert_eq!(queue[0].created_at, 5);
    // a duplicate and a blocked domain are skipped without an error
    assert_eq!(add_queue(&mut state, &item("https://a.com/y"), 6), Ok("ok".to_string()));
    assert_eq!(add_queue(&mut state, &item("https://web.archive.org/"), 7), Ok("ok".to_string()));
    assert_eq!(list_queue(&state).queue.len(), 1);
}

#[test]
fn add_queue_refuses_malformed_urls() {
    let mut state = state_with(Vec::new());
    assert_eq!(add_queue(&mut state, &item("not a url"), 5), Err(CrawlError::InvalidUrl));
    assert_eq!(add_queue(&mut state, &item("mailto:a@b.c"), 5), Err(CrawlError::InvalidUrl));
    assert!(list_queue(&state).queue.is_empty());
}

#[test]
fn add_queue_works_while_paused() {
    let mut state = state_with(Vec::new());
    toggle_pause(&mut state, 0);
    assert_eq!(add_queue(&mut state, &item("https://a.com/"), 5), Ok("ok".to_string()));
    assert_eq!(app_stats(&state, 0).num_queued, 1);
}

#[test]
fn search_lenses_matches_by_prefix() {
    let state = state_with(vec![
        lens("wiki", Some("Wikis")),
        lens("wikipedia", None),
        lens("rust", Some("Rust docs")),
    ]);
    let find = |query: &str| {
        let mut found: Vec<(String, String)> =
            search_lenses(&state, &SearchLensesParam { query: query.to_string() })
                .results
                .into_iter()
                .map(|r| (r.title, r.description))
                .collect();
        found.sort();
        found
    };
    assert_eq!(
        find("wiki"),
        vec![("wiki".to_string(), "Wikis".to_string()), ("wikipedia".to_string(), String::new())]
    );
    assert_eq!(find("wikip"), vec![("wikipedia".to_string(), String::new())]);
    assert_eq!(find("").len(), 3);
    assert!(find("iki").is_empty());
    assert!(find("wikipedia2").is_empty());
    assert!(find("Wiki").is_empty());
}

fn flags(state: &AppState) -> Vec<(String, String)> {
    let mut all: Vec<(String, String)> =
        state.app_state.iter().map(|e| (e.key().clone(), e.value().clone())).collect();
    all.sort();
    all
}

#[test]
fn new_state_has_one_flag() {
    let state = state_with(Vec::new());
    assert_eq!(flags(&state), vec![("paused".to_string(), "false".to_string())]);
    let mut settings = UserSettings::default();
    settings.pause_at_start = true;
    let state = AppState::new(&Config::with_settings(settings));
    assert_eq!(flags(&state), vec![("paused".to_string(), "true".to_string())]);
}

#[test]
fn toggle_pause_writes_the_flag_as_text() {
    let mut state = state_with(Vec::new());
    toggle_pause(&mut state, 0);
    assert_eq!(flags(&state), vec![("paused".to_string(), "true".to_string())]);
    toggle_pause(&mut state, 0);
    assert_eq!(flags(&state), vec![("paused".to_string(), "false".to_string())]);
}

#[test]
fn toggle_pause_leaves_other_flags_alone() {
    let mut state = state_with(Vec::new());
    state.app_state.insert("theme".to_string(), "dark".to_string());
    toggle_pause(&mut state, 0);
    assert_eq!(
        flags(&state),
        vec![
            ("paused".to_string(), "true".to_string()),
            ("theme".to_string(), "dark".to_string())
        ]
    );
}

#[test]
fn toggle_pause_reads_anything_but_true_as_running() {
    let mut state = state_with(Vec::new());
    state.app_state.insert("paused".to_string(), "yes".to_string());
    assert!(!state.is_paused());
    let status = toggle_pause(&mut state, 0);
    assert!(status.is_paused);
    assert_eq!(flags(&state), vec![("paused".to_string(), "true".to_string())]);
}
