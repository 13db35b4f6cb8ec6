use spyglass::config::{Config, Lens, UserSettings};
use spyglass::error::CrawlError;
use spyglass::models::indexed_document;
use spyglass::models::indexed_document::DocumentTable;
use spyglass::models::lens::{add, LensTable};
use spyglass::models::{connect_options, create_connection};
use spyglass::paths::Folders;
use spyglass::text::{chars_of, copy_list, has_char, list_has, same_text, starts_with};

#[test]
fn test_create_connection() {
    let res = create_connection(true);
    assert!(res.is_ok());
    let options = res.unwrap();
    assert_eq!(options.uri, "sqlite::memory:");
    assert_eq!(options.max_connections, 5);
    assert!(!options.sqlx_logging);
}

#[test]
fn connection_to_the_data_folder() {
    let options = connect_options(false, "/home/u/.local/share/carto");
    assert_eq!(options.uri, "sqlite:///home/u/.local/share/carto/db.sqlite?mode=rwc");
    assert_eq!(options.max_connections, 5);
    assert!(!options.sqlx_logging);
    assert_eq!(connect_options(true, "/anywhere").uri, "sqlite::memory:");
}

#[test]
fn connection_follows_the_located_data_folder() {
    match (create_connection(false), Config::data_dir()) {
        (Ok(options), Some(dir)) => {
            assert_eq!(options.uri, format!("sqlite://{}/db.sqlite?mode=rwc", dir));
        }
        (Err(e), None) => assert_eq!(e, CrawlError::StoreUnavailable),
        (a, b) => panic!("{:?} does not go with {:?}", a, b),
    }
}

#[test]
fn folders_are_laid_out_under_the_base_folders() {
    let folders = Folders { data: "/d".to_string(), prefs: "/p".to_string() };
    assert_eq!(folders.index_dir(), "/d/index");
    assert_eq!(folders.logs_dir(), "/d/logs");
    assert_eq!(folders.lenses_dir(), "/d/lenses");
    assert_eq!(folders.prefs_file(), "/p/settings.ron");
    assert_eq!(folders.db_file(), "/d/db.sqlite");
}

#[test]
fn config_folders_follow_the_located_base_folders() {
    match Folders::locate() {
        Some(folders) => {
            assert!(folders.data.ends_with("carto"));
            assert_eq!(Config::data_dir(), Some(folders.data.clone()));
            assert_eq!(Config::prefs_dir(), Some(folders.prefs.clone()));
            assert_eq!(Config::index_dir(), Some(format!("{}/index", folders.data)));
            assert_eq!(Config::logs_dir(), Some(format!("{}/logs", folders.data)));
            assert_eq!(Config::lenses_dir(), Some(format!("{}/lenses", folders.data)));
            assert_eq!(Config::prefs_file(), Some(format!("{}/settings.ron", folders.prefs)));
        }
        None => {
            assert_eq!(Config::data_dir(), None);
            assert_eq!(Config::prefs_dir(), None);
            assert_eq!(Config::index_dir(), None);
            assert_eq!(Config::logs_dir(), None);
            assert_eq!(Config::lenses_dir(), None);
            assert_eq!(Config::prefs_file(), None);
        }
    }
}

#[test]
fn default_lens_is_the_wiki_example() {
    let lens = Config::default_lens();
    assert_eq!(lens.name, "wiki");
    assert_eq!(lens.author, "Unknown");
    assert_eq!(
        lens.description.as_deref(),
        Some("Search through official user-supported wikis for knowledge, games, and more.")
    );
    assert_eq!(
        lens.domains,
        vec!["en.wikipedia.org", "oldschool.runescape.wiki", "wiki.factorio.com"]
    );
    assert!(lens.urls.is_empty());
    assert_eq!(lens.version, "1");
}

#[test]
fn insert_lens_replaces_one_of_the_same_name() {
    let lens = |name: &str, version: &str| Lens {
        name: name.to_string(),
        author: "a".to_string(),
        description: None,
        domains: Vec::new(),
        urls: Vec::new(),
        version: version.to_string(),
    };
    let mut config = Config::with_settings(UserSettings::default());
    assert!(config.lenses.is_empty());
    config.insert_lens(lens("wiki", "1"));
    config.insert_lens(lens("rust", "1"));
    config.insert_lens(lens("wiki", "2"));
    let listed: Vec<(&str, &str)> =
        config.lenses.iter().map(|l| (l.name.as_str(), l.version.as_str())).collect();
    assert_eq!(listed, vec![("wiki", "2"), ("rust", "1")]);
}

#[test]
fn lens_and_settings_clone_keep_every_field() {
    let lens = Config::default_lens();
    let copy = lens.clone();
    assert_eq!(copy.name, lens.name);
    assert_eq!(copy.author, lens.author);
    assert_eq!(copy.description, lens.description);
    assert_eq!(copy.domains, lens.domains);
    assert_eq!(copy.urls, lens.urls);
    assert_eq!(copy.version, lens.version);
    let mut settings = UserSettings::default();
    settings.allow_list = vec!["a.com".to_string()];
    settings.run_wizard = true;
    let copy = settings.clone();
    assert_eq!(copy.allow_list, settings.allow_list);
    assert_eq!(copy.block_list, settings.block_list);
    assert_eq!(copy.domain_crawl_limit, settings.domain_crawl_limit);
    assert_eq!(copy.inflight_crawl_limit, settings.inflight_crawl_limit);
    assert_eq!(copy.inflight_domain_limit, settings.inflight_domain_limit);
    assert_eq!(copy.shortcut, settings.shortcut);
    assert!(copy.run_wizard);
    assert!(!copy.pause_at_start);
}

#[test]
fn lens_add_is_true_only_for_new_names() {
    let mut table = LensTable::new();
    let author = "alice".to_string();
    let description = "all the wikis".to_string();
    assert!(add(&mut table, "wiki", Some(&author), Some(&description), "1"));
    assert!(!add(&mut table, "wiki", None, None, "2"));
    assert!(add(&mut table, "rust", None, None, "1"));
    assert_eq!(table.len(), 2);
    let wiki = table.get(0).unwrap();
    assert_eq!(wiki.id, 0);
    assert_eq!(wiki.name, "wiki");
    assert_eq!(wiki.author, "alice");
    assert_eq!(wiki.description.as_deref(), Some("all the wikis"));
    assert_eq!(wiki.version, "1");
    let rust = table.get(1).unwrap();
    assert_eq!(rust.id, 1);
    assert_eq!(rust.name, "rust");
    assert_eq!(rust.author, "Unknown");
    assert_eq!(rust.description, None);
    assert!(table.get(2).is_none());
    assert!(table.contains("wiki"));
    assert!(table.contains("rust"));
    assert!(!table.contains("Wiki"));
}

#[test]
fn indexed_document_is_stamped_on_creation() {
    let doc = indexed_document::Model::stamped(
        "a.com".to_string(),
        "https://a.com/".to_string(),
        "doc-1".to_string(),
        77,
    );
    assert_eq!(doc.id, 0);
    assert_eq!(doc.domain, "a.com");
    assert_eq!(doc.url, "https://a.com/");
    assert_eq!(doc.doc_id, "doc-1");
    assert_eq!(doc.created_at, 77);
    assert_eq!(doc.updated_at, 77);
}

#[test]
fn indexed_document_update_refreshes_updated_at() {
    let doc = indexed_document::Model::stamped(
        "a.com".to_string(),
        "https://a.com/".to_string(),
        "doc-1".to_string(),
        77,
    );
    let inserted = doc.before_save_at(true, 99);
    assert_eq!(inserted.updated_at, 77);
    let updated = inserted.before_save_at(false, 99);
    assert_eq!(updated.updated_at, 99);
    assert_eq!(updated.created_at, 77);
    assert_eq!(updated.doc_id, "doc-1");
}

#[test]
fn indexed_document_reads_the_clock() {
    // 2020-01-01, in seconds since the start of 1970
    let long_ago = 1_577_836_800;
    let doc = indexed_document::Model::new(
        "a.com".to_string(),
        "https://a.com/".to_string(),
        "doc-1".to_string(),
    );
    assert!(doc.created_at > long_ago);
    assert!(doc.updated_at >= doc.created_at);
    let old = indexed_document::Model::stamped(
        "a.com".to_string(),
        "https://a.com/".to_string(),
        "doc-1".to_string(),
        5,
    );
    let kept = old.before_save(true);
    assert_eq!(kept.updated_at, 5);
    let touched = kept.before_save(false);
    assert!(touched.updated_at > long_ago);
    assert_eq!(touched.created_at, 5);
}

#[test]
fn error_categories() {
    let all = [
        (CrawlError::InvalidUrl, "invalid_url", "the URL is malformed", false),
        (CrawlError::DuplicateTask, "duplicate_task", "the URL is already in the queue", false),
        (CrawlError::NotFound, "not_found", "no task has this id", true),
        (
            CrawlError::StoreUnavailable,
            "store_unavailable",
            "the task store cannot be reached",
            true,
        ),
        (
            CrawlError::SandboxViolation,
            "sandbox_violation",
            "the plugin's request was turned down",
            false,
        ),
        (CrawlError::FetchFailure, "fetch_failure", "the page could not be fetched", false),
    ];
    for (error, category, message, surfaces) in all {
        assert_eq!(error.category(), category);
        assert_eq!(error.message(), message);
        assert_eq!(error.surfaces(), surfaces);
    }
}

#[test]
fn text_helpers() {
    assert_eq!(chars_of("añb"), vec!['a', 'ñ', 'b']);
    assert!(chars_of("").is_empty());
    assert!(same_text("abc", "abc"));
    assert!(!same_text("abc", "abd"));
    assert!(!same_text("abc", "ab"));
    assert!(same_text("", ""));
    assert!(starts_with("wikipedia", "wiki"));
    assert!(starts_with("wiki", "wiki"));
    assert!(starts_with("wiki", ""));
    assert!(!starts_with("wik", "wiki"));
    assert!(!starts_with("wiki", "iki"));
    assert!(has_char("a/b", '/'));
    assert!(!has_char("ab", '/'));
    let list = vec!["a.com".to_string(), "b.com".to_string()];
    assert!(list_has(&list, "b.com"));
    assert!(!list_has(&list, "c.com"));
    assert!(!list_has(&Vec::new(), "a.com"));
    assert_eq!(copy_list(&list), list);
}

#[test]
fn document_table_keeps_one_record_per_page() {
    let mut table = DocumentTable::new();
    assert_eq!(table.len(), 0);
    assert!(table.find("https://a.com/").is_none());
    assert!(table.record("a.com", "https://a.com/", "doc-1", 10));
    assert!(table.record("a.com", "https://a.com/2", "doc-2", 11));
    assert!(!table.record("a.com", "https://a.com/", "doc-3", 12));
    assert_eq!(table.len(), 2);
    assert_eq!(table.position("https://a.com/"), Some(0));
    assert_eq!(table.position("https://a.com/2"), Some(1));
    assert_eq!(table.position("https://a.com/3"), None);
    let first = table.find("https://a.com/").unwrap();
    assert_eq!(first.id, 0);
    assert_eq!(first.domain, "a.com");
    assert_eq!(first.doc_id, "doc-3");
    assert_eq!(first.created_at, 10);
    assert_eq!(first.updated_at, 12);
    let second = table.find("https://a.com/2").unwrap();
    assert_eq!(second.id, 1);
    assert_eq!(second.doc_id, "doc-2");
    assert_eq!(second.created_at, 11);
    assert_eq!(second.updated_at, 11);
}

#[test]
fn config_folders_under_located_base_folders() {
    let located = Some(Folders { data: "/d/carto".to_string(), prefs: "/p/carto".to_string() });
    assert_eq!(Config::data_dir_in(&located), Some("/d/carto".to_string()));
    assert_eq!(Config::prefs_dir_in(&located), Some("/p/carto".to_string()));
    assert_eq!(Config::index_dir_in(&located), Some("/d/carto/index".to_string()));
    assert_eq!(Config::logs_dir_in(&located), Some("/d/carto/logs".to_string()));
    assert_eq!(Config::lenses_dir_in(&located), Some("/d/carto/lenses".to_string()));
    assert_eq!(Config::prefs_file_in(&located), Some("/p/carto/settings.ron".to_string()));
}

#[test]
fn config_folders_without_a_home_directory() {
    assert_eq!(Config::data_dir_in(&None), None);
    assert_eq!(Config::prefs_dir_in(&None), None);
    assert_eq!(Config::index_dir_in(&None), None);
    assert_eq!(Config::logs_dir_in(&None), None);
    assert_eq!(Config::lenses_dir_in(&None), None);
    assert_eq!(Config::prefs_file_in(&None), None);
}
