use spyglass::config::{Limit, UserSettings};

#[test]
fn limit_value_of_each_variant() {
    assert_eq!(Limit::Infinite.value(), u32::MAX);
    assert_eq!(Limit::Finite(7).value(), 7);
    assert_eq!(Limit::Finite(0).value(), 0);
}

#[test]
fn limit_default_is_one_hundred() {
    assert_eq!(Limit::default(), Limit::Finite(100));
}

#[test]
fn user_settings_defaults() {
    let settings = UserSettings::default();
    assert_eq!(settings.domain_crawl_limit, Limit::Finite(1000));
    assert_eq!(settings.inflight_crawl_limit, Limit::Finite(10));
    assert_eq!(settings.inflight_domain_limit, Limit::Finite(2));
    assert!(!settings.run_wizard);
    assert!(!settings.pause_at_start);
    assert!(settings.allow_list.is_empty());
    assert_eq!(settings.block_list, vec!["web.archive.org".to_string()]);
    assert_eq!(settings.shortcut, "CmdOrCtrl+Shift+/");
    assert_eq!(UserSettings::default_shortcut(), "CmdOrCtrl+Shift+/");
}
