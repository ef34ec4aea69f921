//! Update bookkeeping and command-line decisions.

use syncback::cli::{Config, ConfigAction};
use syncback::updater::{
    check_for_updates, should_check_cli, status_or_default, update_templates, UpdateStatus,
    TEMPLATES_VERSION, UPDATE_CHECK_INTERVAL,
};

#[test]
fn checks_are_skipped_within_the_interval() {
    let status = UpdateStatus {
        last_checked: 10_000,
        plugin_version: "1.0.0".to_string(),
        templates_version: TEMPLATES_VERSION,
        vscode_version: "0.5.0".to_string(),
    };
    let plan = check_for_updates(&status, 10_000 + UPDATE_CHECK_INTERVAL - 1, true, true);
    assert!(!plan.proceed);
    assert!(!plan.check_plugin && !plan.check_templates && !plan.check_vscode);
    assert_eq!(plan.new_last_checked, 10_000);
}

#[test]
fn checks_run_after_the_interval_and_on_clock_skew() {
    let status = UpdateStatus {
        last_checked: 10_000,
        plugin_version: String::new(),
        templates_version: TEMPLATES_VERSION,
        vscode_version: String::new(),
    };
    let due = check_for_updates(&status, 10_000 + UPDATE_CHECK_INTERVAL, true, false);
    assert!(due.proceed);
    assert!(due.check_plugin);
    assert!(!due.check_templates);
    assert!(due.check_vscode);
    assert_eq!(due.new_last_checked, 10_000 + UPDATE_CHECK_INTERVAL);

    let skew = check_for_updates(&status, 9_999, false, false);
    assert!(skew.proceed);
}

#[test]
fn forced_cli_checks_ignore_the_interval() {
    let status = UpdateStatus {
        last_checked: 10_000,
        plugin_version: String::new(),
        templates_version: TEMPLATES_VERSION,
        vscode_version: String::new(),
    };
    assert!(should_check_cli(&status, 10_001, true));
    assert!(!should_check_cli(&status, 10_001, false));
}

#[test]
fn templates_update_when_outdated_or_forced() {
    let mut outdated = UpdateStatus {
        last_checked: 0,
        plugin_version: String::new(),
        templates_version: 0,
        vscode_version: String::new(),
    };
    assert!(update_templates(&mut outdated, false));
    assert_eq!(outdated.templates_version, TEMPLATES_VERSION);
    assert!(!update_templates(&mut outdated, false));
    assert!(update_templates(&mut outdated, true));
}

#[test]
fn a_corrupt_status_is_rebuilt_from_detection() {
    let repaired = status_or_default(None, "2.0.0".to_string(), Some("1.2.3".to_string()));
    assert_eq!(repaired.plugin_version, "2.0.0");
    assert_eq!(repaired.vscode_version, "1.2.3");
    assert_eq!(repaired.last_checked, 0);
    let fallback = status_or_default(None, "2.0.0".to_string(), None);
    assert_eq!(fallback.vscode_version, "0.0.0");
    let kept = status_or_default(
        Some(UpdateStatus {
            last_checked: 7,
            plugin_version: "x".to_string(),
            templates_version: 9,
            vscode_version: "y".to_string(),
        }),
        "ignored".to_string(),
        None,
    );
    assert_eq!(kept.last_checked, 7);
    assert_eq!(kept.templates_version, 9);
}

#[test]
fn default_status_uses_the_bundled_templates() {
    let d = UpdateStatus::default();
    assert_eq!(d.last_checked, 0);
    assert_eq!(d.templates_version, TEMPLATES_VERSION);
    assert_eq!(d.plugin_version, "");
}

#[test]
fn configuration_arguments_decide_the_action() {
    let list = Config {
        setting: Some("ignored".to_string()),
        value: None,
        list: true,
    };
    assert!(matches!(list.plan(), ConfigAction::List));

    let set = Config {
        setting: Some("rojo_mode".to_string()),
        value: Some("true".to_string()),
        list: false,
    };
    match set.plan() {
        ConfigAction::SetValue { setting, value } => {
            assert_eq!(setting, "rojo_mode");
            assert_eq!(value, "true");
        }
        other => panic!("unexpected action {:?}", other),
    }

    let reset = Config {
        setting: Some("rojo_mode".to_string()),
        value: None,
        list: false,
    };
    assert!(matches!(reset.plan(), ConfigAction::ResetToDefault { .. }));

    let open = Config {
        setting: None,
        value: None,
        list: false,
    };
    assert!(matches!(open.plan(), ConfigAction::OpenEditor));
}
