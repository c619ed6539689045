use jira::json::parse_json;
use jira::plugins::{
    is_bundled_plugin, is_start_plugin, json_field, lua_config_dir, lua_package_path, plugins_path, sync_message,
    PluginInstallSummary,
};

#[test]
fn only_start_scripts_run_at_start_up() {
    assert!(is_start_plugin("start_alpha.lua"));
    assert!(!is_start_plugin("alpha.lua"));
    assert!(!is_start_plugin("start_alpha.txt"));
    assert!(is_bundled_plugin("utils.lua"));
    assert!(!is_bundled_plugin("README.md"));
}

#[test]
fn plugin_and_config_folders() {
    assert_eq!(plugins_path(Some("/home/me")), "/home/me/plugins");
    assert_eq!(plugins_path(None), "plugins");
    assert_eq!(lua_config_dir(Some("/home/me")), "/home/me/.config/jira");
    assert_eq!(lua_config_dir(None), ".config");
    assert_eq!(lua_package_path("/c", "./?.lua"), "/c/?.lua;/c/?/init.lua;./?.lua");
}

#[test]
fn installing_counts_copied_and_skipped_files() {
    let mut summary = PluginInstallSummary::new();
    assert!(summary.record(false));
    assert!(!summary.record(true));
    assert!(summary.record(false));
    assert_eq!(summary, PluginInstallSummary { copied: 2, skipped: 1 });
    assert_eq!(
        sync_message("/home/me/plugins", summary),
        "Bundled plugins synced to /home/me/plugins (copied: 2, skipped: 1)."
    );
}

#[test]
fn json_fields_are_found_by_trimmed_name() {
    let parsed = parse_json(r#"{"customfield_10006":5,"fields":{"summary":"Test"}}"#).unwrap();
    assert_eq!(json_field(&parsed, " customfield_10006 ").unwrap().as_u64(), Some(5));
    assert_eq!(json_field(&parsed, "  ").unwrap_err(), "JSON field cannot be empty");
    assert_eq!(json_field(&parsed, "nope").unwrap_err(), "JSON field not found: nope");
}
