use jira::config::{
    config_text, get_alias, get_alias_or, get_config, get_config_or, get_transitions, list_all_alias, new_configuration,
    parse_config, remove_alias, set_alias, set_transitions, transition_exists, update_config, JiraConfig,
};
use jira::json::{parse_json, Json};
use jira::subcommands::config::{handle, mask_token, parse_jira_version, show_config, ConfigOutcome};

fn doc(text: &str) -> Json {
    parse_json(text).unwrap()
}

#[test]
fn an_updated_setting_reads_back() {
    let mut config = doc(r#"{"namespace":"a"}"#);
    update_config(&mut config, "board-id", "42");
    assert_eq!(get_config(&config, "board-id"), "42");
    assert_eq!(get_config(&config, "namespace"), "a");
    assert_eq!(get_config(&config, "missing"), "");
    assert_eq!(get_config_or(&config, "missing", "x"), "x");
}

#[test]
fn an_alias_reads_back_case_insensitively_until_removed() {
    let mut config = doc("{}");
    set_alias(&mut config, "WIP", "In Progress");
    assert_eq!(get_alias(&config, "wip"), Some("In Progress".to_string()));
    assert_eq!(get_alias_or(&config, "Wip"), "In Progress");
    assert_eq!(get_alias_or(&config, "other"), "other");
    assert_eq!(list_all_alias(&config), vec![("wip".to_string(), "In Progress".to_string())]);

    let message = remove_alias(&mut config, "wip");
    assert_eq!(message, "Removing alias (wip) with value: In Progress");
    assert_eq!(get_alias(&config, "wip"), None);

    // The value is shown for the name as typed; the lowercased name is removed.
    set_alias(&mut config, "WIP", "In Progress");
    let message = remove_alias(&mut config, "WIP");
    assert_eq!(message, "Removing alias (WIP) with value: null");
    assert_eq!(get_alias(&config, "wip"), None);
}

#[test]
fn transitions_read_back_per_project() {
    let mut config = doc("{}");
    set_transitions(&mut config, "PROJ", doc(r#"{"done":31}"#));
    assert!(transition_exists(&config, "PROJ", "done"));
    assert!(!transition_exists(&config, "PROJ", "todo"));
    assert!(!transition_exists(&config, "OTHER", "done"));
    assert_eq!(config_text(&get_transitions(&config, "PROJ")), config_text(&doc(r#"{"done":31}"#)));
}

#[test]
fn the_configuration_file_is_written_with_four_spaces() {
    assert_eq!(config_text(&doc(r#"{"a":"b"}"#)), "{\n    \"a\": \"b\"\n}");
    assert!(parse_config("not json").is_none());
}

#[test]
fn the_first_configuration_encodes_basic_credentials() {
    let basic = new_configuration(" example.atlassian.net \n", "1", " me@x.org ", " secret \n");
    assert_eq!(get_config(&basic, "namespace"), "example.atlassian.net");
    assert_eq!(get_config(&basic, "email"), "me@x.org");
    assert_eq!(get_config(&basic, "token"), "bWVAeC5vcmc6c2VjcmV0");
    assert_eq!(get_config(&basic, "auth_mode"), "Basic");
    assert_eq!(get_config(&basic, "account_id"), "");

    let bearer = new_configuration("h", " 2 ", "ignored", " tok ");
    assert_eq!(get_config(&bearer, "email"), "");
    assert_eq!(get_config(&bearer, "token"), "tok");
    assert_eq!(get_config(&bearer, "auth_mode"), "Bearer");
}

#[test]
fn jira_versions_are_read_in_any_spelling() {
    assert_eq!(parse_jira_version("2"), Some("2"));
    assert_eq!(parse_jira_version("V3"), Some("3"));
    assert_eq!(parse_jira_version("v2"), Some("2"));
    assert_eq!(parse_jira_version("4"), None);
}

#[test]
fn tokens_show_only_their_last_four_characters() {
    assert_eq!(mask_token("abc"), "***");
    assert_eq!(mask_token("abcd"), "****");
    assert_eq!(mask_token("abcdefgh"), "********\u{2026}efgh");
}

#[test]
fn the_config_command_sets_known_keys_only() {
    let mut config = doc("{}");
    match handle(&mut config, false, Some("jira-version"), Some("V2")) {
        ConfigOutcome::Updated(lines) => assert_eq!(lines, vec!["Jira API version set to 2.".to_string()]),
        _ => panic!("expected an update"),
    }
    assert_eq!(get_config(&config, "jira-version"), "2");
    match handle(&mut config, false, Some("board-id"), Some("7")) {
        ConfigOutcome::Updated(lines) => assert_eq!(lines.len(), 2),
        _ => panic!("expected an update"),
    }
    match handle(&mut config, false, Some("colour"), Some("red")) {
        ConfigOutcome::Failed(m) => assert_eq!(m, "Unknown config key 'colour'."),
        _ => panic!("expected a failure"),
    }
    match handle(&mut config, false, Some("jira-version"), Some("9")) {
        ConfigOutcome::Failed(m) => assert_eq!(m, "Invalid jira-version '9'. Accepted values: 2, 3."),
        _ => panic!("expected a failure"),
    }
    match handle(&mut config, false, Some("board-id"), None) {
        ConfigOutcome::Failed(m) => assert_eq!(m, "VALUE is required when setting a config key."),
        _ => panic!("expected a failure"),
    }
    assert!(matches!(handle(&mut config, true, None, None), ConfigOutcome::Show));
}

#[test]
fn the_shown_configuration_lists_aliases_and_transitions_sorted() {
    let config = JiraConfig::load(&doc(
        r#"{"namespace":"n","email":"e","token":"abcdefgh","account_id":"a",
            "alias":{"zeta":"Z","alpha":"A","num":3},
            "transitions":{"QA":{"done":2,"bad":"x"},"AB":{"todo":1,"close":5}}}"#,
    ));
    let lines = show_config(&config, "/home/me/.config/jira/configuration.json");
    let expected = vec![
        format!("{:<20} {}", "namespace:", "n"),
        format!("{:<20} {}", "email:", "e"),
        format!("{:<20} {}", "auth_mode:", "Basic"),
        format!("{:<20} {}", "account-id:", "a"),
        format!("{:<20} {}", "board-id:", ""),
        format!("{:<20} {}", "jira-version:", ""),
        format!("{:<20} {}", "token:", "********\u{2026}efgh"),
        "alias:".to_string(),
        format!("  {:<18} {}", "alpha", "A"),
        format!("  {:<18} {}", "zeta", "Z"),
        "transitions:".to_string(),
        "  AB:".to_string(),
        format!("    {:<16} {}", "close", 5),
        format!("    {:<16} {}", "todo", 1),
        "  QA:".to_string(),
        format!("    {:<16} {}", "done", 2),
        format!("{:<20} {}", "config file:", "/home/me/.config/jira/configuration.json"),
    ];
    assert_eq!(lines, expected);
}

#[test]
fn an_empty_configuration_shows_none() {
    let lines = show_config(&JiraConfig::default(), "c.json");
    assert_eq!(lines[7], format!("{:<20} (none)", "alias:"));
    assert_eq!(lines[8], format!("{:<20} (none)", "transitions:"));
    assert_eq!(lines[2], format!("{:<20} {}", "auth_mode:", "Basic"));
}

#[test]
fn str_cap_upper_cases_the_first_letter_only() {
    assert_eq!(jira::config::str_cap("basic".to_string()), "Basic");
    assert_eq!(jira::config::str_cap("bearer token".to_string()), "Bearer token");
    assert_eq!(jira::config::str_cap("X".to_string()), "X");
    assert_eq!(jira::config::str_cap("1abc".to_string()), "1abc");
}

#[test]
fn the_account_id_named_by_the_hint_is_stored() {
    let mut config = doc(r#"{"account_id":""}"#);
    match handle(&mut config, false, Some("account_id"), Some("abc123")) {
        ConfigOutcome::Updated(lines) => assert_eq!(lines, vec!["Account ID updated to abc123".to_string()]),
        _ => panic!("expected an update"),
    }
    assert_eq!(get_config(&config, "account_id"), "abc123");
    assert_eq!(JiraConfig::load(&config).account_id, "abc123");
}

#[test]
fn basic_credentials_are_padded_base64() {
    // "a:b" has three bytes, "ab:c" four and "ab:cd" five.
    assert_eq!(get_config(&new_configuration("h", "1", "a", "b"), "token"), "YTpi");
    assert_eq!(get_config(&new_configuration("h", "1", "ab", "c"), "token"), "YWI6Yw==");
    assert_eq!(get_config(&new_configuration("h", "1", "ab", "cd"), "token"), "YWI6Y2Q=");
}
