use std::cell::RefCell;
use std::collections::HashMap;

use jira::api::JiraApi;
use jira::assign::DefaultAssignService;
use jira::comments::{mention_text, replace_matches, DefaultCommentsService};
use jira::config::config_text;
use jira::fields::DefaultFieldsService;
use jira::json::{parse_json, Json};
use jira::lists::{pbis_of_search, search_endpoint, DefaultListService, ListFilter};
use jira::metadata::DefaultMetadataService;
use jira::raw::raw_text;
use jira::transitions::{parse_u16, project_code, DefaultTransitionService};
use jira::user::{ensure_account_id, DefaultCurrentUserService};

/// A fake Jira that answers from a table of texts and records what was
/// posted and put.
struct FakeJira {
    answers: HashMap<String, Result<String, String>>,
    sent: RefCell<Vec<(String, String, u8)>>,
}

impl FakeJira {
    fn new(answers: &[(&str, Result<&str, &str>)]) -> Self {
        FakeJira {
            answers: answers
                .iter()
                .map(|(k, v)| (k.to_string(), v.map(|s| s.to_string()).map_err(|e| e.to_string())))
                .collect(),
            sent: RefCell::new(Vec::new()),
        }
    }

    fn answer(&self, key: &str) -> Result<String, String> {
        self.answers.get(key).cloned().unwrap_or_else(|| Err(format!("no answer for {key}")))
    }
}

impl JiraApi for FakeJira {
    fn get(&self, endpoint: &str, version: u8) -> Result<Json, String> {
        self.answer(&format!("GET {version} {endpoint}")).map(|t| parse_json(&t).expect("valid JSON"))
    }

    fn post(&self, endpoint: &str, body: Json, version: u8) -> Result<String, String> {
        self.sent.borrow_mut().push((format!("POST {endpoint}"), config_text(&body), version));
        self.answer(&format!("POST {version} {endpoint}"))
    }

    fn put(&self, endpoint: &str, body: Json, version: u8) -> Result<String, String> {
        self.sent.borrow_mut().push((format!("PUT {endpoint}"), config_text(&body), version));
        self.answer(&format!("PUT {version} {endpoint}"))
    }

    fn get_agile(&self, endpoint: &str) -> Result<Json, String> {
        self.answer(&format!("AGILE {endpoint}")).map(|t| parse_json(&t).expect("valid JSON"))
    }
}

fn doc(text: &str) -> Json {
    parse_json(text).unwrap()
}

#[test]
fn the_project_of_an_issue_key_is_its_prefix() {
    assert_eq!(project_code("PROJ-12"), "PROJ");
    assert_eq!(project_code("PROJ"), "PROJ");
    assert_eq!(project_code("-1"), "");
    let service = DefaultTransitionService::new(FakeJira::new(&[]));
    assert_eq!(service.get_project_code("ABC-7"), "ABC");
    assert_eq!(parse_u16("31"), Some(31));
    assert_eq!(parse_u16("+7"), Some(7));
    assert_eq!(parse_u16("65536"), None);
    assert_eq!(parse_u16("x"), None);
}

#[test]
fn fetched_transitions_are_stored_by_lowercased_name() {
    let api = FakeJira::new(&[(
        "GET 3 issue/PROJ-1/transitions",
        Ok(r#"{"transitions":[{"id":"11","name":"To Do"},{"id":"21","name":"In Progress"}]}"#),
    )]);
    let service = DefaultTransitionService::new(api);
    let mut config = doc("{}");

    let lines = service.transition_lines("PROJ-1", &mut config).unwrap();

    assert_eq!(lines, vec![
        "Allowed transitions for PROJ-1 are as below: ".to_string(),
        "- To Do".to_string(),
        "- In Progress".to_string(),
    ]);
    let stored = jira::config::get_transitions(&config, "PROJ");
    assert_eq!(stored.get("to do").and_then(|v| v.as_u16()), Some(11));
    assert_eq!(stored.get("in progress").and_then(|v| v.as_u16()), Some(21));
}

#[test]
fn a_transition_is_found_through_its_alias_and_posted() {
    let api = FakeJira::new(&[
        (
            "GET 3 issue/PROJ-1/transitions",
            Ok(r#"{"transitions":[{"id":"31","name":"Done"}]}"#),
        ),
        ("POST 3 issue/PROJ-1/transitions", Ok("")),
    ]);
    let service = DefaultTransitionService::new(api);
    let mut config = doc(r#"{"alias":{"finish":"DONE"}}"#);

    assert_eq!(service.get_transition_code("PROJ-1", "Finish", &mut config), Some(31));
    let message = service.move_ticket_status("PROJ-1", "finish", &mut config).unwrap();

    assert_eq!(message, "Successfully Completed ");
    let sent = service.jira_api.sent.borrow();
    assert_eq!(sent.len(), 1);
    assert_eq!(sent[0].0, "POST issue/PROJ-1/transitions");
    assert_eq!(sent[0].2, 3);
    assert!(sent[0].1.contains("\"transition\""));
    assert!(sent[0].1.contains("\"id\": 31"));
}

#[test]
fn an_unknown_transition_is_an_invalid_status() {
    let api = FakeJira::new(&[(
        "GET 3 issue/PROJ-1/transitions",
        Ok(r#"{"transitions":[{"id":"31","name":"Done"}]}"#),
    )]);
    let service = DefaultTransitionService::new(api);
    let mut config = doc("{}");

    assert_eq!(service.move_ticket_status("PROJ-1", "Rejected", &mut config), Err("Invalid status...".to_string()));
}

#[test]
fn without_transitions_the_listing_fails_and_nothing_is_stored() {
    let api = FakeJira::new(&[]);
    let service = DefaultTransitionService::new(api);
    let mut config = doc(r#"{"namespace":"x"}"#);

    assert_eq!(
        service.transition_lines("PROJ-1", &mut config),
        Err("Cannot find transitions for PROJ-1".to_string())
    );
    assert_eq!(config_text(&config), config_text(&doc(r#"{"namespace":"x"}"#)));
}

#[test]
fn assigning_puts_the_account_name_on_the_configured_version() {
    let api = FakeJira::new(&[("PUT 2 issue/PROJ-1/assignee", Ok(""))]);
    let service = DefaultAssignService::new(api);
    let config = doc(r#"{"jira-version":"2"}"#);

    assert_eq!(service.assign_task("PROJ-1", "abc", &config), Ok("Successfully Assigned".to_string()));
    let sent = service.jira_api.sent.borrow();
    assert_eq!(sent[0].0, "PUT issue/PROJ-1/assignee");
    assert_eq!(sent[0].2, 2);
    assert!(sent[0].1.contains("\"name\": \"abc\""));
}

#[test]
fn a_failed_assignment_reports_an_error() {
    let service = DefaultAssignService::new(FakeJira::new(&[]));
    assert_eq!(
        service.assign_task("PROJ-1", "abc", &doc("{}")),
        Err("Error occurred While assigning the ticket.".to_string())
    );
}

#[test]
fn the_current_account_falls_back_from_assignee_to_reporter() {
    let api = FakeJira::new(&[
        ("GET 3 search?maxResults=1&jql=assignee+in+(currentUser())", Ok(r#"{"issues":[]}"#)),
        (
            "GET 3 search?maxResults=1&jql=reporter+in+(currentUser())",
            Ok(r#"{"issues":[{"fields":{"reporter":{"key":"me-1"}}}]}"#),
        ),
    ]);
    let service = DefaultCurrentUserService::new(api);
    assert_eq!(service.fetch_current_account_id(&doc("{}")), Some("me-1".to_string()));

    let mut config = doc(r#"{"account_id":""}"#);
    let message = ensure_account_id(&service, &mut config);
    assert_eq!(message, Some(Ok("Fetched account_id automatically: me-1".to_string())));
    assert_eq!(jira::config::get_config(&config, "account_id"), "me-1");

    assert_eq!(ensure_account_id(&service, &mut config), None);
}

#[test]
fn an_unknown_account_leaves_a_warning() {
    let service = DefaultCurrentUserService::new(FakeJira::new(&[]));
    let mut config = doc("{}");
    match ensure_account_id(&service, &mut config) {
        Some(Err(m)) => assert!(m.starts_with("Warning: account_id is not set")),
        other => panic!("unexpected {other:?}"),
    }
}

#[test]
fn a_user_search_selects_the_first_account() {
    let api = FakeJira::new(&[(
        "GET 3 user/search?query=ann",
        Ok(r#"[{"displayName":"Ann Lee","accountId":"a-1"},{"accountId":"a-2"}]"#),
    )]);
    let service = DefaultMetadataService::new(api);
    assert_eq!(
        service.get_account_id("ann", &doc("{}")),
        Ok(("Selecting user Ann Lee".to_string(), "a-1".to_string()))
    );

    let empty = DefaultMetadataService::new(FakeJira::new(&[("GET 3 user/search?query=bob", Ok("[]"))]));
    assert_eq!(
        empty.get_account_id("bob", &doc("{}")),
        Err("Cannot search for provided assignee user. ".to_string())
    );
}

#[test]
fn an_issue_type_is_found_ignoring_case() {
    let api = FakeJira::new(&[(
        "GET 3 issue/createmeta?projectKeys=P",
        Ok(r#"{"projects":[{"issuetypes":[{"name":"Bug","id":"1"}]},{"issuetypes":[{"name":"Story","id":"7"}]}]}"#),
    )]);
    let service = DefaultMetadataService::new(api);
    assert_eq!(service.get_issuetype_id("P", Some("story"), &doc("{}")), Ok(Some("7".to_string())));
    assert_eq!(service.get_issuetype_id("P", Some("epic"), &doc("{}")), Ok(None));
    assert_eq!(service.get_issuetype_id("P", None, &doc("{}")), Ok(None));
}

#[test]
fn fields_are_listed_with_padded_keys() {
    let api = FakeJira::new(&[(
        "GET 2 issue/P-1/editmeta",
        Ok(r#"{"fields":{"summary":{"name":"Summary"},"customfield_1":{"name":"Points"}}}"#),
    )]);
    let service = DefaultFieldsService::new(api);
    let lines = service.display_all_fields("P-1").unwrap();

    assert_eq!(lines[0], format!("{:35}: Field Header", "Key"));
    assert_eq!(lines[1], "-".repeat(65));
    assert_eq!(lines[2], format!("{:35}: {}", "summary", "Summary"));
    assert_eq!(lines[3], format!("{:35}: {}", "customfield_1", "Points"));
    assert_eq!(lines[4], "=".repeat(65));
    assert!(lines[5].contains("jira alias --add"));

    let missing = DefaultFieldsService::new(FakeJira::new(&[("GET 2 issue/P-2/editmeta", Ok("{}"))]));
    assert_eq!(missing.display_all_fields("P-2"), Err("Cannot fetch fields".to_string()));
}

#[test]
fn raw_json_is_printed_compact_or_indented() {
    let value = doc(r#"{"a":[1,2]}"#);
    assert_eq!(raw_text(&value, false), r#"{"a":[1,2]}"#);
    assert_eq!(raw_text(&value, true), "{\n  \"a\": [\n    1,\n    2\n  ]\n}");
}

#[test]
fn account_references_are_shown_with_stored_or_fetched_names() {
    let api = FakeJira::new(&[
        ("GET 2 user/?accountId=b-2", Ok(r#"{"displayName":"Bea"}"#)),
        (
            "GET 2 issue/P-1/comment",
            Ok(r#"{"total":1,"comments":[{"author":{"displayName":"Carl"},"body":"hi [~accountid:a-1] and [~accountid:b-2]!"}]}"#),
        ),
    ]);
    let service = DefaultCommentsService::new(api, DefaultMetadataService::new(FakeJira::new(&[])));
    let mut config = doc(r#"{"accounts":{"a-1":"Ann"}}"#);

    let lines = service.get_all_comments("P-1", &mut config).unwrap();

    assert_eq!(lines, vec![
        "Total 1 comment found. ".to_string(),
        "".to_string(),
        "Carl".to_string(),
        "hi @(Ann)  and @(Bea) !".to_string(),
        "\n".to_string(),
    ]);
    let accounts = config.get("accounts").unwrap();
    assert_eq!(accounts.get("b-2").and_then(|v| v.as_string()), Some("Bea".to_string()));
}

#[test]
fn an_unknown_account_is_shown_by_its_id() {
    let api = FakeJira::new(&[(
        "GET 2 issue/P-1/comment",
        Ok(r#"{"total":1,"comments":[{"created":"2026-03-09T09:05:00.000+0000","body":"see [~accountid:zz]"}]}"#),
    )]);
    let service = DefaultCommentsService::new(api, DefaultMetadataService::new(FakeJira::new(&[])));
    let mut config = doc("{}");

    let lines = service.get_all_comments("P-1", &mut config).unwrap();

    assert_eq!(lines[2], "");
    assert_eq!(lines[3], "( 9-Mar-2026 09:05:00 AM)");
    assert_eq!(lines[4], "============================\n");
    assert_eq!(lines[5], "see @([zz]) ");
}

#[test]
fn mentions_become_account_references() {
    assert_eq!(
        mention_text("ping @(ann) and @(bob)", &["a-1".to_string(), "".to_string()]),
        "ping [~accountid:a-1]  and [~accountid:] "
    );
    assert_eq!(replace_matches("x+", "axxbx", &["1".to_string(), "2".to_string()]), "a1b2");
    assert_eq!(replace_matches("(", "text", &[]), "text");
}

#[test]
fn a_new_comment_is_posted_with_account_references() {
    let api = FakeJira::new(&[(
        "POST 2 issue/P-1/comment",
        Ok(r#"{"author":{"displayName":"Me"},"body":"thanks [~accountid:a-1] "}"#),
    )]);
    let metadata = DefaultMetadataService::new(FakeJira::new(&[(
        "GET 3 user/search?query=ann",
        Ok(r#"[{"displayName":"Ann","accountId":"a-1"}]"#),
    )]));
    let service = DefaultCommentsService::new(api, metadata);
    let mut config = doc("{}");

    let lines = service.add_new_comment("P-1", "thanks @(ann)", &mut config).unwrap();

    assert_eq!(lines[0], "Selecting user Ann");
    assert_eq!(lines[1], "Successfully Added a new comment");
    assert_eq!(lines[2], "Me");
    let sent = service.jira_api.sent.borrow();
    assert!(sent[0].1.contains("thanks [~accountid:a-1] "));
}

#[test]
fn a_search_reads_the_issues_of_the_answer() {
    assert_eq!(
        search_endpoint(50, 0, "project = \"X\""),
        "search?maxResults=50&startAt=0&expand=changelog&jql=project = \"X\""
    );
    let api = FakeJira::new(&[(
        "GET 3 search?maxResults=0&startAt=0&expand=changelog&jql=",
        Ok(r#"{"issues":[{"key":"X-1","fields":{"summary":"S"}}]}"#),
    )]);
    let service = DefaultListService::new(api);
    let issues = service.fetch_with_filter(&ListFilter::default(), &doc("{}")).unwrap();
    assert_eq!(issues.len(), 1);
    assert_eq!(issues[0].key, "X-1");
    assert_eq!(issues[0].status, "-");
    assert!(pbis_of_search(&doc(r#"{"issues":{}}"#)).is_empty());
}
