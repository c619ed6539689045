use std::collections::HashMap;

use jira::json::{parse_json, Json};
use jira::api::JiraApi;
use jira::sprint::{active_sprint_endpoint, sprint_issues_endpoint, DefaultSprintService};

fn agile_key(endpoint: &str) -> String {
    format!("agile:{endpoint}")
}

fn api_key(version: u8, endpoint: &str) -> String {
    format!("api:{version}:{endpoint}")
}

struct JiraFakeGateway {
    responses: HashMap<String, String>,
}

impl JiraFakeGateway {
    fn new(responses: HashMap<String, String>) -> Self {
        Self { responses }
    }

    fn response(&self, key: &str) -> Result<Json, String> {
        match self.responses.get(key) {
            Some(text) => Ok(parse_json(text).expect("fake responses are valid JSON")),
            None => Err(format!("missing fake Jira response for key '{key}'")),
        }
    }
}

impl JiraApi for JiraFakeGateway {
    fn get(&self, endpoint: &str, version: u8) -> Result<Json, String> {
        self.response(&api_key(version, endpoint))
    }

    fn post(&self, endpoint: &str, _body: Json, version: u8) -> Result<String, String> {
        Err(format!("POST is not faked for api:{version}:{endpoint}"))
    }

    fn put(&self, endpoint: &str, _body: Json, version: u8) -> Result<String, String> {
        Err(format!("PUT is not faked for api:{version}:{endpoint}"))
    }

    fn get_agile(&self, endpoint: &str) -> Result<Json, String> {
        self.response(&agile_key(endpoint))
    }
}

fn active_sprint_response() -> String {
    r#"{
        "values": [
            {
                "id": 42,
                "name": "Platform Sprint",
                "goal": "Ship the sprint fetch refactor",
                "endDate": "2026-03-20T10:30:00.000Z"
            }
        ]
    }"#
    .to_string()
}

fn sprint_issues_response() -> String {
    r#"{
        "issues": [
            {
                "key": "JIRA-2",
                "fields": {
                    "summary": "Blocked item",
                    "status": { "name": "Blocked" },
                    "assignee": { "displayName": "Taylor" },
                    "issuetype": { "name": "Bug" },
                    "description": "Needs input",
                    "priority": { "name": "High" },
                    "story_points": 5.0,
                    "labels": ["backend", "urgent"],
                    "resolutiondate": null
                },
                "changelog": {
                    "histories": []
                }
            },
            {
                "key": "JIRA-1",
                "fields": {
                    "summary": "Closed item",
                    "status": { "name": "Closed" },
                    "assignee": { "displayName": "Alex" },
                    "issuetype": { "name": "Story" },
                    "description": "All done",
                    "priority": { "name": "Medium" },
                    "story_points": 3.0,
                    "labels": ["frontend"],
                    "resolutiondate": "2026-03-10T09:00:00.000+0000"
                },
                "changelog": {
                    "histories": [
                        {
                            "created": "2026-03-09T09:00:00.000+0000",
                            "items": [
                                {
                                    "field": "status",
                                    "toString": "In Progress"
                                }
                            ]
                        }
                    ]
                }
            }
        ]
    }"#
    .to_string()
}

fn number_value(positive: bool, mantissa: u64, exponent: i16) -> f64 {
    let v = mantissa as f64 * 10f64.powi(exponent as i32);
    if positive {
        v
    } else {
        -v
    }
}

#[test]
fn fetch_active_sprint_issues_uses_fake_jira_responses() {
    let service = DefaultSprintService::new(JiraFakeGateway::new(HashMap::from([
        (agile_key("board/7/sprint?state=active"), active_sprint_response()),
        (
            agile_key("sprint/42/issue?maxResults=500&expand=changelog"),
            sprint_issues_response(),
        ),
    ])));

    let sprint = service
        .fetch_active_sprint_issues("7", &Json::Null)
        .expect("expected fake Jira responses to build a sprint");

    assert_eq!(sprint.name, "Platform Sprint");
    assert_eq!(sprint.goal, "Ship the sprint fetch refactor");
    assert_eq!(sprint.end_date, "2026-03-20");
    assert_eq!(sprint.board_id, "7");
    assert_eq!(sprint.pbis.len(), 2);
    assert_eq!(sprint.pbis[0].key, "JIRA-2");
    assert_eq!(sprint.pbis[0].labels, vec!["backend", "urgent"]);
    assert_eq!(sprint.pbis[1].key, "JIRA-1");
    let points = sprint.pbis[1].story_points.as_ref().unwrap();
    assert_eq!(number_value(points.positive, points.mantissa, points.exponent), 3.0);
    assert_eq!(
        sprint.pbis[1].in_progress_at.as_deref(),
        Some("2026-03-09T09:00:00.000+0000")
    );
}

#[test]
fn fetch_active_sprint_issues_without_active_sprint_returns_error() {
    let service = DefaultSprintService::new(JiraFakeGateway::new(HashMap::from([(
        agile_key("board/7/sprint?state=active"),
        r#"{ "values": [] }"#.to_string(),
    )])));

    let error = service
        .fetch_active_sprint_issues("7", &Json::Null)
        .expect_err("expected an error when the fake Jira response has no active sprint");

    assert_eq!(error, "No active sprint found for the given board.");
}

#[test]
fn the_endpoints_name_board_and_sprint() {
    assert_eq!(active_sprint_endpoint("7"), "board/7/sprint?state=active");
    assert_eq!(
        sprint_issues_endpoint(42),
        "sprint/42/issue?maxResults=500&expand=changelog"
    );
}

#[test]
fn story_points_are_found_through_the_alias() {
    let service = DefaultSprintService::new(JiraFakeGateway::new(HashMap::from([
        (agile_key("board/9/sprint?state=active"), r#"{"values":[{"id":1}]}"#.to_string()),
        (
            agile_key("sprint/1/issue?maxResults=500&expand=changelog"),
            r#"{"issues":[{"key":"A-1","fields":{"customfield_10006":8}}]}"#.to_string(),
        ),
    ])));
    let doc = parse_json(r#"{"alias":{"story_points":"customfield_10006"}}"#).unwrap();

    let sprint = service.fetch_active_sprint_issues("9", &doc).unwrap();

    assert_eq!(sprint.name, "Active Sprint");
    assert_eq!(sprint.end_date, "");
    let points = sprint.pbis[0].story_points.as_ref().unwrap();
    assert_eq!(number_value(points.positive, points.mantissa, points.exponent), 8.0);
    assert_eq!(sprint.pbis[0].status, "-");
    assert_eq!(sprint.pbis[0].assignee, "Unassigned");
}

#[test]
fn the_issues_of_a_sprint_are_read_from_the_agile_answer() {
    let service = DefaultSprintService::new(JiraFakeGateway::new(HashMap::from([(
        agile_key("sprint/42/issue?maxResults=500&expand=changelog"),
        sprint_issues_response(),
    )])));
    let pbis = service.fetch_sprint_pbis(42, &Json::Null).unwrap();
    let keys: Vec<&str> = pbis.iter().map(|p| p.key.as_str()).collect();
    assert_eq!(keys, vec!["JIRA-2", "JIRA-1"]);
    assert_eq!(pbis[1].resolved_at.as_deref(), Some("2026-03-10T09:00:00.000+0000"));

    let missing = DefaultSprintService::new(JiraFakeGateway::new(HashMap::new()));
    assert!(missing.fetch_sprint_pbis(42, &Json::Null).is_err());
}

#[test]
fn the_details_of_an_issue_fill_in_a_listed_issue() {
    let service = DefaultSprintService::new(JiraFakeGateway::new(HashMap::from([(
        api_key(2, "issue/A-1?expand=changelog"),
        r#"{"key":"A-1","fields":{"status":{"name":"Done"},"priority":{"name":"Low"},"labels":["x"],
            "assignee":{"displayName":"Kim"},"resolutiondate":"2026-03-11T08:00:00.000+0000"},
            "changelog":{"histories":[{"created":"2026-03-05T08:00:00.000+0000",
            "items":[{"field":"status","toString":"In Progress"}]}]}}"#
            .to_string(),
    )])));
    let mut pbi = jira::pbi::pbi_from_json(&parse_json(r#"{"key":"A-1","fields":{"summary":"S","status":{"name":"To Do"}}}"#).unwrap());
    assert!(!pbi.loaded);
    service.fetch_pbi_details(&mut pbi, &Json::Null).unwrap();
    assert!(pbi.loaded);
    assert_eq!(pbi.status, "Done");
    assert_eq!(pbi.summary, "S");
    assert_eq!(pbi.assignee, "Kim");
    assert_eq!(pbi.priority.as_deref(), Some("Low"));
    assert_eq!(pbi.labels, vec!["x"]);
    assert_eq!(pbi.in_progress_at.as_deref(), Some("2026-03-05T08:00:00.000+0000"));
    assert_eq!(pbi.resolved_at.as_deref(), Some("2026-03-11T08:00:00.000+0000"));

    let mut other = jira::pbi::pbi_from_json(&parse_json(r#"{"key":"B-2"}"#).unwrap());
    let before = other.key.clone();
    assert!(service.fetch_pbi_details(&mut other, &Json::Null).is_err());
    assert_eq!(other.key, before);
    assert!(!other.loaded);
}
