use jira::json::JsonNumber;
use jira::pbi::Pbi;
use jira::sprint::{
    cache_file_name, load_sprint_cache, save_sprint_cache, sort_by_status, sprint_board, sprint_source_line,
    status_sort_key, Sprint,
};

fn pbi(key: &str, status: &str) -> Pbi {
    Pbi {
        key: key.to_string(),
        summary: format!("summary of {key}"),
        status: status.to_string(),
        assignee: "Ann".to_string(),
        issue_type: "Bug".to_string(),
        description: Some("d".to_string()),
        priority: Some("High".to_string()),
        story_points: Some(JsonNumber { positive: true, mantissa: 5, exponent: 0 }),
        labels: vec!["x".to_string(), "y".to_string()],
        loaded: false,
        in_progress_at: Some("2026-03-09T09:00:00.000+0000".to_string()),
        resolved_at: None,
        raw: "{}".to_string(),
        resolution: None,
        components: vec![],
        creator: String::new(),
        reporter: String::new(),
        project: String::new(),
    }
}

#[test]
fn statuses_rank_in_workflow_order() {
    assert_eq!(status_sort_key("NEW"), 2);
    assert_eq!(status_sort_key("Open"), 4);
    assert_eq!(status_sort_key("in progress"), 6);
    assert_eq!(status_sort_key("In Review"), 7);
    assert_eq!(status_sort_key("Pending"), 8);
    assert_eq!(status_sort_key("Blocked"), 8);
    assert_eq!(status_sort_key("Resolved"), 9);
    assert_eq!(status_sort_key("Closed"), 10);
    assert_eq!(status_sort_key("Whatever"), 0);
}

#[test]
fn sorting_by_status_is_stable() {
    let mut pbis = vec![pbi("A", "Closed"), pbi("B", "Open"), pbi("C", "Other"), pbi("D", "Open"), pbi("E", "New")];
    sort_by_status(&mut pbis);
    let keys: Vec<&str> = pbis.iter().map(|p| p.key.as_str()).collect();
    assert_eq!(keys, vec!["C", "E", "B", "D", "A"]);
}

#[test]
fn a_saved_sprint_loads_back() {
    let sprint = Sprint {
        name: "S".to_string(),
        goal: "G".to_string(),
        end_date: "2026-03-20".to_string(),
        pbis: vec![pbi("K-1", "Open"), pbi("K-2", "Closed")],
        board_id: "7".to_string(),
    };
    let text = save_sprint_cache(&sprint);
    let loaded = load_sprint_cache(&text, "7").expect("the cache should load");
    assert_eq!(loaded.name, "S");
    assert_eq!(loaded.goal, "G");
    assert_eq!(loaded.end_date, "2026-03-20");
    assert_eq!(loaded.board_id, "7");
    assert_eq!(loaded.pbis.len(), 2);
    assert_eq!(loaded.pbis[0].key, "K-1");
    assert_eq!(loaded.pbis[1].status, "Closed");
    assert_eq!(loaded.pbis[0].labels, vec!["x", "y"]);
    assert_eq!(loaded.pbis[0].in_progress_at, sprint.pbis[0].in_progress_at);
    assert!(load_sprint_cache("not json", "7").is_none());
}

#[test]
fn cache_files_and_messages() {
    assert_eq!(cache_file_name("7"), "sprint_cache_7.json");
    assert_eq!(sprint_source_line(true, "7"), "Loaded sprint from cache. Press F to refresh all items.");
    assert_eq!(sprint_source_line(false, "7"), "Fetching active sprint for board 7...");
    let no_board = jira::json::parse_json("{}").unwrap();
    assert!(sprint_board(&no_board).unwrap_err().starts_with("No board_id found in configuration."));
    let with_board = jira::json::parse_json(r#"{"board-id":"9"}"#).unwrap();
    assert_eq!(sprint_board(&with_board), Ok("9".to_string()));
}
