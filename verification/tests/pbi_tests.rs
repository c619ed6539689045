use jira::dates::{parse_jira_datetime, Instant};
use jira::pbi::{elapsed_display, Pbi};

fn calculate_time_ago_str(minutes: i64) -> String {
    (chrono::Utc::now() - chrono::Duration::minutes(minutes)).to_rfc3339()
}

fn make_pbi(status: Option<&str>, in_progress_at: Option<&str>) -> Pbi {
    make_pbi_full(status, in_progress_at, None)
}

fn make_pbi_full(status: Option<&str>, in_progress_at: Option<&str>, resolved_at: Option<&str>) -> Pbi {
    Pbi {
        key: "".to_string(),
        summary: "".to_string(),
        status: status.unwrap_or_default().to_string(),
        assignee: "".to_string(),
        issue_type: "".to_string(),
        description: None,
        priority: Some("".to_string()),
        story_points: None,
        labels: Vec::new(),
        loaded: false,
        in_progress_at: in_progress_at.map(|s| s.to_string()),
        resolved_at: resolved_at.map(|s| s.to_string()),
        raw: String::new(),
        resolution: None,
        components: Vec::new(),
        creator: String::new(),
        reporter: String::new(),
        project: String::new(),
    }
}

#[test]
fn an_empty_pbi_returns_none_as_elapsed_minutes() {
    let pbi = make_pbi(None, None);

    let minutes = pbi.elapsed_minutes();

    assert_eq!(minutes, None);
}

#[test]
fn in_progress_at_in_future_returns_zero() {
    let in_progress_at = chrono::Utc::now() + chrono::Duration::minutes(10);
    let pbi = make_pbi(Some("in progress"), Some(in_progress_at.to_rfc3339().as_str()));

    let minutes = pbi.elapsed_minutes();

    assert_eq!(
        minutes,
        Some(0),
        "elapsed minutes should be clamped to 0 when start is in the future"
    );
}

#[test]
fn status_containing_closed_is_treated_as_done() {
    let in_progress_at = calculate_time_ago_str(20);
    let resolved_at = calculate_time_ago_str(10);
    let pbi = make_pbi_full(Some("partially closed"), Some(&in_progress_at), Some(&resolved_at));

    let minutes = pbi.elapsed_minutes();

    assert_eq!(
        minutes,
        Some(10),
        "any status containing 'closed' should use resolved_at"
    );
}

#[test]
fn status_containing_resolved_is_treated_as_done() {
    let in_progress_at = calculate_time_ago_str(30);
    let resolved_at = calculate_time_ago_str(10);
    let pbi = make_pbi_full(Some("auto-resolved"), Some(&in_progress_at), Some(&resolved_at));

    let minutes = pbi.elapsed_minutes();

    assert_eq!(
        minutes,
        Some(20),
        "any status containing 'resolved' should use resolved_at"
    );
}

#[test]
fn when_the_work_hasnt_started_elapsed_minutes_returns_none() {
    for status in ["new", "open", "NEW", "OPEN"] {
        let pbi = make_pbi(Some(status), None);
        assert_eq!(pbi.elapsed_minutes(), None);
        let pbi = make_pbi(Some(status), Some(&calculate_time_ago_str(10)));
        assert_eq!(pbi.elapsed_minutes(), None);
    }
}

#[test]
fn when_the_work_has_started_but_start_date_is_missing_elapsed_minutes_returns_none() {
    for status in ["in progress", "in review", "closed", "resolved"] {
        let pbi = make_pbi(Some(status), None);
        assert_eq!(pbi.elapsed_minutes(), None);
    }
}

#[test]
fn when_the_work_has_started_elapsed_minutes_returns_time_since_start() {
    for status in ["in progress", "in review", "blocked", "IN PROGRESS", "IN REVIEW", "BLOCKED"] {
        let in_progress_at = calculate_time_ago_str(10);
        let pbi = make_pbi(Some(status), Some(&in_progress_at));
        assert_eq!(pbi.elapsed_minutes(), Some(10));
    }
}

#[test]
fn when_status_is_done_elapsed_minutes_returns_time_between_in_progress_and_resolved() {
    for status in ["closed", "resolved", "CLOSED", "RESOLVED"] {
        let in_progress_at = calculate_time_ago_str(30);
        let resolved_at = calculate_time_ago_str(10);
        let pbi = make_pbi_full(Some(status), Some(&in_progress_at), Some(&resolved_at));
        assert_eq!(pbi.elapsed_minutes(), Some(20));
    }
}

#[test]
fn done_pbi_without_resolved_at_falls_back_to_now() {
    for (status, minutes_ago) in [("closed", 10), ("resolved", 5)] {
        let in_progress_at = calculate_time_ago_str(minutes_ago);
        let pbi = make_pbi_full(Some(status), Some(&in_progress_at), None);
        assert_eq!(pbi.elapsed_minutes(), Some(minutes_ago));
    }
}

#[test]
fn invalid_in_progress_at_returns_none() {
    for date in ["not-a-date", ""] {
        let pbi = make_pbi(Some("in progress"), Some(date));
        assert_eq!(pbi.elapsed_minutes(), None);
    }
}

#[test]
fn elapsed_minutes_at_a_fixed_instant() {
    let now = parse_jira_datetime("2026-03-10T12:00:00.000+0000").unwrap();
    let pbi = make_pbi(Some("In Progress"), Some("2026-03-10T10:30:30.000+0000"));
    assert_eq!(pbi.elapsed_minutes_at(now), Some(89));

    let pbi = make_pbi_full(
        Some("Closed"),
        Some("2026-03-10T10:00:00.000+0200"),
        Some("2026-03-10T10:00:00.000+0000"),
    );
    assert_eq!(pbi.elapsed_minutes_at(now), Some(120));
}

#[test]
fn jira_timestamps_are_read_in_utc() {
    assert_eq!(
        parse_jira_datetime("1970-01-01T01:00:00.000+0100"),
        Some(Instant { secs: 0, nanos: 0 })
    );
    assert_eq!(
        parse_jira_datetime("1970-01-01T00:00:01.500Z"),
        None
    );
    assert_eq!(
        parse_jira_datetime("1970-01-01T00:00:01.5+00:00"),
        Some(Instant { secs: 1, nanos: 500_000_000 })
    );
}

#[test]
fn elapsed_time_is_shown_in_the_largest_whole_unit() {
    assert_eq!(elapsed_display(None), "");
    assert_eq!(elapsed_display(Some(0)), "0m");
    assert_eq!(elapsed_display(Some(59)), "59m");
    assert_eq!(elapsed_display(Some(60)), "1h");
    assert_eq!(elapsed_display(Some(1439)), "23h");
    assert_eq!(elapsed_display(Some(1440)), "1d");
    assert_eq!(elapsed_display(Some(4000)), "2d");
}
