use jira::json::JsonNumber;
use jira::pbi::Pbi;
use jira::ui::components::progress::BarColor;
use jira::ui::sprint_list::progress_block::{ProgressBlock, SprintProgressData};

fn pbi(status: &str) -> Pbi {
    Pbi {
        key: "TEST-1".into(),
        summary: "test item".into(),
        status: status.into(),
        assignee: String::new(),
        issue_type: "Story".into(),
        description: None,
        priority: None,
        story_points: None::<JsonNumber>,
        labels: vec![],
        in_progress_at: None,
        resolved_at: None,
        loaded: false,
        raw: "".into(),
        resolution: None,
        components: vec![],
        creator: String::new(),
        reporter: String::new(),
        project: String::new(),
    }
}

#[test]
fn empty_list_gives_zero_totals() {
    let data = SprintProgressData::from_sprint(&[], "2026-03-20");
    assert_eq!(data.total, 0);
    assert_eq!(data.resolved, 0);
}

#[test]
fn total_equals_number_of_pbis() {
    let pbis = vec![pbi("New"), pbi("In Progress"), pbi("Done")];
    let data = SprintProgressData::from_sprint(&pbis, "");
    assert_eq!(data.total, 3);
}

#[test]
fn done_status_does_not_count_as_resolved() {
    let data = SprintProgressData::from_sprint(&[pbi("Done")], "");
    assert_eq!(data.resolved, 0);
}

#[test]
fn closed_status_counts_as_resolved() {
    let data = SprintProgressData::from_sprint(&[pbi("Closed")], "");
    assert_eq!(data.resolved, 1);
}

#[test]
fn resolved_status_counts_as_resolved() {
    let data = SprintProgressData::from_sprint(&[pbi("Resolved")], "");
    assert_eq!(data.resolved, 1);
}

#[test]
fn in_progress_does_not_count_as_resolved() {
    let data = SprintProgressData::from_sprint(&[pbi("In Progress")], "");
    assert_eq!(data.resolved, 0);
}

#[test]
fn to_do_does_not_count_as_resolved() {
    let data = SprintProgressData::from_sprint(&[pbi("New")], "");
    assert_eq!(data.resolved, 0);
}

#[test]
fn blocked_does_not_count_as_resolved() {
    let data = SprintProgressData::from_sprint(&[pbi("Blocked")], "");
    assert_eq!(data.resolved, 0);
}

#[test]
fn in_review_does_not_count_as_resolved() {
    let data = SprintProgressData::from_sprint(&[pbi("In Review")], "");
    assert_eq!(data.resolved, 0);
}

#[test]
fn resolved_matching_is_case_insensitive() {
    for status in ["resolved", "closed", "Closed", "CLOSED", "RESOLVED"] {
        let data = SprintProgressData::from_sprint(&[pbi(status)], "");
        assert_eq!(
            data.resolved, 1,
            "status '{status}' should be counted as resolved"
        );
    }
}

#[test]
fn unresolved_matching_is_case_insensitive() {
    for status in ["IN PROGRESS", "in progress", "TO DO", "BLOCKED"] {
        let data = SprintProgressData::from_sprint(&[pbi(status)], "");
        assert_eq!(
            data.resolved, 0,
            "status '{status}' should NOT be counted as resolved"
        );
    }
}

#[test]
fn mixed_sprint_counts_correctly() {
    let pbis = vec![
        pbi("Done"),
        pbi("Closed"),
        pbi("Resolved"),
        pbi("In Progress"),
        pbi("New"),
        pbi("any status"),
    ];
    let data = SprintProgressData::from_sprint(&pbis, "");
    assert_eq!(data.total, 6);
    assert_eq!(data.resolved, 2);
}

#[test]
fn all_resolved_sprint() {
    let pbis = vec![pbi("Resolved"), pbi("resolved"), pbi("Closed")];
    let data = SprintProgressData::from_sprint(&pbis, "");
    assert_eq!(data.total, 3);
    assert_eq!(data.resolved, 3);
}

#[test]
fn all_unresolved_sprint() {
    let pbis = vec![pbi("New"), pbi("In Progress"), pbi("Blocked")];
    let data = SprintProgressData::from_sprint(&pbis, "");
    assert_eq!(data.total, 3);
    assert_eq!(data.resolved, 0);
}

#[test]
fn empty_end_date_gives_none_working_days() {
    let data = SprintProgressData::from_sprint(&[], "");
    assert_eq!(data.working_days_remaining, None);
}

#[test]
fn unparseable_end_date_gives_none_working_days() {
    let data = SprintProgressData::from_sprint(&[], "not-a-date");
    assert_eq!(data.working_days_remaining, None);
}

#[test]
fn past_end_date_gives_zero_working_days() {
    let data = SprintProgressData::from_sprint(&[], "2000-01-01");
    assert_eq!(data.working_days_remaining, Some(0));
}

#[test]
fn future_end_date_gives_positive_working_days() {
    let data = SprintProgressData::from_sprint(&[], "2099-12-31");
    assert!(
        data.working_days_remaining.is_some_and(|d| d > 0),
        "expected positive working days for a far-future date"
    );
}

#[test]
fn iso_timestamp_end_date_is_parsed_correctly() {
    let data_ts = SprintProgressData::from_sprint(&[], "2000-01-01T00:00:00.000Z");
    let data_date = SprintProgressData::from_sprint(&[], "2000-01-01");
    assert_eq!(
        data_ts.working_days_remaining, data_date.working_days_remaining,
        "timestamp and date-only formats should yield the same working-day count"
    );
}

// 2026-03-16 is a Monday: days since 1970-01-01.
const MONDAY_2026_03_16: i64 = 20528;

#[test]
fn working_days_count_weekdays_up_to_the_end_inclusive() {
    // Monday to Friday of the same week.
    let data = SprintProgressData::from_sprint_on(&[], "2026-03-20", MONDAY_2026_03_16);
    assert_eq!(data.working_days_remaining, Some(5));
    // Through the weekend to the next Monday.
    let data = SprintProgressData::from_sprint_on(&[], "2026-03-23", MONDAY_2026_03_16);
    assert_eq!(data.working_days_remaining, Some(6));
    // The end date is today.
    let data = SprintProgressData::from_sprint_on(&[], "2026-03-16", MONDAY_2026_03_16);
    assert_eq!(data.working_days_remaining, Some(1));
    // A weekend end date reached from a Saturday.
    let data = SprintProgressData::from_sprint_on(&[], "2026-03-22", MONDAY_2026_03_16 + 5);
    assert_eq!(data.working_days_remaining, Some(0));
    // Past end date.
    let data = SprintProgressData::from_sprint_on(&[], "2026-03-13", MONDAY_2026_03_16);
    assert_eq!(data.working_days_remaining, Some(0));
}

#[test]
fn the_block_shows_bar_percentage_and_days_left() {
    let data = SprintProgressData { resolved: 1, total: 4, working_days_remaining: Some(3) };
    let view = ProgressBlock::new().view(&data);
    assert_eq!(view.bar, format!("[{}{}]", "\u{2588}".repeat(7), "\u{2591}".repeat(21)));
    assert_eq!(view.summary, " 25% (1/4 resolved)");
    assert_eq!(view.days_label, " \u{23f1} 3 working days left");
    assert!(matches!(view.color, BarColor::Red));
}

#[test]
fn the_block_for_one_day_and_for_the_last_day() {
    let data = SprintProgressData { resolved: 2, total: 4, working_days_remaining: Some(1) };
    let view = ProgressBlock::new().view(&data);
    assert_eq!(view.days_label, " \u{23f1} 1 working day left");
    assert!(matches!(view.color, BarColor::Yellow));

    let data = SprintProgressData { resolved: 4, total: 4, working_days_remaining: Some(0) };
    let view = ProgressBlock::new().view(&data);
    assert_eq!(view.days_label, " \u{23f1} Sprint ends today!");
    assert_eq!(view.summary, " 100% (4/4 resolved)");
    assert!(matches!(view.color, BarColor::Green));

    let data = SprintProgressData { resolved: 0, total: 0, working_days_remaining: None };
    let view = ProgressBlock::new().view(&data);
    assert_eq!(view.days_label, "");
    assert_eq!(view.summary, " 0% (0/0 resolved)");
    assert_eq!(view.bar, format!("[{}]", "\u{2591}".repeat(28)));
}
