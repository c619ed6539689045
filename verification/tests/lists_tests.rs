use jira::json::{parse_json, Json};
use jira::lists::{field_key, field_label, filter_fields, save_filter_alias, ListArgs, ListFilter};

fn doc(text: &str) -> Json {
    parse_json(text).unwrap()
}

fn args() -> ListArgs {
    ListArgs {
        sprint: vec![],
        project: vec!["PROJ".to_string()],
        status: vec!["wip".to_string(), "Done".to_string()],
        assignee: vec![],
        component: vec![],
        labels: vec![],
        priority: vec![],
        reporter: vec![],
        issue_type: vec![],
        epic: vec!["E-1".to_string()],
        text: Some("login".to_string()),
        jql: None,
        me: true,
        count: Some("20".to_string()),
        offset: None,
    }
}

#[test]
fn the_query_joins_the_clauses_with_aliases_resolved() {
    let config = doc(r#"{"alias":{"wip":"In Progress"}}"#);
    let filter = ListFilter::from_matches(&args());
    assert_eq!(filter.count, 20);
    assert_eq!(filter.offset, 0);
    assert_eq!(
        filter.to_jql(&config),
        "assignee = currentUser() AND project in (\"PROJ\") AND status in (\"In Progress\",\"Done\") AND \"epic link\" in (\"E-1\") AND text ~ \"login\""
    );
    assert_eq!(filter.try_to_jql(&config), Some(filter.to_jql(&config)));
}

#[test]
fn an_unreadable_alias_gives_no_query() {
    let config = doc(r#"{"alias":{"wip":3}}"#);
    let filter = ListFilter::from_matches(&args());
    assert_eq!(filter.try_to_jql(&config), None);
}

#[test]
fn an_empty_filter_has_an_empty_query() {
    assert_eq!(ListFilter::default().to_jql(&doc("{}")), "");
    let mut bad = args();
    bad.count = Some("many".to_string());
    assert_eq!(ListFilter::from_matches(&bad).count, 50);
}

#[test]
fn editing_a_field_reads_back_as_displayed() {
    let mut filter = ListFilter::default();
    filter.set_from_str("status", " Open , ,In Review ");
    assert_eq!(filter.get_display("status"), "Open, In Review");
    filter.set_from_str("text", " a, b ");
    assert_eq!(filter.get_display("text"), "a, b");
    filter.set_from_str("jql", "status in (A,B)");
    assert_eq!(filter.jql, Some("status in (A,B)".to_string()));
    filter.set_from_str("jql", "   ");
    assert_eq!(filter.jql, None);
    filter.clear_field("status");
    assert_eq!(filter.get_display("status"), "");
    filter.set_from_str("unknown", "x");
    assert_eq!(filter.get_display("unknown"), "");
}

#[test]
fn the_editor_fields_come_in_display_order() {
    let fields = filter_fields();
    assert_eq!(fields.len(), 12);
    assert_eq!(fields[0], ("sprint", "Sprint"));
    assert_eq!(fields[8], ("type", "Issue Type"));
    assert_eq!(fields[11], ("jql", "JQL Query"));
    assert_eq!(field_key(10), "text");
    assert_eq!(field_label(10), "Text Search");
}

#[test]
fn saving_a_filter_as_an_alias() {
    let mut config = doc("{}");
    let filter = ListFilter::from_matches(&args());
    let lines = save_filter_alias(&mut config, "Mine", &filter);
    assert_eq!(lines[0], "Current filter is now set with value Mine");
    assert_eq!(lines[1], "You can use jira list --jql \"Mine\" to reuse this filter.");
    assert_eq!(jira::config::get_alias(&config, "mine"), Some(filter.to_jql(&doc("{}"))));
}

#[test]
fn a_saved_filter_is_reused_through_its_alias() {
    let mut config = doc(r#"{"alias":{"wip":"In Progress"}}"#);
    let filter = ListFilter::from_matches(&args());
    let query = filter.to_jql(&config);
    save_filter_alias(&mut config, "Mine", &filter);
    let mut reuse = args();
    reuse.project = vec![];
    reuse.status = vec![];
    reuse.epic = vec![];
    reuse.text = None;
    reuse.me = false;
    reuse.jql = Some("MINE".to_string());
    let again = ListFilter::from_matches(&reuse);
    assert_eq!(again.to_jql(&config), query);
}
