use jira::commands::JiraCommand;
use jira::keymaps::{KeyMapCollection, Scope};
use jira::lists::ListFilter;
use jira::pbi::Pbi;
use jira::ui::keys::{key_name, Key};
use jira::ui::pbi_list::app::{ListEffect, PbiListApp};

type Binding = fn() -> JiraCommand;

/// The global bindings of the bundled configuration script.
fn default_keymaps() -> KeyMapCollection<Binding> {
    let mut keymaps: KeyMapCollection<Binding> = KeyMapCollection::new();
    keymaps.set("j", || JiraCommand::GoDown, None, None).unwrap();
    keymaps.set("k", || JiraCommand::GoUp, None, None).unwrap();
    keymaps.set("h", || JiraCommand::GoLeft, None, None).unwrap();
    keymaps.set("l", || JiraCommand::GoRight, None, None).unwrap();
    keymaps.set("<DOWN>", || JiraCommand::GoDown, None, None).unwrap();
    keymaps.set("<UP>", || JiraCommand::GoUp, None, None).unwrap();
    keymaps.set("<LEFT>", || JiraCommand::GoLeft, None, None).unwrap();
    keymaps.set("<RIGHT>", || JiraCommand::GoRight, None, None).unwrap();
    keymaps.set("q", || JiraCommand::Quit, Some("Quit"), None).unwrap();
    keymaps.set("<ESC>", || JiraCommand::Quit, None, None).unwrap();
    keymaps
}

struct TestApp {
    app: PbiListApp,
    keymaps: KeyMapCollection<Binding>,
}

impl TestApp {
    /// A key press: on the table the bound command runs; the other views
    /// take the key themselves.
    fn handle_key_event(&mut self, key: Key) {
        let on_table = !self.app.is_detail_view() && !self.app.is_filter_editor();
        let _ = self.app.handle_key_event(key);
        if !on_table {
            return;
        }
        if let Some(name) = key_name(key) {
            if let Some(binding) = self.keymaps.get_keymap(&name, &[Scope::PbiList, Scope::Global, Scope::Pbi]) {
                let _ = self.app.process_command((binding.func)());
            }
        }
    }

    fn selected_pbi(&self) -> Option<&Pbi> {
        self.app.selected_pbi()
    }

    fn is_detail_view(&self) -> bool {
        self.app.is_detail_view()
    }

    fn is_exit(&self) -> bool {
        self.app.is_exit()
    }
}

fn make_pbi(key: &str, summary: &str, status: &str, assignee: &str) -> Pbi {
    Pbi {
        key: key.to_string(),
        summary: summary.to_string(),
        status: status.to_string(),
        assignee: assignee.to_string(),
        issue_type: "Story".to_string(),
        description: None,
        priority: Some("Medium".to_string()),
        story_points: None,
        labels: vec![],
        loaded: false,
        in_progress_at: None,
        resolved_at: None,
        raw: String::new(),
        resolution: None,
        components: vec![],
        creator: String::new(),
        reporter: String::new(),
        project: "MYPROJ".to_string(),
    }
}

fn issue_search_results() -> Vec<Pbi> {
    vec![
        make_pbi("MYPROJ-201", "User authentication", "Open", "Alice"),
        make_pbi("MYPROJ-202", "Password validation", "In Progress", "Bob"),
        make_pbi("MYPROJ-203", "Session management", "In Review", "Carol"),
        make_pbi("MYPROJ-204", "OAuth integration", "Blocked", "Dave"),
        make_pbi("MYPROJ-205", "Two-factor auth", "Open", "Eve"),
        make_pbi("MYPROJ-206", "Login page design", "Closed", "Frank"),
    ]
}

fn app_with(issues: Vec<Pbi>) -> TestApp {
    TestApp { app: PbiListApp::new(issues, ListFilter::default()), keymaps: default_keymaps() }
}

fn create_test_app() -> TestApp {
    app_with(issue_search_results())
}

#[test]
fn pbi_list_app_tests_pressing_j_selects_item_below() {
    let mut app = create_test_app();
    assert_eq!(app.selected_pbi().unwrap().key, "MYPROJ-201");

    app.handle_key_event(Key::Char('j'));

    assert_eq!(
        app.selected_pbi().unwrap().key,
        "MYPROJ-202",
        "pressing 'j' should select the item below"
    );
}

#[test]
fn pbi_list_app_tests_pressing_j_multiple_times_navigates_down() {
    let mut app = create_test_app();

    app.handle_key_event(Key::Char('j'));
    app.handle_key_event(Key::Char('j'));
    app.handle_key_event(Key::Char('j'));

    assert_eq!(
        app.selected_pbi().unwrap().key,
        "MYPROJ-204",
        "navigating down 3 times should reach 4th item"
    );
    assert_eq!(app.selected_pbi().unwrap().assignee, "Dave", "should show Dave as assignee");
}

#[test]
fn pbi_list_app_tests_pressing_k_selects_item_above() {
    let mut app = create_test_app();
    for _ in 0..4 {
        app.handle_key_event(Key::Char('j'));
    }
    assert_eq!(app.selected_pbi().unwrap().key, "MYPROJ-205");

    app.handle_key_event(Key::Char('k'));
    app.handle_key_event(Key::Char('k'));

    assert_eq!(
        app.selected_pbi().unwrap().key,
        "MYPROJ-203",
        "pressing 'k' twice should move up 2 items"
    );
}

#[test]
fn pbi_list_app_tests_pressing_down_arrow_navigates() {
    let mut app = create_test_app();

    app.handle_key_event(Key::Down);
    app.handle_key_event(Key::Down);

    assert_eq!(
        app.selected_pbi().unwrap().key,
        "MYPROJ-203",
        "down arrow should navigate through list"
    );
}

#[test]
fn pbi_list_app_tests_pressing_j_at_bottom_wraps_to_top() {
    let mut app = create_test_app();
    for _ in 0..5 {
        app.handle_key_event(Key::Char('j'));
    }
    assert_eq!(app.selected_pbi().unwrap().key, "MYPROJ-206");

    app.handle_key_event(Key::Char('j'));

    assert_eq!(
        app.selected_pbi().unwrap().key,
        "MYPROJ-201",
        "pressing 'j' at bottom should wrap to top"
    );
}

#[test]
fn pbi_list_app_tests_pressing_k_at_top_wraps_to_bottom() {
    let mut app = create_test_app();
    assert_eq!(app.selected_pbi().unwrap().key, "MYPROJ-201");

    app.handle_key_event(Key::Char('k'));

    assert_eq!(
        app.selected_pbi().unwrap().key,
        "MYPROJ-206",
        "pressing 'k' at top should wrap to bottom"
    );
}

#[test]
fn pbi_list_app_tests_pressing_l_opens_detail_view() {
    let mut app = create_test_app();
    app.handle_key_event(Key::Char('j'));
    app.handle_key_event(Key::Char('j'));
    assert!(!app.is_detail_view());

    app.handle_key_event(Key::Char('l'));

    assert!(app.is_detail_view(), "pressing 'l' should open detail view");
}

#[test]
fn pbi_list_app_tests_pressing_right_arrow_opens_detail() {
    let mut app = create_test_app();
    assert!(!app.is_detail_view());

    app.handle_key_event(Key::Right);

    assert!(app.is_detail_view(), "pressing Right arrow should open detail view");
}

#[test]
fn pbi_list_app_tests_pressing_q_exits() {
    let mut app = create_test_app();
    assert!(!app.is_exit());

    app.handle_key_event(Key::Char('q'));

    assert!(app.is_exit(), "pressing 'q' should set exit flag");
}

#[test]
fn pbi_list_app_tests_pressing_esc_exits() {
    let mut app = create_test_app();
    assert!(!app.is_exit());

    app.handle_key_event(Key::Esc);

    assert!(app.is_exit(), "pressing Escape should set exit flag");
}

#[test]
fn find_blocked_item_in_search_results() {
    let mut app = create_test_app();

    app.handle_key_event(Key::Char('j'));
    app.handle_key_event(Key::Char('j'));
    app.handle_key_event(Key::Char('j'));

    let selected = app.selected_pbi().unwrap();
    assert_eq!(selected.key, "MYPROJ-204");
    assert_eq!(selected.status, "Blocked");
    assert_eq!(selected.summary, "OAuth integration");
}

#[test]
fn cycle_through_all_search_results() {
    let mut app = create_test_app();
    let mut visited_keys = vec![];

    for _ in 0..6 {
        visited_keys.push(app.selected_pbi().unwrap().key.clone());
        app.handle_key_event(Key::Char('j'));
    }

    assert_eq!(
        visited_keys,
        vec!["MYPROJ-201", "MYPROJ-202", "MYPROJ-203", "MYPROJ-204", "MYPROJ-205", "MYPROJ-206"],
        "should cycle through all search results"
    );
}

#[test]
fn find_issues_by_assignee() {
    let mut app = create_test_app();
    let mut iterations = 0;
    let max_iterations = 10;

    while app.selected_pbi().unwrap().assignee != "Carol" && iterations < max_iterations {
        app.handle_key_event(Key::Char('j'));
        iterations += 1;
    }

    let selected = app.selected_pbi().unwrap();
    assert_eq!(selected.key, "MYPROJ-203");
    assert_eq!(selected.summary, "Session management");
    assert_eq!(selected.status, "In Review");
}

#[test]
fn navigate_up_and_down_to_compare_items() {
    let mut app = create_test_app();

    app.handle_key_event(Key::Char('j'));
    app.handle_key_event(Key::Char('j'));
    let third_item = app.selected_pbi().unwrap().key.clone();

    app.handle_key_event(Key::Char('k'));
    let second_item = app.selected_pbi().unwrap().key.clone();

    assert_eq!(third_item, "MYPROJ-203");
    assert_eq!(second_item, "MYPROJ-202");
}

#[test]
fn mix_vim_and_arrow_keys() {
    let mut app = create_test_app();

    app.handle_key_event(Key::Char('j'));
    app.handle_key_event(Key::Down);
    app.handle_key_event(Key::Char('k'));
    app.handle_key_event(Key::Down);

    assert_eq!(
        app.selected_pbi().unwrap().key,
        "MYPROJ-203",
        "mixing vim and arrow keys should work"
    );
}

#[test]
fn navigation_with_single_item_list() {
    let mut app = app_with(vec![make_pbi("SOLO-1", "Only item", "Open", "Alice")]);

    app.handle_key_event(Key::Char('j'));
    assert_eq!(
        app.selected_pbi().unwrap().key,
        "SOLO-1",
        "navigation with single item should stay on same item"
    );

    app.handle_key_event(Key::Char('k'));
    assert_eq!(
        app.selected_pbi().unwrap().key,
        "SOLO-1",
        "navigation with single item should stay on same item"
    );
}

#[test]
fn navigation_with_empty_list() {
    let mut app = app_with(vec![]);

    app.handle_key_event(Key::Char('j'));

    assert!(
        app.selected_pbi().is_none(),
        "navigation with empty list should not select anything"
    );
}

#[test]
fn actions_with_no_selection() {
    let mut app = app_with(vec![]);

    app.handle_key_event(Key::Char('l'));

    assert!(!app.is_detail_view(), "should not open detail when nothing is selected");
}

#[test]
fn refreshing_asks_for_a_search_and_its_answer_replaces_the_list() {
    let mut app = create_test_app();
    let effects = app.app.process_command(JiraCommand::Refresh);
    assert_eq!(effects.len(), 1);
    assert!(matches!(effects[0], ListEffect::Fetch(_)));
    assert_eq!(app.app.footer.status_msg, "Fetching from Jira\u{2026}");

    app.app.on_fetched(Ok(vec![make_pbi("NEW-1", "x", "Open", "Zoe")]));
    assert_eq!(app.selected_pbi().unwrap().key, "NEW-1");
    assert_eq!(app.app.footer.status_msg, "1 issues loaded");
    assert_eq!(app.app.title(), " JIRA Issues  \u{b7}  1 results");

    app.app.on_fetched(Err("timeout".to_string()));
    assert_eq!(app.app.footer.status_msg, "Error: timeout");
}

#[test]
fn opening_in_the_browser_names_the_selected_issue() {
    let mut app = create_test_app();
    app.handle_key_event(Key::Char('j'));
    let effects = app.app.process_command(JiraCommand::OpenInBrowser);
    match &effects[0] {
        ListEffect::OpenInBrowser(key) => assert_eq!(key, "MYPROJ-202"),
        _ => panic!("expected the browser to be asked for"),
    }
}

#[test]
fn the_raw_json_of_the_selected_issue_is_handed_out_once() {
    let mut app = create_test_app();
    let _ = app.app.process_command(JiraCommand::OpenRawPbiJson);
    assert_eq!(app.app.take_raw_pbi().unwrap().key, "MYPROJ-201");
    assert!(app.app.take_raw_pbi().is_none());
}

#[test]
fn the_filter_editor_opens_and_closes_with_escape() {
    let mut app = create_test_app();
    let _ = app.app.process_command(JiraCommand::OpenFilter);
    assert!(app.app.is_filter_editor());
    app.handle_key_event(Key::Esc);
    assert!(!app.app.is_filter_editor());
    assert!(!app.is_exit());
}
