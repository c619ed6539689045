use jira::commands::JiraCommand;
use jira::json::JsonNumber;
use jira::keymaps::{KeyMapCollection, Scope};
use jira::pbi::Pbi;
use jira::sprint::Sprint;
use jira::ui::keys::{key_name, Key};
use jira::ui::sprint_list::app::SprintApp;

type Binding = fn() -> JiraCommand;

/// The global bindings of the bundled configuration script.
fn default_keymaps() -> KeyMapCollection<Binding> {
    let mut keymaps: KeyMapCollection<Binding> = KeyMapCollection::new();
    keymaps.set("j", || JiraCommand::GoDown, None, None).unwrap();
    keymaps.set("k", || JiraCommand::GoUp, None, None).unwrap();
    keymaps.set("h", || JiraCommand::GoLeft, None, None).unwrap();
    keymaps.set("l", || JiraCommand::GoRight, None, None).unwrap();
    keymaps.set("<DOWN>", || JiraCommand::GoDown, None, None).unwrap();
    keymaps.set("<UP>", || JiraCommand::GoUp, None, None).unwrap();
    keymaps.set("<LEFT>", || JiraCommand::GoLeft, None, None).unwrap();
    keymaps.set("<RIGHT>", || JiraCommand::GoRight, None, None).unwrap();
    keymaps.set("q", || JiraCommand::Quit, Some("Quit"), None).unwrap();
    keymaps.set("<ESC>", || JiraCommand::Quit, None, None).unwrap();
    keymaps
}

struct TestApp {
    app: SprintApp,
    keymaps: KeyMapCollection<Binding>,
}

impl TestApp {
    /// A key press: the detail view reacts to the key itself; on the
    /// sprint's table the bound command runs.
    fn handle_key_event(&mut self, key: Key) {
        let on_table = !self.app.is_detail_view();
        self.app.handle_key_event(key);
        if !on_table {
            return;
        }
        if let Some(name) = key_name(key) {
            if let Some(binding) = self.keymaps.get_keymap(&name, &[Scope::Sprint, Scope::Global, Scope::Pbi]) {
                let _ = self.app.process_command((binding.func)());
            }
        }
    }

    fn selected_pbi(&self) -> Option<&Pbi> {
        self.app.selected_pbi()
    }

    fn is_detail_view(&self) -> bool {
        self.app.is_detail_view()
    }

    fn is_exit(&self) -> bool {
        self.app.is_exit()
    }
}

fn make_pbi(key: &str, summary: &str, status: &str, assignee: &str) -> Pbi {
    Pbi {
        key: key.to_string(),
        summary: summary.to_string(),
        status: status.to_string(),
        assignee: assignee.to_string(),
        issue_type: "Story".to_string(),
        description: None,
        priority: Some("Medium".to_string()),
        story_points: Some(JsonNumber { positive: true, mantissa: 3, exponent: 0 }),
        labels: vec![],
        loaded: false,
        in_progress_at: None,
        resolved_at: None,
        raw: String::new(),
        resolution: None,
        components: vec![],
        creator: String::new(),
        reporter: String::new(),
        project: "TEST".to_string(),
    }
}

fn sample_sprint() -> Sprint {
    Sprint {
        name: "Sprint 42".to_string(),
        goal: "Complete user authentication".to_string(),
        end_date: "2024-12-31".to_string(),
        pbis: vec![
            make_pbi("TEST-101", "Login form", "In Progress", "Alice"),
            make_pbi("TEST-102", "Password reset", "Open", "Bob"),
            make_pbi("TEST-103", "Session timeout", "Blocked", "Carol"),
            make_pbi("TEST-104", "Remember me", "In Review", "Dave"),
            make_pbi("TEST-105", "Logout button", "Closed", "Eve"),
        ],
        board_id: "123".to_string(),
    }
}

fn create_test_app() -> TestApp {
    TestApp { app: SprintApp::new(sample_sprint()), keymaps: default_keymaps() }
}

#[test]
fn sprint_has_correct_end_date() {
    let app = create_test_app();

    assert_eq!(
        app.app.sprint_end_date(),
        "2024-12-31",
        "sprint should have the correct end date"
    );
}

#[test]
fn sprint_has_correct_number_of_pbis() {
    let app = create_test_app();

    assert_eq!(app.app.pbis().len(), 5, "sprint should have 5 PBIs");
}

#[test]
fn sprint_app_tests_pressing_j_selects_item_below() {
    let mut app = create_test_app();
    assert_eq!(app.selected_pbi().unwrap().key, "TEST-101");

    app.handle_key_event(Key::Char('j'));

    assert_eq!(
        app.selected_pbi().unwrap().key,
        "TEST-102",
        "pressing 'j' should select the item below"
    );
}

#[test]
fn sprint_app_tests_pressing_j_multiple_times_navigates_down() {
    let mut app = create_test_app();

    app.handle_key_event(Key::Char('j'));
    app.handle_key_event(Key::Char('j'));
    app.handle_key_event(Key::Char('j'));

    assert_eq!(
        app.selected_pbi().unwrap().key,
        "TEST-104",
        "navigating down 3 times should reach 4th item"
    );
}

#[test]
fn sprint_app_tests_pressing_k_selects_item_above() {
    let mut app = create_test_app();
    app.handle_key_event(Key::Char('j'));
    app.handle_key_event(Key::Char('j'));
    assert_eq!(app.selected_pbi().unwrap().key, "TEST-103");

    app.handle_key_event(Key::Char('k'));

    assert_eq!(
        app.selected_pbi().unwrap().key,
        "TEST-102",
        "pressing 'k' should select the item above"
    );
}

#[test]
fn sprint_app_tests_pressing_down_arrow_navigates() {
    let mut app = create_test_app();

    app.handle_key_event(Key::Down);
    app.handle_key_event(Key::Down);

    assert_eq!(
        app.selected_pbi().unwrap().key,
        "TEST-103",
        "down arrow should navigate through list"
    );
}

#[test]
fn pressing_up_arrow_navigates() {
    let mut app = create_test_app();
    app.handle_key_event(Key::Down);
    app.handle_key_event(Key::Down);

    app.handle_key_event(Key::Up);

    assert_eq!(
        app.selected_pbi().unwrap().key,
        "TEST-102",
        "up arrow should navigate through list"
    );
}

#[test]
fn sprint_app_tests_pressing_j_at_bottom_wraps_to_top() {
    let mut app = create_test_app();
    for _ in 0..4 {
        app.handle_key_event(Key::Char('j'));
    }
    assert_eq!(app.selected_pbi().unwrap().key, "TEST-105");

    app.handle_key_event(Key::Char('j'));

    assert_eq!(
        app.selected_pbi().unwrap().key,
        "TEST-101",
        "pressing 'j' at bottom should wrap to top"
    );
}

#[test]
fn sprint_app_tests_pressing_k_at_top_wraps_to_bottom() {
    let mut app = create_test_app();
    assert_eq!(app.selected_pbi().unwrap().key, "TEST-101");

    app.handle_key_event(Key::Char('k'));

    assert_eq!(
        app.selected_pbi().unwrap().key,
        "TEST-105",
        "pressing 'k' at top should wrap to bottom"
    );
}

#[test]
fn sprint_app_tests_pressing_l_opens_detail_view() {
    let mut app = create_test_app();
    assert!(!app.is_detail_view());

    app.handle_key_event(Key::Char('l'));

    assert!(app.is_detail_view(), "pressing 'l' should open detail view");
}

#[test]
fn sprint_app_tests_pressing_right_arrow_opens_detail() {
    let mut app = create_test_app();
    assert!(!app.is_detail_view());

    app.handle_key_event(Key::Right);

    assert!(
        app.is_detail_view(),
        "pressing Right arrow should open detail view"
    );
}

#[test]
fn sprint_app_tests_pressing_q_exits() {
    let mut app = create_test_app();
    assert!(!app.is_exit());

    app.handle_key_event(Key::Char('q'));

    assert!(app.is_exit(), "pressing 'q' should set exit flag");
}

#[test]
fn sprint_app_tests_pressing_esc_exits() {
    let mut app = create_test_app();
    assert!(!app.is_exit());

    app.handle_key_event(Key::Esc);

    assert!(app.is_exit(), "pressing Escape should set exit flag");
}

#[test]
fn navigate_to_blocked_item_and_open_details() {
    let mut app = create_test_app();

    app.handle_key_event(Key::Char('j'));
    app.handle_key_event(Key::Char('j'));
    assert_eq!(app.selected_pbi().unwrap().status, "Blocked");

    app.handle_key_event(Key::Char('l'));

    assert!(app.is_detail_view());
}

#[test]
fn cycle_through_all_sprint_items() {
    let mut app = create_test_app();
    let mut visited_keys = vec![];

    for _ in 0..5 {
        visited_keys.push(app.selected_pbi().unwrap().key.clone());
        app.handle_key_event(Key::Char('j'));
    }

    assert_eq!(
        visited_keys,
        vec!["TEST-101", "TEST-102", "TEST-103", "TEST-104", "TEST-105"],
        "should cycle through all sprint items"
    );
}

#[test]
fn navigate_up_and_down_to_find_item() {
    let mut app = create_test_app();

    app.handle_key_event(Key::Char('j'));
    app.handle_key_event(Key::Char('j'));
    let third_item = app.selected_pbi().unwrap().key.clone();

    app.handle_key_event(Key::Char('k'));
    let second_item = app.selected_pbi().unwrap().key.clone();

    assert_eq!(third_item, "TEST-103");
    assert_eq!(second_item, "TEST-102");
}

#[test]
fn mix_vim_keys_and_arrow_keys() {
    let mut app = create_test_app();

    app.handle_key_event(Key::Char('j'));
    app.handle_key_event(Key::Down);
    app.handle_key_event(Key::Char('k'));
    app.handle_key_event(Key::Down);

    assert_eq!(
        app.selected_pbi().unwrap().key,
        "TEST-103",
        "mixing vim and arrow keys should work"
    );
}

#[test]
fn keys_in_the_detail_view_do_not_move_the_selection() {
    let mut app = create_test_app();
    app.handle_key_event(Key::Char('l'));
    assert!(app.is_detail_view());

    app.handle_key_event(Key::Char('j'));

    assert!(app.is_detail_view());
    assert_eq!(app.selected_pbi().unwrap().key, "TEST-101");
}

#[test]
fn going_left_in_the_detail_view_returns_to_the_sprint() {
    let mut app = create_test_app();
    app.handle_key_event(Key::Char('l'));
    let _ = app.app.process_command(JiraCommand::GoLeft);

    assert!(!app.is_detail_view());
    assert!(!app.is_exit());
}

#[test]
fn key_names_follow_the_binding_syntax() {
    assert_eq!(key_name(Key::Char('x')).as_deref(), Some("x"));
    assert_eq!(key_name(Key::Enter).as_deref(), Some("<CR>"));
    assert_eq!(key_name(Key::Esc).as_deref(), Some("<ESC>"));
    assert_eq!(key_name(Key::Backspace).as_deref(), Some("<BACKSPACE>"));
    assert_eq!(key_name(Key::Other), None);
}
