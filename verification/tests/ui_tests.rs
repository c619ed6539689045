use jira::ui::components::ui_boxed_title::UiBoxedTitle;
use jira::ui::components::ui_footer::UiFooter;
use jira::ui::components::ui_title::UiTitle;
use jira::ui::components::progress::BarColor;
use jira::ui::components::ui_sprint_progress::UiSprintProgress;
use jira::ui::components::ui_table::{row_above, row_below};
use jira::ui::pbi_detail::{status_color, TextColor};
use jira::ui::shared::editor::{browse_url, browser_status, editor_program, raw_file_name};

// 2026-03-15, a Sunday, in days since 1970-01-01.
const SUNDAY_2026_03_15: i64 = 20527;

fn progress(resolved: usize, total: usize, end: &str) -> UiSprintProgress {
    UiSprintProgress::new(" Sprint Progress ", total, resolved, end)
}

#[test]
fn rendering_sprint_progress_with_low_progress_renders_it_with_red_bar() {
    let p = progress(1, 10, "2026-03-20");
    assert_eq!(p.get_bars(), format!("[{}{}]", "\u{2588}", "\u{2591}".repeat(9)));
    assert_eq!(p.calculate_percentage(), 10);
    assert!(matches!(p.get_color(), BarColor::Red));
    assert_eq!(p.get_label_on(SUNDAY_2026_03_15), "5 working days left");
}

#[test]
fn rendering_sprint_progress_at_50_percent_renders_it_with_yellow_bar() {
    let p = progress(5, 10, "2026-03-15");
    assert_eq!(p.calculate_percentage(), 50);
    assert!(matches!(p.get_color(), BarColor::Yellow));
    assert_eq!(p.get_label_on(SUNDAY_2026_03_15), "Sprint ends today!");
}

#[test]
fn rendering_sprint_progress_at_100_percent_renders_it_with_green_bar() {
    let p = progress(10, 10, "2026-04-05");
    assert_eq!(p.calculate_percentage(), 100);
    assert!(matches!(p.get_color(), BarColor::Green));
    assert_eq!(p.get_label_on(SUNDAY_2026_03_15), "15 working days left");
}

#[test]
fn a_missing_end_date_has_no_label() {
    let p = progress(0, 0, "");
    assert_eq!(p.calculate_percentage(), 0);
    assert_eq!(p.get_label_on(SUNDAY_2026_03_15), "");
}

#[test]
fn rows_wrap_around_both_ways() {
    assert_eq!(row_below(Some(4), 5), 0);
    assert_eq!(row_below(Some(1), 5), 2);
    assert_eq!(row_below(None, 5), 0);
    assert_eq!(row_above(Some(0), 5), 4);
    assert_eq!(row_above(Some(3), 5), 2);
    assert_eq!(row_above(None, 5), 0);
    // A step down then up returns to the row.
    for i in 0..5 {
        assert_eq!(row_above(Some(row_below(Some(i), 5)), 5), i);
    }
}

#[test]
fn status_colors_ignore_case() {
    assert_eq!(status_color("IN PROGRESS"), TextColor::Blue);
    assert_eq!(status_color("Closed"), TextColor::Green);
    assert_eq!(status_color("Auto-Resolved"), TextColor::Green);
    assert_eq!(status_color("In Review"), TextColor::Magenta);
    assert_eq!(status_color("BLOCKED"), TextColor::Red);
    assert_eq!(status_color("Open"), TextColor::White);
}

#[test]
fn browser_and_editor_helpers() {
    assert_eq!(browse_url("https://x.atlassian.net", "P-1"), "https://x.atlassian.net/browse/P-1");
    assert_eq!(browser_status("u", Ok(())), Ok("Opened u".to_string()));
    assert_eq!(browser_status("u", Err("no".to_string())), Err("Failed to open browser: no".to_string()));
    assert_eq!(raw_file_name("P-1"), "jira_raw_P-1.json");
    assert_eq!(editor_program(None, Some("nano".to_string())), "nano");
    assert_eq!(editor_program(Some("code".to_string()), Some("nano".to_string())), "code");
    assert_eq!(editor_program(None, None), "vi");
}

#[test]
fn titles_boxes_and_footers_have_fixed_heights() {
    assert_eq!(UiTitle::new(" Sprint: ", "x").height(), 1);
    assert_eq!(UiBoxedTitle::new(" Goal ", "y").height(), 3);
    assert_eq!(UiFooter::new(vec![]).height(), 1);
}

#[test]
fn ui_title_rendering_title_renders_label_and_description() {
    let title = UiTitle::new(" Sprint: ", "This is my description.");
    assert_eq!(title.text(), " Sprint: This is my description.");
    assert_eq!(title.text().chars().count(), 32);
}

#[test]
fn ui_boxed_title_rendering_title_renders_label_and_description() {
    let boxed = UiBoxedTitle::new("My Boxed Title", "This is the content of the boxed title.");
    assert_eq!(boxed.title, "My Boxed Title");
    assert_eq!(boxed.content, "This is the content of the boxed title.");
    assert!(!boxed.skip());
    assert!(UiBoxedTitle::new("My Boxed Title", "").skip());
}
