//! The issue list screen: the found issues in a table, their detail view
//! and the filter editor, driven by commands, keys and fetch results.

use vstd::prelude::*;
use crate::commands::JiraCommand;
use crate::json::Json;
use crate::lists::{ListFilter, ListFilterV};
use crate::pbi::{Pbi, PbiV, pbi_views};
use crate::text::decimal_spec;
use crate::ui::components::ui_table::{next_row, prev_row};
use crate::ui::keys::Key;
use crate::ui::pbi_detail::{PbiDetailView, dec_sat, detail_step, inc_sat};
use crate::ui::pbi_list::filter_editor::{EditorActionV, FilterEditor, FilterEditorAction, FilterEditorV, action_view, editor_step};
use crate::ui::pbi_list::footer::Footer;
use crate::ui::pbi_list::table::IssueTable;

verus! {

/// What the issue list screen shows.
pub enum ListView {
    List,
    Detail(Box<PbiDetailView>),
    FilterEditor(Box<FilterEditor>),
}

/// The value of what the screen shows.
pub enum ListViewV {
    List,
    /// The detail view of an issue, scrolled down this many lines.
    Detail(PbiV, u16),
    FilterEditor(FilterEditorV),
}

/// Outside work the issue list asks for.
pub enum ListEffect {
    /// Search the issues of this filter in the background; answer with
    /// `on_fetched`.
    Fetch(ListFilter),
    /// Open the issue with this key in the browser; report the outcome with
    /// `on_status`.
    OpenInBrowser(String),
}

/// The value of an effect.
pub enum ListEffectV {
    Fetch(ListFilterV),
    OpenInBrowser(Seq<char>),
}

/// The values of a list of effects.
pub open spec fn list_effects_view(e: Seq<ListEffect>) -> Seq<ListEffectV> {
    e.map_values(
        |x: ListEffect|
            match x {
                ListEffect::Fetch(f) => ListEffectV::Fetch(f@),
                ListEffect::OpenInBrowser(k) => ListEffectV::OpenInBrowser(k@),
            },
    )
}

/// The value of the issue list screen.
pub struct PbiListAppV {
    pub issues: Seq<PbiV>,
    pub filter: ListFilterV,
    pub selected: Option<usize>,
    pub status: Seq<char>,
    pub view: ListViewV,
    pub exit: bool,
    /// The issue whose raw JSON is to be opened in the editor.
    pub raw_pbi: Option<PbiV>,
    /// Whether a search runs in the background.
    pub fetching: bool,
}

/// The issue list screen.
pub struct PbiListApp {
    pub issues: Vec<Pbi>,
    pub filter: ListFilter,
    pub table: IssueTable,
    pub footer: Footer,
    pub active_view: ListView,
    pub exit: bool,
    pub fetching: bool,
    pub selected_pbi: Option<Pbi>,
}

/// The value of what the screen shows.
pub open spec fn list_view_of(v: ListView) -> ListViewV {
    match v {
        ListView::List => ListViewV::List,
        ListView::Detail(d) => ListViewV::Detail(d.pbi@, d.desc_scroll),
        ListView::FilterEditor(e) => ListViewV::FilterEditor(e@),
    }
}

impl View for PbiListApp {
    type V = PbiListAppV;

    open spec fn view(&self) -> PbiListAppV {
        PbiListAppV {
            issues: pbi_views(self.issues@),
            filter: self.filter@,
            selected: self.table.selected,
            status: self.footer.status_msg@,
            view: list_view_of(self.active_view),
            exit: self.exit,
            raw_pbi: crate::ui::sprint_list::app::opt_pbi(self.selected_pbi),
            fetching: self.fetching,
        }
    }
}

/// The issue at the selected row, if any.
pub open spec fn selected_issue(s: PbiListAppV) -> Option<PbiV> {
    match s.selected {
        Some(i) => if i < s.issues.len() {
            Some(s.issues[i as int])
        } else {
            None
        },
        None => None,
    }
}

/// The message shown while a search runs.
pub open spec fn fetching_text() -> Seq<char> {
    "Fetching from Jira\u{2026}"@
}

/// Starting a search for `f`: the screen says so and the search is asked
/// for.
pub open spec fn fetch_step(s: PbiListAppV, f: ListFilterV) -> (PbiListAppV, Seq<ListEffectV>) {
    (PbiListAppV { status: fetching_text(), fetching: true, ..s }, seq![ListEffectV::Fetch(f)])
}

/// A command on the issue table: moving the selection (wrapping around),
/// opening the selected issue, quitting, searching again, opening in the
/// browser, asking for the raw JSON, or opening the filter editor.
pub open spec fn list_command_step(s: PbiListAppV, cmd: JiraCommand) -> (PbiListAppV, Seq<ListEffectV>) {
    let n = s.issues.len() as usize;
    match cmd {
        JiraCommand::GoUp => (PbiListAppV { selected: Some(prev_row(s.selected, n)), ..s }, Seq::empty()),
        JiraCommand::GoDown => (PbiListAppV { selected: Some(next_row(s.selected, n)), ..s }, Seq::empty()),
        JiraCommand::GoRight | JiraCommand::OpenPbiDetails => match selected_issue(s) {
            Some(p) => (PbiListAppV { view: ListViewV::Detail(p, 0), ..s }, Seq::empty()),
            None => (s, Seq::empty()),
        },
        JiraCommand::Quit => (PbiListAppV { exit: true, ..s }, Seq::empty()),
        JiraCommand::Refresh | JiraCommand::RefreshAll => fetch_step(s, s.filter),
        JiraCommand::OpenInBrowser => match selected_issue(s) {
            Some(p) => (s, seq![ListEffectV::OpenInBrowser(p.key)]),
            None => (s, Seq::empty()),
        },
        JiraCommand::OpenRawPbiJson => match selected_issue(s) {
            Some(p) => (PbiListAppV { raw_pbi: Some(p), ..s }, Seq::empty()),
            None => (s, Seq::empty()),
        },
        JiraCommand::OpenFilter => (
            PbiListAppV {
                view: ListViewV::FilterEditor(
                    FilterEditorV {
                        filter: s.filter,
                        mode: crate::ui::pbi_list::filter_editor::EditorMode::PickField,
                        selected: Some(0),
                        input: Seq::empty(),
                    },
                ),
                ..s
            },
            Seq::empty(),
        ),
        _ => (s, Seq::empty()),
    }
}

/// A command in the detail view of issue `p`: back to the list, scroll, or
/// ask for the raw JSON.
pub open spec fn list_detail_step(s: PbiListAppV, p: PbiV, scroll: u16, cmd: JiraCommand) -> PbiListAppV {
    match cmd {
        JiraCommand::GoLeft => PbiListAppV { view: ListViewV::List, ..s },
        JiraCommand::GoUp => PbiListAppV { view: ListViewV::Detail(p, dec_sat(scroll)), ..s },
        JiraCommand::GoDown => PbiListAppV { view: ListViewV::Detail(p, inc_sat(scroll)), ..s },
        JiraCommand::OpenRawPbiJson => PbiListAppV { raw_pbi: Some(p), ..s },
        _ => s,
    }
}

/// What a command does, by what the screen shows (the filter editor takes
/// keys, not commands).
pub open spec fn list_step(s: PbiListAppV, cmd: JiraCommand) -> (PbiListAppV, Seq<ListEffectV>) {
    match s.view {
        ListViewV::List => list_command_step(s, cmd),
        ListViewV::Detail(p, scroll) => (list_detail_step(s, p, scroll, cmd), Seq::empty()),
        ListViewV::FilterEditor(_) => (s, Seq::empty()),
    }
}

/// What a key does, by what the screen shows: the detail view scrolls, the
/// filter editor edits and, when it is applied, the list shows its filter
/// and searches again (or closes); on the table the key bindings run as
/// commands instead.
pub open spec fn list_key_step(s: PbiListAppV, key: Key) -> (PbiListAppV, Seq<ListEffectV>) {
    match s.view {
        ListViewV::Detail(p, scroll) => (
            PbiListAppV { view: ListViewV::Detail(p, detail_step(scroll, key).0), ..s },
            Seq::empty(),
        ),
        ListViewV::FilterEditor(e) => {
            let (e2, act) = editor_step(e, key);
            match act {
                Some(EditorActionV::Apply(f)) => fetch_step(PbiListAppV { filter: f, view: ListViewV::List, ..s }, f),
                Some(EditorActionV::Close) => (PbiListAppV { view: ListViewV::List, ..s }, Seq::empty()),
                None => (PbiListAppV { view: ListViewV::FilterEditor(e2), ..s }, Seq::empty()),
            }
        },
        ListViewV::List => (s, Seq::empty()),
    }
}

/// ` JIRA Issues  ·  N results`.
pub open spec fn list_title_spec(n: nat) -> Seq<char> {
    " JIRA Issues"@ + "  \u{b7}  "@ + decimal_spec(n) + " results"@
}

/// The line naming the active filter: its query, or that there is none.
pub open spec fn active_filters_spec(jql: Seq<char>) -> Seq<char> {
    if jql.len() == 0 {
        "  No filters active"@
    } else {
        "  Filter: "@ + jql
    }
}

impl PbiListApp {
    /// The screen for `issues` found with `filter`, the first row selected.
    pub fn new(issues: Vec<Pbi>, filter: ListFilter) -> (r: PbiListApp)
        ensures
            r@ == (PbiListAppV {
                issues: pbi_views(issues@),
                filter: filter@,
                selected: if issues@.len() > 0 {
                    Some(0usize)
                } else {
                    None
                },
                status: Seq::empty(),
                view: ListViewV::List,
                exit: false,
                raw_pbi: None,
                fetching: false,
            }),
    {
        let table = IssueTable::new(issues.len());
        PbiListApp {
            issues,
            filter,
            table,
            footer: Footer::new(),
            active_view: ListView::List,
            exit: false,
            fetching: false,
            selected_pbi: None,
        }
    }

    /// A copy of the issue at the selected row, if any.
    pub fn get_selected_pbi(&self) -> (r: Option<Pbi>)
        ensures
            crate::ui::sprint_list::app::opt_pbi(r) == selected_issue(self@),
    {
        match self.table.selected {
            Some(i) => if i < self.issues.len() {
                Some(self.issues[i].copy())
            } else {
                None
            },
            None => None,
        }
    }

    /// The issue at the selected row, if any.
    pub fn selected_pbi(&self) -> (r: Option<&Pbi>)
        ensures
            match r {
                Some(p) => selected_issue(self@) == Some(p@),
                None => selected_issue(self@) is None,
            },
    {
        match self.table.selected {
            Some(i) => if i < self.issues.len() {
                Some(&self.issues[i])
            } else {
                None
            },
            None => None,
        }
    }

    /// Starts a search for `filter`.
    fn start_fetch(&mut self, filter: ListFilter) -> (r: Vec<ListEffect>)
        ensures
            (final(self)@, list_effects_view(r@)) == fetch_step(old(self)@, filter@),
    {
        self.footer.set_status("Fetching from Jira\u{2026}");
        self.fetching = true;
        let mut out: Vec<ListEffect> = Vec::new();
        let ghost fv = filter@;
        out.push(ListEffect::Fetch(filter));
        proof {
            reveal_strlit("Fetching from Jira\u{2026}");
            assert(list_effects_view(out@) =~= seq![ListEffectV::Fetch(fv)]);
        }
        out
    }

    /// Runs a command (see [`list_step`]); the outside work it asks for.
    pub fn process_command(&mut self, cmd: JiraCommand) -> (r: Vec<ListEffect>)
        ensures
            (final(self)@, list_effects_view(r@)) == list_step(old(self)@, cmd),
    {
        let none: Vec<ListEffect> = Vec::new();
        proof {
            assert(list_effects_view(none@) =~= Seq::<ListEffectV>::empty());
        }
        let mut view = ListView::List;
        std::mem::swap(&mut view, &mut self.active_view);
        match view {
            ListView::Detail(b) => {
                let mut d = *b;
                match cmd {
                    JiraCommand::GoLeft => {},
                    JiraCommand::GoUp => {
                        d.scroll_up();
                        self.active_view = ListView::Detail(Box::new(d));
                    },
                    JiraCommand::GoDown => {
                        d.scroll_down();
                        self.active_view = ListView::Detail(Box::new(d));
                    },
                    JiraCommand::OpenRawPbiJson => {
                        self.selected_pbi = Some(d.pbi.copy());
                        self.active_view = ListView::Detail(Box::new(d));
                    },
                    _ => {
                        self.active_view = ListView::Detail(Box::new(d));
                    },
                }
                none
            },
            ListView::FilterEditor(e) => {
                self.active_view = ListView::FilterEditor(e);
                none
            },
            ListView::List => {
                self.process_list_command(cmd)
            },
        }
    }

    fn process_list_command(&mut self, cmd: JiraCommand) -> (r: Vec<ListEffect>)
        requires
            old(self).active_view is List,
        ensures
            (final(self)@, list_effects_view(r@)) == list_command_step(old(self)@, cmd),
    {
        let none: Vec<ListEffect> = Vec::new();
        proof {
            assert(list_effects_view(none@) =~= Seq::<ListEffectV>::empty());
        }
        match cmd {
            JiraCommand::GoUp => {
                self.table.navigate_up(self.issues.len());
                none
            },
            JiraCommand::GoDown => {
                self.table.navigate_down(self.issues.len());
                none
            },
            JiraCommand::GoRight | JiraCommand::OpenPbiDetails => {
                match self.get_selected_pbi() {
                    Some(p) => {
                        self.active_view = ListView::Detail(Box::new(PbiDetailView::new(p)));
                    },
                    None => {},
                }
                none
            },
            JiraCommand::Quit => {
                self.exit = true;
                none
            },
            JiraCommand::Refresh | JiraCommand::RefreshAll => {
                let f = self.filter.copy();
                self.start_fetch(f)
            },
            JiraCommand::OpenInBrowser => {
                match self.get_selected_pbi() {
                    Some(p) => {
                        let mut out: Vec<ListEffect> = Vec::new();
                        let ghost k = p.key@;
                        out.push(ListEffect::OpenInBrowser(p.key));
                        assert(list_effects_view(out@) =~= seq![ListEffectV::OpenInBrowser(k)]);
                        out
                    },
                    None => none,
                }
            },
            JiraCommand::OpenRawPbiJson => {
                match self.get_selected_pbi() {
                    Some(p) => {
                        self.selected_pbi = Some(p);
                    },
                    None => {},
                }
                none
            },
            JiraCommand::OpenFilter => {
                let editor = FilterEditor::new(self.filter.copy());
                self.active_view = ListView::FilterEditor(Box::new(editor));
                none
            },
            _ => none,
        }
    }

    /// Handles a key (see [`list_key_step`]); the outside work it asks for.
    pub fn handle_key_event(&mut self, key: Key) -> (r: Vec<ListEffect>)
        ensures
            (final(self)@, list_effects_view(r@)) == list_key_step(old(self)@, key),
    {
        let none: Vec<ListEffect> = Vec::new();
        proof {
            assert(list_effects_view(none@) =~= Seq::<ListEffectV>::empty());
        }
        let mut view = ListView::List;
        std::mem::swap(&mut view, &mut self.active_view);
        match view {
            ListView::Detail(b) => {
                let mut d = *b;
                let _ = d.handle_key(key);
                self.active_view = ListView::Detail(Box::new(d));
                none
            },
            ListView::FilterEditor(b) => {
                let mut e = *b;
                match e.handle_key(key) {
                    Some(FilterEditorAction::Apply(f)) => {
                        let nf = *f;
                        self.filter = nf.copy();
                        self.start_fetch(nf)
                    },
                    Some(FilterEditorAction::Close) => none,
                    None => {
                        self.active_view = ListView::FilterEditor(Box::new(e));
                        none
                    },
                }
            },
            ListView::List => none,
        }
    }

    /// The answer of a search: the issues found replace the list (first
    /// row selected) and their number is shown, or the error is shown.
    pub fn on_fetched(&mut self, result: Result<Vec<Pbi>, String>)
        ensures
            match result {
                Ok(v) => final(self)@ == (PbiListAppV {
                    issues: pbi_views(v@),
                    selected: if v@.len() > 0 {
                        Some(0usize)
                    } else {
                        None
                    },
                    status: decimal_spec(v@.len()) + " issues loaded"@,
                    fetching: false,
                    ..old(self)@
                }),
                Err(e) => final(self)@ == (PbiListAppV {
                    status: "Error: "@ + e@,
                    fetching: false,
                    ..old(self)@
                }),
            },
    {
        self.fetching = false;
        match result {
            Ok(issues) => {
                let count = issues.len();
                self.issues = issues;
                self.table.reset_selection(count);
                let mut m = crate::text::decimal(count as u64);
                m.append(" issues loaded");
                self.footer.set_status(m.as_str());
                proof {
                    reveal_strlit(" issues loaded");
                }
            },
            Err(e) => {
                let mut m = String::from_str("Error: ");
                m.append(e.as_str());
                self.footer.set_status(m.as_str());
                proof {
                    reveal_strlit("Error: ");
                }
            },
        }
    }

    /// Shows `msg` as the status.
    pub fn on_status(&mut self, msg: &str)
        ensures
            final(self)@ == (PbiListAppV { status: msg@, ..old(self)@ }),
    {
        self.footer.set_status(msg);
    }

    /// Takes the issue whose raw JSON is to be opened, if any.
    pub fn take_raw_pbi(&mut self) -> (r: Option<Pbi>)
        ensures
            crate::ui::sprint_list::app::opt_pbi(r) == old(self)@.raw_pbi,
            final(self)@ == (PbiListAppV { raw_pbi: None, ..old(self)@ }),
    {
        let mut r: Option<Pbi> = None;
        std::mem::swap(&mut r, &mut self.selected_pbi);
        r
    }

    /// The title bar.
    pub fn title(&self) -> (r: String)
        ensures
            r@ == list_title_spec(self@.issues.len()),
    {
        let mut t = String::from_str(" JIRA Issues");
        t.append("  \u{b7}  ");
        let n = crate::text::decimal(self.issues.len() as u64);
        t.append(n.as_str());
        t.append(" results");
        proof {
            reveal_strlit(" JIRA Issues");
            reveal_strlit("  \u{b7}  ");
            reveal_strlit(" results");
        }
        t
    }

    /// The line naming the active filter, its values' aliases looked up in
    /// the configuration `doc`.
    pub fn active_filters(&self, doc: &Json) -> (r: String)
        requires
            self@.filter.readable_in(doc@),
        ensures
            r@ == active_filters_spec(self@.filter.jql(doc@)),
    {
        let jql = self.filter.to_jql(doc);
        proof {
            reveal_strlit("  No filters active");
            reveal_strlit("  Filter: ");
        }
        if jql.unicode_len() == 0 {
            String::from_str("  No filters active")
        } else {
            let mut t = String::from_str("  Filter: ");
            t.append(jql.as_str());
            t
        }
    }

    /// Whether the screen should close.
    pub fn is_exit(&self) -> (r: bool)
        ensures
            r == self@.exit,
    {
        self.exit
    }

    /// Whether the detail view is shown.
    pub fn is_detail_view(&self) -> (r: bool)
        ensures
            r == (self@.view is Detail),
    {
        match &self.active_view {
            ListView::Detail(_) => true,
            _ => false,
        }
    }

    /// Whether the filter editor is shown.
    pub fn is_filter_editor(&self) -> (r: bool)
        ensures
            r == (self@.view is FilterEditor),
    {
        match &self.active_view {
            ListView::FilterEditor(_) => true,
            _ => false,
        }
    }
}

} // verus!
