//! The sprint screen's state and what it does with the commands it gets.
//! Outside work (fetching from Jira, the browser, the cache file, listing
//! plugin files) is asked for as effects, whose answers come back through
//! the `on_...` methods.

use vstd::prelude::*;
use crate::commands::JiraCommand;
use crate::json::Json;
use crate::keymaps::Scope;
use crate::pbi::{Pbi, PbiV, pbi_views, story_points_readable, with_details};
use crate::sprint::{Sprint, SprintV, by_rank, sort_by_status};
use crate::text::{decimal, decimal_spec, starts_with};
use crate::ui::components::ui_footer::UiFooter;
use crate::ui::components::ui_table::{next_row, prev_row};
use crate::ui::pbi_detail::{PbiDetailView, dec_sat, inc_sat};
use crate::ui::plugin_list::PluginListView;
use crate::ui::shared::pbi_table::actions::{TableAction, TableActionV, action_view, actions_view};
use crate::ui::shared::pbi_table::columns::TableColumn;
use crate::ui::shared::pbi_table::{PbiTable, command_actions, command_selection};

verus! {

/// What the sprint screen shows.
pub enum ActiveView {
    Sprint,
    PbiDetail(Box<PbiDetailView>),
    PluginList(Box<PluginListView>),
}

/// Outside work the sprint screen asks for.
pub enum SprintEffect {
    /// Open the issue with this key in the browser; report the outcome with
    /// `on_status`.
    OpenInBrowser(String),
    /// Fetch the details of the sprint's issue at this index; answer with
    /// `on_pbi_loaded`.
    FetchPbi(usize),
    /// Fetch the details of the issue in the detail view (this key); answer
    /// with `on_detail_loaded`.
    FetchDetail(String),
    /// Assign the issue (first) to the account (second); report a failure
    /// with `on_assign_failed`.
    Assign(String, String),
    /// Move the issue (first) to the status (second); report a failure with
    /// `on_status_change_failed`.
    ChangeStatus(String, String),
    /// Reload the sprint of this board in the background; answer with
    /// `on_sprint_loaded`.
    LoadSprint(String),
    /// Save the sprint to the cache file.
    SaveCache,
    /// List the plugin files; answer with `on_plugins_listed`.
    ListPlugins,
}

/// The value of an effect.
pub enum EffectV {
    OpenInBrowser(Seq<char>),
    FetchPbi(usize),
    FetchDetail(Seq<char>),
    Assign(Seq<char>, Seq<char>),
    ChangeStatus(Seq<char>, Seq<char>),
    LoadSprint(Seq<char>),
    SaveCache,
    ListPlugins,
}

/// The value of an effect.
pub open spec fn effect_view(e: SprintEffect) -> EffectV {
    match e {
        SprintEffect::OpenInBrowser(k) => EffectV::OpenInBrowser(k@),
        SprintEffect::FetchPbi(i) => EffectV::FetchPbi(i),
        SprintEffect::FetchDetail(k) => EffectV::FetchDetail(k@),
        SprintEffect::Assign(p, a) => EffectV::Assign(p@, a@),
        SprintEffect::ChangeStatus(p, s) => EffectV::ChangeStatus(p@, s@),
        SprintEffect::LoadSprint(b) => EffectV::LoadSprint(b@),
        SprintEffect::SaveCache => EffectV::SaveCache,
        SprintEffect::ListPlugins => EffectV::ListPlugins,
    }
}

/// The values of a list of effects.
pub open spec fn effects_view(v: Seq<SprintEffect>) -> Seq<EffectV> {
    v.map_values(|e: SprintEffect| effect_view(e))
}

/// The value of what the screen shows.
pub enum ViewV {
    Sprint,
    /// The detail view of an issue, scrolled down this many lines.
    Detail(PbiV, u16),
    /// The plugin list: the plugin files and the selected one.
    Plugins(Seq<Seq<char>>, Option<usize>),
}

/// The value of the sprint screen.
pub struct SprintAppV {
    pub selected: Option<usize>,
    pub columns: Seq<TableColumn>,
    pub table_pbis: Seq<PbiV>,
    pub status: Seq<char>,
    pub exit: bool,
    pub view: ViewV,
    pub raw_pbi: Option<PbiV>,
    pub plugin_edit: Option<Seq<char>>,
    pub sprint: SprintV,
    pub loading: bool,
}

/// The sprint screen.
pub struct SprintApp {
    pub table: PbiTable,
    pub footer: UiFooter,
    pub exit: bool,
    pub active_view: ActiveView,
    /// An issue to open in the editor, as raw JSON.
    pub selected_pbi: Option<Pbi>,
    /// A plugin file to open in the editor.
    pub pending_plugin_edit: Option<String>,
    pub sprint: Sprint,
    /// Whether the sprint is being reloaded in the background.
    pub loading: bool,
}

/// The value of what the screen shows.
pub open spec fn view_of(v: ActiveView) -> ViewV {
    match v {
        ActiveView::Sprint => ViewV::Sprint,
        ActiveView::PbiDetail(d) => ViewV::Detail(d.pbi@, d.desc_scroll),
        ActiveView::PluginList(p) => ViewV::Plugins(crate::text::strs(p.plugins@), p.selected),
    }
}

/// An optional issue's value.
pub open spec fn opt_pbi(p: Option<Pbi>) -> Option<PbiV> {
    match p {
        Some(x) => Some(x@),
        None => None,
    }
}

impl View for SprintApp {
    type V = SprintAppV;

    open spec fn view(&self) -> SprintAppV {
        SprintAppV {
            selected: self.table.table.selected,
            columns: self.table.table.column_config.columns@,
            table_pbis: pbi_views(self.table.table.pbis@),
            status: self.footer.status_msg@,
            exit: self.exit,
            view: view_of(self.active_view),
            raw_pbi: opt_pbi(self.selected_pbi),
            plugin_edit: crate::json::opt_view(self.pending_plugin_edit),
            sprint: self.sprint@,
            loading: self.loading,
        }
    }
}

/// What one action of the table does to the screen, and the outside work
/// it asks for.
pub open spec fn dispatch_one(s: SprintAppV, a: TableActionV) -> (SprintAppV, Seq<EffectV>) {
    match a {
        TableActionV::Exit => (SprintAppV { exit: true, ..s }, Seq::empty()),
        TableActionV::SetStatus(m) => (SprintAppV { status: m, ..s }, Seq::empty()),
        TableActionV::ClearStatus => (SprintAppV { status: Seq::empty(), ..s }, Seq::empty()),
        TableActionV::SaveCache => (s, seq![EffectV::SaveCache]),
        TableActionV::OpenDetail(p) => (SprintAppV { view: ViewV::Detail(p, 0), ..s }, Seq::empty()),
        TableActionV::OpenPlugins => (s, seq![EffectV::ListPlugins]),
        TableActionV::OpenRaw(i) => if i < s.sprint.pbis.len() {
            (SprintAppV { raw_pbi: Some(s.sprint.pbis[i as int]), ..s }, Seq::empty())
        } else {
            (s, Seq::empty())
        },
        TableActionV::Refresh(i) => (s, seq![EffectV::FetchPbi(i)]),
        TableActionV::OpenInBrowser(k) => (s, seq![EffectV::OpenInBrowser(k)]),
        _ => (s, Seq::empty()),
    }
}

/// What a list of actions does, one after the other.
pub open spec fn dispatch_all(s: SprintAppV, acts: Seq<TableActionV>) -> (SprintAppV, Seq<EffectV>)
    decreases acts.len(),
{
    if acts.len() == 0 {
        (s, Seq::empty())
    } else {
        let (s1, e1) = dispatch_all(s, acts.drop_last());
        let (s2, e2) = dispatch_one(s1, acts.last());
        (s2, e1 + e2)
    }
}

/// The message shown while the sprint reloads.
pub open spec fn refreshing_text() -> Seq<char> {
    "Refreshing sprint from Jira\u{2026}"@
}

/// A command on the sprint's table: the table moves its selection or adds
/// a column and gives actions; reloading the sprint starts a background
/// load (unless one runs) and says so, opening the plugin list lists the
/// plugins, a message is shown, and assigning or moving an issue is asked
/// of Jira.
pub open spec fn sprint_step(s: SprintAppV, cmd: JiraCommand) -> (SprintAppV, Seq<EffectV>) {
    let acts = command_actions(cmd, s.selected, s.sprint.pbis);
    let s0 = SprintAppV {
        selected: command_selection(cmd, s.selected, s.table_pbis.len() as usize),
        columns: match cmd {
            JiraCommand::AddColumn(c) => s.columns.push(TableColumn::Custom(c)),
            _ => s.columns,
        },
        ..s
    };
    let (s1, more, effects) = match cmd {
        JiraCommand::RefreshAll => if s.loading {
            (s0, seq![TableActionV::SetStatus(refreshing_text())], Seq::<EffectV>::empty())
        } else {
            (
                SprintAppV { loading: true, ..s0 },
                seq![TableActionV::SetStatus(refreshing_text())],
                seq![EffectV::LoadSprint(s.sprint.board_id)],
            )
        },
        JiraCommand::OpenPluginList => (s0, seq![TableActionV::OpenPlugins], Seq::<EffectV>::empty()),
        JiraCommand::Print(m) => (s0, seq![TableActionV::SetStatus(m@)], Seq::<EffectV>::empty()),
        JiraCommand::AssignPbi(p, a) => (s0, Seq::<TableActionV>::empty(), seq![EffectV::Assign(p@, a@)]),
        JiraCommand::ChangePbiStatus(p, st) => (s0, Seq::<TableActionV>::empty(), seq![EffectV::ChangeStatus(p@, st@)]),
        _ => (s0, Seq::<TableActionV>::empty(), Seq::<EffectV>::empty()),
    };
    let (s2, e2) = dispatch_all(s1, acts + more);
    (s2, effects + e2)
}

/// A command in the detail view of issue `p`: back to the sprint, quit,
/// scroll, open the raw JSON, open in the browser, or fetch its details.
pub open spec fn detail_command_step(s: SprintAppV, p: PbiV, scroll: u16, cmd: JiraCommand) -> (SprintAppV, Seq<EffectV>) {
    match cmd {
        JiraCommand::GoLeft => (SprintAppV { view: ViewV::Sprint, ..s }, Seq::empty()),
        JiraCommand::Quit => (SprintAppV { exit: true, ..s }, Seq::empty()),
        JiraCommand::GoUp => (SprintAppV { view: ViewV::Detail(p, dec_sat(scroll)), ..s }, Seq::empty()),
        JiraCommand::GoDown => (SprintAppV { view: ViewV::Detail(p, inc_sat(scroll)), ..s }, Seq::empty()),
        JiraCommand::OpenRawPbiJson => (SprintAppV { raw_pbi: Some(p), ..s }, Seq::empty()),
        JiraCommand::OpenInBrowser => (s, seq![EffectV::OpenInBrowser(p.key)]),
        JiraCommand::Refresh => (s, seq![EffectV::FetchDetail(p.key)]),
        _ => (s, Seq::empty()),
    }
}

/// A command in the plugin list: back to the sprint (also on quit), move
/// the selection (wrapping around), or pick the selected file to edit.
pub open spec fn plugin_command_step(s: SprintAppV, plugins: Seq<Seq<char>>, sel: Option<usize>, cmd: JiraCommand) -> (
    SprintAppV,
    Seq<EffectV>,
) {
    let n = plugins.len();
    match cmd {
        JiraCommand::GoLeft | JiraCommand::Quit => (SprintAppV { view: ViewV::Sprint, ..s }, Seq::empty()),
        JiraCommand::GoUp => (
            SprintAppV {
                view: ViewV::Plugins(
                    plugins,
                    if n == 0 {
                        sel
                    } else {
                        match sel {
                            Some(i) => if i == 0 {
                                Some((n - 1) as usize)
                            } else {
                                Some((i - 1) as usize)
                            },
                            None => Some((n - 1) as usize),
                        }
                    },
                ),
                ..s
            },
            Seq::empty(),
        ),
        JiraCommand::GoDown => (
            SprintAppV {
                view: ViewV::Plugins(
                    plugins,
                    if n == 0 {
                        sel
                    } else {
                        match sel {
                            Some(i) => Some(((i + 1) % (n as int)) as usize),
                            None => Some(0usize),
                        }
                    },
                ),
                ..s
            },
            Seq::empty(),
        ),
        JiraCommand::EditPluginSelected | JiraCommand::GoRight => match sel {
            Some(i) => if i < n {
                (SprintAppV { plugin_edit: Some(plugins[i as int]), ..s }, Seq::empty())
            } else {
                (s, Seq::empty())
            },
            None => (s, Seq::empty()),
        },
        _ => (s, Seq::empty()),
    }
}

/// What a command does to the sprint screen, by what it shows.
pub open spec fn command_step(s: SprintAppV, cmd: JiraCommand) -> (SprintAppV, Seq<EffectV>) {
    match s.view {
        ViewV::Sprint => sprint_step(s, cmd),
        ViewV::Detail(p, scroll) => detail_command_step(s, p, scroll, cmd),
        ViewV::Plugins(plugins, sel) => plugin_command_step(s, plugins, sel, cmd),
    }
}

/// The plugin list's selection can move down: it holds no more files
/// than a vector can, and the selection is not the largest index.
pub open spec fn app_wf(s: SprintAppV) -> bool {
    s.view matches ViewV::Plugins(plugins, sel) ==> plugins.len() <= usize::MAX && sel != Some(usize::MAX)
}

/// The table's actions keep the screen well formed.
pub proof fn lemma_dispatch_keeps_wf(s: SprintAppV, acts: Seq<TableActionV>)
    requires
        app_wf(s),
    ensures
        app_wf(dispatch_all(s, acts).0),
    decreases acts.len(),
{
    if acts.len() > 0 {
        lemma_dispatch_keeps_wf(s, acts.drop_last());
    }
}

/// Every command keeps the sprint screen well formed, so that the next
/// command can be carried out.
pub proof fn law_commands_keep_wf(s: SprintAppV, cmd: JiraCommand)
    requires
        app_wf(s),
    ensures
        app_wf(command_step(s, cmd).0),
{
    match s.view {
        ViewV::Sprint => {
            let acts = command_actions(cmd, s.selected, s.sprint.pbis);
            let s0 = SprintAppV {
                selected: command_selection(cmd, s.selected, s.table_pbis.len() as usize),
                columns: match cmd {
                    JiraCommand::AddColumn(c) => s.columns.push(TableColumn::Custom(c)),
                    _ => s.columns,
                },
                ..s
            };
            let (s1, more, effects) = match cmd {
                JiraCommand::RefreshAll => if s.loading {
                    (s0, seq![TableActionV::SetStatus(refreshing_text())], Seq::<EffectV>::empty())
                } else {
                    (
                        SprintAppV { loading: true, ..s0 },
                        seq![TableActionV::SetStatus(refreshing_text())],
                        seq![EffectV::LoadSprint(s.sprint.board_id)],
                    )
                },
                JiraCommand::OpenPluginList => (s0, seq![TableActionV::OpenPlugins], Seq::<EffectV>::empty()),
                JiraCommand::Print(m) => (s0, seq![TableActionV::SetStatus(m@)], Seq::<EffectV>::empty()),
                JiraCommand::AssignPbi(p, a) => (s0, Seq::<TableActionV>::empty(), seq![EffectV::Assign(p@, a@)]),
                JiraCommand::ChangePbiStatus(p, st) => (
                    s0,
                    Seq::<TableActionV>::empty(),
                    seq![EffectV::ChangeStatus(p@, st@)],
                ),
                _ => (s0, Seq::<TableActionV>::empty(), Seq::<EffectV>::empty()),
            };
            lemma_dispatch_keeps_wf(s1, acts + more);
        },
        _ => {},
    }
}

/// A copy of a list of issues.
fn copy_pbis(v: &Vec<Pbi>) -> (r: Vec<Pbi>)
    ensures
        pbi_views(r@) == pbi_views(v@),
{
    let mut out: Vec<Pbi> = Vec::new();
    let mut i: usize = 0;
    while i < v.len()
        invariant
            i <= v@.len(),
            out@.len() == i,
            forall|j: int| 0 <= j < i ==> #[trigger] out@[j]@ == v@[j]@,
        decreases v@.len() - i,
    {
        out.push(v[i].copy());
        i = i + 1;
    }
    assert(pbi_views(out@) =~= pbi_views(v@));
    out
}

impl SprintApp {
    /// The screen for `sprint`: its issues in the table (first row
    /// selected), the sprint view shown, the footer with the sprint, global
    /// and issue key bindings.
    pub fn new(sprint: Sprint) -> (r: SprintApp)
        ensures
            r@ == (SprintAppV {
                selected: Some(0usize),
                columns: Seq::empty(),
                table_pbis: sprint@.pbis,
                status: Seq::empty(),
                exit: false,
                view: ViewV::Sprint,
                raw_pbi: None,
                plugin_edit: None,
                sprint: sprint@,
                loading: false,
            }),
            r.footer.scopes@ == seq![Scope::Sprint, Scope::Global, Scope::Pbi],
            app_wf(r@),
    {
        let table = PbiTable::new(copy_pbis(&sprint.pbis));
        let mut scopes: Vec<Scope> = Vec::new();
        scopes.push(Scope::Sprint);
        scopes.push(Scope::Global);
        scopes.push(Scope::Pbi);
        let r = SprintApp {
            table,
            footer: UiFooter::new(scopes),
            exit: false,
            active_view: ActiveView::Sprint,
            selected_pbi: None,
            pending_plugin_edit: None,
            sprint,
            loading: false,
        };
        assert(r@.columns =~= Seq::<TableColumn>::empty());
        r
    }

    /// Carries out one action of the table.
    fn dispatch(&mut self, action: TableAction) -> (r: Vec<SprintEffect>)
        ensures
            (final(self)@, effects_view(r@)) == dispatch_one(old(self)@, action_view(action)),
            final(self).footer.scopes@ == old(self).footer.scopes@,
    {
        let mut out: Vec<SprintEffect> = Vec::new();
        match action {
            TableAction::Exit => {
                self.exit = true;
            },
            TableAction::SetStatus(msg) => {
                self.footer.set_status(msg.as_str());
            },
            TableAction::ClearStatus => {
                self.footer.clear_status();
            },
            TableAction::SaveCache => {
                out.push(SprintEffect::SaveCache);
            },
            TableAction::OpenDetail(p) => {
                self.active_view = ActiveView::PbiDetail(Box::new(PbiDetailView::new(*p)));
            },
            TableAction::OpenPlugins => {
                out.push(SprintEffect::ListPlugins);
            },
            TableAction::OpenRaw(idx) => {
                if idx < self.sprint.pbis.len() {
                    self.selected_pbi = Some(self.sprint.pbis[idx].copy());
                }
            },
            TableAction::Refresh(idx) => {
                out.push(SprintEffect::FetchPbi(idx));
            },
            TableAction::OpenInBrowser(key) => {
                out.push(SprintEffect::OpenInBrowser(key));
            },
            _ => {},
        }
        proof {
            assert(effects_view(out@) =~= dispatch_one(old(self)@, action_view(action)).1);
        }
        out
    }

    /// Carries out a list of actions, in order.
    fn dispatch_actions(&mut self, actions: Vec<TableAction>) -> (r: Vec<SprintEffect>)
        ensures
            (final(self)@, effects_view(r@)) == dispatch_all(old(self)@, actions_view(actions@)),
            final(self).footer.scopes@ == old(self).footer.scopes@,
    {
        let mut out: Vec<SprintEffect> = Vec::new();
        let mut actions = actions;
        let ghost all = actions_view(actions@);
        let mut done: usize = 0;
        let ghost start = self@;
        let total = actions.len();
        assert(all.len() == total);
        proof {
            assert(all.take(0) =~= Seq::<TableActionV>::empty());
            assert(effects_view(out@) =~= Seq::<EffectV>::empty());
        }
        while actions.len() > 0
            invariant
                done + actions@.len() == all.len(),
                all.len() <= usize::MAX,
                actions_view(actions@) == all.skip(done as int),
                (self@, effects_view(out@)) == dispatch_all(start, all.take(done as int)),
                self.footer.scopes@ == old(self).footer.scopes@,
            decreases actions@.len(),
        {
            let ghost prev = actions@;
            let a = actions.remove(0);
            assert(action_view(a) == all[done as int]) by {
                assert(all.skip(done as int)[0] == all[done as int]);
                assert(actions_view(prev)[0] == action_view(prev[0]));
            }
            proof {
                assert forall|j: int| 0 <= j < actions@.len() implies #[trigger] actions_view(actions@)[j] == all.skip(
                    done + 1,
                )[j] by {
                    assert(actions@[j] == prev[j + 1]);
                    assert(actions_view(prev)[j + 1] == all.skip(done as int)[j + 1]);
                }
                assert(actions_view(actions@) =~= all.skip(done + 1));
            }
            let ghost before = out@;
            let mut more = self.dispatch(a);
            let ghost more_v = more@;
            out.append(&mut more);
            proof {
                assert(all.take(done + 1).drop_last() =~= all.take(done as int));
                assert(all.take(done + 1).last() == all[done as int]);
                assert(out@ =~= before + more_v);
                assert(effects_view(out@) =~= effects_view(before) + effects_view(more_v));
            }
            done = done + 1;
        }
        assert(all.take(all.len() as int) =~= all);
        out
    }
}

impl SprintApp {
    fn process_sprint_command(&mut self, cmd: JiraCommand) -> (r: Vec<SprintEffect>)
        requires
            old(self)@.view == ViewV::Sprint,
        ensures
            (final(self)@, effects_view(r@)) == sprint_step(old(self)@, cmd),
            final(self).footer.scopes@ == old(self).footer.scopes@,
    {
        let mut actions = self.table.handle_command(&cmd, self.sprint.pbis.as_slice());
        let ghost acts = actions_view(actions@);
        let mut effects: Vec<SprintEffect> = Vec::new();
        match &cmd {
            JiraCommand::RefreshAll => {
                if !self.loading {
                    self.loading = true;
                    effects.push(SprintEffect::LoadSprint(self.sprint.board_id.clone()));
                }
                actions.push(TableAction::SetStatus("Refreshing sprint from Jira\u{2026}".to_owned()));
            },
            JiraCommand::OpenPluginList => {
                actions.push(TableAction::OpenPlugins);
            },
            JiraCommand::Print(msg) => {
                actions.push(TableAction::SetStatus(msg.clone()));
            },
            JiraCommand::AssignPbi(p, a) => {
                effects.push(SprintEffect::Assign(p.clone(), a.clone()));
            },
            JiraCommand::ChangePbiStatus(p, st) => {
                effects.push(SprintEffect::ChangeStatus(p.clone(), st.clone()));
            },
            _ => {},
        }
        let ghost mid = self@;
        let ghost eff = effects_view(effects@);
        proof {
            let (s1, more, e0) = match cmd {
                JiraCommand::RefreshAll => if old(self)@.loading {
                    (mid, seq![TableActionV::SetStatus(refreshing_text())], Seq::<EffectV>::empty())
                } else {
                    (
                        mid,
                        seq![TableActionV::SetStatus(refreshing_text())],
                        seq![EffectV::LoadSprint(old(self)@.sprint.board_id)],
                    )
                },
                JiraCommand::OpenPluginList => (mid, seq![TableActionV::OpenPlugins], Seq::<EffectV>::empty()),
                JiraCommand::Print(m) => (mid, seq![TableActionV::SetStatus(m@)], Seq::<EffectV>::empty()),
                JiraCommand::AssignPbi(p, a) => (mid, Seq::<TableActionV>::empty(), seq![EffectV::Assign(p@, a@)]),
                JiraCommand::ChangePbiStatus(p, st) => (
                    mid,
                    Seq::<TableActionV>::empty(),
                    seq![EffectV::ChangeStatus(p@, st@)],
                ),
                _ => (mid, Seq::<TableActionV>::empty(), Seq::<EffectV>::empty()),
            };
            assert(actions_view(actions@) =~= acts + more);
            assert(eff =~= e0);
        }
        let mut more = self.dispatch_actions(actions);
        let ghost more_v = more@;
        let ghost before = effects@;
        effects.append(&mut more);
        proof {
            assert(effects@ =~= before + more_v);
            assert(effects_view(effects@) =~= effects_view(before) + effects_view(more_v));
        }
        effects
    }

    fn process_detail_command(&mut self, cmd: JiraCommand) -> (r: Vec<SprintEffect>)
        requires
            old(self)@.view is Detail,
        ensures
            (final(self)@, effects_view(r@)) == (match old(self)@.view {
                ViewV::Detail(p, scroll) => detail_command_step(old(self)@, p, scroll, cmd),
                _ => (old(self)@, Seq::empty()),
            }),
            final(self).footer.scopes@ == old(self).footer.scopes@,
    {
        let mut out: Vec<SprintEffect> = Vec::new();
        let mut view = ActiveView::Sprint;
        std::mem::swap(&mut view, &mut self.active_view);
        match view {
            ActiveView::PbiDetail(b) => {
                let mut d = *b;
                match cmd {
                    JiraCommand::GoLeft => {},
                    JiraCommand::Quit => {
                        self.exit = true;
                        self.active_view = ActiveView::PbiDetail(Box::new(d));
                    },
                    JiraCommand::GoUp => {
                        d.scroll_up();
                        self.active_view = ActiveView::PbiDetail(Box::new(d));
                    },
                    JiraCommand::GoDown => {
                        d.scroll_down();
                        self.active_view = ActiveView::PbiDetail(Box::new(d));
                    },
                    JiraCommand::OpenRawPbiJson => {
                        self.selected_pbi = Some(d.pbi.copy());
                        self.active_view = ActiveView::PbiDetail(Box::new(d));
                    },
                    JiraCommand::OpenInBrowser => {
                        out.push(SprintEffect::OpenInBrowser(d.pbi.key.clone()));
                        self.active_view = ActiveView::PbiDetail(Box::new(d));
                    },
                    JiraCommand::Refresh => {
                        out.push(SprintEffect::FetchDetail(d.pbi.key.clone()));
                        self.active_view = ActiveView::PbiDetail(Box::new(d));
                    },
                    _ => {
                        self.active_view = ActiveView::PbiDetail(Box::new(d));
                    },
                }
            },
            _ => {
                self.active_view = view;
            },
        }
        proof {
            match old(self)@.view {
                ViewV::Detail(p, scroll) => {
                    assert(effects_view(out@) =~= detail_command_step(old(self)@, p, scroll, cmd).1);
                },
                _ => {},
            }
        }
        out
    }

    fn process_plugin_command(&mut self, cmd: JiraCommand) -> (r: Vec<SprintEffect>)
        requires
            old(self)@.view is Plugins,
            app_wf(old(self)@),
        ensures
            (final(self)@, effects_view(r@)) == (match old(self)@.view {
                ViewV::Plugins(plugins, sel) => plugin_command_step(old(self)@, plugins, sel, cmd),
                _ => (old(self)@, Seq::empty()),
            }),
            final(self).footer.scopes@ == old(self).footer.scopes@,
    {
        let out: Vec<SprintEffect> = Vec::new();
        let mut view = ActiveView::Sprint;
        std::mem::swap(&mut view, &mut self.active_view);
        match view {
            ActiveView::PluginList(b) => {
                let mut pl = *b;
                match cmd {
                    JiraCommand::GoLeft | JiraCommand::Quit => {},
                    JiraCommand::GoUp => {
                        pl.navigate_up();
                        self.active_view = ActiveView::PluginList(Box::new(pl));
                    },
                    JiraCommand::GoDown => {
                        pl.navigate_down();
                        self.active_view = ActiveView::PluginList(Box::new(pl));
                    },
                    JiraCommand::EditPluginSelected | JiraCommand::GoRight => {
                        match pl.get_selected_plugin() {
                            Some(path) => {
                                self.pending_plugin_edit = Some(path);
                            },
                            None => {},
                        }
                        self.active_view = ActiveView::PluginList(Box::new(pl));
                    },
                    _ => {
                        self.active_view = ActiveView::PluginList(Box::new(pl));
                    },
                }
            },
            _ => {
                self.active_view = view;
            },
        }
        proof {
            assert(effects_view(out@) =~= Seq::<EffectV>::empty());
            match old(self)@.view {
                ViewV::Plugins(plugins, sel) => {
                    if let ViewV::Plugins(p2, _) = self@.view {
                        assert(p2 == plugins);
                    }
                },
                _ => {},
            }
        }
        out
    }

    /// Carries out a command sent by a key binding or a plugin (see
    /// [`command_step`]) and returns the outside work it asks for.
    pub fn process_command(&mut self, cmd: JiraCommand) -> (r: Vec<SprintEffect>)
        requires
            app_wf(old(self)@),
        ensures
            (final(self)@, effects_view(r@)) == command_step(old(self)@, cmd),
            final(self).footer.scopes@ == old(self).footer.scopes@,
            app_wf(final(self)@),
    {
        proof {
            law_commands_keep_wf(old(self)@, cmd);
        }
        let kind: u8 = match &self.active_view {
            ActiveView::Sprint => 0,
            ActiveView::PbiDetail(_) => 1,
            ActiveView::PluginList(_) => 2,
        };
        if kind == 0 {
            self.process_sprint_command(cmd)
        } else if kind == 1 {
            self.process_detail_command(cmd)
        } else {
            self.process_plugin_command(cmd)
        }
    }
}

/// The message shown once the sprint reloaded with `count` issues.
pub open spec fn refreshed_text(count: nat) -> Seq<char> {
    "Refreshed \u{2014} "@ + decimal_spec(count) + " issues loaded"@
}

impl SprintApp {
    /// Shows a message in the footer (what opening the browser reported).
    pub fn on_status(&mut self, msg: &str)
        ensures
            final(self)@ == (SprintAppV { status: msg@, ..old(self)@ }),
            final(self).footer.scopes@ == old(self).footer.scopes@,
            app_wf(old(self)@) ==> app_wf(final(self)@),
    {
        self.footer.set_status(msg);
    }

    /// Reports that assigning `pbi_id` to `account_id` failed.
    pub fn on_assign_failed(&mut self, pbi_id: &str, account_id: &str)
        ensures
            final(self)@ == (SprintAppV {
                status: "Error assigning "@ + pbi_id@ + " to "@ + account_id@,
                ..old(self)@
            }),
            final(self).footer.scopes@ == old(self).footer.scopes@,
            app_wf(old(self)@) ==> app_wf(final(self)@),
    {
        let mut m = "Error assigning ".to_owned();
        m.append(pbi_id);
        m.append(" to ");
        m.append(account_id);
        self.footer.set_status(m.as_str());
    }

    /// Reports that moving `pbi_id` to `status` failed.
    pub fn on_status_change_failed(&mut self, pbi_id: &str, status: &str)
        ensures
            final(self)@ == (SprintAppV {
                status: "Error changing "@ + pbi_id@ + " status to "@ + status@,
                ..old(self)@
            }),
            final(self).footer.scopes@ == old(self).footer.scopes@,
            app_wf(old(self)@) ==> app_wf(final(self)@),
    {
        let mut m = "Error changing ".to_owned();
        m.append(pbi_id);
        m.append(" status to ");
        m.append(status);
        self.footer.set_status(m.as_str());
    }

    /// Shows the plugin list with these plugin files.
    pub fn on_plugins_listed(&mut self, plugins: Vec<String>)
        ensures
            final(self)@ == (SprintAppV {
                view: ViewV::Plugins(
                    crate::text::strs(plugins@),
                    if plugins@.len() > 0 {
                        Some(0usize)
                    } else {
                        None
                    },
                ),
                ..old(self)@
            }),
            final(self).footer.scopes@ == old(self).footer.scopes@,
            app_wf(final(self)@),
    {
        let n = plugins.len();
        assert(crate::text::strs(plugins@).len() == n);
        self.active_view = ActiveView::PluginList(Box::new(PluginListView::new(plugins)));
    }

    /// Takes the details fetched for the sprint's issue `idx` (the issue
    /// answer, or the error's text): a loaded issue is updated, the issues
    /// are ordered by status again and the cache is saved.
    pub fn on_pbi_loaded(&mut self, idx: usize, fetched: Result<&Json, String>, doc: &Json) -> (r: Vec<SprintEffect>)
        requires
            fetched matches Ok(resp) ==> story_points_readable(resp@.idx("fields"@), doc@),
        ensures
            idx >= old(self)@.sprint.pbis.len() ==> final(self)@ == old(self)@ && effects_view(r@) == Seq::<
                EffectV,
            >::empty(),
            idx < old(self)@.sprint.pbis.len() ==> match fetched {
                Ok(resp) => {
                    &&& final(self)@ == (SprintAppV {
                        sprint: SprintV {
                            pbis: by_rank(
                                old(self)@.sprint.pbis.update(
                                    idx as int,
                                    with_details(old(self)@.sprint.pbis[idx as int], resp@, doc@),
                                ),
                            ),
                            ..old(self)@.sprint
                        },
                        status: "Loaded "@ + old(self)@.sprint.pbis[idx as int].key,
                        ..old(self)@
                    })
                    &&& effects_view(r@) == seq![EffectV::SaveCache]
                },
                Err(e) => {
                    &&& final(self)@ == (SprintAppV {
                        status: "Error loading "@ + old(self)@.sprint.pbis[idx as int].key + ": "@ + e@,
                        ..old(self)@
                    })
                    &&& effects_view(r@) == Seq::<EffectV>::empty()
                },
            },
            final(self).footer.scopes@ == old(self).footer.scopes@,
            app_wf(old(self)@) ==> app_wf(final(self)@),
    {
        let ghost outcome: Result<crate::json::JsonV, Seq<char>> = match &fetched {
            Ok(resp) => Ok(resp@),
            Err(e) => Err(e@),
        };
        let mut actions = self.table.load_pbi(idx, &mut self.sprint.pbis, fetched, doc);
        let ghost a0 = actions_view(actions@);
        let loaded = if actions.len() > 0 {
            match &actions[0] {
                TableAction::SetStatus(msg) => starts_with(msg.as_str(), "Loaded"),
                _ => false,
            }
        } else {
            false
        };
        proof {
            reveal_strlit("Loaded");
            reveal_strlit("Loaded ");
            reveal_strlit("Error loading ");
            if idx < old(self)@.sprint.pbis.len() {
                match outcome {
                    Ok(_) => {
                        assert(("Loaded "@ + old(self)@.sprint.pbis[idx as int].key).take(6) =~= "Loaded"@);
                    },
                    Err(e) => {
                        assert(("Error loading "@ + old(self)@.sprint.pbis[idx as int].key + ": "@ + e)[0] == 'E');
                        assert("Loaded"@[0] == 'L');
                    },
                }
            }
        }
        if loaded {
            sort_by_status(&mut self.sprint.pbis);
            actions.push(TableAction::SaveCache);
        }
        assert(actions_view(actions@) =~= (if loaded {
            a0.push(TableActionV::SaveCache)
        } else {
            a0
        }));
        let ghost mid = self@;
        let r = self.dispatch_actions(actions);
        proof {
            if idx >= old(self)@.sprint.pbis.len() {
                assert(a0 =~= Seq::<TableActionV>::empty());
                assert(mid =~= old(self)@);
            }
            if idx < old(self)@.sprint.pbis.len() {
                reveal_with_fuel(dispatch_all, 3);
                match outcome {
                    Ok(_) => {
                        let av = seq![
                            TableActionV::SetStatus("Loaded "@ + old(self)@.sprint.pbis[idx as int].key),
                            TableActionV::SaveCache,
                        ];
                        assert(av.drop_last() =~= seq![TableActionV::SetStatus("Loaded "@ + old(self)@.sprint.pbis[idx as int].key)]);
                        assert(av.drop_last().drop_last() =~= Seq::<TableActionV>::empty());
                    },
                    Err(e) => {
                        let av = seq![
                            TableActionV::SetStatus(
                                "Error loading "@ + old(self)@.sprint.pbis[idx as int].key + ": "@ + e,
                            ),
                        ];
                        assert(av.drop_last() =~= Seq::<TableActionV>::empty());
                    },
                }
            }
        }
        r
    }

    /// Takes the details fetched for the issue in the detail view (the
    /// issue answer, or the error's text) and reports it.
    pub fn on_detail_loaded(&mut self, fetched: Result<&Json, String>, doc: &Json)
        requires
            fetched matches Ok(resp) ==> story_points_readable(resp@.idx("fields"@), doc@),
        ensures
            match old(self)@.view {
                ViewV::Detail(p, scroll) => match fetched {
                    Ok(resp) => final(self)@ == (SprintAppV {
                        view: ViewV::Detail(with_details(p, resp@, doc@), scroll),
                        status: "Loaded "@ + p.key,
                        ..old(self)@
                    }),
                    Err(e) => final(self)@ == (SprintAppV { status: "Error: "@ + e@, ..old(self)@ }),
                },
                _ => final(self)@ == old(self)@,
            },
            final(self).footer.scopes@ == old(self).footer.scopes@,
            app_wf(old(self)@) ==> app_wf(final(self)@),
    {
        let mut view = ActiveView::Sprint;
        std::mem::swap(&mut view, &mut self.active_view);
        match view {
            ActiveView::PbiDetail(b) => {
                let mut d = *b;
                match fetched {
                    Ok(resp) => {
                        d.pbi.apply_details(resp, doc);
                        let mut m = "Loaded ".to_owned();
                        m.append(d.pbi.key.as_str());
                        self.footer.set_status(m.as_str());
                    },
                    Err(e) => {
                        let mut m = "Error: ".to_owned();
                        m.append(e.as_str());
                        self.footer.set_status(m.as_str());
                    },
                }
                self.active_view = ActiveView::PbiDetail(Box::new(d));
            },
            _ => {
                self.active_view = view;
            },
        }
    }

    /// Takes the sprint reloaded in the background (or the error's text):
    /// the new sprint replaces the old one in the screen and the table, and
    /// is saved to the cache.
    pub fn on_sprint_loaded(&mut self, result: Result<Sprint, String>) -> (r: Vec<SprintEffect>)
        ensures
            match result {
                Ok(s) => {
                    &&& final(self)@ == (SprintAppV {
                        sprint: s@,
                        table_pbis: s@.pbis,
                        selected: if old(self)@.selected is Some {
                            old(self)@.selected
                        } else if s@.pbis.len() > 0 {
                            Some(0usize)
                        } else {
                            None
                        },
                        status: refreshed_text(s@.pbis.len()),
                        loading: false,
                        ..old(self)@
                    })
                    &&& effects_view(r@) == seq![EffectV::SaveCache]
                },
                Err(e) => {
                    &&& final(self)@ == (SprintAppV {
                        status: "Error refreshing sprint: "@ + e@,
                        loading: false,
                        ..old(self)@
                    })
                    &&& effects_view(r@) == Seq::<EffectV>::empty()
                },
            },
            final(self).footer.scopes@ == old(self).footer.scopes@,
            app_wf(old(self)@) ==> app_wf(final(self)@),
    {
        self.loading = false;
        let mut out: Vec<SprintEffect> = Vec::new();
        match result {
            Ok(s) => {
                let count = s.pbis.len();
                self.sprint = s;
                let mut m = "Refreshed \u{2014} ".to_owned();
                let c = decimal(count as u64);
                m.append(c.as_str());
                m.append(" issues loaded");
                self.footer.set_status(m.as_str());
                let copy = copy_pbis(&self.sprint.pbis);
                self.table.load(copy);
                out.push(SprintEffect::SaveCache);
                assert(effects_view(out@) =~= seq![EffectV::SaveCache]);
            },
            Err(e) => {
                let mut m = "Error refreshing sprint: ".to_owned();
                m.append(e.as_str());
                self.footer.set_status(m.as_str());
                assert(effects_view(out@) =~= Seq::<EffectV>::empty());
            },
        }
        out
    }

    /// A key pressed while the detail view is shown scrolls it (the key
    /// bindings of the other views run as plugin commands).
    pub fn handle_key_event(&mut self, key: crate::ui::keys::Key)
        ensures
            match old(self)@.view {
                ViewV::Detail(p, scroll) => final(self)@ == (SprintAppV {
                    view: ViewV::Detail(p, crate::ui::pbi_detail::detail_step(scroll, key).0),
                    ..old(self)@
                }),
                _ => final(self)@ == old(self)@,
            },
            final(self).footer.scopes@ == old(self).footer.scopes@,
            app_wf(old(self)@) ==> app_wf(final(self)@),
    {
        let mut view = ActiveView::Sprint;
        std::mem::swap(&mut view, &mut self.active_view);
        match view {
            ActiveView::PbiDetail(b) => {
                let mut d = *b;
                let _ = d.handle_key(key);
                self.active_view = ActiveView::PbiDetail(Box::new(d));
            },
            _ => {
                self.active_view = view;
            },
        }
    }

    /// The issue at the selected row of the sprint, if any.
    pub fn selected_pbi(&self) -> (r: Option<&Pbi>)
        ensures
            match r {
                Some(p) => crate::ui::shared::pbi_table::selected_of(self@.selected, self@.sprint.pbis) == Some(p@),
                None => crate::ui::shared::pbi_table::selected_of(self@.selected, self@.sprint.pbis) is None,
            },
    {
        self.table.selected(self.sprint.pbis.as_slice())
    }

    /// Whether the screen should close.
    pub fn is_exit(&self) -> (r: bool)
        ensures
            r == self@.exit,
    {
        self.exit
    }

    /// Whether the detail view is shown.
    pub fn is_detail_view(&self) -> (r: bool)
        ensures
            r == (self@.view is Detail),
    {
        match &self.active_view {
            ActiveView::PbiDetail(_) => true,
            _ => false,
        }
    }

    /// The sprint's issues.
    pub fn pbis(&self) -> (r: &[Pbi])
        ensures
            pbi_views(r@) == self@.sprint.pbis,
    {
        self.sprint.pbis.as_slice()
    }

    /// The sprint's end date.
    pub fn sprint_end_date(&self) -> (r: &str)
        ensures
            r@ == self@.sprint.end_date,
    {
        self.sprint.end_date.as_str()
    }
}

} // verus!
