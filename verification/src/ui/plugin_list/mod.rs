//! The list of start-up plugins.

use vstd::prelude::*;
use crate::keymaps::Scope;
use crate::ui::shared::footer::Footer;

verus! {

/// What the plugin list asks of its screen.
pub enum PluginListAction {
    /// Go back.
    Back,
    /// Open this plugin file in the editor.
    OpenEditor(String),
}

/// The plugin list: the plugin files, which one is selected, and its
/// footer.
pub struct PluginListView {
    pub plugins: Vec<String>,
    pub selected: Option<usize>,
    pub footer: Footer,
}

impl PluginListView {
    /// A list of these plugin files, the first one selected.
    pub fn new(plugins: Vec<String>) -> (r: PluginListView)
        ensures
            r.plugins@ == plugins@,
            r.selected == (if plugins@.len() > 0 {
                Some(0usize)
            } else {
                None
            }),
            r.footer.scopes@ == seq![Scope::Global, Scope::Plugin],
            r.footer.status_msg@ == Seq::<char>::empty(),
    {
        let selected = if plugins.len() > 0 {
            Some(0)
        } else {
            None
        };
        let mut scopes: Vec<Scope> = Vec::new();
        scopes.push(Scope::Global);
        scopes.push(Scope::Plugin);
        PluginListView { plugins, selected, footer: Footer::new(scopes) }
    }

    /// Selects the next plugin, the first after the last.
    pub fn navigate_down(&mut self)
        requires
            old(self).selected != Some(usize::MAX),
        ensures
            final(self).plugins@ == old(self).plugins@,
            final(self).selected == (if old(self).plugins@.len() == 0 {
                old(self).selected
            } else {
                match old(self).selected {
                    Some(i) => Some(((i + 1) % (old(self).plugins@.len() as int)) as usize),
                    None => Some(0usize),
                }
            }),
    {
        if self.plugins.len() == 0 {
            return;
        }
        let next = match self.selected {
            Some(i) => (i + 1) % self.plugins.len(),
            None => 0,
        };
        self.selected = Some(next);
    }

    /// Selects the previous plugin, the last before the first (and when
    /// none was selected).
    pub fn navigate_up(&mut self)
        ensures
            final(self).plugins@ == old(self).plugins@,
            final(self).selected == (if old(self).plugins@.len() == 0 {
                old(self).selected
            } else {
                match old(self).selected {
                    Some(i) => if i == 0 {
                        Some((old(self).plugins@.len() - 1) as usize)
                    } else {
                        Some((i - 1) as usize)
                    },
                    None => Some((old(self).plugins@.len() - 1) as usize),
                }
            }),
    {
        if self.plugins.len() == 0 {
            return;
        }
        let prev = match self.selected {
            Some(i) => if i == 0 {
                self.plugins.len() - 1
            } else {
                i - 1
            },
            None => self.plugins.len() - 1,
        };
        self.selected = Some(prev);
    }

    /// The selected plugin file, if any.
    pub fn get_selected_plugin(&self) -> (r: Option<String>)
        ensures
            match r {
                Some(p) => self.selected matches Some(i) && i < self.plugins@.len() && p@ == self.plugins@[i as int]@,
                None => !(self.selected matches Some(i) && i < self.plugins@.len()),
            },
    {
        match self.selected {
            Some(i) => if i < self.plugins.len() {
                Some(self.plugins[i].clone())
            } else {
                None
            },
            None => None,
        }
    }
}

} // verus!
