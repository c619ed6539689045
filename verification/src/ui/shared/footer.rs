//! The footer of the shared issue table: key hints for some scopes and a
//! status message.

use vstd::prelude::*;
use crate::keymaps::Scope;
use crate::ui::components::ui_footer::{status_span, status_text};

verus! {

/// The footer: the key bindings of `scopes` and a status message.
pub struct Footer {
    pub status_msg: String,
    pub scopes: Vec<Scope>,
}

impl Footer {
    /// A footer for `scopes`, without status.
    pub fn new(scopes: Vec<Scope>) -> (r: Footer)
        ensures
            r.status_msg@ == Seq::<char>::empty(),
            r.scopes@ == scopes@,
    {
        Footer { status_msg: String::new(), scopes }
    }

    /// Shows `msg` as the status.
    pub fn set_status(&mut self, msg: &str)
        ensures
            final(self).status_msg@ == msg@,
            final(self).scopes@ == old(self).scopes@,
    {
        self.status_msg = msg.to_owned();
    }

    /// Removes the status.
    pub fn clear_status(&mut self)
        ensures
            final(self).status_msg@ == Seq::<char>::empty(),
            final(self).scopes@ == old(self).scopes@,
    {
        self.status_msg = String::new();
    }

    /// The status as shown after the key hints.
    pub fn status_line(&self) -> (r: String)
        ensures
            r@ == status_text(self.status_msg@),
    {
        status_span(self.status_msg.as_str())
    }
}

impl Default for Footer {
    /// A footer without scopes and without status.
    fn default() -> (r: Footer)
        ensures
            r.status_msg@ == Seq::<char>::empty(),
            r.scopes@ == Seq::<Scope>::empty(),
    {
        Footer::new(Vec::new())
    }
}

} // verus!
