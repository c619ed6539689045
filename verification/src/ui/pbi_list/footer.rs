//! The footer of the issue list: the described key bindings and a status
//! message.

use vstd::prelude::*;
use crate::ui::components::ui_footer::{status_span, status_text};

verus! {

/// The footer of the issue list.
pub struct Footer {
    pub status_msg: String,
}

impl Footer {
    pub fn new() -> (r: Footer)
        ensures
            r.status_msg@ == Seq::<char>::empty(),
    {
        Footer { status_msg: String::new() }
    }

    /// Shows `msg` as the status.
    pub fn set_status(&mut self, msg: &str)
        ensures
            final(self).status_msg@ == msg@,
    {
        self.status_msg = msg.to_owned();
    }

    /// Removes the status.
    pub fn clear_status(&mut self)
        ensures
            final(self).status_msg@ == Seq::<char>::empty(),
    {
        self.status_msg = String::new();
    }

    /// The status as shown after the key hints.
    pub fn status_line(&self) -> (r: String)
        ensures
            r@ == status_text(self.status_msg@),
    {
        status_span(self.status_msg.as_str())
    }
}

} // verus!
