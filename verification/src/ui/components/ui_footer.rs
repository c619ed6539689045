//! The footer widget: key hints for some scopes and a status message.

use vstd::prelude::*;
use crate::keymaps::Scope;

verus! {

/// How a status message is shown after the key hints: `  [message]`, or
/// nothing for an empty message.
pub open spec fn status_text(msg: Seq<char>) -> Seq<char> {
    if msg.len() == 0 {
        Seq::empty()
    } else {
        "  ["@ + msg + "]"@
    }
}

/// Shows a status message as the footers do.
pub fn status_span(msg: &str) -> (r: String)
    ensures
        r@ == status_text(msg@),
{
    if msg.unicode_len() == 0 {
        String::new()
    } else {
        let mut s = "  [".to_owned();
        s.append(msg);
        s.append("]");
        s
    }
}

/// The footer: the key bindings of `scopes` and a status message.
pub struct UiFooter {
    pub status_msg: String,
    pub scopes: Vec<Scope>,
}

impl UiFooter {
    /// A footer for `scopes`, without status.
    pub fn new(scopes: Vec<Scope>) -> (r: UiFooter)
        ensures
            r.status_msg@ == Seq::<char>::empty(),
            r.scopes@ == scopes@,
    {
        UiFooter { status_msg: String::new(), scopes }
    }

    /// Shows `msg` as the status.
    pub fn set_status(&mut self, msg: &str)
        ensures
            final(self).status_msg@ == msg@,
            final(self).scopes@ == old(self).scopes@,
    {
        self.status_msg = msg.to_owned();
    }

    /// Removes the status.
    pub fn clear_status(&mut self)
        ensures
            final(self).status_msg@ == Seq::<char>::empty(),
            final(self).scopes@ == old(self).scopes@,
    {
        self.status_msg = String::new();
    }

    /// The status as shown after the key hints.
    pub fn status_line(&self) -> (r: String)
        ensures
            r@ == status_text(self.status_msg@),
    {
        status_span(self.status_msg.as_str())
    }

    /// The footer takes one line.
    pub fn height(&self) -> (r: u16)
        ensures
            r == 1,
    {
        1
    }
}

} // verus!
