//! The footer of the sprint screen: the built-in key hints, the plugins'
//! key bindings and a status message.

use vstd::prelude::*;
use crate::ui::components::ui_footer::{status_span, status_text};

verus! {

/// The footer of the sprint screen.
pub struct Footer {
    pub status_msg: String,
}

/// The built-in key hints, in order: (key, description).
pub open spec fn sprint_hints() -> Seq<(Seq<char>, Seq<char>)> {
    seq![
        ("\u{21b5}"@, "Start"@),
        ("f"@, "Load line"@),
        ("F"@, "Load all"@),
        ("o"@, "Browser"@),
        ("q"@, "Quit"@),
    ]
}

impl Footer {
    pub fn new() -> (r: Footer)
        ensures
            r.status_msg@ == Seq::<char>::empty(),
    {
        Footer { status_msg: String::new() }
    }

    /// Shows `msg` as the status.
    pub fn set_status(&mut self, msg: &str)
        ensures
            final(self).status_msg@ == msg@,
    {
        self.status_msg = msg.to_owned();
    }

    /// Removes the status.
    pub fn clear_status(&mut self)
        ensures
            final(self).status_msg@ == Seq::<char>::empty(),
    {
        self.status_msg = String::new();
    }

    /// The status as shown after the key hints.
    pub fn status_line(&self) -> (r: String)
        ensures
            r@ == status_text(self.status_msg@),
    {
        status_span(self.status_msg.as_str())
    }

    /// The built-in key hints, each as the key and its description: ` desc`
    /// followed by two spaces, except after the last one.
    pub fn hints(&self) -> (r: Vec<(&'static str, String)>)
        ensures
            r@.len() == 5,
            forall|i: int| 0 <= i < 5 ==> (#[trigger] r@[i]).0@ == sprint_hints()[i].0 && r@[i].1@ == " "@
                + sprint_hints()[i].1 + (if i == 4 {
                ""@
            } else {
                "  "@
            }),
    {
        let mut v: Vec<(&'static str, String)> = Vec::new();
        v.push(("\u{21b5}", hint_text("Start", false)));
        v.push(("f", hint_text("Load line", false)));
        v.push(("F", hint_text("Load all", false)));
        v.push(("o", hint_text("Browser", false)));
        v.push(("q", hint_text("Quit", true)));
        v
    }
}

/// ` desc`, followed by two spaces unless it is the last hint.
fn hint_text(desc: &str, last: bool) -> (r: String)
    ensures
        r@ == " "@ + desc@ + (if last {
            ""@
        } else {
            "  "@
        }),
{
    let mut s = " ".to_owned();
    s.append(desc);
    if last {
        s.append("");
    } else {
        s.append("  ");
    }
    s
}

} // verus!
