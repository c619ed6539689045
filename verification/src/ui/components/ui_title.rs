//! A one-line title: a label followed by a highlighted description.

use vstd::prelude::*;

verus! {

/// A one-line title.
pub struct UiTitle {
    pub label: String,
    pub description: String,
}

impl UiTitle {
    pub fn new(label: &str, description: &str) -> (r: UiTitle)
        ensures
            r.label@ == label@,
            r.description@ == description@,
    {
        UiTitle { label: label.to_owned(), description: description.to_owned() }
    }

    /// The text of the line: the label, then the description.
    pub fn text(&self) -> (r: String)
        ensures
            r@ == self.label@ + self.description@,
    {
        let mut s = self.label.clone();
        s.append(self.description.as_str());
        s
    }

    /// The title takes one line.
    pub fn height(&self) -> (r: u16)
        ensures
            r == 1,
    {
        1
    }
}

} // verus!
