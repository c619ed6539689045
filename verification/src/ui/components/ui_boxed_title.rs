//! A bordered block with a title and wrapped content.

use vstd::prelude::*;

verus! {

/// A bordered block with a title and wrapped content.
pub struct UiBoxedTitle {
    pub title: String,
    pub content: String,
}

impl UiBoxedTitle {
    pub fn new(title: &str, content: &str) -> (r: UiBoxedTitle)
        ensures
            r.title@ == title@,
            r.content@ == content@,
    {
        UiBoxedTitle { title: title.to_owned(), content: content.to_owned() }
    }

    /// The block takes three lines.
    pub fn height(&self) -> (r: u16)
        ensures
            r == 3,
    {
        3
    }

    /// The block is left out when it has no content.
    pub fn skip(&self) -> (r: bool)
        ensures
            r == (self.content@.len() == 0),
    {
        self.content.unicode_len() == 0
    }
}

} // verus!
