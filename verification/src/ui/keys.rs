//! The keys the screens react to.

use vstd::prelude::*;

verus! {

/// A key press, as the screens see it.
#[derive(Clone, Copy, Debug, PartialEq, Eq, Structural)]
pub enum Key {
    Char(char),
    Up,
    Down,
    Left,
    Right,
    Enter,
    Esc,
    Backspace,
    Delete,
    Tab,
    /// Any other key.
    Other,
}

/// The name a key binding uses for a key: the character itself, or the
/// key's name in angle brackets; none for other keys.
pub open spec fn key_name_spec(key: Key) -> Option<Seq<char>> {
    match key {
        Key::Char(c) => Some(seq![c]),
        Key::Enter => Some("<CR>"@),
        Key::Esc => Some("<ESC>"@),
        Key::Tab => Some("<TAB>"@),
        Key::Backspace => Some("<BACKSPACE>"@),
        Key::Left => Some("<LEFT>"@),
        Key::Right => Some("<RIGHT>"@),
        Key::Up => Some("<UP>"@),
        Key::Down => Some("<DOWN>"@),
        Key::Delete => Some("<DELETE>"@),
        Key::Other => None,
    }
}

/// The name a key binding uses for `key` (see [`key_name_spec`]).
pub fn key_name(key: Key) -> (r: Option<String>)
    ensures
        crate::json::opt_view(r) == key_name_spec(key),
{
    match key {
        Key::Char(c) => {
            let mut s = String::new();
            s.push(c);
            proof {
                assert(s@ =~= seq![c]);
            }
            Some(s)
        },
        Key::Enter => Some(String::from_str("<CR>")),
        Key::Esc => Some(String::from_str("<ESC>")),
        Key::Tab => Some(String::from_str("<TAB>")),
        Key::Backspace => Some(String::from_str("<BACKSPACE>")),
        Key::Left => Some(String::from_str("<LEFT>")),
        Key::Right => Some(String::from_str("<RIGHT>")),
        Key::Up => Some(String::from_str("<UP>")),
        Key::Down => Some(String::from_str("<DOWN>")),
        Key::Delete => Some(String::from_str("<DELETE>")),
        Key::Other => None,
    }
}

} // verus!
