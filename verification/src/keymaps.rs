//! Key bindings: a key, the action it runs, an optional description and
//! the screen (scope) where it applies.

use vstd::prelude::*;
use crate::seq_util::{first, first_from};
use crate::text::{str_eq, to_lowercase, unicode_lowercase};
use crate::json::opt_view;

verus! {

/// The screens a key binding can belong to.
#[derive(Clone, Copy, Debug, PartialEq, Eq, Structural)]
pub enum Scope {
    Global,
    PbiList,
    Pbi,
    Sprint,
    Plugin,
}

/// The scope that a lowercased scope name selects.
pub open spec fn scope_named(lower: Seq<char>) -> Scope {
    if lower == "pbi"@ {
        Scope::Pbi
    } else if lower == "plugin"@ {
        Scope::Plugin
    } else if lower == "sprint"@ {
        Scope::Sprint
    } else if lower == "pbilist"@ {
        Scope::PbiList
    } else {
        Scope::Global
    }
}

/// The name `{:?}` prints for a scope.
pub open spec fn scope_debug_name(s: Scope) -> Seq<char> {
    match s {
        Scope::Global => "Global"@,
        Scope::PbiList => "PbiList"@,
        Scope::Pbi => "Pbi"@,
        Scope::Sprint => "Sprint"@,
        Scope::Plugin => "Plugin"@,
    }
}

impl Scope {
    /// Whether this scope is one of `scopes`.
    pub fn is_in(&self, scopes: &[Scope]) -> (r: bool)
        ensures
            r == scopes@.contains(*self),
    {
        let mut i: usize = 0;
        while i < scopes.len()
            invariant
                i <= scopes@.len(),
                forall|j: int| 0 <= j < i ==> scopes@[j] != *self,
            decreases scopes@.len() - i,
        {
            if scopes[i] == *self {
                assert(scopes@[i as int] == *self);
                return true;
            }
            i = i + 1;
        }
        false
    }

    /// Parses a scope name, ignoring case; unknown names mean `Global`.
    pub fn parse(s: &str) -> (r: Scope)
        ensures
            r == scope_named(unicode_lowercase(s@)),
    {
        let lower = to_lowercase(s);
        proof {
            reveal_strlit("pbi");
            reveal_strlit("plugin");
            reveal_strlit("sprint");
            reveal_strlit("pbilist");
        }
        if str_eq(lower.as_str(), "pbi") {
            Scope::Pbi
        } else if str_eq(lower.as_str(), "plugin") {
            Scope::Plugin
        } else if str_eq(lower.as_str(), "sprint") {
            Scope::Sprint
        } else if str_eq(lower.as_str(), "pbilist") {
            Scope::PbiList
        } else {
            Scope::Global
        }
    }

    /// The name `{:?}` prints for this scope.
    pub fn debug_name(&self) -> (r: String)
        ensures
            r@ == scope_debug_name(*self),
    {
        match self {
            Scope::Global => String::from_str("Global"),
            Scope::PbiList => String::from_str("PbiList"),
            Scope::Pbi => String::from_str("Pbi"),
            Scope::Sprint => String::from_str("Sprint"),
            Scope::Plugin => String::from_str("Plugin"),
        }
    }
}

impl std::str::FromStr for Scope {
    type Err = std::convert::Infallible;

    fn from_str(s: &str) -> (r: Result<Self, Self::Err>)
        ensures
            r == Ok::<Scope, std::convert::Infallible>(scope_named(unicode_lowercase(s@))),
    {
        Ok(Scope::parse(s))
    }
}

/// A key binding; `func` is the action it runs.
pub struct KeyMap<F> {
    pub key: String,
    pub func: F,
    pub description: Option<String>,
    pub scope: Scope,
    pub hidden: bool,
}

/// Whether binding `k` is for `key` in scope `scope`.
pub open spec fn binds<F>(k: KeyMap<F>, key: Seq<char>, scope: Scope) -> bool {
    k.key@ == key && k.scope == scope
}

/// Matches bindings for `key` in any of `scopes` other than the global
/// one.
pub open spec fn scoped_match<F>(key: Seq<char>, scopes: Seq<Scope>) -> spec_fn(KeyMap<F>) -> bool {
    |k: KeyMap<F>| k.key@ == key && scopes.contains(k.scope) && k.scope != Scope::Global
}

/// Matches bindings for `key` in the global scope.
pub open spec fn global_match<F>(key: Seq<char>) -> spec_fn(KeyMap<F>) -> bool {
    |k: KeyMap<F>| k.key@ == key && k.scope == Scope::Global
}

/// The binding `get_keymap` selects: bindings of a specific scope win over
/// global ones, so the first one for `key` in one of `scopes` other than
/// the global scope, else the first global one for `key`.
pub open spec fn select_keymap<F>(ks: Seq<KeyMap<F>>, key: Seq<char>, scopes: Seq<Scope>) -> Option<int> {
    match first(ks, scoped_match(key, scopes)) {
        Some(i) => Some(i),
        None => first(ks, global_match(key)),
    }
}

/// The footer hints of bindings `ks` for `scopes`: key and description of
/// each binding that has a description and belongs to one of `scopes`, in
/// registration order.
pub open spec fn footer_hints<F>(ks: Seq<KeyMap<F>>, scopes: Seq<Scope>) -> Seq<(Seq<char>, Seq<char>)>
    decreases ks.len(),
{
    if ks.len() == 0 {
        Seq::empty()
    } else {
        let rest = footer_hints(ks.drop_last(), scopes);
        let k = ks.last();
        match k.description {
            Some(d) => if scopes.contains(k.scope) {
                rest.push((k.key@, d@))
            } else {
                rest
            },
            None => rest,
        }
    }
}

/// The registered key bindings, in registration order.
pub struct KeyMapCollection<F> {
    keymaps: Vec<KeyMap<F>>,
}

impl<F> Default for KeyMapCollection<F> {
    fn default() -> (r: Self)
        ensures
            r.bindings().len() == 0,
    {
        KeyMapCollection { keymaps: Vec::new() }
    }
}

impl<F> KeyMapCollection<F> {
    /// The bindings, in registration order.
    pub closed spec fn bindings(self) -> Seq<KeyMap<F>> {
        self.keymaps@
    }

    /// An empty collection.
    pub fn new() -> (r: Self)
        ensures
            r.bindings().len() == 0,
    {
        KeyMapCollection { keymaps: Vec::new() }
    }

    /// The bindings, in registration order.
    pub fn get_keymaps(&self) -> (r: &[KeyMap<F>])
        ensures
            r@ == self.bindings(),
    {
        self.keymaps.as_slice()
    }

    /// Registers `func` under `key` in the named scope (global when none is
    /// given). A key may be bound once per scope: a second binding for the
    /// same key and scope is refused with a message, and nothing changes.
    pub fn set(&mut self, key: &str, func: F, description: Option<&str>, scope: Option<&str>) -> (r: Result<(), String>)
        ensures
            ({
                let s = scope_named(unicode_lowercase(
                    match scope {
                        Some(n) => n@,
                        None => "global"@,
                    },
                ));
                if exists|i: int| 0 <= i < old(self).bindings().len() && binds(#[trigger] old(self).bindings()[i], key@, s) {
                    &&& r is Err
                    &&& r->Err_0@ == "Key '"@ + key@ + "' is already registered for scope "@ + scope_debug_name(s)
                    &&& final(self).bindings() == old(self).bindings()
                } else {
                    &&& r is Ok
                    &&& final(self).bindings().len() == old(self).bindings().len() + 1
                    &&& final(self).bindings().subrange(0, old(self).bindings().len() as int) == old(self).bindings()
                    &&& final(self).bindings().last().key@ == key@
                    &&& final(self).bindings().last().func == func
                    &&& opt_view(final(self).bindings().last().description) == match description {
                        Some(d) => Some(d@),
                        None => None::<Seq<char>>,
                    }
                    &&& final(self).bindings().last().scope == s
                    &&& !final(self).bindings().last().hidden
                }
            }),
    {
        let name = match scope {
            Some(n) => n,
            None => "global",
        };
        let parsed = Scope::parse(name);
        let mut i: usize = 0;
        while i < self.keymaps.len()
            invariant
                *self == *old(self),
                parsed == scope_named(unicode_lowercase(match scope {
                    Some(n) => n@,
                    None => "global"@,
                })),
                i <= self.keymaps@.len(),
                forall|j: int| 0 <= j < i ==> !binds(#[trigger] self.keymaps@[j], key@, parsed),
            decreases self.keymaps@.len() - i,
        {
            if self.keymaps[i].scope == parsed && str_eq(self.keymaps[i].key.as_str(), key) {
                let mut msg = String::from_str("Key '");
                msg.append(key);
                msg.append("' is already registered for scope ");
                let n = parsed.debug_name();
                msg.append(n.as_str());
                proof {
                    reveal_strlit("Key '");
                    reveal_strlit("' is already registered for scope ");
                    assert(binds(self.keymaps@[i as int], key@, parsed));
                }
                return Err(msg);
            }
            i = i + 1;
        }
        let desc = match description {
            Some(d) => Some(d.to_owned()),
            None => None,
        };
        self.keymaps.push(KeyMap { key: key.to_owned(), func, description: desc, scope: parsed, hidden: false });
        Ok(())
    }

    /// The binding for `key`: one of a specific scope among `scopes` wins
    /// over a global one; see [`select_keymap`].
    pub fn get_keymap(&self, key: &str, scopes: &[Scope]) -> (r: Option<&KeyMap<F>>)
        ensures
            match select_keymap(self.bindings(), key@, scopes@) {
                Some(i) => r == Some(&self.bindings()[i]),
                None => r is None,
            },
    {
        let ghost ks = self.keymaps@;
        let mut i: usize = 0;
        while i < self.keymaps.len()
            invariant
                ks == self.keymaps@,
                i <= ks.len(),
                first(ks, scoped_match(key@, scopes@)) == first_from(ks, scoped_match(key@, scopes@), i as int),
            decreases ks.len() - i,
        {
            if str_eq(self.keymaps[i].key.as_str(), key) && self.keymaps[i].scope.is_in(scopes)
                && self.keymaps[i].scope != Scope::Global {
                return Some(&self.keymaps[i]);
            }
            i = i + 1;
        }
        let mut j: usize = 0;
        while j < self.keymaps.len()
            invariant
                ks == self.keymaps@,
                j <= ks.len(),
                first(ks, scoped_match(key@, scopes@)) is None,
                first(ks, global_match(key@)) == first_from(ks, global_match(key@), j as int),
            decreases ks.len() - j,
        {
            if self.keymaps[j].scope == Scope::Global && str_eq(self.keymaps[j].key.as_str(), key) {
                return Some(&self.keymaps[j]);
            }
            j = j + 1;
        }
        None
    }

    /// The hints the footer shows for `scopes` (see [`footer_hints`]).
    pub fn described(&self, scopes: &[Scope]) -> (r: Vec<(String, String)>)
        ensures
            r@.map_values(|p: (String, String)| (p.0@, p.1@)) == footer_hints(self.bindings(), scopes@),
    {
        let ghost ks = self.keymaps@;
        let mut out: Vec<(String, String)> = Vec::new();
        let mut i: usize = 0;
        while i < self.keymaps.len()
            invariant
                ks == self.keymaps@,
                i <= ks.len(),
                out@.map_values(|p: (String, String)| (p.0@, p.1@)) == footer_hints(ks.take(i as int), scopes@),
            decreases ks.len() - i,
        {
            proof {
                assert(ks.take(i + 1).drop_last() =~= ks.take(i as int));
                assert(ks.take(i + 1).last() == ks[i as int]);
            }
            let k = &self.keymaps[i];
            match &k.description {
                Some(d) => {
                    if k.scope.is_in(scopes) {
                        out.push((k.key.clone(), d.clone()));
                        proof {
                            assert(out@.map_values(|p: (String, String)| (p.0@, p.1@)) =~= footer_hints(ks.take(i as int), scopes@).push((k.key@, d@)));
                        }
                    }
                },
                None => {},
            }
            i = i + 1;
        }
        proof {
            assert(ks.take(ks.len() as int) =~= ks);
        }
        out
    }
}

} // verus!
