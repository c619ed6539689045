//! Lua plugins: where they live, which files run at start-up, and the
//! bookkeeping of installing the bundled ones.

use vstd::prelude::*;
use crate::text::{chars_of, decimal, decimal_spec, starts_with, trim, trim_spec, str_eq};
use crate::json::{Json, JsonV};

verus! {

/// Whether `s` ends with `t`.
pub open spec fn ends_with_spec(s: Seq<char>, t: Seq<char>) -> bool {
    t.len() <= s.len() && s.skip(s.len() - t.len()) == t
}

/// Whether `s` ends with `t`.
pub fn ends_with(s: &str, t: &str) -> (r: bool)
    ensures
        r == ends_with_spec(s@, t@),
{
    let a = chars_of(s);
    let b = chars_of(t);
    if b.len() > a.len() {
        return false;
    }
    let alen = a.len();
    let off = alen - b.len();
    let mut i: usize = 0;
    while i < b.len()
        invariant
            a@ == s@,
            b@ == t@,
            off == a@.len() - b@.len(),
            b@.len() <= a@.len(),
            alen == a@.len(),
            i <= b@.len(),
            forall|k: int| 0 <= k < i ==> a@[off + k] == b@[k],
        decreases b@.len() - i,
    {
        assert(off + i < alen);
        if a[off + i] != b[i] {
            assert(s@.skip(off as int)[i as int] != t@[i as int]);
            return false;
        }
        i = i + 1;
    }
    assert(s@.skip(off as int) =~= t@);
    true
}

/// Whether a file of the plugin folder runs at start-up: a Lua script
/// whose name starts with `start_`.
pub open spec fn start_plugin_spec(file_name: Seq<char>) -> bool {
    "start_"@.is_prefix_of(file_name) && ends_with_spec(file_name, ".lua"@)
}

/// Whether a file of the plugin folder runs at start-up (see
/// [`start_plugin_spec`]).
pub fn is_start_plugin(file_name: &str) -> (r: bool)
    ensures
        r == start_plugin_spec(file_name@),
{
    let a = starts_with(file_name, "start_");
    proof {
        reveal_strlit("start_");
        if a {
            assert(file_name@.subrange(0, "start_"@.len() as int) =~= file_name@.take("start_"@.len() as int));
        } else if "start_"@.is_prefix_of(file_name@) {
            assert(file_name@.take("start_"@.len() as int) =~= file_name@.subrange(0, "start_"@.len() as int));
        }
    }
    a && ends_with(file_name, ".lua")
}

/// Whether a bundled file is a plugin: a Lua script.
pub fn is_bundled_plugin(file_name: &str) -> (r: bool)
    ensures
        r == ends_with_spec(file_name@, ".lua"@),
{
    ends_with(file_name, ".lua")
}

/// The plugin folder: `plugins` in the home directory, or relative to the
/// working directory when there is no home directory.
pub fn plugins_path(home: Option<&str>) -> (r: String)
    ensures
        r@ == match home {
            Some(h) => h@ + "/plugins"@,
            None => "plugins"@,
        },
{
    match home {
        Some(h) => {
            let mut s = h.to_owned();
            s.append("/plugins");
            s
        },
        None => String::from_str("plugins"),
    }
}

/// How many bundled plugins were copied, and how many were skipped
/// because a file of that name was already there.
#[derive(Clone, Copy, Debug, PartialEq, Eq, Structural)]
pub struct PluginInstallSummary {
    pub copied: usize,
    pub skipped: usize,
}

impl PluginInstallSummary {
    /// Nothing installed yet.
    pub fn new() -> (r: PluginInstallSummary)
        ensures
            r.copied == 0 && r.skipped == 0,
    {
        PluginInstallSummary { copied: 0, skipped: 0 }
    }

    /// Counts the next file: one that already exists is skipped, another is
    /// copied. Whether to write it.
    pub fn record(&mut self, exists: bool) -> (write: bool)
        requires
            old(self).copied < usize::MAX,
            old(self).skipped < usize::MAX,
        ensures
            write == !exists,
            exists ==> final(self).skipped == old(self).skipped + 1 && final(self).copied == old(self).copied,
            !exists ==> final(self).copied == old(self).copied + 1 && final(self).skipped == old(self).skipped,
    {
        if exists {
            self.skipped = self.skipped + 1;
            false
        } else {
            self.copied = self.copied + 1;
            true
        }
    }
}

/// The message after installing the bundled plugins into `path`.
pub open spec fn sync_message_spec(path: Seq<char>, s: PluginInstallSummary) -> Seq<char> {
    "Bundled plugins synced to "@ + path + " (copied: "@ + decimal_spec(s.copied as nat) + ", skipped: "@
        + decimal_spec(s.skipped as nat) + ")."@
}

/// The message after installing the bundled plugins.
pub fn sync_message(path: &str, s: PluginInstallSummary) -> (r: String)
    ensures
        r@ == sync_message_spec(path@, s),
{
    let mut m = String::from_str("Bundled plugins synced to ");
    m.append(path);
    m.append(" (copied: ");
    let c = decimal(s.copied as u64);
    m.append(c.as_str());
    m.append(", skipped: ");
    let k = decimal(s.skipped as u64);
    m.append(k.as_str());
    m.append(").");
    proof {
        reveal_strlit("Bundled plugins synced to ");
        reveal_strlit(" (copied: ");
        reveal_strlit(", skipped: ");
        reveal_strlit(").");
    }
    m
}

/// The folder of the Lua configuration: `.config/jira` in the home
/// directory, or `.config` when there is no home directory.
pub fn lua_config_dir(home: Option<&str>) -> (r: String)
    ensures
        r@ == match home {
            Some(h) => h@ + "/.config/jira"@,
            None => ".config"@,
        },
{
    match home {
        Some(h) => {
            let mut s = h.to_owned();
            s.append("/.config/jira");
            s
        },
        None => String::from_str(".config"),
    }
}

/// The Lua module path with the configuration folder searched first.
pub fn lua_package_path(dir: &str, current: &str) -> (r: String)
    ensures
        r@ == dir@ + "/?.lua;"@ + dir@ + "/?/init.lua;"@ + current@,
{
    let mut s = dir.to_owned();
    s.append("/?.lua;");
    s.append(dir);
    s.append("/?/init.lua;");
    s.append(current);
    s
}

/// What `jira.json.get` gives for a field: the first member with the
/// trimmed name, or why there is none.
pub open spec fn json_field_spec(parsed: JsonV, field: Seq<char>) -> Result<JsonV, Seq<char>> {
    let name = trim_spec(field);
    if name.len() == 0 {
        Err("JSON field cannot be empty"@)
    } else {
        match crate::json::find_key(parsed.members(), name) {
            Some(i) => Ok(parsed.members()[i].1),
            None => Err("JSON field not found: "@ + name),
        }
    }
}

/// Reads a field of a JSON document for a Lua script (see
/// [`json_field_spec`]).
pub fn json_field<'a>(parsed: &'a Json, field: &str) -> (r: Result<&'a Json, String>)
    ensures
        match r {
            Ok(v) => json_field_spec(parsed@, field@) == Ok::<JsonV, Seq<char>>(v@),
            Err(m) => json_field_spec(parsed@, field@) == Err::<JsonV, Seq<char>>(m@),
        },
{
    let name = trim(field);
    if name.unicode_len() == 0 {
        proof {
            reveal_strlit("JSON field cannot be empty");
        }
        return Err(String::from_str("JSON field cannot be empty"));
    }
    let m = parsed.members_of();
    let ghost mv = crate::json::view_members(m@);
    proof {
        crate::json::lemma_view_members(m@);
        crate::json::lemma_find_key_from(mv, name@, 0);
    }
    let mut i: usize = 0;
    while i < m.len()
        invariant
            i <= m@.len(),
            mv == crate::json::view_members(m@),
            mv == parsed@.members(),
            mv.len() == m@.len(),
            forall|k: int| 0 <= k < m@.len() ==> #[trigger] mv[k] == (m@[k].0@, m@[k].1@),
            forall|k: int| 0 <= k < i ==> #[trigger] mv[k].0 != name@,
            name@ == trim_spec(field@),
            name@.len() != 0,
        decreases m@.len() - i,
    {
        if str_eq(m[i].0.as_str(), name.as_str()) {
            proof {
                crate::json::lemma_find_key_is(mv, name@, i as int);
                assert(mv[i as int].1 == m@[i as int].1@);
                assert(trim_spec(field@) == name@);
                assert(name@.len() != 0);
                assert(json_field_spec(parsed@, field@) == Ok::<JsonV, Seq<char>>(m@[i as int].1@));
            }
            return Ok(&m[i].1);
        }
        i = i + 1;
    }
    proof {
        crate::json::lemma_find_key_absent(mv, name@);
        reveal_strlit("JSON field not found: ");
    }
    let mut e = String::from_str("JSON field not found: ");
    e.append(name.as_str());
    Err(e)
}

} // verus!
