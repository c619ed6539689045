//! A plain model of JSON documents, as the `json` crate reads and writes
//! them: objects keep their members in insertion order.

use vstd::prelude::*;

verus! {

/// A JSON number as the `json` crate stores it: a sign, a decimal mantissa
/// and a power-of-ten exponent.
#[derive(Clone, Copy, PartialEq, Eq, Debug)]
pub struct JsonNumber {
    pub positive: bool,
    pub mantissa: u64,
    pub exponent: i16,
}

/// A JSON value.
#[derive(Debug)]
pub enum Json {
    Null,
    Str(String),
    Number(JsonNumber),
    Boolean(bool),
    Object(Vec<(String, Json)>),
    Array(Vec<Json>),
}

/// The mathematical value of a JSON document.
pub enum JsonV {
    Null,
    Str(Seq<char>),
    Number(JsonNumber),
    Boolean(bool),
    Object(Seq<(Seq<char>, JsonV)>),
    Array(Seq<JsonV>),
}

pub open spec fn view_items(items: Seq<Json>) -> Seq<JsonV>
    decreases items,
{
    if items.len() == 0 {
        Seq::empty()
    } else {
        seq![view_json(items[0])] + view_items(items.drop_first())
    }
}

pub open spec fn view_members(members: Seq<(String, Json)>) -> Seq<(Seq<char>, JsonV)>
    decreases members,
{
    if members.len() == 0 {
        Seq::empty()
    } else {
        seq![(members[0].0@, view_json(members[0].1))] + view_members(members.drop_first())
    }
}

pub open spec fn view_json(j: Json) -> JsonV
    decreases j,
{
    match j {
        Json::Null => JsonV::Null,
        Json::Str(s) => JsonV::Str(s@),
        Json::Number(n) => JsonV::Number(n),
        Json::Boolean(b) => JsonV::Boolean(b),
        Json::Object(v) => JsonV::Object(view_members(v@)),
        Json::Array(v) => JsonV::Array(view_items(v@)),
    }
}

impl View for Json {
    type V = JsonV;

    open spec fn view(&self) -> JsonV {
        view_json(*self)
    }
}

pub proof fn lemma_view_items(items: Seq<Json>)
    ensures
        view_items(items).len() == items.len(),
        forall|i: int| 0 <= i < items.len() ==> #[trigger] view_items(items)[i] == view_json(items[i]),
    decreases items.len(),
{
    if items.len() > 0 {
        lemma_view_items(items.drop_first());
        assert forall|i: int| 0 <= i < items.len() implies #[trigger] view_items(items)[i] == view_json(items[i]) by {
            if i > 0 {
                assert(items.drop_first()[i - 1] == items[i]);
            }
        }
    }
}

pub proof fn lemma_view_members(members: Seq<(String, Json)>)
    ensures
        view_members(members).len() == members.len(),
        forall|i: int| 0 <= i < members.len() ==> #[trigger] view_members(members)[i] == (members[i].0@, view_json(members[i].1)),
    decreases members.len(),
{
    if members.len() > 0 {
        lemma_view_members(members.drop_first());
        assert forall|i: int| 0 <= i < members.len() implies #[trigger] view_members(members)[i] == (members[i].0@, view_json(members[i].1)) by {
            if i > 0 {
                assert(members.drop_first()[i - 1] == members[i]);
            }
        }
    }
}

/// Position of the first member at or after `i` named `key`.
pub open spec fn find_key_from(members: Seq<(Seq<char>, JsonV)>, key: Seq<char>, i: int) -> Option<int>
    decreases members.len() - i,
{
    if i < 0 || i >= members.len() {
        None
    } else if members[i].0 == key {
        Some(i)
    } else {
        find_key_from(members, key, i + 1)
    }
}

/// Position of the first member named `key`, if any.
pub open spec fn find_key(members: Seq<(Seq<char>, JsonV)>, key: Seq<char>) -> Option<int> {
    find_key_from(members, key, 0)
}

/// The position found is the first member with that name.
pub proof fn lemma_find_key_from(members: Seq<(Seq<char>, JsonV)>, key: Seq<char>, i: int)
    requires
        0 <= i,
    ensures
        match find_key_from(members, key, i) {
            Some(k) => i <= k < members.len() && members[k].0 == key
                && forall|j: int| i <= j < k ==> #[trigger] members[j].0 != key,
            None => forall|j: int| i <= j < members.len() ==> #[trigger] members[j].0 != key,
        },
    decreases members.len() - i,
{
    if i < members.len() && members[i].0 != key {
        lemma_find_key_from(members, key, i + 1);
    }
}

pub proof fn lemma_find_key_is(m: Seq<(Seq<char>, JsonV)>, key: Seq<char>, i: int)
    requires
        0 <= i < m.len(),
        m[i].0 == key,
        forall|j: int| 0 <= j < i ==> #[trigger] m[j].0 != key,
    ensures
        find_key(m, key) == Some(i),
{
    lemma_find_key_from(m, key, 0);
    match find_key(m, key) {
        Some(k) => {
            if k < i {
                assert(m[k].0 != key);
            }
        },
        None => {
            assert(m[i].0 != key);
        },
    }
}

pub proof fn lemma_find_key_absent(m: Seq<(Seq<char>, JsonV)>, key: Seq<char>)
    requires
        forall|j: int| 0 <= j < m.len() ==> #[trigger] m[j].0 != key,
    ensures
        find_key(m, key) is None,
{
    lemma_find_key_from(m, key, 0);
    match find_key(m, key) {
        Some(k) => {
            assert(m[k].0 != key);
        },
        None => {},
    }
}

/// Looking a name up in a list with one more member at the end.
pub proof fn lemma_find_key_push(m: Seq<(Seq<char>, JsonV)>, e: (Seq<char>, JsonV), key: Seq<char>)
    ensures
        find_key(m.push(e), key) == (match find_key(m, key) {
            Some(i) => Some(i),
            None => if e.0 == key {
                Some(m.len() as int)
            } else {
                None
            },
        }),
{
    let p = m.push(e);
    lemma_find_key_from(m, key, 0);
    assert forall|j: int| 0 <= j < m.len() implies #[trigger] p[j] == m[j] by {}
    assert(p[m.len() as int] == e);
    match find_key(m, key) {
        Some(i) => {
            assert forall|j: int| 0 <= j < i implies #[trigger] p[j].0 != key by {
                assert(p[j] == m[j]);
            }
            lemma_find_key_is(p, key, i);
        },
        None => {
            if e.0 == key {
                assert forall|j: int| 0 <= j < m.len() implies #[trigger] p[j].0 != key by {
                    assert(p[j] == m[j]);
                }
                lemma_find_key_is(p, key, m.len() as int);
            } else {
                assert forall|j: int| 0 <= j < p.len() implies #[trigger] p[j].0 != key by {
                    if j < m.len() {
                        assert(p[j] == m[j]);
                    }
                }
                lemma_find_key_absent(p, key);
            }
        },
    }
}

/// Looking a name up after one member was replaced by a member of the same
/// name.
proof fn lemma_find_key_update(m: Seq<(Seq<char>, JsonV)>, i: int, e: (Seq<char>, JsonV), key: Seq<char>)
    requires
        0 <= i < m.len(),
        m[i].0 == e.0,
    ensures
        find_key(m.update(i, e), key) == find_key(m, key),
{
    let p = m.update(i, e);
    lemma_find_key_from(m, key, 0);
    assert forall|j: int| 0 <= j < m.len() implies #[trigger] p[j].0 == m[j].0 by {}
    match find_key(m, key) {
        Some(k) => {
            assert forall|j: int| 0 <= j < k implies #[trigger] p[j].0 != key by {
                assert(p[j].0 == m[j].0);
            }
            assert(p[k].0 == m[k].0);
            lemma_find_key_is(p, key, k);
        },
        None => {
            assert forall|j: int| 0 <= j < p.len() implies #[trigger] p[j].0 != key by {
                assert(p[j].0 == m[j].0);
            }
            lemma_find_key_absent(p, key);
        },
    }
}

/// What `value[key]` reads after `value[name] = member`.
pub proof fn lemma_with_member_idx(d: JsonV, name: Seq<char>, member: JsonV, key: Seq<char>)
    ensures
        d.with_member(name, member).idx(key) == (if key == name {
            member
        } else {
            d.idx(key)
        }),
{
    match d {
        JsonV::Object(m) => {
            lemma_find_key_from(m, name, 0);
            match find_key(m, name) {
                Some(i) => {
                    lemma_find_key_update(m, i, (name, member), key);
                    lemma_find_key_from(m, key, 0);
                    let p = m.update(i, (name, member));
                    match find_key(m, key) {
                        Some(k) => {
                            if key != name {
                                assert(k != i);
                                assert(p[k] == m[k]);
                            }
                        },
                        None => {},
                    }
                },
                None => {
                    lemma_find_key_push(m, (name, member), key);
                    lemma_find_key_from(m, key, 0);
                    let p = m.push((name, member));
                    match find_key(m, key) {
                        Some(k) => {
                            assert(p[k] == m[k]);
                        },
                        None => {
                            assert(p[m.len() as int] == (name, member));
                        },
                    }
                },
            }
        },
        _ => {
            lemma_find_key_push(Seq::<(Seq<char>, JsonV)>::empty(), (name, member), key);
            assert(Seq::<(Seq<char>, JsonV)>::empty().push((name, member)) =~= seq![(name, member)]);
        },
    }
}

/// The value found under `key` in a member list, if any.
pub open spec fn lookup(m: Seq<(Seq<char>, JsonV)>, key: Seq<char>) -> Option<JsonV> {
    match find_key(m, key) {
        Some(i) => Some(m[i].1),
        None => None,
    }
}

proof fn lemma_lookup_filter(m: Seq<(Seq<char>, JsonV)>, name: Seq<char>, key: Seq<char>)
    ensures
        lookup(m.filter(not_named(name)), key) == (if key == name {
            None
        } else {
            lookup(m, key)
        }),
    decreases m.len(),
{
    reveal(Seq::filter);
    if m.len() > 0 {
        let rest = m.drop_last();
        lemma_lookup_filter(rest, name, key);
        assert(rest.push(m.last()) =~= m);
        lemma_find_key_push(rest, m.last(), key);
        let f = rest.filter(not_named(name));
        if not_named(name)(m.last()) {
            lemma_find_key_push(f, m.last(), key);
        }
        lemma_find_key_from(f, key, 0);
        lemma_find_key_from(rest, key, 0);
    } else {
        assert(m.filter(not_named(name)).len() == 0);
    }
}

/// What `value[key]` reads after `value.remove(name)`.
pub proof fn lemma_without_member_idx(d: JsonV, name: Seq<char>, key: Seq<char>)
    ensures
        d.without_member(name).idx(key) == (if key == name {
            JsonV::Null
        } else {
            d.idx(key)
        }),
{
    match d {
        JsonV::Object(m) => {
            lemma_lookup_filter(m, name, key);
        },
        _ => {},
    }
}

impl JsonV {
    /// `value[key]`: the member named `key` of an object, `Null` otherwise.
    pub open spec fn idx(self, key: Seq<char>) -> JsonV {
        match self {
            JsonV::Object(m) => match find_key(m, key) {
                Some(i) => m[i].1,
                None => JsonV::Null,
            },
            _ => JsonV::Null,
        }
    }

    /// `value[i]`: the item at `i` of an array, `Null` otherwise.
    pub open spec fn nth(self, i: int) -> JsonV {
        match self {
            JsonV::Array(v) => if 0 <= i < v.len() {
                v[i]
            } else {
                JsonV::Null
            },
            _ => JsonV::Null,
        }
    }

    /// `value.as_str()`.
    pub open spec fn str_of(self) -> Option<Seq<char>> {
        match self {
            JsonV::Str(s) => Some(s),
            _ => None,
        }
    }

    /// `value.as_str()`, or a default.
    pub open spec fn str_or(self, default: Seq<char>) -> Seq<char> {
        match self {
            JsonV::Str(s) => s,
            _ => default,
        }
    }

    /// `value.members()`: the items of an array, nothing otherwise.
    pub open spec fn items(self) -> Seq<JsonV> {
        match self {
            JsonV::Array(v) => v,
            _ => Seq::empty(),
        }
    }

    /// `value.entries()`: the members of an object, nothing otherwise.
    pub open spec fn members(self) -> Seq<(Seq<char>, JsonV)> {
        match self {
            JsonV::Object(m) => m,
            _ => Seq::empty(),
        }
    }

    /// `value.as_u64()`: a non-negative integer without exponent.
    pub open spec fn u64_of(self) -> Option<u64> {
        match self {
            JsonV::Number(n) => if n.positive && n.exponent == 0 {
                Some(n.mantissa)
            } else {
                None
            },
            _ => None,
        }
    }

    /// `value.as_u16()`.
    pub open spec fn u16_of(self) -> Option<u16> {
        match self.u64_of() {
            Some(m) => if m <= u16::MAX {
                Some(m as u16)
            } else {
                None
            },
            None => None,
        }
    }

    /// `value.as_i64()`: an integer without exponent; the mantissa is cast
    /// to `i64` (and negated, wrapping) as the `json` crate does.
    pub open spec fn i64_of(self) -> Option<i64> {
        match self {
            JsonV::Number(n) => if n.exponent != 0 {
                None
            } else if n.positive {
                Some(n.mantissa as i64)
            } else if n.mantissa as i64 == i64::MIN {
                Some(i64::MIN)
            } else {
                Some((-(n.mantissa as i64)) as i64)
            },
            _ => None,
        }
    }

    /// The number, if the value is one.
    pub open spec fn number_of(self) -> Option<JsonNumber> {
        match self {
            JsonV::Number(n) => Some(n),
            _ => None,
        }
    }

    /// `value.as_bool()`.
    pub open spec fn bool_of(self) -> Option<bool> {
        match self {
            JsonV::Boolean(b) => Some(b),
            _ => None,
        }
    }

    /// `value.is_empty()`.
    pub open spec fn empty_spec(self) -> bool {
        match self {
            JsonV::Null => true,
            JsonV::Str(s) => s.len() == 0,
            JsonV::Number(n) => n.mantissa == 0,
            JsonV::Boolean(b) => !b,
            JsonV::Array(v) => v.len() == 0,
            JsonV::Object(m) => m.len() == 0,
        }
    }

    /// The document after `value[key] = member`: an object keeps its
    /// members in place and replaces or appends the one named `key`; any
    /// other value is first replaced by an empty object.
    pub open spec fn with_member(self, key: Seq<char>, member: JsonV) -> JsonV {
        match self {
            JsonV::Object(m) => match find_key(m, key) {
                Some(i) => JsonV::Object(m.update(i, (key, member))),
                None => JsonV::Object(m.push((key, member))),
            },
            _ => JsonV::Object(seq![(key, member)]),
        }
    }

    /// The document after `value.remove(key)`: an object loses the members
    /// named `key`; any other value is unchanged.
    pub open spec fn without_member(self, key: Seq<char>) -> JsonV {
        match self {
            JsonV::Object(m) => JsonV::Object(m.filter(not_named(key))),
            _ => self,
        }
    }
}

/// Members not named `key`.
pub open spec fn not_named(key: Seq<char>) -> spec_fn((Seq<char>, JsonV)) -> bool {
    |e: (Seq<char>, JsonV)| e.0 != key
}

/// The value an optional reference stands for: a missing member reads as
/// `Null`, as it does in the `json` crate.
pub open spec fn or_null(r: Option<&Json>) -> JsonV {
    match r {
        Some(v) => v@,
        None => JsonV::Null,
    }
}

/// The characters of an optional string.
pub open spec fn opt_view(r: Option<String>) -> Option<Seq<char>> {
    match r {
        Some(s) => Some(s@),
        None => None,
    }
}

impl Json {
    /// Whether the value is a string.
    pub fn is_string(&self) -> (r: bool)
        ensures
            r == (self@ is Str),
    {
        match self {
            Json::Str(_) => true,
            _ => false,
        }
    }

    /// Whether the value is an object.
    pub fn is_object(&self) -> (r: bool)
        ensures
            r == (self@ is Object),
    {
        match self {
            Json::Object(_) => true,
            _ => false,
        }
    }

    /// Whether the value is an array.
    pub fn is_array(&self) -> (r: bool)
        ensures
            r == (self@ is Array),
    {
        match self {
            Json::Array(_) => true,
            _ => false,
        }
    }

    /// Whether the value is `null`.
    pub fn is_null(&self) -> (r: bool)
        ensures
            r == (self@ is Null),
    {
        match self {
            Json::Null => true,
            _ => false,
        }
    }

    /// Whether the value is a number.
    pub fn is_number(&self) -> (r: bool)
        ensures
            r == (self@ is Number),
    {
        match self {
            Json::Number(_) => true,
            _ => false,
        }
    }

    /// `value.is_empty()`: null, false, zero, or an empty string, array or object.
    pub fn is_empty(&self) -> (r: bool)
        ensures
            r == self@.empty_spec(),
    {
        proof {
            match self {
                Json::Object(v) => lemma_view_members(v@),
                Json::Array(v) => lemma_view_items(v@),
                _ => {},
            }
        }
        match self {
            Json::Null => true,
            Json::Str(s) => s.as_str().unicode_len() == 0,
            Json::Number(n) => n.mantissa == 0,
            Json::Boolean(b) => !*b,
            Json::Array(v) => v.len() == 0,
            Json::Object(v) => v.len() == 0,
        }
    }

    /// `value[key]`: the member named `key`; `None` stands for `Null`.
    pub fn get(&self, key: &str) -> (r: Option<&Json>)
        ensures
            or_null(r) == self@.idx(key@),
    {
        match self {
            Json::Object(entries) => {
                let ghost m = view_members(entries@);
                proof {
                    lemma_view_members(entries@);
                }
                let mut i: usize = 0;
                while i < entries.len()
                    invariant
                        *self == Json::Object(*entries),
                        m == view_members(entries@),
                        m.len() == entries@.len(),
                        forall|j: int| 0 <= j < entries@.len() ==> #[trigger] m[j] == (entries@[j].0@, view_json(entries@[j].1)),
                        i <= entries@.len(),
                        find_key(m, key@) == find_key_from(m, key@, i as int),
                    decreases entries@.len() - i,
                {
                    if crate::text::str_eq(entries[i].0.as_str(), key) {
                        assert(m[i as int].0 == key@);
                        assert(find_key_from(m, key@, i as int) == Some(i as int));
                        return Some(&entries[i].1);
                    }
                    assert(m[i as int].0 != key@);
                    i = i + 1;
                }
                None
            },
            _ => None,
        }
    }

    /// `value.as_str()`, as an owned string.
    pub fn as_string(&self) -> (r: Option<String>)
        ensures
            opt_view(r) == self@.str_of(),
    {
        match self {
            Json::Str(s) => Some(s.clone()),
            _ => None,
        }
    }

    /// `value.as_u64()`.
    pub fn as_u64(&self) -> (r: Option<u64>)
        ensures
            r == self@.u64_of(),
    {
        match self {
            Json::Number(n) => if n.positive && n.exponent == 0 {
                Some(n.mantissa)
            } else {
                None
            },
            _ => None,
        }
    }

    /// `value.as_u16()`.
    pub fn as_u16(&self) -> (r: Option<u16>)
        ensures
            r == self@.u16_of(),
    {
        match self.as_u64() {
            Some(m) => if m <= 65535 {
                Some(m as u16)
            } else {
                None
            },
            None => None,
        }
    }

    /// `value.as_i64()`.
    pub fn as_i64(&self) -> (r: Option<i64>)
        ensures
            r == self@.i64_of(),
    {
        match self {
            Json::Number(n) => if n.exponent != 0 {
                None
            } else if n.positive {
                Some(n.mantissa as i64)
            } else {
                let m = n.mantissa as i64;
                if m == i64::MIN {
                    Some(i64::MIN)
                } else {
                    Some(-m)
                }
            },
            _ => None,
        }
    }

    /// `value.as_bool()`.
    pub fn as_bool(&self) -> (r: Option<bool>)
        ensures
            r == self@.bool_of(),
    {
        match self {
            Json::Boolean(b) => Some(*b),
            _ => None,
        }
    }

    /// `value.members()`: the items of an array, nothing otherwise.
    pub fn items_of(&self) -> (r: &[Json])
        ensures
            view_items(r@) == self@.items(),
    {
        match self {
            Json::Array(v) => v.as_slice(),
            _ => {
                let r: &[Json] = &[];
                assert(view_items(r@) =~= Seq::empty());
                r
            },
        }
    }
}

impl Json {
    /// `value[key]`, with `null` standing for a missing member.
    pub fn at<'a>(&'a self, key: &str, null: &'a Json) -> (r: &'a Json)
        requires
            null@ is Null,
        ensures
            r@ == self@.idx(key@),
    {
        match self.get(key) {
            Some(v) => v,
            None => null,
        }
    }

    /// `value[i]`, with `null` standing for a missing item.
    pub fn at_index<'a>(&'a self, i: usize, null: &'a Json) -> (r: &'a Json)
        requires
            null@ is Null,
        ensures
            r@ == self@.nth(i as int),
    {
        match self {
            Json::Array(v) => {
                proof {
                    lemma_view_items(v@);
                }
                if i < v.len() {
                    &v[i]
                } else {
                    null
                }
            },
            _ => null,
        }
    }

    /// `value.as_number()`: the number, if the value is one.
    pub fn number(&self) -> (r: Option<JsonNumber>)
        ensures
            r == self@.number_of(),
    {
        match self {
            Json::Number(n) => Some(*n),
            _ => None,
        }
    }

    /// The members of an object, nothing for other values.
    pub fn members_of(&self) -> (r: &[(String, Json)])
        ensures
            view_members(r@) == self@.members(),
    {
        match self {
            Json::Object(v) => v.as_slice(),
            _ => {
                let r: &[(String, Json)] = &[];
                assert(view_members(r@) =~= Seq::empty());
                r
            },
        }
    }

    /// A copy of the whole document.
    #[verifier::loop_isolation(false)]
    pub fn deep_clone(&self) -> (r: Json)
        ensures
            r@ == self@,
        decreases self,
    {
        match self {
            Json::Null => Json::Null,
            Json::Str(s) => Json::Str(s.clone()),
            Json::Number(n) => Json::Number(*n),
            Json::Boolean(b) => Json::Boolean(*b),
            Json::Array(v) => {
                proof {
                    lemma_view_items(v@);
                }
                let mut out: Vec<Json> = Vec::new();
                let mut i: usize = 0;
                while i < v.len()
                    invariant
                        *self == Json::Array(*v),
                        i <= v@.len(),
                        out@.len() == i,
                        forall|j: int| 0 <= j < i ==> #[trigger] view_json(out@[j]) == view_json(v@[j]),
                    decreases v@.len() - i,
                {
                    assert(decreases_to!(*self => *v));
                    assert(decreases_to!(*v => v@[i as int]));
                    let c = v[i].deep_clone();
                    out.push(c);
                    i = i + 1;
                }
                proof {
                    lemma_view_items(out@);
                    assert(view_items(out@) =~= view_items(v@));
                }
                Json::Array(out)
            },
            Json::Object(v) => {
                proof {
                    lemma_view_members(v@);
                }
                let mut out: Vec<(String, Json)> = Vec::new();
                let mut i: usize = 0;
                while i < v.len()
                    invariant
                        *self == Json::Object(*v),
                        i <= v@.len(),
                        out@.len() == i,
                        forall|j: int| 0 <= j < i ==> #[trigger] out@[j].0@ == v@[j].0@
                            && view_json(out@[j].1) == view_json(v@[j].1),
                    decreases v@.len() - i,
                {
                    assert(decreases_to!(*self => *v));
                    assert(decreases_to!(*v => v@[i as int]));
                    assert(decreases_to!(v@[i as int] => v@[i as int].1));
                    let c = v[i].1.deep_clone();
                    out.push((v[i].0.clone(), c));
                    i = i + 1;
                }
                proof {
                    lemma_view_members(out@);
                    assert(view_members(out@) =~= view_members(v@));
                }
                Json::Object(out)
            },
        }
    }

    /// Position of the first member named `key` of an object.
    pub fn find_member(&self, key: &str) -> (r: Option<usize>)
        ensures
            self@ is Object ==> (match r {
                Some(i) => find_key(self@.members(), key@) == Some(i as int),
                None => find_key(self@.members(), key@) is None,
            }),
            !(self@ is Object) ==> r is None,
    {
        match self {
            Json::Object(entries) => {
                let ghost m = view_members(entries@);
                proof {
                    lemma_view_members(entries@);
                }
                let mut i: usize = 0;
                while i < entries.len()
                    invariant
                        *self == Json::Object(*entries),
                        m == view_members(entries@),
                        m.len() == entries@.len(),
                        forall|j: int| 0 <= j < entries@.len() ==> #[trigger] m[j] == (entries@[j].0@, view_json(entries@[j].1)),
                        i <= entries@.len(),
                        find_key(m, key@) == find_key_from(m, key@, i as int),
                    decreases entries@.len() - i,
                {
                    if crate::text::str_eq(entries[i].0.as_str(), key) {
                        assert(find_key_from(m, key@, i as int) == Some(i as int));
                        return Some(i);
                    }
                    assert(m[i as int].0 != key@);
                    i = i + 1;
                }
                None
            },
            _ => None,
        }
    }

    /// `value[key] = member`: see [`JsonV::with_member`].
    pub fn set(&mut self, key: &str, member: Json)
        ensures
            final(self)@ == old(self)@.with_member(key@, member@),
    {
        let found = self.find_member(key);
        let mut entries: Vec<(String, Json)> = Vec::new();
        let is_obj = self.is_object();
        if let Json::Object(v) = self {
            std::mem::swap(v, &mut entries);
        }
        let ghost m = view_members(entries@);
        proof {
            lemma_view_members(entries@);
        }
        match found {
            Some(i) => {
                proof {
                    lemma_find_key_from(m, key@, 0);
                }
                entries.set(i, (key.to_owned(), member));
                proof {
                    lemma_view_members(entries@);
                    assert(view_members(entries@) =~= m.update(i as int, (key@, member@)));
                }
            },
            None => {
                entries.push((key.to_owned(), member));
                proof {
                    lemma_view_members(entries@);
                    if is_obj {
                        assert(view_members(entries@) =~= m.push((key@, member@)));
                    } else {
                        assert(view_members(entries@) =~= seq![(key@, member@)]);
                    }
                }
            },
        }
        *self = Json::Object(entries);
    }

    /// `value.remove(key)`: see [`JsonV::without_member`].
    pub fn remove(&mut self, key: &str)
        ensures
            final(self)@ == old(self)@.without_member(key@),
    {
        if !self.is_object() {
            return;
        }
        let mut rest: Vec<(String, Json)> = Vec::new();
        if let Json::Object(v) = self {
            std::mem::swap(v, &mut rest);
        }
        let ghost m = view_members(rest@);
        proof {
            lemma_view_members(rest@);
        }
        let mut kept: Vec<(String, Json)> = Vec::new();
        let ghost n = m.len();
        let ghost mut k: int = 0;
        proof {
            lemma_view_members(kept@);
            reveal(Seq::filter);
            assert(m.subrange(0, 0) =~= Seq::<(Seq<char>, JsonV)>::empty());
        }
        while rest.len() > 0
            invariant
                n == m.len(),
                0 <= k <= n,
                rest@.len() == n - k,
                forall|j: int| k <= j < n ==> #[trigger] m[j] == (rest@[j - k].0@, view_json(rest@[j - k].1)),
                view_members(kept@) == m.subrange(0, k).filter(not_named(key@)),
            decreases rest@.len(),
        {
            let ghost before = kept@;
            let ghost rest_before = rest@;
            let e = rest.remove(0);
            assert(m[k] == (e.0@, view_json(e.1)));
            let same = crate::text::str_eq(e.0.as_str(), key);
            if !same {
                kept.push(e);
            }
            proof {
                lemma_view_members(kept@);
                lemma_view_members(before);
                reveal(Seq::filter);
                assert(m.subrange(0, k + 1).drop_last() =~= m.subrange(0, k));
                assert(m.subrange(0, k + 1).last() == m[k]);
                if !same {
                    assert(view_members(kept@) =~= view_members(before).push(m[k]));
                } else {
                    assert(kept@ == before);
                }
                assert(view_members(kept@) =~= m.subrange(0, k + 1).filter(not_named(key@)));
                assert forall|j: int| k + 1 <= j < n implies #[trigger] m[j] == (rest@[j - (k + 1)].0@, view_json(rest@[j - (k + 1)].1)) by {
                    assert(rest@[j - (k + 1)] == rest_before[j - k]);
                }
                k = k + 1;
            }
        }
        proof {
            assert(m.subrange(0, n as int) =~= m);
        }
        *self = Json::Object(kept);
    }
}

/// The `json` crate's own value type, carried through opaquely.
#[verifier::external_type_specification]
#[verifier::external_body]
pub struct ExJsonValue(json::JsonValue);

/// What `json::parse` makes of a text: `None` where it reports an error.
pub uninterp spec fn json_text_value(text: Seq<char>) -> Option<JsonV>;

/// What `json::stringify_pretty` writes for a value, indenting by `spaces`.
pub uninterp spec fn json_pretty_text(value: JsonV, spaces: u16) -> Seq<char>;

/// What `JsonValue::dump` (compact form) writes for a value.
pub uninterp spec fn json_dump_text(value: JsonV) -> Seq<char>;

/// What a value's `Display` writes: a string as it is, `null`, a number or
/// a boolean as text, and other values in their compact form.
pub uninterp spec fn json_display_text(value: JsonV) -> Seq<char>;

/// The view of an optional parsed document.
pub open spec fn opt_json_view(r: Option<Json>) -> Option<JsonV> {
    match r {
        Some(v) => Some(v@),
        None => None,
    }
}

/// Copies a `json::JsonValue` into the library's model, one variant for
/// one variant; a number keeps the parts that `Number::as_parts` reports.
#[verifier::external_body]
fn from_json_value(v: &json::JsonValue) -> Json {
    match v {
        json::JsonValue::Null => Json::Null,
        json::JsonValue::Short(s) => Json::Str(s.as_str().to_string()),
        json::JsonValue::String(s) => Json::Str(s.clone()),
        json::JsonValue::Number(n) => {
            let (positive, mantissa, exponent) = n.as_parts();
            Json::Number(JsonNumber { positive, mantissa, exponent })
        },
        json::JsonValue::Boolean(b) => Json::Boolean(*b),
        json::JsonValue::Object(o) => Json::Object(o.iter().map(|(k, x)| (k.to_string(), from_json_value(x))).collect()),
        json::JsonValue::Array(a) => Json::Array(a.iter().map(from_json_value).collect()),
    }
}

/// Copies the library's model back into a `json::JsonValue`, one variant
/// for one variant; a number is rebuilt from its parts with
/// `Number::from_parts`.
#[verifier::external_body]
fn to_json_value(v: &Json) -> json::JsonValue {
    match v {
        Json::Null => json::JsonValue::Null,
        Json::Str(s) => json::JsonValue::String(s.clone()),
        Json::Number(n) => json::JsonValue::Number(json::number::Number::from_parts(n.positive, n.mantissa, n.exponent)),
        Json::Boolean(b) => json::JsonValue::Boolean(*b),
        Json::Object(o) => json::JsonValue::Object(o.iter().map(|(k, x)| (k.as_str(), to_json_value(x))).collect()),
        Json::Array(a) => json::JsonValue::Array(a.iter().map(to_json_value).collect()),
    }
}

/// Reads a JSON text (with `json::parse`); `None` where it is not valid
/// JSON.
pub fn parse_json(text: &str) -> (r: Option<Json>)
    ensures
        opt_json_view(r) == json_text_value(text@),
{
    parse_json_text(text)
}

/// Calls `json::parse`; the result, converted, is what
/// [`json_text_value`] names.
#[verifier::external_body]
pub(crate) fn parse_json_text(text: &str) -> (r: Option<Json>)
    ensures
        opt_json_view(r) == json_text_value(text@),
{
    match json::parse(text) {
        Ok(v) => Some(from_json_value(&v)),
        Err(_) => None,
    }
}

/// Calls `json::stringify_pretty` on the value.
#[verifier::external_body]
pub(crate) fn stringify_pretty(v: &Json, spaces: u16) -> (r: String)
    ensures
        r@ == json_pretty_text(v@, spaces),
{
    json::stringify_pretty(to_json_value(v), spaces)
}

/// Calls `JsonValue::dump` on the value.
#[verifier::external_body]
pub(crate) fn dump(v: &Json) -> (r: String)
    ensures
        r@ == json_dump_text(v@),
{
    to_json_value(v).dump()
}

/// Formats the value with `{}` (`Display` of `json::JsonValue`), which
/// writes a string without quotes, `null` for null, `true` or `false` for
/// a boolean, and an object or an array in its compact form.
#[verifier::external_body]
pub(crate) fn display(v: &Json) -> (r: String)
    ensures
        r@ == json_display_text(v@),
        v@ is Str ==> r@ == v@->Str_0,
        v@ is Null ==> r@ == "null"@,
        v@ matches JsonV::Boolean(b) ==> r@ == (if b { "true"@ } else { "false"@ }),
        (v@ is Object || v@ is Array) ==> r@ == json_dump_text(v@),
{
    format!("{}", to_json_value(v))
}

/// An item of an array member is a smaller value than the document.
pub proof fn lemma_item_decreases(node: JsonV, key: Seq<char>, k: int)
    requires
        0 <= k < node.idx(key).items().len(),
    ensures
        decreases_to!(node => node.idx(key).items()[k]),
{
    match node {
        JsonV::Object(m) => {
            lemma_find_key_from(m, key, 0);
            match find_key(m, key) {
                Some(i) => {
                    match m[i].1 {
                        JsonV::Array(v) => {
                            assert(decreases_to!(node => m));
                            assert(decreases_to!(m => m[i]));
                            assert(decreases_to!(m[i] => m[i].1));
                            assert(decreases_to!(m[i].1 => v));
                            assert(decreases_to!(v => v[k]));
                        },
                        _ => {},
                    }
                },
                None => {},
            }
        },
        _ => {},
    }
}

} // verus!
