//! Character-level string helpers shared by the rest of the library.

use vstd::prelude::*;
use vstd::string::StringSliceAdditionalSpecFns;

verus! {

/// `String::push` appends one character to the end of the string.
pub assume_specification[ String::push ](s: &mut String, ch: char)
    ensures
        final(s)@ == old(s)@.push(ch),
;

/// The result of `str::to_lowercase`: Unicode's lowercase mapping of a
/// string, character by character (some characters map to several).
pub uninterp spec fn unicode_lowercase(s: Seq<char>) -> Seq<char>;

/// The lowercase form of an ASCII character: `A` to `Z` become `a` to `z`,
/// the others stay.
pub open spec fn ascii_lower_char(c: char) -> char {
    if 'A' <= c && c <= 'Z' {
        "abcdefghijklmnopqrstuvwxyz"@[(c as u32) - ('A' as u32)]
    } else {
        c
    }
}

/// Whether every character of `s` is ASCII.
pub open spec fn all_ascii(s: Seq<char>) -> bool {
    forall|i: int| 0 <= i < s.len() ==> (#[trigger] s[i] as u32) < 128
}

/// Calls `str::to_lowercase`. The contract names its result; of the
/// Unicode case tables it follows, it states only what they do on ASCII
/// text: each upper-case letter becomes its lower-case letter, and every
/// other character stays.
#[verifier::external_body]
pub fn to_lowercase(s: &str) -> (r: String)
    ensures
        r@ == unicode_lowercase(s@),
        all_ascii(s@) ==> r@ == s@.map_values(|c: char| ascii_lower_char(c)),
{
    s.to_lowercase()
}

/// The characters of a string, in order.
pub fn chars_of(s: &str) -> (r: Vec<char>)
    ensures
        r@ == s@,
{
    let n = s.unicode_len();
    let mut v: Vec<char> = Vec::new();
    let mut i: usize = 0;
    while i < n
        invariant
            n == s@.len(),
            i <= n,
            v@ == s@.subrange(0, i as int),
        decreases n - i,
    {
        v.push(s.get_char(i));
        i = i + 1;
    }
    v
}

/// A string made of the given characters.
pub fn string_of(cs: &[char]) -> (r: String)
    ensures
        r@ == cs@,
{
    let mut s = String::new();
    let mut i: usize = 0;
    while i < cs.len()
        invariant
            i <= cs@.len(),
            s@ == cs@.subrange(0, i as int),
        decreases cs@.len() - i,
    {
        s.push(cs[i]);
        i = i + 1;
    }
    s
}

/// A string made of the characters of `cs` from `from` up to `to`.
pub fn string_of_range(cs: &[char], from: usize, to: usize) -> (r: String)
    requires
        from <= to <= cs@.len(),
    ensures
        r@ == cs@.subrange(from as int, to as int),
{
    let mut s = String::new();
    let mut i: usize = from;
    while i < to
        invariant
            from <= i <= to <= cs@.len(),
            s@ == cs@.subrange(from as int, i as int),
        decreases to - i,
    {
        s.push(cs[i]);
        i = i + 1;
        assert(s@ =~= cs@.subrange(from as int, i as int));
    }
    s
}

/// Whether two strings hold the same characters.
pub fn str_eq(a: &str, b: &str) -> (r: bool)
    ensures
        r == (a@ == b@),
{
    let x = chars_of(a);
    let y = chars_of(b);
    if x.len() != y.len() {
        return false;
    }
    let mut i: usize = 0;
    while i < x.len()
        invariant
            x@ == a@,
            y@ == b@,
            x@.len() == y@.len(),
            i <= x@.len(),
            forall|j: int| 0 <= j < i ==> x@[j] == y@[j],
        decreases x@.len() - i,
    {
        if x[i] != y[i] {
            return false;
        }
        i = i + 1;
    }
    assert(x@ =~= y@);
    true
}

/// A string of `n` copies of `c` (what `c.to_string().repeat(n)` gives).
pub fn repeat_char(c: char, n: usize) -> (r: String)
    ensures
        r@ == Seq::new(n as nat, |i: int| c),
{
    let mut s = String::new();
    let mut i: usize = 0;
    while i < n
        invariant
            i <= n,
            s@ == Seq::new(i as nat, |j: int| c),
        decreases n - i,
    {
        s.push(c);
        i = i + 1;
        assert(s@ =~= Seq::new(i as nat, |j: int| c));
    }
    s
}

/// Characters with Unicode's `White_Space` property (what
/// `char::is_whitespace` accepts).
pub open spec fn is_ws(c: char) -> bool {
    let u = c as u32;
    (0x09 <= u <= 0x0D) || u == 0x20 || u == 0x85 || u == 0xA0 || u == 0x1680 || (0x2000 <= u
        <= 0x200A) || u == 0x2028 || u == 0x2029 || u == 0x202F || u == 0x205F || u == 0x3000
}

/// Whether `c` is Unicode white space.
pub fn is_whitespace(c: char) -> (r: bool)
    ensures
        r == is_ws(c),
{
    let u = c as u32;
    (0x09 <= u && u <= 0x0D) || u == 0x20 || u == 0x85 || u == 0xA0 || u == 0x1680 || (0x2000 <= u
        && u <= 0x200A) || u == 0x2028 || u == 0x2029 || u == 0x202F || u == 0x205F || u == 0x3000
}

/// Number of white-space characters at the start of `s`.
pub open spec fn leading_ws(s: Seq<char>) -> nat
    decreases s.len(),
{
    if s.len() > 0 && is_ws(s[0]) {
        1 + leading_ws(s.drop_first())
    } else {
        0
    }
}

/// Number of white-space characters at the end of `s`.
pub open spec fn trailing_ws(s: Seq<char>) -> nat
    decreases s.len(),
{
    if s.len() > 0 && is_ws(s.last()) {
        1 + trailing_ws(s.drop_last())
    } else {
        0
    }
}

/// `str::trim`: `s` without leading and trailing white space.
pub open spec fn trim_spec(s: Seq<char>) -> Seq<char> {
    let t = s.skip(leading_ws(s) as int);
    t.take(t.len() - trailing_ws(t))
}

proof fn lemma_leading_ws_bound(s: Seq<char>)
    ensures
        leading_ws(s) <= s.len(),
    decreases s.len(),
{
    if s.len() > 0 && is_ws(s[0]) {
        lemma_leading_ws_bound(s.drop_first());
    }
}

proof fn lemma_trailing_ws_bound(s: Seq<char>)
    ensures
        trailing_ws(s) <= s.len(),
    decreases s.len(),
{
    if s.len() > 0 && is_ws(s.last()) {
        lemma_trailing_ws_bound(s.drop_last());
    }
}

/// Characters of `s` with leading and trailing white space removed.
pub fn trim_chars(s: &[char]) -> (r: Vec<char>)
    ensures
        r@ == trim_spec(s@),
{
    let n = s.len();
    let mut a: usize = 0;
    assert(s@.skip(0) =~= s@);
    while a < n && is_whitespace(s[a])
        invariant
            a <= n == s@.len(),
            leading_ws(s@) == a + leading_ws(s@.skip(a as int)),
        decreases n - a,
    {
        assert(s@.skip(a as int).drop_first() =~= s@.skip(a + 1));
        a = a + 1;
    }
    assert(leading_ws(s@) == a);
    let ghost t = s@.skip(a as int);
    let mut b: usize = n;
    while b > a && is_whitespace(s[b - 1])
        invariant
            a <= b <= n == s@.len(),
            t == s@.skip(a as int),
            trailing_ws(t) == (n - b) + trailing_ws(s@.subrange(a as int, b as int)),
        decreases b - a,
    {
        assert(s@.subrange(a as int, b as int).drop_last() =~= s@.subrange(a as int, b - 1));
        assert(s@.subrange(a as int, b as int).last() == s@[b - 1]);
        b = b - 1;
    }
    assert(trailing_ws(s@.subrange(a as int, b as int)) == 0);
    assert(s@.subrange(a as int, n as int) =~= t);
    let mut r: Vec<char> = Vec::new();
    let mut i: usize = a;
    while i < b
        invariant
            a <= i <= b <= n == s@.len(),
            r@ == s@.subrange(a as int, i as int),
        decreases b - i,
    {
        r.push(s[i]);
        i = i + 1;
        assert(r@ =~= s@.subrange(a as int, i as int));
    }
    assert(t.take(t.len() - trailing_ws(t)) =~= s@.subrange(a as int, b as int));
    r
}

/// `str::trim`, as an owned string.
pub fn trim(s: &str) -> (r: String)
    ensures
        r@ == trim_spec(s@),
{
    let cs = chars_of(s);
    let t = trim_chars(cs.as_slice());
    string_of(t.as_slice())
}

/// The pieces of `s` between separators `c`, with `cur` already read
/// into the first piece.
pub open spec fn split_from(s: Seq<char>, c: char, cur: Seq<char>) -> Seq<Seq<char>>
    decreases s.len(),
{
    if s.len() == 0 {
        seq![cur]
    } else if s[0] == c {
        seq![cur] + split_from(s.drop_first(), c, Seq::empty())
    } else {
        split_from(s.drop_first(), c, cur.push(s[0]))
    }
}

/// `str::split(c)`: the pieces of `s` between the separators.
pub open spec fn split_spec(s: Seq<char>, c: char) -> Seq<Seq<char>> {
    split_from(s, c, Seq::empty())
}

/// The pieces of `s` between separators `c`, in order.
pub fn split_char(s: &str, c: char) -> (r: Vec<String>)
    ensures
        r@.map_values(|x: String| x@) == split_spec(s@, c),
{
    let cs = chars_of(s);
    let mut out: Vec<String> = Vec::new();
    let mut cur: Vec<char> = Vec::new();
    let mut i: usize = 0;
    assert(cs@.skip(0) =~= cs@);
    assert(out@.map_values(|x: String| x@) =~= Seq::<Seq<char>>::empty());
    while i < cs.len()
        invariant
            cs@ == s@,
            i <= cs@.len(),
            out@.map_values(|x: String| x@) + split_from(cs@.skip(i as int), c, cur@) == split_spec(s@, c),
        decreases cs@.len() - i,
    {
        let ghost before = out@.map_values(|x: String| x@);
        assert(cs@.skip(i as int).drop_first() =~= cs@.skip(i + 1));
        if cs[i] == c {
            let piece = string_of(cur.as_slice());
            out.push(piece);
            cur = Vec::new();
            assert(out@.map_values(|x: String| x@) =~= before.push(piece@));
            assert(before + split_from(cs@.skip(i as int), c, piece@) =~= before.push(piece@) + split_from(cs@.skip(i + 1), c, cur@));
        } else {
            cur.push(cs[i]);
        }
        i = i + 1;
    }
    let piece = string_of(cur.as_slice());
    let ghost before = out@.map_values(|x: String| x@);
    out.push(piece);
    assert(cs@.skip(i as int) =~= Seq::<char>::empty());
    assert(out@.map_values(|x: String| x@) =~= before.push(piece@));
    out
}

/// The pieces joined with `sep` between them.
pub open spec fn join_spec(pieces: Seq<Seq<char>>, sep: Seq<char>) -> Seq<char>
    decreases pieces.len(),
{
    if pieces.len() == 0 {
        Seq::empty()
    } else if pieces.len() == 1 {
        pieces[0]
    } else {
        join_spec(pieces.drop_last(), sep) + sep + pieces.last()
    }
}

/// `pieces.join(sep)`.
pub fn join(pieces: &[String], sep: &str) -> (r: String)
    ensures
        r@ == join_spec(pieces@.map_values(|x: String| x@), sep@),
{
    let ghost ps = pieces@.map_values(|x: String| x@);
    let mut r = String::new();
    let mut i: usize = 0;
    while i < pieces.len()
        invariant
            i <= pieces@.len(),
            ps == pieces@.map_values(|x: String| x@),
            r@ == join_spec(ps.take(i as int), sep@),
        decreases pieces@.len() - i,
    {
        assert(ps.take(i + 1).drop_last() =~= ps.take(i as int));
        if i > 0 {
            r.append(sep);
        }
        r.append(pieces[i].as_str());
        i = i + 1;
        if i == 1 {
            assert(ps.take(0) =~= Seq::<Seq<char>>::empty());
        }
    }
    assert(ps.take(pieces@.len() as int) =~= ps);
    r
}

/// Whether `t` occurs in `s` at position `i`.
pub open spec fn occurs_at(s: Seq<char>, t: Seq<char>, i: int) -> bool {
    0 <= i && i + t.len() <= s.len() && s.subrange(i, i + t.len()) == t
}

/// `s.contains(t)`.
pub open spec fn contains_spec(s: Seq<char>, t: Seq<char>) -> bool {
    exists|i: int| occurs_at(s, t, i)
}

/// Whether `t` occurs in `s`.
pub fn contains(s: &str, t: &str) -> (r: bool)
    ensures
        r == contains_spec(s@, t@),
{
    let a = chars_of(s);
    let b = chars_of(t);
    if b.len() > a.len() {
        assert forall|i: int| !occurs_at(s@, t@, i) by {}
        return false;
    }
    let mut i: usize = 0;
    while i <= a.len() - b.len()
        invariant
            a@ == s@,
            b@ == t@,
            b@.len() <= a@.len(),
            i <= a@.len() - b@.len() + 1,
            forall|k: int| 0 <= k < i ==> !occurs_at(s@, t@, k),
        decreases a@.len() - i,
    {
        let mut j: usize = 0;
        let mut ok = true;
        while j < b.len()
            invariant
                a@ == s@,
                b@ == t@,
                i + b.len() <= a.len(),
                j <= b@.len(),
                ok == forall|m: int| 0 <= m < j ==> a@[i + m] == b@[m],
            decreases b@.len() - j,
        {
            if a[i + j] != b[j] {
                ok = false;
            }
            j = j + 1;
        }
        if ok {
            assert(s@.subrange(i as int, i + t@.len()) =~= t@);
            assert(occurs_at(s@, t@, i as int));
            return true;
        }
        assert(!occurs_at(s@, t@, i as int)) by {
            if s@.subrange(i as int, i + t@.len()) == t@ {
                assert forall|m: int| 0 <= m < b@.len() implies a@[i + m] == b@[m] by {
                    assert(s@.subrange(i as int, i + t@.len())[m] == s@[i + m]);
                }
            }
        }
        i = i + 1;
    }
    assert forall|k: int| !occurs_at(s@, t@, k) by {
        if 0 <= k && k < i {
        }
    }
    false
}

/// Whether `s` starts with `t`.
pub fn starts_with(s: &str, t: &str) -> (r: bool)
    ensures
        r == (t@.len() <= s@.len() && s@.take(t@.len() as int) == t@),
{
    let a = chars_of(s);
    let b = chars_of(t);
    if b.len() > a.len() {
        return false;
    }
    let mut j: usize = 0;
    while j < b.len()
        invariant
            a@ == s@,
            b@ == t@,
            b@.len() <= a@.len(),
            j <= b@.len(),
            forall|m: int| 0 <= m < j ==> a@[m] == b@[m],
        decreases b@.len() - j,
    {
        if a[j] != b[j] {
            assert(s@.take(t@.len() as int)[j as int] != t@[j as int]);
            return false;
        }
        j = j + 1;
    }
    assert(s@.take(t@.len() as int) =~= t@);
    true
}

/// Whether `c` is an ASCII decimal digit.
pub open spec fn is_digit(c: char) -> bool {
    '0' <= c <= '9'
}

/// The number that a string of decimal digits writes.
pub open spec fn digits_value(d: Seq<char>) -> nat
    decreases d.len(),
{
    if d.len() == 0 {
        0
    } else {
        digits_value(d.drop_last()) * 10 + ((d.last() as u32) - 48) as nat
    }
}

/// The digits part of a number text: without one leading `+`.
pub open spec fn unsigned_digits(s: Seq<char>) -> Seq<char> {
    if s.len() > 0 && s[0] == '+' {
        s.drop_first()
    } else {
        s
    }
}

/// Whether every character is a decimal digit.
pub open spec fn all_digits(d: Seq<char>) -> bool {
    forall|i: int| 0 <= i < d.len() ==> is_digit(#[trigger] d[i])
}

/// What `str::parse::<u32>` accepts: an optional `+`, then one or more
/// decimal digits whose value fits in a `u32`.
pub open spec fn u32_text(s: Seq<char>) -> Option<u32> {
    let d = unsigned_digits(s);
    if d.len() > 0 && all_digits(d) && digits_value(d) <= u32::MAX {
        Some(digits_value(d) as u32)
    } else {
        None
    }
}

/// Reads a `u32` written in decimal, as `str::parse::<u32>` does.
pub fn parse_u32(s: &str) -> (r: Option<u32>)
    ensures
        r == u32_text(s@),
{
    let cs = chars_of(s);
    let start: usize = if cs.len() > 0 && cs[0] == '+' {
        1
    } else {
        0
    };
    let ghost d = s@.skip(start as int);
    assert(d =~= unsigned_digits(s@));
    if start >= cs.len() {
        return None;
    }
    let cap: u64 = 4294967296;
    let mut acc: u64 = 0;
    let mut i: usize = start;
    while i < cs.len()
        invariant
            cs@ == s@,
            d == s@.skip(start as int),
            d == unsigned_digits(s@),
            start <= i <= cs@.len(),
            forall|j: int| 0 <= j < i - start ==> is_digit(#[trigger] d[j]),
            acc == (if digits_value(d.take(i - start)) < cap {
                digits_value(d.take(i - start))
            } else {
                cap as nat
            }),
            cap == 4294967296,
        decreases cs@.len() - i,
    {
        let c = cs[i];
        if !('0' <= c && c <= '9') {
            assert(d[i - start] == c);
            assert(!is_digit(d[i - start]));
            assert(!all_digits(d));
            return None;
        }
        let ghost k = i - start;
        assert(d.take(k + 1).drop_last() =~= d.take(k));
        assert(d.take(k + 1).last() == c);
        let digit: u64 = ((c as u32) - 48) as u64;
        let ghost v = digits_value(d.take(k));
        assert(digits_value(d.take(k + 1)) == v * 10 + digit);
        if acc == cap {
            assert(v * 10 + digit >= cap) by (nonlinear_arith)
                requires
                    v >= cap,
                    digit >= 0,
            ;
        } else {
            let next = acc * 10 + digit;
            acc = if next < cap {
                next
            } else {
                cap
            };
        }
        i = i + 1;
    }
    assert(d.take(cs@.len() - start) =~= d);
    assert(all_digits(d));
    if acc < cap {
        Some(acc as u32)
    } else {
        None
    }
}

/// The characters of each string.
pub open spec fn strs(v: Seq<String>) -> Seq<Seq<char>> {
    v.map_values(|s: String| s@)
}

/// The character of a decimal digit.
pub open spec fn digit_char(d: nat) -> char {
    ((d + 48) as u32) as char
}

/// `n` written in decimal, without leading zeros.
pub open spec fn decimal_spec(n: nat) -> Seq<char>
    decreases n,
{
    if n < 10 {
        seq![digit_char(n)]
    } else {
        decimal_spec(n / 10).push(digit_char(n % 10))
    }
}

/// `n` written in decimal (what `format!("{}", n)` writes).
pub fn decimal(n: u64) -> (r: String)
    ensures
        r@ == decimal_spec(n as nat),
    decreases n,
{
    if n < 10 {
        let mut s = String::new();
        let b: u8 = (n as u8) + 48;
        s.push(b as char);
        s
    } else {
        let mut s = decimal(n / 10);
        let b: u8 = ((n % 10) as u8) + 48;
        s.push(b as char);
        s
    }
}

/// `n` written in decimal, with a minus sign when negative.
pub open spec fn signed_decimal_spec(n: int) -> Seq<char> {
    if n < 0 {
        "-"@ + decimal_spec((-n) as nat)
    } else {
        decimal_spec(n as nat)
    }
}

/// `n` written in decimal (what `format!("{}", n)` writes for an `i64`).
pub fn signed_decimal(n: i64) -> (r: String)
    ensures
        r@ == signed_decimal_spec(n as int),
{
    if n < 0 {
        let m: u64 = if n == i64::MIN {
            9223372036854775808
        } else {
            (-n) as u64
        };
        let mut s = "-".to_owned();
        let d = decimal(m);
        s.append(d.as_str());
        s
    } else {
        decimal(n as u64)
    }
}

/// The UTF-8 bytes of a text.
pub open spec fn utf8(s: Seq<char>) -> Seq<u8> {
    vstd::utf8::encode_utf8(s)
}

/// Whether the first `n` bytes of a text end at a character boundary (or
/// the text is at most `n` bytes long).
pub open spec fn head_sliceable(s: Seq<char>, n: nat) -> bool {
    utf8(s).len() <= n || vstd::utf8::is_char_boundary(utf8(s), n as int)
}

/// The text made of the first `n` bytes of `s` (all of `s` when shorter):
/// `&s[..n.min(s.len())]`.
pub open spec fn byte_head(s: Seq<char>, n: nat) -> Seq<char> {
    if utf8(s).len() <= n {
        s
    } else {
        vstd::utf8::decode_utf8(utf8(s).subrange(0, n as int))
    }
}

/// The first `n` bytes of `s` (all of it when shorter), which must end at
/// a character boundary.
pub fn str_head(s: &str, n: usize) -> (r: String)
    requires
        head_sliceable(s@, n as nat),
    ensures
        r@ == byte_head(s@, n as nat),
{
    let len = s.as_bytes().len();
    if len <= n {
        return s.to_owned();
    }
    let (head, _) = s.split_at(n);
    proof {
        vstd::utf8::encode_utf8_decode_utf8(head@);
    }
    head.to_owned()
}

/// Splitting a text without separators gives one piece.
pub proof fn lemma_split_none(s: Seq<char>, c: char, cur: Seq<char>)
    requires
        !s.contains(c),
    ensures
        split_from(s, c, cur) == seq![cur + s],
    decreases s.len(),
{
    if s.len() == 0 {
        assert(cur + s =~= cur);
    } else {
        assert(s[0] != c) by {
            assert(s.contains(s[0]));
        }
        assert(!s.drop_first().contains(c)) by {
            if s.drop_first().contains(c) {
                let k = choose|k: int| 0 <= k < s.drop_first().len() && s.drop_first()[k] == c;
                assert(s[k + 1] == c);
            }
        }
        lemma_split_none(s.drop_first(), c, cur.push(s[0]));
        assert(cur.push(s[0]) + s.drop_first() =~= cur + s);
    }
}

/// Splitting at a separator splits both sides.
pub proof fn lemma_split_concat(a: Seq<char>, c: char, b: Seq<char>, cur: Seq<char>)
    ensures
        split_from(a + seq![c] + b, c, cur) == split_from(a, c, cur) + split_from(b, c, Seq::empty()),
    decreases a.len(),
{
    if a.len() == 0 {
        assert(a + seq![c] + b =~= seq![c] + b);
        assert((seq![c] + b).drop_first() =~= b);
    } else {
        assert((a + seq![c] + b).drop_first() =~= a.drop_first() + seq![c] + b);
        assert((a + seq![c] + b)[0] == a[0]);
        if a[0] == c {
            lemma_split_concat(a.drop_first(), c, b, Seq::empty());
            assert(seq![cur] + (split_from(a.drop_first(), c, Seq::empty()) + split_from(b, c, Seq::empty())) =~= (
            seq![cur] + split_from(a.drop_first(), c, Seq::empty())) + split_from(b, c, Seq::empty()));
        } else {
            lemma_split_concat(a.drop_first(), c, b, cur.push(a[0]));
        }
    }
}

/// Whether a text is its own trimmed form.
pub open spec fn is_trimmed(s: Seq<char>) -> bool {
    trim_spec(s) == s
}

proof fn lemma_trim_len(s: Seq<char>)
    ensures
        trim_spec(s).len() == s.len() - leading_ws(s) - trailing_ws(s.skip(leading_ws(s) as int)),
{
    lemma_leading_ws_bound(s);
    lemma_trailing_ws_bound(s.skip(leading_ws(s) as int));
}

/// A non-empty trimmed text starts and ends with a character that is not
/// white space.
pub proof fn lemma_trimmed_ends(s: Seq<char>)
    requires
        s.len() > 0,
        is_trimmed(s),
    ensures
        !is_ws(s[0]),
        !is_ws(s.last()),
        leading_ws(s) == 0,
        trailing_ws(s) == 0,
{
    lemma_trim_len(s);
    lemma_leading_ws_bound(s);
    lemma_trailing_ws_bound(s.skip(leading_ws(s) as int));
    assert(leading_ws(s) == 0);
    assert(s.skip(0) =~= s);
    assert(trailing_ws(s) == 0);
}

/// Trimming a space followed by a non-empty trimmed text gives the text.
pub proof fn lemma_trim_space_prefix(v: Seq<char>)
    requires
        v.len() > 0,
        is_trimmed(v),
    ensures
        trim_spec(seq![' '] + v) == v,
{
    lemma_trimmed_ends(v);
    let s = seq![' '] + v;
    assert(s.drop_first() =~= v);
    assert(is_ws(s[0]));
    assert(leading_ws(s) == 1);
    assert(s.skip(1) =~= v);
    assert(v.take(v.len() as int) =~= v);
}

/// `s` padded with spaces to `width` characters (`{:<width}`).
pub open spec fn pad_right(s: Seq<char>, width: nat) -> Seq<char> {
    if s.len() >= width {
        s
    } else {
        s + Seq::new((width - s.len()) as nat, |i: int| ' ')
    }
}

/// `s` padded with spaces to `width` characters.
pub fn pad(s: &str, width: usize) -> (r: String)
    ensures
        r@ == pad_right(s@, width as nat),
{
    let n = s.unicode_len();
    let mut r = s.to_owned();
    if n < width {
        let fill = repeat_char(' ', width - n);
        r.append(fill.as_str());
    }
    r
}

/// The order of `str`: character by character (UTF-8 bytes compare as the
/// characters they encode), a proper prefix first.
pub open spec fn text_less(a: Seq<char>, b: Seq<char>) -> bool
    decreases a.len(),
{
    if a.len() == 0 {
        b.len() > 0
    } else if b.len() == 0 {
        false
    } else if a[0] != b[0] {
        a[0] < b[0]
    } else {
        text_less(a.drop_first(), b.drop_first())
    }
}

/// No text comes before itself.
pub proof fn lemma_text_less_irreflexive(a: Seq<char>)
    ensures
        !text_less(a, a),
    decreases a.len(),
{
    if a.len() > 0 {
        lemma_text_less_irreflexive(a.drop_first());
    }
}

/// Of two different texts, one comes first, and not both.
pub proof fn lemma_text_less_total(a: Seq<char>, b: Seq<char>)
    ensures
        a != b ==> (text_less(a, b) || text_less(b, a)),
        !(text_less(a, b) && text_less(b, a)),
    decreases a.len(),
{
    if a.len() > 0 && b.len() > 0 {
        if a[0] == b[0] {
            lemma_text_less_total(a.drop_first(), b.drop_first());
            if a != b {
                assert(a.drop_first() != b.drop_first()) by {
                    if a.drop_first() == b.drop_first() {
                        assert(a =~= seq![a[0]] + a.drop_first());
                        assert(b =~= seq![b[0]] + b.drop_first());
                    }
                }
            }
        }
    } else if a.len() == 0 && b.len() == 0 {
        assert(a =~= b);
    }
}

/// The order is transitive.
pub proof fn lemma_text_less_transitive(a: Seq<char>, b: Seq<char>, c: Seq<char>)
    requires
        text_less(a, b),
        text_less(b, c),
    ensures
        text_less(a, c),
    decreases a.len(),
{
    if a.len() > 0 && b.len() > 0 && c.len() > 0 && a[0] == b[0] && b[0] == c[0] {
        lemma_text_less_transitive(a.drop_first(), b.drop_first(), c.drop_first());
    }
}

/// Compares two texts in the order of `str` (see [`text_less`]).
pub fn is_text_less(a: &str, b: &str) -> (r: bool)
    ensures
        r == text_less(a@, b@),
{
    let x = chars_of(a);
    let y = chars_of(b);
    let mut i: usize = 0;
    proof {
        assert(a@.skip(0) =~= a@);
        assert(b@.skip(0) =~= b@);
    }
    while i < x.len() && i < y.len() && x[i] == y[i]
        invariant
            x@ == a@,
            y@ == b@,
            i <= x@.len(),
            i <= y@.len(),
            text_less(a@, b@) == text_less(a@.skip(i as int), b@.skip(i as int)),
        decreases x@.len() - i,
    {
        proof {
            assert(a@.skip(i as int).drop_first() =~= a@.skip(i + 1));
            assert(b@.skip(i as int).drop_first() =~= b@.skip(i + 1));
        }
        i = i + 1;
    }
    if i == x.len() {
        i < y.len()
    } else if i == y.len() {
        false
    } else {
        x[i] < y[i]
    }
}

/// Whether each text comes before the next (so none occurs twice).
pub open spec fn strictly_sorted(s: Seq<Seq<char>>) -> bool {
    forall|i: int, j: int| 0 <= i < j < s.len() ==> text_less(#[trigger] s[i], #[trigger] s[j])
}

/// The texts of `keys` without repeats, in the order of `str` (as the
/// keys of a map are listed after sorting them).
pub fn sorted_keys(keys: &[String]) -> (r: Vec<String>)
    ensures
        strictly_sorted(strs(r@)),
        forall|x: Seq<char>| strs(r@).contains(x) <==> strs(keys@).contains(x),
{
    let mut out: Vec<String> = Vec::new();
    let mut i: usize = 0;
    while i < keys.len()
        invariant
            i <= keys@.len(),
            strictly_sorted(strs(out@)),
            forall|x: Seq<char>| strs(out@).contains(x) <==> strs(keys@.take(i as int)).contains(x),
        decreases keys@.len() - i,
    {
        let key = keys[i].as_str();
        let mut j: usize = 0;
        while j < out.len() && is_text_less(out[j].as_str(), key)
            invariant
                j <= out@.len(),
                forall|k: int| 0 <= k < j ==> text_less(#[trigger] out@[k]@, key@),
            decreases out@.len() - j,
        {
            j = j + 1;
        }
        let ghost before = out@;
        let present = j < out.len() && str_eq(out[j].as_str(), key);
        if !present {
            out.insert(j, keys[i].clone());
            proof {
                assert forall|a: int, b: int| 0 <= a < b < out@.len() implies text_less(
                    #[trigger] strs(out@)[a],
                    #[trigger] strs(out@)[b],
                ) by {
                    if b < j {
                        assert(strs(before)[a] == out@[a]@ && strs(before)[b] == out@[b]@);
                    } else if b == j {
                    } else if a == j {
                        lemma_text_less_total(before[j as int]@, key@);
                        if b - 1 > j {
                            assert(text_less(strs(before)[j as int], strs(before)[b - 1]));
                            lemma_text_less_transitive(key@, before[j as int]@, before[b - 1]@);
                        }
                    } else if a < j {
                        assert(text_less(before[a]@, key@));
                        lemma_text_less_total(before[j as int]@, key@);
                        assert(text_less(strs(before)[j as int], strs(before)[b - 1]) || b - 1 == j);
                        if b - 1 > j {
                            lemma_text_less_transitive(key@, before[j as int]@, before[b - 1]@);
                        }
                        lemma_text_less_transitive(before[a]@, key@, before[b - 1]@);
                    } else {
                        assert(strs(before)[a - 1] == out@[a]@ && strs(before)[b - 1] == out@[b]@);
                    }
                }
            }
        }
        proof {
            let t = keys@.take(i + 1);
            assert(strs(t) =~= strs(keys@.take(i as int)).push(keys@[i as int]@));
            assert forall|x: Seq<char>| strs(out@).contains(x) <==> strs(t).contains(x) by {
                if strs(t).contains(x) {
                    let k = choose|k: int| 0 <= k < strs(t).len() && strs(t)[k] == x;
                    if k < i {
                        assert(strs(keys@.take(i as int))[k] == x);
                        assert(strs(keys@.take(i as int)).contains(x));
                    }
                }
                if present {
                    assert(strs(out@) == strs(before));
                    if x == key@ {
                        assert(strs(before)[j as int] == x);
                    }
                    if strs(keys@.take(i as int)).contains(x) {
                        let k = choose|k: int| 0 <= k < strs(keys@.take(i as int)).len() && strs(keys@.take(i as int))[k] == x;
                        assert(strs(t)[k] == x);
                    }
                } else {
                    if strs(out@).contains(x) {
                        let k = choose|k: int| 0 <= k < strs(out@).len() && strs(out@)[k] == x;
                        if k < j {
                            assert(strs(before)[k] == x);
                        } else if k > j {
                            assert(strs(before)[k - 1] == x);
                        } else {
                            assert(strs(t)[i as int] == x);
                        }
                    }
                    if strs(before).contains(x) {
                        let k = choose|k: int| 0 <= k < strs(before).len() && strs(before)[k] == x;
                        if k < j {
                            assert(strs(out@)[k] == x);
                        } else {
                            assert(strs(out@)[k + 1] == x);
                        }
                    }
                    if x == key@ {
                        assert(strs(out@)[j as int] == x);
                    }
                    if strs(keys@.take(i as int)).contains(x) {
                        let k = choose|k: int| 0 <= k < strs(keys@.take(i as int)).len() && strs(keys@.take(i as int))[k] == x;
                        assert(strs(t)[k] == x);
                    }
                }
            }
        }
        i = i + 1;
    }
    proof {
        assert(keys@.take(keys@.len() as int) =~= keys@);
    }
    out
}

} // verus!
