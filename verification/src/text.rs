//! Verified helpers over sequences of characters.
//!
//! Header values arrive as strings; the parsers in this crate work on
//! their character sequences. This module gives the splitting, trimming
//! and unsigned-number parsing they share, each exec function proved
//! against a spec function over `Seq<char>`.

use vstd::prelude::*;

verus! {

/// The characters `char::is_whitespace` recognises: the Unicode
/// `White_Space` set, which `str::trim` and `str::split_whitespace` go
/// by.
pub open spec fn is_ws_char(c: char) -> bool {
    let u = c as u32;
    (9 <= u && u <= 13) || u == 32 || u == 0x85 || u == 0xA0 || u == 0x1680 || (0x2000 <= u && u
        <= 0x200A) || u == 0x2028 || u == 0x2029 || u == 0x202F || u == 0x205F || u == 0x3000
}

/// Exec test for [`is_ws_char`].
pub fn is_whitespace_char(c: char) -> (r: bool)
    ensures
        r == is_ws_char(c),
{
    let u = c as u32;
    (9 <= u && u <= 13) || u == 32 || u == 0x85 || u == 0xA0 || u == 0x1680 || (0x2000 <= u && u
        <= 0x200A) || u == 0x2028 || u == 0x2029 || u == 0x202F || u == 0x205F || u == 0x3000
}

/// A decimal digit.
pub open spec fn is_digit_char(c: char) -> bool {
    48 <= (c as u32) && (c as u32) <= 57
}

/// The numeric value of a decimal digit.
pub open spec fn digit_val(c: char) -> int {
    (c as u32) - 48
}

/// Collects the characters of a string into a vector.
pub fn chars_of_str(s: &str) -> (v: Vec<char>)
    ensures
        v@ == s@,
{
    let n = s.unicode_len();
    let mut v: Vec<char> = Vec::new();
    let mut i: usize = 0;
    while i < n
        invariant
            i <= n,
            n == s@.len(),
            v@ =~= s@.take(i as int),
        decreases n - i,
    {
        v.push(s.get_char(i));
        i = i + 1;
    }
    proof {
        assert(v@ =~= s@);
    }
    v
}

/// Copies the characters of `v` between `a` (inclusive) and `b` (exclusive).
pub fn subvec(v: &Vec<char>, a: usize, b: usize) -> (r: Vec<char>)
    requires
        a <= b <= v@.len(),
    ensures
        r@ == v@.subrange(a as int, b as int),
{
    let mut r: Vec<char> = Vec::new();
    let mut i: usize = a;
    while i < b
        invariant
            a <= i <= b <= v@.len(),
            r@ =~= v@.subrange(a as int, i as int),
        decreases b - i,
    {
        r.push(v[i]);
        i = i + 1;
    }
    proof {
        assert(r@ =~= v@.subrange(a as int, b as int));
    }
    r
}

/// Whether `v` holds exactly the characters of `s`.
pub fn chars_eq_str(v: &Vec<char>, s: &str) -> (r: bool)
    ensures
        r == (v@ == s@),
{
    let n = s.unicode_len();
    if v.len() != n {
        return false;
    }
    let mut i: usize = 0;
    while i < n
        invariant
            i <= n,
            n == s@.len(),
            v@.len() == n,
            forall|j: int| 0 <= j < i ==> v@[j] == s@[j],
        decreases n - i,
    {
        if v[i] != s.get_char(i) {
            return false;
        }
        i = i + 1;
    }
    proof {
        assert(v@ =~= s@);
    }
    true
}

// ------------------------------------------------------------------
// Finding a character
// ------------------------------------------------------------------

/// The index of the first occurrence of `c` in `s`, or `s.len()` if absent.
pub open spec fn find_char(s: Seq<char>, c: char) -> int
    decreases s.len(),
{
    if s.len() == 0 {
        0
    } else if s[0] == c {
        0
    } else {
        1 + find_char(s.drop_first(), c)
    }
}

pub proof fn lemma_find_char(s: Seq<char>, c: char)
    ensures
        0 <= find_char(s, c) <= s.len(),
        find_char(s, c) < s.len() ==> s[find_char(s, c)] == c,
        forall|j: int| 0 <= j < find_char(s, c) ==> s[j] != c,
    decreases s.len(),
{
    if s.len() == 0 {
    } else if s[0] == c {
    } else {
        lemma_find_char(s.drop_first(), c);
        assert forall|j: int| 0 <= j < find_char(s, c) implies s[j] != c by {
            if j > 0 {
                assert(s.drop_first()[j - 1] != c);
            }
        }
    }
}

/// The characterisation used by the scanning loops: an index below which
/// `c` never occurs, and at which it occurs unless the end was reached,
/// is the first occurrence.
pub proof fn lemma_find_char_is(s: Seq<char>, c: char, i: int)
    requires
        0 <= i <= s.len(),
        forall|j: int| 0 <= j < i ==> s[j] != c,
        i < s.len() ==> s[i] == c,
    ensures
        find_char(s, c) == i,
    decreases s.len(),
{
    if s.len() == 0 {
    } else if s[0] == c {
        assert(i == 0);
    } else {
        assert(i >= 1);
        lemma_find_char_is(s.drop_first(), c, i - 1);
    }
}

/// Finds the first occurrence of `c` in `v`, returning `v.len()` if absent.
pub fn find_char_in(v: &Vec<char>, c: char) -> (r: usize)
    ensures
        r == find_char(v@, c),
{
    let n = v.len();
    let mut i: usize = 0;
    while i < n
        invariant
            i <= n,
            n == v@.len(),
            forall|j: int| 0 <= j < i ==> v@[j] != c,
        decreases n - i,
    {
        if v[i] == c {
            proof {
                lemma_find_char_is(v@, c, i as int);
            }
            return i;
        }
        i = i + 1;
    }
    proof {
        lemma_find_char_is(v@, c, n as int);
    }
    n
}

// ------------------------------------------------------------------
// Splitting
// ------------------------------------------------------------------

/// The pieces of `s` between occurrences of `sep`, as Rust's `split`
/// yields them: always at least one piece, and empty pieces where two
/// separators meet or one stands at an end.
pub open spec fn split_char(s: Seq<char>, sep: char) -> Seq<Seq<char>>
    decreases s.len(),
{
    if s.len() == 0 {
        seq![Seq::<char>::empty()]
    } else {
        let rest = split_char(s.drop_last(), sep);
        if s.last() == sep {
            rest.push(Seq::<char>::empty())
        } else {
            rest.update(rest.len() - 1, rest.last().push(s.last()))
        }
    }
}

pub proof fn lemma_split_char_len(s: Seq<char>, sep: char)
    ensures
        split_char(s, sep).len() >= 1,
    decreases s.len(),
{
    if s.len() > 0 {
        lemma_split_char_len(s.drop_last(), sep);
    }
}

/// The sequences held by a vector of character vectors.
pub open spec fn views_of(vs: Seq<Vec<char>>) -> Seq<Seq<char>> {
    vs.map_values(|p: Vec<char>| p@)
}

/// Splits `v` at every occurrence of `sep`.
pub fn split_char_vec(v: &Vec<char>, sep: char) -> (r: Vec<Vec<char>>)
    ensures
        views_of(r@) == split_char(v@, sep),
{
    let n = v.len();
    let mut r: Vec<Vec<char>> = Vec::new();
    r.push(Vec::new());
    proof {
        assert(views_of(r@) =~= split_char(v@.take(0), sep));
    }
    let mut i: usize = 0;
    while i < n
        invariant
            i <= n,
            n == v@.len(),
            r@.len() >= 1,
            views_of(r@) == split_char(v@.take(i as int), sep),
        decreases n - i,
    {
        let ghost prefix = v@.take(i as int);
        let c = v[i];
        if c == sep {
            r.push(Vec::new());
        } else {
            let last = r.len() - 1;
            let mut piece = match r.pop() {
                Some(p) => p,
                None => Vec::new(),
            };
            piece.push(c);
            r.push(piece);
            proof {
                let whole = split_char(prefix.push(c), sep);
                lemma_split_char_len(prefix, sep);
                assert(prefix.push(c).drop_last() =~= prefix);
                assert(views_of(r@) =~= whole);
            }
        }
        proof {
            assert(v@.take(i as int).push(v@[i as int]) =~= v@.take(i + 1 as int));
            if c == sep {
                assert(v@.take(i + 1 as int).drop_last() =~= v@.take(i as int));
                assert(views_of(r@) =~= split_char(v@.take(i + 1 as int), sep));
            }
        }
        i = i + 1;
    }
    proof {
        assert(v@.take(n as int) =~= v@);
    }
    r
}

/// Rust's `split_once`: the text before and after the first occurrence
/// of `sep`, or nothing if `sep` does not occur.
pub open spec fn split_once_char(s: Seq<char>, sep: char) -> Option<(Seq<char>, Seq<char>)> {
    let i = find_char(s, sep);
    if i == s.len() {
        None
    } else {
        Some((s.take(i), s.skip(i + 1)))
    }
}

/// Splits `v` at the first occurrence of `sep`, if any.
pub fn split_once_vec(v: &Vec<char>, sep: char) -> (r: Option<(Vec<char>, Vec<char>)>)
    ensures
        match r {
            Some(p) => split_once_char(v@, sep) == Some((p.0@, p.1@)),
            None => split_once_char(v@, sep) is None,
        },
{
    proof {
        lemma_find_char(v@, sep);
    }
    let i = find_char_in(v, sep);
    if i == v.len() {
        None
    } else {
        let before = subvec(v, 0, i);
        let after = subvec(v, i + 1, v.len());
        Some((before, after))
    }
}

// ------------------------------------------------------------------
// Trimming
// ------------------------------------------------------------------

/// `s` without its leading characters satisfying `p`.
pub open spec fn drop_leading(s: Seq<char>, p: spec_fn(char) -> bool) -> Seq<char>
    decreases s.len(),
{
    if s.len() > 0 && p(s[0]) {
        drop_leading(s.drop_first(), p)
    } else {
        s
    }
}

/// `s` without its trailing characters satisfying `p`.
pub open spec fn drop_trailing(s: Seq<char>, p: spec_fn(char) -> bool) -> Seq<char>
    decreases s.len(),
{
    if s.len() > 0 && p(s.last()) {
        drop_trailing(s.drop_last(), p)
    } else {
        s
    }
}

pub proof fn lemma_drop_leading_at(s: Seq<char>, p: spec_fn(char) -> bool, a: int)
    requires
        0 <= a <= s.len(),
        forall|j: int| 0 <= j < a ==> p(s[j]),
        a < s.len() ==> !p(s[a]),
    ensures
        drop_leading(s, p) == s.skip(a),
    decreases a,
{
    if a == 0 {
        assert(s.skip(0) =~= s);
    } else {
        lemma_drop_leading_at(s.drop_first(), p, a - 1);
        assert(s.drop_first().skip(a - 1) =~= s.skip(a));
    }
}

pub proof fn lemma_drop_trailing_at(s: Seq<char>, p: spec_fn(char) -> bool, b: int)
    requires
        0 <= b <= s.len(),
        forall|j: int| b <= j < s.len() ==> p(s[j]),
        b > 0 ==> !p(s[b - 1]),
    ensures
        drop_trailing(s, p) == s.take(b),
    decreases s.len() - b,
{
    if b == s.len() {
        if b > 0 {
            assert(s.take(b) =~= s);
        } else {
            assert(s.take(0) =~= s);
        }
    } else {
        lemma_drop_trailing_at(s.drop_last(), p, b);
        assert(s.drop_last().take(b) =~= s.take(b));
    }
}

/// `s` without surrounding whitespace.
pub open spec fn trim_ws(s: Seq<char>) -> Seq<char> {
    drop_trailing(drop_leading(s, |c: char| is_ws_char(c)), |c: char| is_ws_char(c))
}

/// Trims whitespace from both ends of `v`.
pub fn trim_ws_vec(v: &Vec<char>) -> (r: Vec<char>)
    ensures
        r@ == trim_ws(v@),
{
    let n = v.len();
    let mut a: usize = 0;
    while a < n && is_whitespace_char(v[a])
        invariant
            a <= n,
            n == v@.len(),
            forall|j: int| 0 <= j < a ==> is_ws_char(v@[j]),
        decreases n - a,
    {
        a = a + 1;
    }
    let mut b: usize = n;
    while b > a && is_whitespace_char(v[b - 1])
        invariant
            a <= b <= n,
            n == v@.len(),
            forall|j: int| b <= j < n ==> is_ws_char(v@[j]),
        decreases b,
    {
        b = b - 1;
    }
    proof {
        let p = |c: char| is_ws_char(c);
        lemma_drop_leading_at(v@, p, a as int);
        let t = v@.skip(a as int);
        assert forall|j: int| b - a <= j < t.len() implies p(t[j]) by {
            assert(t[j] == v@[j + a]);
        }
        if b > a {
            assert(!p(t[b - a - 1]));
        }
        lemma_drop_trailing_at(t, p, b - a as int);
        assert(t.take(b - a as int) =~= v@.subrange(a as int, b as int));
    }
    subvec(v, a, b)
}

/// `s` without surrounding double quotes, as Rust's `trim_matches('"')`
/// strips them: repeatedly, from both ends.
pub open spec fn strip_quotes(s: Seq<char>) -> Seq<char> {
    drop_trailing(drop_leading(s, |c: char| c == '"'), |c: char| c == '"')
}

/// Strips double quotes from both ends of `v`.
pub fn strip_quotes_vec(v: &Vec<char>) -> (r: Vec<char>)
    ensures
        r@ == strip_quotes(v@),
{
    let n = v.len();
    let mut a: usize = 0;
    while a < n && v[a] == '"'
        invariant
            a <= n,
            n == v@.len(),
            forall|j: int| 0 <= j < a ==> v@[j] == '"',
        decreases n - a,
    {
        a = a + 1;
    }
    let mut b: usize = n;
    while b > a && v[b - 1] == '"'
        invariant
            a <= b <= n,
            n == v@.len(),
            forall|j: int| b <= j < n ==> v@[j] == '"',
        decreases b,
    {
        b = b - 1;
    }
    proof {
        let p = |c: char| c == '"';
        lemma_drop_leading_at(v@, p, a as int);
        let t = v@.skip(a as int);
        assert forall|j: int| b - a <= j < t.len() implies p(t[j]) by {
            assert(t[j] == v@[j + a]);
        }
        if b > a {
            assert(!p(t[b - a - 1]));
        }
        lemma_drop_trailing_at(t, p, b - a as int);
        assert(t.take(b - a as int) =~= v@.subrange(a as int, b as int));
    }
    subvec(v, a, b)
}

// ------------------------------------------------------------------
// Unsigned decimal numbers
// ------------------------------------------------------------------

/// Whether every character of `s` is a decimal digit.
pub open spec fn all_digits(s: Seq<char>) -> bool {
    forall|i: int| 0 <= i < s.len() ==> is_digit_char(s[i])
}

/// The value of a sequence of decimal digits.
pub open spec fn digits_val(s: Seq<char>) -> int
    decreases s.len(),
{
    if s.len() == 0 {
        0
    } else {
        digits_val(s.drop_last()) * 10 + digit_val(s.last())
    }
}

/// `s` without the single leading `+` sign Rust's unsigned `from_str`
/// tolerates.
pub open spec fn strip_plus(s: Seq<char>) -> Seq<char> {
    if s.len() > 0 && s[0] == '+' {
        s.drop_first()
    } else {
        s
    }
}

/// The number denoted by `s` as Rust's unsigned `from_str` reads it,
/// before any range check: an optional leading `+`, then one or more
/// digits.
pub open spec fn parse_uint(s: Seq<char>) -> Option<int> {
    let t = strip_plus(s);
    if t.len() > 0 && all_digits(t) {
        Some(digits_val(t))
    } else {
        None
    }
}

/// The number denoted by `s`, if it fits in a `u64`; what
/// `str::parse::<u64>` accepts.
pub open spec fn parse_u64_spec(s: Seq<char>) -> Option<u64> {
    match parse_uint(s) {
        Some(v) => if v <= u64::MAX {
            Some(v as u64)
        } else {
            None
        },
        None => None,
    }
}

/// The number denoted by `s`, if it fits in a `u16`; what
/// `str::parse::<u16>` accepts. A value beyond `u64::MAX` is beyond
/// `u16::MAX` too, so the range check may go through [`parse_u64_spec`].
pub open spec fn parse_u16_spec(s: Seq<char>) -> Option<u16> {
    match parse_u64_spec(s) {
        Some(x) => if x <= u16::MAX {
            Some(x as u16)
        } else {
            None
        },
        None => None,
    }
}

pub proof fn lemma_digits_val_nonneg(s: Seq<char>)
    requires
        all_digits(s),
    ensures
        digits_val(s) >= 0,
    decreases s.len(),
{
    if s.len() > 0 {
        assert(all_digits(s.drop_last()));
        lemma_digits_val_nonneg(s.drop_last());
    }
}

/// Appending digits never shrinks the value.
pub proof fn lemma_digits_val_prefix(s: Seq<char>, k: int)
    requires
        all_digits(s),
        0 <= k <= s.len(),
    ensures
        digits_val(s) >= digits_val(s.take(k)),
    decreases s.len() - k,
{
    if k < s.len() {
        lemma_digits_val_prefix(s, k + 1);
        assert(s.take(k + 1).drop_last() =~= s.take(k));
        assert(all_digits(s.take(k)));
        lemma_digits_val_nonneg(s.take(k));
        assert(digits_val(s.take(k + 1)) >= digits_val(s.take(k)));
    } else {
        assert(s.take(k) =~= s);
    }
}

/// Parses `v` as a `u64`, exactly as `str::parse::<u64>` would.
pub fn parse_u64_vec(v: &Vec<char>) -> (r: Option<u64>)
    ensures
        r == parse_u64_spec(v@),
{
    let n = v.len();
    let start: usize = if n > 0 && v[0] == '+' {
        1
    } else {
        0
    };
    let ghost t = strip_plus(v@);
    proof {
        assert(t =~= v@.subrange(start as int, n as int));
    }
    if start == n {
        return None;
    }
    let mut acc: u64 = 0;
    let mut i: usize = start;
    while i < n
        invariant
            start <= i <= n,
            n == v@.len(),
            start < n,
            t == strip_plus(v@),
            t == v@.subrange(start as int, n as int),
            forall|j: int| start <= j < i ==> is_digit_char(v@[j]),
            acc == digits_val(t.take(i - start)),
        decreases n - i,
    {
        let c = v[i];
        let u = c as u32;
        if u < 48 || u > 57 {
            proof {
                assert(t[i - start] == v@[i as int]);
                assert(!is_digit_char(t[i - start]));
                assert(!all_digits(t));
            }
            return None;
        }
        let d = (u - 48) as u64;
        let ghost prefix = t.take(i - start);
        proof {
            assert(t.take(i + 1 - start).drop_last() =~= prefix);
            assert(t.take(i + 1 - start).last() == v@[i as int]);
        }
        if acc > 1844674407370955161u64 || (acc == 1844674407370955161u64 && d > 5) {
            proof {
                assert(digits_val(t.take(i + 1 - start)) > u64::MAX);
                if all_digits(t) {
                    lemma_digits_val_prefix(t, i + 1 - start);
                } else {
                    assert(parse_uint(v@) is None);
                }
            }
            return None;
        }
        acc = acc * 10 + d;
        i = i + 1;
    }
    proof {
        assert(t.take(n - start) =~= t);
        assert(all_digits(t));
    }
    Some(acc)
}

/// Parses `v` as a `u16`, exactly as `str::parse::<u16>` would.
pub fn parse_u16_vec(v: &Vec<char>) -> (r: Option<u16>)
    ensures
        r == parse_u16_spec(v@),
{
    match parse_u64_vec(v) {
        Some(x) => {
            if x <= 65535 {
                proof {
                    assert(x as u16 == x) by (bit_vector)
                        requires
                            x <= 65535u64,
                    ;
                }
                Some(x as u16)
            } else {
                None
            }
        },
        None => None,
    }
}

// ------------------------------------------------------------------
// Splitting on whitespace
// ------------------------------------------------------------------

/// The index of the first character satisfying `p`, or `s.len()` if
/// none does.
pub open spec fn find_if(s: Seq<char>, p: spec_fn(char) -> bool) -> int
    decreases s.len(),
{
    if s.len() == 0 {
        0
    } else if p(s[0]) {
        0
    } else {
        1 + find_if(s.drop_first(), p)
    }
}

pub proof fn lemma_find_if(s: Seq<char>, p: spec_fn(char) -> bool)
    ensures
        0 <= find_if(s, p) <= s.len(),
        find_if(s, p) < s.len() ==> p(s[find_if(s, p)]),
        forall|j: int| 0 <= j < find_if(s, p) ==> !p(s[j]),
    decreases s.len(),
{
    if s.len() == 0 {
    } else if p(s[0]) {
    } else {
        lemma_find_if(s.drop_first(), p);
        assert forall|j: int| 0 <= j < find_if(s, p) implies !p(s[j]) by {
            if j > 0 {
                assert(!p(s.drop_first()[j - 1]));
            }
        }
    }
}

pub proof fn lemma_find_if_is(s: Seq<char>, p: spec_fn(char) -> bool, i: int)
    requires
        0 <= i <= s.len(),
        forall|j: int| 0 <= j < i ==> !p(s[j]),
        i < s.len() ==> p(s[i]),
    ensures
        find_if(s, p) == i,
    decreases s.len(),
{
    if s.len() == 0 {
    } else if p(s[0]) {
        assert(i == 0);
    } else {
        assert(i >= 1);
        lemma_find_if_is(s.drop_first(), p, i - 1);
    }
}

pub proof fn lemma_drop_leading_props(s: Seq<char>, p: spec_fn(char) -> bool)
    ensures
        drop_leading(s, p).len() <= s.len(),
        drop_leading(s, p).len() > 0 ==> !p(drop_leading(s, p)[0]),
    decreases s.len(),
{
    if s.len() > 0 && p(s[0]) {
        lemma_drop_leading_props(s.drop_first(), p);
    }
}

pub proof fn lemma_drop_trailing_len(s: Seq<char>, p: spec_fn(char) -> bool)
    ensures
        drop_trailing(s, p).len() <= s.len(),
    decreases s.len(),
{
    if s.len() > 0 && p(s.last()) {
        lemma_drop_trailing_len(s.drop_last(), p);
    }
}

/// The pieces `str::split_whitespace` yields: maximal runs of
/// non-whitespace characters, in order, never empty.
pub open spec fn split_ws(s: Seq<char>) -> Seq<Seq<char>>
    decreases s.len(),
    via split_ws_decreases
{
    let t = drop_leading(s, |c: char| is_ws_char(c));
    if t.len() == 0 {
        Seq::empty()
    } else {
        let i = find_if(t, |c: char| is_ws_char(c));
        seq![t.take(i)] + split_ws(t.skip(i))
    }
}

#[via_fn]
proof fn split_ws_decreases(s: Seq<char>) {
    let p = |c: char| is_ws_char(c);
    let t = drop_leading(s, p);
    lemma_drop_leading_props(s, p);
    if t.len() > 0 {
        lemma_find_if(t, p);
        assert(find_if(t, p) >= 1);
    }
}

/// Every piece of [`split_ws`] is non-empty and free of whitespace.
pub proof fn lemma_split_ws_parts(s: Seq<char>)
    ensures
        forall|k: int|
            0 <= k < split_ws(s).len() ==> (#[trigger] split_ws(s)[k]).len() > 0 && forall|j: int|
                0 <= j < split_ws(s)[k].len() ==> !is_ws_char(split_ws(s)[k][j]),
    decreases s.len(),
{
    let p = |c: char| is_ws_char(c);
    let t = drop_leading(s, p);
    lemma_drop_leading_props(s, p);
    if t.len() > 0 {
        lemma_find_if(t, p);
        let i = find_if(t, p);
        assert(i >= 1);
        lemma_split_ws_parts(t.skip(i));
        let head = t.take(i);
        assert(head.len() > 0 && forall|j: int| 0 <= j < head.len() ==> !is_ws_char(head[j]));
        assert forall|k: int| 0 <= k < split_ws(s).len() implies (#[trigger] split_ws(s)[k]).len()
            > 0 && forall|j: int|
            0 <= j < split_ws(s)[k].len() ==> !is_ws_char(split_ws(s)[k][j]) by {
            if k == 0 {
                assert(split_ws(s)[0] == head);
            } else {
                assert(split_ws(s)[k] == split_ws(t.skip(i))[k - 1]);
            }
        }
    }
}

/// A string whose trimmed form is non-empty splits into at least one
/// piece.
pub proof fn lemma_split_ws_nonempty(s: Seq<char>)
    requires
        trim_ws(s).len() > 0,
    ensures
        split_ws(s).len() >= 1,
{
    let p = |c: char| is_ws_char(c);
    lemma_drop_trailing_len(drop_leading(s, p), p);
}

/// Splits `v` into its whitespace-separated pieces.
pub fn split_ws_vec(v: &Vec<char>) -> (r: Vec<Vec<char>>)
    ensures
        views_of(r@) == split_ws(v@),
    decreases v@.len(),
{
    let ghost p = |c: char| is_ws_char(c);
    let n = v.len();
    let mut a: usize = 0;
    while a < n && is_whitespace_char(v[a])
        invariant
            a <= n,
            n == v@.len(),
            forall|j: int| 0 <= j < a ==> is_ws_char(v@[j]),
        decreases n - a,
    {
        a = a + 1;
    }
    proof {
        lemma_drop_leading_at(v@, p, a as int);
    }
    let ghost t = v@.skip(a as int);
    if a == n {
        let r: Vec<Vec<char>> = Vec::new();
        proof {
            assert(views_of(r@) =~= split_ws(v@));
        }
        return r;
    }
    let mut b: usize = a;
    while b < n && !is_whitespace_char(v[b])
        invariant
            a <= b <= n,
            n == v@.len(),
            forall|j: int| a <= j < b ==> !is_ws_char(v@[j]),
        decreases n - b,
    {
        b = b + 1;
    }
    proof {
        assert forall|j: int| 0 <= j < b - a implies !p(t[j]) by {
            assert(t[j] == v@[j + a]);
        }
        if b < n {
            assert(p(t[b - a]));
        }
        lemma_find_if_is(t, p, b - a as int);
        assert(t.take(b - a as int) =~= v@.subrange(a as int, b as int));
        assert(t.skip(b - a as int) =~= v@.subrange(b as int, n as int));
    }
    let piece = subvec(v, a, b);
    let rest = subvec(v, b, n);
    let mut tail = split_ws_vec(&rest);
    let mut r: Vec<Vec<char>> = Vec::new();
    r.push(piece);
    r.append(&mut tail);
    proof {
        assert(views_of(r@) =~= split_ws(v@));
    }
    r
}

// ------------------------------------------------------------------
// Lowercasing
// ------------------------------------------------------------------

/// The ASCII-lowercased form of a character, as
/// `char::to_ascii_lowercase` gives it.
pub open spec fn lower_char(c: char) -> char {
    if 65 <= (c as u32) && (c as u32) <= 90 {
        ((((c as u32) + 32) as u8) as char)
    } else {
        c
    }
}

/// The ASCII-lowercased form of a sequence of characters.
pub open spec fn lower_seq(s: Seq<char>) -> Seq<char> {
    s.map_values(|c: char| lower_char(c))
}

/// Exec twin of [`lower_char`].
pub fn lower_char_exec(c: char) -> (r: char)
    ensures
        r == lower_char(c),
{
    let u = c as u32;
    if 65 <= u && u <= 90 {
        (((u + 32) as u8) as char)
    } else {
        c
    }
}

// ------------------------------------------------------------------
// Joining
// ------------------------------------------------------------------

/// The pieces joined with a single space between them.
pub open spec fn join_sp(parts: Seq<Seq<char>>) -> Seq<char>
    decreases parts.len(),
{
    if parts.len() == 0 {
        Seq::empty()
    } else if parts.len() == 1 {
        parts[0]
    } else {
        parts[0] + seq![' '] + join_sp(parts.drop_first())
    }
}

/// How [`join_sp`] grows when a piece is appended.
pub proof fn lemma_join_sp_snoc(parts: Seq<Seq<char>>, x: Seq<char>)
    ensures
        join_sp(parts.push(x)) == if parts.len() == 0 {
            x
        } else {
            join_sp(parts) + seq![' '] + x
        },
    decreases parts.len(),
{
    let w = parts.push(x);
    if parts.len() == 0 {
        assert(w[0] == x);
    } else if parts.len() == 1 {
        assert(w.drop_first() =~= seq![x]);
        assert(join_sp(w) == w[0] + seq![' '] + join_sp(w.drop_first()));
        assert(w[0] == parts[0]);
    } else {
        lemma_join_sp_snoc(parts.drop_first(), x);
        assert(w.drop_first() =~= parts.drop_first().push(x));
        assert(w[0] == parts[0]);
        let head = parts[0];
        let mid = join_sp(parts.drop_first());
        assert(head + seq![' '] + (mid + seq![' '] + x) =~= (head + seq![' '] + mid) + seq![' '] + x);
    }
}

/// A join of pieces starts with the first piece.
pub proof fn lemma_join_sp_head(parts: Seq<Seq<char>>)
    requires
        parts.len() >= 1,
        parts[0].len() > 0,
    ensures
        join_sp(parts).len() > 0,
        join_sp(parts)[0] == parts[0][0],
{
}

// ------------------------------------------------------------------
// Building strings
// ------------------------------------------------------------------

/// Appends the characters of `src` to `dst`.
pub fn append_chars(dst: &mut Vec<char>, src: &Vec<char>)
    ensures
        final(dst)@ == old(dst)@ + src@,
{
    let n = src.len();
    let mut i: usize = 0;
    while i < n
        invariant
            i <= n,
            n == src@.len(),
            dst@ =~= old(dst)@ + src@.take(i as int),
        decreases n - i,
    {
        dst.push(src[i]);
        i = i + 1;
    }
    proof {
        assert(old(dst)@ + src@.take(n as int) =~= old(dst)@ + src@);
    }
}

/// Relies on `String::push`: appends one character to the string.
#[verifier::external_body]
pub fn push_char(s: &mut String, c: char)
    ensures
        final(s)@ == old(s)@.push(c),
{
    s.push(c);
}

/// Collects a vector of characters into a string.
pub fn string_from_chars(v: &Vec<char>) -> (s: String)
    ensures
        s@ == v@,
{
    let n = v.len();
    let mut s = String::new();
    let mut i: usize = 0;
    while i < n
        invariant
            i <= n,
            n == v@.len(),
            s@ =~= v@.take(i as int),
        decreases n - i,
    {
        push_char(&mut s, v[i]);
        i = i + 1;
    }
    proof {
        assert(s@ =~= v@);
    }
    s
}

} // verus!
