//! Verified helpers for working with strings as sequences of characters.

use vstd::prelude::*;

verus! {

/// `needle` occurs as a contiguous run inside `hay`.
pub open spec fn seq_contains_sub(hay: Seq<char>, needle: Seq<char>) -> bool {
    exists|i: int|
        0 <= i && i + needle.len() <= hay.len() && #[trigger] hay.subrange(i, i + needle.len())
            == needle
}

/// `hay` starts with `needle`.
pub open spec fn seq_starts_with(hay: Seq<char>, needle: Seq<char>) -> bool {
    needle.len() <= hay.len() && hay.subrange(0, needle.len() as int) == needle
}

/// `hay` ends with `needle`.
pub open spec fn seq_ends_with(hay: Seq<char>, needle: Seq<char>) -> bool {
    needle.len() <= hay.len() && hay.subrange(
        hay.len() - needle.len(),
        hay.len() as int,
    ) == needle
}

/// Equality of two string slices, decided character by character.
pub fn str_eq(a: &str, b: &str) -> (r: bool)
    ensures
        r == (a@ == b@),
{
    let na = a.unicode_len();
    let nb = b.unicode_len();
    if na != nb {
        assert(a@.len() != b@.len());
        return false;
    }
    let mut i: usize = 0;
    while i < na
        invariant
            na == a@.len(),
            nb == b@.len(),
            na == nb,
            0 <= i <= na,
            forall|j: int| 0 <= j < i ==> a@[j] == b@[j],
        decreases na - i,
    {
        if a.get_char(i) != b.get_char(i) {
            return false;
        }
        i += 1;
    }
    assert(a@ =~= b@);
    true
}

/// The characters of `hay` starting at `at` spell out `needle`.
fn matches_at(hay: &str, needle: &str, at: usize) -> (r: bool)
    requires
        at + needle@.len() <= hay@.len(),
    ensures
        r == (hay@.subrange(at as int, at + needle@.len()) == needle@),
{
    let n = hay.unicode_len();
    let m = needle.unicode_len();
    let mut j: usize = 0;
    while j < m
        invariant
            n == hay@.len(),
            m == needle@.len(),
            at + m <= n,
            0 <= j <= m,
            forall|t: int| 0 <= t < j ==> hay@[at + t] == needle@[t],
        decreases m - j,
    {
        if hay.get_char(at + j) != needle.get_char(j) {
            assert(hay@.subrange(at as int, at + m) != needle@) by {
                assert(hay@.subrange(at as int, at + m)[j as int] == hay@[at + j]);
            }
            return false;
        }
        j += 1;
    }
    assert(hay@.subrange(at as int, at + m) =~= needle@);
    true
}

/// Substring search, as `str::contains` behaves on exact character runs.
pub fn str_contains(hay: &str, needle: &str) -> (r: bool)
    ensures
        r == seq_contains_sub(hay@, needle@),
{
    let n = hay.unicode_len();
    let m = needle.unicode_len();
    if m > n {
        return false;
    }
    if m == 0 {
        assert(seq_contains_sub(hay@, needle@)) by {
            assert(hay@.subrange(0, 0 + needle@.len() as int) =~= needle@);
        }
        return true;
    }
    let mut i: usize = 0;
    while i <= n - m
        invariant
            n == hay@.len(),
            m == needle@.len(),
            1 <= m <= n,
            0 <= i <= n - m + 1,
            forall|k: int| 0 <= k < i ==> #[trigger] hay@.subrange(k, k + m) != needle@,
        decreases n - m - i + 1,
    {
        if matches_at(hay, needle, i) {
            return true;
        }
        i += 1;
    }
    false
}

/// Prefix test on exact character runs.
pub fn str_starts_with(hay: &str, needle: &str) -> (r: bool)
    ensures
        r == seq_starts_with(hay@, needle@),
{
    let n = hay.unicode_len();
    let m = needle.unicode_len();
    if m > n {
        return false;
    }
    matches_at(hay, needle, 0)
}

/// Suffix test on exact character runs.
pub fn str_ends_with(hay: &str, needle: &str) -> (r: bool)
    ensures
        r == seq_ends_with(hay@, needle@),
{
    let n = hay.unicode_len();
    let m = needle.unicode_len();
    if m > n {
        return false;
    }
    matches_at(hay, needle, n - m)
}

/// First position at or after `i` holding `c`, or the length.
pub open spec fn first_at_or_after(s: Seq<char>, i: int, c: char) -> int
    decreases s.len() - i when 0 <= i <= s.len()
{
    if i >= s.len() || s[i] == c {
        i
    } else {
        first_at_or_after(s, i + 1, c)
    }
}

/// Position of the first occurrence of `c`, or the length when absent.
pub open spec fn first_occurrence(s: Seq<char>, c: char) -> int {
    first_at_or_after(s, 0, c)
}

pub proof fn lemma_first_at_or_after_bounds(s: Seq<char>, i: int, c: char)
    requires
        0 <= i <= s.len(),
    ensures
        i <= first_at_or_after(s, i, c) <= s.len(),
    decreases s.len() - i,
{
    if i < s.len() && s[i] != c {
        lemma_first_at_or_after_bounds(s, i + 1, c);
    }
}

/// Find the first occurrence of a character.
pub fn find_char(s: &str, c: char) -> (r: Option<usize>)
    ensures
        match r {
            Some(i) => i == first_occurrence(s@, c) && i < s@.len() && s@[i as int] == c,
            None => first_occurrence(s@, c) == s@.len(),
        },
{
    let n = s.unicode_len();
    let mut i: usize = 0;
    while i < n
        invariant
            n == s@.len(),
            0 <= i <= n,
            forall|k: int| 0 <= k < i ==> #[trigger] s@[k] != c,
        decreases n - i,
    {
        if s.get_char(i) == c {
            proof {
                lemma_first_eq(s@, 0, i as int, c);
            }
            return Some(i);
        }
        i += 1;
    }
    proof {
        lemma_first_eq(s@, 0, n as int, c);
    }
    None
}

proof fn lemma_first_eq(s: Seq<char>, i: int, j: int, c: char)
    requires
        0 <= i <= j <= s.len(),
        forall|k: int| i <= k < j ==> #[trigger] s[k] != c,
        j == s.len() || s[j] == c,
    ensures
        first_at_or_after(s, i, c) == j,
    decreases j - i,
{
    if i < j {
        lemma_first_eq(s, i + 1, j, c);
    }
}

/// Number of occurrences of `c` in `s`.
pub open spec fn count_char(s: Seq<char>, c: char) -> int
    decreases s.len(),
{
    if s.len() == 0 {
        0
    } else {
        count_char(s.drop_last(), c) + if s.last() == c {
            1int
        } else {
            0int
        }
    }
}

/// Count how often a character occurs.
pub fn str_count_char(s: &str, c: char) -> (r: usize)
    ensures
        r == count_char(s@, c),
{
    proof {
        lemma_count_char_bounds(s@.take(0), c);
        assert(s@.take(0) =~= Seq::<char>::empty());
    }
    let n = s.unicode_len();
    let mut count: usize = 0;
    let mut i: usize = 0;
    while i < n
        invariant
            n == s@.len(),
            0 <= i <= n,
            count == count_char(s@.take(i as int), c),
            count <= i,
        decreases n - i,
    {
        proof {
            assert(s@.take(i + 1).drop_last() =~= s@.take(i as int));
            assert(s@.take(i + 1).last() == s@[i as int]);
        }
        if s.get_char(i) == c {
            count += 1;
        }
        i += 1;
    }
    proof {
        assert(s@.take(n as int) =~= s@);
    }
    count
}

proof fn lemma_count_char_bounds(s: Seq<char>, c: char)
    ensures
        0 <= count_char(s, c) <= s.len(),
    decreases s.len(),
{
    if s.len() > 0 {
        lemma_count_char_bounds(s.drop_last(), c);
    }
}

/// ASCII upper-case letters map onto their lower-case forms; all other
/// characters only equal themselves.
pub open spec fn char_eq_ignore_ascii_case(a: char, b: char) -> bool {
    a == b || (is_ascii_upper(a) && b as u32 == a as u32 + 32) || (is_ascii_upper(b) && a as u32
        == b as u32 + 32)
}

pub open spec fn is_ascii_upper(c: char) -> bool {
    'A' <= c && c <= 'Z'
}

/// Case-insensitive equality over ASCII letters, as HTTP header names are
/// compared.
pub open spec fn seq_eq_ignore_ascii_case(a: Seq<char>, b: Seq<char>) -> bool {
    a.len() == b.len() && forall|i: int|
        0 <= i < a.len() ==> char_eq_ignore_ascii_case(a[i], b[i])
}

fn char_eq_ci(a: char, b: char) -> (r: bool)
    ensures
        r == char_eq_ignore_ascii_case(a, b),
{
    if a == b {
        return true;
    }
    let ua = a as u32;
    let ub = b as u32;
    if 65 <= ua && ua <= 90 && ub == ua + 32 {
        return true;
    }
    if 65 <= ub && ub <= 90 && ua == ub + 32 {
        return true;
    }
    assert('A' as u32 == 65 && 'Z' as u32 == 90);
    false
}

/// The characters `str::trim` removes at either end.
pub open spec fn is_trim_whitespace(c: char) -> bool {
    let u = c as u32;
    u == 0x20 || u == 0x9 || u == 0xa || u == 0xb || u == 0xc || u == 0xd || u == 0x85 || u == 0xa0
        || u == 0x1680 || (0x2000 <= u && u <= 0x200a) || u == 0x2028 || u == 0x2029 || u == 0x202f
        || u == 0x205f || u == 0x3000
}

pub fn char_is_trim_ws(c: char) -> (r: bool)
    ensures
        r == is_trim_whitespace(c),
{
    let u = c as u32;
    u == 0x20 || u == 0x9 || u == 0xa || u == 0xb || u == 0xc || u == 0xd || u == 0x85 || u == 0xa0
        || u == 0x1680 || (0x2000 <= u && u <= 0x200a) || u == 0x2028 || u == 0x2029 || u == 0x202f
        || u == 0x205f || u == 0x3000
}

/// First position at or after `i` that is not whitespace.
pub open spec fn ws_prefix_end(s: Seq<char>, i: int) -> int
    decreases s.len() - i when 0 <= i <= s.len()
{
    if i >= s.len() || !is_trim_whitespace(s[i]) {
        i
    } else {
        ws_prefix_end(s, i + 1)
    }
}

/// Position just past the last non-whitespace character.
pub open spec fn ws_suffix_start(s: Seq<char>) -> int
    decreases s.len(),
{
    if s.len() == 0 {
        0
    } else if is_trim_whitespace(s.last()) {
        ws_suffix_start(s.drop_last())
    } else {
        s.len() as int
    }
}

/// The text with its surrounding whitespace removed, as `str::trim`.
pub open spec fn spec_trim(s: Seq<char>) -> Seq<char> {
    let a = ws_prefix_end(s, 0);
    let b = ws_suffix_start(s);
    if 0 <= a <= b <= s.len() {
        s.subrange(a, b)
    } else {
        Seq::empty()
    }
}

proof fn lemma_ws_prefix_is(s: Seq<char>, i: int, j: int)
    requires
        0 <= i <= j <= s.len(),
        forall|k: int| i <= k < j ==> is_trim_whitespace(#[trigger] s[k]),
        j == s.len() || !is_trim_whitespace(s[j]),
    ensures
        ws_prefix_end(s, i) == j,
    decreases j - i,
{
    if i < j {
        lemma_ws_prefix_is(s, i + 1, j);
    }
}

proof fn lemma_ws_suffix_is(s: Seq<char>, b: int)
    requires
        0 <= b <= s.len(),
        forall|k: int| b <= k < s.len() ==> is_trim_whitespace(#[trigger] s[k]),
        b == 0 || !is_trim_whitespace(s[b - 1]),
    ensures
        ws_suffix_start(s) == b,
    decreases s.len(),
{
    if s.len() > 0 {
        if b < s.len() {
            assert(is_trim_whitespace(s.last()));
            assert(forall|k: int|
                0 <= k < s.len() - 1 ==> #[trigger] s.drop_last()[k] == s[k]);
            lemma_ws_suffix_is(s.drop_last(), b);
        }
    }
}

/// Trim surrounding whitespace, as `str::trim` does.
pub fn str_trim(s: &str) -> (r: String)
    ensures
        r@ == spec_trim(s@),
{
    let n = s.unicode_len();
    let mut a: usize = 0;
    while a < n && char_is_trim_ws_at(s, n, a)
        invariant
            n == s@.len(),
            0 <= a <= n,
            forall|k: int| 0 <= k < a ==> is_trim_whitespace(#[trigger] s@[k]),
        decreases n - a,
    {
        a += 1;
    }
    proof {
        lemma_ws_prefix_is(s@, 0, a as int);
    }
    if a == n {
        proof {
            if ws_suffix_start(s@) > 0 {
                lemma_ws_suffix_nonws(s@);
            }
        }
        return String::new();
    }
    let mut b: usize = n;
    while b > a && char_is_trim_ws_at(s, n, b - 1)
        invariant
            n == s@.len(),
            a <= b <= n,
            a < n,
            !is_trim_whitespace(s@[a as int]),
            forall|k: int| b <= k < n ==> is_trim_whitespace(#[trigger] s@[k]),
        decreases b,
    {
        b -= 1;
    }
    proof {
        assert(b > a);
        assert(!is_trim_whitespace(s@[b - 1]));
        lemma_ws_suffix_is(s@, b as int);
    }
    let piece = s.substring_char(a, b);
    piece.to_owned()
}

/// A nonzero suffix start has a non-whitespace character before it.
proof fn lemma_ws_suffix_nonws(s: Seq<char>)
    requires
        ws_suffix_start(s) > 0,
    ensures
        !is_trim_whitespace(s[ws_suffix_start(s) - 1]),
        ws_suffix_start(s) <= s.len(),
    decreases s.len(),
{
    if s.len() > 0 {
        if is_trim_whitespace(s.last()) {
            lemma_ws_suffix_nonws(s.drop_last());
        }
    }
}

fn char_is_trim_ws_at(s: &str, n: usize, i: usize) -> (r: bool)
    requires
        n == s@.len(),
        i < n,
    ensures
        r == is_trim_whitespace(s@[i as int]),
{
    char_is_trim_ws(s.get_char(i))
}

/// The pieces of `s` between occurrences of `c`, in order; empty
/// pieces are kept, and a text without `c` is one piece.
pub open spec fn split_char(s: Seq<char>, c: char) -> Seq<Seq<char>>
    decreases s.len() via split_char_dec
{
    let e = first_occurrence(s, c);
    if e >= s.len() {
        seq![s]
    } else {
        seq![s.subrange(0, e)] + split_char(s.subrange(e + 1, s.len() as int), c)
    }
}

#[via_fn]
proof fn split_char_dec(s: Seq<char>, c: char) {
    lemma_first_at_or_after_bounds(s, 0, c);
}

/// Split a string at every occurrence of a character.
pub fn split_on(s: &str, c: char) -> (r: Vec<String>)
    ensures
        r.deep_view() == split_char(s@, c),
{
    let n = s.unicode_len();
    let mut out: Vec<String> = Vec::new();
    let mut i: usize = 0;
    proof {
        assert(s@.subrange(0, n as int) =~= s@);
        assert(out.deep_view() =~= Seq::<Seq<char>>::empty());
        assert(out.deep_view() + split_char(s@.subrange(0, n as int), c) =~= split_char(s@, c));
    }
    loop
        invariant
            n == s@.len(),
            0 <= i <= n,
            out.deep_view() + split_char(s@.subrange(i as int, n as int), c) =~= split_char(
                s@,
                c,
            ),
        decreases n - i,
    {
        let rest = s.substring_char(i, n);
        let ghost rv = rest@;
        match find_char(rest, c) {
            Some(e) => {
                let piece = rest.substring_char(0, e);
                let ghost before = out.deep_view();
                out.push(piece.to_owned());
                proof {
                    lemma_first_at_or_after_bounds(rv, 0, c);
                    assert(out.deep_view() =~= before.push(rv.subrange(0, e as int)));
                    assert(rv.subrange(e + 1, rv.len() as int) =~= s@.subrange(
                        i + e + 1,
                        n as int,
                    ));
                    assert(split_char(rv, c) == seq![rv.subrange(0, e as int)] + split_char(
                        s@.subrange(i + e + 1, n as int),
                        c,
                    ));
                    assert(before + (seq![rv.subrange(0, e as int)] + split_char(
                        s@.subrange(i + e + 1, n as int),
                        c,
                    )) =~= (before + seq![rv.subrange(0, e as int)]) + split_char(
                        s@.subrange(i + e + 1, n as int),
                        c,
                    ));
                }
                i = i + e + 1;
            },
            None => {
                let ghost before = out.deep_view();
                out.push(rest.to_owned());
                proof {
                    assert(split_char(rv, c) == seq![rv]);
                    assert(out.deep_view() =~= before.push(rv));
                    assert(before + seq![rv] =~= out.deep_view());
                }
                return out;
            },
        }
    }
}

/// Case-insensitive string equality restricted to ASCII letters.
pub fn str_eq_ignore_ascii_case(a: &str, b: &str) -> (r: bool)
    ensures
        r == seq_eq_ignore_ascii_case(a@, b@),
{
    let na = a.unicode_len();
    let nb = b.unicode_len();
    if na != nb {
        return false;
    }
    let mut i: usize = 0;
    while i < na
        invariant
            na == a@.len(),
            nb == b@.len(),
            na == nb,
            0 <= i <= na,
            forall|j: int| 0 <= j < i ==> char_eq_ignore_ascii_case(a@[j], b@[j]),
        decreases na - i,
    {
        if !char_eq_ci(a.get_char(i), b.get_char(i)) {
            return false;
        }
        i += 1;
    }
    true
}

} // verus!
