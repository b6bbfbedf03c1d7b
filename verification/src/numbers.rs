//! Verified decimal parsing and rendering of integers.
//!
//! Matchers compare string-encoded numbers, and responses carry status
//! codes and latencies that are rendered as decimal strings; both
//! directions are implemented and specified here.

use vstd::prelude::*;

verus! {

pub open spec fn is_digit_char(c: char) -> bool {
    '0' <= c && c <= '9'
}

pub open spec fn digit_val(c: char) -> int {
    c as u32 - '0' as u32
}

pub open spec fn all_digits(s: Seq<char>) -> bool {
    forall|i: int| 0 <= i < s.len() ==> is_digit_char(#[trigger] s[i])
}

/// Value of a run of decimal digits, most significant first.
pub open spec fn dec_val(s: Seq<char>) -> int
    decreases s.len(),
{
    if s.len() == 0 {
        0
    } else {
        dec_val(s.drop_last()) * 10 + digit_val(s.last())
    }
}

/// What `str::parse::<i64>` accepts: an optional sign followed by at
/// least one digit, with the value in range.
pub open spec fn spec_parse_i64(s: Seq<char>) -> Option<i64> {
    let neg = s.len() > 0 && s[0] == '-';
    let digs = if s.len() > 0 && (s[0] == '-' || s[0] == '+') {
        s.subrange(1, s.len() as int)
    } else {
        s
    };
    if digs.len() == 0 || !all_digits(digs) {
        None
    } else {
        let v = if neg {
            -dec_val(digs)
        } else {
            dec_val(digs)
        };
        if i64::MIN <= v <= i64::MAX {
            Some(v as i64)
        } else {
            None
        }
    }
}

/// What `str::parse::<usize>` accepts: an optional `+` followed by at
/// least one digit, with the value in range.
pub open spec fn spec_parse_usize(s: Seq<char>) -> Option<usize> {
    let digs = if s.len() > 0 && s[0] == '+' {
        s.subrange(1, s.len() as int)
    } else {
        s
    };
    if digs.len() == 0 || !all_digits(digs) {
        None
    } else if dec_val(digs) <= usize::MAX {
        Some(dec_val(digs) as usize)
    } else {
        None
    }
}

proof fn lemma_dec_val_nonneg(s: Seq<char>)
    requires
        all_digits(s),
    ensures
        dec_val(s) >= 0,
    decreases s.len(),
{
    if s.len() > 0 {
        assert(all_digits(s.drop_last())) by {
            assert(forall|i: int|
                0 <= i < s.len() - 1 ==> is_digit_char(#[trigger] s.drop_last()[i]));
        }
        lemma_dec_val_nonneg(s.drop_last());
    }
}

/// Appending digits never decreases the value of a digit run.
proof fn lemma_dec_val_prefix_le(s: Seq<char>, k: int)
    requires
        all_digits(s),
        0 <= k <= s.len(),
    ensures
        dec_val(s.subrange(0, k)) <= dec_val(s),
    decreases s.len() - k,
{
    if k == s.len() {
        assert(s.subrange(0, k) =~= s);
    } else {
        lemma_dec_val_prefix_le(s, k + 1);
        let p = s.subrange(0, k + 1);
        assert(p.drop_last() =~= s.subrange(0, k));
        assert(all_digits(p.drop_last()));
        lemma_dec_val_nonneg(p.drop_last());
        assert(is_digit_char(p.last()));
        assert(dec_val(p) == dec_val(s.subrange(0, k)) * 10 + digit_val(p.last()));
        assert(dec_val(s.subrange(0, k)) * 10 >= dec_val(s.subrange(0, k))) by (nonlinear_arith)
            requires
                dec_val(s.subrange(0, k)) >= 0,
        ;
        lemma_dec_val_nonneg(s.subrange(0, k));
    }
}

fn digit_of(c: char) -> (r: Option<u32>)
    ensures
        r is Some <==> is_digit_char(c),
        r is Some ==> r->0 == digit_val(c) && r->0 <= 9,
{
    let u = c as u32;
    if 48 <= u && u <= 57 {
        assert('0' as u32 == 48 && '9' as u32 == 57);
        Some(u - 48)
    } else {
        assert('0' as u32 == 48 && '9' as u32 == 57);
        None
    }
}

/// Parse an unsigned digit run `s@[from..]` into a magnitude, detecting
/// overflow past `limit`.  Returns `None` when a non-digit occurs, the
/// run is empty, or the value exceeds `limit`.
fn parse_magnitude(s: &str, from: usize, limit: u64) -> (r: Option<u64>)
    requires
        from <= s@.len(),
        limit >= 9,
    ensures
        ({
            let digs = s@.subrange(from as int, s@.len() as int);
            match r {
                Some(v) => digs.len() > 0 && all_digits(digs) && v == dec_val(digs) && v <= limit,
                None => digs.len() == 0 || !all_digits(digs) || dec_val(digs) > limit,
            }
        }),
{
    let ghost digs = s@.subrange(from as int, s@.len() as int);
    let n = s.unicode_len();
    if from == n {
        return None;
    }
    let mut acc: u64 = 0;
    let mut i: usize = from;
    while i < n
        invariant
            limit >= 9,
            from <= i <= n,
            n == s@.len(),
            from < n,
            digs == s@.subrange(from as int, s@.len() as int),
            all_digits(s@.subrange(from as int, i as int)),
            acc == dec_val(s@.subrange(from as int, i as int)),
            acc <= limit,
        decreases n - i,
    {
        let c = s.get_char(i);
        match digit_of(c) {
            None => {
                assert(!all_digits(digs)) by {
                    assert(digs[i - from] == s@[i as int]);
                }
                return None;
            },
            Some(d) => {
                assert(d <= 9 && d == digit_val(s@[i as int]));
                let ghost pre = s@.subrange(from as int, i as int);
                let ghost post = s@.subrange(from as int, i + 1);
                assert(post.drop_last() =~= pre && post.last() == s@[i as int]);
                if acc > (limit - d as u64) / 10 {
                    // the value has outgrown `limit`; it can only grow further
                    proof {
                        let x = (limit - d) as int;
                        vstd::arithmetic::div_mod::lemma_fundamental_div_mod(x, 10);
                        assert(acc * 10 >= (x / 10 + 1) * 10) by (nonlinear_arith)
                            requires
                                acc >= x / 10 + 1,
                        ;
                        assert(dec_val(post) > limit);
                        assert(forall|k: int|
                            0 <= k < post.len() ==> is_digit_char(#[trigger] post[k]));
                        assert(digs.subrange(0, i + 1 - from) =~= post);
                        if all_digits(digs) {
                            lemma_dec_val_prefix_le(digs, i + 1 - from);
                        }
                    }
                    return None;
                }
                proof {
                    let x = (limit - d) as int;
                    vstd::arithmetic::div_mod::lemma_fundamental_div_mod(x, 10);
                    assert(acc * 10 <= (x / 10) * 10) by (nonlinear_arith)
                        requires
                            acc <= x / 10,
                    ;
                }
                acc = acc * 10 + d as u64;
                i += 1;
            },
        }
    }
    assert(s@.subrange(from as int, i as int) =~= digs);
    Some(acc)
}

/// Verified counterpart of `str::parse::<i64>`.
pub fn parse_i64(s: &str) -> (r: Option<i64>)
    ensures
        r == spec_parse_i64(s@),
{
    let n = s.unicode_len();
    if n == 0 {
        return None;
    }
    let c0 = s.get_char(0);
    let neg = c0 == '-';
    let from: usize = if c0 == '-' || c0 == '+' {
        1
    } else {
        0
    };
    proof {
        if from == 0 {
            assert(s@.subrange(0, s@.len() as int) =~= s@);
        }
    }
    let limit: u64 = if neg {
        9223372036854775808u64
    } else {
        9223372036854775807u64
    };
    match parse_magnitude(s, from, limit) {
        None => None,
        Some(mag) => {
            if neg {
                if mag == 9223372036854775808u64 {
                    Some(i64::MIN)
                } else {
                    Some(-(mag as i64))
                }
            } else {
                Some(mag as i64)
            }
        },
    }
}

/// Verified counterpart of `str::parse::<usize>`.
pub fn parse_usize(s: &str) -> (r: Option<usize>)
    ensures
        r == spec_parse_usize(s@),
{
    let n = s.unicode_len();
    if n == 0 {
        return None;
    }
    let c0 = s.get_char(0);
    let from: usize = if c0 == '+' {
        1
    } else {
        0
    };
    proof {
        if from == 0 {
            assert(s@.subrange(0, s@.len() as int) =~= s@);
        }
    }
    match parse_magnitude(s, from, usize::MAX as u64) {
        None => None,
        Some(mag) => Some(mag as usize),
    }
}

/// The decimal digit characters of a nonnegative integer.
pub open spec fn dec_digit(d: int) -> char {
    if d == 0 {
        '0'
    } else if d == 1 {
        '1'
    } else if d == 2 {
        '2'
    } else if d == 3 {
        '3'
    } else if d == 4 {
        '4'
    } else if d == 5 {
        '5'
    } else if d == 6 {
        '6'
    } else if d == 7 {
        '7'
    } else if d == 8 {
        '8'
    } else {
        '9'
    }
}

/// Decimal rendering of a nonnegative integer, as `u64::to_string`
/// produces it.
pub open spec fn spec_u64_str(n: int) -> Seq<char>
    decreases n,
{
    if n < 10 {
        seq![dec_digit(n)]
    } else {
        spec_u64_str(n / 10).push(dec_digit(n % 10))
    }
}

/// Decimal rendering of a signed integer, as `i64::to_string` produces
/// it.
pub open spec fn spec_i64_str(v: int) -> Seq<char> {
    if v < 0 {
        seq!['-'] + spec_u64_str(-v)
    } else {
        spec_u64_str(v)
    }
}

fn digit_str(d: u64) -> (r: &'static str)
    requires
        d <= 9,
    ensures
        r@ =~= seq![dec_digit(d as int)],
{
    proof {
        reveal_strlit("0");
        reveal_strlit("1");
        reveal_strlit("2");
        reveal_strlit("3");
        reveal_strlit("4");
        reveal_strlit("5");
        reveal_strlit("6");
        reveal_strlit("7");
        reveal_strlit("8");
        reveal_strlit("9");
    }
    if d == 0 {
        "0"
    } else if d == 1 {
        "1"
    } else if d == 2 {
        "2"
    } else if d == 3 {
        "3"
    } else if d == 4 {
        "4"
    } else if d == 5 {
        "5"
    } else if d == 6 {
        "6"
    } else if d == 7 {
        "7"
    } else if d == 8 {
        "8"
    } else {
        "9"
    }
}

/// The one-character string of a decimal digit.
pub fn dec_digit_str_u32(d: u32) -> (r: &'static str)
    requires
        d <= 9,
    ensures
        r@ =~= seq![dec_digit(d as int)],
{
    digit_str(d as u64)
}

/// Verified counterpart of `u64::to_string`.
pub fn u64_to_string(n: u64) -> (r: String)
    ensures
        r@ == spec_u64_str(n as int),
    decreases n,
{
    if n < 10 {
        let mut out = String::new();
        out.append(digit_str(n));
        assert(out@ =~= spec_u64_str(n as int));
        out
    } else {
        let mut out = u64_to_string(n / 10);
        out.append(digit_str(n % 10));
        assert(out@ =~= spec_u64_str(n as int));
        out
    }
}

/// Verified counterpart of `i64::to_string`.
pub fn i64_to_string(v: i64) -> (r: String)
    ensures
        r@ == spec_i64_str(v as int),
{
    if v >= 0 {
        u64_to_string(v as u64)
    } else {
        let mag: u64 = if v == i64::MIN {
            9223372036854775808u64
        } else {
            (-v) as u64
        };
        let mut out = String::new();
        proof {
            reveal_strlit("-");
        }
        out.append("-");
        let digits = u64_to_string(mag);
        out.append(digits.as_str());
        assert(out@ =~= spec_i64_str(v as int));
        out
    }
}

/// Verified counterpart of `usize::to_string`.
pub fn usize_to_string(n: usize) -> (r: String)
    ensures
        r@ == spec_u64_str(n as int),
{
    u64_to_string(n as u64)
}

} // verus!
