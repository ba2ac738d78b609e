//! Decimal rendering and parsing of integers, used for status messages,
//! request bodies, and validation of operator input.

use vstd::prelude::*;
use vstd::string::StringExecFns;

verus! {

/// The character for a single decimal digit value.
pub open spec fn dec_digit_char(d: int) -> char {
    ((48 + d) as u8) as char
}

/// The decimal digit sequence of a non-negative integer, most significant
/// digit first, with no leading zeros (except for zero itself).
pub open spec fn nat_dec_seq(n: int) -> Seq<char>
    decreases n,
{
    if n < 10 {
        seq![dec_digit_char(n)]
    } else {
        nat_dec_seq(n / 10) + seq![dec_digit_char(n % 10)]
    }
}

/// The decimal rendering of a signed integer: a leading '-' for negative
/// values, then the digits of its magnitude.
pub open spec fn int_dec_seq(n: int) -> Seq<char> {
    if n < 0 {
        seq!['-'] + nat_dec_seq(-n)
    } else {
        nat_dec_seq(n)
    }
}

/// A one-character string for a single decimal digit value.
fn dec_digit_string(d: u64) -> (s: String)
    requires
        d < 10,
    ensures
        s@ == seq![dec_digit_char(d as int)],
{
    let s = if d == 0 {
        "0"
    } else if d == 1 {
        "1"
    } else if d == 2 {
        "2"
    } else if d == 3 {
        "3"
    } else if d == 4 {
        "4"
    } else if d == 5 {
        "5"
    } else if d == 6 {
        "6"
    } else if d == 7 {
        "7"
    } else if d == 8 {
        "8"
    } else {
        "9"
    };
    proof {
        reveal_strlit("0");
        reveal_strlit("1");
        reveal_strlit("2");
        reveal_strlit("3");
        reveal_strlit("4");
        reveal_strlit("5");
        reveal_strlit("6");
        reveal_strlit("7");
        reveal_strlit("8");
        reveal_strlit("9");
        assert(s@ =~= seq![dec_digit_char(d as int)]);
    }
    String::from_str(s)
}

/// Renders a non-negative integer in decimal.
pub fn u64_to_dec_string(n: u64) -> (s: String)
    ensures
        s@ == nat_dec_seq(n as int),
    decreases n,
{
    if n < 10 {
        dec_digit_string(n)
    } else {
        let mut s = u64_to_dec_string(n / 10);
        let tail = dec_digit_string(n % 10);
        s.append(tail.as_str());
        s
    }
}

/// Renders a signed 32-bit integer in decimal, with a leading '-' when
/// negative.
pub fn i32_to_dec_string(n: i32) -> (s: String)
    ensures
        s@ == int_dec_seq(n as int),
{
    if n < 0 {
        let magnitude: u64 = (-(n as i64)) as u64;
        let mut s = String::from_str("-");
        let digits = u64_to_dec_string(magnitude);
        s.append(digits.as_str());
        proof {
            reveal_strlit("-");
            assert(s@ =~= int_dec_seq(n as int));
        }
        s
    } else {
        u64_to_dec_string(n as u64)
    }
}

/// Whitespace as `str::trim` strips it: the characters with the Unicode
/// `White_Space` property.
pub open spec fn is_trim_space(c: char) -> bool {
    let u = c as int;
    (9 <= u && u <= 13) || u == 32 || u == 0x85 || u == 0xa0 || u == 0x1680 || (0x2000 <= u && u
        <= 0x200a) || u == 0x2028 || u == 0x2029 || u == 0x202f || u == 0x205f || u == 0x3000
}

/// The input with leading and trailing whitespace removed.
pub open spec fn trim_spec(s: Seq<char>) -> Seq<char>
    decreases s.len(),
{
    if s.len() == 0 {
        s
    } else if is_trim_space(s[0]) {
        trim_spec(s.skip(1))
    } else if is_trim_space(s.last()) {
        trim_spec(s.drop_last())
    } else {
        s
    }
}

pub open spec fn is_dec_digit(c: char) -> bool {
    '0' <= c && c <= '9'
}

pub open spec fn digit_val(c: char) -> int {
    c as int - 48
}

pub open spec fn all_digits(s: Seq<char>) -> bool {
    forall|i: int| 0 <= i < s.len() ==> is_dec_digit(s[i])
}

/// The value of a non-empty sequence of decimal digits, most significant
/// first.
pub open spec fn digits_val(s: Seq<char>) -> int
    decreases s.len(),
{
    if s.len() == 0 {
        0
    } else {
        digits_val(s.drop_last()) * 10 + digit_val(s.last())
    }
}

/// The value of a digit run, or `None` if it is empty or holds a non-digit.
pub open spec fn digits_opt(body: Seq<char>) -> Option<int> {
    if body.len() > 0 && all_digits(body) {
        Some(digits_val(body))
    } else {
        None
    }
}

/// What a string parses to as a signed base-10 integer: optional
/// whitespace around an optional sign followed by at least one digit.
pub open spec fn parse_int_spec(s: Seq<char>) -> Option<int> {
    let t = trim_spec(s);
    if t.len() > 0 && t[0] == '-' {
        match digits_opt(t.skip(1)) {
            Some(v) => Some(-v),
            None => None,
        }
    } else if t.len() > 0 && t[0] == '+' {
        digits_opt(t.skip(1))
    } else {
        digits_opt(t)
    }
}

/// What a string parses to as an `i32`: its integer value when it has one
/// and that value fits, `None` otherwise.
pub open spec fn parse_i32_spec(s: Seq<char>) -> Option<i32> {
    match parse_int_spec(s) {
        Some(v) => if i32::MIN <= v && v <= i32::MAX {
            Some(v as i32)
        } else {
            None
        },
        None => None,
    }
}

proof fn lemma_digits_val_nonneg(s: Seq<char>)
    requires
        all_digits(s),
    ensures
        digits_val(s) >= 0,
    decreases s.len(),
{
    if s.len() > 0 {
        assert(all_digits(s.drop_last()));
        lemma_digits_val_nonneg(s.drop_last());
        assert(digit_val(s.last()) >= 0);
    }
}

/// The value of a digit run never drops as the run extends to the right.
proof fn lemma_digits_prefix_le(s: Seq<char>, k: int)
    requires
        all_digits(s),
        0 <= k <= s.len(),
    ensures
        digits_val(s.take(k)) <= digits_val(s),
    decreases s.len() - k,
{
    if k == s.len() {
        assert(s.take(k) =~= s);
    } else {
        assert(s.take(k + 1).drop_last() =~= s.take(k));
        assert(s.take(k + 1).last() == s[k]);
        assert(all_digits(s.take(k)));
        lemma_digits_val_nonneg(s.take(k));
        assert(digits_val(s.take(k + 1)) == digits_val(s.take(k)) * 10 + digit_val(s[k]));
        lemma_digits_prefix_le(s, k + 1);
    }
}

/// Characterises `trim_spec` by the bounds of the untrimmed middle.
proof fn lemma_trim_bounds(s: Seq<char>, lo: int, hi: int)
    requires
        0 <= lo <= hi <= s.len(),
        forall|i: int| 0 <= i < lo ==> is_trim_space(s[i]),
        forall|i: int| hi <= i < s.len() ==> is_trim_space(s[i]),
        lo < hi ==> !is_trim_space(s[lo]) && !is_trim_space(s[hi - 1]),
    ensures
        trim_spec(s) == s.subrange(lo, hi),
    decreases s.len(),
{
    if s.len() == 0 {
        assert(trim_spec(s) =~= s.subrange(lo, hi));
    } else if is_trim_space(s[0]) {
        if lo == 0 {
            assert(hi == 0);
            lemma_trim_bounds(s.skip(1), 0, 0);
            assert(trim_spec(s) =~= s.subrange(lo, hi));
        } else {
            lemma_trim_bounds(s.skip(1), lo - 1, hi - 1);
            assert(s.skip(1).subrange(lo - 1, hi - 1) =~= s.subrange(lo, hi));
        }
    } else if is_trim_space(s.last()) {
        assert(lo == 0);
        assert(hi < s.len());
        lemma_trim_bounds(s.drop_last(), lo, hi);
        assert(s.drop_last().subrange(lo, hi) =~= s.subrange(lo, hi));
    } else {
        assert(lo == 0);
        assert(hi == s.len());
        assert(trim_spec(s) =~= s.subrange(lo, hi));
    }
}

/// Parses a string as a signed base-10 `i32` after trimming
/// whitespace; returns `None` for empty, malformed, or out-of-range input.
#[verifier::loop_isolation(false)]
pub fn parse_i32(s: &str) -> (r: Option<i32>)
    ensures
        r == parse_i32_spec(s@),
{
    let n = s.unicode_len();
    let mut lo: usize = 0;
    while lo < n && is_space_exec(s.get_char(lo))
        invariant
            0 <= lo <= n,
            n == s@.len(),
            forall|i: int| 0 <= i < lo ==> is_trim_space(s@[i]),
        decreases n - lo,
    {
        lo = lo + 1;
    }
    let mut hi: usize = n;
    while hi > lo && is_space_exec(s.get_char(hi - 1))
        invariant
            lo <= hi <= n,
            n == s@.len(),
            forall|i: int| 0 <= i < lo ==> is_trim_space(s@[i]),
            forall|i: int| hi <= i < n ==> is_trim_space(s@[i]),
        decreases hi,
    {
        hi = hi - 1;
    }
    proof {
        lemma_trim_bounds(s@, lo as int, hi as int);
    }
    let ghost t = trim_spec(s@);
    if lo == hi {
        assert(t.len() == 0);
        return None;
    }
    let first = s.get_char(lo);
    let negative = first == '-';
    let start: usize = if first == '-' || first == '+' {
        lo + 1
    } else {
        lo
    };
    let ghost body = t.skip(if start == lo { 0int } else { 1int });
    proof {
        assert(body =~= s@.subrange(start as int, hi as int));
    }
    proof {
        if negative {
            assert(t.skip(1) =~= body);
            assert(parse_int_spec(s@) == (match digits_opt(body) {
                Some(v) => Some(-v),
                None => None::<int>,
            }));
        } else if start != lo {
            assert(t.skip(1) =~= body);
            assert(parse_int_spec(s@) == digits_opt(body));
        } else {
            assert(body =~= t);
            assert(parse_int_spec(s@) == digits_opt(body));
        }
    }
    if start == hi {
        assert(body.len() == 0);
        return None;
    }
    let mut acc: u64 = 0;
    let mut i: usize = start;
    while i < hi
        invariant
            start <= i <= hi <= n,
            n == s@.len(),
            start < hi,
            body =~= s@.subrange(start as int, hi as int),
            forall|j: int| start <= j < i ==> is_dec_digit(s@[j]),
            acc == digits_val(body.take(i - start)),
            acc <= 0x8000_0000,
        decreases hi - i,
    {
        let c = s.get_char(i);
        if c < '0' || c > '9' {
            assert(body[i - start] == s@[i as int]);
            assert(!all_digits(body));
            return None;
        }
        let d: u64 = char_digit_value(c);
        proof {
            assert(body.take(i - start + 1).drop_last() =~= body.take(i - start));
            assert(body.take(i - start + 1).last() == s@[i as int]);
        }
        acc = acc * 10 + d;
        i = i + 1;
        if acc > 0x8000_0000 {
            proof {
                if all_digits(body) {
                    assert(acc == digits_val(body.take(i - start)));
                    lemma_digits_prefix_le(body, i - start);
                    assert(digits_val(body) >= acc);
                }
            }
            return None;
        }
    }
    assert(body.take(hi - start) =~= body);
    assert(acc == digits_val(body));
    assert(all_digits(body));
    if negative {
        let v: i64 = -(acc as i64);
        Some(v as i32)
    } else {
        if acc > 0x7fff_ffff {
            return None;
        }
        Some(acc as i32)
    }
}

fn is_space_exec(c: char) -> (r: bool)
    ensures
        r == is_trim_space(c),
{
    let u = c as u32;
    (9 <= u && u <= 13) || u == 32 || u == 0x85 || u == 0xa0 || u == 0x1680 || (0x2000 <= u && u
        <= 0x200a) || u == 0x2028 || u == 0x2029 || u == 0x202f || u == 0x205f || u == 0x3000
}

fn char_digit_value(c: char) -> (d: u64)
    requires
        is_dec_digit(c),
    ensures
        d as int == digit_val(c),
        d < 10,
{
    (c as u64) - 48
}

} // verus!
