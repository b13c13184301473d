//! The request decoder: turns one inbound text payload into a typed
//! [`ActionRequest`], or nothing when the payload is malformed.
//!
//! The wire format is a single object in a JSON-style surface syntax:
//! `{"action":"peakleft","pressure":600}`. The object must carry an
//! `action` member whose value is a string; it may carry a `pressure`
//! member whose value is a number, whose integer part (clamped to `u64`,
//! and zero for negative numbers) is the reading used for gating. Members
//! with any other key are ignored, whatever their (string, number,
//! `true`, `false` or `null`) value. A payload that does not fit this
//! shape — or that repeats the `action` or `pressure` key — is discarded;
//! a bad frame never terminates the session. String member values use
//! backslash escapes: a backslash and the character after it stand for
//! themselves and never close the string.
//!
//! The grammar is stated by [`spec_decode`] and its helpers;
//! [`decode_request`] is the executable decoder, proved to agree with it
//! on every payload.

use vstd::prelude::*;
use vstd::string::StrSliceExecFns;
use crate::actions::{ActionRequest, RequestKind};
use crate::text::str_range_eq;

verus! {

/// The whitespace accepted between tokens.
pub open spec fn ws_char(c: char) -> bool {
    c == ' ' || c == '\t' || c == '\n' || c == '\r'
}

/// A decimal digit.
pub open spec fn digit_char(c: char) -> bool {
    48 <= c as u32 <= 57
}

/// The numeric value of a digit, and zero for any other character.
pub open spec fn digit_val(c: char) -> nat {
    if digit_char(c) {
        (c as u32 - 48) as nat
    } else {
        0
    }
}

/// The first position at or after `i` that does not hold whitespace.
pub open spec fn skip_ws(s: Seq<char>, i: int) -> int
    decreases s.len() - i,
{
    if 0 <= i < s.len() && ws_char(s[i]) {
        skip_ws(s, i + 1)
    } else {
        i
    }
}

pub proof fn lemma_skip_ws(s: Seq<char>, i: int)
    requires
        0 <= i <= s.len(),
    ensures
        i <= skip_ws(s, i) <= s.len(),
    decreases s.len() - i,
{
    if i < s.len() && ws_char(s[i]) {
        lemma_skip_ws(s, i + 1);
    }
}

/// The first position at or after `i` that does not hold a digit.
pub open spec fn skip_digits(s: Seq<char>, i: int) -> int
    decreases s.len() - i,
{
    if 0 <= i < s.len() && digit_char(s[i]) {
        skip_digits(s, i + 1)
    } else {
        i
    }
}

pub proof fn lemma_skip_digits(s: Seq<char>, i: int)
    requires
        0 <= i <= s.len(),
    ensures
        i <= skip_digits(s, i) <= s.len(),
    decreases s.len() - i,
{
    if i < s.len() && digit_char(s[i]) {
        lemma_skip_digits(s, i + 1);
    }
}

/// The position just past the closing quote of a string whose contents
/// start at `i`, or nothing when the string never closes. A backslash
/// escapes the character after it; control characters end the scan.
pub open spec fn scan_string(s: Seq<char>, i: int) -> Option<int>
    decreases s.len() - i,
{
    if !(0 <= i < s.len()) {
        None
    } else if s[i] == '"' {
        Some(i + 1)
    } else if s[i] == '\\' {
        if i + 1 < s.len() {
            scan_string(s, i + 2)
        } else {
            None
        }
    } else if s[i] as u32 >= 32 {
        scan_string(s, i + 1)
    } else {
        None
    }
}

pub proof fn lemma_scan_string(s: Seq<char>, i: int)
    requires
        0 <= i,
    ensures
        match scan_string(s, i) {
            Some(j) => i < j <= s.len(),
            None => true,
        },
    decreases s.len() - i,
{
    if 0 <= i < s.len() {
        if s[i] == '\\' && i + 1 < s.len() {
            lemma_scan_string(s, i + 2);
        } else if s[i] != '"' && s[i] as u32 >= 32 {
            lemma_scan_string(s, i + 1);
        }
    }
}

/// The value of the digit run from `i` (inclusive) to `j` (exclusive).
pub open spec fn digits_val(s: Seq<char>, i: int, j: int) -> nat
    decreases j - i,
{
    if i >= j {
        0
    } else {
        digits_val(s, i, j - 1) * 10 + digit_val(s[j - 1])
    }
}

/// A mathematical count squeezed into the reading's integer type.
pub open spec fn clamp_u64(n: nat) -> u64 {
    if n > u64::MAX {
        u64::MAX
    } else {
        n as u64
    }
}

/// The position just past the optional fraction part at `j`.
pub open spec fn scan_frac(s: Seq<char>, j: int) -> Option<int> {
    if 0 <= j < s.len() && s[j] == '.' {
        let f: int = skip_digits(s, j + 1);
        if f == j + 1 {
            None
        } else {
            Some(f)
        }
    } else {
        Some(j)
    }
}

/// The position just past the optional exponent part at `k`.
pub open spec fn scan_exp(s: Seq<char>, k: int) -> Option<int> {
    if 0 <= k < s.len() && (s[k] == 'e' || s[k] == 'E') {
        let m0: int = if k + 1 < s.len() && (s[k + 1] == '+' || s[k + 1] == '-') {
            k + 2
        } else {
            k + 1
        };
        let m: int = skip_digits(s, m0);
        if m == m0 {
            None
        } else {
            Some(m)
        }
    } else {
        Some(k)
    }
}

/// The position just past a number starting at `i`: an optional minus
/// sign, digits, an optional fraction, an optional exponent.
pub open spec fn scan_number(s: Seq<char>, i: int) -> Option<int> {
    let d0: int = if 0 <= i < s.len() && s[i] == '-' {
        i + 1
    } else {
        i
    };
    let j: int = skip_digits(s, d0);
    if j == d0 {
        None
    } else {
        match scan_frac(s, j) {
            None => None,
            Some(k) => scan_exp(s, k),
        }
    }
}

pub proof fn lemma_scan_number(s: Seq<char>, i: int)
    requires
        0 <= i <= s.len(),
    ensures
        match scan_number(s, i) {
            Some(m) => i < m <= s.len(),
            None => true,
        },
{
    let d0: int = if i < s.len() && s[i] == '-' {
        i + 1
    } else {
        i
    };
    lemma_skip_digits(s, d0);
    let j: int = skip_digits(s, d0);
    if j != d0 {
        if 0 <= j < s.len() && s[j] == '.' {
            lemma_skip_digits(s, j + 1);
        }
        match scan_frac(s, j) {
            None => {},
            Some(k) => {
                if 0 <= k < s.len() && (s[k] == 'e' || s[k] == 'E') {
                    let m0: int = if k + 1 < s.len() && (s[k + 1] == '+' || s[k + 1] == '-') {
                        k + 2
                    } else {
                        k + 1
                    };
                    lemma_skip_digits(s, m0);
                }
            },
        }
    }
}

/// The reading a number starting at `i` stands for: the value of its
/// integer digits clamped to `u64`, and zero when the number is negative.
pub open spec fn number_value(s: Seq<char>, i: int) -> u64 {
    if 0 <= i < s.len() && s[i] == '-' {
        0
    } else {
        clamp_u64(digits_val(s, i, skip_digits(s, i)))
    }
}

/// Whether the characters of `lit` appear in `s` starting at `i`.
pub open spec fn match_lit(s: Seq<char>, i: int, lit: Seq<char>) -> bool {
    0 <= i && i + lit.len() <= s.len() && s.subrange(i, i + lit.len()) == lit
}

/// The position just past a member value starting at `i`: a string, a
/// number, `true`, `false` or `null`.
pub open spec fn scan_value(s: Seq<char>, i: int) -> Option<int> {
    if 0 <= i < s.len() && s[i] == '"' {
        scan_string(s, i + 1)
    } else if 0 <= i < s.len() && (s[i] == '-' || digit_char(s[i])) {
        scan_number(s, i)
    } else if match_lit(s, i, "true"@) {
        Some(i + 4)
    } else if match_lit(s, i, "false"@) {
        Some(i + 5)
    } else if match_lit(s, i, "null"@) {
        Some(i + 4)
    } else {
        None
    }
}

pub proof fn lemma_scan_value(s: Seq<char>, i: int)
    requires
        0 <= i <= s.len(),
    ensures
        match scan_value(s, i) {
            Some(e) => i < e <= s.len(),
            None => true,
        },
{
    reveal_strlit("true");
    reveal_strlit("false");
    reveal_strlit("null");
    if 0 <= i < s.len() && s[i] == '"' {
        lemma_scan_string(s, i + 1);
    } else if 0 <= i < s.len() && (s[i] == '-' || digit_char(s[i])) {
        lemma_scan_number(s, i);
    }
}

/// The tag a recognized action name decodes to; anything else is a no-op.
pub open spec fn kind_of(tag: Seq<char>) -> RequestKind {
    if tag == "peakleft"@ {
        RequestKind::PeakLeft
    } else if tag == "peakright"@ {
        RequestKind::PeakRight
    } else if tag == "peakshoot"@ {
        RequestKind::PeakShoot
    } else if tag == "stop"@ {
        RequestKind::Stop
    } else if tag == "stopmovement"@ {
        RequestKind::StopMovement
    } else if tag == "stopshooting"@ {
        RequestKind::StopShooting
    } else {
        RequestKind::Other
    }
}

/// What one member contributes: the position just past its value and the
/// accumulated `action` tag and `pressure` reading. A repeated `action`
/// or `pressure` key, or a value of the wrong shape for either, makes the
/// payload malformed.
pub open spec fn pair_value(
    s: Seq<char>,
    v: int,
    key: Seq<char>,
    k: Option<RequestKind>,
    p: Option<u64>,
) -> Option<(int, Option<RequestKind>, Option<u64>)> {
    if key == "action"@ {
        if k is Some {
            None
        } else if 0 <= v < s.len() && s[v] == '"' {
            match scan_string(s, v + 1) {
                None => None,
                Some(ve) => Some((ve, Some(kind_of(s.subrange(v + 1, ve - 1))), p)),
            }
        } else {
            None
        }
    } else if key == "pressure"@ {
        if p is Some {
            None
        } else if 0 <= v < s.len() && (s[v] == '-' || digit_char(s[v])) {
            match scan_number(s, v) {
                None => None,
                Some(ve) => Some((ve, k, Some(number_value(s, v)))),
            }
        } else {
            None
        }
    } else {
        match scan_value(s, v) {
            None => None,
            Some(ve) => Some((ve, k, p)),
        }
    }
}

pub proof fn lemma_pair_value(
    s: Seq<char>,
    v: int,
    key: Seq<char>,
    k: Option<RequestKind>,
    p: Option<u64>,
)
    requires
        0 <= v <= s.len(),
    ensures
        match pair_value(s, v, key, k, p) {
            Some(t) => v < t.0 <= s.len(),
            None => true,
        },
{
    if key == "action"@ {
        lemma_scan_string(s, v + 1);
    } else if key == "pressure"@ {
        lemma_scan_number(s, v);
    } else {
        lemma_scan_value(s, v);
    }
}

/// The request the accumulated members denote once the object closes:
/// there must have been an `action` member, and an absent `pressure`
/// member reads as zero.
pub open spec fn finish(k: Option<RequestKind>, p: Option<u64>) -> Option<ActionRequest> {
    match k {
        Some(kind) => Some(
            ActionRequest {
                kind,
                pressure: match p {
                    Some(x) => x,
                    None => 0,
                },
            },
        ),
        None => None,
    }
}

/// The members of an object from position `i` (which must hold the first
/// key's opening quote) to its closing brace, and the request they
/// denote; nothing may follow the object but whitespace.
pub open spec fn parse_pairs(
    s: Seq<char>,
    i: int,
    k: Option<RequestKind>,
    p: Option<u64>,
) -> Option<ActionRequest>
    decreases s.len() - i,
{
    if !(0 <= i < s.len() && s[i] == '"') {
        None
    } else {
        match scan_string(s, i + 1) {
            None => None,
            Some(ke) => {
                let key = s.subrange(i + 1, ke - 1);
                let c: int = skip_ws(s, ke);
                if !(c < s.len() && s[c] == ':') {
                    None
                } else {
                    let v: int = skip_ws(s, c + 1);
                    match pair_value(s, v, key, k, p) {
                        None => None,
                        Some((ve, k2, p2)) => {
                            let t: int = skip_ws(s, ve);
                            if t < s.len() && s[t] == ',' {
                                proof {
                                    lemma_scan_string(s, i + 1);
                                    lemma_skip_ws(s, ke);
                                    lemma_skip_ws(s, c + 1);
                                    lemma_pair_value(s, v, key, k, p);
                                    lemma_skip_ws(s, ve);
                                    lemma_skip_ws(s, t + 1);
                                }
                                parse_pairs(s, skip_ws(s, t + 1), k2, p2)
                            } else if t < s.len() && s[t] == '}' {
                                if skip_ws(s, t + 1) == s.len() {
                                    finish(k2, p2)
                                } else {
                                    None
                                }
                            } else {
                                None
                            }
                        },
                    }
                }
            },
        }
    }
}

/// What a whole payload decodes to: a single object, surrounded by
/// nothing but whitespace, carrying an `action` member; an empty object
/// carries none, so it is discarded like any other malformed payload.
pub open spec fn spec_decode(s: Seq<char>) -> Option<ActionRequest> {
    let i: int = skip_ws(s, 0);
    if i < s.len() && s[i] == '{' {
        let j: int = skip_ws(s, i + 1);
        if j < s.len() && s[j] == '}' {
            None
        } else {
            parse_pairs(s, j, None, None)
        }
    } else {
        None
    }
}

fn ws_char_exec(c: char) -> (r: bool)
    ensures
        r == ws_char(c),
{
    c == ' ' || c == '\t' || c == '\n' || c == '\r'
}

fn digit_char_exec(c: char) -> (r: bool)
    ensures
        r == digit_char(c),
{
    let u = c as u32;
    48 <= u && u <= 57
}

fn skip_ws_exec(s: &str, i: usize, n: usize) -> (r: usize)
    requires
        n == s@.len(),
        i <= n,
    ensures
        r == skip_ws(s@, i as int),
        i <= r <= n,
{
    let mut m: usize = i;
    loop
        invariant
            n == s@.len(),
            i <= m <= n,
            skip_ws(s@, i as int) == skip_ws(s@, m as int),
        ensures
            m <= n,
            skip_ws(s@, i as int) == m as int,
        decreases n - m,
    {
        if m >= n {
            break;
        }
        let c = s.get_char(m);
        if !ws_char_exec(c) {
            break;
        }
        m = m + 1;
    }
    m
}

fn skip_digits_exec(s: &str, i: usize, n: usize) -> (r: usize)
    requires
        n == s@.len(),
        i <= n,
    ensures
        r == skip_digits(s@, i as int),
        i <= r <= n,
{
    let mut m: usize = i;
    loop
        invariant
            n == s@.len(),
            i <= m <= n,
            skip_digits(s@, i as int) == skip_digits(s@, m as int),
        ensures
            m <= n,
            skip_digits(s@, i as int) == m as int,
        decreases n - m,
    {
        if m >= n {
            break;
        }
        let c = s.get_char(m);
        if !digit_char_exec(c) {
            break;
        }
        m = m + 1;
    }
    m
}

fn scan_string_exec(s: &str, i: usize, n: usize) -> (r: Option<usize>)
    requires
        n == s@.len(),
        i <= n,
    ensures
        match r {
            Some(j) => scan_string(s@, i as int) == Some(j as int) && i < j <= n,
            None => scan_string(s@, i as int) is None,
        },
{
    let mut m: usize = i;
    while m < n
        invariant
            n == s@.len(),
            i <= m <= n,
            scan_string(s@, i as int) == scan_string(s@, m as int),
        decreases n - m,
    {
        let c = s.get_char(m);
        if c == '"' {
            return Some(m + 1);
        }
        if c == '\\' {
            if m + 1 < n {
                m = m + 2;
            } else {
                return None;
            }
        } else if c as u32 >= 32 {
            m = m + 1;
        } else {
            return None;
        }
    }
    None
}

fn digits_value_exec(s: &str, i: usize, j: usize, n: usize) -> (r: u64)
    requires
        n == s@.len(),
        i <= j <= n,
    ensures
        r == clamp_u64(digits_val(s@, i as int, j as int)),
{
    let mut acc: u64 = 0;
    let mut sat = false;
    let mut m: usize = i;
    while m < j
        invariant
            n == s@.len(),
            i <= m <= j <= n,
            sat ==> digits_val(s@, i as int, m as int) > u64::MAX,
            !sat ==> acc == digits_val(s@, i as int, m as int),
        decreases j - m,
    {
        let c = s.get_char(m);
        let u = c as u32;
        let d: u64 = if 48 <= u && u <= 57 {
            (u - 48) as u64
        } else {
            0
        };
        proof {
            assert(d == digit_val(s@[m as int]));
            assert(digits_val(s@, i as int, m + 1) == digits_val(s@, i as int, m as int) * 10
                + digit_val(s@[m as int]));
        }
        if !sat {
            match acc.checked_mul(10) {
                Some(x) => {
                    match x.checked_add(d) {
                        Some(y) => {
                            acc = y;
                        },
                        None => {
                            sat = true;
                        },
                    }
                },
                None => {
                    sat = true;
                },
            }
        }
        m = m + 1;
    }
    if sat {
        u64::MAX
    } else {
        acc
    }
}

fn match_lit_exec(s: &str, i: usize, n: usize, lit: &str) -> (r: bool)
    requires
        n == s@.len(),
        i <= n,
    ensures
        r == match_lit(s@, i as int, lit@),
{
    let l = lit.unicode_len();
    if l > n - i {
        return false;
    }
    str_range_eq(s, i, i + l, lit)
}

fn parse_number_exec(s: &str, i: usize, n: usize) -> (r: Option<(usize, u64)>)
    requires
        n == s@.len(),
        i <= n,
    ensures
        match r {
            Some(t) => scan_number(s@, i as int) == Some(t.0 as int) && i < t.0 <= n && t.1
                == number_value(s@, i as int),
            None => scan_number(s@, i as int) is None,
        },
{
    proof {
        lemma_scan_number(s@, i as int);
    }
    let (neg, d0): (bool, usize) = if i < n {
        if s.get_char(i) == '-' {
            (true, i + 1)
        } else {
            (false, i)
        }
    } else {
        (false, i)
    };
    let j = skip_digits_exec(s, d0, n);
    if j == d0 {
        return None;
    }
    let k_opt: Option<usize> = if j < n {
        if s.get_char(j) == '.' {
            let f = skip_digits_exec(s, j + 1, n);
            if f == j + 1 {
                None
            } else {
                Some(f)
            }
        } else {
            Some(j)
        }
    } else {
        Some(j)
    };
    let k = match k_opt {
        None => {
            return None;
        },
        Some(k) => k,
    };
    let m_opt: Option<usize> = if k < n {
        let ck = s.get_char(k);
        if ck == 'e' || ck == 'E' {
            let m0: usize = if k + 1 < n {
                let cs = s.get_char(k + 1);
                if cs == '+' || cs == '-' {
                    k + 2
                } else {
                    k + 1
                }
            } else {
                k + 1
            };
            let m = skip_digits_exec(s, m0, n);
            if m == m0 {
                None
            } else {
                Some(m)
            }
        } else {
            Some(k)
        }
    } else {
        Some(k)
    };
    let m = match m_opt {
        None => {
            return None;
        },
        Some(m) => m,
    };
    let val: u64 = if neg {
        0
    } else {
        digits_value_exec(s, d0, j, n)
    };
    Some((m, val))
}

fn scan_value_exec(s: &str, i: usize, n: usize) -> (r: Option<usize>)
    requires
        n == s@.len(),
        i <= n,
    ensures
        match r {
            Some(e) => scan_value(s@, i as int) == Some(e as int) && i < e <= n,
            None => scan_value(s@, i as int) is None,
        },
{
    proof {
        reveal_strlit("true");
        reveal_strlit("false");
        reveal_strlit("null");
        lemma_scan_value(s@, i as int);
    }
    if i < n {
        let c = s.get_char(i);
        if c == '"' {
            return scan_string_exec(s, i + 1, n);
        }
        if c == '-' || digit_char_exec(c) {
            return match parse_number_exec(s, i, n) {
                Some((e, _)) => Some(e),
                None => None,
            };
        }
    }
    if match_lit_exec(s, i, n, "true") {
        return Some(i + 4);
    }
    if match_lit_exec(s, i, n, "false") {
        return Some(i + 5);
    }
    if match_lit_exec(s, i, n, "null") {
        return Some(i + 4);
    }
    None
}

fn kind_from_range(s: &str, from: usize, to: usize) -> (r: RequestKind)
    requires
        from <= to <= s@.len(),
    ensures
        r == kind_of(s@.subrange(from as int, to as int)),
{
    if str_range_eq(s, from, to, "peakleft") {
        RequestKind::PeakLeft
    } else if str_range_eq(s, from, to, "peakright") {
        RequestKind::PeakRight
    } else if str_range_eq(s, from, to, "peakshoot") {
        RequestKind::PeakShoot
    } else if str_range_eq(s, from, to, "stop") {
        RequestKind::Stop
    } else if str_range_eq(s, from, to, "stopmovement") {
        RequestKind::StopMovement
    } else if str_range_eq(s, from, to, "stopshooting") {
        RequestKind::StopShooting
    } else {
        RequestKind::Other
    }
}

fn pair_value_exec(
    s: &str,
    kf: usize,
    kt: usize,
    v: usize,
    n: usize,
    k: Option<RequestKind>,
    p: Option<u64>,
) -> (r: Option<(usize, Option<RequestKind>, Option<u64>)>)
    requires
        n == s@.len(),
        kf <= kt <= n,
        v <= n,
    ensures
        ({
            let key = s@.subrange(kf as int, kt as int);
            match r {
                Some(t) => pair_value(s@, v as int, key, k, p) == Some((t.0 as int, t.1, t.2)) && v
                    < t.0 <= n,
                None => pair_value(s@, v as int, key, k, p) is None,
            }
        }),
{
    proof {
        lemma_pair_value(s@, v as int, s@.subrange(kf as int, kt as int), k, p);
    }
    if str_range_eq(s, kf, kt, "action") {
        if k.is_some() {
            return None;
        }
        if v >= n {
            return None;
        }
        if s.get_char(v) != '"' {
            return None;
        }
        match scan_string_exec(s, v + 1, n) {
            None => None,
            Some(ve) => {
                let kind = kind_from_range(s, v + 1, ve - 1);
                Some((ve, Some(kind), p))
            },
        }
    } else if str_range_eq(s, kf, kt, "pressure") {
        if p.is_some() {
            return None;
        }
        if v >= n {
            return None;
        }
        let c = s.get_char(v);
        if !(c == '-' || digit_char_exec(c)) {
            return None;
        }
        match parse_number_exec(s, v, n) {
            None => None,
            Some((ve, val)) => Some((ve, k, Some(val))),
        }
    } else {
        match scan_value_exec(s, v, n) {
            None => None,
            Some(ve) => Some((ve, k, p)),
        }
    }
}

fn finish_exec(k: Option<RequestKind>, p: Option<u64>) -> (r: Option<ActionRequest>)
    ensures
        r == finish(k, p),
{
    match k {
        Some(kind) => Some(
            ActionRequest {
                kind,
                pressure: match p {
                    Some(x) => x,
                    None => 0,
                },
            },
        ),
        None => None,
    }
}

fn parse_pairs_exec(
    s: &str,
    i: usize,
    n: usize,
    k: Option<RequestKind>,
    p: Option<u64>,
) -> (r: Option<ActionRequest>)
    requires
        n == s@.len(),
        i <= n,
    ensures
        r == parse_pairs(s@, i as int, k, p),
    decreases n - i,
{
    if i >= n {
        return None;
    }
    if s.get_char(i) != '"' {
        return None;
    }
    let ke = match scan_string_exec(s, i + 1, n) {
        None => {
            return None;
        },
        Some(ke) => ke,
    };
    let c = skip_ws_exec(s, ke, n);
    if c >= n {
        return None;
    }
    if s.get_char(c) != ':' {
        return None;
    }
    let v = skip_ws_exec(s, c + 1, n);
    let (ve, k2, p2) = match pair_value_exec(s, i + 1, ke - 1, v, n, k, p) {
        None => {
            return None;
        },
        Some(t) => t,
    };
    let t = skip_ws_exec(s, ve, n);
    if t >= n {
        return None;
    }
    let ct = s.get_char(t);
    if ct == ',' {
        let next = skip_ws_exec(s, t + 1, n);
        parse_pairs_exec(s, next, n, k2, p2)
    } else if ct == '}' {
        let e = skip_ws_exec(s, t + 1, n);
        if e == n {
            finish_exec(k2, p2)
        } else {
            None
        }
    } else {
        None
    }
}

/// Decodes one inbound text payload, per [`spec_decode`]; `None` means
/// the payload is malformed and the message is silently discarded.
pub fn decode_request(payload: &str) -> (r: Option<ActionRequest>)
    ensures
        r == spec_decode(payload@),
{
    let n = payload.unicode_len();
    let i = skip_ws_exec(payload, 0, n);
    if i >= n {
        return None;
    }
    if payload.get_char(i) != '{' {
        return None;
    }
    let j = skip_ws_exec(payload, i + 1, n);
    if j < n {
        if payload.get_char(j) == '}' {
            return None;
        }
    }
    parse_pairs_exec(payload, j, n, None, None)
}

} // verus!
