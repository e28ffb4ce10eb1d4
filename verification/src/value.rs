//! SQL literals for single field values.
//!
//! In typed mode a value that reads as a number or a boolean is written as it
//! stands, an empty value becomes `NULL`, and anything else becomes a quoted
//! string. What reads as a number is fixed by a small grammar:
//!
//! ```text
//! Float    ::= Sign? ( 'inf' | 'infinity' | 'nan' | Decimal )
//! Decimal  ::= Mantissa Exponent?
//! Mantissa ::= Digit+ | Digit+ '.' Digit* | Digit* '.' Digit+
//! Exponent ::= 'e' Sign? Digit+
//! Sign     ::= '+' | '-'
//! Digit    ::= '0' ..= '9'
//! ```
//!
//! Letters match in either case. This is the set of strings that Rust's
//! standard library parses as an `f64`.

use vstd::prelude::*;
use crate::text::{push_quoted, quoted, to_chars};

verus! {

pub open spec fn is_digit(c: char) -> bool {
    '0' <= c && c <= '9'
}

pub open spec fn is_sign(c: char) -> bool {
    c == '+' || c == '-'
}

pub open spec fn is_exponent_mark(c: char) -> bool {
    c == 'e' || c == 'E'
}

/// Every character of `s` is a decimal digit.
pub open spec fn all_digits(s: Seq<char>) -> bool {
    forall|i: int| 0 <= i < s.len() ==> is_digit(#[trigger] s[i])
}

/// `s` spells a word in any mix of case: each of its characters is the one
/// that `lower` or the one that `upper` has at that place.
pub open spec fn spells(s: Seq<char>, lower: Seq<char>, upper: Seq<char>) -> bool
    recommends
        lower.len() == upper.len(),
{
    &&& s.len() == lower.len()
    &&& forall|i: int| 0 <= i < s.len() ==> #[trigger] s[i] == lower[i] || s[i] == upper[i]
}

/// `Digit+ | Digit+ '.' Digit* | Digit* '.' Digit+`
pub open spec fn is_mantissa(s: Seq<char>) -> bool {
    ||| s.len() > 0 && all_digits(s)
    ||| exists|k: int|
        0 <= k < s.len() && s.len() > 1 && #[trigger] s[k] == '.' && all_digits(s.take(k))
            && all_digits(s.skip(k + 1))
}

/// `'e' Sign? Digit+`
pub open spec fn is_exponent(s: Seq<char>) -> bool {
    &&& s.len() > 0
    &&& is_exponent_mark(s[0])
    &&& {
        let digits = if s.len() > 1 && is_sign(s[1]) {
            s.skip(2)
        } else {
            s.skip(1)
        };
        digits.len() > 0 && all_digits(digits)
    }
}

/// `Mantissa Exponent?`
pub open spec fn is_decimal(s: Seq<char>) -> bool {
    ||| is_mantissa(s)
    ||| exists|k: int| 0 < k < s.len() && is_mantissa(#[trigger] s.take(k)) && is_exponent(s.skip(k))
}

/// `'inf' | 'infinity' | 'nan'`
pub open spec fn is_special(s: Seq<char>) -> bool {
    ||| spells(s, "inf"@, "INF"@)
    ||| spells(s, "infinity"@, "INFINITY"@)
    ||| spells(s, "nan"@, "NAN"@)
}

/// `s` without its leading sign, if it has one.
pub open spec fn unsigned_part(s: Seq<char>) -> Seq<char> {
    if s.len() > 0 && is_sign(s[0]) {
        s.skip(1)
    } else {
        s
    }
}

/// `s` reads as a floating-point number.
pub open spec fn is_float_literal(s: Seq<char>) -> bool {
    is_special(unsigned_part(s)) || is_decimal(unsigned_part(s))
}

/// `s` reads as `true` or `false`, in any mix of case.
pub open spec fn is_bool_literal(s: Seq<char>) -> bool {
    spells(s, "true"@, "TRUE"@) || spells(s, "false"@, "FALSE"@)
}

/// The SQL literal that stands for the raw field value `raw`.
pub open spec fn sql_literal(raw: Seq<char>, typed: bool) -> Seq<char> {
    if !typed {
        quoted(raw)
    } else if is_float_literal(raw) || is_bool_literal(raw) {
        raw
    } else if raw.len() == 0 {
        "NULL"@
    } else {
        quoted(raw)
    }
}

/// The characters of `s` after its leading sign, if it has one.
fn unsigned_chars(s: &str) -> (res: Vec<char>)
    ensures
        res@ == unsigned_part(s@),
{
    let v = to_chars(s);
    let mut out: Vec<char> = Vec::new();
    let start: usize = if v.len() > 0 && (v[0] == '+' || v[0] == '-') {
        1
    } else {
        0
    };
    let mut i: usize = start;
    while i < v.len()
        invariant
            start <= i <= v.len(),
            out@ == v@.subrange(start as int, i as int),
        decreases v.len() - i,
    {
        out.push(v[i]);
        i += 1;
    }
    out
}

/// The end of the run of digits that starts at `from`.
fn digits_end(v: &Vec<char>, from: usize) -> (end: usize)
    requires
        from <= v.len(),
    ensures
        from <= end <= v.len(),
        forall|i: int| from <= i < end ==> is_digit(#[trigger] v[i]),
        end < v.len() ==> !is_digit(v[end as int]),
{
    let mut end: usize = from;
    while end < v.len() && v[end] >= '0' && v[end] <= '9'
        invariant
            from <= end <= v.len(),
            forall|i: int| from <= i < end ==> is_digit(#[trigger] v[i]),
        decreases v.len() - end,
    {
        end += 1;
    }
    end
}

/// Whether `v` spells the word that `lower` and `upper` give in the two cases.
fn spells_word(v: &Vec<char>, lower: &str, upper: &str) -> (res: bool)
    requires
        lower@.len() == upper@.len(),
    ensures
        res == spells(v@, lower@, upper@),
{
    let n = lower.unicode_len();
    if v.len() != n {
        return false;
    }
    let mut i: usize = 0;
    while i < n
        invariant
            n == v.len(),
            n == lower@.len(),
            n == upper@.len(),
            i <= n,
            forall|j: int| 0 <= j < i ==> #[trigger] v[j] == lower@[j] || v[j] == upper@[j],
        decreases n - i,
    {
        let c = v[i];
        if c != lower.get_char(i) && c != upper.get_char(i) {
            return false;
        }
        i += 1;
    }
    true
}

/// What a left-to-right scan learns of a prefix that is a `Mantissa`.
///
/// The scan has found the digits before `int_end` and, where a dot follows
/// them, the digits between the dot and `pos`; without a dot `pos` is
/// `int_end`. `dotted` says which.
spec fn scanned(s: Seq<char>, int_end: int, pos: int, dotted: bool) -> bool {
    &&& 0 <= int_end <= pos <= s.len()
    &&& forall|i: int| 0 <= i < int_end ==> is_digit(#[trigger] s[i])
    &&& int_end < s.len() ==> !is_digit(s[int_end])
    &&& dotted == (int_end < s.len() && s[int_end] == '.')
    &&& if dotted {
        &&& int_end < pos
        &&& forall|i: int| int_end < i < pos ==> is_digit(#[trigger] s[i])
        &&& pos < s.len() ==> !is_digit(s[pos])
    } else {
        pos == int_end
    }
}

/// The mantissa that a scan has found holds at least one digit.
spec fn has_digit(pos: int, dotted: bool) -> bool {
    if dotted {
        pos >= 2
    } else {
        pos >= 1
    }
}

/// A prefix of `s` that is a `Mantissa` ends no later than the scan did, and
/// ends where the scan did if something other than a digit or a dot follows.
proof fn lemma_mantissa_prefix(s: Seq<char>, int_end: int, pos: int, dotted: bool, k: int)
    requires
        scanned(s, int_end, pos, dotted),
        0 <= k <= s.len(),
        is_mantissa(s.take(k)),
    ensures
        1 <= k <= pos,
        k == pos ==> has_digit(pos, dotted),
        k < s.len() && !is_digit(s[k]) && s[k] != '.' ==> k == pos,
{
    let t = s.take(k);
    if t.len() > 0 && all_digits(t) {
        if k > int_end {
            assert(is_digit(t[int_end]));
        }
    } else {
        let p = choose|p: int|
            0 <= p < t.len() && t.len() > 1 && #[trigger] t[p] == '.' && all_digits(t.take(p))
                && all_digits(t.skip(p + 1));
        if p > int_end {
            assert(is_digit(t.take(p)[int_end]));
        }
        if p < int_end {
            assert(is_digit(s[p]));
        }
        assert(p == int_end);
        assert forall|i: int| int_end < i < k implies is_digit(s[i]) by {
            assert(is_digit(t.skip(p + 1)[i - p - 1]));
        }
    }
}

/// A finished scan decides whether `s` is a `Decimal`.
proof fn lemma_decimal_by_scan(s: Seq<char>, int_end: int, pos: int, dotted: bool)
    requires
        scanned(s, int_end, pos, dotted),
    ensures
        is_decimal(s) <==> has_digit(pos, dotted) && (pos == s.len() || is_exponent(s.skip(pos))),
{
    if has_digit(pos, dotted) && (pos == s.len() || is_exponent(s.skip(pos))) {
        let t = s.take(pos);
        if dotted {
            assert(t[int_end] == '.');
            assert(all_digits(t.take(int_end)));
            assert(all_digits(t.skip(int_end + 1)));
        }
        assert(is_mantissa(t));
        if pos == s.len() {
            assert(t == s);
        }
    }
    if is_decimal(s) {
        if is_mantissa(s) {
            assert(s.take(s.len() as int) == s);
            lemma_mantissa_prefix(s, int_end, pos, dotted, s.len() as int);
        } else {
            let k = choose|k: int|
                0 < k < s.len() && is_mantissa(#[trigger] s.take(k)) && is_exponent(s.skip(k));
            assert(s.skip(k)[0] == s[k]);
            lemma_mantissa_prefix(s, int_end, pos, dotted, k);
        }
    }
}

/// Whether `v` is a `Decimal`.
fn reads_as_decimal(v: &Vec<char>) -> (res: bool)
    ensures
        res == is_decimal(v@),
{
    let n = v.len();
    let int_end = digits_end(v, 0);
    let mut pos = int_end;
    let mut dotted = false;
    if int_end < n && v[int_end] == '.' {
        pos = digits_end(v, int_end + 1);
        dotted = true;
    }
    proof {
        lemma_decimal_by_scan(v@, int_end as int, pos as int, dotted);
    }
    if (dotted && pos < 2) || (!dotted && pos < 1) {
        return false;
    }
    if pos == n {
        return true;
    }
    if v[pos] != 'e' && v[pos] != 'E' {
        return false;
    }
    let mut from = pos + 1;
    if from < n && (v[from] == '+' || v[from] == '-') {
        from += 1;
    }
    if from == n {
        proof {
            assert(v@.skip(pos as int).skip(from - pos).len() == 0);
        }
        return false;
    }
    let end = digits_end(v, from);
    proof {
        let tail = v@.skip(pos as int);
        let digits = tail.skip(from - pos);
        assert(tail[0] == v[pos as int]);
        assert(tail.len() > 1 ==> tail[1] == v[pos + 1]);
        assert(digits == v@.skip(from as int));
        if end < n {
            assert(digits[end - from] == v[end as int]);
        }
    }
    end == n
}

/// Whether `s` reads as a floating-point number.
pub fn is_number(s: &str) -> (res: bool)
    ensures
        res == is_float_literal(s@),
{
    let v = unsigned_chars(s);
    proof {
        reveal_strlit("inf");
        reveal_strlit("INF");
        reveal_strlit("infinity");
        reveal_strlit("INFINITY");
        reveal_strlit("nan");
        reveal_strlit("NAN");
    }
    if spells_word(&v, "inf", "INF") || spells_word(&v, "infinity", "INFINITY") || spells_word(
        &v,
        "nan",
        "NAN",
    ) {
        return true;
    }
    reads_as_decimal(&v)
}

/// Whether `s` reads as `true` or `false`, in any mix of case.
pub fn is_boolean(s: String) -> (res: bool)
    ensures
        res == is_bool_literal(s@),
{
    let v = to_chars(s.as_str());
    proof {
        reveal_strlit("true");
        reveal_strlit("TRUE");
        reveal_strlit("false");
        reveal_strlit("FALSE");
    }
    spells_word(&v, "true", "TRUE") || spells_word(&v, "false", "FALSE")
}

/// The SQL literal for `result` in typed mode.
pub fn get_value(result: &str) -> (value: String)
    ensures
        value@ == sql_literal(result@, true),
{
    if is_number(result) {
        String::from_str(result)
    } else if is_boolean(String::from_str(result)) {
        String::from_str(result)
    } else if result.is_empty() {
        String::from_str("NULL")
    } else {
        let mut value = String::new();
        push_quoted(&mut value, result);
        value
    }
}

} // verus!
