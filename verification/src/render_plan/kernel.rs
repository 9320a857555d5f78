//! Reading a convolution kernel from the JavaScript-like source a Kernel node
//! carries, such as `return { width: 3, height: 3, value: [0, 1, 0, ...] };`.
//!
//! Comments are removed first (`//` to the end of the line and `/* ... */`,
//! without regard to string literals); every remaining byte is kept as the
//! character with that code. `width` and `height` are read as unsigned
//! integers, and the values from the `values` array or, when that cannot be
//! read, from the `value` array. Each value is a run of the characters
//! `0-9 . + - e E` that must be a decimal floating-point literal; the values
//! are returned as that text, for the caller to convert.

use vstd::prelude::*;
use vstd::string::StringSliceAdditionalSpecFns;
use vstd::utf8::encode_utf8;

use crate::pass_debug::source_mapping::{is_ascii_ws, is_ident_byte};
use crate::text::{decimal, owned, push_char, spec_decimal};

verus! {

// ---------------------------------------------------------------------------
// Comments
// ---------------------------------------------------------------------------

/// The first index at or after `i` that holds a line feed, or the end.
pub open spec fn line_end_from(b: Seq<u8>, i: int) -> int
    decreases b.len() - i,
{
    if i >= b.len() || b[i] == 10u8 {
        i
    } else {
        line_end_from(b, i + 1)
    }
}

/// The bytes of `b` from `i` on that lie outside comments; `in_block` tells
/// whether `i` lies inside a block comment.
pub open spec fn uncommented_from(b: Seq<u8>, i: int, in_block: bool) -> Seq<u8>
    decreases b.len() - i,
{
    if i < 0 || i >= b.len() {
        seq![]
    } else if in_block {
        if i + 1 < b.len() && b[i] == 42u8 && b[i + 1] == 47u8 {
            uncommented_from(b, i + 2, false)
        } else {
            uncommented_from(b, i + 1, true)
        }
    } else if i + 1 < b.len() && b[i] == 47u8 && b[i + 1] == 42u8 {
        uncommented_from(b, i + 2, true)
    } else if i + 1 < b.len() && b[i] == 47u8 && b[i + 1] == 47u8 {
        if i < line_end_from(b, i + 2) <= b.len() {
            uncommented_from(b, line_end_from(b, i + 2), false)
        } else {
            seq![]
        }
    } else {
        seq![b[i]] + uncommented_from(b, i + 1, false)
    }
}

/// The source with its comments removed, each kept byte read as the
/// character with that code.
pub open spec fn spec_strip_js_comments(src: Seq<u8>) -> Seq<char> {
    uncommented_from(src, 0, false).map_values(|c: u8| c as char)
}

proof fn lemma_line_end_bounds(b: Seq<u8>, i: int)
    requires
        0 <= i,
    ensures
        i <= line_end_from(b, i),
        i <= b.len() ==> line_end_from(b, i) <= b.len(),
    decreases b.len() - i,
{
    if i < b.len() && b[i] != 10u8 {
        lemma_line_end_bounds(b, i + 1);
    }
}

pub fn strip_js_comments(src: &str) -> (r: String)
    ensures
        r@ == spec_strip_js_comments(src.spec_bytes()),
{
    let bytes = src.as_bytes();
    let ghost b = bytes@;
    let mut out = String::new();
    let mut i: usize = 0;
    let mut in_block = false;
    while i < bytes.len()
        invariant
            b == bytes@,
            i <= b.len(),
            out@ + uncommented_from(b, i as int, in_block).map_values(|c: u8| c as char)
                == spec_strip_js_comments(b),
        decreases b.len() - i,
    {
        if in_block {
            if i + 1 < bytes.len() && bytes[i] == 42u8 && bytes[i + 1] == 47u8 {
                in_block = false;
                i = i + 2;
            } else {
                i = i + 1;
            }
        } else if i + 1 < bytes.len() && bytes[i] == 47u8 && bytes[i + 1] == 42u8 {
            in_block = true;
            i = i + 2;
        } else if i + 1 < bytes.len() && bytes[i] == 47u8 && bytes[i + 1] == 47u8 {
            let mut j = i + 2;
            proof {
                lemma_line_end_bounds(b, i + 2);
            }
            while j < bytes.len() && bytes[j] != 10u8
                invariant
                    b == bytes@,
                    i + 2 <= j <= b.len(),
                    line_end_from(b, i + 2) == line_end_from(b, j as int),
                decreases b.len() - j,
            {
                j = j + 1;
            }
            i = j;
        } else {
            let ghost before = out@;
            push_char(&mut out, bytes[i] as char);
            assert(seq![b[i as int]].map_values(|c: u8| c as char) =~= seq![b[i as int] as char]);
            assert(out@ + uncommented_from(b, i + 1, false).map_values(|c: u8| c as char) =~= before
                + (seq![b[i as int]] + uncommented_from(b, i + 1, false)).map_values(|c: u8| c as char));
            i = i + 1;
        }
    }
    assert(out@ =~= out@ + uncommented_from(b, i as int, in_block).map_values(|c: u8| c as char));
    out
}


// ---------------------------------------------------------------------------
// Fields
// ---------------------------------------------------------------------------

/// The first index at or after `i` that does not hold ASCII white space.
pub open spec fn skip_ws_from(b: Seq<u8>, i: int) -> int
    decreases b.len() - i,
{
    if i < b.len() && is_ascii_ws(b[i]) {
        skip_ws_from(b, i + 1)
    } else {
        i
    }
}

/// `key` stands at `i` as a whole word followed by optional white space and
/// a colon.
pub open spec fn field_at(b: Seq<u8>, key: Seq<u8>, i: int) -> bool {
    let after = i + key.len();
    let colon = skip_ws_from(b, after);
    &&& 0 <= i
    &&& after <= b.len()
    &&& b.subrange(i, after) == key
    &&& !(i > 0 && is_ident_byte(b[i - 1]))
    &&& colon < b.len()
    &&& b[colon] == 58u8
    &&& !(after < b.len() && is_ident_byte(b[after]))
}

/// The position right after the colon (and the white space after it) of the
/// first field `key` at or after `i`.
pub open spec fn field_scan(b: Seq<u8>, key: Seq<u8>, i: int) -> Option<int>
    decreases b.len() + 1 - i,
{
    if i < 0 || i + key.len() > b.len() {
        None
    } else if field_at(b, key, i) {
        Some(skip_ws_from(b, skip_ws_from(b, i + key.len()) + 1))
    } else {
        field_scan(b, key, i + 1)
    }
}

/// Where the value of field `key` starts in `b`.
pub open spec fn spec_find_field(b: Seq<u8>, key: Seq<u8>) -> Option<int> {
    field_scan(b, key, 0)
}

proof fn lemma_skip_ws_bounds(b: Seq<u8>, i: int)
    requires
        0 <= i,
    ensures
        i <= skip_ws_from(b, i),
        i <= b.len() ==> skip_ws_from(b, i) <= b.len(),
    decreases b.len() - i,
{
    if i < b.len() && is_ascii_ws(b[i]) {
        lemma_skip_ws_bounds(b, i + 1);
    }
}

fn skip_ws(b: &[u8], i: usize) -> (r: usize)
    requires
        i <= b@.len(),
    ensures
        r == skip_ws_from(b@, i as int),
        i <= r <= b@.len(),
{
    proof {
        lemma_skip_ws_bounds(b@, i as int);
    }
    let mut j = i;
    while j < b.len() && (b[j] == 32u8 || b[j] == 9u8 || b[j] == 10u8 || b[j] == 12u8 || b[j] == 13u8)
        invariant
            i <= j <= b@.len(),
            skip_ws_from(b@, i as int) == skip_ws_from(b@, j as int),
        decreases b@.len() - j,
    {
        j = j + 1;
    }
    j
}

fn ident_byte(c: u8) -> (r: bool)
    ensures
        r == is_ident_byte(c),
{
    c == 95u8 || (48u8 <= c && c <= 57u8) || (65u8 <= c && c <= 90u8) || (97u8 <= c && c <= 122u8)
}

fn key_matches_at(b: &[u8], key: &[u8], i: usize) -> (r: bool)
    requires
        i + key@.len() <= b@.len(),
    ensures
        r == (b@.subrange(i as int, i + key@.len()) == key@),
{
    let n = b.len();
    let mut k: usize = 0;
    while k < key.len()
        invariant
            n == b@.len(),
            i + key@.len() <= b@.len(),
            k <= key@.len(),
            forall|q: int| 0 <= q < k ==> b@[i + q] == key@[q],
        decreases key@.len() - k,
    {
        assert(i + k < b@.len());
        if b[i + k] != key[k] {
            assert(b@.subrange(i as int, i + key@.len())[k as int] != key@[k as int]);
            return false;
        }
        k = k + 1;
    }
    assert(b@.subrange(i as int, i + key@.len()) =~= key@);
    true
}

/// The start of the value of field `key`.
pub fn find_field(b: &[u8], key: &[u8]) -> (r: Option<usize>)
    ensures
        match r {
            Some(p) => spec_find_field(b@, key@) == Some(p as int) && p <= b@.len(),
            None => spec_find_field(b@, key@) is None,
        },
{
    if key.len() > b.len() {
        assert(field_scan(b@, key@, 0) is None);
        return None;
    }
    let n = b.len();
    let last = b.len() - key.len();
    let mut i: usize = 0;
    loop
        invariant
            n == b@.len(),
            last + key@.len() == b@.len(),
            i <= last,
            spec_find_field(b@, key@) == field_scan(b@, key@, i as int),
        decreases last - i,
    {
        let after = i + key.len();
        if key_matches_at(b, key, i) && !(i > 0 && ident_byte(b[i - 1])) {
            let colon = skip_ws(b, after);
            if colon < b.len() && b[colon] == 58u8 && !(after < b.len() && ident_byte(b[after])) {
                let p = skip_ws(b, colon + 1);
                return Some(p);
            }
        }
        if i == last {
            assert(field_scan(b@, key@, i + 1) is None);
            return None;
        }
        i = i + 1;
    }
}

// ---------------------------------------------------------------------------
// Numbers
// ---------------------------------------------------------------------------

pub open spec fn is_digit(c: u8) -> bool {
    48u8 <= c <= 57u8
}

/// The end of the run of ASCII digits starting at `i`.
pub open spec fn digits_end(b: Seq<u8>, i: int) -> int
    decreases b.len() - i,
{
    if 0 <= i < b.len() && is_digit(b[i]) {
        digits_end(b, i + 1)
    } else {
        i
    }
}

/// The value of the decimal digits `d`.
pub open spec fn digits_value(d: Seq<u8>) -> nat
    decreases d.len(),
{
    if d.len() == 0 {
        0
    } else {
        digits_value(d.drop_last()) * 10 + (d.last() - 48) as nat
    }
}

/// Why a kernel could not be read from its source.
#[derive(Clone, Debug, PartialEq, Eq)]
pub enum KernelError {
    /// No field named `key` with a colon.
    MissingField(String),
    /// The field `key` does not start with a digit.
    MissingNumber(String),
    /// The number does not fit in 32 bits.
    NumberTooLarge,
    /// No `[` after the field `key`.
    MissingOpenBracket(String),
    /// No `]` after the `[` of field `key`.
    MissingCloseBracket(String),
    /// A value is not a decimal floating-point literal.
    InvalidFloat,
    /// Width times height is zero.
    InvalidSize { width: u32, height: u32 },
    /// The number of values is not width times height.
    LengthMismatch { expected: usize, width: u32, height: u32, got: usize },
}

/// The abstract value of a [`KernelError`].
pub enum KernelErrorSpec {
    MissingField(Seq<char>),
    MissingNumber(Seq<char>),
    NumberTooLarge,
    MissingOpenBracket(Seq<char>),
    MissingCloseBracket(Seq<char>),
    InvalidFloat,
    InvalidSize(u32, u32),
    LengthMismatch(usize, u32, u32, usize),
}

pub open spec fn kernel_error_view(e: KernelError) -> KernelErrorSpec {
    match e {
        KernelError::MissingField(k) => KernelErrorSpec::MissingField(k@),
        KernelError::MissingNumber(k) => KernelErrorSpec::MissingNumber(k@),
        KernelError::NumberTooLarge => KernelErrorSpec::NumberTooLarge,
        KernelError::MissingOpenBracket(k) => KernelErrorSpec::MissingOpenBracket(k@),
        KernelError::MissingCloseBracket(k) => KernelErrorSpec::MissingCloseBracket(k@),
        KernelError::InvalidFloat => KernelErrorSpec::InvalidFloat,
        KernelError::InvalidSize { width, height } => KernelErrorSpec::InvalidSize(width, height),
        KernelError::LengthMismatch { expected, width, height, got } => KernelErrorSpec::LengthMismatch(
            expected,
            width,
            height,
            got,
        ),
    }
}

/// The integer value of field `key`: the digits right after its colon.
pub open spec fn spec_parse_u32_field(b: Seq<u8>, key: Seq<char>) -> Result<u32, KernelErrorSpec> {
    match spec_find_field(b, encode_utf8(key)) {
        None => Err(KernelErrorSpec::MissingField(key)),
        Some(p) => {
            let d = b.subrange(p, digits_end(b, p));
            if d.len() == 0 {
                Err(KernelErrorSpec::MissingNumber(key))
            } else if digits_value(d) > u32::MAX {
                Err(KernelErrorSpec::NumberTooLarge)
            } else {
                Ok(digits_value(d) as u32)
            }
        },
    }
}

proof fn lemma_digits_value_grows(d: Seq<u8>, k: int)
    requires
        0 <= k <= d.len(),
        forall|q: int| 0 <= q < d.len() ==> #[trigger] is_digit(d[q]),
    ensures
        digits_value(d.take(k)) <= digits_value(d),
    decreases d.len() - k,
{
    if k < d.len() {
        lemma_digits_value_grows(d.drop_last(), k);
        assert(d.drop_last().take(k) =~= d.take(k));
    } else {
        assert(d.take(k) =~= d);
    }
}

proof fn lemma_digits_end_bounds(b: Seq<u8>, i: int)
    requires
        0 <= i <= b.len(),
    ensures
        i <= digits_end(b, i) <= b.len(),
        forall|q: int| i <= q < digits_end(b, i) ==> #[trigger] is_digit(b[q]),
    decreases b.len() - i,
{
    if i < b.len() && is_digit(b[i]) {
        lemma_digits_end_bounds(b, i + 1);
    }
}

pub fn parse_u32_field(b: &[u8], key: &str) -> (r: Result<u32, KernelError>)
    ensures
        match r {
            Ok(v) => spec_parse_u32_field(b@, key@) == Ok::<u32, KernelErrorSpec>(v),
            Err(e) => spec_parse_u32_field(b@, key@) == Err::<u32, KernelErrorSpec>(kernel_error_view(e)),
        },
{
    let p = match find_field(b, key.as_bytes()) {
        Some(p) => p,
        None => return Err(KernelError::MissingField(owned(key))),
    };
    let mut j = p;
    let mut acc: u64 = 0;
    let mut too_large = false;
    proof {
        lemma_digits_end_bounds(b@, p as int);
    }
    while j < b.len() && 48u8 <= b[j] && b[j] <= 57u8
        invariant
            p <= j <= b@.len(),
            digits_end(b@, p as int) == digits_end(b@, j as int),
            forall|q: int| p <= q < j ==> #[trigger] is_digit(b@[q]),
            too_large ==> digits_value(b@.subrange(p as int, j as int)) > u32::MAX,
            !too_large ==> acc == digits_value(b@.subrange(p as int, j as int)),
            !too_large ==> acc <= u32::MAX,
        decreases b@.len() - j,
    {
        let ghost prev = b@.subrange(p as int, j as int);
        let ghost next = b@.subrange(p as int, j + 1);
        assert(next.drop_last() =~= prev);
        assert(next.last() == b@[j as int]);
        if !too_large {
            acc = acc * 10 + (b[j] - 48u8) as u64;
            if acc > 0xffff_ffffu64 {
                too_large = true;
            }
        } else {
            proof {
                assert forall|q: int| 0 <= q < next.len() implies #[trigger] is_digit(next[q]) by {
                    assert(next[q] == b@[p + q]);
                }
                lemma_digits_value_grows(next, prev.len() as int);
                assert(next.take(prev.len() as int) =~= prev);
            }
        }
        j = j + 1;
    }
    if j == p {
        return Err(KernelError::MissingNumber(owned(key)));
    }
    if too_large {
        return Err(KernelError::NumberTooLarge);
    }
    Ok(acc as u32)
}


// ---------------------------------------------------------------------------
// Value arrays
// ---------------------------------------------------------------------------

/// The first index at or after `i` that holds `c`.
pub open spec fn byte_from(b: Seq<u8>, c: u8, i: int) -> Option<int>
    decreases b.len() - i,
{
    if i < 0 || i >= b.len() {
        None
    } else if b[i] == c {
        Some(i)
    } else {
        byte_from(b, c, i + 1)
    }
}

/// The characters a value is made of: digits, `.`, `+`, `-`, `e`, `E`.
pub open spec fn is_value_byte(c: u8) -> bool {
    is_digit(c) || c == 46u8 || c == 45u8 || c == 43u8 || c == 101u8 || c == 69u8
}

/// The maximal runs of value characters of `s` from `i` on, after the runs
/// `acc` and the unfinished run `cur`.
pub open spec fn token_scan(s: Seq<u8>, i: int, cur: Seq<u8>, acc: Seq<Seq<u8>>) -> Seq<Seq<u8>>
    decreases s.len() - i,
{
    if i < 0 || i >= s.len() {
        if cur.len() > 0 {
            acc.push(cur)
        } else {
            acc
        }
    } else if is_value_byte(s[i]) {
        token_scan(s, i + 1, cur.push(s[i]), acc)
    } else if cur.len() > 0 {
        token_scan(s, i + 1, seq![], acc.push(cur))
    } else {
        token_scan(s, i + 1, seq![], acc)
    }
}

/// The maximal runs of value characters of `s`, in order.
pub open spec fn spec_value_tokens(s: Seq<u8>) -> Seq<Seq<u8>> {
    token_scan(s, 0, seq![], seq![])
}

pub open spec fn all_digits(s: Seq<u8>) -> bool {
    forall|i: int| 0 <= i < s.len() ==> #[trigger] is_digit(s[i])
}

pub open spec fn is_sign(c: u8) -> bool {
    c == 43u8 || c == 45u8
}

pub open spec fn is_exp_mark(c: u8) -> bool {
    c == 101u8 || c == 69u8
}

/// The first index at or after `i` that holds `e` or `E`, or the end.
pub open spec fn exp_from(s: Seq<u8>, i: int) -> int
    decreases s.len() - i,
{
    if i < 0 || i >= s.len() || is_exp_mark(s[i]) {
        i
    } else {
        exp_from(s, i + 1)
    }
}

/// Digits with at most one `.` and at least one digit.
pub open spec fn mantissa_ok(m: Seq<u8>) -> bool {
    match byte_from(m, 46u8, 0) {
        None => m.len() > 0 && all_digits(m),
        Some(k) => all_digits(m.take(k)) && all_digits(m.skip(k + 1)) && m.len() >= 2,
    }
}

/// Nothing, or `e`/`E` followed by an optional sign and at least one digit.
pub open spec fn exponent_ok(x: Seq<u8>) -> bool {
    x.len() == 0 || {
        let r = x.skip(1);
        let digits = if r.len() > 0 && is_sign(r[0]) {
            r.skip(1)
        } else {
            r
        };
        is_exp_mark(x[0]) && digits.len() > 0 && all_digits(digits)
    }
}

/// `t` is a decimal floating-point literal as `f32::from_str` documents its
/// grammar: an optional sign, a number with at least one digit and at most one
/// `.`, and an optional exponent.
pub open spec fn float_literal_ok(t: Seq<u8>) -> bool {
    let u = if t.len() > 0 && is_sign(t[0]) {
        t.skip(1)
    } else {
        t
    };
    let e = exp_from(u, 0);
    mantissa_ok(u.take(e)) && exponent_ok(u.skip(e))
}

pub open spec fn ascii_chars(t: Seq<u8>) -> Seq<char> {
    t.map_values(|c: u8| c as char)
}

pub open spec fn ascii_texts(ts: Seq<Seq<u8>>) -> Seq<Seq<char>> {
    ts.map_values(|t: Seq<u8>| ascii_chars(t))
}

pub open spec fn string_views(v: Seq<String>) -> Seq<Seq<char>> {
    v.map_values(|s: String| s@)
}

/// The values of field `key`: the value runs between the first `[` after its
/// colon and the first `]` after that.
pub open spec fn spec_parse_value_array(b: Seq<u8>, key: Seq<char>) -> Result<Seq<Seq<u8>>, KernelErrorSpec> {
    match spec_find_field(b, encode_utf8(key)) {
        None => Err(KernelErrorSpec::MissingField(key)),
        Some(p) => match byte_from(b, 91u8, p) {
            None => Err(KernelErrorSpec::MissingOpenBracket(key)),
            Some(lb) => match byte_from(b, 93u8, lb + 1) {
                None => Err(KernelErrorSpec::MissingCloseBracket(key)),
                Some(rb) => {
                    let tokens = spec_value_tokens(b.subrange(lb + 1, rb));
                    if forall|i: int| 0 <= i < tokens.len() ==> #[trigger] float_literal_ok(tokens[i]) {
                        Ok(tokens)
                    } else {
                        Err(KernelErrorSpec::InvalidFloat)
                    }
                },
            },
        },
    }
}

fn find_byte_from(b: &[u8], c: u8, i: usize) -> (r: Option<usize>)
    requires
        i <= b@.len(),
    ensures
        match r {
            Some(k) => byte_from(b@, c, i as int) == Some(k as int) && i <= k < b@.len(),
            None => byte_from(b@, c, i as int) is None,
        },
{
    let mut k = i;
    while k < b.len()
        invariant
            i <= k <= b@.len(),
            byte_from(b@, c, i as int) == byte_from(b@, c, k as int),
        decreases b@.len() - k,
    {
        if b[k] == c {
            return Some(k);
        }
        k = k + 1;
    }
    None
}

fn digits_only(s: &Vec<u8>, from: usize, to: usize) -> (r: bool)
    requires
        from <= to <= s@.len(),
    ensures
        r == all_digits(s@.subrange(from as int, to as int)),
{
    let mut k = from;
    while k < to
        invariant
            from <= k <= to <= s@.len(),
            all_digits(s@.subrange(from as int, k as int)),
        decreases to - k,
    {
        if !(48u8 <= s[k] && s[k] <= 57u8) {
            assert(!is_digit(s@.subrange(from as int, to as int)[k - from]));
            return false;
        }
        assert forall|q: int| 0 <= q < k + 1 - from implies #[trigger] is_digit(
            s@.subrange(from as int, k + 1)[q],
        ) by {
            if q < k - from {
                assert(s@.subrange(from as int, k + 1)[q] == s@.subrange(from as int, k as int)[q]);
            }
        }
        k = k + 1;
    }
    true
}

/// Whether `t` is a decimal floating-point literal.
pub fn is_float_literal(t: &Vec<u8>) -> (r: bool)
    ensures
        r == float_literal_ok(t@),
{
    let n = t.len();
    let start: usize = if n > 0 && (t[0] == 43u8 || t[0] == 45u8) {
        1
    } else {
        0
    };
    let ghost u = if t@.len() > 0 && is_sign(t@[0]) {
        t@.skip(1)
    } else {
        t@
    };
    assert(u =~= t@.skip(start as int));
    // The exponent mark.
    let mut e = start;
    while e < n && !(t[e] == 101u8 || t[e] == 69u8)
        invariant
            n == t@.len(),
            start <= e <= n,
            u == t@.skip(start as int),
            exp_from(u, 0) == exp_from(u, e - start),
        decreases n - e,
    {
        e = e + 1;
    }
    let ghost m = u.take(e - start);
    assert(m =~= t@.subrange(start as int, e as int));
    // The mantissa.
    let mut dot = start;
    while dot < e && t[dot] != 46u8
        invariant
            start <= dot <= e <= n,
            n == t@.len(),
            m == t@.subrange(start as int, e as int),
            byte_from(m, 46u8, 0) == byte_from(m, 46u8, dot - start),
        decreases e - dot,
    {
        dot = dot + 1;
    }
    let mantissa = if dot == e {
        e > start && digits_only(t, start, e)
    } else {
        assert(m.take(dot - start) =~= t@.subrange(start as int, dot as int));
        assert(m.skip(dot - start + 1) =~= t@.subrange(dot + 1, e as int));
        digits_only(t, start, dot) && digits_only(t, dot + 1, e) && e - start >= 2
    };
    // The exponent.
    let ghost x = u.skip(e - start);
    assert(x =~= t@.subrange(e as int, n as int));
    let exponent = if e == n {
        true
    } else {
        let mut d = e + 1;
        if d < n && (t[d] == 43u8 || t[d] == 45u8) {
            d = d + 1;
        }
        assert(x.skip(1) =~= t@.subrange(e + 1, n as int));
        assert(x.skip(1).len() > 0 && is_sign(x.skip(1)[0]) ==> x.skip(1).skip(1) =~= t@.subrange(
            e + 2,
            n as int,
        ));
        d < n && digits_only(t, d, n)
    };
    mantissa && exponent
}


fn is_value_byte_exec(c: u8) -> (r: bool)
    ensures
        r == is_value_byte(c),
{
    (48u8 <= c && c <= 57u8) || c == 46u8 || c == 45u8 || c == 43u8 || c == 101u8 || c == 69u8
}

/// The value runs of `b[from..to]`.
fn value_tokens(b: &[u8], from: usize, to: usize) -> (r: Vec<Vec<u8>>)
    requires
        from <= to <= b@.len(),
    ensures
        r@.map_values(|t: Vec<u8>| t@) == spec_value_tokens(b@.subrange(from as int, to as int)),
{
    let ghost s = b@.subrange(from as int, to as int);
    let mut acc: Vec<Vec<u8>> = Vec::new();
    let mut cur: Vec<u8> = Vec::new();
    let mut i = from;
    assert(acc@.map_values(|t: Vec<u8>| t@) =~= seq![]);
    assert(cur@ =~= seq![]);
    while i < to
        invariant
            from <= i <= to <= b@.len(),
            s == b@.subrange(from as int, to as int),
            spec_value_tokens(s) == token_scan(s, i - from, cur@, acc@.map_values(|t: Vec<u8>| t@)),
        decreases to - i,
    {
        let c = b[i];
        assert(s[i - from] == c);
        if is_value_byte_exec(c) {
            cur.push(c);
        } else if cur.len() > 0 {
            let ghost before = acc@.map_values(|t: Vec<u8>| t@);
            let done = cur;
            let ghost dv = done@;
            acc.push(done);
            assert(acc@.map_values(|t: Vec<u8>| t@) =~= before.push(dv));
            cur = Vec::new();
            assert(cur@ =~= seq![]);
        } else {
            assert(cur@ =~= seq![]);
        }
        i = i + 1;
    }
    if cur.len() > 0 {
        let ghost before = acc@.map_values(|t: Vec<u8>| t@);
        let ghost cv = cur@;
        acc.push(cur);
        assert(acc@.map_values(|t: Vec<u8>| t@) =~= before.push(cv));
    }
    acc
}

/// The text of the ASCII bytes `t`.
fn ascii_string(t: &Vec<u8>) -> (r: String)
    ensures
        r@ == ascii_chars(t@),
{
    let mut r = String::new();
    let mut i: usize = 0;
    while i < t.len()
        invariant
            i <= t@.len(),
            r@ == ascii_chars(t@.take(i as int)),
        decreases t@.len() - i,
    {
        push_char(&mut r, t[i] as char);
        assert(ascii_chars(t@.take(i + 1)) =~= ascii_chars(t@.take(i as int)).push(t@[i as int] as char));
        i = i + 1;
    }
    assert(t@.take(i as int) =~= t@);
    r
}

pub fn parse_value_array(b: &[u8], key: &str) -> (r: Result<Vec<String>, KernelError>)
    ensures
        match r {
            Ok(v) => match spec_parse_value_array(b@, key@) {
                Ok(ts) => string_views(v@) == ascii_texts(ts),
                Err(_) => false,
            },
            Err(e) => spec_parse_value_array(b@, key@) == Err::<Seq<Seq<u8>>, KernelErrorSpec>(
                kernel_error_view(e),
            ),
        },
{
    let p = match find_field(b, key.as_bytes()) {
        Some(p) => p,
        None => return Err(KernelError::MissingField(owned(key))),
    };
    let lb = match find_byte_from(b, 91u8, p) {
        Some(lb) => lb,
        None => return Err(KernelError::MissingOpenBracket(owned(key))),
    };
    let n = b.len();
    assert(lb < n);
    let rb = match find_byte_from(b, 93u8, lb + 1) {
        Some(rb) => rb,
        None => return Err(KernelError::MissingCloseBracket(owned(key))),
    };
    let tokens = value_tokens(b, lb + 1, rb);
    let ghost ts = tokens@.map_values(|t: Vec<u8>| t@);
    let mut out: Vec<String> = Vec::new();
    let mut i: usize = 0;
    while i < tokens.len()
        invariant
            i <= tokens@.len(),
            ts == tokens@.map_values(|t: Vec<u8>| t@),
            ts == spec_value_tokens(b@.subrange(lb + 1, rb as int)),
            spec_find_field(b@, encode_utf8(key@)) == Some(p as int),
            byte_from(b@, 91u8, p as int) == Some(lb as int),
            byte_from(b@, 93u8, lb + 1) == Some(rb as int),
            forall|j: int| 0 <= j < i ==> #[trigger] float_literal_ok(ts[j]),
            string_views(out@) == ascii_texts(ts.take(i as int)),
        decreases tokens@.len() - i,
    {
        if !is_float_literal(&tokens[i]) {
            assert(!float_literal_ok(ts[i as int]));
            return Err(KernelError::InvalidFloat);
        }
        let text = ascii_string(&tokens[i]);
        let ghost before = out@;
        out.push(text);
        assert(string_views(out@) =~= string_views(before).push(text@));
        assert(ascii_texts(ts.take(i + 1)) =~= ascii_texts(ts.take(i as int)).push(ascii_chars(ts[i as int])));
        i = i + 1;
    }
    assert(ts.take(i as int) =~= ts);
    Ok(out)
}

// ---------------------------------------------------------------------------
// The kernel
// ---------------------------------------------------------------------------

/// A kernel as read from its source; each value is the text of a decimal
/// floating-point literal.
#[derive(Clone, Debug, PartialEq, Eq)]
pub struct KernelSource {
    pub width: u32,
    pub height: u32,
    pub values: Vec<String>,
}

/// `w * h`, or `usize::MAX` when the product does not fit.
pub open spec fn saturating_area(w: u32, h: u32) -> usize {
    if w * h > usize::MAX {
        usize::MAX
    } else {
        (w * h) as usize
    }
}

/// The kernel of a source: width, height and value texts, or why they cannot
/// be read.
pub open spec fn spec_parse_kernel_source(src: Seq<u8>) -> Result<(u32, u32, Seq<Seq<char>>), KernelErrorSpec> {
    let b = encode_utf8(spec_strip_js_comments(src));
    match spec_parse_u32_field(b, "width"@) {
        Err(e) => Err(e),
        Ok(w) => match spec_parse_u32_field(b, "height"@) {
            Err(e) => Err(e),
            Ok(h) => {
                let values = match spec_parse_value_array(b, "values"@) {
                    Ok(v) => Ok(v),
                    Err(_) => spec_parse_value_array(b, "value"@),
                };
                match values {
                    Err(e) => Err(e),
                    Ok(v) => {
                        let expected = saturating_area(w, h);
                        if expected == 0 {
                            Err(KernelErrorSpec::InvalidSize(w, h))
                        } else if v.len() != expected {
                            Err(KernelErrorSpec::LengthMismatch(expected, w, h, v.len() as usize))
                        } else {
                            Ok((w, h, ascii_texts(v)))
                        }
                    },
                }
            },
        },
    }
}

/// The uncommented source is at least as long as the field name `width`
/// (a shorter one makes the field search index past its end).
pub open spec fn kernel_source_long_enough(src: Seq<u8>) -> bool {
    encode_utf8(spec_strip_js_comments(src)).len() >= 5
}

/// Reads a kernel from the source of a Kernel node.
pub fn parse_kernel_source_js_like(source: &str) -> (r: Result<KernelSource, KernelError>)
    requires
        kernel_source_long_enough(source.spec_bytes()),
    ensures
        match r {
            Ok(k) => spec_parse_kernel_source(source.spec_bytes()) == Ok::<
                (u32, u32, Seq<Seq<char>>),
                KernelErrorSpec,
            >((k.width, k.height, string_views(k.values@))),
            Err(e) => spec_parse_kernel_source(source.spec_bytes()) == Err::<
                (u32, u32, Seq<Seq<char>>),
                KernelErrorSpec,
            >(kernel_error_view(e)),
        },
{
    let text = strip_js_comments(source);
    let b = text.as_str().as_bytes();
    let w = match parse_u32_field(b, "width") {
        Ok(w) => w,
        Err(e) => return Err(e),
    };
    let h = match parse_u32_field(b, "height") {
        Ok(h) => h,
        Err(e) => return Err(e),
    };
    let values = match parse_value_array(b, "values") {
        Ok(v) => v,
        Err(_) => match parse_value_array(b, "value") {
            Ok(v) => v,
            Err(e) => return Err(e),
        },
    };
    assert((w as u64) * (h as u64) <= 0xffff_ffff_ffff_ffffu64) by (nonlinear_arith)
        requires
            w <= 0xffff_ffffu32,
            h <= 0xffff_ffffu32,
    ;
    let ghost vs = match spec_parse_value_array(b@, "values"@) {
        Ok(v) => v,
        Err(_) => match spec_parse_value_array(b@, "value"@) {
            Ok(v) => v,
            Err(_) => seq![],
        },
    };
    assert(string_views(values@) == ascii_texts(vs));
    assert(string_views(values@).len() == values@.len());
    assert(ascii_texts(vs).len() == vs.len());
    let area: u64 = (w as u64) * (h as u64);
    let expected: usize = if area > usize::MAX as u64 {
        usize::MAX
    } else {
        area as usize
    };
    if expected == 0 {
        return Err(KernelError::InvalidSize { width: w, height: h });
    }
    if values.len() != expected {
        return Err(KernelError::LengthMismatch { expected, width: w, height: h, got: values.len() });
    }
    Ok(KernelSource { width: w, height: h, values })
}

impl KernelError {
    /// The error's message.
    pub fn message(&self) -> (r: String)
        ensures
            r@ == spec_kernel_error_message(kernel_error_view(*self)),
    {
        let mut r = String::new();
        match self {
            KernelError::MissingField(k) => {
                r.append("Kernel.source missing ");
                r.append(k.as_str());
            },
            KernelError::MissingNumber(k) => {
                r.append("Kernel.source field ");
                r.append(k.as_str());
                r.append(" missing numeric value");
            },
            KernelError::NumberTooLarge => {
                r.append("number too large to fit in target type");
            },
            KernelError::MissingOpenBracket(k) => {
                r.append("Kernel.source missing '[' for ");
                r.append(k.as_str());
            },
            KernelError::MissingCloseBracket(k) => {
                r.append("Kernel.source missing ']' for ");
                r.append(k.as_str());
            },
            KernelError::InvalidFloat => {
                r.append("invalid float literal");
            },
            KernelError::InvalidSize { width, height } => {
                r.append("Kernel.source invalid size: ");
                let a = decimal(*width as usize);
                r.append(a.as_str());
                r.append("x");
                let b = decimal(*height as usize);
                r.append(b.as_str());
            },
            KernelError::LengthMismatch { expected, width, height, got } => {
                r.append("Kernel.source values length mismatch: expected ");
                let e = decimal(*expected);
                r.append(e.as_str());
                r.append(" for ");
                let a = decimal(*width as usize);
                r.append(a.as_str());
                r.append("x");
                let b = decimal(*height as usize);
                r.append(b.as_str());
                r.append(", got ");
                let g = decimal(*got);
                r.append(g.as_str());
            },
        }
        r
    }
}

pub open spec fn spec_kernel_error_message(e: KernelErrorSpec) -> Seq<char> {
    match e {
        KernelErrorSpec::MissingField(k) => "Kernel.source missing "@ + k,
        KernelErrorSpec::MissingNumber(k) => "Kernel.source field "@ + k + " missing numeric value"@,
        KernelErrorSpec::NumberTooLarge => "number too large to fit in target type"@,
        KernelErrorSpec::MissingOpenBracket(k) => "Kernel.source missing '[' for "@ + k,
        KernelErrorSpec::MissingCloseBracket(k) => "Kernel.source missing ']' for "@ + k,
        KernelErrorSpec::InvalidFloat => "invalid float literal"@,
        KernelErrorSpec::InvalidSize(w, h) => "Kernel.source invalid size: "@ + spec_decimal(w as nat) + "x"@
            + spec_decimal(h as nat),
        KernelErrorSpec::LengthMismatch(e, w, h, g) => "Kernel.source values length mismatch: expected "@
            + spec_decimal(e as nat) + " for "@ + spec_decimal(w as nat) + "x"@ + spec_decimal(h as nat)
            + ", got "@ + spec_decimal(g as nat),
    }
}


/// A kernel read from its source has a positive width and height and
/// exactly width times height values (the product saturating at
/// `usize::MAX`), each the text of a decimal floating-point literal.
pub proof fn lemma_kernel_shape(src: Seq<u8>)
    ensures
        spec_parse_kernel_source(src) matches Ok((w, h, values)) ==> {
            &&& w >= 1
            &&& h >= 1
            &&& values.len() == saturating_area(w, h)
            &&& exists|tokens: Seq<Seq<u8>>|
                values == ascii_texts(tokens) && forall|i: int|
                    0 <= i < tokens.len() ==> #[trigger] float_literal_ok(tokens[i])
        },
{
    if let Ok((w, h, values)) = spec_parse_kernel_source(src) {
        let b = encode_utf8(spec_strip_js_comments(src));
        let tokens = match spec_parse_value_array(b, "values"@) {
            Ok(v) => v,
            Err(_) => match spec_parse_value_array(b, "value"@) {
                Ok(v) => v,
                Err(_) => seq![],
            },
        };
        assert(values == ascii_texts(tokens));
        assert(w * h != 0);
        if w == 0 {
            assert(w * h == 0);
        }
        if h == 0 {
            assert(w * h == 0);
        }
    }
}

} // verus!
