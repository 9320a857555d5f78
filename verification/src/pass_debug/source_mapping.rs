//! Byte-level lookups in WGSL source text: identifier occurrences, function
//! bodies, bracket matching and line/column positions.
//!
//! All positions are byte offsets into the UTF-8 encoding of the source; the
//! specifications speak of `source.spec_bytes()`.

use vstd::prelude::*;
use vstd::string::StringSliceAdditionalSpecFns;
use vstd::utf8::is_char_boundary;

use super::model::PassDebugSourceRange;

verus! {

// ---------------------------------------------------------------------------
// Byte classes and boundaries
// ---------------------------------------------------------------------------

/// `_`, an ASCII digit or an ASCII letter.
pub open spec fn is_ident_byte(c: u8) -> bool {
    c == 95u8 || (48u8 <= c <= 57u8) || (65u8 <= c <= 90u8) || (97u8 <= c <= 122u8)
}

/// ASCII whitespace as `u8::is_ascii_whitespace` defines it: space, tab, line
/// feed, form feed and carriage return.
pub open spec fn is_ascii_ws(c: u8) -> bool {
    c == 32u8 || c == 9u8 || c == 10u8 || c == 12u8 || c == 13u8
}

/// No identifier byte stands right before `i`.
pub open spec fn start_boundary(b: Seq<u8>, i: int) -> bool {
    0 <= i <= b.len() && !(i > 0 && is_ident_byte(b[i - 1]))
}

/// No identifier byte stands at `i`.
pub open spec fn end_boundary(b: Seq<u8>, i: int) -> bool {
    0 <= i <= b.len() && !(i < b.len() && is_ident_byte(b[i]))
}

/// The `len` bytes at `p` form a whole identifier-delimited word.
pub open spec fn word_at(b: Seq<u8>, len: int, p: int) -> bool {
    start_boundary(b, p) && end_boundary(b, p + len)
}

/// `name` occurs in `b` at position `p`.
pub open spec fn bytes_match_at(b: Seq<u8>, name: Seq<u8>, p: int) -> bool {
    0 <= p && p + name.len() <= b.len() && b.subrange(p, p + name.len()) == name
}

pub fn is_wgsl_identifier_byte(byte: u8) -> (r: bool)
    ensures
        r == is_ident_byte(byte),
{
    byte == 95u8 || (48u8 <= byte && byte <= 57u8) || (65u8 <= byte && byte <= 90u8) || (97u8
        <= byte && byte <= 122u8)
}

pub fn is_ascii_whitespace_byte(byte: u8) -> (r: bool)
    ensures
        r == is_ascii_ws(byte),
{
    byte == 32u8 || byte == 9u8 || byte == 10u8 || byte == 12u8 || byte == 13u8
}

pub fn is_identifier_start_boundary(source: &str, byte_index: usize) -> (r: bool)
    ensures
        r == start_boundary(source.spec_bytes(), byte_index as int),
{
    let bytes = source.as_bytes();
    if byte_index > bytes.len() {
        return false;
    }
    !(byte_index > 0 && is_wgsl_identifier_byte(bytes[byte_index - 1]))
}

pub fn is_identifier_end_boundary(source: &str, byte_index: usize) -> (r: bool)
    ensures
        r == end_boundary(source.spec_bytes(), byte_index as int),
{
    let bytes = source.as_bytes();
    if byte_index > bytes.len() {
        return false;
    }
    !(byte_index < bytes.len() && is_wgsl_identifier_byte(bytes[byte_index]))
}

/// Whether `name` occurs in `bytes` at `p`.
fn bytes_equal_at(bytes: &[u8], name: &[u8], p: usize) -> (r: bool)
    ensures
        r == bytes_match_at(bytes@, name@, p as int),
{
    if p > bytes.len() || name.len() > bytes.len() - p {
        return false;
    }
    let mut i: usize = 0;
    while i < name.len()
        invariant
            p + name@.len() <= bytes@.len(),
            bytes@.len() == bytes.len(),
            0 <= i <= name@.len(),
            forall|j: int| 0 <= j < i ==> bytes@[p + j] == name@[j],
        decreases name@.len() - i,
    {
        if bytes[p + i] != name[i] {
            assert(bytes@.subrange(p as int, p + name@.len())[i as int] != name@[i as int]);
            return false;
        }
        i = i + 1;
    }
    assert(bytes@.subrange(p as int, p + name@.len()) =~= name@);
    true
}

// ---------------------------------------------------------------------------
// Skipping
// ---------------------------------------------------------------------------

/// The first position at or after `i` (and below `end`) that is not ASCII
/// whitespace, or `i` itself once `end` is reached.
pub open spec fn skip_ws(b: Seq<u8>, i: int, end: int) -> int
    decreases end - i,
{
    if 0 <= i < end && i < b.len() && is_ascii_ws(b[i]) {
        skip_ws(b, i + 1, end)
    } else {
        i
    }
}

/// The first position at or after `i` (and below `end`) that is not an
/// identifier byte.
pub open spec fn skip_ident(b: Seq<u8>, i: int, end: int) -> int
    decreases end - i,
{
    if 0 <= i < end && i < b.len() && is_ident_byte(b[i]) {
        skip_ident(b, i + 1, end)
    } else {
        i
    }
}

pub proof fn lemma_skip_ws_bounds(b: Seq<u8>, i: int, end: int)
    ensures
        skip_ws(b, i, end) >= i,
        i <= end ==> skip_ws(b, i, end) <= end,
    decreases end - i,
{
    if 0 <= i < end && i < b.len() && is_ascii_ws(b[i]) {
        lemma_skip_ws_bounds(b, i + 1, end);
    }
}

pub proof fn lemma_skip_ident_bounds(b: Seq<u8>, i: int, end: int)
    ensures
        skip_ident(b, i, end) >= i,
        i <= end ==> skip_ident(b, i, end) <= end,
    decreases end - i,
{
    if 0 <= i < end && i < b.len() && is_ident_byte(b[i]) {
        lemma_skip_ident_bounds(b, i + 1, end);
    }
}

pub fn skip_ascii_whitespace(source: &str, index: usize, end: usize) -> (r: usize)
    requires
        end <= source.spec_bytes().len(),
    ensures
        r as int == skip_ws(source.spec_bytes(), index as int, end as int),
{
    let bytes = source.as_bytes();
    let mut i = index;
    while i < end && is_ascii_whitespace_byte(bytes[i])
        invariant
            end <= bytes@.len(),
            index <= i,
            skip_ws(bytes@, index as int, end as int) == skip_ws(bytes@, i as int, end as int),
        decreases end - i,
    {
        i = i + 1;
    }
    i
}

fn skip_identifier_bytes(bytes: &[u8], index: usize, end: usize) -> (r: usize)
    requires
        end <= bytes@.len(),
    ensures
        r as int == skip_ident(bytes@, index as int, end as int),
{
    let mut i = index;
    while i < end && is_wgsl_identifier_byte(bytes[i])
        invariant
            end <= bytes@.len(),
            index <= i,
            skip_ident(bytes@, index as int, end as int) == skip_ident(bytes@, i as int, end as int),
        decreases end - i,
    {
        i = i + 1;
    }
    i
}

// ---------------------------------------------------------------------------
// Bracket matching
// ---------------------------------------------------------------------------

/// Scanning from `i` with nesting `depth`, the position of the closing byte
/// that brings the nesting back to zero (a closing byte at depth zero or one
/// closes).
pub open spec fn close_scan(
    b: Seq<u8>,
    open_c: u8,
    close_c: u8,
    i: int,
    end: int,
    depth: nat,
) -> Option<int>
    decreases end - i,
{
    if i < 0 || i >= end || i >= b.len() {
        None
    } else if b[i] == open_c {
        close_scan(b, open_c, close_c, i + 1, end, depth + 1)
    } else if b[i] == close_c {
        if depth <= 1 {
            Some(i)
        } else {
            close_scan(b, open_c, close_c, i + 1, end, (depth - 1) as nat)
        }
    } else {
        close_scan(b, open_c, close_c, i + 1, end, depth)
    }
}

pub proof fn lemma_close_scan_bounds(
    b: Seq<u8>,
    open_c: u8,
    close_c: u8,
    i: int,
    end: int,
    depth: nat,
)
    ensures
        close_scan(b, open_c, close_c, i, end, depth) matches Some(k) ==> i <= k < end && k < b.len()
            && b[k] == close_c,
    decreases end - i,
{
    if i < 0 || i >= end || i >= b.len() {
    } else if b[i] == open_c {
        lemma_close_scan_bounds(b, open_c, close_c, i + 1, end, depth + 1);
    } else if b[i] == close_c {
        if depth > 1 {
            lemma_close_scan_bounds(b, open_c, close_c, i + 1, end, (depth - 1) as nat);
        }
    } else {
        lemma_close_scan_bounds(b, open_c, close_c, i + 1, end, depth);
    }
}

/// How many more `{` than `}` the bytes `b[open..k)` hold.
pub open spec fn brace_balance(b: Seq<u8>, open: int, k: int) -> int
    decreases k - open,
{
    if k <= open {
        0
    } else {
        brace_balance(b, open, k - 1) + (if b[k - 1] == 123u8 {
            1int
        } else if b[k - 1] == 125u8 {
            -1int
        } else {
            0int
        })
    }
}

/// `b[i]` is a `}` after `open` at which the braces of `b[open..=i]` balance.
pub open spec fn balanced_close(b: Seq<u8>, open: int, i: int) -> bool {
    open < i < b.len() && b[i] == 125u8 && brace_balance(b, open, i + 1) == 0
}

proof fn lemma_close_scan_balance(b: Seq<u8>, open: int, k: int, d: nat)
    requires
        0 <= open < k <= b.len(),
        d >= 1,
        d as int == brace_balance(b, open, k),
    ensures
        close_scan(b, 123u8, 125u8, k, b.len() as int, d) matches Some(i) ==> balanced_close(b, open, i) && k <= i
            && forall|j: int| k <= j < i ==> !#[trigger] balanced_close(b, open, j),
        close_scan(b, 123u8, 125u8, k, b.len() as int, d) is None ==> forall|j: int|
            k <= j ==> !#[trigger] balanced_close(b, open, j),
    decreases b.len() - k,
{
    if k >= b.len() {
    } else {
        assert(brace_balance(b, open, k + 1) == brace_balance(b, open, k) + (if b[k] == 123u8 {
            1int
        } else if b[k] == 125u8 {
            -1int
        } else {
            0int
        }));
        if b[k] == 123u8 {
            lemma_close_scan_balance(b, open, k + 1, d + 1);
        } else if b[k] == 125u8 {
            if d <= 1 {
                assert(balanced_close(b, open, k));
            } else {
                lemma_close_scan_balance(b, open, k + 1, (d - 1) as nat);
            }
        } else {
            lemma_close_scan_balance(b, open, k + 1, d);
        }
    }
}

/// The `}` matching the `{` at `open` is the first `}` after it at which
/// the braces opened and closed since `open` balance; there is none exactly
/// when no `}` after `open` balances them.
pub proof fn lemma_matching_brace_is_least_balanced(b: Seq<u8>, open: int)
    requires
        0 <= open < b.len(),
        b[open] == 123u8,
    ensures
        close_scan(b, 123u8, 125u8, open, b.len() as int, 0) matches Some(i) ==> balanced_close(b, open, i)
            && forall|j: int| open < j < i ==> !#[trigger] balanced_close(b, open, j),
        close_scan(b, 123u8, 125u8, open, b.len() as int, 0) is None ==> forall|j: int|
            !#[trigger] balanced_close(b, open, j),
{
    assert(brace_balance(b, open, open + 1) == 1) by {
        assert(brace_balance(b, open, open) == 0);
    }
    lemma_close_scan_balance(b, open, open + 1, 1);
    assert forall|j: int| open >= j implies !#[trigger] balanced_close(b, open, j) by {}
}

pub open spec fn opt_usize(r: Option<usize>) -> Option<int> {
    match r {
        Some(x) => Some(x as int),
        None => None,
    }
}

/// The first position in `[i, end)` holding `c`.
pub open spec fn first_byte(b: Seq<u8>, c: u8, i: int, end: int) -> Option<int>
    decreases end - i,
{
    if i < 0 || i >= end || i >= b.len() {
        None
    } else if b[i] == c {
        Some(i)
    } else {
        first_byte(b, c, i + 1, end)
    }
}

pub proof fn lemma_first_byte_bounds(b: Seq<u8>, c: u8, i: int, end: int)
    ensures
        first_byte(b, c, i, end) matches Some(k) ==> i <= k < end && k < b.len() && b[k] == c,
    decreases end - i,
{
    if !(i < 0 || i >= end || i >= b.len()) && b[i] != c {
        lemma_first_byte_bounds(b, c, i + 1, end);
    }
}

fn find_byte(bytes: &[u8], c: u8, start: usize, end: usize) -> (r: Option<usize>)
    requires
        end <= bytes@.len(),
    ensures
        opt_usize(r) == first_byte(bytes@, c, start as int, end as int),
{
    let mut i = start;
    while i < end
        invariant
            end <= bytes@.len(),
            start <= i,
            first_byte(bytes@, c, start as int, end as int) == first_byte(
                bytes@,
                c,
                i as int,
                end as int,
            ),
        decreases end - i,
    {
        if bytes[i] == c {
            return Some(i);
        }
        i = i + 1;
    }
    None
}

/// Scans `[start, end)` for the closing byte that matches the nesting opened
/// at or after `start`.
fn scan_to_close(bytes: &[u8], open_c: u8, close_c: u8, start: usize, end: usize) -> (r: Option<
    usize,
>)
    requires
        end <= bytes@.len(),
    ensures
        opt_usize(r) == close_scan(bytes@, open_c, close_c, start as int, end as int, 0),
{
    let mut i = start;
    let mut depth: usize = 0;
    while i < end
        invariant
            end <= bytes@.len(),
            start <= i,
            depth <= i - start,
            close_scan(bytes@, open_c, close_c, start as int, end as int, 0) == close_scan(
                bytes@,
                open_c,
                close_c,
                i as int,
                end as int,
                depth as nat,
            ),
        decreases end - i,
    {
        let byte = bytes[i];
        if byte == open_c {
            depth = depth + 1;
        } else if byte == close_c {
            if depth <= 1 {
                return Some(i);
            }
            depth = depth - 1;
        }
        i = i + 1;
    }
    None
}

/// The position right after the `]` that closes the `[` at `open`.
pub open spec fn bracket_skip(b: Seq<u8>, open: int, end: int) -> Option<int> {
    if 0 <= open < b.len() && b[open] == 91u8 {
        match close_scan(b, 91u8, 93u8, open, end, 0) {
            Some(k) => Some(k + 1),
            None => None,
        }
    } else {
        None
    }
}

pub fn skip_bracketed_source(source: &str, open: usize, end: usize) -> (r: Option<usize>)
    requires
        end <= source.spec_bytes().len(),
    ensures
        opt_usize(r) == bracket_skip(source.spec_bytes(), open as int, end as int),
{
    let bytes = source.as_bytes();
    if open >= bytes.len() || bytes[open] != 91u8 {
        return None;
    }
    proof {
        lemma_close_scan_bounds(bytes@, 91u8, 93u8, open as int, end as int, 0);
    }
    match scan_to_close(bytes, 91u8, 93u8, open, end) {
        Some(k) => Some(k + 1),
        None => None,
    }
}

/// The position of the `}` matching the `{` at `open_brace`.
pub fn find_matching_brace(source: &str, open_brace: usize) -> (r: Option<usize>)
    ensures
        opt_usize(r) == close_scan(
            source.spec_bytes(),
            123u8,
            125u8,
            open_brace as int,
            source.spec_bytes().len() as int,
            0,
        ),
{
    let bytes = source.as_bytes();
    scan_to_close(bytes, 123u8, 125u8, open_brace, bytes.len())
}

/// The byte range strictly inside the first parenthesised group of `range`.
pub open spec fn enclosed_arguments(b: Seq<u8>, start: int, end: int) -> Option<(int, int)> {
    if start >= end || end > b.len() {
        None
    } else {
        match first_byte(b, 40u8, start, end) {
            None => None,
            Some(open) => match close_scan(b, 40u8, 41u8, open, end, 0) {
                Some(close) => Some((open + 1, close)),
                None => None,
            },
        }
    }
}

pub open spec fn opt_range(r: Option<core::ops::Range<usize>>) -> Option<(int, int)> {
    match r {
        Some(range) => Some((range.start as int, range.end as int)),
        None => None,
    }
}

pub fn find_enclosed_arguments_range(source: &str, range: core::ops::Range<usize>) -> (r: Option<
    core::ops::Range<usize>,
>)
    ensures
        opt_range(r) == enclosed_arguments(
            source.spec_bytes(),
            range.start as int,
            range.end as int,
        ),
{
    let bytes = source.as_bytes();
    if range.start >= range.end || range.end > bytes.len() {
        return None;
    }
    let open = match find_byte(bytes, 40u8, range.start, range.end) {
        Some(open) => open,
        None => return None,
    };
    proof {
        lemma_first_byte_bounds(bytes@, 40u8, range.start as int, range.end as int);
        lemma_close_scan_bounds(bytes@, 40u8, 41u8, open as int, range.end as int, 0);
    }
    match scan_to_close(bytes, 40u8, 41u8, open, range.end) {
        Some(close) => Some(core::ops::Range { start: open + 1, end: close }),
        None => None,
    }
}

// ---------------------------------------------------------------------------
// Lines and source ranges
// ---------------------------------------------------------------------------

/// Number of line feeds among the first `hi` bytes.
pub open spec fn count_newlines(b: Seq<u8>, hi: int) -> nat
    decreases hi,
{
    if hi <= 0 {
        0
    } else {
        count_newlines(b, hi - 1) + if b[hi - 1] == 10u8 {
            1nat
        } else {
            0nat
        }
    }
}

pub proof fn lemma_count_newlines_le(b: Seq<u8>, hi: int)
    ensures
        hi >= 0 ==> count_newlines(b, hi) <= hi,
    decreases hi,
{
    if hi > 0 {
        lemma_count_newlines_le(b, hi - 1);
    }
}

/// The first byte of the line that holds position `i`.
pub open spec fn line_start(b: Seq<u8>, i: int) -> int
    decreases i,
{
    if i <= 0 {
        0
    } else if b[i - 1] == 10u8 {
        i
    } else {
        line_start(b, i - 1)
    }
}

pub proof fn lemma_line_start_bounds(b: Seq<u8>, i: int)
    ensures
        i >= 0 ==> 0 <= line_start(b, i) <= i,
    decreases i,
{
    if i > 0 && b[i - 1] != 10u8 {
        lemma_line_start_bounds(b, i - 1);
    }
}

/// The line feed that ends the line holding position `i`, or the end of the text.
pub open spec fn line_end(b: Seq<u8>, i: int) -> int
    decreases b.len() - i,
{
    if i >= b.len() {
        b.len() as int
    } else if b[i] == 10u8 {
        i
    } else {
        line_end(b, i + 1)
    }
}

/// The source range of bytes `[start, end)`, with the 1-based line and the
/// 1-based byte column of `start`; `None` for an empty or out-of-bounds range,
/// one that splits a character, or one past `u32::MAX`.
pub open spec fn spec_source_range(b: Seq<u8>, start: int, end: int) -> Option<PassDebugSourceRange> {
    if start < 0 || start >= end || end > b.len() || !is_char_boundary(b, start)
        || !is_char_boundary(b, end) || end > u32::MAX {
        None
    } else {
        Some(
            PassDebugSourceRange {
                start_byte: start as usize,
                end_byte: end as usize,
                line: (count_newlines(b, start) + 1) as u32,
                column: (start - line_start(b, start) + 1) as u32,
            },
        )
    }
}

/// `naga::Span::location`: the 1-based line number and the 1-based byte column
/// of the span's start in `source`. naga computes the line as one plus the
/// number of line feeds before `start`, and the column from the last line
/// feed before `start`; it slices `source` at `start`, which must therefore lie
/// on a character boundary.
#[verifier::external_body]
fn span_location(source: &str, start: u32, end: u32) -> (r: (u32, u32))
    requires
        start < end,
        end <= source.spec_bytes().len(),
        is_char_boundary(source.spec_bytes(), start as int),
    ensures
        r.0 == count_newlines(source.spec_bytes(), start as int) + 1,
        r.1 == start - line_start(source.spec_bytes(), start as int) + 1,
{
    let location = naga::Span::new(start, end).location(source);
    (location.line_number, location.line_position)
}

pub fn source_range_from_byte_range(source: &str, range: core::ops::Range<usize>) -> (r: Option<
    PassDebugSourceRange,
>)
    ensures
        r == spec_source_range(source.spec_bytes(), range.start as int, range.end as int),
{
    let bytes = source.as_bytes();
    if range.start >= range.end || range.end > bytes.len() || !source.is_char_boundary(
        range.start,
    ) || !source.is_char_boundary(range.end) {
        return None;
    }
    if range.end > 0xffff_ffffusize {
        return None;
    }
    let start = range.start as u32;
    let end = range.end as u32;
    let (line, column) = span_location(source, start, end);
    proof {
        lemma_count_newlines_le(source.spec_bytes(), start as int);
        lemma_line_start_bounds(source.spec_bytes(), start as int);
    }
    Some(PassDebugSourceRange { start_byte: range.start, end_byte: range.end, line, column })
}

/// The byte range of the line holding `byte_index`, without its line feed.
pub open spec fn spec_line_range(b: Seq<u8>, i: int) -> Option<(int, int)> {
    if i < 0 || i > b.len() || !is_char_boundary(b, i) {
        None
    } else if line_start(b, i) < line_end(b, i) {
        Some((line_start(b, i), line_end(b, i)))
    } else {
        None
    }
}

pub fn source_line_byte_range(source: &str, byte_index: usize) -> (r: Option<
    core::ops::Range<usize>,
>)
    ensures
        opt_range(r) == spec_line_range(source.spec_bytes(), byte_index as int),
{
    let bytes = source.as_bytes();
    if byte_index > bytes.len() || !source.is_char_boundary(byte_index) {
        return None;
    }
    let mut start = byte_index;
    while start > 0 && bytes[start - 1] != 10u8
        invariant
            start <= byte_index <= bytes@.len(),
            line_start(bytes@, byte_index as int) == line_start(bytes@, start as int),
        decreases start,
    {
        start = start - 1;
    }
    let mut end = byte_index;
    while end < bytes.len() && bytes[end] != 10u8
        invariant
            byte_index <= end <= bytes@.len(),
            line_end(bytes@, byte_index as int) == line_end(bytes@, end as int),
        decreases bytes@.len() - end,
    {
        end = end + 1;
    }
    if start < end {
        Some(core::ops::Range { start, end })
    } else {
        None
    }
}

// ---------------------------------------------------------------------------
// Assignment operators
// ---------------------------------------------------------------------------

/// An assignment operator starts at `i`: `=` (not `==`), a compound
/// `+= -= *= /= %= &= |= ^=`, or `<<=` / `>>=`.
pub open spec fn assignment_op_at(b: Seq<u8>, i: int) -> bool {
    0 <= i < b.len() && {
        let c = b[i];
        let next_is_eq = i + 1 < b.len() && b[i + 1] == 61u8;
        ||| c == 61u8 && !next_is_eq
        ||| (c == 43u8 || c == 45u8 || c == 42u8 || c == 47u8 || c == 37u8 || c == 38u8 || c
            == 124u8 || c == 94u8) && next_is_eq
        ||| (c == 60u8 || c == 62u8) && i + 2 < b.len() && b[i + 1] == c && b[i + 2] == 61u8
    }
}

/// From `i` (already past whitespace), skips member accesses `.name` and index
/// brackets `[...]` below `end`, then yields the position of the assignment
/// operator that follows, if any.
pub open spec fn store_scan(b: Seq<u8>, i: int, end: int) -> Option<int>
    decreases end - i,
{
    if 0 <= i < end && i < b.len() && b[i] == 46u8 {
        let j = skip_ident(b, i + 1, end);
        let k = skip_ws(b, j, end);
        proof {
            lemma_skip_ident_bounds(b, i + 1, end);
            lemma_skip_ws_bounds(b, j, end);
        }
        store_scan(b, k, end)
    } else if 0 <= i < end && i < b.len() && b[i] == 91u8 {
        match close_scan(b, 91u8, 93u8, i, end, 0) {
            None => None,
            Some(c) => {
                proof {
                    lemma_close_scan_bounds(b, 91u8, 93u8, i, end, 0);
                    lemma_skip_ws_bounds(b, c + 1, end);
                }
                store_scan(b, skip_ws(b, c + 1, end), end)
            },
        }
    } else if assignment_op_at(b, i) {
        Some(i)
    } else {
        None
    }
}

/// The assignment operator that follows an l-value's name ending at `index`.
pub open spec fn store_op_after(b: Seq<u8>, index: int, end: int) -> Option<int> {
    store_scan(b, skip_ws(b, index, end), end)
}

fn assignment_operator_at(bytes: &[u8], i: usize) -> (r: bool)
    ensures
        r == assignment_op_at(bytes@, i as int),
{
    if i >= bytes.len() {
        return false;
    }
    let c = bytes[i];
    let next_is_eq = i + 1 < bytes.len() && bytes[i + 1] == 61u8;
    if c == 61u8 && !next_is_eq {
        return true;
    }
    if (c == 43u8 || c == 45u8 || c == 42u8 || c == 47u8 || c == 37u8 || c == 38u8 || c == 124u8
        || c == 94u8) && next_is_eq {
        return true;
    }
    (c == 60u8 || c == 62u8) && i + 1 < bytes.len() && i + 2 < bytes.len() && bytes[i + 1] == c && bytes[i + 2] == 61u8
}

pub fn store_assignment_operator_start(source: &str, index: usize, end: usize) -> (r: Option<
    usize,
>)
    requires
        end <= source.spec_bytes().len(),
    ensures
        opt_usize(r) == store_op_after(source.spec_bytes(), index as int, end as int),
{
    let bytes = source.as_bytes();
    let mut i = skip_ascii_whitespace(source, index, end);
    while i < end && (bytes[i] == 46u8 || bytes[i] == 91u8)
        invariant
            end <= bytes@.len(),
            bytes@ == source.spec_bytes(),
            store_op_after(bytes@, index as int, end as int) == store_scan(
                bytes@,
                i as int,
                end as int,
            ),
        decreases end - i,
    {
        if bytes[i] == 46u8 {
            let j = skip_identifier_bytes(bytes, i + 1, end);
            proof {
                lemma_skip_ident_bounds(bytes@, i + 1, end as int);
                lemma_skip_ws_bounds(bytes@, j as int, end as int);
            }
            i = skip_ascii_whitespace(source, j, end);
        } else {
            proof {
                lemma_close_scan_bounds(bytes@, 91u8, 93u8, i as int, end as int, 0);
            }
            let after = match skip_bracketed_source(source, i, end) {
                Some(after) => after,
                None => return None,
            };
            proof {
                lemma_skip_ws_bounds(bytes@, after as int, end as int);
            }
            i = skip_ascii_whitespace(source, after, end);
        }
    }
    if assignment_operator_at(bytes, i) {
        Some(i)
    } else {
        None
    }
}

// ---------------------------------------------------------------------------
// Identifier occurrences
// ---------------------------------------------------------------------------

/// Whether an occurrence of a `len`-byte word at `p` counts: a whole word,
/// followed (when `store` holds) by an assignment operator before `hi`.
pub open spec fn occurrence_counts(b: Seq<u8>, len: int, p: int, hi: int, store: bool) -> bool {
    word_at(b, len, p) && (!store || store_op_after(b, p + len, hi) is Some)
}

/// Scanning `[pos, hi)` left to right for non-overlapping occurrences of
/// `name`, the start of the `k`-th (0-based) one that counts.
pub open spec fn occurrence_scan(
    b: Seq<u8>,
    name: Seq<u8>,
    pos: int,
    hi: int,
    k: nat,
    store: bool,
) -> Option<int>
    decreases hi - pos,
{
    if name.len() == 0 || pos < 0 || pos + name.len() > hi || hi > b.len() {
        None
    } else if bytes_match_at(b, name, pos) {
        if occurrence_counts(b, name.len() as int, pos, hi, store) {
            if k == 0 {
                Some(pos)
            } else {
                occurrence_scan(b, name, pos + name.len(), hi, (k - 1) as nat, store)
            }
        } else {
            occurrence_scan(b, name, pos + name.len(), hi, k, store)
        }
    } else {
        occurrence_scan(b, name, pos + 1, hi, k, store)
    }
}

pub proof fn lemma_occurrence_scan_bounds(
    b: Seq<u8>,
    name: Seq<u8>,
    pos: int,
    hi: int,
    k: nat,
    store: bool,
)
    ensures
        occurrence_scan(b, name, pos, hi, k, store) matches Some(p) ==> pos <= p && p + name.len()
            <= hi && hi <= b.len() && bytes_match_at(b, name, p),
    decreases hi - pos,
{
    if name.len() == 0 || pos < 0 || pos + name.len() > hi || hi > b.len() {
    } else if bytes_match_at(b, name, pos) {
        if occurrence_counts(b, name.len() as int, pos, hi, store) {
            if k != 0 {
                lemma_occurrence_scan_bounds(b, name, pos + name.len(), hi, (k - 1) as nat, store);
            }
        } else {
            lemma_occurrence_scan_bounds(b, name, pos + name.len(), hi, k, store);
        }
    } else {
        lemma_occurrence_scan_bounds(b, name, pos + 1, hi, k, store);
    }
}

/// The source range of the `k`-th counted occurrence of `name` in `[lo, hi)`.
pub open spec fn spec_occurrence_range(
    b: Seq<u8>,
    name: Seq<u8>,
    lo: int,
    hi: int,
    k: nat,
    store: bool,
) -> Option<PassDebugSourceRange> {
    if name.len() == 0 || lo >= hi || hi > b.len() {
        None
    } else {
        match occurrence_scan(b, name, lo, hi, k, store) {
            Some(p) => spec_source_range(b, p, p + name.len()),
            None => None,
        }
    }
}

/// Scans `[lo, hi)` for the `k`-th counted occurrence of `name`.
fn scan_occurrences(
    source: &str,
    name: &str,
    lo: usize,
    hi: usize,
    occurrence_index: usize,
    store: bool,
) -> (r: Option<usize>)
    requires
        hi <= source.spec_bytes().len(),
        name.spec_bytes().len() > 0,
    ensures
        opt_usize(r) == occurrence_scan(
            source.spec_bytes(),
            name.spec_bytes(),
            lo as int,
            hi as int,
            occurrence_index as nat,
            store,
        ),
{
    let bytes = source.as_bytes();
    let name_bytes = name.as_bytes();
    let n = name_bytes.len();
    let mut pos = lo;
    let mut remaining = occurrence_index;
    while pos <= hi && n <= hi - pos
        invariant
            hi <= bytes@.len(),
            bytes@ == source.spec_bytes(),
            name_bytes@ == name.spec_bytes(),
            n == name_bytes@.len(),
            n > 0,
            lo <= pos,
            occurrence_scan(bytes@, name_bytes@, lo as int, hi as int, occurrence_index as nat, store)
                == occurrence_scan(bytes@, name_bytes@, pos as int, hi as int, remaining as nat, store),
        decreases hi - pos,
    {
        if bytes_equal_at(bytes, name_bytes, pos) {
            let end = pos + n;
            let counts = is_identifier_start_boundary(source, pos) && is_identifier_end_boundary(
                source,
                end,
            ) && (!store || store_assignment_operator_start(source, end, hi).is_some());
            if counts {
                if remaining == 0 {
                    return Some(pos);
                }
                remaining = remaining - 1;
            }
            pos = end;
        } else {
            pos = pos + 1;
        }
    }
    None
}

pub fn find_identifier_occurrence_range(
    source: &str,
    range: core::ops::Range<usize>,
    name: &str,
    occurrence_index: usize,
) -> (r: Option<PassDebugSourceRange>)
    ensures
        r == spec_occurrence_range(
            source.spec_bytes(),
            name.spec_bytes(),
            range.start as int,
            range.end as int,
            occurrence_index as nat,
            false,
        ),
{
    let bytes = source.as_bytes();
    let name_len = name.as_bytes().len();
    if name_len == 0 || range.start >= range.end || range.end > bytes.len() {
        return None;
    }
    proof {
        lemma_occurrence_scan_bounds(
            source.spec_bytes(),
            name.spec_bytes(),
            range.start as int,
            range.end as int,
            occurrence_index as nat,
            false,
        );
    }
    match scan_occurrences(source, name, range.start, range.end, occurrence_index, false) {
        Some(p) => source_range_from_byte_range(
            source,
            core::ops::Range { start: p, end: p + name_len },
        ),
        None => None,
    }
}

pub fn find_identifier_range(source: &str, range: core::ops::Range<usize>, name: &str) -> (r:
    Option<PassDebugSourceRange>)
    ensures
        r == spec_occurrence_range(
            source.spec_bytes(),
            name.spec_bytes(),
            range.start as int,
            range.end as int,
            0,
            false,
        ),
{
    find_identifier_occurrence_range(source, range, name, 0)
}

pub fn find_global_identifier_range(source: &str, name: &str) -> (r: Option<PassDebugSourceRange>)
    ensures
        r == spec_occurrence_range(
            source.spec_bytes(),
            name.spec_bytes(),
            0,
            source.spec_bytes().len() as int,
            0,
            false,
        ),
{
    let len = source.as_bytes().len();
    find_identifier_range(source, core::ops::Range { start: 0, end: len }, name)
}

/// Scanning `[pos, hi)` left to right for non-overlapping occurrences of
/// `name`, the start of the last whole-word one (`acc` if there is none).
pub open spec fn last_word_scan(
    b: Seq<u8>,
    name: Seq<u8>,
    pos: int,
    hi: int,
    acc: Option<int>,
) -> Option<int>
    decreases hi - pos,
{
    if name.len() == 0 || pos < 0 || pos + name.len() > hi || hi > b.len() {
        acc
    } else if bytes_match_at(b, name, pos) {
        last_word_scan(
            b,
            name,
            pos + name.len(),
            hi,
            if word_at(b, name.len() as int, pos) {
                Some(pos)
            } else {
                acc
            },
        )
    } else {
        last_word_scan(b, name, pos + 1, hi, acc)
    }
}

pub proof fn lemma_last_word_scan_bounds(
    b: Seq<u8>,
    name: Seq<u8>,
    pos: int,
    hi: int,
    acc: Option<int>,
)
    requires
        acc matches Some(p) ==> 0 <= p && p + name.len() <= b.len(),
    ensures
        last_word_scan(b, name, pos, hi, acc) matches Some(p) ==> 0 <= p && p + name.len()
            <= b.len(),
    decreases hi - pos,
{
    if name.len() == 0 || pos < 0 || pos + name.len() > hi || hi > b.len() {
    } else if bytes_match_at(b, name, pos) {
        lemma_last_word_scan_bounds(
            b,
            name,
            pos + name.len(),
            hi,
            if word_at(b, name.len() as int, pos) {
                Some(pos)
            } else {
                acc
            },
        );
    } else {
        lemma_last_word_scan_bounds(b, name, pos + 1, hi, acc);
    }
}

/// The source range of the last whole-word occurrence of `name` in `[lo, hi)`.
pub open spec fn spec_last_word_range(b: Seq<u8>, name: Seq<u8>, lo: int, hi: int) -> Option<
    PassDebugSourceRange,
> {
    if name.len() == 0 || lo >= hi || hi > b.len() {
        None
    } else {
        match last_word_scan(b, name, lo, hi, None) {
            Some(p) => spec_source_range(b, p, p + name.len()),
            None => None,
        }
    }
}

pub fn find_last_identifier_range(source: &str, range: core::ops::Range<usize>, name: &str) -> (r:
    Option<PassDebugSourceRange>)
    ensures
        r == spec_last_word_range(
            source.spec_bytes(),
            name.spec_bytes(),
            range.start as int,
            range.end as int,
        ),
{
    let bytes = source.as_bytes();
    let name_bytes = name.as_bytes();
    let n = name_bytes.len();
    let hi = range.end;
    if n == 0 || range.start >= hi || hi > bytes.len() {
        return None;
    }
    let mut pos = range.start;
    let mut last: Option<usize> = None;
    while pos <= hi && n <= hi - pos
        invariant
            hi <= bytes@.len(),
            bytes@ == source.spec_bytes(),
            name_bytes@ == name.spec_bytes(),
            n == name_bytes@.len(),
            n > 0,
            last matches Some(p) ==> p + n <= bytes@.len(),
            last_word_scan(bytes@, name_bytes@, range.start as int, hi as int, None)
                == last_word_scan(bytes@, name_bytes@, pos as int, hi as int, opt_usize(last)),
        decreases hi - pos,
    {
        if bytes_equal_at(bytes, name_bytes, pos) {
            let end = pos + n;
            if is_identifier_start_boundary(source, pos) && is_identifier_end_boundary(
                source,
                end,
            ) {
                last = Some(pos);
            }
            pos = end;
        } else {
            pos = pos + 1;
        }
    }
    match last {
        Some(p) => source_range_from_byte_range(source, core::ops::Range { start: p, end: p + n }),
        None => None,
    }
}

// ---------------------------------------------------------------------------
// Keywords and functions
// ---------------------------------------------------------------------------

/// After the whole-word `keyword` of `kw_len` bytes at `p`, past whitespace
/// below `hi`, stands the whole word `name` ending at or before `hi`.
pub open spec fn keyword_name_at(b: Seq<u8>, kw_len: int, name: Seq<u8>, p: int, hi: int) -> bool {
    word_at(b, kw_len, p) && {
        let s = skip_ws(b, p + kw_len, hi);
        s + name.len() <= hi && bytes_match_at(b, name, s) && word_at(b, name.len() as int, s)
    }
}

/// Scanning `[pos, hi)` for non-overlapping occurrences of `keyword`, the
/// start of `name` after the first one that `keyword_name_at` accepts.
pub open spec fn keyword_scan(b: Seq<u8>, keyword: Seq<u8>, name: Seq<u8>, pos: int, hi: int) -> Option<
    int,
>
    decreases hi - pos,
{
    if keyword.len() == 0 || pos < 0 || pos + keyword.len() > hi || hi > b.len() {
        None
    } else if bytes_match_at(b, keyword, pos) {
        if keyword_name_at(b, keyword.len() as int, name, pos, hi) {
            Some(skip_ws(b, pos + keyword.len(), hi))
        } else {
            keyword_scan(b, keyword, name, pos + keyword.len(), hi)
        }
    } else {
        keyword_scan(b, keyword, name, pos + 1, hi)
    }
}

/// The source range of `name` declared by `keyword` (`var name`, `let name`)
/// in `[lo, hi)`.
pub open spec fn spec_keyword_range(
    b: Seq<u8>,
    lo: int,
    hi: int,
    keyword: Seq<u8>,
    name: Seq<u8>,
) -> Option<PassDebugSourceRange> {
    if keyword.len() == 0 || name.len() == 0 || hi > b.len() {
        None
    } else {
        match keyword_scan(b, keyword, name, lo, hi) {
            Some(s) => spec_source_range(b, s, s + name.len()),
            None => None,
        }
    }
}

pub fn find_keyword_identifier_range(
    source: &str,
    range: core::ops::Range<usize>,
    keyword: &str,
    name: &str,
) -> (r: Option<PassDebugSourceRange>)
    ensures
        r == spec_keyword_range(
            source.spec_bytes(),
            range.start as int,
            range.end as int,
            keyword.spec_bytes(),
            name.spec_bytes(),
        ),
{
    let bytes = source.as_bytes();
    let kw = keyword.as_bytes();
    let name_bytes = name.as_bytes();
    let hi = range.end;
    if kw.len() == 0 || name_bytes.len() == 0 || hi > bytes.len() {
        return None;
    }
    let mut pos = range.start;
    while pos <= hi && kw.len() <= hi - pos
        invariant
            hi == range.end,
            hi <= bytes@.len(),
            bytes@ == source.spec_bytes(),
            kw@ == keyword.spec_bytes(),
            name_bytes@ == name.spec_bytes(),
            kw@.len() > 0,
            name_bytes@.len() > 0,
            keyword_scan(bytes@, kw@, name_bytes@, range.start as int, hi as int) == keyword_scan(
                bytes@,
                kw@,
                name_bytes@,
                pos as int,
                hi as int,
            ),
        decreases hi - pos,
    {
        if bytes_equal_at(bytes, kw, pos) {
            let kw_end = pos + kw.len();
            if is_identifier_start_boundary(source, pos) && is_identifier_end_boundary(
                source,
                kw_end,
            ) {
                let name_start = skip_ascii_whitespace(source, kw_end, hi);
                proof {
                    lemma_skip_ws_bounds(bytes@, kw_end as int, hi as int);
                }
                if name_bytes.len() <= hi - name_start && bytes_equal_at(
                    bytes,
                    name_bytes,
                    name_start,
                ) && is_identifier_start_boundary(source, name_start)
                    && is_identifier_end_boundary(source, name_start + name_bytes.len()) {
                    return source_range_from_byte_range(
                        source,
                        core::ops::Range {
                            start: name_start,
                            end: name_start + name_bytes.len(),
                        },
                    );
                }
            }
            pos = kw_end;
        } else {
            pos = pos + 1;
        }
    }
    None
}

/// A `fn` keyword at `p` followed, past whitespace, by the whole word `scope`.
pub open spec fn fn_header_at(b: Seq<u8>, scope: Seq<u8>, p: int) -> bool {
    word_at(b, 2, p) && {
        let s = skip_ws(b, p + 2, b.len() as int);
        s + scope.len() <= b.len() && bytes_match_at(b, scope, s) && word_at(
            b,
            scope.len() as int,
            s,
        )
    }
}

pub open spec fn fn_keyword() -> Seq<u8> {
    seq![102u8, 110u8]
}

/// Scanning from `pos` for non-overlapping occurrences of `fn`, the first one
/// that starts the declaration of function `scope`.
pub open spec fn fn_scan(b: Seq<u8>, scope: Seq<u8>, pos: int) -> Option<int>
    decreases b.len() - pos,
{
    if pos < 0 || pos + 2 > b.len() {
        None
    } else if bytes_match_at(b, fn_keyword(), pos) {
        if fn_header_at(b, scope, pos) {
            Some(pos)
        } else {
            fn_scan(b, scope, pos + 2)
        }
    } else {
        fn_scan(b, scope, pos + 1)
    }
}

/// The end of the declaration of `scope` that starts at `p`: one past the
/// brace that closes the first `{` after the name, or the end of the text.
pub open spec fn function_end(b: Seq<u8>, scope: Seq<u8>, p: int) -> int {
    let name_end = skip_ws(b, p + 2, b.len() as int) + scope.len();
    match first_byte(b, 123u8, name_end, b.len() as int) {
        Some(open) => match close_scan(b, 123u8, 125u8, open, b.len() as int, 0) {
            Some(close) => close + 1,
            None => b.len() as int,
        },
        None => b.len() as int,
    }
}

/// The byte range of the declaration of function `scope`, from its `fn`
/// keyword through its closing brace.
pub open spec fn spec_function_range(b: Seq<u8>, scope: Seq<u8>) -> Option<(int, int)> {
    match fn_scan(b, scope, 0) {
        Some(p) => Some((p, function_end(b, scope, p))),
        None => None,
    }
}



pub fn find_function_range(source: &str, scope: &str) -> (r: Option<core::ops::Range<usize>>)
    ensures
        opt_range(r) == spec_function_range(source.spec_bytes(), scope.spec_bytes()),
        r matches Some(range) ==> range.start < range.end <= source.spec_bytes().len(),
{
    let bytes = source.as_bytes();
    let scope_bytes = scope.as_bytes();
    let len = bytes.len();
    let keyword: [u8; 2] = [102u8, 110u8];
    let kw = keyword.as_slice();
    assert(kw@ =~= fn_keyword());
    let mut pos: usize = 0;
    while pos <= len && 2 <= len - pos
        invariant
            len == bytes@.len(),
            bytes@ == source.spec_bytes(),
            scope_bytes@ == scope.spec_bytes(),
            kw@ == fn_keyword(),
            fn_scan(bytes@, scope_bytes@, 0) == fn_scan(bytes@, scope_bytes@, pos as int),
        decreases len - pos,
    {
        if bytes_equal_at(bytes, kw, pos) {
            let fn_end = pos + 2;
            if is_identifier_start_boundary(source, pos) && is_identifier_end_boundary(
                source,
                fn_end,
            ) {
                let name_start = skip_ascii_whitespace(source, fn_end, len);
                proof {
                    lemma_skip_ws_bounds(bytes@, fn_end as int, len as int);
                }
                if scope_bytes.len() <= len - name_start && bytes_equal_at(
                    bytes,
                    scope_bytes,
                    name_start,
                ) && is_identifier_start_boundary(source, name_start)
                    && is_identifier_end_boundary(source, name_start + scope_bytes.len()) {
                    let name_end = name_start + scope_bytes.len();
                    proof {
                        lemma_first_byte_bounds(bytes@, 123u8, name_end as int, len as int);
                    }
                    let function_end = match find_byte(bytes, 123u8, name_end, len) {
                        Some(open) => {
                            proof {
                                lemma_close_scan_bounds(bytes@, 123u8, 125u8, open as int, len as int, 0);
                            }
                            match find_matching_brace(source, open) {
                                Some(close) => close + 1,
                                None => len,
                            }
                        },
                        None => len,
                    };
                    return Some(core::ops::Range { start: pos, end: function_end });
                }
            }
            pos = fn_end;
        } else {
            pos = pos + 1;
        }
    }
    None
}

/// The source range of `name` in the signature of function `scope`.
pub open spec fn spec_argument_range(b: Seq<u8>, scope: Seq<u8>, name: Seq<u8>) -> Option<
    PassDebugSourceRange,
> {
    match spec_function_range(b, scope) {
        None => None,
        Some((start, end)) => {
            let signature_end = match first_byte(b, 123u8, start, end) {
                Some(open) => open,
                None => end,
            };
            spec_occurrence_range(b, name, start, signature_end, 0, false)
        },
    }
}

pub fn find_argument_identifier_range(source: &str, scope: &str, name: &str) -> (r: Option<
    PassDebugSourceRange,
>)
    ensures
        r == spec_argument_range(source.spec_bytes(), scope.spec_bytes(), name.spec_bytes()),
{
    let range = match find_function_range(source, scope) {
        Some(range) => range,
        None => return None,
    };
    let bytes = source.as_bytes();
    let signature_end = match find_byte(bytes, 123u8, range.start, range.end) {
        Some(open) => open,
        None => range.end,
    };
    find_identifier_range(source, core::ops::Range { start: range.start, end: signature_end }, name)
}

/// The source range of `name` declared by `keyword` inside function `scope`.
pub open spec fn spec_keyword_in_scope(
    b: Seq<u8>,
    scope: Seq<u8>,
    keyword: Seq<u8>,
    name: Seq<u8>,
) -> Option<PassDebugSourceRange> {
    match spec_function_range(b, scope) {
        None => None,
        Some((start, end)) => spec_keyword_range(b, start, end, keyword, name),
    }
}

pub fn find_keyword_identifier_in_scope(source: &str, scope: &str, keyword: &str, name: &str) -> (r:
    Option<PassDebugSourceRange>)
    ensures
        r == spec_keyword_in_scope(
            source.spec_bytes(),
            scope.spec_bytes(),
            keyword.spec_bytes(),
            name.spec_bytes(),
        ),
{
    match find_function_range(source, scope) {
        Some(range) => find_keyword_identifier_range(source, range, keyword, name),
        None => None,
    }
}

/// The source range of the `k`-th whole-word `name` inside function `scope`
/// that is followed by an assignment operator (an assignment's left side).
pub open spec fn spec_store_lhs_range(b: Seq<u8>, scope: Seq<u8>, name: Seq<u8>, k: nat) -> Option<
    PassDebugSourceRange,
> {
    match spec_function_range(b, scope) {
        None => None,
        Some((start, end)) => if name.len() == 0 || end > b.len() {
            None
        } else {
            match occurrence_scan(b, name, start, end, k, true) {
                Some(p) => spec_source_range(b, p, p + name.len()),
                None => None,
            }
        },
    }
}

pub fn find_store_lhs_identifier_range(
    source: &str,
    scope: &str,
    name: &str,
    occurrence_index: usize,
) -> (r: Option<PassDebugSourceRange>)
    ensures
        r == spec_store_lhs_range(
            source.spec_bytes(),
            scope.spec_bytes(),
            name.spec_bytes(),
            occurrence_index as nat,
        ),
{
    let range = match find_function_range(source, scope) {
        Some(range) => range,
        None => return None,
    };
    let bytes = source.as_bytes();
    let name_len = name.as_bytes().len();
    if name_len == 0 || range.end > bytes.len() {
        return None;
    }
    proof {
        lemma_occurrence_scan_bounds(
            source.spec_bytes(),
            name.spec_bytes(),
            range.start as int,
            range.end as int,
            occurrence_index as nat,
            true,
        );
    }
    match scan_occurrences(source, name, range.start, range.end, occurrence_index, true) {
        Some(p) => source_range_from_byte_range(
            source,
            core::ops::Range { start: p, end: p + name_len },
        ),
        None => None,
    }
}


// ---------------------------------------------------------------------------
// What a found range covers
// ---------------------------------------------------------------------------

/// The range covers exactly the bytes `text` of `b`, at a 1-based line and
/// column.
pub open spec fn range_selects(b: Seq<u8>, r: PassDebugSourceRange, text: Seq<u8>) -> bool {
    &&& r.start_byte <= r.end_byte <= b.len()
    &&& b.subrange(r.start_byte as int, r.end_byte as int) == text
    &&& r.line >= 1
    &&& r.column >= 1
}

proof fn lemma_source_range_of_match(b: Seq<u8>, name: Seq<u8>, p: int)
    requires
        bytes_match_at(b, name, p),
    ensures
        spec_source_range(b, p, p + name.len()) matches Some(r) ==> range_selects(b, r, name),
{
    lemma_line_start_bounds(b, p);
    lemma_count_newlines_le(b, p);
    if let Some(r) = spec_source_range(b, p, p + name.len()) {
        assert(b.subrange(p, p + name.len()) == name);
        assert(1 <= count_newlines(b, p) + 1 <= u32::MAX);
        assert(1 <= p - line_start(b, p) + 1 <= u32::MAX);
    }
}

/// A range found for the occurrence of `name` covers exactly `name`.
pub proof fn lemma_occurrence_range_selects_name(
    b: Seq<u8>,
    name: Seq<u8>,
    lo: int,
    hi: int,
    k: nat,
    store: bool,
)
    ensures
        spec_occurrence_range(b, name, lo, hi, k, store) matches Some(r) ==> range_selects(b, r, name),
{
    lemma_occurrence_scan_bounds(b, name, lo, hi, k, store);
    if let Some(p) = occurrence_scan(b, name, lo, hi, k, store) {
        lemma_source_range_of_match(b, name, p);
    }
}

proof fn lemma_keyword_scan_match(b: Seq<u8>, keyword: Seq<u8>, name: Seq<u8>, pos: int, hi: int)
    ensures
        keyword_scan(b, keyword, name, pos, hi) matches Some(s) ==> bytes_match_at(b, name, s),
    decreases hi - pos,
{
    if keyword.len() == 0 || pos < 0 || pos + keyword.len() > hi || hi > b.len() {
    } else if bytes_match_at(b, keyword, pos) {
        if !keyword_name_at(b, keyword.len() as int, name, pos, hi) {
            lemma_keyword_scan_match(b, keyword, name, pos + keyword.len(), hi);
        }
    } else {
        lemma_keyword_scan_match(b, keyword, name, pos + 1, hi);
    }
}

/// A range found for `name` declared by `keyword` covers exactly `name`.
pub proof fn lemma_keyword_range_selects_name(b: Seq<u8>, lo: int, hi: int, keyword: Seq<u8>, name: Seq<u8>)
    ensures
        spec_keyword_range(b, lo, hi, keyword, name) matches Some(r) ==> range_selects(b, r, name),
{
    lemma_keyword_scan_match(b, keyword, name, lo, hi);
    if let Some(s) = keyword_scan(b, keyword, name, lo, hi) {
        lemma_source_range_of_match(b, name, s);
    }
}

/// A range found for an argument `name` of function `scope` covers exactly
/// `name`.
pub proof fn lemma_argument_range_selects_name(b: Seq<u8>, scope: Seq<u8>, name: Seq<u8>)
    ensures
        spec_argument_range(b, scope, name) matches Some(r) ==> range_selects(b, r, name),
{
    if let Some((start, end)) = spec_function_range(b, scope) {
        let signature_end = match first_byte(b, 123u8, start, end) {
            Some(open) => open,
            None => end,
        };
        lemma_occurrence_range_selects_name(b, name, start, signature_end, 0, false);
    }
}

/// A range found for `name` declared by `keyword` in function `scope` covers
/// exactly `name`.
pub proof fn lemma_keyword_in_scope_selects_name(b: Seq<u8>, scope: Seq<u8>, keyword: Seq<u8>, name: Seq<u8>)
    ensures
        spec_keyword_in_scope(b, scope, keyword, name) matches Some(r) ==> range_selects(b, r, name),
{
    if let Some((start, end)) = spec_function_range(b, scope) {
        lemma_keyword_range_selects_name(b, start, end, keyword, name);
    }
}

} // verus!
