use vstd::prelude::*;
use crate::error::FetchError;
use vstd::slice::slice_subrange;
use vstd::string::StringSliceAdditionalSpecFns;

verus! {

pub open spec fn is_space(b: u8) -> bool {
    b == 32
}

/// ASCII whitespace: space, tab, line feed, vertical tab, form feed, carriage return.
pub open spec fn is_ws(b: u8) -> bool {
    b == 32 || b == 9 || b == 10 || b == 11 || b == 12 || b == 13
}

/// The second byte of the UTF-8 encoding of U+0085 or U+00A0 (after 0xC2).
pub open spec fn is_ws2(b: u8) -> bool {
    b == 0x85 || b == 0xA0
}

/// The UTF-8 encoding of U+1680, U+2000 to U+200A, U+2028, U+2029, U+202F,
/// U+205F or U+3000.
pub open spec fn is_ws3(a: u8, b: u8, c: u8) -> bool {
    (a == 0xE1 && b == 0x9A && c == 0x80)
        || (a == 0xE2 && b == 0x80 && ((0x80 <= c && c <= 0x8A) || c == 0xA8 || c == 0xA9 || c == 0xAF))
        || (a == 0xE2 && b == 0x81 && c == 0x9F)
        || (a == 0xE3 && b == 0x80 && c == 0x80)
}

/// Length of the encoded Unicode whitespace character that starts at `i`,
/// or 0 if none does.
pub open spec fn ws_len_at(s: Seq<u8>, i: int) -> int {
    if 0 <= i < s.len() && is_ws(s[i]) {
        1
    } else if 0 <= i && i + 2 <= s.len() && s[i] == 0xC2 && is_ws2(s[i + 1]) {
        2
    } else if 0 <= i && i + 3 <= s.len() && is_ws3(s[i], s[i + 1], s[i + 2]) {
        3
    } else {
        0
    }
}

/// Length of the encoded Unicode whitespace character that ends just before
/// `j`, or 0 if none does.
pub open spec fn ws_len_before(s: Seq<u8>, j: int) -> int {
    if 1 <= j <= s.len() && is_ws(s[j - 1]) {
        1
    } else if 2 <= j <= s.len() && s[j - 2] == 0xC2 && is_ws2(s[j - 1]) {
        2
    } else if 3 <= j <= s.len() && is_ws3(s[j - 3], s[j - 2], s[j - 1]) {
        3
    } else {
        0
    }
}

/// End of `s[..j]` once trailing whitespace is dropped.
pub open spec fn trim_hi(s: Seq<u8>, j: int) -> int
    decreases j,
{
    if j > 0 && ws_len_before(s, j) > 0 {
        trim_hi(s, j - ws_len_before(s, j))
    } else {
        j
    }
}

/// Start of `s[i..hi]` once leading whitespace is dropped.
pub open spec fn trim_lo(s: Seq<u8>, i: int, hi: int) -> int
    decreases hi - i,
{
    if 0 <= i < hi && hi <= s.len() && ws_len_at(s, i) > 0 && i + ws_len_at(s, i) <= hi {
        trim_lo(s, i + ws_len_at(s, i), hi)
    } else {
        i
    }
}

/// `s` without leading and trailing whitespace, ASCII or encoded Unicode
/// whitespace alike.
pub open spec fn trim(s: Seq<u8>) -> Seq<u8> {
    let hi = trim_hi(s, s.len() as int);
    s.subrange(trim_lo(s, 0, hi), hi)
}

/// Index of the first space at or after `i`, or the length if there is none.
pub open spec fn scan_space(s: Seq<u8>, i: int) -> int
    decreases s.len() - i,
{
    if i < 0 || i >= s.len() {
        s.len() as int
    } else if is_space(s[i]) {
        i
    } else {
        scan_space(s, i + 1)
    }
}

pub open spec fn version_prefix() -> Seq<u8> {
    seq![72u8, 84u8, 84u8, 80u8, 47u8]
}

/// The field starts with the protocol-version prefix `HTTP/`.
pub open spec fn has_version_prefix(field: Seq<u8>) -> bool {
    field.len() >= 5 && field.subrange(0, 5) == version_prefix()
}

pub open spec fn is_digit(b: u8) -> bool {
    48 <= b <= 57
}

pub open spec fn digits_value(d: Seq<u8>) -> nat
    decreases d.len(),
{
    if d.len() == 0 {
        0
    } else {
        digits_value(d.drop_last()) * 10 + (d.last() - 48) as nat
    }
}

/// The digits of an unsigned number: one optional leading `+` is dropped.
pub open spec fn unsigned_digits(f: Seq<u8>) -> Seq<u8> {
    if f.len() > 0 && f[0] == 43u8 {
        f.drop_first()
    } else {
        f
    }
}

/// An unsigned decimal number no greater than `max`: an optional `+`, then
/// one or more decimal digits.
pub open spec fn unsigned_spec(f: Seq<u8>, max: nat) -> Option<nat> {
    let d = unsigned_digits(f);
    if d.len() > 0 && (forall|i: int| 0 <= i < d.len() ==> is_digit(#[trigger] d[i]))
        && digits_value(d) <= max {
        Some(digits_value(d))
    } else {
        None
    }
}

/// A status code field: an unsigned number of at most 65535.
pub open spec fn code_spec(f: Seq<u8>) -> Option<u16> {
    match unsigned_spec(f, 65535) {
        Some(v) => Some(v as u16),
        None => None,
    }
}

/// The status line grammar: after trimming, the line splits at its first two
/// spaces into a version, a code and an optional reason; the version must
/// start with `HTTP/` and the code must be a valid status code.
pub open spec fn status_spec(s: Seq<u8>) -> Result<u16, FetchError> {
    let t = trim(s);
    let a = scan_space(t, 0);
    if a == t.len() {
        Err(FetchError::MalformedStatusLine)
    } else if !has_version_prefix(t.subrange(0, a)) {
        Err(FetchError::MalformedStatusLine)
    } else {
        match code_spec(t.subrange(a + 1, scan_space(t, a + 1))) {
            Some(c) => Ok(c),
            None => Err(FetchError::InvalidStatusCode),
        }
    }
}

proof fn lemma_scan_space_bounds(s: Seq<u8>, i: int)
    requires
        0 <= i,
    ensures
        i <= scan_space(s, i) <= s.len() || (i > s.len() && scan_space(s, i) == s.len()),
    decreases s.len() - i,
{
    if i < s.len() && !is_space(s[i]) {
        lemma_scan_space_bounds(s, i + 1);
    }
}

pub open spec fn all_ws(w: Seq<u8>) -> bool {
    forall|i: int| 0 <= i < w.len() ==> is_ws(#[trigger] w[i])
}

proof fn lemma_trim_hi_bounds(s: Seq<u8>, j: int)
    requires
        0 <= j <= s.len(),
    ensures
        0 <= trim_hi(s, j) <= j,
    decreases j,
{
    if j > 0 && ws_len_before(s, j) > 0 {
        lemma_trim_hi_bounds(s, j - ws_len_before(s, j));
    }
}

proof fn lemma_trim_lo_bounds(s: Seq<u8>, i: int, hi: int)
    requires
        0 <= i <= hi <= s.len(),
    ensures
        i <= trim_lo(s, i, hi) <= hi,
    decreases hi - i,
{
    if i < hi && ws_len_at(s, i) > 0 && i + ws_len_at(s, i) <= hi {
        lemma_trim_lo_bounds(s, i + ws_len_at(s, i), hi);
    }
}

/// `trim_hi` at `j` reads nothing at or beyond `j`.
proof fn lemma_trim_hi_prefix(x: Seq<u8>, w: Seq<u8>, j: int)
    requires
        0 <= j <= x.len(),
    ensures
        trim_hi(x + w, j) == trim_hi(x, j),
    decreases j,
{
    let z = x + w;
    if j >= 1 {
        assert(z[j - 1] == x[j - 1]);
    }
    if j >= 2 {
        assert(z[j - 2] == x[j - 2]);
    }
    if j >= 3 {
        assert(z[j - 3] == x[j - 3]);
    }
    assert(ws_len_before(z, j) == ws_len_before(x, j));
    if j > 0 && ws_len_before(x, j) > 0 {
        lemma_trim_hi_prefix(x, w, j - ws_len_before(x, j));
    }
}

proof fn lemma_trim_hi_trailing(x: Seq<u8>, w: Seq<u8>, m: int)
    requires
        all_ws(w),
        0 <= m <= w.len(),
    ensures
        trim_hi(x + w, x.len() + m) == trim_hi(x, x.len() as int),
    decreases m,
{
    if m > 0 {
        assert((x + w)[x.len() + m - 1] == w[m - 1]);
        assert(is_ws(w[m - 1]));
        lemma_trim_hi_trailing(x, w, m - 1);
    } else {
        lemma_trim_hi_prefix(x, w, x.len() as int);
    }
}

proof fn lemma_trim_hi_all_ws(w: Seq<u8>, m: int)
    requires
        all_ws(w),
        0 <= m <= w.len(),
    ensures
        trim_hi(w, m) == 0,
    decreases m,
{
    if m > 0 {
        assert(is_ws(w[m - 1]));
        lemma_trim_hi_all_ws(w, m - 1);
    }
}

proof fn lemma_trim_hi_leading(w: Seq<u8>, s: Seq<u8>, j: int)
    requires
        all_ws(w),
        0 <= j <= s.len(),
    ensures
        trim_hi(w + s, w.len() + j) == (if trim_hi(s, j) == 0 {
            0
        } else {
            w.len() + trim_hi(s, j)
        }),
    decreases j,
{
    let z = w + s;
    let n = w.len() as int;
    if j == 0 {
        lemma_trim_hi_prefix(w, s, n);
        lemma_trim_hi_all_ws(w, n);
    } else {
        assert(z[n + j - 1] == s[j - 1]);
        if j >= 2 {
            assert(z[n + j - 2] == s[j - 2]);
        } else if n >= 1 {
            assert(z[n - 1] == w[n - 1] && is_ws(w[n - 1]));
        }
        if j >= 3 {
            assert(z[n + j - 3] == s[j - 3]);
        } else if n + j >= 3 {
            assert(z[n + j - 3] == w[n + j - 3] && is_ws(w[n + j - 3]));
        }
        assert(ws_len_before(z, n + j) == ws_len_before(s, j));
        if ws_len_before(s, j) > 0 {
            lemma_trim_hi_leading(w, s, j - ws_len_before(s, j));
        }
    }
}

proof fn lemma_trim_lo_leading(w: Seq<u8>, t: Seq<u8>, i: int, hi: int)
    requires
        all_ws(w),
        0 <= i <= w.len(),
        0 < hi <= t.len(),
    ensures
        trim_lo(w + t, i, w.len() + hi) == trim_lo(w + t, w.len() as int, w.len() + hi),
    decreases w.len() - i,
{
    if i < w.len() {
        assert((w + t)[i] == w[i] && is_ws(w[i]));
        lemma_trim_lo_leading(w, t, i + 1, hi);
    }
}

proof fn lemma_trim_lo_shift(w1: Seq<u8>, s: Seq<u8>, w2: Seq<u8>, i: int, hi: int)
    requires
        all_ws(w1),
        all_ws(w2),
        0 <= i <= hi <= s.len(),
    ensures
        trim_lo(w1 + s + w2, w1.len() + i, w1.len() + hi) == w1.len() + trim_lo(s, i, hi),
    decreases hi - i,
{
    let z = w1 + s + w2;
    let n = w1.len() as int;
    if i < hi {
        assert(z[n + i] == s[i]);
        if i + 1 < s.len() {
            assert(z[n + i + 1] == s[i + 1]);
        } else if w2.len() >= 1 {
            assert(z[n + i + 1] == w2[0] && is_ws(w2[0]));
        }
        if i + 2 < s.len() {
            assert(z[n + i + 2] == s[i + 2]);
        } else if i + 2 - s.len() < w2.len() {
            assert(z[n + i + 2] == w2[i + 2 - s.len()] && is_ws(w2[i + 2 - s.len()]));
        }
        assert(ws_len_at(z, n + i) == ws_len_at(s, i));
        if ws_len_at(s, i) > 0 && i + ws_len_at(s, i) <= hi {
            lemma_trim_lo_shift(w1, s, w2, i + ws_len_at(s, i), hi);
        }
    }
}

/// Surrounding a status line with ASCII whitespace does not change how it
/// parses.
pub proof fn lemma_status_padding(w1: Seq<u8>, s: Seq<u8>, w2: Seq<u8>)
    requires
        all_ws(w1),
        all_ws(w2),
    ensures
        status_spec(w1 + s + w2) == status_spec(s),
{
    let z = w1 + s + w2;
    let x = w1 + s;
    let n = w1.len() as int;
    let h = trim_hi(s, s.len() as int);
    lemma_trim_hi_bounds(s, s.len() as int);
    lemma_trim_hi_trailing(x, w2, w2.len() as int);
    lemma_trim_hi_leading(w1, s, s.len() as int);
    assert(z.len() == x.len() + w2.len());
    if h == 0 {
        assert(trim(z) =~= Seq::<u8>::empty());
        assert(trim(s) =~= Seq::<u8>::empty());
    } else {
        assert(z =~= w1 + (s + w2));
        lemma_trim_lo_leading(w1, s + w2, 0, h);
        lemma_trim_lo_shift(w1, s, w2, 0, h);
        lemma_trim_lo_bounds(s, 0, h);
        assert(trim(z) =~= trim(s));
    }
}

fn is_ws_byte(b: u8) -> (r: bool)
    ensures
        r == is_ws(b),
{
    b == 32 || b == 9 || b == 10 || b == 11 || b == 12 || b == 13
}

fn is_ws3_bytes(a: u8, b: u8, c: u8) -> (r: bool)
    ensures
        r == is_ws3(a, b, c),
{
    (a == 0xE1 && b == 0x9A && c == 0x80)
        || (a == 0xE2 && b == 0x80 && ((0x80 <= c && c <= 0x8A) || c == 0xA8 || c == 0xA9 || c == 0xAF))
        || (a == 0xE2 && b == 0x81 && c == 0x9F)
        || (a == 0xE3 && b == 0x80 && c == 0x80)
}

fn ws_at(s: &[u8], i: usize) -> (r: usize)
    requires
        i <= s@.len(),
    ensures
        r == ws_len_at(s@, i as int),
{
    let n = s.len();
    if i < n && is_ws_byte(s[i]) {
        1
    } else if 2 <= n - i && s[i] == 0xC2 && (s[i + 1] == 0x85 || s[i + 1] == 0xA0) {
        2
    } else if 3 <= n - i && is_ws3_bytes(s[i], s[i + 1], s[i + 2]) {
        3
    } else {
        0
    }
}

fn ws_before(s: &[u8], j: usize) -> (r: usize)
    requires
        j <= s@.len(),
    ensures
        r == ws_len_before(s@, j as int),
{
    if 1 <= j && is_ws_byte(s[j - 1]) {
        1
    } else if 2 <= j && s[j - 2] == 0xC2 && (s[j - 1] == 0x85 || s[j - 1] == 0xA0) {
        2
    } else if 3 <= j && is_ws3_bytes(s[j - 3], s[j - 2], s[j - 1]) {
        3
    } else {
        0
    }
}

/// Index of the first space at or after `i`, or the length if there is none.
fn find_space(s: &[u8], i: usize) -> (r: usize)
    requires
        i <= s@.len(),
    ensures
        r == scan_space(s@, i as int),
{
    let mut k = i;
    while k < s.len() && s[k] != 32
        invariant
            i <= k <= s@.len(),
            scan_space(s@, k as int) == scan_space(s@, i as int),
        decreases s@.len() - k,
    {
        k = k + 1;
    }
    k
}

/// Parses an unsigned number of at most `max` from `s[lo..hi]`.
pub(crate) fn parse_unsigned(s: &[u8], lo: usize, hi: usize, max: u64) -> (r: Option<u64>)
    requires
        lo <= hi <= s@.len(),
    ensures
        r == (match unsigned_spec(s@.subrange(lo as int, hi as int), max as nat) {
            Some(v) => Some(v as u64),
            None => None::<u64>,
        }),
{
    let ghost f = s@.subrange(lo as int, hi as int);
    let start: usize = if lo < hi && s[lo] == 43 {
        lo + 1
    } else {
        lo
    };
    let ghost d = unsigned_digits(f);
    assert(d =~= s@.subrange(start as int, hi as int));
    if start == hi {
        return None;
    }
    let mut acc: u64 = 0;
    let mut over = false;
    let mut i = start;
    while i < hi
        invariant
            start <= i <= hi <= s@.len(),
            d == s@.subrange(start as int, hi as int),
            d == unsigned_digits(s@.subrange(lo as int, hi as int)),
            d.len() > 0,
            forall|j: int| start <= j < i ==> is_digit(#[trigger] s@[j]),
            over == (digits_value(s@.subrange(start as int, i as int)) > max),
            !over ==> acc == digits_value(s@.subrange(start as int, i as int)),
        decreases hi - i,
    {
        let b = s[i];
        if b < 48 || b > 57 {
            assert(!is_digit(d[i - start]));
            return None;
        }
        let ghost v = digits_value(s@.subrange(start as int, i as int));
        let dg = (b - 48) as u64;
        proof {
            let w = s@.subrange(start as int, i as int + 1);
            assert(w.drop_last() =~= s@.subrange(start as int, i as int));
            assert(digits_value(w) == v * 10 + dg as nat);
            assert(v * 10 >= v) by (nonlinear_arith);
        }
        if !over {
            if dg > max || acc > (max - dg) / 10 {
                assert(acc * 10 + dg > max) by (nonlinear_arith)
                    requires dg > max || acc > (max - dg) / 10, dg <= 9, acc >= 0;
                over = true;
            } else {
                assert(acc * 10 + dg <= max) by (nonlinear_arith)
                    requires acc <= (max - dg) / 10, dg <= max;
                acc = acc * 10 + dg;
            }
        }
        i = i + 1;
    }
    assert forall|j: int| 0 <= j < d.len() implies is_digit(#[trigger] d[j]) by {
        assert(d[j] == s@[start + j]);
    }
    if over {
        None
    } else {
        Some(acc)
    }
}

/// Parses a status line given as bytes; the result is exactly `status_spec`.
pub fn parse_status_bytes(s: &[u8]) -> (r: Result<u16, FetchError>)
    ensures
        r == status_spec(s@),
{
    let mut hi = s.len();
    loop
        invariant
            hi <= s@.len(),
            trim_hi(s@, hi as int) == trim_hi(s@, s@.len() as int),
        ensures
            hi == trim_hi(s@, s@.len() as int),
        decreases hi,
    {
        if hi == 0 {
            break;
        }
        let l = ws_before(s, hi);
        if l == 0 {
            break;
        }
        hi = hi - l;
    }
    let mut lo: usize = 0;
    loop
        invariant
            lo <= hi <= s@.len(),
            trim_lo(s@, lo as int, hi as int) == trim_lo(s@, 0, hi as int),
        ensures
            lo == trim_lo(s@, 0, hi as int),
        decreases hi - lo,
    {
        if lo >= hi {
            break;
        }
        let l = ws_at(s, lo);
        if l == 0 || l > hi - lo {
            break;
        }
        lo = lo + l;
    }
    let t = slice_subrange(s, lo, hi);
    assert(t@ == trim(s@));
    let a = find_space(t, 0);
    if a == t.len() {
        return Err(FetchError::MalformedStatusLine);
    }
    proof {
        lemma_scan_space_bounds(t@, 0);
    }
    if a < 5 || t[0] != 72 || t[1] != 84 || t[2] != 84 || t[3] != 80 || t[4] != 47 {
        proof {
            if a >= 5 {
                let v = t@.subrange(0, a as int).subrange(0, 5);
                assert(v[0] == t@[0] && v[1] == t@[1] && v[2] == t@[2] && v[3] == t@[3] && v[4] == t@[4]);
                assert(version_prefix()[0] == 72u8);
                assert(version_prefix()[4] == 47u8);
            }
        }
        return Err(FetchError::MalformedStatusLine);
    }
    assert(t@.subrange(0, a as int).subrange(0, 5) =~= version_prefix());
    let b = find_space(t, a + 1);
    proof {
        lemma_scan_space_bounds(t@, a as int + 1);
    }
    match parse_unsigned(t, a + 1, b, 65535) {
        Some(c) => Ok(c as u16),
        None => Err(FetchError::InvalidStatusCode),
    }
}

/// Parses a status line such as `HTTP/1.1 206 Partial Content` into its
/// status code.
pub fn parse_status_line(line: &str) -> (r: Result<u16, FetchError>)
    ensures
        r == status_spec(line.spec_bytes()),
{
    parse_status_bytes(line.as_bytes())
}

} // verus!
