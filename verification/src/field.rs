//! Fixed-width field extraction: trimming, integer coercion with the
//! hexadecimal fallback for oversized atom serials, single-character fields,
//! and whitespace-separated token lists.

use vstd::prelude::*;
use crate::is_space;

verus! {

// ---------------------------------------------------------------------------
// Byte classification
// ---------------------------------------------------------------------------

pub open spec fn is_digit(b: u8) -> bool {
    0x30 <= b <= 0x39
}

pub open spec fn digit_val(b: u8) -> nat {
    (b - 0x30) as nat
}

pub open spec fn is_hex_digit(b: u8) -> bool {
    is_digit(b) || (0x41 <= b <= 0x46) || (0x61 <= b <= 0x66)
}

pub open spec fn hex_digit_val(b: u8) -> nat {
    if is_digit(b) {
        (b - 0x30) as nat
    } else if 0x41 <= b <= 0x46 {
        (b - 0x37) as nat
    } else {
        (b - 0x57) as nat
    }
}

pub open spec fn is_alpha(b: u8) -> bool {
    (0x41 <= b <= 0x5a) || (0x61 <= b <= 0x7a)
}

pub open spec fn has_alpha(s: Seq<u8>) -> bool {
    exists|i: int| 0 <= i < s.len() && is_alpha(s[i])
}

pub open spec fn all_digits(s: Seq<u8>) -> bool {
    forall|i: int| 0 <= i < s.len() ==> is_digit(s[i])
}

pub open spec fn all_hex_digits(s: Seq<u8>) -> bool {
    forall|i: int| 0 <= i < s.len() ==> is_hex_digit(s[i])
}

/// Numeric value of a run of decimal digits, most significant first.
pub open spec fn digits_val(s: Seq<u8>) -> nat
    decreases s.len(),
{
    if s.len() == 0 {
        0
    } else {
        digits_val(s.drop_last()) * 10 + digit_val(s.last())
    }
}

/// Numeric value of a run of hexadecimal digits, most significant first.
pub open spec fn hex_val(s: Seq<u8>) -> nat
    decreases s.len(),
{
    if s.len() == 0 {
        0
    } else {
        hex_val(s.drop_last()) * 16 + hex_digit_val(s.last())
    }
}

// ---------------------------------------------------------------------------
// Trimming
// ---------------------------------------------------------------------------

pub open spec fn trim_front(s: Seq<u8>) -> Seq<u8>
    decreases s.len(),
{
    if s.len() > 0 && is_space(s[0]) {
        trim_front(s.drop_first())
    } else {
        s
    }
}

pub open spec fn trim_back(s: Seq<u8>) -> Seq<u8>
    decreases s.len(),
{
    if s.len() > 0 && is_space(s.last()) {
        trim_back(s.drop_last())
    } else {
        s
    }
}

/// The field bytes with surrounding whitespace removed.
pub open spec fn trim(s: Seq<u8>) -> Seq<u8> {
    trim_back(trim_front(s))
}

/// The trimmed sub-field of `s` at byte range `[lo, hi)`.
pub open spec fn field(s: Seq<u8>, lo: int, hi: int) -> Seq<u8> {
    trim(s.subrange(lo, hi))
}

/// Narrow `[lo, hi)` to the trimmed extent of the field it delimits.
pub fn trim_range(line: &[u8], lo: usize, hi: usize) -> (r: (usize, usize))
    requires
        lo <= hi <= line@.len(),
    ensures
        lo <= r.0 <= r.1 <= hi,
        line@.subrange(r.0 as int, r.1 as int) == field(line@, lo as int, hi as int),
{
    let mut i: usize = lo;
    while i < hi && byte_is_space_at(line, i)
        invariant
            lo <= i <= hi <= line@.len(),
            trim_front(line@.subrange(lo as int, hi as int)) == trim_front(
                line@.subrange(i as int, hi as int),
            ),
        decreases hi - i,
    {
        proof {
            assert(line@.subrange(i as int, hi as int).drop_first() =~= line@.subrange(
                i + 1,
                hi as int,
            ));
        }
        i = i + 1;
    }
    proof {
        assert(trim_front(line@.subrange(lo as int, hi as int)) == line@.subrange(
            i as int,
            hi as int,
        ));
    }
    let mut j: usize = hi;
    while j > i && byte_is_space_at(line, j - 1)
        invariant
            lo <= i <= j <= hi <= line@.len(),
            trim_front(line@.subrange(lo as int, hi as int)) == line@.subrange(i as int, hi as int),
            trim_back(line@.subrange(i as int, hi as int)) == trim_back(
                line@.subrange(i as int, j as int),
            ),
        decreases j,
    {
        proof {
            assert(line@.subrange(i as int, j as int).drop_last() =~= line@.subrange(
                i as int,
                j - 1,
            ));
        }
        j = j - 1;
    }
    (i, j)
}

fn byte_is_space_at(line: &[u8], i: usize) -> (r: bool)
    requires
        i < line@.len(),
    ensures
        r == is_space(line@[i as int]),
{
    let b: u8 = line[i];
    b == 0x20 || b == 0x09 || b == 0x0a || b == 0x0b || b == 0x0c || b == 0x0d
}

/// Owned copy of the trimmed field at `[lo, hi)`.
pub fn trimmed_bytes(line: &[u8], lo: usize, hi: usize) -> (r: Vec<u8>)
    requires
        lo <= hi <= line@.len(),
    ensures
        r@ == field(line@, lo as int, hi as int),
{
    let (a, b) = trim_range(line, lo, hi);
    vstd::slice::slice_to_vec(vstd::slice::slice_subrange(line, a, b))
}

// ---------------------------------------------------------------------------
// Digit accumulation
// ---------------------------------------------------------------------------

proof fn lemma_digits_val_take(s: Seq<u8>, k: int)
    requires
        0 <= k <= s.len(),
    ensures
        digits_val(s.take(k)) <= digits_val(s),
    decreases s.len(),
{
    if k < s.len() {
        assert(s.drop_last().take(k) =~= s.take(k));
        lemma_digits_val_take(s.drop_last(), k);
    } else {
        assert(s.take(k) =~= s);
    }
}

proof fn lemma_hex_val_take(s: Seq<u8>, k: int)
    requires
        0 <= k <= s.len(),
    ensures
        hex_val(s.take(k)) <= hex_val(s),
    decreases s.len(),
{
    if k < s.len() {
        assert(s.drop_last().take(k) =~= s.take(k));
        lemma_hex_val_take(s.drop_last(), k);
    } else {
        assert(s.take(k) =~= s);
    }
}

/// Decimal value of the digits in `[lo, hi)`, or `None` when the range is
/// empty, holds a non-digit, or the value exceeds `cap`.
pub(crate) fn digits_value(line: &[u8], lo: usize, hi: usize, cap: u64) -> (r: Option<u64>)
    requires
        lo <= hi <= line@.len(),
        cap <= 1_000_000_000_000_000_000u64,
    ensures
        ({
            let t = line@.subrange(lo as int, hi as int);
            &&& (r is Some <==> t.len() > 0 && all_digits(t) && digits_val(t) <= cap)
            &&& (r is Some ==> r->0 == digits_val(t))
        }),
{
    let ghost t = line@.subrange(lo as int, hi as int);
    if lo == hi {
        return None;
    }
    let mut acc: u64 = 0;
    let mut k: usize = lo;
    while k < hi
        invariant
            lo <= k <= hi <= line@.len(),
            cap <= 1_000_000_000_000_000_000u64,
            t == line@.subrange(lo as int, hi as int),
            all_digits(t.take(k - lo)),
            acc == digits_val(t.take(k - lo)),
            acc <= cap,
        decreases hi - k,
    {
        let b: u8 = line[k];
        proof {
            assert(t[k - lo] == b);
            assert(t.take(k - lo + 1).drop_last() =~= t.take(k - lo));
        }
        if !(0x30 <= b && b <= 0x39) {
            return None;
        }
        let d: u64 = (b - 0x30) as u64;
        let next: u64 = acc * 10 + d;
        proof {
            assert(digits_val(t.take(k - lo + 1)) == acc * 10 + digit_val(b));
        }
        if next > cap {
            proof {
                lemma_digits_val_take(t, k - lo + 1);
            }
            return None;
        }
        acc = next;
        k = k + 1;
    }
    proof {
        assert(t.take(hi - lo) =~= t);
    }
    Some(acc)
}

/// Hexadecimal value of the digits in `[lo, hi)`, with the same failure
/// conditions as `digits_value`.
fn hex_digits_value(line: &[u8], lo: usize, hi: usize, cap: u64) -> (r: Option<u64>)
    requires
        lo <= hi <= line@.len(),
        cap <= 1_000_000_000_000_000_000u64,
    ensures
        ({
            let t = line@.subrange(lo as int, hi as int);
            &&& (r is Some <==> t.len() > 0 && all_hex_digits(t) && hex_val(t) <= cap)
            &&& (r is Some ==> r->0 == hex_val(t))
        }),
{
    let ghost t = line@.subrange(lo as int, hi as int);
    if lo == hi {
        return None;
    }
    let mut acc: u64 = 0;
    let mut k: usize = lo;
    while k < hi
        invariant
            lo <= k <= hi <= line@.len(),
            cap <= 1_000_000_000_000_000_000u64,
            t == line@.subrange(lo as int, hi as int),
            all_hex_digits(t.take(k - lo)),
            acc == hex_val(t.take(k - lo)),
            acc <= cap,
        decreases hi - k,
    {
        let b: u8 = line[k];
        proof {
            assert(t[k - lo] == b);
            assert(t.take(k - lo + 1).drop_last() =~= t.take(k - lo));
        }
        let d: u64 = if 0x30 <= b && b <= 0x39 {
            (b - 0x30) as u64
        } else if 0x41 <= b && b <= 0x46 {
            (b - 0x37) as u64
        } else if 0x61 <= b && b <= 0x66 {
            (b - 0x57) as u64
        } else {
            return None;
        };
        proof {
            assert(d == hex_digit_val(b));
        }
        let next: u64 = acc * 16 + d;
        proof {
            assert(hex_val(t.take(k - lo + 1)) == acc * 16 + hex_digit_val(b));
        }
        if next > cap {
            proof {
                lemma_hex_val_take(t, k - lo + 1);
            }
            return None;
        }
        acc = next;
        k = k + 1;
    }
    proof {
        assert(t.take(hi - lo) =~= t);
    }
    Some(acc)
}

proof fn lemma_trim_front_len(s: Seq<u8>)
    ensures
        trim_front(s).len() <= s.len(),
    decreases s.len(),
{
    if s.len() > 0 && is_space(s[0]) {
        lemma_trim_front_len(s.drop_first());
    }
}

proof fn lemma_trim_back_len(s: Seq<u8>)
    ensures
        trim_back(s).len() <= s.len(),
    decreases s.len(),
{
    if s.len() > 0 && is_space(s.last()) {
        lemma_trim_back_len(s.drop_last());
    }
}

/// Trimming a field never lengthens it.
pub proof fn lemma_trim_len(s: Seq<u8>)
    ensures
        trim(s).len() <= s.len(),
{
    lemma_trim_front_len(s);
    lemma_trim_back_len(trim_front(s));
}

proof fn lemma_digits_val_width(s: Seq<u8>)
    requires
        all_digits(s),
    ensures
        digits_val(s) < vstd::arithmetic::power::pow(10, s.len()),
    decreases s.len(),
{
    reveal(vstd::arithmetic::power::pow);
    if s.len() == 0 {
    } else {
        assert(all_digits(s.drop_last())) by {
            assert(forall|i: int| 0 <= i < s.len() - 1 ==> s.drop_last()[i] == s[i]);
        }
        lemma_digits_val_width(s.drop_last());
        let prev = digits_val(s.drop_last());
        let p = vstd::arithmetic::power::pow(10, (s.len() - 1) as nat);
        assert(vstd::arithmetic::power::pow(10, s.len()) == 10 * p);
        assert(digit_val(s.last()) <= 9);
        assert(prev * 10 + 9 < p * 10) by (nonlinear_arith)
            requires
                prev < p,
        ;
        assert(digits_val(s) == prev * 10 + digit_val(s.last()));
    }
}

proof fn lemma_hex_val_width(s: Seq<u8>)
    requires
        all_hex_digits(s),
    ensures
        hex_val(s) < vstd::arithmetic::power::pow(16, s.len()),
    decreases s.len(),
{
    reveal(vstd::arithmetic::power::pow);
    if s.len() == 0 {
    } else {
        assert(all_hex_digits(s.drop_last())) by {
            assert(forall|i: int| 0 <= i < s.len() - 1 ==> s.drop_last()[i] == s[i]);
        }
        lemma_hex_val_width(s.drop_last());
        let prev = hex_val(s.drop_last());
        let p = vstd::arithmetic::power::pow(16, (s.len() - 1) as nat);
        assert(vstd::arithmetic::power::pow(16, s.len()) == 16 * p);
        assert(hex_digit_val(s.last()) <= 15);
        assert(prev * 16 + 15 < p * 16) by (nonlinear_arith)
            requires
                prev < p,
        ;
        assert(hex_val(s) == prev * 16 + hex_digit_val(s.last()));
    }
}

/// A serial field of at most five bytes decodes to at most five hexadecimal
/// digits' worth of value.
pub proof fn lemma_serial_field_bound(t: Seq<u8>)
    requires
        t.len() <= 5,
    ensures
        serial_field(t) <= 0xfffff,
{
    assert(vstd::arithmetic::power::pow(16, 5) == 0x100000) by {
        reveal_with_fuel(vstd::arithmetic::power::pow, 6);
    }
    assert(vstd::arithmetic::power::pow(10, 5) == 100000) by {
        reveal_with_fuel(vstd::arithmetic::power::pow, 6);
    }
    let u = if t.len() > 0 && t[0] == 0x2b {
        t.drop_first()
    } else {
        t
    };
    if has_alpha(t) {
        if u.len() > 0 && all_hex_digits(u) && hex_val(u) <= u32::MAX {
            lemma_hex_val_width(u);
            vstd::arithmetic::power::lemma_pow_increases(16, u.len(), 5);
        }
    } else {
        if u.len() > 0 && all_digits(u) && digits_val(u) <= u32::MAX {
            lemma_digits_val_width(u);
            vstd::arithmetic::power::lemma_pow_increases(10, u.len(), 5);
        }
    }
}

// ---------------------------------------------------------------------------
// Integer fields
// ---------------------------------------------------------------------------

/// Unsigned decimal coercion of a trimmed field: an optional leading `+`,
/// then one or more digits whose value fits in `u32`.
pub open spec fn u32_field(t: Seq<u8>) -> Option<u32> {
    let u = if t.len() > 0 && t[0] == 0x2b {
        t.drop_first()
    } else {
        t
    };
    if u.len() > 0 && all_digits(u) && digits_val(u) <= u32::MAX {
        Some(digits_val(u) as u32)
    } else {
        None
    }
}

/// The unsigned coercion with failure defaulting to zero.
pub open spec fn u32_or_zero(t: Seq<u8>) -> u32 {
    match u32_field(t) {
        Some(v) => v,
        None => 0,
    }
}

/// Signed decimal coercion of a trimmed field: an optional sign, then one or
/// more digits whose value fits in `i32`.
pub open spec fn i32_field(t: Seq<u8>) -> Option<i32> {
    if t.len() > 0 && t[0] == 0x2d {
        let u = t.drop_first();
        if u.len() > 0 && all_digits(u) && digits_val(u) <= 0x8000_0000 {
            Some((0 - digits_val(u)) as i32)
        } else {
            None
        }
    } else {
        let u = if t.len() > 0 && t[0] == 0x2b {
            t.drop_first()
        } else {
            t
        };
        if u.len() > 0 && all_digits(u) && digits_val(u) <= i32::MAX {
            Some(digits_val(u) as i32)
        } else {
            None
        }
    }
}

/// Hexadecimal coercion of a trimmed field: an optional leading `+`, then one
/// or more hex digits whose value fits in `u32`.
pub open spec fn hex_u32_field(t: Seq<u8>) -> Option<u32> {
    let u = if t.len() > 0 && t[0] == 0x2b {
        t.drop_first()
    } else {
        t
    };
    if u.len() > 0 && all_hex_digits(u) && hex_val(u) <= u32::MAX {
        Some(hex_val(u) as u32)
    } else {
        None
    }
}

/// An atom serial field: decimal unless the raw field holds a letter, in
/// which case base 16 handles serials past the decimal field width; absent
/// when the field parses as neither.
pub open spec fn serial_opt(t: Seq<u8>) -> Option<u32> {
    if has_alpha(t) {
        hex_u32_field(t)
    } else {
        u32_field(t)
    }
}

/// An atom serial field with failure defaulting to zero, which marks the
/// atom for reassignment by the normalizer.
pub open spec fn serial_field(t: Seq<u8>) -> u32 {
    match serial_opt(t) {
        Some(v) => v,
        None => 0,
    }
}

/// Parse the field at `[lo, hi)` as unsigned decimal.
pub fn parse_u32_field(line: &[u8], lo: usize, hi: usize) -> (r: Option<u32>)
    requires
        lo <= hi <= line@.len(),
    ensures
        r == u32_field(field(line@, lo as int, hi as int)),
{
    let (a, b) = trim_range(line, lo, hi);
    let ghost t = field(line@, lo as int, hi as int);
    let start: usize = if a < b && line[a] == 0x2b {
        a + 1
    } else {
        a
    };
    proof {
        if a < b && t[0] == 0x2b {
            assert(t.drop_first() =~= line@.subrange(a + 1, b as int));
        }
    }
    match digits_value(line, start, b, 0xffff_ffff) {
        Some(v) => Some(v as u32),
        None => None,
    }
}

/// Parse the field at `[lo, hi)` as unsigned decimal, zero on failure.
pub fn parse_u32_default(line: &[u8], lo: usize, hi: usize) -> (r: u32)
    requires
        lo <= hi <= line@.len(),
    ensures
        r == u32_or_zero(field(line@, lo as int, hi as int)),
{
    match parse_u32_field(line, lo, hi) {
        Some(v) => v,
        None => 0,
    }
}

/// Parse the field at `[lo, hi)` as signed decimal.
pub fn parse_i32_field(line: &[u8], lo: usize, hi: usize) -> (r: Option<i32>)
    requires
        lo <= hi <= line@.len(),
    ensures
        r == i32_field(field(line@, lo as int, hi as int)),
{
    let (a, b) = trim_range(line, lo, hi);
    let ghost t = field(line@, lo as int, hi as int);
    if a < b && line[a] == 0x2d {
        proof {
            assert(t.drop_first() =~= line@.subrange(a + 1, b as int));
        }
        match digits_value(line, a + 1, b, 0x8000_0000) {
            Some(v) => {
                if v == 0x8000_0000 {
                    Some(i32::MIN)
                } else {
                    Some(-(v as i32))
                }
            },
            None => None,
        }
    } else {
        let start: usize = if a < b && line[a] == 0x2b {
            a + 1
        } else {
            a
        };
        proof {
            if a < b && t[0] == 0x2b {
                assert(t.drop_first() =~= line@.subrange(a + 1, b as int));
            }
        }
        match digits_value(line, start, b, 0x7fff_ffff) {
            Some(v) => Some(v as i32),
            None => None,
        }
    }
}

/// Parse the serial field at `[lo, hi)` with the hexadecimal fallback.
pub fn parse_serial_opt_field(line: &[u8], lo: usize, hi: usize) -> (r: Option<u32>)
    requires
        lo <= hi <= line@.len(),
    ensures
        r == serial_opt(field(line@, lo as int, hi as int)),
{
    let (a, b) = trim_range(line, lo, hi);
    let ghost t = field(line@, lo as int, hi as int);
    let mut k: usize = a;
    let mut alpha: bool = false;
    while k < b
        invariant
            a <= k <= b <= line@.len(),
            t == line@.subrange(a as int, b as int),
            alpha == exists|i: int| a <= i < k && is_alpha(line@[i]),
        decreases b - k,
    {
        let c: u8 = line[k];
        if (0x41 <= c && c <= 0x5a) || (0x61 <= c && c <= 0x7a) {
            alpha = true;
        }
        k = k + 1;
    }
    proof {
        assert(alpha == has_alpha(t)) by {
            if alpha {
                let i = choose|i: int| a <= i < b && is_alpha(line@[i]);
                assert(is_alpha(t[i - a]));
            }
            if has_alpha(t) {
                let i = choose|i: int| 0 <= i < t.len() && is_alpha(t[i]);
                assert(line@[a + i] == t[i]);
            }
        }
    }
    if alpha {
        let start: usize = if a < b && line[a] == 0x2b {
            a + 1
        } else {
            a
        };
        proof {
            if a < b && t[0] == 0x2b {
                assert(t.drop_first() =~= line@.subrange(a + 1, b as int));
            }
        }
        match hex_digits_value(line, start, b, 0xffff_ffff) {
            Some(v) => Some(v as u32),
            None => None,
        }
    } else {
        let start: usize = if a < b && line[a] == 0x2b {
            a + 1
        } else {
            a
        };
        proof {
            if a < b && t[0] == 0x2b {
                assert(t.drop_first() =~= line@.subrange(a + 1, b as int));
            }
        }
        match digits_value(line, start, b, 0xffff_ffff) {
            Some(v) => Some(v as u32),
            None => None,
        }
    }
}

/// Parse the serial field at `[lo, hi)` with the hexadecimal fallback, zero
/// on failure.
pub fn parse_serial_field(line: &[u8], lo: usize, hi: usize) -> (r: u32)
    requires
        lo <= hi <= line@.len(),
    ensures
        r == serial_field(field(line@, lo as int, hi as int)),
{
    match parse_serial_opt_field(line, lo, hi) {
        Some(v) => v,
        None => 0,
    }
}

// ---------------------------------------------------------------------------
// Character and text fields
// ---------------------------------------------------------------------------

/// A single-character field: exactly one ASCII byte once trimmed.
pub open spec fn one_char(t: Seq<u8>) -> Option<char> {
    if t.len() == 1 && t[0] < 0x80 {
        Some(t[0] as char)
    } else {
        None
    }
}

/// Parse the field at `[lo, hi)` as a trimmed single character.
pub fn parse_char_field(line: &[u8], lo: usize, hi: usize) -> (r: Option<char>)
    requires
        lo <= hi <= line@.len(),
    ensures
        r == one_char(field(line@, lo as int, hi as int)),
{
    let (a, b) = trim_range(line, lo, hi);
    if b > a && b - a == 1 && line[a] < 0x80 {
        Some(line[a] as char)
    } else {
        None
    }
}

/// The untrimmed character at one byte offset.
pub open spec fn char_at(s: Seq<u8>, i: int) -> Option<char> {
    if s[i] < 0x80 {
        Some(s[i] as char)
    } else {
        None
    }
}

/// Read the ASCII character at byte offset `i`.
pub fn parse_char_at(line: &[u8], i: usize) -> (r: Option<char>)
    requires
        i < line@.len(),
    ensures
        r == char_at(line@, i as int),
{
    if line[i] < 0x80 {
        Some(line[i] as char)
    } else {
        None
    }
}

/// An optional text field: absent when the range runs past the end of the
/// line or the trimmed bytes are empty.
pub open spec fn opt_text(s: Seq<u8>, lo: int, hi: int) -> Option<Seq<u8>> {
    if s.len() < hi {
        None
    } else {
        let t = field(s, lo, hi);
        if t.len() == 0 {
            None
        } else {
            Some(t)
        }
    }
}

pub open spec fn opt_bytes_view(o: Option<Vec<u8>>) -> Option<Seq<u8>> {
    match o {
        Some(v) => Some(v@),
        None => None,
    }
}

/// Parse the optional text field at `[lo, hi)`.
pub fn parse_opt_text(line: &[u8], lo: usize, hi: usize) -> (r: Option<Vec<u8>>)
    requires
        lo <= hi,
    ensures
        opt_bytes_view(r) == opt_text(line@, lo as int, hi as int),
{
    if line.len() < hi {
        None
    } else {
        let v = trimmed_bytes(line, lo, hi);
        if v.len() == 0 {
            None
        } else {
            Some(v)
        }
    }
}

// ---------------------------------------------------------------------------
// Token lists
// ---------------------------------------------------------------------------

/// Index of the first whitespace byte, or the length when there is none.
pub open spec fn first_space(s: Seq<u8>) -> int
    decreases s.len(),
{
    if s.len() == 0 {
        0
    } else if is_space(s[0]) {
        0
    } else {
        1 + first_space(s.drop_first())
    }
}

proof fn lemma_first_space(s: Seq<u8>)
    ensures
        0 <= first_space(s) <= s.len(),
        forall|i: int| 0 <= i < first_space(s) ==> !is_space(s[i]),
        first_space(s) < s.len() ==> is_space(s[first_space(s)]),
    decreases s.len(),
{
    if s.len() > 0 && !is_space(s[0]) {
        lemma_first_space(s.drop_first());
        assert forall|i: int| 0 <= i < first_space(s) implies !is_space(s[i]) by {
            if i >= 1 {
                assert(s.drop_first()[i - 1] == s[i]);
            }
        }
    }
}

/// The whitespace-separated tokens of `s`, in order, no de-duplication.
pub open spec fn tokens(s: Seq<u8>) -> Seq<Seq<u8>>
    decreases s.len(),
    via tokens_decreases
{
    if s.len() == 0 {
        Seq::empty()
    } else if is_space(s[0]) {
        tokens(s.drop_first())
    } else {
        let k = first_space(s);
        seq![s.take(k)] + tokens(s.skip(k))
    }
}

#[via_fn]
proof fn tokens_decreases(s: Seq<u8>) {
    lemma_first_space(s);
}

proof fn lemma_tokens_skip_space(s: Seq<u8>, p: int)
    requires
        0 <= p < s.len(),
        is_space(s[p]),
    ensures
        tokens(s.skip(p)) == tokens(s.skip(p + 1)),
{
    assert(s.skip(p).drop_first() =~= s.skip(p + 1));
}

proof fn lemma_tokens_take_token(s: Seq<u8>, p: int, q: int)
    requires
        0 <= p < q <= s.len(),
        forall|i: int| p <= i < q ==> !is_space(s[i]),
        q < s.len() ==> is_space(s[q]),
    ensures
        tokens(s.skip(p)) == seq![s.subrange(p, q)] + tokens(s.skip(q)),
{
    let rest = s.skip(p);
    lemma_first_space(rest);
    assert(forall|i: int| 0 <= i < q - p ==> !is_space(rest[i]));
    if q - p < rest.len() {
        assert(is_space(rest[q - p]));
    }
    assert(first_space(rest) == q - p) by {
        if first_space(rest) < q - p {
            assert(is_space(rest[first_space(rest)]));
        }
        if first_space(rest) > q - p {
            assert(q - p < rest.len());
            assert(!is_space(rest[q - p]));
        }
    }
    assert(rest.take(q - p) =~= s.subrange(p, q));
    assert(rest.skip(q - p) =~= s.skip(q));
}

pub open spec fn tokens_view(v: Seq<Vec<u8>>) -> Seq<Seq<u8>> {
    v.map_values(|t: Vec<u8>| t@)
}

/// Split the line remainder from `lo` on whitespace runs into ordered tokens.
pub fn split_tokens(line: &[u8], lo: usize) -> (r: Vec<Vec<u8>>)
    requires
        lo <= line@.len(),
    ensures
        tokens_view(r@) == tokens(line@.skip(lo as int)),
{
    let n = line.len();
    let mut out: Vec<Vec<u8>> = Vec::new();
    let mut p: usize = lo;
    proof {
        assert(tokens_view(out@) + tokens(line@.skip(lo as int)) == tokens(
            line@.skip(lo as int),
        ));
    }
    while p < n
        invariant
            lo <= p <= n == line@.len(),
            tokens(line@.skip(lo as int)) == tokens_view(out@) + tokens(line@.skip(p as int)),
        decreases n - p,
    {
        if byte_is_space_at(line, p) {
            proof {
                lemma_tokens_skip_space(line@, p as int);
            }
            p = p + 1;
        } else {
            let mut q: usize = p + 1;
            while q < n && !byte_is_space_at(line, q)
                invariant
                    p < q <= n == line@.len(),
                    forall|i: int| p <= i < q ==> !is_space(line@[i]),
                decreases n - q,
            {
                q = q + 1;
            }
            let tok = vstd::slice::slice_to_vec(vstd::slice::slice_subrange(line, p, q));
            proof {
                lemma_tokens_take_token(line@, p as int, q as int);
            }
            out.push(tok);
            proof {
                assert(tokens_view(out@) =~= tokens_view(out@.drop_last()) + seq![tok@]);
                assert(tokens_view(out@.drop_last()) + (seq![line@.subrange(p as int, q as int)]
                    + tokens(line@.skip(q as int))) =~= tokens_view(out@) + tokens(
                    line@.skip(q as int),
                ));
            }
            p = q;
        }
    }
    proof {
        assert(line@.skip(n as int) =~= Seq::<u8>::empty());
        assert(tokens(line@.skip(lo as int)) =~= tokens_view(out@));
    }
    out
}

} // verus!
