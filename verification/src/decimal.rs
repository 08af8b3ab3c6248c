//! Exact fixed-point decimals for the format's numeric text fields.
//!
//! Coordinates, occupancies, temperature factors, cell parameters and matrix
//! components are written as plain decimal numerals in fixed columns.  A
//! `Decimal` keeps exactly what the field said: a sign, the digits as one
//! mantissa, and how many of those digits lie behind the point, so the value
//! denoted is `mantissa / 10^scale`, negated when `neg` is set.

use vstd::prelude::*;
use crate::field::{all_digits, digits_val, field, trim_range};

verus! {

/// Largest mantissa a decimal field may carry: eighteen full digits.
pub const MANT_MAX: u64 = 999_999_999_999_999_999;

/// Most fraction digits a decimal field may carry.
pub const SCALE_MAX: u32 = 18;

#[derive(Debug, Clone, Copy, PartialEq, Eq, Structural)]
pub struct Decimal {
    /// Whether the field began with a minus sign.
    pub neg: bool,
    /// The field's digits, integer and fraction parts run together.
    pub mantissa: u64,
    /// How many mantissa digits lie behind the decimal point.
    pub scale: u32,
}

/// Ten to the `e`.
pub open spec fn pow10(e: nat) -> nat
    decreases e,
{
    if e == 0 {
        1
    } else {
        10 * pow10((e - 1) as nat)
    }
}

proof fn lemma_pow10_mono(a: nat, b: nat)
    requires
        a <= b,
    ensures
        pow10(a) <= pow10(b),
        1 <= pow10(a),
    decreases b,
{
    if a < b {
        lemma_pow10_mono(a, (b - 1) as nat);
    } else if 0 < b {
        lemma_pow10_mono((a - 1) as nat, (b - 1) as nat);
    }
}

proof fn lemma_pow10_18()
    ensures
        pow10(18) == 1_000_000_000_000_000_000,
{
    assert(pow10(18) == 1_000_000_000_000_000_000) by {
        reveal_with_fuel(pow10, 19);
    }
}

/// Every power of ten up to the scale cap fits the mantissa cap's width.
pub proof fn lemma_pow10_le_18(e: nat)
    requires
        e <= 18,
    ensures
        1 <= pow10(e) <= 1_000_000_000_000_000_000,
        pow10(18) == 1_000_000_000_000_000_000,
{
    lemma_pow10_18();
    lemma_pow10_mono(e, 18);
}

/// Ten to the `e`, executable.
pub fn pow10_u64(e: u32) -> (r: u64)
    requires
        e <= SCALE_MAX,
    ensures
        r == pow10(e as nat),
{
    proof {
        lemma_pow10_18();
    }
    let mut acc: u64 = 1;
    let mut k: u32 = 0;
    while k < e
        invariant
            k <= e <= 18,
            acc == pow10(k as nat),
            pow10(18) == 1_000_000_000_000_000_000,
        decreases e - k,
    {
        proof {
            lemma_pow10_mono(k as nat + 1, 18);
        }
        acc = acc * 10;
        k = k + 1;
    }
    acc
}

impl Decimal {
    /// Every decoded decimal keeps its mantissa and scale within the field
    /// widths the parser accepts.
    pub open spec fn wf(self) -> bool {
        self.mantissa <= MANT_MAX && self.scale <= SCALE_MAX
    }

    /// Signed numerator when the value is written over `10^scale`.
    pub open spec fn signed_mantissa(self) -> int {
        if self.neg {
            -(self.mantissa as int)
        } else {
            self.mantissa as int
        }
    }

    /// The two decimals denote the same rational number: cross-multiplied
    /// numerators agree.
    pub open spec fn same_value(self, o: Decimal) -> bool {
        self.signed_mantissa() * pow10(o.scale as nat) == o.signed_mantissa() * pow10(
            self.scale as nat,
        )
    }

    /// Compare two decimals by the value they denote, not by spelling, so
    /// `52.000` equals `52.0` and `-0` equals `0`.
    pub fn value_eq(&self, o: &Decimal) -> (r: bool)
        requires
            self.wf(),
            o.wf(),
        ensures
            r == self.same_value(*o),
    {
        proof {
            lemma_pow10_18();
            lemma_pow10_mono(self.scale as nat, 18);
            lemma_pow10_mono(o.scale as nat, 18);
        }
        let ps: u64 = pow10_u64(self.scale);
        let po: u64 = pow10_u64(o.scale);
        proof {
            assert((self.mantissa as int) * (po as int) <= (MANT_MAX as int) * (pow10(18) as int)
                && 0 <= (self.mantissa as int) * (po as int)) by (nonlinear_arith)
                requires
                    0 <= self.mantissa <= MANT_MAX,
                    0 <= po <= pow10(18),
                    pow10(18) == 1_000_000_000_000_000_000,
            ;
            assert((o.mantissa as int) * (ps as int) <= (MANT_MAX as int) * (pow10(18) as int) && 0
                <= (o.mantissa as int) * (ps as int)) by (nonlinear_arith)
                requires
                    0 <= o.mantissa <= MANT_MAX,
                    0 <= ps <= pow10(18),
                    pow10(18) == 1_000_000_000_000_000_000,
            ;
        }
        let p1: u128 = (self.mantissa as u128) * (po as u128);
        let p2: u128 = (o.mantissa as u128) * (ps as u128);
        proof {
            assert((-(self.mantissa as int)) * (po as int) == -((self.mantissa as int) * (
            po as int))) by (nonlinear_arith);
            assert((-(o.mantissa as int)) * (ps as int) == -((o.mantissa as int) * (ps as int)))
                by (nonlinear_arith);
        }
        if self.neg == o.neg {
            p1 == p2
        } else {
            p1 == 0 && p2 == 0
        }
    }
}

/// Index of the first `.` byte, or the length when there is none.
pub open spec fn first_dot(s: Seq<u8>) -> int
    decreases s.len(),
{
    if s.len() == 0 {
        0
    } else if s[0] == 0x2e {
        0
    } else {
        1 + first_dot(s.drop_first())
    }
}

proof fn lemma_first_dot(s: Seq<u8>)
    ensures
        0 <= first_dot(s) <= s.len(),
        forall|i: int| 0 <= i < first_dot(s) ==> s[i] != 0x2e,
        first_dot(s) < s.len() ==> s[first_dot(s)] == 0x2e,
    decreases s.len(),
{
    if s.len() > 0 && s[0] != 0x2e {
        lemma_first_dot(s.drop_first());
        assert forall|i: int| 0 <= i < first_dot(s) implies s[i] != 0x2e by {
            if i >= 1 {
                assert(s.drop_first()[i - 1] == s[i]);
            }
        }
    }
}

/// Whether a trimmed decimal field begins with a minus sign.
pub open spec fn dec_sign(t: Seq<u8>) -> bool {
    t.len() > 0 && t[0] == 0x2d
}

/// The trimmed decimal field with one leading sign removed.
pub open spec fn dec_body(t: Seq<u8>) -> Seq<u8> {
    if t.len() > 0 && (t[0] == 0x2d || t[0] == 0x2b) {
        t.drop_first()
    } else {
        t
    }
}

/// Decimal coercion of a trimmed field: an optional sign, then digits with at
/// most one point and at least one digit; absent on any other spelling or
/// when the digits exceed the widths `wf` allows.
pub open spec fn dec_field(t: Seq<u8>) -> Option<Decimal> {
    let u = dec_body(t);
    let d = first_dot(u);
    let ip = u.take(d);
    let fp = if d < u.len() {
        u.skip(d + 1)
    } else {
        Seq::<u8>::empty()
    };
    if all_digits(ip) && all_digits(fp) && ip.len() + fp.len() >= 1 && digits_val(ip + fp)
        <= MANT_MAX && fp.len() <= SCALE_MAX {
        Some(
            Decimal {
                neg: dec_sign(t),
                mantissa: digits_val(ip + fp) as u64,
                scale: fp.len() as u32,
            },
        )
    } else {
        None
    }
}

/// Parse the field at `[lo, hi)` as a decimal numeral.
#[verifier::rlimit(50)]
pub fn parse_dec_field(line: &[u8], lo: usize, hi: usize) -> (r: Option<Decimal>)
    requires
        lo <= hi <= line@.len(),
    ensures
        r == dec_field(field(line@, lo as int, hi as int)),
        r is Some ==> r->0.wf(),
{
    let (a, b) = trim_range(line, lo, hi);
    let ghost t = field(line@, lo as int, hi as int);
    let neg: bool = a < b && line[a] == 0x2d;
    let start: usize = if a < b && (line[a] == 0x2d || line[a] == 0x2b) {
        a + 1
    } else {
        a
    };
    let ghost u = dec_body(t);
    proof {
        if a < b && (t[0] == 0x2d || t[0] == 0x2b) {
            assert(t.drop_first() =~= line@.subrange(a + 1, b as int));
        }
        assert(u == line@.subrange(start as int, b as int));
        assert(neg == dec_sign(t));
    }
    let mut dd: usize = start;
    while dd < b && line[dd] != 0x2e
        invariant
            start <= dd <= b <= line@.len(),
            u == line@.subrange(start as int, b as int),
            forall|i: int| start <= i < dd ==> line@[i] != 0x2e,
        decreases b - dd,
    {
        dd = dd + 1;
    }
    proof {
        lemma_first_dot(u);
        assert(first_dot(u) == dd - start) by {
            assert(forall|i: int| 0 <= i < dd - start ==> u[i] != 0x2e);
            if dd < b {
                assert(u[dd - start] == 0x2e);
            }
            if first_dot(u) < dd - start {
                assert(u[first_dot(u)] != 0x2e);
            }
            if first_dot(u) > dd - start && dd < b {
                assert(u[dd - start] != 0x2e);
            }
        }
    }
    let ghost ip = u.take(dd - start);
    let ghost fp = if dd - start < u.len() {
        u.skip(dd - start + 1)
    } else {
        Seq::<u8>::empty()
    };
    let mut digits: Vec<u8> = vstd::slice::slice_to_vec(
        vstd::slice::slice_subrange(line, start, dd),
    );
    let mut frac: Vec<u8> = if dd < b {
        vstd::slice::slice_to_vec(vstd::slice::slice_subrange(line, dd + 1, b))
    } else {
        Vec::new()
    };
    let fscale: usize = frac.len();
    digits.append(&mut frac);
    proof {
        assert(ip =~= line@.subrange(start as int, dd as int));
        if dd < b {
            assert(fp =~= line@.subrange(dd + 1, b as int));
        }
        assert(digits@ =~= ip + fp);
        assert(all_digits(digits@) ==> all_digits(ip) && all_digits(fp)) by {
            if all_digits(digits@) {
                assert(forall|i: int| 0 <= i < ip.len() ==> digits@[i] == ip[i]);
                assert(forall|i: int|
                    0 <= i < fp.len() ==> digits@[ip.len() + i] == fp[i]);
            }
        }
        assert(all_digits(ip) && all_digits(fp) ==> all_digits(digits@)) by {
            if all_digits(ip) && all_digits(fp) {
                assert(forall|i: int|
                    0 <= i < digits@.len() ==> #[trigger] digits@[i] == if i < ip.len() {
                        ip[i]
                    } else {
                        fp[i - ip.len()]
                    });
            }
        }
    }
    if fscale > 18 {
        return None;
    }
    match crate::field::digits_value(digits.as_slice(), 0, digits.len(), MANT_MAX) {
        Some(m) => {
            proof {
                assert(digits@.subrange(0, digits@.len() as int) =~= digits@);
            }
            Some(Decimal { neg, mantissa: m, scale: fscale as u32 })
        },
        None => {
            proof {
                assert(digits@.subrange(0, digits@.len() as int) =~= digits@);
            }
            None
        },
    }
}

} // verus!
