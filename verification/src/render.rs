//! Canonical fixed-width re-serialization helpers: decimal numerals, space
//! padding, and fixed-point rendering of `Decimal` values.

use vstd::prelude::*;
use crate::decimal::{pow10, pow10_u64, Decimal, MANT_MAX, SCALE_MAX};

verus! {

/// Decimal digit bytes of `n`, most significant first, no leading zeros
/// except for the single digit of zero itself.
pub open spec fn dec_digits(n: nat) -> Seq<u8>
    decreases n,
{
    if n < 10 {
        seq![(0x30 + n) as u8]
    } else {
        dec_digits(n / 10).push((0x30 + n % 10) as u8)
    }
}

/// `n` space bytes.
pub open spec fn spaces(n: nat) -> Seq<u8> {
    Seq::new(n, |i: int| 0x20u8)
}

/// `s` right-aligned in a field of at least `w` bytes.
pub open spec fn pad_left(s: Seq<u8>, w: nat) -> Seq<u8> {
    if s.len() >= w {
        s
    } else {
        spaces((w - s.len()) as nat) + s
    }
}

/// `s` left-aligned in a field of at least `w` bytes.
pub open spec fn pad_right(s: Seq<u8>, w: nat) -> Seq<u8> {
    if s.len() >= w {
        s
    } else {
        s + spaces((w - s.len()) as nat)
    }
}

/// `s` filled to at least `w` bytes with leading zero digits.
pub open spec fn zero_fill(s: Seq<u8>, w: nat) -> Seq<u8> {
    if s.len() >= w {
        s
    } else {
        Seq::new((w - s.len()) as nat, |i: int| 0x30u8) + s
    }
}

/// The decimal numeral of `n`.
pub fn digits_u128(n: u128) -> (r: Vec<u8>)
    ensures
        r@ == dec_digits(n as nat),
    decreases n,
{
    if n < 10 {
        let mut v: Vec<u8> = Vec::new();
        v.push(0x30 + n as u8);
        proof {
            assert(v@ =~= seq![(0x30 + n as nat) as u8]);
        }
        v
    } else {
        let mut v = digits_u128(n / 10);
        v.push(0x30 + (n % 10) as u8);
        v
    }
}

/// The decimal numeral of `n`.
pub fn digits_u32(n: u32) -> (r: Vec<u8>)
    ensures
        r@ == dec_digits(n as nat),
{
    digits_u128(n as u128)
}

/// Right-align `v` in a field of at least `w` bytes.
pub fn pad_left_vec(v: Vec<u8>, w: usize) -> (r: Vec<u8>)
    ensures
        r@ == pad_left(v@, w as nat),
{
    if v.len() >= w {
        return v;
    }
    let need = w - v.len();
    let mut out: Vec<u8> = Vec::new();
    let mut k: usize = 0;
    while k < need
        invariant
            k <= need,
            out@ =~= spaces(k as nat),
        decreases need - k,
    {
        out.push(0x20);
        proof {
            assert(out@ =~= spaces(((k + 1) as nat)));
        }
        k = k + 1;
    }
    let mut tail = v;
    out.append(&mut tail);
    out
}

/// Left-align `v` in a field of at least `w` bytes.
pub fn pad_right_vec(v: Vec<u8>, w: usize) -> (r: Vec<u8>)
    ensures
        r@ == pad_right(v@, w as nat),
{
    let ghost before = v@;
    let mut out = v;
    while out.len() < w
        invariant
            out@.len() >= before.len(),
            before.len() < w ==> out@.len() <= w,
            before.len() >= w ==> out@.len() == before.len(),
            out@ =~= before + spaces((out@.len() - before.len()) as nat),
        decreases w - out@.len(),
    {
        out.push(0x20);
        proof {
            assert(out@ =~= before + spaces((out@.len() - before.len()) as nat));
        }
    }
    proof {
        if before.len() >= w {
            assert(out@ =~= before);
        }
    }
    out
}

impl Decimal {
    /// The value's digits once scaled to exactly `p` fraction digits; a value
    /// stored with more fraction digits is rounded half away from zero.
    pub open spec fn scaled_to(self, p: nat) -> nat {
        if self.scale <= p {
            (self.mantissa as nat) * pow10((p - self.scale) as nat)
        } else {
            ((self.mantissa as nat) + 5 * pow10((self.scale - p - 1) as nat)) / pow10(
                (self.scale - p) as nat,
            )
        }
    }

    /// Fixed-point rendering with exactly `p` fraction digits: an optional
    /// minus sign, at least one integer digit, the point, then `p` digits.
    pub open spec fn spec_fixed(self, p: nat) -> Seq<u8> {
        let full = zero_fill(dec_digits(self.scaled_to(p)), p + 1);
        let cut = full.len() - p;
        let body = full.take(cut as int) + seq![0x2eu8] + full.skip(cut as int);
        if self.neg {
            seq![0x2du8] + body
        } else {
            body
        }
    }

    /// Render the value with exactly `p` fraction digits.
    #[verifier::rlimit(100)]
    pub fn to_fixed(&self, p: u32) -> (r: Vec<u8>)
        requires
            self.wf(),
            p <= SCALE_MAX,
        ensures
            r@ == self.spec_fixed(p as nat),
    {
        let scaled: u128 = if self.scale <= p {
            proof {
                crate::decimal::lemma_pow10_le_18((p - self.scale) as nat);
            }
            proof {
                assert((self.mantissa as int) * (pow10((p - self.scale) as nat) as int) <= (
                MANT_MAX as int) * (pow10(18) as int) && 0 <= (self.mantissa as int) * (pow10(
                    (p - self.scale) as nat,
                ) as int)) by (nonlinear_arith)
                    requires
                        0 <= self.mantissa <= MANT_MAX,
                        1 <= pow10((p - self.scale) as nat) <= pow10(18),
                        pow10(18) == 1_000_000_000_000_000_000,
                ;
            }
            (self.mantissa as u128) * (pow10_u64(p - self.scale) as u128)
        } else {
            proof {
                crate::decimal::lemma_pow10_le_18((self.scale - p) as nat);
                crate::decimal::lemma_pow10_le_18((self.scale - p - 1) as nat);
            }
            let half: u64 = 5 * pow10_u64(self.scale - p - 1);
            let div: u64 = pow10_u64(self.scale - p);
            (((self.mantissa + half) / div)) as u128
        };
        let digits = digits_u128(scaled);
        let mut full: Vec<u8> = Vec::new();
        let plen = p as usize;
        if digits.len() < plen + 1 {
            let need = plen + 1 - digits.len();
            let mut k: usize = 0;
            while k < need
                invariant
                    k <= need,
                    full@ =~= Seq::new(k as nat, |i: int| 0x30u8),
                decreases need - k,
            {
                full.push(0x30);
                proof {
                    assert(full@ =~= Seq::new(((k + 1) as nat), |i: int| 0x30u8));
                }
                k = k + 1;
            }
        }
        let mut dtail = digits;
        full.append(&mut dtail);
        proof {
            assert(full@ =~= zero_fill(dec_digits(scaled as nat), p as nat + 1));
            assert(full@.len() >= p + 1);
        }
        let cut = full.len() - plen;
        let mut out: Vec<u8> = Vec::new();
        if self.neg {
            out.push(0x2d);
        }
        let ghost sign = if self.neg {
            seq![0x2du8]
        } else {
            Seq::<u8>::empty()
        };
        proof {
            assert(out@ =~= sign);
        }
        let mut i: usize = 0;
        while i < cut
            invariant
                i <= cut <= full@.len(),
                out@ =~= sign + full@.take(i as int),
            decreases cut - i,
        {
            out.push(full[i]);
            proof {
                assert(out@ =~= sign + full@.take(i + 1));
            }
            i = i + 1;
        }
        out.push(0x2e);
        proof {
            assert(out@ =~= sign + full@.take(cut as int) + seq![0x2eu8]);
        }
        while i < full.len()
            invariant
                cut <= i <= full@.len(),
                out@ =~= sign + full@.take(cut as int) + seq![0x2eu8] + full@.subrange(
                    cut as int,
                    i as int,
                ),
            decreases full@.len() - i,
        {
            out.push(full[i]);
            proof {
                assert(out@ =~= sign + full@.take(cut as int) + seq![0x2eu8] + full@.subrange(
                    cut as int,
                    i + 1,
                ));
            }
            i = i + 1;
        }
        proof {
            assert(full@.subrange(cut as int, full@.len() as int) =~= full@.skip(cut as int));
            assert(out@ =~= self.spec_fixed(p as nat));
        }
        out
    }
}

} // verus!
