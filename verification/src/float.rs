//! IEEE 754 numbers carried by their bit patterns.
//!
//! Logits, probabilities and sampler settings reach this library as bit
//! patterns. Nothing here does floating-point arithmetic; what the samplers
//! need is the order of two numbers, and that can be read off the bits.

use vstd::prelude::*;
use vstd::arithmetic::power2::*;

verus! {

/// A binary32 number, as `f32::to_bits` gives it.
#[derive(Clone, Copy, Debug)]
pub struct F32 {
    pub bits: u32,
}

/// A binary64 number, as `f64::to_bits` gives it.
#[derive(Clone, Copy, Debug, PartialEq, Eq, Structural)]
pub struct F64 {
    pub bits: u64,
}

/// The magnitude of a binary32 number in units of 2^-149 (its smallest
/// positive number), read from the 31 bits below the sign.
///
/// The upper 8 of these bits are the exponent, the lower 23 the fraction. An
/// infinity follows the same rule, which puts it at 2^128, above every finite
/// number.
pub open spec fn magnitude_units(magnitude: nat) -> nat {
    let exponent = magnitude / 0x80_0000;
    let fraction = magnitude % 0x80_0000;
    if exponent == 0 {
        fraction
    } else {
        (0x80_0000 + fraction) * pow2((exponent - 1) as nat)
    }
}

impl F32 {
    /// The 31 bits below the sign.
    pub open spec fn magnitude(self) -> nat {
        (self.bits % 0x8000_0000) as nat
    }

    pub open spec fn negative(self) -> bool {
        self.bits >= 0x8000_0000
    }

    /// All exponent bits set and a fraction other than zero.
    pub open spec fn nan(self) -> bool {
        self.magnitude() > 0x7f80_0000
    }

    /// The number itself, in units of 2^-149.
    pub open spec fn units(self) -> int {
        if self.negative() {
            -(magnitude_units(self.magnitude()) as int)
        } else {
            magnitude_units(self.magnitude()) as int
        }
    }

    /// `self > other`, which no NaN takes part in.
    pub open spec fn above(self, other: F32) -> bool {
        !self.nan() && !other.nan() && self.units() > other.units()
    }

    /// `self == other`: no NaN equals anything, and the two zeros are equal.
    pub open spec fn same_number(self, other: F32) -> bool {
        !self.nan() && !other.nan() && self.units() == other.units()
    }

    /// The bits as a signed integer that grows with the number.
    spec fn order_key(self) -> int {
        if self.negative() {
            -(self.magnitude() as int)
        } else {
            self.magnitude() as int
        }
    }

    pub fn from_bits(bits: u32) -> (x: F32)
        ensures
            x.bits == bits,
    {
        F32 { bits }
    }

    pub fn to_bits(self) -> (bits: u32)
        ensures
            bits == self.bits,
    {
        self.bits
    }

    fn signed_key(self) -> (key: i64)
        ensures
            key == self.order_key(),
    {
        let magnitude: i64 = (self.bits % 0x8000_0000) as i64;
        if self.bits >= 0x8000_0000 {
            -magnitude
        } else {
            magnitude
        }
    }

    pub fn is_nan(self) -> (r: bool)
        ensures
            r == self.nan(),
    {
        self.bits % 0x8000_0000 > 0x7f80_0000
    }

    /// Minus infinity is the least number.
    pub proof fn lemma_at_least_minus_infinity(self)
        ensures
            self.nan() || self.units() >= (F32 { bits: 0xff80_0000 }).units(),
    {
        lemma_key_order(F32 { bits: 0xff80_0000 }, self);
    }

    /// Minus infinity has one bit pattern: every other number is above it.
    pub proof fn lemma_minus_infinity_is_one_pattern(self)
        ensures
            self.above(F32 { bits: 0xff80_0000 }) <==> !self.nan() && self.bits != 0xff80_0000,
    {
        lemma_key_order(self, F32 { bits: 0xff80_0000 });
    }

    /// A number that is not negative has one bit pattern.
    pub proof fn lemma_one_pattern(self, other: F32)
        requires
            !self.negative(),
            !other.negative(),
            self.units() == other.units(),
        ensures
            self == other,
    {
        lemma_key_order(self, other);
    }

    /// The number `n` / 2^24, which has exactly one bit pattern.
    pub fn fraction_of_one(n: u32) -> (x: F32)
        requires
            n < 0x100_0000,
        ensures
            !x.nan(),
            !x.negative(),
            x.units() == n * pow2(125),
    {
        if n == 0 {
            return F32 { bits: 0 };
        }
        let mut m: u32 = n;
        let mut k: u32 = 0;
        proof {
            lemma2_to64();
        }
        while m < 0x80_0000
            invariant
                0 < n,
                m < 0x100_0000,
                k <= 23,
                m == n * pow2(k as nat),
            decreases 0x100_0000 - m,
        {
            proof {
                lemma2_to64();
                lemma_pow2_unfold((k + 1) as nat);
                let p = pow2(k as nat);
                assert(p <= n * p) by (nonlinear_arith)
                    requires
                        0 < n,
                ;
                assert(2 * (n * p) == n * (2 * p)) by (nonlinear_arith);
                assert(m > 0) by (nonlinear_arith)
                    requires
                        m == n * p,
                        0 < n,
                        p > 0,
                ;
                assert(k < 23);
            }
            m = m * 2;
            k = k + 1;
        }
        let bits: u32 = (126 - k) * 0x80_0000 + (m - 0x80_0000);
        proof {
            assert(bits / 0x80_0000 == 126 - k && bits % 0x80_0000 == m - 0x80_0000);
            let x = F32 { bits };
            assert(x.magnitude() / 0x80_0000 == 126 - k);
            assert(x.magnitude() % 0x80_0000 == m - 0x80_0000);
            let low = pow2(k as nat);
            let high = pow2((125 - k) as nat);
            lemma_pow2_adds(k as nat, (125 - k) as nat);
            assert((n * low) * high == n * (low * high)) by (nonlinear_arith);
            assert(magnitude_units(x.magnitude()) == m * high);
        }
        F32 { bits }
    }

    /// Whether `self > other`.
    pub fn gt(self, other: F32) -> (r: bool)
        ensures
            r == self.above(other),
    {
        proof {
            lemma_key_order(self, other);
        }
        !self.is_nan() && !other.is_nan() && self.signed_key() > other.signed_key()
    }
}

impl PartialEq for F32 {
    fn eq(&self, other: &F32) -> (r: bool) {
        proof {
            lemma_key_order(*self, *other);
        }
        !self.is_nan() && !other.is_nan() && self.signed_key() == other.signed_key()
    }
}

impl vstd::std_specs::cmp::PartialEqSpecImpl for F32 {
    open spec fn obeys_eq_spec() -> bool {
        true
    }

    open spec fn eq_spec(&self, other: &F32) -> bool {
        self.same_number(*other)
    }
}

/// The successor of a magnitude stands for a greater number.
proof fn lemma_magnitude_step(m: nat)
    ensures
        magnitude_units(m) < magnitude_units(m + 1),
{
    let e = m / 0x80_0000;
    let f = m % 0x80_0000;
    lemma_pow2_pos(e);
    if f + 1 < 0x80_0000 {
        assert((m + 1) / 0x80_0000 == e && (m + 1) % 0x80_0000 == f + 1);
        if e > 0 {
            let p = pow2((e - 1) as nat);
            lemma_pow2_pos((e - 1) as nat);
            assert((0x80_0000 + f) * p < (0x80_0000 + f + 1) * p) by (nonlinear_arith)
                requires
                    p > 0,
            ;
        }
    } else {
        assert((m + 1) / 0x80_0000 == e + 1 && (m + 1) % 0x80_0000 == 0);
        if e > 0 {
            let p = pow2((e - 1) as nat);
            lemma_pow2_pos((e - 1) as nat);
            lemma_pow2_unfold(e);
            assert((0x80_0000 + f) * p < 0x80_0000 * (2 * p)) by (nonlinear_arith)
                requires
                    p > 0,
                    f == 0x7f_ffff,
            ;
        } else {
            assert(0x80_0000 * pow2(0) >= 0x80_0000) by (nonlinear_arith)
                requires
                    pow2(0) > 0,
            ;
        }
    }
}

proof fn lemma_magnitude_order(m: nat, n: nat)
    requires
        m < n,
    ensures
        magnitude_units(m) < magnitude_units(n),
    decreases n,
{
    lemma_magnitude_step((n - 1) as nat);
    if m < n - 1 {
        lemma_magnitude_order(m, (n - 1) as nat);
    }
}

/// Comparing bit patterns as sign and magnitude is comparing the numbers.
proof fn lemma_key_order(a: F32, b: F32)
    ensures
        a.units() > b.units() <==> a.order_key() > b.order_key(),
        a.units() == b.units() <==> a.order_key() == b.order_key(),
{
    assert(magnitude_units(0) == 0);
    let m = a.magnitude();
    let n = b.magnitude();
    if m < n {
        lemma_magnitude_order(m, n);
    } else if n < m {
        lemma_magnitude_order(n, m);
    }
    if m > 0 {
        lemma_magnitude_order(0, m);
    }
    if n > 0 {
        lemma_magnitude_order(0, n);
    }
}

/// A pattern is no number just where all bits of the exponent are set and one of the
/// fraction is; and the topmost bit is the sign.
pub proof fn lemma_parts_of_a_pattern(x: F32, r: bool)
    requires
        call_ensures(F32::is_nan, (x,), r),
    ensures
        r <==> (x.bits / 0x80_0000) % 0x100 == 0xff && x.bits % 0x80_0000 != 0,
        r == x.nan(),
        x.negative() <==> x.bits / 0x8000_0000 == 1,
{
    let bits = x.bits;
    assert(bits % 0x8000_0000 > 0x7f80_0000 <==> (bits / 0x80_0000) % 0x100 == 0xff && bits
        % 0x80_0000 != 0) by (bit_vector);
}

/// Where a pattern stands among the numbers: the zeros are nothing, the next pattern
/// on the same side of them is one unit further among the smallest numbers and the
/// first binade, and twice as far in each binade as in the one before; and a pattern
/// with the sign set is the number on the other side.
pub proof fn lemma_steps_between_patterns(x: F32)
    requires
        x.magnitude() < 0x7fff_ffff,
        !x.negative(),
    ensures
        (F32 { bits: 0 }).units() == 0,
        (F32 { bits: (x.bits + 1) as u32 }).units() - x.units() == if x.bits / 0x80_0000 <= 1 {
            1
        } else {
            pow2((x.bits / 0x80_0000 - 1) as nat) as int
        },
        (F32 { bits: (x.bits + 0x8000_0000) as u32 }).units() == -x.units(),
{
    let m = x.magnitude();
    let e = m / 0x80_0000;
    let f = m % 0x80_0000;
    lemma2_to64();
    assert(magnitude_units(0) == 0);
    assert((F32 { bits: (x.bits + 1) as u32 }).magnitude() == m + 1);
    assert(pow2(0) == 1);
    if f + 1 < 0x80_0000 {
        assert((m + 1) / 0x80_0000 == e && (m + 1) % 0x80_0000 == f + 1);
        if e > 0 {
            let p = pow2((e - 1) as nat);
            assert((0x80_0000 + (f + 1)) * p - (0x80_0000 + f) * p == p) by (nonlinear_arith);
        }
    } else {
        assert((m + 1) / 0x80_0000 == e + 1 && (m + 1) % 0x80_0000 == 0);
        if e > 0 {
            let p = pow2((e - 1) as nat);
            lemma_pow2_unfold(e);
            assert(0x80_0000 * (2 * p) - (0x80_0000 + f) * p == p) by (nonlinear_arith)
                requires
                    f == 0x7f_ffff,
            ;
            assert(magnitude_units(m + 1) == 0x80_0000 * pow2(e));
        } else {
            assert(magnitude_units(m + 1) == 0x80_0000 * pow2(0));
        }
    }
}

/// One number is above another just where both are numbers and it stands further; they
/// are equal just where they stand at the same place; so of two numbers one is above
/// the other or they are equal, and nothing is above, or equal to, what is no number.
pub proof fn lemma_numbers_are_in_order(a: F32, b: F32, above: bool, below: bool)
    requires
        call_ensures(F32::gt, (a, b), above),
        call_ensures(F32::gt, (b, a), below),
    ensures
        above <==> !a.nan() && !b.nan() && a.units() > b.units(),
        below <==> !a.nan() && !b.nan() && a.units() < b.units(),
        a.same_number(b) <==> !a.nan() && !b.nan() && a.units() == b.units(),
        a.above(b) == above,
        !a.nan() && !b.nan() ==> above || below || a.same_number(b),
{
}

} // verus!
