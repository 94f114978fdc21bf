//! Unsigned integers of six 64-bit limbs, with arithmetic that wraps around
//! at `2^384`.
//!
//! The view of such an integer is the natural number that its limbs write
//! in base `2^64`, least significant limb first. Every operation propagates
//! its carry or borrow from limb to limb; what leaves the highest limb is
//! handed back by the `*_carry` and `*_borrow` functions and dropped by the
//! operators.

use crate::algebra::traits::Groupoid;
use crate::algebra::traits::Monoid;
use crate::algebra::traits::Semigroup;
use std::cmp::Ordering;
use vstd::arithmetic::div_mod::lemma_fundamental_div_mod_converse;
use vstd::arithmetic::div_mod::lemma_small_mod;
use vstd::arithmetic::div_mod::lemma_sub_mod_noop;
use vstd::arithmetic::power2::lemma2_to64;
use vstd::arithmetic::power2::lemma_pow2_adds;
use vstd::arithmetic::power2::lemma_pow2_pos;
use vstd::arithmetic::power2::lemma_pow2_unfold;
use vstd::arithmetic::power2::pow2;
use vstd::prelude::*;
use vstd::std_specs::cmp::PartialEqSpecImpl;
use vstd::std_specs::cmp::PartialOrdSpecImpl;
use vstd::std_specs::convert::FromSpecImpl;
use vstd::std_specs::ops::AddSpecImpl;
use vstd::std_specs::ops::DivSpecImpl;
use vstd::std_specs::ops::MulSpecImpl;
use vstd::std_specs::ops::SubSpecImpl;

verus! {

/// The weight of limb `i`: `2^(64·i)`.
pub open spec fn weight(i: nat) -> nat {
    pow2(64 * i)
}

/// The number that the first `n` limbs write in base `2^64`, least
/// significant limb first.
pub open spec fn limbs_prefix(limbs: Seq<u64>, n: nat) -> nat
    decreases n,
{
    if n == 0 {
        0
    } else {
        limbs_prefix(limbs, (n - 1) as nat) + (limbs[n - 1] as nat) * weight((n - 1) as nat)
    }
}

/// The weight of a limb is `2^64` times the weight of the limb below it.
pub proof fn lemma_weight_step(i: nat)
    ensures
        weight(0) == 1,
        weight(i) > 0,
        weight(i + 1) == weight(i) * 0x1_0000_0000_0000_0000,
{
    lemma2_to64();
    lemma_pow2_pos(64 * i);
    lemma_pow2_adds(64 * i, 64);
}

/// The first `n` limbs write a number below the weight of limb `n`.
pub proof fn lemma_prefix_bound(limbs: Seq<u64>, n: nat)
    ensures
        limbs_prefix(limbs, n) < weight(n),
    decreases n,
{
    if n == 0 {
        lemma_weight_step(0);
    } else {
        let m = (n - 1) as nat;
        lemma_prefix_bound(limbs, m);
        lemma_weight_step(m);
        let (low, top, w) = (limbs_prefix(limbs, m), limbs[m as int], weight(m));
        assert(low + top * w < w * 0x1_0000_0000_0000_0000) by (nonlinear_arith)
            requires
                low < w,
                top <= 0xffff_ffff_ffff_ffff,
        ;
    }
}

/// The first `n` limbs do not depend on a limb at or above `n`.
pub proof fn lemma_prefix_update(limbs: Seq<u64>, n: nat, i: int, limb: u64)
    requires
        n <= i < limbs.len(),
    ensures
        limbs_prefix(limbs.update(i, limb), n) == limbs_prefix(limbs, n),
    decreases n,
{
    if n > 0 {
        lemma_prefix_update(limbs, (n - 1) as nat, i, limb);
    }
}

/// An unsigned integer of six 64-bit limbs, least significant limb first.
#[allow(non_camel_case_types)]
#[derive(Debug, Clone, Copy)]
pub struct u256(pub [u64; 6]);

impl View for u256 {
    type V = nat;

    open spec fn view(&self) -> nat {
        limbs_prefix(self.0@, 6)
    }
}

impl u256 {
    /// The number at which the arithmetic wraps around: `2^384`.
    pub open spec fn modulus() -> nat {
        weight(6)
    }

    /// Multiplies by `factor` and adds `carry_in`. The result is the low six
    /// limbs of the product with the limb that left at the top.
    pub fn mul_carry(self, factor: u64, carry_in: u64) -> (r: (u256, u64))
        ensures
            r.0@ + r.1 * Self::modulus() == self@ * factor + carry_in,
    {
        let mut out = [0u64;6];
        let mut carry = carry_in;
        let mut i: usize = 0;
        proof {
            lemma_weight_step(0);
        }
        while i < 6
            invariant
                i <= 6,
                limbs_prefix(out@, i as nat) + carry * weight(i as nat) == limbs_prefix(
                    self.0@,
                    i as nat,
                ) * factor + carry_in,
            decreases 6 - i,
        {
            let limb = self.0[i];
            assert(limb * factor + carry < 0x1_0000_0000_0000_0000 * 0x1_0000_0000_0000_0000)
                by (nonlinear_arith)
                requires
                    limb <= 0xffff_ffff_ffff_ffff,
                    factor <= 0xffff_ffff_ffff_ffff,
                    carry <= 0xffff_ffff_ffff_ffff,
            ;
            let product: u128 = (limb as u128) * (factor as u128) + (carry as u128);
            let low = (product % 0x1_0000_0000_0000_0000) as u64;
            let high = (product / 0x1_0000_0000_0000_0000) as u64;
            proof {
                lemma_weight_step(i as nat);
                lemma_prefix_update(out@, i as nat, i as int, low);
                let w = weight(i as nat);
                let (done, source) = (limbs_prefix(out@, i as nat), limbs_prefix(self.0@, i as nat));
                assert(done + low * w + high * (w * 0x1_0000_0000_0000_0000) == (source + limb * w)
                    * factor + carry_in) by (nonlinear_arith)
                    requires
                        done + carry * w == source * factor + carry_in,
                        low + high * 0x1_0000_0000_0000_0000 == limb * factor + carry,
                ;
            }
            out[i] = low;
            carry = high;
            i += 1;
        }
        (u256(out), carry)
    }

    /// Adds `rhs`. The result is the low six limbs of the sum with the carry
    /// that left at the top.
    pub fn add_carry(self, rhs: u256) -> (r: (u256, u64))
        ensures
            r.0@ + r.1 * Self::modulus() == self@ + rhs@,
            r.1 <= 1,
    {
        let mut out = [0u64;6];
        let mut carry: u64 = 0;
        let mut i: usize = 0;
        while i < 6
            invariant
                i <= 6,
                carry <= 1,
                limbs_prefix(out@, i as nat) + carry * weight(i as nat) == limbs_prefix(
                    self.0@,
                    i as nat,
                ) + limbs_prefix(rhs.0@, i as nat),
            decreases 6 - i,
        {
            let (left, right) = (self.0[i], rhs.0[i]);
            let total: u128 = (left as u128) + (right as u128) + (carry as u128);
            let low = (total % 0x1_0000_0000_0000_0000) as u64;
            let high = (total / 0x1_0000_0000_0000_0000) as u64;
            proof {
                lemma_weight_step(i as nat);
                lemma_prefix_update(out@, i as nat, i as int, low);
                let w = weight(i as nat);
                assert(low * w + high * (w * 0x1_0000_0000_0000_0000) == left * w + right * w
                    + carry * w) by (nonlinear_arith)
                    requires
                        low + high * 0x1_0000_0000_0000_0000 == left + right + carry,
                ;
            }
            out[i] = low;
            carry = high;
            i += 1;
        }
        (u256(out), carry)
    }

    /// Subtracts `rhs`. The result is the low six limbs of the difference
    /// with the borrow that was taken at the top.
    pub fn sub_borrow(self, rhs: u256) -> (r: (u256, u64))
        ensures
            r.0@ - r.1 * Self::modulus() == self@ - rhs@,
            r.1 <= 1,
    {
        let mut out = [0u64;6];
        let mut borrow: u64 = 0;
        let mut i: usize = 0;
        while i < 6
            invariant
                i <= 6,
                borrow <= 1,
                limbs_prefix(out@, i as nat) - borrow * weight(i as nat) == limbs_prefix(
                    self.0@,
                    i as nat,
                ) - limbs_prefix(rhs.0@, i as nat),
            decreases 6 - i,
        {
            let (left, right) = (self.0[i], rhs.0[i]);
            let total: u128 = 0x1_0000_0000_0000_0000 + (left as u128) - (right as u128) - (
            borrow as u128);
            let low = (total % 0x1_0000_0000_0000_0000) as u64;
            let high = (total / 0x1_0000_0000_0000_0000) as u64;
            proof {
                lemma_weight_step(i as nat);
                lemma_prefix_update(out@, i as nat, i as int, low);
                let w = weight(i as nat);
                assert(low * w - (1 - high) * (w * 0x1_0000_0000_0000_0000) == left * w - right * w
                    - borrow * w) by (nonlinear_arith)
                    requires
                        low + high * 0x1_0000_0000_0000_0000 == 0x1_0000_0000_0000_0000 + left
                            - right - borrow,
                ;
            }
            out[i] = low;
            borrow = 1 - high;
            i += 1;
        }
        (u256(out), borrow)
    }
}

// What `add` returns is stated in its own contract, over views.
impl AddSpecImpl for u256 {
    open spec fn obeys_add_spec() -> bool {
        false
    }

    open spec fn add_req(self, rhs: Self) -> bool {
        true
    }

    open spec fn add_spec(self, rhs: Self) -> Self {
        self
    }
}

impl std::ops::Add for u256 {
    type Output = Self;

    /// The sum, wrapped around at `2^384`.
    fn add(self, rhs: Self) -> (out: Self)
        ensures
            out@ == (self@ + rhs@) % Self::modulus(),
    {
        let (out, carry) = self.add_carry(rhs);
        proof {
            lemma_prefix_bound(out.0@, 6);
            lemma_fundamental_div_mod_converse(
                (self@ + rhs@) as int,
                Self::modulus() as int,
                carry as int,
                out@ as int,
            );
        }
        out
    }
}

// What `sub` returns is stated in its own contract, over views.
impl SubSpecImpl for u256 {
    open spec fn obeys_sub_spec() -> bool {
        false
    }

    open spec fn sub_req(self, rhs: Self) -> bool {
        true
    }

    open spec fn sub_spec(self, rhs: Self) -> Self {
        self
    }
}

impl std::ops::Sub for u256 {
    type Output = Self;

    /// The difference, wrapped around at `2^384`.
    fn sub(self, rhs: Self) -> (out: Self)
        ensures
            out@ == (self@ - rhs@) % (Self::modulus() as int),
    {
        let (out, borrow) = self.sub_borrow(rhs);
        proof {
            lemma_prefix_bound(out.0@, 6);
            assert((-borrow) * Self::modulus() == -(borrow * Self::modulus())) by (nonlinear_arith);
            lemma_fundamental_div_mod_converse(
                self@ - rhs@,
                Self::modulus() as int,
                -(borrow as int),
                out@ as int,
            );
        }
        out
    }
}

// What `mul` returns is stated in its own contract, over views.
impl MulSpecImpl<u64> for u256 {
    open spec fn obeys_mul_spec() -> bool {
        false
    }

    open spec fn mul_req(self, rhs: u64) -> bool {
        true
    }

    open spec fn mul_spec(self, rhs: u64) -> Self {
        self
    }
}

impl std::ops::Mul<u64> for u256 {
    type Output = Self;

    /// The product with a single limb, wrapped around at `2^384`.
    fn mul(self, rhs: u64) -> (out: Self)
        ensures
            out@ == (self@ * rhs) % (Self::modulus() as int),
    {
        let (out, carry) = self.mul_carry(rhs, 0);
        proof {
            lemma_prefix_bound(out.0@, 6);
            lemma_fundamental_div_mod_converse(
                self@ * rhs,
                Self::modulus() as int,
                carry as int,
                out@ as int,
            );
        }
        out
    }
}

impl std::ops::AddAssign for u256 {
    fn add_assign(&mut self, rhs: Self)
        ensures
            final(self)@ == (old(self)@ + rhs@) % Self::modulus(),
    {
        *self = *self + rhs;
    }
}

impl std::ops::SubAssign for u256 {
    fn sub_assign(&mut self, rhs: Self)
        ensures
            final(self)@ == (old(self)@ - rhs@) % (Self::modulus() as int),
    {
        *self = *self - rhs;
    }
}

impl vstd::std_specs::core::IndexSpecImpl<usize> for u256 {
    open spec fn index_req(&self, i: &usize) -> bool {
        *i < 6
    }
}

impl std::ops::Index<usize> for u256 {
    type Output = u64;

    /// Limb `i`, counted from the least significant.
    fn index(&self, i: usize) -> (limb: &u64)
        ensures
            *limb == self.0[i as int],
    {
        &self.0[i]
    }
}

impl u256 {
    /// Replaces limb `i`, counted from the least significant.
    pub fn set(&mut self, i: usize, limb: u64)
        requires
            i < 6,
        ensures
            final(self).0@ == old(self).0@.update(i as int, limb),
    {
        self.0[i] = limb;
    }
}

// What `from` returns is stated in its own contract, over views.
impl FromSpecImpl<u64> for u256 {
    open spec fn obeys_from_spec() -> bool {
        false
    }

    open spec fn from_spec(a: u64) -> Self {
        arbitrary()
    }
}

impl From<u64> for u256 {
    /// The integer with the value of `a`.
    fn from(a: u64) -> (r: Self)
        ensures
            r@ == a,
    {
        let r = u256([a, 0, 0, 0, 0, 0]);
        proof {
            reveal_with_fuel(limbs_prefix, 7);
            lemma_weight_step(0);
            assert(forall|i: nat| 0 * weight(i) == 0) by (nonlinear_arith);
            assert(a * weight(0) == a) by (nonlinear_arith)
                requires
                    weight(0) == 1,
            ;
        }
        r
    }
}

/// Whether two limb sequences hold the same limbs from index `from` up.
spec fn limbs_agree_from(a: Seq<u64>, b: Seq<u64>, from: usize) -> bool {
    forall|j: int| from <= j < 6 ==> a[j] == b[j]
}

/// Limbs that agree from index `from` up add the same amount to both numbers.
proof fn lemma_agreeing_limbs(a: Seq<u64>, b: Seq<u64>, from: usize, to: nat)
    requires
        limbs_agree_from(a, b, from),
        from <= to <= 6,
    ensures
        limbs_prefix(a, to) - limbs_prefix(a, from as nat) == limbs_prefix(b, to) - limbs_prefix(
            b,
            from as nat,
        ),
    decreases to,
{
    if to > from {
        lemma_agreeing_limbs(a, b, from, (to - 1) as nat);
    }
}

/// The highest limb in which two integers differ decides which is smaller.
proof fn lemma_highest_difference(a: u256, b: u256, i: usize, above: usize)
    requires
        i < 6,
        above == i + 1,
        limbs_agree_from(a.0@, b.0@, above),
        a.0[i as int] < b.0[i as int],
    ensures
        a@ < b@,
{
    lemma_agreeing_limbs(a.0@, b.0@, above, 6);
    lemma_prefix_bound(a.0@, i as nat);
    let w = weight(i as nat);
    let (x, y) = (a.0[i as int], b.0[i as int]);
    assert(x * w + w <= y * w) by (nonlinear_arith)
        requires
            x < y,
            w >= 0,
    ;
}

/// The highest index at which two limb sequences differ, where they differ
/// below index `n`.
proof fn lemma_highest_differing_limb(a: Seq<u64>, b: Seq<u64>, n: usize) -> (i: usize)
    requires
        n <= 6,
        limbs_agree_from(a, b, n),
        exists|j: int| 0 <= j < n && a[j] != b[j],
    ensures
        i < n,
        a[i as int] != b[i as int],
        limbs_agree_from(a, b, (i + 1) as usize),
    decreases n,
{
    let top = (n - 1) as usize;
    if a[top as int] != b[top as int] {
        top
    } else {
        lemma_highest_differing_limb(a, b, top)
    }
}

/// Two integers are the same number exactly when all their limbs agree.
pub proof fn lemma_limbs_decide_view(a: u256, b: u256)
    ensures
        (a@ == b@) == (a.0@ == b.0@),
{
    if a.0@ != b.0@ {
        if forall|j: int| 0 <= j < 6 ==> a.0[j] == b.0[j] {
            assert(a.0@ =~= b.0@);
        }
        let i = lemma_highest_differing_limb(a.0@, b.0@, 6);
        if a.0[i as int] < b.0[i as int] {
            lemma_highest_difference(a, b, i, (i + 1) as usize);
        } else {
            lemma_highest_difference(b, a, i, (i + 1) as usize);
        }
    }
}

impl PartialEqSpecImpl for u256 {
    open spec fn obeys_eq_spec() -> bool {
        true
    }

    open spec fn eq_spec(&self, other: &Self) -> bool {
        self@ == other@
    }
}

impl PartialEq for u256 {
    /// Integers are equal when all their limbs are.
    fn eq(&self, rhs: &Self) -> (r: bool) {
        let mut i: usize = 0;
        while i < 6
            invariant
                i <= 6,
                forall|j: int| 0 <= j < i ==> self.0[j] == rhs.0[j],
            decreases 6 - i,
        {
            if self.0[i] != rhs.0[i] {
                proof {
                    lemma_limbs_decide_view(*self, *rhs);
                }
                return false;
            }
            i += 1;
        }
        proof {
            assert(self.0@ =~= rhs.0@);
        }
        true
    }
}

impl Eq for u256 {

}

impl u256 {
    /// Compares two integers as numbers, from the most significant limb
    /// down.
    pub fn cmp(&self, rhs: &Self) -> (o: Ordering)
        ensures
            o == Ordering::Less <==> self@ < rhs@,
            o == Ordering::Equal <==> self@ == rhs@,
            o == Ordering::Greater <==> self@ > rhs@,
    {
        let mut i: usize = 6;
        while i > 0
            invariant
                i <= 6,
                limbs_agree_from(self.0@, rhs.0@, i),
            decreases i,
        {
            let above = i;
            i = i - 1;
            let (left, right) = (self.0[i], rhs.0[i]);
            if left < right {
                proof {
                    lemma_highest_difference(*self, *rhs, i, above);
                }
                return Ordering::Less;
            }
            if left > right {
                proof {
                    lemma_highest_difference(*rhs, *self, i, above);
                }
                return Ordering::Greater;
            }
        }
        proof {
            assert(self.0@ =~= rhs.0@);
        }
        Ordering::Equal
    }
}

impl PartialOrdSpecImpl for u256 {
    open spec fn obeys_partial_cmp_spec() -> bool {
        true
    }

    open spec fn partial_cmp_spec(&self, other: &Self) -> Option<Ordering> {
        if self@ < other@ {
            Some(Ordering::Less)
        } else if self@ == other@ {
            Some(Ordering::Equal)
        } else {
            Some(Ordering::Greater)
        }
    }
}

impl PartialOrd for u256 {
    /// The order of the numbers.
    fn partial_cmp(&self, rhs: &Self) -> (o: Option<Ordering>) {
        Some(self.cmp(rhs))
    }
}

/// One step of long division in base two. The dividend is `top` followed by
/// the binary digits that `low` holds below `2·half`; the step moves the
/// highest of those digits, `bit`, from `low` to `top`, and takes it into the
/// quotient and the remainder.
proof fn lemma_division_step(
    top: nat,
    low: nat,
    half: nat,
    bit: nat,
    quotient: nat,
    remainder: nat,
    divisor: nat,
    digit: nat,
    next_remainder: nat,
)
    requires
        top == quotient * divisor + remainder,
        bit <= 1,
        digit <= 1,
        digit == 1 ==> 2 * remainder + bit == divisor + next_remainder,
        digit == 0 ==> 2 * remainder + bit == next_remainder,
    ensures
        2 * top + bit == (2 * quotient + digit) * divisor + next_remainder,
        top * (2 * half) + low == (2 * top + bit) * half + (low - bit * half),
{
    assert(2 * top + bit == (2 * quotient + digit) * divisor + next_remainder) by (nonlinear_arith)
        requires
            top == quotient * divisor + remainder,
            2 * remainder + bit == digit * divisor + next_remainder,
    ;
    assert(top * (2 * half) + low == (2 * top + bit) * half + (low - bit * half))
        by (nonlinear_arith);
}

impl u256 {
    /// The quotient and the remainder of the division by `rhs`, by long
    /// division in base two: the binary digits of the dividend enter the
    /// remainder one by one from the top, and the divisor is taken away
    /// wherever it fits.
    pub fn div_rem(self, rhs: u256) -> (r: (u256, u256))
        requires
            rhs@ != 0,
        ensures
            r.0@ == self@ / rhs@,
            r.1@ == self@ % rhs@,
    {
        let mut quotient = u256::zero();
        let mut remainder = u256::zero();
        let mut work = self;
        let mut t: usize = 0;
        let ghost mut top: nat = 0;
        let ghost mut low: nat = self@;
        proof {
            lemma_prefix_bound(self.0@, 6);
            lemma2_to64();
            assert(0 * pow2(384) == 0 && 0 * rhs@ == 0 && low * pow2(0) == low) by (nonlinear_arith)
                requires
                    pow2(0) == 1,
            ;
        }
        while t < 384
            invariant
                t <= 384,
                rhs@ > 0,
                self@ == top * pow2((384 - t) as nat) + low,
                low < pow2((384 - t) as nat),
                work@ == low * pow2(t as nat),
                top == quotient@ * rhs@ + remainder@,
                remainder@ < rhs@,
                quotient@ < pow2(t as nat),
            decreases 384 - t,
        {
            let (shifted, bit) = work.mul_carry(2, 0);
            let (doubled, high) = remainder.mul_carry(2, bit);
            let (reduced, borrow) = doubled.sub_borrow(rhs);
            let fits = high == 1 || borrow == 0;
            let digit: u64 = if fits {
                1
            } else {
                0
            };
            let (next_quotient, overflow) = quotient.mul_carry(2, digit);
            let next_remainder = if fits {
                reduced
            } else {
                doubled
            };
            proof {
                let m = Self::modulus();
                let half = pow2((383 - t) as nat);
                let scale = pow2(t as nat);
                lemma_pow2_unfold((384 - t) as nat);
                lemma_pow2_unfold((t + 1) as nat);
                lemma_pow2_adds(t as nat, (384 - t) as nat);
                lemma_pow2_pos(t as nat);
                lemma_pow2_pos((383 - t) as nat);
                lemma_prefix_bound(work.0@, 6);
                lemma_prefix_bound(shifted.0@, 6);
                lemma_prefix_bound(reduced.0@, 6);
                lemma_prefix_bound(rhs.0@, 6);
                // the digit that leaves the dividend
                assert(bit <= 1) by (nonlinear_arith)
                    requires
                        shifted@ + bit * m == work@ * 2,
                        work@ < m,
                        shifted@ >= 0,
                ;
                assert(shifted@ == (low - bit * half) * (2 * scale) && 0 <= low - bit * half < half)
                    by (nonlinear_arith)
                    requires
                        shifted@ + bit * m == work@ * 2,
                        work@ == low * scale,
                        m == scale * (2 * half),
                        scale > 0,
                        half > 0,
                        bit <= 1,
                        0 <= shifted@ < m,
                        low < 2 * half,
                ;
                // the remainder takes the digit in, the divisor leaves where it fits
                assert(high <= 1) by (nonlinear_arith)
                    requires
                        doubled@ + high * m == remainder@ * 2 + bit,
                        remainder@ < m,
                        bit <= 1,
                        doubled@ >= 0,
                ;
                assert(high * m == (if high == 1 {
                    m
                } else {
                    0
                }) && borrow * m == (if borrow == 1 {
                    m
                } else {
                    0
                })) by (nonlinear_arith)
                    requires
                        high <= 1,
                        borrow <= 1,
                ;
                // the quotient takes the digit in
                assert(overflow == 0) by (nonlinear_arith)
                    requires
                        next_quotient@ + overflow * m == quotient@ * 2 + digit,
                        quotient@ < scale,
                        digit <= 1,
                        m == scale * (2 * half),
                        half >= 1,
                        next_quotient@ >= 0,
                ;
                lemma_division_step(
                    top,
                    low,
                    half,
                    bit as nat,
                    quotient@,
                    remainder@,
                    rhs@,
                    digit as nat,
                    next_remainder@,
                );
                top = 2 * top + bit as nat;
                low = (low - bit * half) as nat;
            }
            work = shifted;
            remainder = next_remainder;
            quotient = next_quotient;
            t += 1;
        }
        proof {
            lemma2_to64();
            assert(top * pow2(0) == top) by (nonlinear_arith)
                requires
                    pow2(0) == 1,
            ;
            lemma_fundamental_div_mod_converse(
                self@ as int,
                rhs@ as int,
                quotient@ as int,
                remainder@ as int,
            );
        }
        (quotient, remainder)
    }
}

// What `div` returns is stated in its own contract, over views.
impl DivSpecImpl for u256 {
    open spec fn obeys_div_spec() -> bool {
        false
    }

    open spec fn div_req(self, rhs: Self) -> bool {
        rhs@ != 0
    }

    open spec fn div_spec(self, rhs: Self) -> Self {
        self
    }
}

impl std::ops::Div for u256 {
    type Output = Self;

    /// The quotient, rounded down. The divisor is not zero.
    fn div(self, rhs: Self) -> (quotient: Self)
        ensures
            quotient@ == self@ / rhs@,
    {
        self.div_rem(rhs).0
    }
}

/// Wrapping addition is commutative: `a + b == b + a`.
pub proof fn lemma_add_commutative(a: u256, b: u256)
    ensures
        (a@ + b@) % u256::modulus() == (b@ + a@) % u256::modulus(),
{
}

/// Wrapping subtraction undoes wrapping addition: `a + b - a == b`.
pub proof fn lemma_sub_undoes_add(a: u256, b: u256)
    ensures
        ((a@ + b@) % u256::modulus() - a@) % (u256::modulus() as int) == b@,
{
    let m = u256::modulus() as int;
    lemma_prefix_bound(a.0@, 6);
    lemma_prefix_bound(b.0@, 6);
    lemma_small_mod(a@, m as nat);
    lemma_small_mod(b@, m as nat);
    lemma_sub_mod_noop((a@ + b@) as int, a@ as int, m);
}

impl Groupoid for u256 {
    proof fn lemma_eq_decides_view(a: &Self, b: &Self) {
    }

    proof fn lemma_clone_keeps_view(a: &Self, b: &Self) {
    }
}

impl Semigroup for u256 {
    open spec fn plus(a: nat, b: nat) -> nat {
        (a + b) % Self::modulus()
    }

    proof fn lemma_add_defined(a: Self, b: Self) {
    }

    proof fn lemma_add(a: Self, b: Self, sum: Self) {
    }
}

impl Monoid for u256 {
    open spec fn zero_value() -> nat {
        0
    }

    /// The integer zero.
    fn zero() -> (z: Self) {
        let z = u256([0u64;6]);
        proof {
            reveal_with_fuel(limbs_prefix, 7);
            assert(forall|i: nat| 0 * weight(i) == 0) by (nonlinear_arith);
        }
        z
    }

    fn is_zero(&self) -> (b: bool) {
        let z = Self::zero();
        *self == z
    }
}

} // verus!
