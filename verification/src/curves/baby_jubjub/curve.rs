//! The curve `A·x² + y² = 1 + B·x²·y²` with `A = 168700` and `B = 168696`,
//! and its group of points.
//!
//! The identity of the group is the point `(0, 1)`.

use crate::algebra::fields::arithmetic::lemma_eea_one;
use crate::algebra::fields::prime::field_add;
use crate::algebra::fields::prime::field_div;
use crate::algebra::fields::prime::field_mul;
use crate::algebra::fields::prime::field_sub;
use crate::algebra::fields::prime::lemma_add_commutative;
use crate::algebra::fields::prime::lemma_mul_associative;
use crate::algebra::fields::prime::lemma_mul_commutative;
use crate::algebra::groups::ecg;
use crate::algebra::groups::ecg::EllipticCurveGroup;
use crate::algebra::traits::Field;
use crate::algebra::traits::Monoid;
use crate::curves::baby_jubjub::ff::baby_jubjub_prime;
use crate::curves::baby_jubjub::ff::BabyJubJubField;
use crate::curves::baby_jubjub::ff::BabyJubJubFieldEle;
use vstd::arithmetic::div_mod::lemma_mod_self_0;
use vstd::arithmetic::div_mod::lemma_small_mod;
use vstd::prelude::*;
use vstd::std_specs::convert::FromSpecImpl;

verus! {

/// The coefficient of `x²`.
pub const BABY_JUBJUB_A: u32 = 168700u32;

/// The coefficient of `x²·y²`.
pub const BABY_JUBJUB_B: u32 = 168696u32;

/// The sum of `(x1, y1)` and `(x2, y2)` by the addition law of the twisted
/// Edwards curve `a·x² + y² = 1 + d·x²·y²` over the field of order `p`:
/// with `m = d·x1·x2·y1·y2`, the sum is
/// `((x1·y2 + y1·x2) / (1 + m), (y1·y2 − a·x1·x2) / (1 − m))`.
pub open spec fn twisted_edwards_sum(p: nat, a: nat, d: nat, left: (nat, nat), right: (nat, nat)) -> (
    nat,
    nat,
) {
    let (x1, y1) = left;
    let (x2, y2) = right;
    let m = field_mul(p, field_mul(p, field_mul(p, field_mul(p, d, x1), x2), y1), y2);
    let x3 = field_div(
        p,
        field_add(p, field_mul(p, x1, y2), field_mul(p, y1, x2)),
        field_add(p, 1, m),
    );
    let y3 = field_div(
        p,
        field_sub(p, field_mul(p, y1, y2), field_mul(p, field_mul(p, a, x1), x2)),
        field_sub(p, 1, m),
    );
    (x3, y3)
}

/// The addition law takes `(0, 1)` for its identity: by the law alone, the
/// sum of `(0, 1)` and a point with reduced coordinates is that point.
pub proof fn lemma_law_identity(p: nat, a: nat, d: nat, point: (nat, nat))
    requires
        p > 1,
        point.0 < p,
        point.1 < p,
    ensures
        twisted_edwards_sum(p, a, d, (0, 1), point) == point,
        twisted_edwards_sum(p, a, d, point, (0, 1)) == point,
{
    let (x, y) = point;
    lemma_eea_one(p);
    lemma_small_mod(0, p);
    lemma_small_mod(1, p);
    lemma_small_mod(x, p);
    lemma_small_mod(y, p);
    lemma_mod_self_0(p as int);
    assert(field_mul(p, 0, x) == 0 && field_mul(p, 0, y) == 0);
    assert(field_mul(p, 1, x) == x && field_mul(p, 1, y) == y);
}

/// A product of three residues does not depend on the order of the last two
/// factors.
proof fn lemma_mul_swap(p: nat, u: nat, v: nat, w: nat)
    requires
        p > 0,
    ensures
        field_mul(p, field_mul(p, u, v), w) == field_mul(p, field_mul(p, u, w), v),
{
    lemma_mul_associative(p, u, v, w);
    lemma_mul_commutative(p, v, w);
    lemma_mul_associative(p, u, w, v);
}

/// The addition law is commutative: the sum of two points does not depend
/// on their order.
pub proof fn lemma_law_commutative(p: nat, a: nat, d: nat, left: (nat, nat), right: (nat, nat))
    requires
        p > 0,
    ensures
        twisted_edwards_sum(p, a, d, left, right) == twisted_edwards_sum(p, a, d, right, left),
{
    let (x1, y1) = left;
    let (x2, y2) = right;
    // d·x1·x2·y1·y2 == d·x2·x1·y2·y1
    lemma_mul_swap(p, d, x1, x2);
    lemma_mul_swap(p, field_mul(p, field_mul(p, d, x2), x1), y1, y2);
    // a·x1·x2 == a·x2·x1
    lemma_mul_swap(p, a, x1, x2);
    lemma_mul_commutative(p, x1, y2);
    lemma_mul_commutative(p, y1, x2);
    lemma_mul_commutative(p, y1, y2);
    lemma_add_commutative(p, field_mul(p, x1, y2), field_mul(p, y1, x2));
}

/// The addition of Baby Jubjub is commutative: `left + right == right + left`.
pub proof fn lemma_sum_commutative(left: (nat, nat), right: (nat, nat))
    ensures
        baby_jubjub_sum(left, right) == baby_jubjub_sum(right, left),
{
    lemma_law_commutative(
        baby_jubjub_prime(),
        BABY_JUBJUB_A as nat,
        BABY_JUBJUB_B as nat,
        left,
        right,
    );
}

/// The sum of two points of Baby Jubjub: the identity leaves the other point
/// as it is, and two other points go by the addition law.
pub open spec fn baby_jubjub_sum(left: (nat, nat), right: (nat, nat)) -> (nat, nat) {
    if left == (0nat, 1nat) {
        right
    } else if right == (0nat, 1nat) {
        left
    } else {
        twisted_edwards_sum(
            baby_jubjub_prime(),
            BABY_JUBJUB_A as nat,
            BABY_JUBJUB_B as nat,
            left,
            right,
        )
    }
}

/// A point of Baby Jubjub in affine coordinates.
#[derive(Debug)]
pub struct BabyJubJubCurve {
    pub x: BabyJubJubField,
    pub y: BabyJubJubField,
}

impl Clone for BabyJubJubCurve {
    fn clone(&self) -> (r: Self)
        ensures
            r.x@ == self.x@,
            r.y@ == self.y@,
    {
        BabyJubJubCurve { x: self.x.clone(), y: self.y.clone() }
    }
}

impl ecg::CurvePoint<BabyJubJubFieldEle> for BabyJubJubCurve {
    open spec fn x_spec(&self) -> nat {
        self.x@
    }

    open spec fn y_spec(&self) -> nat {
        self.y@
    }

    fn x(&self) -> (x: BabyJubJubField) {
        self.x.clone()
    }

    fn y(&self) -> (y: BabyJubJubField) {
        self.y.clone()
    }
}

impl ecg::FromBigUint<BabyJubJubFieldEle> for BabyJubJubCurve {
    fn from(x: BabyJubJubField, y: BabyJubJubField) -> (point: Self) {
        BabyJubJubCurve { x, y }
    }
}

impl ecg::Op<BabyJubJubFieldEle> for BabyJubJubCurve {
    open spec fn op_spec(a: (nat, nat), b: (nat, nat)) -> (nat, nat) {
        baby_jubjub_sum(a, b)
    }

    open spec fn identity_spec() -> (nat, nat) {
        (0, 1)
    }

    proof fn lemma_identity_neutral(a: (nat, nat)) {
    }

    fn identity() -> (point: Self) {
        BabyJubJubCurve { x: BabyJubJubField::zero(), y: BabyJubJubField::one() }
    }

    fn op(a: Self, b: Self) -> (sum: Self) {
        if a.x.is_zero() && a.y.is_one() {
            return b;
        }
        if b.x.is_zero() && b.y.is_one() {
            return a;
        }
        let m = BabyJubJubField::from(BABY_JUBJUB_B) * a.x.clone() * b.x.clone() * a.y.clone()
            * b.y.clone();
        let x3 = (a.x.clone() * b.y.clone() + a.y.clone() * b.x.clone()) / (BabyJubJubField::one()
            + m.clone());
        let y3 = (a.y * b.y - BabyJubJubField::from(BABY_JUBJUB_A) * a.x * b.x) / (
        BabyJubJubField::one() - m);
        BabyJubJubCurve { x: x3, y: y3 }
    }
}

// What `from` returns is stated in its own contract, over views.
impl FromSpecImpl<(u32, u32)> for BabyJubJubCurve {
    open spec fn obeys_from_spec() -> bool {
        false
    }

    open spec fn from_spec(v: (u32, u32)) -> Self {
        arbitrary()
    }
}

impl From<(u32, u32)> for BabyJubJubCurve {
    fn from(v: (u32, u32)) -> (point: Self)
        ensures
            point.x@ == v.0,
            point.y@ == v.1,
    {
        BabyJubJubCurve { x: BabyJubJubField::from(v.0), y: BabyJubJubField::from(v.1) }
    }
}

/// An element of the group of Baby Jubjub.
pub type BabyJubJubCurveGroup = EllipticCurveGroup<BabyJubJubFieldEle, BabyJubJubCurve>;

} // verus!
