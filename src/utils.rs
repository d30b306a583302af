//! Two helpers over the curve layer: the x-coordinate of a point as a scalar,
//! and the inverse of a scalar with zero standing for "none".
use crate::curve::{be_nat, group_order, sec1_of_multiple, Point, Scalar};
use vstd::arithmetic::div_mod::*;
use vstd::prelude::*;

verus! {

/// `b` is the inverse of `a` modulo the group order.
pub open spec fn is_inverse(a: nat, b: nat) -> bool {
    b < group_order() && (a * b) % group_order() == 1
}

/// `a` has an inverse modulo the group order. The order is prime, so these are
/// exactly the numbers that are not multiples of it.
pub open spec fn is_invertible(a: nat) -> bool {
    exists|b: nat| #[trigger] is_inverse(a, b)
}

/// The inverse of `a` modulo the group order, and zero where there is none.
pub open spec fn inverse(a: nat) -> nat {
    if is_invertible(a) {
        choose|b: nat| #[trigger] is_inverse(a, b)
    } else {
        0
    }
}

/// An inverse, where there is one, is unique.
pub proof fn lemma_inverse_unique(a: nat, b: nat, c: nat)
    requires
        is_inverse(a, b),
        is_inverse(a, c),
    ensures
        b == c,
{
    let n = group_order() as int;
    lemma_mul_mod_noop_right(b as int, (a * c) as int, n);
    lemma_mul_mod_noop_left((a * b) as int, c as int, n);
    assert(b * (a * c) == (a * b) * c) by (nonlinear_arith);
    lemma_small_mod(b, group_order());
    lemma_small_mod(c, group_order());
}

/// Any inverse of `a` is the one that `inverse` names.
pub proof fn lemma_inverse_is(a: nat, b: nat)
    requires
        is_inverse(a, b),
    ensures
        is_invertible(a),
        inverse(a) == b,
{
    assert(is_inverse(a, b));
    let c = choose|c: nat| #[trigger] is_inverse(a, c);
    lemma_inverse_unique(a, b, c);
}

/// The affine x-coordinate that an encoding holds, as a number reduced modulo
/// the group order; zero for the identity.
pub open spec fn x_of_encoding(e: Seq<u8>) -> nat {
    if e.len() == 65 {
        be_nat(e.subrange(1, 33)) % group_order()
    } else {
        0
    }
}

/// The x-coordinate of the point `d·G`, reduced modulo the group order.
pub open spec fn x_coord(d: nat) -> nat {
    x_of_encoding(sec1_of_multiple(d))
}

/// The affine x-coordinate of `W`, reduced modulo the group order to a
/// scalar; zero for the point at infinity.
pub fn get_x(W: &Point) -> (r: Scalar)
    ensures
        r@ == x_coord(W@),
{
    let enc = W.to_sec1();
    if enc.len() == 65 {
        let mut x: [u8; 32] = [0u8; 32];
        let mut i: usize = 0;
        while i < 32
            invariant
                i <= 32,
                enc@.len() == 65,
                forall|j: int| 0 <= j < i ==> x@[j] == enc@[j + 1],
            decreases 32 - i,
        {
            x[i] = enc[i + 1];
            i = i + 1;
        }
        assert(x@ =~= enc@.subrange(1, 33));
        Scalar::from_bytes_reduced(x)
    } else {
        Scalar::zero()
    }
}

/// The inverse of `s` modulo the group order, or zero where `s` is zero.
pub fn invert_scalar(s: &Scalar) -> (r: Scalar)
    ensures
        r@ == inverse(s@),
{
    match s.invert() {
        Some(i) => {
            proof {
                lemma_inverse_is(s@, i@);
            }
            i
        },
        None => {
            proof {
                assert forall|b: nat| !is_inverse(s@, b) by {
                    assert(s@ * b == 0);
                }
            }
            Scalar::zero()
        },
    }
}

} // verus!
