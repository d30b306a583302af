//! Schnorr signatures and their adaptor variant, with an additive tweak.
use crate::curve::{group_order, sec1_of_multiple, Point, Scalar};
use crate::hashing::{append_bytes, hash_to_scalar, hash_value};
use crate::{AS_scheme, Pi, Sigma, Sigma_prime, Sign_scheme};
use vstd::arithmetic::div_mod::*;
use vstd::prelude::*;
use vstd::string::StringSliceAdditionalSpecFns;

verus! {

/// `e = H(R ∥ P ∥ m)` for the points `R = r·G` and `P = pk·G`, each in
/// uncompressed SEC1 form.
pub open spec fn schnorr_challenge(r: nat, pk: nat, m: Seq<u8>) -> nat {
    hash_value(sec1_of_multiple(r) + sec1_of_multiple(pk) + m)
}

/// The `s` of the signature of `m` by the secret key `p` with the nonce `k`:
/// `s = k + e·p` with `e = H(k·G ∥ p·G ∥ m)`.
pub open spec fn schnorr_sign_s(p: nat, m: Seq<u8>, k: nat) -> nat {
    (k + schnorr_challenge(k, p, m) * p) % group_order()
}

/// The verification equation `s·G = R + e·P` with `e = H(R ∥ P ∥ m)`.
pub open spec fn schnorr_accepts(s: nat, r: nat, pk: nat, m: Seq<u8>) -> bool {
    s == (r + schnorr_challenge(r, pk, m) * pk) % group_order()
}

/// The `R′ = r′·G + T` of a pre-signature.
pub open spec fn schnorr_pre_sign_r(r_prime: nat, t: nat) -> nat {
    (r_prime + t) % group_order()
}

/// The `s′ = r′ + e·p` of a pre-signature, with `e = H(R′ ∥ p·G ∥ m)`.
pub open spec fn schnorr_pre_sign_s(p: nat, m: Seq<u8>, r_prime: nat, t: nat) -> nat {
    (r_prime + schnorr_challenge(schnorr_pre_sign_r(r_prime, t), p, m) * p) % group_order()
}

/// The pre-verification equation `s′·G = (R′ − T) + e·P` with `e = H(R′ ∥ P ∥ m)`.
pub open spec fn schnorr_pre_accepts(s_prime: nat, r_prime: nat, pk: nat, t: nat, m: Seq<u8>) -> bool {
    s_prime == (r_prime - t + schnorr_challenge(r_prime, pk, m) * pk) % (group_order() as int)
}

/// The Schnorr scheme.
#[derive(Clone, Copy)]
pub struct Schnorr;

impl Sign_scheme for Schnorr {
    /// Signs `m` with the secret key `p` and the nonce `k`: `(k + e·p, k·G)`.
    fn sign(&self, p: &Scalar, m: &str, k: &Scalar) -> (sigma: Sigma)
        ensures
            sigma.R@ == k@,
            sigma.s@ == schnorr_sign_s(p@, m.spec_bytes(), k@),
    {
        let R = Point::mul_base(k);
        let P = Point::mul_base(p);
        let e = self.hash_challenge(&R, &P, m);
        let s = k.add(&e.mul(p));
        proof {
            lemma_add_mod_noop_right(k@ as int, (e@ * p@) as int, group_order() as int);
        }
        Sigma { s, R }
    }

    /// Accepts exactly when `s·G = R + e·P`.
    fn verify_sign(&self, sigma: &Sigma, P: &Point, m: &str) -> (b: bool)
        ensures
            b == schnorr_accepts(sigma.s@, sigma.R@, P@, m.spec_bytes()),
    {
        let e = self.hash_challenge(&sigma.R, P, m);
        let lhs = Point::mul_base(&sigma.s);
        let rhs = sigma.R.add(&P.mul(&e));
        proof {
            lemma_add_mod_noop_right(sigma.R@ as int, (P@ * e@) as int, group_order() as int);
            assert(P@ * e@ == e@ * P@) by (nonlinear_arith);
        }
        lhs.equals(&rhs)
    }
}

impl AS_scheme for Schnorr {
    /// `H(R ∥ P ∥ m)`.
    fn hash_challenge(&self, R: &Point, P: &Point, message: &str) -> (e: Scalar)
        ensures
            e@ == schnorr_challenge(R@, P@, message.spec_bytes()),
    {
        let mut data: Vec<u8> = Vec::new();
        append_bytes(&mut data, R.to_sec1().as_slice());
        append_bytes(&mut data, P.to_sec1().as_slice());
        append_bytes(&mut data, message.as_bytes());
        hash_to_scalar(data.as_slice())
    }

    /// `(r′ + e·p, r′·G + T)`, with `Z` the identity and `π` zero.
    fn pre_sign(&self, p: &Scalar, m: &str, T: &Point, r_prime: &Scalar) -> (sigma_prime:
        Sigma_prime)
        ensures
            sigma_prime.R_prime@ == schnorr_pre_sign_r(r_prime@, T@),
            sigma_prime.s_prime@ == schnorr_pre_sign_s(p@, m.spec_bytes(), r_prime@, T@),
            sigma_prime.Z@ == 0,
            sigma_prime.pi.e@ == 0,
            sigma_prime.pi.i@ == 0,
    {
        let R_prime = Point::mul_base(r_prime).add(T);
        let P = Point::mul_base(p);
        let e = self.hash_challenge(&R_prime, &P, m);
        let s_prime = r_prime.add(&e.mul(p));
        proof {
            lemma_add_mod_noop_right(r_prime@ as int, (e@ * p@) as int, group_order() as int);
        }
        Sigma_prime { s_prime, R_prime, Z: Point::identity(), pi: Pi::default() }
    }

    /// Accepts exactly when `s′·G = (R′ − T) + e·P`.
    fn verify_pre_sign(&self, P: &Point, m: &str, T: &Point, sigma_prime: &Sigma_prime) -> (b:
        bool)
        ensures
            b == schnorr_pre_accepts(
                sigma_prime.s_prime@,
                sigma_prime.R_prime@,
                P@,
                T@,
                m.spec_bytes(),
            ),
    {
        let e = self.hash_challenge(&sigma_prime.R_prime, P, m);
        let lhs = Point::mul_base(&sigma_prime.s_prime);
        let rhs = sigma_prime.R_prime.sub(T).add(&P.mul(&e));
        proof {
            let n = group_order() as int;
            lemma_add_mod_noop(sigma_prime.R_prime@ - T@, (P@ * e@) as int, n);
            lemma_small_mod((P@ * e@) % group_order(), group_order());
            assert(P@ * e@ == e@ * P@) by (nonlinear_arith);
        }
        lhs.equals(&rhs)
    }

    /// `(s′ + t, R′)`.
    fn adapt_signature(&self, sigma_prime: &Sigma_prime, t: &Scalar) -> (sigma: Sigma)
        ensures
            sigma.s@ == (sigma_prime.s_prime@ + t@) % group_order(),
            sigma.R@ == sigma_prime.R_prime@,
    {
        Sigma { s: sigma_prime.s_prime.add(t), R: sigma_prime.R_prime.clone() }
    }

    /// `s − s′`.
    fn extract_witness(&self, sigma: &Sigma, sigma_prime: &Sigma_prime) -> (t: Scalar)
        ensures
            t@ == (sigma.s@ - sigma_prime.s_prime@) % (group_order() as int),
    {
        sigma.s.sub(&sigma_prime.s_prime)
    }
}

} // verus!
