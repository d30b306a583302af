//! ECDSA and its adaptor variant, with a multiplicative tweak and a proof of
//! equal discrete logarithms binding the auxiliary point `Z = p·T`.
use crate::curve::{group_order, sec1_of_multiple, Point, Scalar};
use crate::hashing::{append_bytes, hash_to_scalar, hash_value};
use crate::utils::{get_x, inverse, invert_scalar, x_coord};
use crate::{AS_scheme, Pi, Sigma, Sigma_prime, Sign_scheme, ZKP};
use vstd::arithmetic::div_mod::*;
use vstd::prelude::*;
use vstd::string::StringSliceAdditionalSpecFns;

verus! {

/// `e = H(m)`: ECDSA hashes the message alone.
pub open spec fn ecdsa_challenge(m: Seq<u8>) -> nat {
    hash_value(m)
}

/// The `s = k⁻¹·(e + r·p)` of the signature of `m` by `p` with nonce `k`,
/// where `r = x(k·G)`.
pub open spec fn ecdsa_sign_s(p: nat, m: Seq<u8>, k: nat) -> nat {
    (inverse(k) * (ecdsa_challenge(m) + x_coord(k) * p)) % group_order()
}

/// The verification equation `x((e·G + r·P)·s⁻¹) = r` with `r = x(R)`.
pub open spec fn ecdsa_accepts(s: nat, r: nat, pk: nat, m: Seq<u8>) -> bool {
    x_coord(r) == x_coord(((ecdsa_challenge(m) + x_coord(r) * pk) * inverse(s)) % group_order())
}

/// The `R′ = k·T` of a pre-signature.
pub open spec fn ecdsa_pre_sign_r(k: nat, t: nat) -> nat {
    (t * k) % group_order()
}

/// The `s′ = k⁻¹·(e + r′·p)` of a pre-signature, where `r′ = x(R′)`.
pub open spec fn ecdsa_pre_sign_s(p: nat, m: Seq<u8>, k: nat, t: nat) -> nat {
    (inverse(k) * (ecdsa_challenge(m) + x_coord(ecdsa_pre_sign_r(k, t)) * p)) % group_order()
}

/// The algebraic part of pre-verification: `x((e·T + r′·Z)·s′⁻¹) = r′` with
/// `r′ = x(R′)`.
pub open spec fn ecdsa_pre_equation(s_prime: nat, r_prime: nat, z: nat, t: nat, m: Seq<u8>) -> bool {
    x_coord(r_prime) == x_coord(
        ((ecdsa_challenge(m) * t + x_coord(r_prime) * z) * inverse(s_prime)) % group_order(),
    )
}

/// The Fiat–Shamir challenge `H(G ∥ T ∥ P ∥ Z ∥ J ∥ J′)`.
pub open spec fn dleq_challenge(pk: nat, z: nat, t: nat, j: nat, j_prime: nat) -> nat {
    hash_value(
        sec1_of_multiple(1) + sec1_of_multiple(t) + sec1_of_multiple(pk) + sec1_of_multiple(z)
            + sec1_of_multiple(j) + sec1_of_multiple(j_prime),
    )
}

/// Proof verification: with `J = i·G − e·P` and `J′ = i·T − e·Z`, the challenge
/// recomputed from them is `e`.
pub open spec fn dleq_accepts(pk: nat, z: nat, t: nat, e: nat, i: nat) -> bool {
    e == dleq_challenge(
        pk,
        z,
        t,
        ((i - e * pk) % (group_order() as int)) as nat,
        ((i * t - e * z) % (group_order() as int)) as nat,
    )
}

/// The challenge of the proof made with the commitment nonce `j`:
/// `J = j·G`, `J′ = j·T`.
pub open spec fn dleq_proof_e(pk: nat, z: nat, t: nat, j: nat) -> nat {
    dleq_challenge(pk, z, t, j, (t * j) % group_order())
}

/// The response `i = j + e·p` of the proof made with the commitment nonce `j`.
pub open spec fn dleq_proof_i(p: nat, pk: nat, z: nat, t: nat, j: nat) -> nat {
    (j + dleq_proof_e(pk, z, t, j) * p) % group_order()
}

/// The ECDSA scheme.
#[derive(Clone, Copy)]
pub struct ECDSA;

impl ECDSA {
    /// The proof that `log_G(P) = log_T(Z) = p`, made with the commitment nonce `j`.
    pub fn gen_proof_with_nonce(&self, p: &Scalar, Z: &Point, P: &Point, T: &Point, j: &Scalar) -> (pi:
        Pi)
        ensures
            pi.e@ == dleq_proof_e(P@, Z@, T@, j@),
            pi.i@ == dleq_proof_i(p@, P@, Z@, T@, j@),
    {
        let J = Point::mul_base(j);
        let J_prime = T.mul(j);
        let e = self.compute_challenge(P, Z, T, &J, &J_prime);
        let i = j.add(&e.mul(p));
        proof {
            lemma_add_mod_noop_right(j@ as int, (e@ * p@) as int, group_order() as int);
        }
        Pi { e, i }
    }

    /// The pre-signature of `m` by `p` for the tweak point `T`, with nonce `k`
    /// and proof nonce `j`.
    pub fn pre_sign_with_proof_nonce(
        &self,
        p: &Scalar,
        m: &str,
        T: &Point,
        k: &Scalar,
        j: &Scalar,
    ) -> (sigma_prime: Sigma_prime)
        requires
            m@.len() > 0,
        ensures
            sigma_prime.R_prime@ == ecdsa_pre_sign_r(k@, T@),
            sigma_prime.s_prime@ == ecdsa_pre_sign_s(p@, m.spec_bytes(), k@, T@),
            sigma_prime.Z@ == (T@ * p@) % group_order(),
            sigma_prime.pi.e@ == dleq_proof_e(p@, sigma_prime.Z@, T@, j@),
            sigma_prime.pi.i@ == dleq_proof_i(p@, p@, sigma_prime.Z@, T@, j@),
    {
        let R_prime = T.mul(k);
        let R_prime_x = get_x(&R_prime);
        let P = Point::mul_base(p);
        let e = self.hash_challenge(&R_prime, &P, m);
        let k_inv = invert_scalar(k);
        let s_prime = k_inv.mul(&e.add(&R_prime_x.mul(p)));
        let Z = T.mul(p);
        let pi = self.gen_proof_with_nonce(p, &Z, &P, T, j);
        proof {
            let n = group_order() as int;
            let u: int = (e@ + R_prime_x@ * p@) as int;
            lemma_add_mod_noop_right(e@ as int, (R_prime_x@ * p@) as int, n);
            lemma_mul_mod_noop_right(k_inv@ as int, u, n);
        }
        Sigma_prime { s_prime, R_prime, Z, pi }
    }
}

impl ZKP for ECDSA {
    /// `H(G ∥ T ∥ P ∥ Z ∥ J ∥ J′)`.
    fn compute_challenge(&self, P: &Point, Z: &Point, T: &Point, J: &Point, J_prime: &Point) -> (e:
        Scalar)
        ensures
            e@ == dleq_challenge(P@, Z@, T@, J@, J_prime@),
    {
        let G = Point::generator();
        let mut data: Vec<u8> = Vec::new();
        append_bytes(&mut data, G.to_sec1().as_slice());
        append_bytes(&mut data, T.to_sec1().as_slice());
        append_bytes(&mut data, P.to_sec1().as_slice());
        append_bytes(&mut data, Z.to_sec1().as_slice());
        append_bytes(&mut data, J.to_sec1().as_slice());
        append_bytes(&mut data, J_prime.to_sec1().as_slice());
        hash_to_scalar(data.as_slice())
    }

    /// The proof that `log_G(P) = log_T(Z) = p`, with a fresh commitment nonce.
    fn gen_proof(&self, p: &Scalar, Z: &Point, P: &Point, T: &Point) -> (pi: Pi)
        ensures
            exists|j: nat|
                j < group_order() && pi.e@ == dleq_proof_e(P@, Z@, T@, j) && pi.i@
                    == dleq_proof_i(p@, P@, Z@, T@, j),
    {
        let j = Scalar::random();
        self.gen_proof_with_nonce(p, Z, P, T, &j)
    }

    /// Accepts exactly when the challenge recomputed from `i·G − e·P` and
    /// `i·T − e·Z` is `e`.
    fn verify_proof(&self, P: &Point, Z: &Point, T: &Point, pi: &Pi) -> (b: bool)
        ensures
            b == dleq_accepts(P@, Z@, T@, pi.e@, pi.i@),
    {
        let J = Point::mul_base(&pi.i).sub(&P.mul(&pi.e));
        let J_prime = T.mul(&pi.i).sub(&Z.mul(&pi.e));
        let e_bis = self.compute_challenge(P, Z, T, &J, &J_prime);
        proof {
            let n = group_order() as int;
            lemma_sub_mod_noop_right(pi.i@ as int, (P@ * pi.e@) as int, n);
            lemma_sub_mod_noop((T@ * pi.i@) as int, (Z@ * pi.e@) as int, n);
            assert(P@ * pi.e@ == pi.e@ * P@) by (nonlinear_arith);
            assert(Z@ * pi.e@ == pi.e@ * Z@) by (nonlinear_arith);
            assert(T@ * pi.i@ == pi.i@ * T@) by (nonlinear_arith);
        }
        e_bis.equals(&pi.e)
    }
}

impl Sign_scheme for ECDSA {
    /// `(k⁻¹·(e + r·p), k·G)` with `r = x(k·G)`.
    fn sign(&self, p: &Scalar, m: &str, k: &Scalar) -> (sigma: Sigma)
        ensures
            sigma.R@ == k@,
            sigma.s@ == ecdsa_sign_s(p@, m.spec_bytes(), k@),
    {
        let R = Point::mul_base(k);
        let P = Point::mul_base(p);
        let r_x = get_x(&R);
        let e = self.hash_challenge(&R, &P, m);
        let k_inv = invert_scalar(k);
        let s = k_inv.mul(&e.add(&p.mul(&r_x)));
        proof {
            let n = group_order() as int;
            let u: int = (e@ + p@ * r_x@) as int;
            lemma_add_mod_noop_right(e@ as int, (p@ * r_x@) as int, n);
            lemma_mul_mod_noop_right(k_inv@ as int, u, n);
            assert(p@ * r_x@ == r_x@ * p@) by (nonlinear_arith);
        }
        Sigma { s, R }
    }

    /// Accepts exactly when `x((e·G + r·P)·s⁻¹) = r` with `r = x(R)`.
    fn verify_sign(&self, sigma: &Sigma, P: &Point, m: &str) -> (b: bool)
        ensures
            b == ecdsa_accepts(sigma.s@, sigma.R@, P@, m.spec_bytes()),
    {
        let r_x = get_x(&sigma.R);
        let e = self.hash_challenge(&sigma.R, P, m);
        let s_inv = invert_scalar(&sigma.s);
        let rhs_point = Point::mul_base(&e).add(&P.mul(&r_x)).mul(&s_inv);
        let rhs = get_x(&rhs_point);
        proof {
            let n = group_order() as int;
            let u: int = (e@ + P@ * r_x@) as int;
            lemma_add_mod_noop_right(e@ as int, (P@ * r_x@) as int, n);
            lemma_mul_mod_noop_left(u, s_inv@ as int, n);
            assert(P@ * r_x@ == r_x@ * P@) by (nonlinear_arith);
        }
        r_x.equals(&rhs)
    }
}

impl AS_scheme for ECDSA {
    /// `H(m)`; the points are not hashed.
    fn hash_challenge(&self, R: &Point, P: &Point, message: &str) -> (e: Scalar)
        ensures
            e@ == ecdsa_challenge(message.spec_bytes()),
    {
        hash_to_scalar(message.as_bytes())
    }

    /// `(k⁻¹·(e + r′·p), k·T, p·T, π)` with `r′ = x(k·T)` and `π` a proof made
    /// with a fresh nonce.
    fn pre_sign(&self, p: &Scalar, m: &str, T: &Point, r_prime: &Scalar) -> (sigma_prime:
        Sigma_prime)
        ensures
            sigma_prime.R_prime@ == ecdsa_pre_sign_r(r_prime@, T@),
            sigma_prime.s_prime@ == ecdsa_pre_sign_s(p@, m.spec_bytes(), r_prime@, T@),
            sigma_prime.Z@ == (T@ * p@) % group_order(),
            exists|j: nat|
                j < group_order() && sigma_prime.pi.e@ == dleq_proof_e(p@, sigma_prime.Z@, T@, j)
                    && sigma_prime.pi.i@ == dleq_proof_i(p@, p@, sigma_prime.Z@, T@, j),
    {
        let j = Scalar::random();
        self.pre_sign_with_proof_nonce(p, m, T, r_prime, &j)
    }

    /// Accepts exactly when `x((e·T + r′·Z)·s′⁻¹) = r′` and the proof `π` holds.
    fn verify_pre_sign(&self, P: &Point, m: &str, T: &Point, sigma_prime: &Sigma_prime) -> (b:
        bool)
        ensures
            b == (ecdsa_pre_equation(
                sigma_prime.s_prime@,
                sigma_prime.R_prime@,
                sigma_prime.Z@,
                T@,
                m.spec_bytes(),
            ) && dleq_accepts(P@, sigma_prime.Z@, T@, sigma_prime.pi.e@, sigma_prime.pi.i@)),
    {
        let r_prime_x = get_x(&sigma_prime.R_prime);
        let s_prime_inv = invert_scalar(&sigma_prime.s_prime);
        let e = self.hash_challenge(&sigma_prime.R_prime, P, m);
        let rhs_point = T.mul(&e).add(&sigma_prime.Z.mul(&r_prime_x)).mul(&s_prime_inv);
        let rhs = get_x(&rhs_point);
        proof {
            let n = group_order() as int;
            let u: int = (T@ * e@ + sigma_prime.Z@ * r_prime_x@) as int;
            lemma_add_mod_noop((T@ * e@) as int, (sigma_prime.Z@ * r_prime_x@) as int, n);
            lemma_mul_mod_noop_left(u, s_prime_inv@ as int, n);
            assert(T@ * e@ == e@ * T@) by (nonlinear_arith);
            assert(sigma_prime.Z@ * r_prime_x@ == r_prime_x@ * sigma_prime.Z@) by (nonlinear_arith);
        }
        r_prime_x.equals(&rhs) && self.verify_proof(P, &sigma_prime.Z, T, &sigma_prime.pi)
    }

    /// `(s′·t⁻¹, R′)`.
    fn adapt_signature(&self, sigma_prime: &Sigma_prime, t: &Scalar) -> (sigma: Sigma)
        ensures
            sigma.s@ == (sigma_prime.s_prime@ * inverse(t@)) % group_order(),
            sigma.R@ == sigma_prime.R_prime@,
    {
        let t_inv = invert_scalar(t);
        let s = sigma_prime.s_prime.mul(&t_inv);
        Sigma { s, R: sigma_prime.R_prime.clone() }
    }

    /// `s′·s⁻¹`.
    fn extract_witness(&self, sigma: &Sigma, sigma_prime: &Sigma_prime) -> (t: Scalar)
        ensures
            t@ == (sigma_prime.s_prime@ * inverse(sigma.s@)) % group_order(),
    {
        let s_inv = invert_scalar(&sigma.s);
        sigma_prime.s_prime.mul(&s_inv)
    }
}

} // verus!
