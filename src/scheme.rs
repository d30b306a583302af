//! One interface over both schemes, chosen by a tag.
use crate::curve::{group_order, Point, Scalar};
use crate::ecdsa::{
    dleq_accepts, dleq_proof_e, dleq_proof_i, ecdsa_accepts, ecdsa_challenge, ecdsa_pre_equation,
    ecdsa_pre_sign_r, ecdsa_pre_sign_s, ecdsa_sign_s,
};
use crate::schnorr::{
    schnorr_accepts, schnorr_challenge, schnorr_pre_accepts, schnorr_pre_sign_r, schnorr_pre_sign_s,
    schnorr_sign_s,
};
use crate::utils::inverse;
use crate::{AS_scheme, Sigma, Sigma_prime, Sign_scheme, Schnorr, ECDSA};
use vstd::prelude::*;
use vstd::string::StringSliceAdditionalSpecFns;

verus! {

/// The scheme in use; it carries no state.
#[derive(Clone, Copy)]
pub enum Scheme {
    Schnorr(Schnorr),
    ECDSA(ECDSA),
}

impl Scheme {
    /// The `s` that signing `m` with key `p` and nonce `k` gives.
    pub open spec fn sign_s(self, p: nat, m: Seq<u8>, k: nat) -> nat {
        match self {
            Scheme::Schnorr(_) => schnorr_sign_s(p, m, k),
            Scheme::ECDSA(_) => ecdsa_sign_s(p, m, k),
        }
    }

    /// Whether `(s, r·G)` verifies for `m` under the public key `pk·G`.
    pub open spec fn accepts(self, s: nat, r: nat, pk: nat, m: Seq<u8>) -> bool {
        match self {
            Scheme::Schnorr(_) => schnorr_accepts(s, r, pk, m),
            Scheme::ECDSA(_) => ecdsa_accepts(s, r, pk, m),
        }
    }

    /// The challenge scalar of `(R, P, m)`.
    pub open spec fn challenge(self, r: nat, pk: nat, m: Seq<u8>) -> nat {
        match self {
            Scheme::Schnorr(_) => schnorr_challenge(r, pk, m),
            Scheme::ECDSA(_) => ecdsa_challenge(m),
        }
    }

    /// Whether `σ′` is what pre-signing `m` with key `p`, tweak point `t·G`
    /// and nonce `k` gives (for ECDSA, with some proof nonce).
    pub open spec fn is_pre_signature(self, sp: Sigma_prime, p: nat, m: Seq<u8>, t: nat, k: nat) -> bool {
        match self {
            Scheme::Schnorr(_) => {
                &&& sp.R_prime@ == schnorr_pre_sign_r(k, t)
                &&& sp.s_prime@ == schnorr_pre_sign_s(p, m, k, t)
                &&& sp.Z@ == 0
                &&& sp.pi.e@ == 0
                &&& sp.pi.i@ == 0
            },
            Scheme::ECDSA(_) => {
                &&& sp.R_prime@ == ecdsa_pre_sign_r(k, t)
                &&& sp.s_prime@ == ecdsa_pre_sign_s(p, m, k, t)
                &&& sp.Z@ == (t * p) % group_order()
                &&& exists|j: nat|
                    j < group_order() && sp.pi.e@ == dleq_proof_e(p, sp.Z@, t, j) && sp.pi.i@
                        == dleq_proof_i(p, p, sp.Z@, t, j)
            },
        }
    }

    /// Whether `σ′` pre-verifies for `m` under `pk·G` and the tweak point `t·G`.
    pub open spec fn pre_accepts(self, sp: Sigma_prime, pk: nat, t: nat, m: Seq<u8>) -> bool {
        match self {
            Scheme::Schnorr(_) => schnorr_pre_accepts(sp.s_prime@, sp.R_prime@, pk, t, m),
            Scheme::ECDSA(_) => ecdsa_pre_equation(sp.s_prime@, sp.R_prime@, sp.Z@, t, m)
                && dleq_accepts(pk, sp.Z@, t, sp.pi.e@, sp.pi.i@),
        }
    }

    /// The `s` of the signature that adapting `s′` with the witness `t` gives.
    pub open spec fn adapt_s(self, s_prime: nat, t: nat) -> nat {
        match self {
            Scheme::Schnorr(_) => (s_prime + t) % group_order(),
            Scheme::ECDSA(_) => (s_prime * inverse(t)) % group_order(),
        }
    }

    /// The witness extracted from a signature `s` and a pre-signature `s′`.
    pub open spec fn extract(self, s: nat, s_prime: nat) -> nat {
        match self {
            Scheme::Schnorr(_) => ((s - s_prime) % (group_order() as int)) as nat,
            Scheme::ECDSA(_) => (s_prime * inverse(s)) % group_order(),
        }
    }
}

impl Sign_scheme for Scheme {
    fn sign(&self, p: &Scalar, m: &str, k: &Scalar) -> (sigma: Sigma)
        ensures
            sigma.R@ == k@,
            sigma.s@ == self.sign_s(p@, m.spec_bytes(), k@),
    {
        match self {
            Scheme::Schnorr(s) => s.sign(p, m, k),
            Scheme::ECDSA(e) => e.sign(p, m, k),
        }
    }

    fn verify_sign(&self, sigma: &Sigma, P: &Point, m: &str) -> (b: bool)
        ensures
            b == self.accepts(sigma.s@, sigma.R@, P@, m.spec_bytes()),
    {
        match self {
            Scheme::Schnorr(s) => s.verify_sign(sigma, P, m),
            Scheme::ECDSA(e) => e.verify_sign(sigma, P, m),
        }
    }
}

impl AS_scheme for Scheme {
    fn pre_sign(&self, p: &Scalar, m: &str, T: &Point, k: &Scalar) -> (sigma_prime: Sigma_prime)
        ensures
            self.is_pre_signature(sigma_prime, p@, m.spec_bytes(), T@, k@),
    {
        match self {
            Scheme::Schnorr(s) => s.pre_sign(p, m, T, k),
            Scheme::ECDSA(e) => e.pre_sign(p, m, T, k),
        }
    }

    fn verify_pre_sign(&self, P: &Point, m: &str, T: &Point, sigma_prime: &Sigma_prime) -> (b:
        bool)
        ensures
            b == self.pre_accepts(*sigma_prime, P@, T@, m.spec_bytes()),
    {
        match self {
            Scheme::Schnorr(s) => s.verify_pre_sign(P, m, T, sigma_prime),
            Scheme::ECDSA(e) => e.verify_pre_sign(P, m, T, sigma_prime),
        }
    }

    fn adapt_signature(&self, sigma_prime: &Sigma_prime, t: &Scalar) -> (sigma: Sigma)
        ensures
            sigma.s@ == self.adapt_s(sigma_prime.s_prime@, t@),
            sigma.R@ == sigma_prime.R_prime@,
    {
        match self {
            Scheme::Schnorr(s) => s.adapt_signature(sigma_prime, t),
            Scheme::ECDSA(e) => e.adapt_signature(sigma_prime, t),
        }
    }

    fn extract_witness(&self, sigma: &Sigma, sigma_prime: &Sigma_prime) -> (t: Scalar)
        ensures
            t@ == self.extract(sigma.s@, sigma_prime.s_prime@),
    {
        match self {
            Scheme::Schnorr(s) => s.extract_witness(sigma, sigma_prime),
            Scheme::ECDSA(e) => e.extract_witness(sigma, sigma_prime),
        }
    }

    fn hash_challenge(&self, R: &Point, P: &Point, message: &str) -> (e: Scalar)
        ensures
            e@ == self.challenge(R@, P@, message.spec_bytes()),
    {
        match self {
            Scheme::Schnorr(s) => s.hash_challenge(R, P, message),
            Scheme::ECDSA(e) => e.hash_challenge(R, P, message),
        }
    }
}

} // verus!
