#![allow(non_snake_case)]
#![allow(non_camel_case_types)]

//! Adaptor signatures over secp256k1 for Schnorr and ECDSA.
//!
//! A pre-signature is bound to a tweak point `T = t·G`; whoever knows `t` can
//! adapt it into an ordinary signature, and whoever then holds both can
//! extract `t`. Scalars are viewed as integers modulo the group order and
//! points as their discrete logarithms to `G`.
pub mod curve;
pub mod ecdsa;
pub mod fde;
pub mod hashing;
pub mod laws;
pub mod scheme;
pub mod schnorr;
pub mod swap;
pub mod utils;

pub use curve::{Point, Scalar};
pub use ecdsa::ECDSA;
pub use scheme::Scheme;
pub use schnorr::Schnorr;

use vstd::prelude::*;

verus! {

/// A pre-signature `σ′ = (s′, R′, Z, π)`. Schnorr leaves `Z` at the identity
/// and `π` at zero.
pub struct Sigma_prime {
    pub s_prime: Scalar,
    pub R_prime: Point,
    pub Z: Point,
    pub pi: Pi,
}

impl Default for Sigma_prime {
    fn default() -> (r: Sigma_prime)
        ensures
            r.s_prime@ == 0,
            r.R_prime@ == 0,
            r.Z@ == 0,
            r.pi.e@ == 0,
            r.pi.i@ == 0,
    {
        Sigma_prime {
            s_prime: Scalar::zero(),
            R_prime: Point::identity(),
            Z: Point::identity(),
            pi: Pi::default(),
        }
    }
}

/// A signature `σ = (s, R)`.
pub struct Sigma {
    pub s: Scalar,
    pub R: Point,
}

impl Default for Sigma {
    fn default() -> (r: Sigma)
        ensures
            r.s@ == 0,
            r.R@ == 0,
    {
        Sigma { s: Scalar::zero(), R: Point::identity() }
    }
}

/// A Fiat–Shamir proof `π = (e, i)` of equal discrete logarithms.
pub struct Pi {
    pub e: Scalar,
    pub i: Scalar,
}

impl Default for Pi {
    fn default() -> (r: Pi)
        ensures
            r.e@ == 0,
            r.i@ == 0,
    {
        Pi { e: Scalar::zero(), i: Scalar::zero() }
    }
}

/// A proof that `log_G(P) = log_T(Z)`.
pub trait ZKP {
    fn compute_challenge(&self, P: &Point, Z: &Point, T: &Point, J: &Point, J_prime: &Point) -> Scalar;

    fn gen_proof(&self, p: &Scalar, Z: &Point, P: &Point, T: &Point) -> Pi;

    fn verify_proof(&self, P: &Point, Z: &Point, T: &Point, pi: &Pi) -> bool;
}

/// The adaptor side of a scheme: pre-sign, check, adapt and extract.
pub trait AS_scheme {
    fn hash_challenge(&self, R: &Point, P: &Point, message: &str) -> Scalar
        requires
            message@.len() > 0,
    ;

    fn pre_sign(&self, p: &Scalar, m: &str, T: &Point, r_prime: &Scalar) -> Sigma_prime
        requires
            m@.len() > 0,
    ;

    fn verify_pre_sign(&self, P: &Point, m: &str, T: &Point, sigma_prime: &Sigma_prime) -> bool
        requires
            m@.len() > 0,
    ;

    fn adapt_signature(&self, sigma_prime: &Sigma_prime, t: &Scalar) -> Sigma;

    fn extract_witness(&self, sigma: &Sigma, sigma_prime: &Sigma_prime) -> Scalar;
}

/// Ordinary signing and verification.
pub trait Sign_scheme {
    fn sign(&self, p: &Scalar, m: &str, k: &Scalar) -> Sigma
        requires
            m@.len() > 0,
    ;

    fn verify_sign(&self, sigma: &Sigma, P: &Point, m: &str) -> bool
        requires
            m@.len() > 0,
    ;
}

} // verus!
