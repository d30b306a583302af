//! The two parties of an atomic swap: Alice, who knows the witness `t` of the
//! tweak point `T`, and Bob. Each pre-signs the transaction the other wants;
//! when Alice publishes Bob's adapted signature, Bob extracts `t` from it and
//! completes Alice's.
use crate::curve::{group_order, Point, Scalar};
use crate::{AS_scheme, Scheme, Sigma, Sigma_prime, Sign_scheme};
use vstd::prelude::*;
use vstd::string::StringSliceAdditionalSpecFns;

verus! {

/// The party that holds the swap's witness `t`.
pub struct Alice {
    sk: Scalar,
    pub pk: Point,
    t: Scalar,
    pub T: Point,
    scheme: Scheme,
}

impl Alice {
    /// Alice's secret key.
    pub closed spec fn secret(self) -> nat {
        self.sk@
    }

    /// Alice's public key, as a discrete logarithm.
    pub closed spec fn public_key(self) -> nat {
        self.pk@
    }

    /// The tweak point `T`, as a discrete logarithm.
    pub closed spec fn tweak_point(self) -> nat {
        self.T@
    }

    /// The witness `t` of the tweak point.
    pub closed spec fn witness(self) -> nat {
        self.t@
    }

    /// The scheme Alice signs with.
    pub closed spec fn scheme_of(self) -> Scheme {
        self.scheme
    }

    /// Draws Alice's key and witness; `pk = sk·G`, `T = t·G`.
    pub fn new(scheme: Scheme) -> (r: Alice)
        ensures
            r.secret() < group_order(),
            r.witness() < group_order(),
            r.public_key() == r.secret(),
            r.tweak_point() == r.witness(),
            r.scheme_of() == scheme,
    {
        let sk = Scalar::random();
        let pk = Point::mul_base(&sk);
        let t = Scalar::random();
        let T = Point::mul_base(&t);
        Alice { sk, pk, t, T, scheme }
    }

    /// Pre-signs `tx` for the tweak point `T` with a fresh nonce; returns the
    /// pre-signature and `T`.
    pub fn generate_presig(&self, tx: &str) -> (r: (Sigma_prime, Point))
        requires
            tx@.len() > 0,
        ensures
            r.1@ == self.tweak_point(),
            exists|k: nat|
                k < group_order() && self.scheme_of().is_pre_signature(
                    r.0,
                    self.secret(),
                    tx.spec_bytes(),
                    self.tweak_point(),
                    k,
                ),
    {
        let r_prime = Scalar::random();
        let sigma_prime = self.scheme.pre_sign(&self.sk, tx, &self.T, &r_prime);
        assert(self.scheme_of().is_pre_signature(
            sigma_prime,
            self.secret(),
            tx.spec_bytes(),
            self.tweak_point(),
            r_prime@,
        ));
        let pair = (sigma_prime, self.T.clone());
        assert(pair.0 == sigma_prime);
        pair
    }

    /// Whether `sigma_prime` pre-verifies for `tx` under `pk` and Alice's `T`.
    pub fn verify_presig(&self, sigma_prime: &Sigma_prime, pk: &Point, tx: &str) -> (b: bool)
        requires
            tx@.len() > 0,
        ensures
            b == self.scheme_of().pre_accepts(*sigma_prime, pk@, self.tweak_point(), tx.spec_bytes()),
    {
        self.scheme.verify_pre_sign(pk, tx, &self.T, sigma_prime)
    }

    /// Signs `tx` with a fresh nonce, and adapts Bob's pre-signature with `t`.
    pub fn generate_sig_and_adapt(&self, tx: &str, sigma_prime_b: &Sigma_prime) -> (r: (
        Sigma,
        Sigma,
    ))
        requires
            tx@.len() > 0,
        ensures
            exists|k: nat|
                k < group_order() && r.0.R@ == k && r.0.s@ == self.scheme_of().sign_s(
                    self.secret(),
                    tx.spec_bytes(),
                    k,
                ),
            r.1.s@ == self.scheme_of().adapt_s(sigma_prime_b.s_prime@, self.witness()),
            r.1.R@ == sigma_prime_b.R_prime@,
    {
        let r_a = Scalar::random();
        let sigma_a = self.scheme.sign(&self.sk, tx, &r_a);
        let sigma_b = self.scheme.adapt_signature(sigma_prime_b, &self.t);
        assert(sigma_a.s@ == self.scheme_of().sign_s(self.secret(), tx.spec_bytes(), r_a@));
        (sigma_a, sigma_b)
    }
}

/// The party that learns the witness from Alice's published signature.
pub struct Bob {
    sk: Scalar,
    pub pk: Point,
    scheme: Scheme,
}

impl Bob {
    /// Bob's secret key.
    pub closed spec fn secret(self) -> nat {
        self.sk@
    }

    /// Bob's public key, as a discrete logarithm.
    pub closed spec fn public_key(self) -> nat {
        self.pk@
    }

    /// The scheme Bob signs with.
    pub closed spec fn scheme_of(self) -> Scheme {
        self.scheme
    }

    /// Draws Bob's key; `pk = sk·G`.
    pub fn new(scheme: Scheme) -> (r: Bob)
        ensures
            r.secret() < group_order(),
            r.public_key() == r.secret(),
            r.scheme_of() == scheme,
    {
        let sk = Scalar::random();
        let pk = Point::mul_base(&sk);
        Bob { sk, pk, scheme }
    }

    /// Pre-signs `tx` for the tweak point `T` with a fresh nonce.
    pub fn generate_presig(&self, tx: &str, T: &Point) -> (sigma_prime: Sigma_prime)
        requires
            tx@.len() > 0,
        ensures
            exists|k: nat|
                k < group_order() && self.scheme_of().is_pre_signature(
                    sigma_prime,
                    self.secret(),
                    tx.spec_bytes(),
                    T@,
                    k,
                ),
    {
        let r_prime = Scalar::random();
        let sigma_prime = self.scheme.pre_sign(&self.sk, tx, T, &r_prime);
        assert(self.scheme_of().is_pre_signature(
            sigma_prime,
            self.secret(),
            tx.spec_bytes(),
            T@,
            r_prime@,
        ));
        sigma_prime
    }

    /// Whether `sigma_prime` pre-verifies for `tx` under `pk` and `T`.
    pub fn verify_presig(&self, sigma_prime: &Sigma_prime, pk: &Point, tx: &str, T: &Point) -> (b:
        bool)
        requires
            tx@.len() > 0,
        ensures
            b == self.scheme_of().pre_accepts(*sigma_prime, pk@, T@, tx.spec_bytes()),
    {
        self.scheme.verify_pre_sign(pk, tx, T, sigma_prime)
    }

    /// Whether Alice's signature verifies under `a_pk` and Bob's own under his key.
    pub fn verify_sign(&self, a_pk: &Point, tx: &str, sigma_a: &Sigma, sigma_b: &Sigma) -> (b: bool)
        requires
            tx@.len() > 0,
        ensures
            b == (self.scheme_of().accepts(sigma_a.s@, sigma_a.R@, a_pk@, tx.spec_bytes())
                && self.scheme_of().accepts(sigma_b.s@, sigma_b.R@, self.public_key(), tx.spec_bytes())),
    {
        let is_a_correct = self.scheme.verify_sign(sigma_a, a_pk, tx);
        let is_b_correct = self.scheme.verify_sign(sigma_b, &self.pk, tx);
        is_a_correct && is_b_correct
    }

    /// The witness that turned `sigma_prime` into `sigma`.
    pub fn extract_secret(&self, sigma: &Sigma, sigma_prime: &Sigma_prime) -> (t: Scalar)
        ensures
            t@ == self.scheme_of().extract(sigma.s@, sigma_prime.s_prime@),
    {
        self.scheme.extract_witness(sigma, sigma_prime)
    }

    /// Adapts Alice's pre-signature with `t`, and signs `tx` with a fresh nonce.
    pub fn generate_sig_and_adapt(&self, tx: &str, sigma_prime_a: &Sigma_prime, t: &Scalar) -> (r: (
        Sigma,
        Sigma,
    ))
        requires
            tx@.len() > 0,
        ensures
            r.0.s@ == self.scheme_of().adapt_s(sigma_prime_a.s_prime@, t@),
            r.0.R@ == sigma_prime_a.R_prime@,
            exists|k: nat|
                k < group_order() && r.1.R@ == k && r.1.s@ == self.scheme_of().sign_s(
                    self.secret(),
                    tx.spec_bytes(),
                    k,
                ),
    {
        let r_b = Scalar::random();
        let sigma_a = self.scheme.adapt_signature(sigma_prime_a, t);
        let sigma_b = self.scheme.sign(&self.sk, tx, &r_b);
        assert(sigma_b.s@ == self.scheme_of().sign_s(self.secret(), tx.spec_bytes(), r_b@));
        (sigma_a, sigma_b)
    }
}

} // verus!
