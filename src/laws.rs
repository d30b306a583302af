//! What holds of the schemes across calls: round trips of signing,
//! pre-signing, adapting and extracting, and the completeness of the proof
//! of equal discrete logarithms.
//!
//! Each law is stated over the spec functions that the contracts of
//! [`crate::Schnorr`], [`crate::ECDSA`] and [`crate::Scheme`] use, so it holds
//! of every value those functions return.
use crate::curve::group_order;
use crate::ecdsa::{
    dleq_accepts, dleq_proof_e, dleq_proof_i, ecdsa_challenge, ecdsa_pre_sign_r,
};
use crate::schnorr::{schnorr_accepts, schnorr_challenge};
use crate::utils::{inverse, is_inverse, is_invertible, lemma_inverse_is, x_coord};
use crate::{Scheme, Sigma_prime};
use vstd::arithmetic::div_mod::*;
use vstd::prelude::*;

verus! {

/// `inverse(a)` is an inverse of `a`, where `a` has one.
proof fn lemma_inverse_cancels(a: nat)
    requires
        is_invertible(a),
    ensures
        is_inverse(a, inverse(a)),
{
}

/// `((a·b) mod n)·c ≡ a·((b·c) mod n)`.
proof fn lemma_mul_mod_assoc(a: int, b: int, c: int)
    ensures
        (((a * b) % (group_order() as int)) * c) % (group_order() as int) == (a * ((b * c) % (
        group_order() as int))) % (group_order() as int),
{
    let n = group_order() as int;
    lemma_mul_mod_noop_left(a * b, c, n);
    lemma_mul_mod_noop_right(a, b * c, n);
    assert((a * b) * c == a * (b * c)) by (nonlinear_arith);
}

/// The inverse of a product is the product of the inverses.
proof fn lemma_inverse_product(a: nat, b: nat)
    requires
        is_invertible(a),
        is_invertible(b),
    ensures
        is_invertible((a * b) % group_order()),
        inverse((a * b) % group_order()) == (inverse(a) * inverse(b)) % group_order(),
{
    let n = group_order() as int;
    let ai = inverse(a);
    let bi = inverse(b);
    lemma_inverse_cancels(a);
    lemma_inverse_cancels(b);
    lemma_mul_mod_noop((a * b) as int, (ai * bi) as int, n);
    assert((a * b) * (ai * bi) == (a * ai) * (b * bi)) by (nonlinear_arith);
    lemma_mul_mod_noop((a * ai) as int, (b * bi) as int, n);
    lemma_mod_bound((ai * bi) as int, n);
    lemma_small_mod((a * b) % group_order(), group_order());
    lemma_inverse_is((a * b) % group_order(), (ai * bi) % group_order());
}

/// Where `s = k⁻¹·u`, `u·s⁻¹ = k`.
proof fn lemma_quotient(k: nat, u: nat)
    requires
        k < group_order(),
        is_invertible(k),
        is_invertible(u),
    ensures
        is_invertible((inverse(k) * u) % group_order()),
        (u * inverse((inverse(k) * u) % group_order())) % group_order() == k,
{
    let n = group_order() as int;
    let ki = inverse(k);
    let ui = inverse(u);
    let s = (ki * u) % group_order();
    let w = (k * ui) % group_order();
    lemma_inverse_cancels(k);
    lemma_inverse_cancels(u);
    lemma_mul_mod_noop((ki * u) as int, (k * ui) as int, n);
    assert((ki * u) * (k * ui) == (k * ki) * (u * ui)) by (nonlinear_arith);
    lemma_mul_mod_noop((k * ki) as int, (u * ui) as int, n);
    lemma_mod_bound((k * ui) as int, n);
    lemma_inverse_is(s, w);
    lemma_mul_mod_noop_right(u as int, (k * ui) as int, n);
    assert(u * (k * ui) == k * (u * ui)) by (nonlinear_arith);
    lemma_mul_mod_noop_right(k as int, (u * ui) as int, n);
    lemma_small_mod(k, group_order());
}

/// The proof of equal discrete logarithms is complete: for `P = p·G` and
/// `Z = p·T`, the proof made with any commitment nonce `j` verifies.
pub proof fn law_dleq_proof_verifies(p: nat, t: nat, j: nat)
    requires
        p < group_order(),
        t < group_order(),
        j < group_order(),
    ensures
        ({
            let z = (t * p) % group_order();
            dleq_accepts(p, z, t, dleq_proof_e(p, z, t, j), dleq_proof_i(p, p, z, t, j))
        }),
{
    let n = group_order() as int;
    let z = (t * p) % group_order();
    let e = dleq_proof_e(p, z, t, j);
    let i = dleq_proof_i(p, p, z, t, j);
    // J = i·G − e·P is j·G
    lemma_add_mod_noop_right(-(e * p), (j + e * p) as int, n);
    lemma_small_mod(j, group_order());
    assert((i - e * p) % n == j);
    // J′ = i·T − e·Z is j·T
    lemma_mul_mod_noop_left((j + e * p) as int, t as int, n);
    lemma_mul_mod_noop_right(e as int, (t * p) as int, n);
    lemma_sub_mod_noop((i * t) as int, (e * z) as int, n);
    lemma_sub_mod_noop(((j + e * p) * t) as int, (e * (t * p)) as int, n);
    assert((j + e * p) * t - e * (t * p) == t * j) by (nonlinear_arith);
    assert((i * t - e * z) % n == ((t * j) as int) % n);
}

/// Signature round trip: a signature that `sign` makes verifies under the
/// signer's public key. For ECDSA, the nonce and `e + r·p` are nonzero modulo
/// the prime group order, that is, invertible.
pub proof fn law_sign_verifies(S: Scheme, p: nat, m: Seq<u8>, k: nat)
    requires
        p < group_order(),
        k < group_order(),
        S is ECDSA ==> is_invertible(k) && is_invertible(ecdsa_challenge(m) + x_coord(k) * p),
    ensures
        S.accepts(S.sign_s(p, m, k), k, p, m),
{
    if S is ECDSA {
        lemma_quotient(k, ecdsa_challenge(m) + x_coord(k) * p);
    }
}

/// Pre-signature round trip: a pre-signature that `pre_sign` makes
/// pre-verifies under the signer's public key and the same tweak point. For
/// ECDSA, the nonce and `e + r′·p` are nonzero modulo the group order.
pub proof fn law_pre_sign_verifies(S: Scheme, sp: Sigma_prime, p: nat, m: Seq<u8>, t: nat, k: nat)
    requires
        p < group_order(),
        t < group_order(),
        k < group_order(),
        S.is_pre_signature(sp, p, m, t, k),
        S is ECDSA ==> is_invertible(k) && is_invertible(
            ecdsa_challenge(m) + x_coord(ecdsa_pre_sign_r(k, t)) * p,
        ),
    ensures
        S.pre_accepts(sp, p, t, m),
{
    let n = group_order() as int;
    match S {
        Scheme::Schnorr(_) => {
            let c = schnorr_challenge(sp.R_prime@, p, m);
            lemma_add_mod_noop_right(c * p - t, (k + t) as int, n);
        },
        Scheme::ECDSA(_) => {
            let e = ecdsa_challenge(m);
            let r = x_coord(sp.R_prime@);
            let z = sp.Z@;
            let u = e + r * p;
            let x = e * t + r * z;
            // e·T + r′·Z is t·u
            lemma_mul_mod_noop_right(r as int, (t * p) as int, n);
            lemma_add_mod_noop_right((e * t) as int, (r * z) as int, n);
            lemma_add_mod_noop_right((e * t) as int, (r * (t * p)) as int, n);
            assert(e * t + r * (t * p) == t * u) by (nonlinear_arith)
                requires
                    u == e + r * p,
            ;
            // (t·u)·s′⁻¹ is t·k
            let si = inverse(sp.s_prime@);
            lemma_quotient(k, u);
            lemma_mul_mod_noop_left(x as int, si as int, n);
            lemma_mul_mod_noop_left((t * u) as int, si as int, n);
            assert((t * u) * si == t * (u * si)) by (nonlinear_arith);
            lemma_mul_mod_noop_right(t as int, (u * si) as int, n);
            let j = choose|j: nat|
                j < group_order() && sp.pi.e@ == dleq_proof_e(p, sp.Z@, t, j) && sp.pi.i@
                    == dleq_proof_i(p, p, sp.Z@, t, j);
            law_dleq_proof_verifies(p, t, j);
        },
    }
}

/// Adaptation is valid: adapting a pre-signature with the witness `t` of its
/// tweak point gives a signature that verifies. For ECDSA, the nonce, the
/// witness and `e + r′·p` are nonzero modulo the group order.
pub proof fn law_adapt_verifies(S: Scheme, sp: Sigma_prime, p: nat, m: Seq<u8>, t: nat, k: nat)
    requires
        p < group_order(),
        t < group_order(),
        k < group_order(),
        S.is_pre_signature(sp, p, m, t, k),
        S is ECDSA ==> is_invertible(k) && is_invertible(t) && is_invertible(
            ecdsa_challenge(m) + x_coord(ecdsa_pre_sign_r(k, t)) * p,
        ),
    ensures
        S.accepts(S.adapt_s(sp.s_prime@, t), sp.R_prime@, p, m),
{
    let n = group_order() as int;
    match S {
        Scheme::Schnorr(_) => {
            let c = schnorr_challenge(sp.R_prime@, p, m);
            lemma_add_mod_noop_right(t as int, (k + c * p) as int, n);
            lemma_add_mod_noop_right((c * p) as int, (k + t) as int, n);
        },
        Scheme::ECDSA(_) => {
            let e = ecdsa_challenge(m);
            let r = x_coord(sp.R_prime@);
            let u = e + r * p;
            let ki = inverse(k);
            let ti = inverse(t);
            let kt = (k * t) % group_order();
            // s = s′·t⁻¹ = (k·t)⁻¹·u
            lemma_inverse_product(k, t);
            lemma_mul_mod_assoc(ki as int, u as int, ti as int);
            lemma_mul_mod_noop_left((ki * ti) as int, u as int, n);
            assert(ki * (u * ti) == (ki * ti) * u) by (nonlinear_arith);
            lemma_mul_mod_noop_right(ki as int, (u * ti) as int, n);
            lemma_mod_bound((k * t) as int, n);
            lemma_quotient(kt, u);
            assert(t * k == k * t) by (nonlinear_arith);
        },
    }
}

/// Extraction recovers the witness: extracting from the adaptation of `s′`
/// with `t`, and `s′`, gives `t`. For ECDSA, `s′` and `t` are nonzero modulo
/// the group order.
pub proof fn law_extract_recovers(S: Scheme, s_prime: nat, t: nat)
    requires
        s_prime < group_order(),
        t < group_order(),
        S is ECDSA ==> is_invertible(s_prime) && is_invertible(t),
    ensures
        S.extract(S.adapt_s(s_prime, t), s_prime) == t,
{
    let n = group_order() as int;
    match S {
        Scheme::Schnorr(_) => {
            lemma_add_mod_noop_right(-(s_prime as int), (s_prime + t) as int, n);
            lemma_small_mod(t, group_order());
        },
        Scheme::ECDSA(_) => {
            assert(s_prime * inverse(t) == inverse(t) * s_prime) by (nonlinear_arith);
            lemma_quotient(t, s_prime);
        },
    }
}

/// A Schnorr signature's `s` is the only one that verifies with its `R`: any
/// other scalar in its place, such as one with a bit flipped, is rejected.
pub proof fn law_schnorr_other_s_rejected(s: nat, s2: nat, r: nat, pk: nat, m: Seq<u8>)
    requires
        schnorr_accepts(s, r, pk, m),
        s2 != s,
    ensures
        !schnorr_accepts(s2, r, pk, m),
{
}

} // verus!
