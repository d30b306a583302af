#![allow(non_snake_case)]

use as_for_fde::fde::{Client, Server};
use as_for_fde::swap::{Alice, Bob};
use as_for_fde::utils::get_x;
use as_for_fde::{
    AS_scheme, Pi, Point, Scalar, Scheme, Schnorr, Sigma, Sigma_prime, Sign_scheme, ECDSA, ZKP,
};
use k256::elliptic_curve::ops::Reduce;
use k256::elliptic_curve::sec1::ToEncodedPoint;
use sha2::Digest;

fn small(n: u8) -> Scalar {
    let mut b = [0u8; 32];
    b[31] = n;
    Scalar::from_bytes(b).unwrap()
}

fn both() -> Vec<Scheme> {
    vec![Scheme::Schnorr(Schnorr), Scheme::ECDSA(ECDSA)]
}

#[test]
fn schnorr_fixed_values_happy_path() {
    let schnorr = Schnorr;
    let (p, k, t) = (small(1), small(2), small(3));
    let m = "abc";
    let P = Point::mul_base(&p);
    let T = Point::mul_base(&t);

    let sigma = schnorr.sign(&p, m, &k);
    let two_g = (k256::ProjectivePoint::GENERATOR * k256::Scalar::from(2u64)).to_affine();
    assert_eq!(sigma.R.to_sec1().as_slice(), two_g.to_encoded_point(false).as_bytes());

    let mut hasher = sha2::Sha256::new();
    hasher.update(sigma.R.to_sec1());
    hasher.update(P.to_sec1());
    hasher.update(m.as_bytes());
    let digest: [u8; 32] = hasher.finalize().into();
    let e_k = <k256::Scalar as Reduce<k256::U256>>::reduce_bytes(&digest.into());
    let e = schnorr.hash_challenge(&sigma.R, &P, m);
    assert_eq!(e.to_bytes(), <[u8; 32]>::from(e_k.to_bytes()));
    assert_eq!(sigma.s, small(2).add(&e.mul(&small(1))));
    assert!(schnorr.verify_sign(&sigma, &P, m));

    let r_prime = Scalar::random();
    let sigma_prime = schnorr.pre_sign(&p, m, &T, &r_prime);
    assert!(schnorr.verify_pre_sign(&P, m, &T, &sigma_prime));
    let adapted = schnorr.adapt_signature(&sigma_prime, &t);
    assert_eq!(schnorr.extract_witness(&adapted, &sigma_prime), small(3));
}

#[test]
fn schnorr_fixed_values_tamper() {
    let schnorr = Schnorr;
    let P = Point::mul_base(&small(1));
    let mut sigma = schnorr.sign(&small(1), "abc", &small(2));
    sigma.s = sigma.s.add(&Scalar::one());
    assert!(!schnorr.verify_sign(&sigma, &P, "abc"));
}

#[test]
fn schnorr_every_flipped_bit_of_s_is_rejected() {
    let schnorr = Schnorr;
    let p = Scalar::random();
    let P = Point::mul_base(&p);
    let sigma = schnorr.sign(&p, "bits", &Scalar::random());
    for bit in 0..256usize {
        let mut b = sigma.s.to_bytes();
        b[31 - bit / 8] ^= 1u8 << (bit % 8);
        if let Some(s) = Scalar::from_bytes(b) {
            let tampered = Sigma { s, R: sigma.R.clone() };
            assert!(!schnorr.verify_sign(&tampered, &P, "bits"));
        }
    }
}

#[test]
fn ecdsa_adapted_signatures_verify_over_many_trials() {
    let ecdsa = ECDSA;
    let m = "ECDSA happy path";
    for _ in 0..100 {
        let p = Scalar::random();
        let t = Scalar::random();
        let r_prime = Scalar::random();
        let P = Point::mul_base(&p);
        let T = Point::mul_base(&t);
        let sigma_prime = ecdsa.pre_sign(&p, m, &T, &r_prime);
        let sigma = ecdsa.adapt_signature(&sigma_prime, &t);
        assert!(ecdsa.verify_sign(&sigma, &P, m));
        assert_eq!(ecdsa.extract_witness(&sigma, &sigma_prime), t);
    }
}

#[test]
fn ecdsa_tampered_proof_fails_though_equation_holds() {
    let ecdsa = ECDSA;
    let p = Scalar::random();
    let P = Point::mul_base(&p);
    let t = Scalar::random();
    let T = Point::mul_base(&t);
    let mut sigma_prime = ecdsa.pre_sign(&p, "zk", &T, &Scalar::random());
    assert!(ecdsa.verify_pre_sign(&P, "zk", &T, &sigma_prime));
    assert!(ecdsa.verify_proof(&P, &sigma_prime.Z, &T, &sigma_prime.pi));

    sigma_prime.pi.e = sigma_prime.pi.e.add(&Scalar::one());
    assert!(!ecdsa.verify_proof(&P, &sigma_prime.Z, &T, &sigma_prime.pi));
    assert!(!ecdsa.verify_pre_sign(&P, "zk", &T, &sigma_prime));
    // the algebraic check alone still passes: x((e·T + r′·Z)·s′⁻¹) = x(R′)
    let e = ecdsa.hash_challenge(&sigma_prime.R_prime, &P, "zk");
    let r = get_x(&sigma_prime.R_prime);
    let point = T.mul(&e).add(&sigma_prime.Z.mul(&r)).mul(&sigma_prime.s_prime.invert().unwrap());
    assert_eq!(get_x(&point), r);
}

#[test]
fn ecdsa_tampered_response_or_aux_point_fails() {
    let ecdsa = ECDSA;
    let p = Scalar::random();
    let P = Point::mul_base(&p);
    let T = Point::mul_base(&Scalar::random());
    let mut sigma_prime = ecdsa.pre_sign(&p, "zk", &T, &Scalar::random());
    sigma_prime.pi.i = sigma_prime.pi.i.add(&Scalar::one());
    assert!(!ecdsa.verify_pre_sign(&P, "zk", &T, &sigma_prime));

    let mut sigma_prime = ecdsa.pre_sign(&p, "zk", &T, &Scalar::random());
    sigma_prime.Z = sigma_prime.Z.add(&Point::generator());
    assert!(!ecdsa.verify_pre_sign(&P, "zk", &T, &sigma_prime));
}

#[test]
fn dleq_proof_round_trip() {
    let ecdsa = ECDSA;
    let p = Scalar::random();
    let P = Point::mul_base(&p);
    let T = Point::mul_base(&Scalar::random());
    let Z = T.mul(&p);
    let pi = ecdsa.gen_proof(&p, &Z, &P, &T);
    assert!(ecdsa.verify_proof(&P, &Z, &T, &pi));
    let j = Scalar::random();
    let a = ecdsa.gen_proof_with_nonce(&p, &Z, &P, &T, &j);
    let b = ecdsa.gen_proof_with_nonce(&p, &Z, &P, &T, &j);
    assert_eq!(a.e, b.e);
    assert_eq!(a.i, b.i);
    assert!(ecdsa.verify_proof(&P, &Z, &T, &a));
    // a proof for another Z does not verify
    let other = T.mul(&Scalar::random());
    assert!(!ecdsa.verify_proof(&P, &other, &T, &a));
}

#[test]
fn scheme_dispatch_round_trips() {
    for scheme in both() {
        let p = Scalar::random();
        let P = Point::mul_base(&p);
        let t = Scalar::random();
        let T = Point::mul_base(&t);
        let m = "dispatch";
        let sigma = scheme.sign(&p, m, &Scalar::random());
        assert!(scheme.verify_sign(&sigma, &P, m));
        assert!(!scheme.verify_sign(&sigma, &P, "other"));
        let sigma_prime = scheme.pre_sign(&p, m, &T, &Scalar::random());
        assert!(scheme.verify_pre_sign(&P, m, &T, &sigma_prime));
        let adapted = scheme.adapt_signature(&sigma_prime, &t);
        assert!(scheme.verify_sign(&adapted, &P, m));
        assert_eq!(scheme.extract_witness(&adapted, &sigma_prime), t);
    }
}

#[test]
fn schemes_hash_different_transcripts() {
    let R = Point::mul_base(&Scalar::random());
    let P = Point::mul_base(&Scalar::random());
    let m = "challenge";
    let e_ecdsa = ECDSA.hash_challenge(&R, &P, m);
    let digest: [u8; 32] = sha2::Sha256::digest(m.as_bytes()).into();
    assert_eq!(e_ecdsa, Scalar::from_bytes_reduced(digest));
    let other_R = Point::mul_base(&Scalar::random());
    assert_eq!(ECDSA.hash_challenge(&other_R, &P, m), e_ecdsa);
    assert_ne!(Schnorr.hash_challenge(&other_R, &P, m), Schnorr.hash_challenge(&R, &P, m));
    let scheme = Scheme::ECDSA(ECDSA);
    assert_eq!(scheme.hash_challenge(&R, &P, m), e_ecdsa);
}

#[test]
fn schnorr_pre_signature_leaves_aux_fields_empty() {
    let T = Point::mul_base(&Scalar::random());
    let sigma_prime = Schnorr.pre_sign(&Scalar::random(), "m", &T, &Scalar::random());
    assert!(sigma_prime.Z.equals(&Point::identity()));
    assert_eq!(sigma_prime.pi.e, Scalar::zero());
    assert_eq!(sigma_prime.pi.i, Scalar::zero());
}

#[test]
fn defaults_are_zero_and_identity() {
    let sigma = Sigma::default();
    assert_eq!(sigma.s, Scalar::zero());
    assert!(sigma.R.equals(&Point::identity()));
    let sigma_prime = Sigma_prime::default();
    assert_eq!(sigma_prime.s_prime, Scalar::zero());
    assert!(sigma_prime.R_prime.equals(&Point::identity()));
    assert!(sigma_prime.Z.equals(&Point::identity()));
    let pi = Pi::default();
    assert_eq!(pi.e, Scalar::zero());
    assert_eq!(pi.i, Scalar::zero());
}

#[test]
fn atomic_swap_end_to_end() {
    for scheme in both() {
        let alice = Alice::new(scheme);
        let bob = Bob::new(scheme);

        let tx2 = "Transaction id 2 :)";
        let (sigma_prime_a2, T) = alice.generate_presig(tx2);
        assert!(bob.verify_presig(&sigma_prime_a2, &alice.pk, tx2, &T));

        let tx1 = "Transaction id 1 :)";
        let sigma_prime_b1 = bob.generate_presig(tx1, &T);
        assert!(alice.verify_presig(&sigma_prime_b1, &bob.pk, tx1));

        let (sigma_a1, sigma_b1) = alice.generate_sig_and_adapt(tx1, &sigma_prime_b1);
        assert!(bob.verify_sign(&alice.pk, tx1, &sigma_a1, &sigma_b1));

        let t = bob.extract_secret(&sigma_b1, &sigma_prime_b1);
        assert!(Point::mul_base(&t).equals(&alice.T));
        let (sigma_a2, sigma_b2) = bob.generate_sig_and_adapt(tx2, &sigma_prime_a2, &t);
        assert!(scheme.verify_sign(&sigma_a2, &alice.pk, tx2));
        assert!(scheme.verify_sign(&sigma_b2, &bob.pk, tx2));
    }
}

#[test]
fn fair_data_exchange_end_to_end() {
    for scheme in both() {
        let server = Server::new(scheme);
        let client = Client::new(scheme);

        let data = "Very secret data :)";
        let (ct, nonce) = server.encrypt_data(data);
        assert_ne!(ct, data.as_bytes().to_vec());

        let sigma_prime_c = client.generate_presig(&ct, &server.pk);
        assert!(server.verify_presig(&sigma_prime_c, &client.pk, &ct));
        let (sigma_s, sigma_c) = server.generate_sig_and_adapt(&ct, &sigma_prime_c);
        assert!(client.verify_sign(&server.pk_s, &ct, &sigma_s, &sigma_c));

        let sk_recovered = client.extract_secret(&sigma_c, &sigma_prime_c);
        let decrypted = client.decrypt_data(&ct, &sk_recovered, &nonce);
        assert_eq!(decrypted, Some(String::from(data)));

        let wrong = client.decrypt_data(&ct, &Scalar::random(), &nonce);
        assert_eq!(wrong, None);
    }
}

#[test]
fn fde_message_is_the_hex_of_the_ciphertext() {
    let scheme = Scheme::Schnorr(Schnorr);
    let server = Server::new(scheme);
    let client = Client::new(scheme);
    let ct = vec![0x00u8, 0xab, 0x7f];
    let sigma_prime = client.generate_presig(&ct, &server.pk);
    assert!(scheme.verify_pre_sign(&client.pk, "00ab7f", &server.pk, &sigma_prime));
    assert!(server.verify_presig(&sigma_prime, &client.pk, &ct));
    assert!(!server.verify_presig(&sigma_prime, &client.pk, &[0x00u8, 0xab, 0x7e]));
}
