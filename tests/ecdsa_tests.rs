#![allow(non_snake_case)]

use as_for_fde::{AS_scheme, Point, Scalar, Sigma, Sigma_prime, Sign_scheme, ECDSA, ZKP};
use k256::elliptic_curve::ff::Field;
use rand_core::OsRng;

fn random_scalar() -> Scalar {
    let s = k256::Scalar::random(&mut OsRng);
    Scalar::from_bytes(s.to_bytes().into()).unwrap()
}

#[test]
fn ecdsa_tests_sign_works() {
    let ecdsa: ECDSA = ECDSA;
    // Keys
    let p: Scalar = random_scalar(); // secret key
    let P: Point = Point::mul_base(&p); // public key

    let t: Scalar = random_scalar(); // tweak
    let _T: Point = Point::mul_base(&t); // tweak point

    let k: Scalar = random_scalar(); // nonce

    let message: &str = "Testing message for ecdsa";
    let sigma: Sigma = ecdsa.sign(&p, message, &k);
    assert!(ecdsa.verify_sign(&sigma, &P, message));
    println!("Signature verified ✅");
}

#[test]
fn ecdsa_tests_signature_fails_when_s_tampered() {
    let ecdsa = ECDSA;
    let p = random_scalar();
    let P = Point::mul_base(&p);
    let k = random_scalar();
    let message = "Message";

    let mut sigma = ecdsa.sign(&p, message, &k);
    sigma.s = sigma.s.add(&Scalar::one()); // tamper

    assert!(!ecdsa.verify_sign(&sigma, &P, message));
}

#[test]
fn ecdsa_tests_signature_fails_when_R_tampered() {
    let ecdsa = ECDSA;
    let p = random_scalar();
    let P = Point::mul_base(&p);
    let k = random_scalar();
    let message = "Another message";

    let mut sigma = ecdsa.sign(&p, message, &k);
    sigma.R = sigma.R.add(&Point::generator()); // tamper

    assert!(!ecdsa.verify_sign(&sigma, &P, message));
}

#[test]
fn ecdsa_tests_signature_fails_on_wrong_message() {
    let ecdsa = ECDSA;
    let p = random_scalar();
    let P = Point::mul_base(&p);
    let k = random_scalar();
    let message = "Original";
    let fake_message = "Tampered";

    let sigma = ecdsa.sign(&p, message, &k);
    assert!(!ecdsa.verify_sign(&sigma, &P, fake_message));
}

#[test]
fn ecdsa_tests_pre_sign_works() {
    let ecdsa: ECDSA = ECDSA;
    // Keys
    let p: Scalar = random_scalar(); // secret key
    let P: Point = Point::mul_base(&p); // public key

    let t: Scalar = random_scalar(); // tweak
    let T: Point = Point::mul_base(&t); // tweak point

    let k: Scalar = random_scalar(); // nonce

    let message: &str = "Test message for ecdsa pre-sign";
    let sigma_prime: Sigma_prime = ecdsa.pre_sign(&p, message, &T, &k);
    assert!(ecdsa.verify_pre_sign(&P, message, &T, &sigma_prime));
    println!("Pre-signature verified ✅");
}

#[test]
fn ecdsa_tests_adapt_sign_works() {
    let ecdsa = ECDSA;
    let p = random_scalar();
    let P = Point::mul_base(&p);
    let t = random_scalar();
    let T = Point::mul_base(&t);
    let k = random_scalar();
    let message = "Adapting signature";

    let sigma_prime = ecdsa.pre_sign(&p, message, &T, &k);
    let sigma = ecdsa.adapt_signature(&sigma_prime, &t);

    assert!(ecdsa.verify_sign(&sigma, &P, message));
}

#[test]
fn ecdsa_tests_witness_extraction_works() {
    let ecdsa = ECDSA;
    let p = random_scalar();
    let t = random_scalar();
    let T = Point::mul_base(&t);
    let k = random_scalar();
    let message = "Extract witness test";

    let sigma_prime = ecdsa.pre_sign(&p, message, &T, &k);
    let sigma = ecdsa.adapt_signature(&sigma_prime, &t);
    let extracted = ecdsa.extract_witness(&sigma, &sigma_prime);

    assert_eq!(extracted, t);
}

#[test]
fn proof_verification_fails_if_tampered() {
    let ecdsa = ECDSA;
    let p = random_scalar();
    let P = Point::mul_base(&p);
    let t = random_scalar();
    let T = Point::mul_base(&t);
    let k = random_scalar();
    let message = "ZK test";

    let mut sigma_prime = ecdsa.pre_sign(&p, message, &T, &k);
    sigma_prime.pi.e = sigma_prime.pi.e.add(&Scalar::one()); // tamper the proof

    assert!(!ecdsa.verify_pre_sign(&P, message, &T, &sigma_prime));
}
