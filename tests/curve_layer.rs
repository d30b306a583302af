use as_for_fde::hashing::{append_bytes, hash_to_scalar};
use as_for_fde::utils::{get_x, invert_scalar};
use as_for_fde::{Point, Scalar};
use k256::elliptic_curve::ff::Field;
use k256::elliptic_curve::ops::Reduce;
use k256::elliptic_curve::point::AffineCoordinates;
use k256::elliptic_curve::sec1::ToEncodedPoint;
use rand_core::OsRng;
use sha2::Digest;

fn pair() -> (k256::Scalar, Scalar) {
    let s = k256::Scalar::random(&mut OsRng);
    (s, Scalar::from_bytes(s.to_bytes().into()).unwrap())
}

fn bytes_of(s: &k256::Scalar) -> [u8; 32] {
    s.to_bytes().into()
}

fn sec1_of(p: &k256::ProjectivePoint) -> Vec<u8> {
    p.to_affine().to_encoded_point(false).as_bytes().to_vec()
}

const ORDER: [u8; 32] = [
    0xff, 0xff, 0xff, 0xff, 0xff, 0xff, 0xff, 0xff, 0xff, 0xff, 0xff, 0xff, 0xff, 0xff, 0xff, 0xfe,
    0xba, 0xae, 0xdc, 0xe6, 0xaf, 0x48, 0xa0, 0x3b, 0xbf, 0xd2, 0x5e, 0x8c, 0xd0, 0x36, 0x41, 0x41,
];

#[test]
fn scalar_arithmetic_matches_k256() {
    let (a, x) = pair();
    let (b, y) = pair();
    assert_eq!(x.add(&y).to_bytes(), bytes_of(&(a + b)));
    assert_eq!(x.sub(&y).to_bytes(), bytes_of(&(a - b)));
    assert_eq!(x.mul(&y).to_bytes(), bytes_of(&(a * b)));
    assert_eq!(x.invert().unwrap().to_bytes(), bytes_of(&a.invert().unwrap()));
    assert_ne!(x.add(&y), x);
}

#[test]
fn scalar_constants() {
    assert_eq!(Scalar::zero().to_bytes(), [0u8; 32]);
    let mut one = [0u8; 32];
    one[31] = 1;
    assert_eq!(Scalar::one().to_bytes(), one);
    assert!(Scalar::zero().invert().is_none());
    assert_eq!(Scalar::one().invert().unwrap(), Scalar::one());
}

#[test]
fn scalar_from_bytes_accepts_exactly_below_order() {
    assert!(Scalar::from_bytes(ORDER).is_none());
    assert!(Scalar::from_bytes([0xff; 32]).is_none());
    let mut below = ORDER;
    below[31] = 0x40;
    assert_eq!(Scalar::from_bytes(below).unwrap().to_bytes(), below);
}

#[test]
fn scalar_reduction_wraps_at_order() {
    assert_eq!(Scalar::from_bytes_reduced(ORDER), Scalar::zero());
    let reduced = <k256::Scalar as Reduce<k256::U256>>::reduce_bytes(&[0xff; 32].into());
    assert_eq!(Scalar::from_bytes_reduced([0xff; 32]).to_bytes(), bytes_of(&reduced));
}

#[test]
fn inverse_helper_returns_zero_for_zero() {
    assert_eq!(invert_scalar(&Scalar::zero()), Scalar::zero());
    let (_, x) = pair();
    assert_eq!(invert_scalar(&x).mul(&x), Scalar::one());
}

#[test]
fn point_arithmetic_matches_k256() {
    let (a, x) = pair();
    let (b, y) = pair();
    let g = k256::ProjectivePoint::GENERATOR;
    let pa = Point::mul_base(&x);
    let pb = Point::mul_base(&y);
    assert_eq!(pa.to_sec1().clone(), sec1_of(&(g * a)));
    assert_eq!(pa.add(&pb).to_sec1().clone(), sec1_of(&(g * a + g * b)));
    assert_eq!(pa.sub(&pb).to_sec1().clone(), sec1_of(&(g * a - g * b)));
    assert_eq!(pa.mul(&y).to_sec1().clone(), sec1_of(&(g * a * b)));
    assert_eq!(Point::generator().to_sec1().clone(), sec1_of(&g));
    assert_eq!(Point::identity().to_sec1().clone(), vec![0u8]);
}

#[test]
fn point_equality_is_group_equality() {
    let (_, x) = pair();
    let (_, y) = pair();
    let pa = Point::mul_base(&x);
    assert!(pa.equals(&Point::mul_base(&x)));
    assert!(!pa.equals(&Point::mul_base(&y)));
    assert!(pa.add(&Point::identity()).equals(&pa));
    assert!(pa.sub(&pa).equals(&Point::identity()));
    assert!(pa.clone().equals(&pa));
}

#[test]
fn x_coordinate_matches_k256() {
    let (a, x) = pair();
    let w = k256::ProjectivePoint::GENERATOR * a;
    let xr = <k256::Scalar as Reduce<k256::U256>>::reduce_bytes(&w.to_affine().x());
    assert_eq!(get_x(&Point::mul_base(&x)).to_bytes(), bytes_of(&xr));
    assert_eq!(get_x(&Point::identity()), Scalar::zero());
}

#[test]
fn hash_to_scalar_is_reduced_sha256() {
    let digest: [u8; 32] = sha2::Sha256::digest(b"abc").into();
    assert_eq!(digest[0], 0xba);
    let e = <k256::Scalar as Reduce<k256::U256>>::reduce_bytes(&digest.into());
    assert_eq!(hash_to_scalar(b"abc").to_bytes(), bytes_of(&e));
}

#[test]
fn append_bytes_concatenates() {
    let mut buf = vec![1u8, 2];
    append_bytes(&mut buf, &[3u8, 4, 5]);
    assert_eq!(buf, vec![1u8, 2, 3, 4, 5]);
    append_bytes(&mut buf, &[]);
    assert_eq!(buf.len(), 5);
}
