//! The secp256k1 layer: scalars modulo the group order and points of the group.
//!
//! A scalar is held as its canonical 32-byte big-endian encoding and is viewed
//! as the integer it encodes. A point is held as its uncompressed SEC1 encoding
//! and is viewed as its discrete logarithm to the base point `G`: the group has
//! prime order, so every point is `d·G` for exactly one `d` below the order.
//! All group and field arithmetic is done by the `k256` crate.
use k256::elliptic_curve::ff::{Field, PrimeField};
use k256::elliptic_curve::ops::Reduce;
use k256::elliptic_curve::sec1::{FromEncodedPoint, ToEncodedPoint};
use rand_core::OsRng;
use vstd::arithmetic::div_mod::*;
use vstd::prelude::*;

verus! {

/// The order `n` of the secp256k1 group.
pub open spec fn group_order() -> nat {
    0xFFFFFFFFFFFFFFFFFFFFFFFFFFFFFFFEBAAEDCE6AF48A03BBFD25E8CD0364141nat
}

/// The natural number that a big-endian byte string encodes.
pub open spec fn be_nat(b: Seq<u8>) -> nat
    decreases b.len(),
{
    if b.len() == 0 {
        0
    } else {
        be_nat(b.drop_last()) * 256 + b.last() as nat
    }
}

/// Two byte strings of one length that encode the same number are equal.
pub proof fn lemma_be_nat_injective(a: Seq<u8>, b: Seq<u8>)
    requires
        a.len() == b.len(),
        be_nat(a) == be_nat(b),
    ensures
        a == b,
    decreases a.len(),
{
    if a.len() > 0 {
        let x = be_nat(a.drop_last());
        let y = be_nat(b.drop_last());
        let u = a.last() as int;
        let v = b.last() as int;
        assert(x * 256 + u == y * 256 + v);
        assert(u == v && x == y) by (nonlinear_arith)
            requires
                x * 256 + u == y * 256 + v,
                0 <= u < 256,
                0 <= v < 256,
                x >= 0,
                y >= 0,
        ;
        lemma_be_nat_injective(a.drop_last(), b.drop_last());
        assert(a =~= a.drop_last().push(a.last()));
        assert(b =~= b.drop_last().push(b.last()));
    }
}

/// The 32-byte big-endian encoding of a number below `2^256`.
pub open spec fn be_bytes32(v: nat) -> Seq<u8> {
    choose|b: Seq<u8>| b.len() == 32 && be_nat(b) == v
}

/// Relies on k256's `Scalar::from_repr`: it accepts exactly the encodings of
/// numbers below the group order.
#[verifier::external_body]
fn k256_is_canonical(b: &[u8; 32]) -> (r: bool)
    ensures
        r == (be_nat(b@) < group_order()),
{
    bool::from(k256::Scalar::from_repr((*b).into()).is_some())
}

/// Relies on k256's `Scalar + Scalar`: the sum modulo the group order.
#[verifier::external_body]
fn k256_scalar_add(a: &[u8; 32], b: &[u8; 32]) -> (r: [u8; 32])
    requires
        be_nat(a@) < group_order(),
        be_nat(b@) < group_order(),
    ensures
        be_nat(r@) == (be_nat(a@) + be_nat(b@)) % group_order(),
{
    let x = k256::Scalar::from_repr((*a).into()).unwrap();
    let y = k256::Scalar::from_repr((*b).into()).unwrap();
    (x + y).to_bytes().into()
}

/// Relies on k256's `Scalar - Scalar`: the difference modulo the group order.
#[verifier::external_body]
fn k256_scalar_sub(a: &[u8; 32], b: &[u8; 32]) -> (r: [u8; 32])
    requires
        be_nat(a@) < group_order(),
        be_nat(b@) < group_order(),
    ensures
        be_nat(r@) == (be_nat(a@) - be_nat(b@)) % (group_order() as int),
{
    let x = k256::Scalar::from_repr((*a).into()).unwrap();
    let y = k256::Scalar::from_repr((*b).into()).unwrap();
    (x - y).to_bytes().into()
}

/// Relies on k256's `Scalar * Scalar`: the product modulo the group order.
#[verifier::external_body]
fn k256_scalar_mul(a: &[u8; 32], b: &[u8; 32]) -> (r: [u8; 32])
    requires
        be_nat(a@) < group_order(),
        be_nat(b@) < group_order(),
    ensures
        be_nat(r@) == (be_nat(a@) * be_nat(b@)) % group_order(),
{
    let x = k256::Scalar::from_repr((*a).into()).unwrap();
    let y = k256::Scalar::from_repr((*b).into()).unwrap();
    (x * y).to_bytes().into()
}

/// Relies on k256's `Scalar::invert`: no inverse for zero, the inverse modulo
/// the group order for every other scalar.
#[verifier::external_body]
fn k256_scalar_invert(a: &[u8; 32]) -> (r: Option<[u8; 32]>)
    requires
        be_nat(a@) < group_order(),
    ensures
        r is None <==> be_nat(a@) == 0,
        r matches Some(b) ==> be_nat(b@) < group_order() && (be_nat(a@) * be_nat(b@))
            % group_order() == 1,
{
    let x = k256::Scalar::from_repr((*a).into()).unwrap();
    match x.invert().into_option() {
        Some(y) => Some(y.to_bytes().into()),
        None => None,
    }
}

/// Relies on k256's `Reduce<U256>::reduce_bytes`: a big-endian 256-bit number
/// reduced modulo the group order.
#[verifier::external_body]
fn k256_reduce_bytes(b: &[u8; 32]) -> (r: [u8; 32])
    ensures
        be_nat(r@) == be_nat(b@) % group_order(),
{
    <k256::Scalar as Reduce<k256::U256>>::reduce_bytes(&(*b).into()).to_bytes().into()
}

/// Relies on k256's `Scalar::random` fed by rand_core's `OsRng`: some scalar.
#[verifier::external_body]
fn os_random_scalar() -> (r: [u8; 32])
    ensures
        be_nat(r@) < group_order(),
{
    k256::Scalar::random(&mut OsRng).to_bytes().into()
}

/// An element of the scalar field: an integer modulo the group order.
#[derive(Clone, Copy, Debug)]
pub struct Scalar {
    bytes: [u8; 32],
}

impl View for Scalar {
    type V = nat;

    closed spec fn view(&self) -> nat {
        be_nat(self.bytes@)
    }
}

proof fn lemma_be_nat_of_zeros(b: Seq<u8>)
    requires
        forall|i: int| 0 <= i < b.len() ==> b[i] == 0,
    ensures
        be_nat(b) == 0,
    decreases b.len(),
{
    if b.len() > 0 {
        lemma_be_nat_of_zeros(b.drop_last());
    }
}

impl Scalar {
    #[verifier::type_invariant]
    spec fn canonical(self) -> bool {
        be_nat(self.bytes@) < group_order()
    }

    /// The scalar zero.
    pub fn zero() -> (r: Scalar)
        ensures
            r@ == 0,
    {
        let bytes: [u8; 32] = [0u8; 32];
        proof {
            lemma_be_nat_of_zeros(bytes@);
        }
        Scalar { bytes }
    }

    /// The scalar one.
    pub fn one() -> (r: Scalar)
        ensures
            r@ == 1,
    {
        let mut bytes: [u8; 32] = [0u8; 32];
        bytes[31] = 1;
        proof {
            lemma_be_nat_of_zeros(bytes@.drop_last());
        }
        Scalar { bytes }
    }

    /// A scalar drawn uniformly by the operating system's generator.
    pub fn random() -> (r: Scalar)
        ensures
            r@ < group_order(),
    {
        Scalar { bytes: os_random_scalar() }
    }

    /// The scalar with the given canonical big-endian encoding; `None` where
    /// the number encoded is not below the group order.
    pub fn from_bytes(bytes: [u8; 32]) -> (r: Option<Scalar>)
        ensures
            r is Some <==> be_nat(bytes@) < group_order(),
            r matches Some(s) ==> s@ == be_nat(bytes@),
    {
        if k256_is_canonical(&bytes) {
            Some(Scalar { bytes })
        } else {
            None
        }
    }

    /// A 256-bit big-endian number reduced modulo the group order.
    pub fn from_bytes_reduced(bytes: [u8; 32]) -> (r: Scalar)
        ensures
            r@ == be_nat(bytes@) % group_order(),
    {
        Scalar { bytes: k256_reduce_bytes(&bytes) }
    }

    /// The canonical big-endian encoding.
    pub fn to_bytes(&self) -> (r: [u8; 32])
        ensures
            be_nat(r@) == self@,
            r@ == be_bytes32(self@),
    {
        proof {
            let b = choose|b: Seq<u8>| b.len() == 32 && be_nat(b) == self@;
            assert(self.bytes@.len() == 32 && be_nat(self.bytes@) == self@);
            lemma_be_nat_injective(b, self.bytes@);
        }
        self.bytes
    }

    /// `self + other` modulo the group order.
    pub fn add(&self, other: &Scalar) -> (r: Scalar)
        ensures
            r@ == (self@ + other@) % group_order(),
    {
        proof {
            use_type_invariant(self);
            use_type_invariant(other);
        }
        Scalar { bytes: k256_scalar_add(&self.bytes, &other.bytes) }
    }

    /// `self - other` modulo the group order.
    pub fn sub(&self, other: &Scalar) -> (r: Scalar)
        ensures
            r@ == (self@ - other@) % (group_order() as int),
    {
        proof {
            use_type_invariant(self);
            use_type_invariant(other);
        }
        let bytes = k256_scalar_sub(&self.bytes, &other.bytes);
        proof {
            lemma_mod_bound(self@ - other@, group_order() as int);
        }
        Scalar { bytes }
    }

    /// `self · other` modulo the group order.
    pub fn mul(&self, other: &Scalar) -> (r: Scalar)
        ensures
            r@ == (self@ * other@) % group_order(),
    {
        proof {
            use_type_invariant(self);
            use_type_invariant(other);
        }
        Scalar { bytes: k256_scalar_mul(&self.bytes, &other.bytes) }
    }

    /// The multiplicative inverse; `None` for zero.
    pub fn invert(&self) -> (r: Option<Scalar>)
        ensures
            r is None <==> self@ == 0,
            r matches Some(i) ==> i@ < group_order() && (self@ * i@) % group_order() == 1,
    {
        proof {
            use_type_invariant(self);
        }
        match k256_scalar_invert(&self.bytes) {
            Some(bytes) => Some(Scalar { bytes }),
            None => None,
        }
    }

    /// Whether two scalars are the same number.
    pub fn equals(&self, other: &Scalar) -> (r: bool)
        ensures
            r == (self@ == other@),
    {
        let mut i: usize = 0;
        while i < 32
            invariant
                i <= 32,
                forall|j: int| 0 <= j < i ==> self.bytes@[j] == other.bytes@[j],
            decreases 32 - i,
        {
            if self.bytes[i] != other.bytes[i] {
                proof {
                    if self@ == other@ {
                        lemma_be_nat_injective(self.bytes@, other.bytes@);
                    }
                }
                return false;
            }
            i = i + 1;
        }
        proof {
            assert(self.bytes@ =~= other.bytes@);
        }
        true
    }
}

impl PartialEq for Scalar {
    fn eq(&self, other: &Scalar) -> (r: bool) {
        self.equals(other)
    }
}

impl vstd::std_specs::cmp::PartialEqSpecImpl for Scalar {
    open spec fn obeys_eq_spec() -> bool {
        true
    }

    open spec fn eq_spec(&self, other: &Scalar) -> bool {
        self@ == other@
    }
}

impl Eq for Scalar {

}

/// The uncompressed SEC1 encoding of the point `d·G`, as k256 writes it
/// (`to_encoded_point(false)`): `0x04 ∥ X ∥ Y`, or the single byte `0x00` for
/// the identity.
pub uninterp spec fn sec1_of_multiple(d: nat) -> Seq<u8>;

/// Whether a byte string is the encoding of a point of the group.
pub open spec fn is_point_encoding(e: Seq<u8>) -> bool {
    exists|d: nat| d < group_order() && #[trigger] sec1_of_multiple(d) == e
}

/// Relies on k256's `ProjectivePoint::GENERATOR * Scalar` and
/// `to_encoded_point(false)`: the encoding of `k·G`.
#[verifier::external_body]
fn k256_mul_generator(k: &[u8; 32]) -> (r: Vec<u8>)
    requires
        be_nat(k@) < group_order(),
    ensures
        r@ == sec1_of_multiple(be_nat(k@)),
{
    let x = k256::Scalar::from_repr((*k).into()).unwrap();
    (k256::ProjectivePoint::GENERATOR * x).to_encoded_point(false).as_bytes().to_vec()
}

/// Relies on k256's `ProjectivePoint * Scalar` (after `from_encoded_point`,
/// before `to_encoded_point(false)`): the encoding of `(d·k)·G` for the point `d·G`.
#[verifier::external_body]
fn k256_point_mul(a: &Vec<u8>, k: &[u8; 32]) -> (r: Vec<u8>)
    requires
        is_point_encoding(a@),
        be_nat(k@) < group_order(),
    ensures
        forall|d: nat|
            d < group_order() && #[trigger] sec1_of_multiple(d) == a@ ==> r@ == sec1_of_multiple(
                (d * be_nat(k@)) % group_order(),
            ),
{
    let p = k256::ProjectivePoint::from_encoded_point(&k256::EncodedPoint::from_bytes(a).unwrap());
    let x = k256::Scalar::from_repr((*k).into()).unwrap();
    (p.unwrap() * x).to_encoded_point(false).as_bytes().to_vec()
}

/// Relies on k256's `ProjectivePoint + ProjectivePoint` (between the SEC1
/// conversions): the encoding of `(d + e)·G` for the points `d·G` and `e·G`.
#[verifier::external_body]
fn k256_point_add(a: &Vec<u8>, b: &Vec<u8>) -> (r: Vec<u8>)
    requires
        is_point_encoding(a@),
        is_point_encoding(b@),
    ensures
        forall|d: nat, e: nat|
            d < group_order() && e < group_order() && #[trigger] sec1_of_multiple(d) == a@
                && #[trigger] sec1_of_multiple(e) == b@ ==> r@ == sec1_of_multiple(
                (d + e) % group_order(),
            ),
{
    let p = k256::ProjectivePoint::from_encoded_point(&k256::EncodedPoint::from_bytes(a).unwrap());
    let q = k256::ProjectivePoint::from_encoded_point(&k256::EncodedPoint::from_bytes(b).unwrap());
    (p.unwrap() + q.unwrap()).to_encoded_point(false).as_bytes().to_vec()
}

/// Relies on k256's `ProjectivePoint - ProjectivePoint` (between the SEC1
/// conversions): the encoding of `(d - e)·G` for the points `d·G` and `e·G`.
#[verifier::external_body]
fn k256_point_sub(a: &Vec<u8>, b: &Vec<u8>) -> (r: Vec<u8>)
    requires
        is_point_encoding(a@),
        is_point_encoding(b@),
    ensures
        forall|d: nat, e: nat|
            d < group_order() && e < group_order() && #[trigger] sec1_of_multiple(d) == a@
                && #[trigger] sec1_of_multiple(e) == b@ ==> r@ == sec1_of_multiple(
                ((d - e) % (group_order() as int)) as nat,
            ),
{
    let p = k256::ProjectivePoint::from_encoded_point(&k256::EncodedPoint::from_bytes(a).unwrap());
    let q = k256::ProjectivePoint::from_encoded_point(&k256::EncodedPoint::from_bytes(b).unwrap());
    (p.unwrap() - q.unwrap()).to_encoded_point(false).as_bytes().to_vec()
}

/// Relies on k256's `ProjectivePoint == ProjectivePoint` (after
/// `from_encoded_point`): group equality, so `d·G` and `e·G` are equal exactly
/// when `d` and `e` are, both below the order.
#[verifier::external_body]
fn k256_point_eq(a: &Vec<u8>, b: &Vec<u8>) -> (r: bool)
    requires
        is_point_encoding(a@),
        is_point_encoding(b@),
    ensures
        forall|d: nat, e: nat|
            d < group_order() && e < group_order() && #[trigger] sec1_of_multiple(d) == a@
                && #[trigger] sec1_of_multiple(e) == b@ ==> (r <==> d == e),
{
    let p = k256::ProjectivePoint::from_encoded_point(&k256::EncodedPoint::from_bytes(a).unwrap());
    let q = k256::ProjectivePoint::from_encoded_point(&k256::EncodedPoint::from_bytes(b).unwrap());
    p.unwrap() == q.unwrap()
}

/// A point of the secp256k1 group, viewed as its discrete logarithm to `G`.
pub struct Point {
    enc: Vec<u8>,
    dlog: Ghost<nat>,
}

impl View for Point {
    type V = nat;

    closed spec fn view(&self) -> nat {
        self.dlog@
    }
}

impl Point {
    #[verifier::type_invariant]
    spec fn encoded(self) -> bool {
        &&& self.dlog@ < group_order()
        &&& self.enc@ == sec1_of_multiple(self.dlog@)
    }

    /// `k·G`.
    pub fn mul_base(k: &Scalar) -> (r: Point)
        ensures
            r@ == k@,
    {
        proof {
            use_type_invariant(k);
        }
        Point { enc: k256_mul_generator(&k.bytes), dlog: Ghost(k@) }
    }

    /// The base point `G`.
    pub fn generator() -> (r: Point)
        ensures
            r@ == 1,
    {
        Point::mul_base(&Scalar::one())
    }

    /// The identity of the group, the point at infinity.
    pub fn identity() -> (r: Point)
        ensures
            r@ == 0,
    {
        Point::mul_base(&Scalar::zero())
    }

    /// `k·self`.
    pub fn mul(&self, k: &Scalar) -> (r: Point)
        ensures
            r@ == (self@ * k@) % group_order(),
    {
        proof {
            use_type_invariant(self);
            use_type_invariant(k);
        }
        let enc = k256_point_mul(&self.enc, &k.bytes);
        Point { enc, dlog: Ghost((self@ * k@) % group_order()) }
    }

    /// `self + other`.
    pub fn add(&self, other: &Point) -> (r: Point)
        ensures
            r@ == (self@ + other@) % group_order(),
    {
        proof {
            use_type_invariant(self);
            use_type_invariant(other);
        }
        let enc = k256_point_add(&self.enc, &other.enc);
        Point { enc, dlog: Ghost((self@ + other@) % group_order()) }
    }

    /// `self - other`.
    pub fn sub(&self, other: &Point) -> (r: Point)
        ensures
            r@ == (self@ - other@) % (group_order() as int),
    {
        proof {
            use_type_invariant(self);
            use_type_invariant(other);
        }
        let enc = k256_point_sub(&self.enc, &other.enc);
        let ghost d = ((self@ - other@) % (group_order() as int)) as nat;
        proof {
            lemma_mod_bound(self@ - other@, group_order() as int);
        }
        Point { enc, dlog: Ghost(d) }
    }

    /// Whether two points are the same point of the group.
    pub fn equals(&self, other: &Point) -> (r: bool)
        ensures
            r == (self@ == other@),
    {
        proof {
            use_type_invariant(self);
            use_type_invariant(other);
        }
        k256_point_eq(&self.enc, &other.enc)
    }

    /// The uncompressed SEC1 encoding.
    pub fn to_sec1(&self) -> (r: &Vec<u8>)
        ensures
            r@ == sec1_of_multiple(self@),
    {
        proof {
            use_type_invariant(self);
        }
        &self.enc
    }
}

impl Clone for Point {
    fn clone(&self) -> (r: Point)
        ensures
            r@ == self@,
    {
        proof {
            use_type_invariant(self);
        }
        Point { enc: self.enc.clone(), dlog: self.dlog }
    }
}

} // verus!
