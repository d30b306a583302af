//! The two parties of a fair data exchange. The server encrypts its data
//! under a key whose scalar is the witness of its public key `pk`; the client
//! pre-signs the ciphertext for the tweak point `pk`; when the server collects
//! the adapted signature, the client extracts the key from it and decrypts.
use crate::curve::{be_bytes32, group_order, Point, Scalar};
use crate::{AS_scheme, Scheme, Sigma, Sigma_prime, Sign_scheme};
use aes_gcm::aead::{Aead, AeadCore, KeyInit};
use aes_gcm::{Aes256Gcm, Key, Nonce};
use rand_core::OsRng;
use vstd::prelude::*;
use vstd::utf8::{decode_utf8, encode_utf8, valid_utf8};

verus! {

/// The lowercase hexadecimal digit of a value below 16.
pub open spec fn hex_digit(d: nat) -> char {
    seq!['0', '1', '2', '3', '4', '5', '6', '7', '8', '9', 'a', 'b', 'c', 'd', 'e', 'f'][d as int]
}

/// Lowercase hexadecimal: two digits per byte, the high half first.
pub open spec fn hex_of(b: Seq<u8>) -> Seq<char>
    decreases b.len(),
{
    if b.len() == 0 {
        Seq::empty()
    } else {
        hex_of(b.drop_last()) + seq![hex_digit(b.last() as nat / 16), hex_digit(b.last() as nat % 16)]
    }
}

proof fn lemma_hex_len(b: Seq<u8>)
    ensures
        hex_of(b).len() == 2 * b.len(),
    decreases b.len(),
{
    if b.len() > 0 {
        lemma_hex_len(b.drop_last());
    }
}

/// The bytes of the message that is signed for a ciphertext: its hex string.
pub open spec fn ct_message(ct: Seq<u8>) -> Seq<u8> {
    encode_utf8(hex_of(ct))
}

/// Relies on hex's `encode`: lowercase hexadecimal, two digits per byte.
#[verifier::external_body]
fn hex_encode(b: &[u8]) -> (r: String)
    ensures
        r@ == hex_of(b@),
{
    hex::encode(b)
}

/// The AES-256-GCM ciphertext (with its tag, no associated data) of
/// `plaintext` under `key` and `nonce`.
pub uninterp spec fn aes256gcm_seal(key: Seq<u8>, nonce: Seq<u8>, plaintext: Seq<u8>) -> Seq<u8>;

/// The largest plaintext AES-GCM takes, in bytes.
pub open spec fn aes_gcm_max_plaintext() -> nat {
    0x1000000000
}

/// Relies on aes-gcm's `Aes256Gcm::encrypt`: the ciphertext of `plaintext`;
/// it fails only on a plaintext over `2^36` bytes.
#[verifier::external_body]
fn aes256gcm_encrypt(key: &[u8; 32], nonce: &[u8; 12], plaintext: &[u8]) -> (r: Vec<u8>)
    requires
        plaintext@.len() <= aes_gcm_max_plaintext(),
    ensures
        r@ == aes256gcm_seal(key@, nonce@, plaintext@),
{
    let cipher = Aes256Gcm::new(Key::<Aes256Gcm>::from_slice(key));
    cipher.encrypt(Nonce::from_slice(nonce), plaintext).unwrap()
}

/// Relies on aes-gcm's `Aes256Gcm::decrypt`: it opens what `encrypt` sealed
/// under the same key and nonce (a plaintext of at most `2^36` bytes).
#[verifier::external_body]
fn aes256gcm_decrypt(key: &[u8; 32], nonce: &[u8; 12], ct: &[u8]) -> (r: Option<Vec<u8>>)
    ensures
        forall|pt: Seq<u8>|
            pt.len() <= aes_gcm_max_plaintext() && #[trigger] aes256gcm_seal(key@, nonce@, pt)
                == ct@ ==> (r is Some && r->0@ == pt),
{
    let cipher = Aes256Gcm::new(Key::<Aes256Gcm>::from_slice(key));
    cipher.decrypt(Nonce::from_slice(nonce), ct).ok()
}

/// Relies on aes-gcm's `Aes256Gcm::generate_nonce` fed by rand_core's `OsRng`:
/// some 96-bit nonce.
#[verifier::external_body]
fn os_random_nonce() -> (r: [u8; 12]) {
    Aes256Gcm::generate_nonce(&mut OsRng).into()
}

/// Relies on std's `String::from_utf8`: it accepts exactly valid UTF-8 and
/// keeps the characters it encodes.
#[verifier::external_body]
fn string_from_utf8(b: Vec<u8>) -> (r: Option<String>)
    ensures
        r is Some <==> valid_utf8(b@),
        r matches Some(s) ==> s@ == decode_utf8(b@),
{
    String::from_utf8(b).ok()
}

/// The hex string of a ciphertext, the message that both parties sign.
fn ct_hex(ct: &[u8]) -> (r: String)
    requires
        ct@.len() > 0,
    ensures
        r@ == hex_of(ct@),
        r@.len() > 0,
{
    proof {
        lemma_hex_len(ct@);
    }
    hex_encode(ct)
}

/// The data provider. Its encryption key `sk` is the witness of `pk`; it signs
/// with `sk_s`.
pub struct Server {
    sk: Scalar,
    pub pk: Point,
    sk_s: Scalar,
    pub pk_s: Point,
    scheme: Scheme,
}

impl Server {
    /// The encryption key, as a scalar.
    pub closed spec fn secret(self) -> nat {
        self.sk@
    }

    /// `pk = sk·G`, as a discrete logarithm.
    pub closed spec fn public_key(self) -> nat {
        self.pk@
    }

    /// The signing key.
    pub closed spec fn signing_secret(self) -> nat {
        self.sk_s@
    }

    /// `pk_s = sk_s·G`, as a discrete logarithm.
    pub closed spec fn signing_key(self) -> nat {
        self.pk_s@
    }

    /// The scheme the server signs with.
    pub closed spec fn scheme_of(self) -> Scheme {
        self.scheme
    }

    /// Draws both key pairs.
    pub fn new(scheme: Scheme) -> (r: Server)
        ensures
            r.secret() < group_order(),
            r.signing_secret() < group_order(),
            r.public_key() == r.secret(),
            r.signing_key() == r.signing_secret(),
            r.scheme_of() == scheme,
    {
        let sk = Scalar::random();
        let pk = Point::mul_base(&sk);
        let sk_s = Scalar::random();
        let pk_s = Point::mul_base(&sk_s);
        Server { sk, pk, sk_s, pk_s, scheme }
    }

    /// Encrypts `plaintext` with AES-256-GCM under the 32-byte encoding of `sk`
    /// and a fresh nonce; returns the ciphertext and the nonce.
    pub fn encrypt_data(&self, plaintext: &str) -> (r: (Vec<u8>, [u8; 12]))
        requires
            encode_utf8(plaintext@).len() <= aes_gcm_max_plaintext(),
        ensures
            r.0@ == aes256gcm_seal(be_bytes32(self.secret()), r.1@, encode_utf8(plaintext@)),
    {
        let key = self.sk.to_bytes();
        let nonce = os_random_nonce();
        let ct = aes256gcm_encrypt(&key, &nonce, plaintext.as_bytes());
        (ct, nonce)
    }

    /// Whether the client's pre-signature pre-verifies for the ciphertext under
    /// `pk_c` and the tweak point `pk`.
    pub fn verify_presig(&self, sigma_prime: &Sigma_prime, pk_c: &Point, ct: &[u8]) -> (b: bool)
        requires
            ct@.len() > 0,
        ensures
            b == self.scheme_of().pre_accepts(
                *sigma_prime,
                pk_c@,
                self.public_key(),
                ct_message(ct@),
            ),
    {
        let m = ct_hex(ct);
        self.scheme.verify_pre_sign(pk_c, m.as_str(), &self.pk, sigma_prime)
    }

    /// Signs the ciphertext with `sk_s` and a fresh nonce, and adapts the
    /// client's pre-signature with `sk`.
    pub fn generate_sig_and_adapt(&self, ct: &[u8], sigma_prime: &Sigma_prime) -> (r: (
        Sigma,
        Sigma,
    ))
        requires
            ct@.len() > 0,
        ensures
            exists|k: nat|
                k < group_order() && r.0.R@ == k && r.0.s@ == self.scheme_of().sign_s(
                    self.signing_secret(),
                    ct_message(ct@),
                    k,
                ),
            r.1.s@ == self.scheme_of().adapt_s(sigma_prime.s_prime@, self.secret()),
            r.1.R@ == sigma_prime.R_prime@,
    {
        let r_s = Scalar::random();
        let m = ct_hex(ct);
        let sigma_s = self.scheme.sign(&self.sk_s, m.as_str(), &r_s);
        let sigma_c = self.scheme.adapt_signature(sigma_prime, &self.sk);
        assert(sigma_s.s@ == self.scheme_of().sign_s(self.signing_secret(), ct_message(ct@), r_s@));
        (sigma_s, sigma_c)
    }
}

/// The buyer of the data.
pub struct Client {
    sk: Scalar,
    pub pk: Point,
    scheme: Scheme,
}

impl Client {
    /// The client's secret key.
    pub closed spec fn secret(self) -> nat {
        self.sk@
    }

    /// `pk = sk·G`, as a discrete logarithm.
    pub closed spec fn public_key(self) -> nat {
        self.pk@
    }

    /// The scheme the client signs with.
    pub closed spec fn scheme_of(self) -> Scheme {
        self.scheme
    }

    /// Draws the client's key pair.
    pub fn new(scheme: Scheme) -> (r: Client)
        ensures
            r.secret() < group_order(),
            r.public_key() == r.secret(),
            r.scheme_of() == scheme,
    {
        let sk = Scalar::random();
        let pk = Point::mul_base(&sk);
        Client { sk, pk, scheme }
    }

    /// Pre-signs the ciphertext's hex string for the tweak point `server_pk`,
    /// with a fresh nonce.
    pub fn generate_presig(&self, ct: &[u8], server_pk: &Point) -> (sigma_prime: Sigma_prime)
        requires
            ct@.len() > 0,
        ensures
            exists|k: nat|
                k < group_order() && self.scheme_of().is_pre_signature(
                    sigma_prime,
                    self.secret(),
                    ct_message(ct@),
                    server_pk@,
                    k,
                ),
    {
        let r_prime = Scalar::random();
        let m = ct_hex(ct);
        let sigma_prime = self.scheme.pre_sign(&self.sk, m.as_str(), server_pk, &r_prime);
        assert(self.scheme_of().is_pre_signature(
            sigma_prime,
            self.secret(),
            ct_message(ct@),
            server_pk@,
            r_prime@,
        ));
        sigma_prime
    }

    /// Whether the server's signature verifies under `server_pk` and the
    /// client's own under its key, both for the ciphertext.
    pub fn verify_sign(&self, server_pk: &Point, ct: &[u8], sigma_s: &Sigma, sigma_c: &Sigma) -> (b:
        bool)
        requires
            ct@.len() > 0,
        ensures
            b == (self.scheme_of().accepts(sigma_c.s@, sigma_c.R@, self.public_key(), ct_message(ct@))
                && self.scheme_of().accepts(sigma_s.s@, sigma_s.R@, server_pk@, ct_message(ct@))),
    {
        let m = ct_hex(ct);
        let is_s_correct = self.scheme.verify_sign(sigma_s, server_pk, m.as_str());
        let is_c_correct = self.scheme.verify_sign(sigma_c, &self.pk, m.as_str());
        is_c_correct && is_s_correct
    }

    /// The witness that turned `sigma_prime` into `sigma`: the server's key.
    pub fn extract_secret(&self, sigma: &Sigma, sigma_prime: &Sigma_prime) -> (t: Scalar)
        ensures
            t@ == self.scheme_of().extract(sigma.s@, sigma_prime.s_prime@),
    {
        self.scheme.extract_witness(sigma, sigma_prime)
    }

    /// Decrypts `ct` with the 32-byte encoding of `sk` and `nonce_bytes`; `None`
    /// where decryption fails or the plaintext is not UTF-8.
    pub fn decrypt_data(&self, ct: &[u8], sk: &Scalar, nonce_bytes: &[u8; 12]) -> (r: Option<
        String,
    >)
        ensures
            forall|pt: Seq<u8>|
                pt.len() <= aes_gcm_max_plaintext() && #[trigger] aes256gcm_seal(
                    be_bytes32(sk@),
                    nonce_bytes@,
                    pt,
                ) == ct@ ==> (valid_utf8(pt) <==> r is Some),
            forall|pt: Seq<u8>|
                pt.len() <= aes_gcm_max_plaintext() && #[trigger] aes256gcm_seal(
                    be_bytes32(sk@),
                    nonce_bytes@,
                    pt,
                ) == ct@ ==> (r matches Some(s) ==> s@ == decode_utf8(pt)),
    {
        let key = sk.to_bytes();
        match aes256gcm_decrypt(&key, nonce_bytes, ct) {
            Some(plaintext) => string_from_utf8(plaintext),
            None => None,
        }
    }
}

} // verus!
