//! Key material and the cryptographic primitives the brokers rest on.
//!
//! Keys are held as validated byte strings. The primitives themselves —
//! curve operations, hashing, authenticated encryption, randomness —
//! are calls into outside libraries behind trusted wrappers; every
//! result that is a pure function of its arguments is given a name that
//! the rest of the library's contracts speak of.

use vstd::prelude::*;

use ring::rand::SecureRandom;
use sha2::Digest;
use vstd::string::StringSliceAdditionalSpecFns;

use crate::hexutil::hex_of;
use crate::hexutil::bytes_of_hex;
use crate::hexutil::valid_hex;
use crate::hexutil::hex_encode;
use crate::hexutil::hex_decode;
use crate::hexutil::lemma_hex_round_trip;
use crate::error::Error;

verus! {

/// Whether 32 bytes are a valid curve secret key (nonzero, below the
/// group order).
pub uninterp spec fn sec_key_valid(b: Seq<u8>) -> bool;

/// Whether bytes are a parseable curve public key encoding.
pub uninterp spec fn pub_key_valid(b: Seq<u8>) -> bool;

/// The compressed public key derived from a secret key.
pub uninterp spec fn pub_of(sk: Seq<u8>) -> Seq<u8>;

/// The shared secret agreed between the holders of two key pairs; a
/// function of the two public points, written here as (own public key,
/// other public key).
pub uninterp spec fn shared_of(p: Seq<u8>, q: Seq<u8>) -> Seq<u8>;

/// The deterministic signature of a 32-byte digest under a secret key.
pub uninterp spec fn sig_of(digest: Seq<u8>, sk: Seq<u8>) -> Seq<u8>;

/// The SHA-256 digest of a byte string.
pub uninterp spec fn sha256_of(data: Seq<u8>) -> Seq<u8>;

/// Whether curve signature verification accepts (digest, compact
/// signature bytes, public key encoding) — a pure function of the
/// three.
pub uninterp spec fn verify_of(digest: Seq<u8>, sig: Seq<u8>, pk: Seq<u8>) -> bool;

/// The AEAD sealing (ciphertext plus tag) of a plaintext under a key
/// and nonce.
pub uninterp spec fn seal_of(key: Seq<u8>, nonce: Seq<u8>, pt: Seq<u8>) -> Seq<u8>;

/// Relies on secp256k1's `SecretKey::from_byte_array`: it accepts
/// exactly the 32-byte strings that are valid secret keys.
#[verifier::external_body]
fn sec_key_check(b: &Vec<u8>) -> (r: bool)
    ensures
        r == (b@.len() == 32 && sec_key_valid(b@)),
{
    match <&[u8; 32]>::try_from(b.as_slice()) {
        Ok(a) => secp256k1::SecretKey::from_byte_array(*a).is_ok(),
        Err(_) => false,
    }
}

/// Relies on secp256k1's `PublicKey::from_slice`: it accepts exactly
/// the parseable public key encodings.
#[verifier::external_body]
fn pub_key_check(b: &Vec<u8>) -> (r: bool)
    ensures
        r == pub_key_valid(b@),
{
    secp256k1::PublicKey::from_slice(b.as_slice()).is_ok()
}

/// Relies on secp256k1's `PublicKey::from_secret_key` and compressed
/// `serialize`: the derived key is a function of the secret key alone,
/// 33 bytes, and parses back.
#[verifier::external_body]
fn derive_public_raw(sk: &Vec<u8>) -> (r: Vec<u8>)
    requires
        sk@.len() == 32,
        sec_key_valid(sk@),
    ensures
        r@ == pub_of(sk@),
        r@.len() == 33,
        pub_key_valid(r@),
{
    let a = <&[u8; 32]>::try_from(sk.as_slice()).unwrap();
    let secret = secp256k1::SecretKey::from_byte_array(*a).unwrap();
    let public = secp256k1::PublicKey::from_secret_key(&secret);
    public.serialize().to_vec()
}

/// Relies on secp256k1's `ecdh::SharedSecret::new`: the agreed secret
/// is 32 bytes, a function of the two public points alone — so the two
/// ends of an exchange derive the same bytes whichever side computes.
#[verifier::external_body]
fn ecdh_raw(sk: &Vec<u8>, pk: &Vec<u8>) -> (r: Vec<u8>)
    requires
        sk@.len() == 32,
        sec_key_valid(sk@),
        pub_key_valid(pk@),
    ensures
        r@ == shared_of(pub_of(sk@), pk@),
        r@ == shared_of(pk@, pub_of(sk@)),
        r@.len() == 32,
{
    let a = <&[u8; 32]>::try_from(sk.as_slice()).unwrap();
    let secret = secp256k1::SecretKey::from_byte_array(*a).unwrap();
    let public = secp256k1::PublicKey::from_slice(pk.as_slice()).unwrap();
    let shared = secp256k1::ecdh::SharedSecret::new(&public, &secret);
    shared.secret_bytes().to_vec()
}

/// Relies on secp256k1's `ecdsa::sign`: RFC 6979 makes the signature a
/// deterministic function of digest and key; its compact form is 64
/// bytes.
#[verifier::external_body]
fn ecdsa_sign_raw(digest: &Vec<u8>, sk: &Vec<u8>) -> (r: Vec<u8>)
    requires
        digest@.len() == 32,
        sk@.len() == 32,
        sec_key_valid(sk@),
    ensures
        r@ == sig_of(digest@, sk@),
        r@.len() == 64,
{
    let d = <&[u8; 32]>::try_from(digest.as_slice()).unwrap();
    let a = <&[u8; 32]>::try_from(sk.as_slice()).unwrap();
    let secret = secp256k1::SecretKey::from_byte_array(*a).unwrap();
    let msg = secp256k1::Message::from_digest(*d);
    let sig = secp256k1::ecdsa::sign(msg, &secret);
    sig.serialize_compact().to_vec()
}

/// Relies on secp256k1's `ecdsa::verify`: the verdict is a pure
/// function of digest, signature bytes and key, and a signature
/// produced by `ecdsa::sign` under a key verifies against that key's
/// public key and the same digest.
#[verifier::external_body]
fn ecdsa_verify_raw(digest: &Vec<u8>, sig: &Vec<u8>, pk: &Vec<u8>) -> (r: bool)
    requires
        digest@.len() == 32,
        pub_key_valid(pk@),
    ensures
        r == verify_of(digest@, sig@, pk@),
        forall|x: Seq<u8>| pk@ == pub_of(x) && sig@ == sig_of(digest@, x) ==> r,
{
    let d = <&[u8; 32]>::try_from(digest.as_slice()).unwrap();
    let msg = secp256k1::Message::from_digest(*d);
    let public = secp256k1::PublicKey::from_slice(pk.as_slice()).unwrap();
    match secp256k1::ecdsa::Signature::from_compact(sig.as_slice()) {
        Ok(signature) => secp256k1::ecdsa::verify(&signature, msg, &public).is_ok(),
        Err(_) => false,
    }
}

/// Relies on sha2's `Sha256::digest`: 32 bytes, a function of the input
/// alone.
#[verifier::external_body]
pub fn sha256(data: &Vec<u8>) -> (r: Vec<u8>)
    ensures
        r@ == sha256_of(data@),
        r@.len() == 32,
{
    sha2::Sha256::digest(data.as_slice()).to_vec()
}

/// Relies on ring's AES-256-GCM `seal_in_place_append_tag`: for a
/// 32-byte key and 12-byte nonce it appends a 16-byte tag, and the
/// result is a function of key, nonce and plaintext alone.
#[verifier::external_body]
pub fn aead_seal(key: &Vec<u8>, nonce: &Vec<u8>, plaintext: &Vec<u8>) -> (r: Vec<u8>)
    requires
        key@.len() == 32,
        nonce@.len() == 12,
        plaintext@.len() < 0x1000_0000,
    ensures
        r@ == seal_of(key@, nonce@, plaintext@),
        r@.len() == plaintext@.len() + 16,
{
    let unbound = ring::aead::UnboundKey::new(&ring::aead::AES_256_GCM, key.as_slice()).unwrap();
    let sealing = ring::aead::LessSafeKey::new(unbound);
    let n = ring::aead::Nonce::try_assume_unique_for_key(nonce.as_slice()).unwrap();
    let mut in_out = plaintext.clone();
    sealing.seal_in_place_append_tag(n, ring::aead::Aad::empty(), &mut in_out).unwrap();
    in_out
}

/// Relies on ring's AES-256-GCM `open_in_place`: opening is inverse to
/// sealing under the same key and nonce — a genuine sealing opens to
/// its plaintext, and whatever opens is exactly the sealing of what
/// came out.
#[verifier::external_body]
pub fn aead_open(key: &Vec<u8>, nonce: &Vec<u8>, ciphertext: &Vec<u8>) -> (r: Option<Vec<u8>>)
    requires
        key@.len() == 32,
        nonce@.len() == 12,
    ensures
        forall|p: Seq<u8>|
            ciphertext@ == seal_of(key@, nonce@, p) ==> r is Some && r.unwrap()@ == p,
        r is Some ==> ciphertext@ == seal_of(key@, nonce@, r.unwrap()@) && ciphertext@.len()
            == r.unwrap()@.len() + 16,
{
    let unbound = ring::aead::UnboundKey::new(&ring::aead::AES_256_GCM, key.as_slice()).unwrap();
    let opening = ring::aead::LessSafeKey::new(unbound);
    let n = ring::aead::Nonce::try_assume_unique_for_key(nonce.as_slice()).unwrap();
    let mut in_out = ciphertext.clone();
    match opening.open_in_place(n, ring::aead::Aad::empty(), &mut in_out) {
        Ok(plain) => Some(plain.to_vec()),
        Err(_) => None,
    }
}

/// Relies on ring's `SystemRandom`: fills a buffer of the asked-for
/// length; nothing else is assumed of the bytes.
#[verifier::external_body]
pub fn random_bytes(n: usize) -> (r: Vec<u8>)
    ensures
        r@.len() == n,
{
    let rng = ring::rand::SystemRandom::new();
    let mut buf = vec![0u8; n];
    rng.fill(&mut buf).unwrap();
    buf
}

/// An exact copy of a byte string.
pub fn copy_bytes(v: &Vec<u8>) -> (r: Vec<u8>)
    ensures
        r@ == v@,
{
    let mut r: Vec<u8> = Vec::new();
    let mut i: usize = 0;
    while i < v.len()
        invariant
            0 <= i <= v@.len(),
            r@ == v@.subrange(0, i as int),
        decreases v@.len() - i,
    {
        r.push(v[i]);
        proof {
            assert(v@.subrange(0, i + 1) =~= v@.subrange(0, i as int) + seq![v@[i as int]]);
        }
        i = i + 1;
    }
    proof {
        assert(v@.subrange(0, v@.len() as int) =~= v@);
    }
    r
}

/// A validated curve secret key.
pub struct SecretKey {
    bytes: Vec<u8>,
}

/// A validated, compressed curve public key.
pub struct PublicKey {
    bytes: Vec<u8>,
}

impl View for SecretKey {
    type V = Seq<u8>;

    closed spec fn view(&self) -> Seq<u8> {
        self.bytes@
    }
}

impl View for PublicKey {
    type V = Seq<u8>;

    closed spec fn view(&self) -> Seq<u8> {
        self.bytes@
    }
}

impl SecretKey {
    #[verifier::type_invariant]
    spec fn inv(self) -> bool {
        self.bytes@.len() == 32 && sec_key_valid(self.bytes@)
    }

    /// Takes 32 bytes as a secret key, refusing byte strings that are
    /// not valid keys.
    pub fn from_bytes(bytes: Vec<u8>) -> (r: Result<SecretKey, Error>)
        ensures
            match r {
                Ok(k) => k@ == bytes@ && bytes@.len() == 32 && sec_key_valid(bytes@),
                Err(e) => e == Error::InvalidSecretKey && !(bytes@.len() == 32 && sec_key_valid(
                    bytes@,
                )),
            },
    {
        if sec_key_check(&bytes) {
            Ok(SecretKey { bytes })
        } else {
            Err(Error::InvalidSecretKey)
        }
    }

    /// An exact copy.
    pub fn duplicate(&self) -> (r: SecretKey)
        ensures
            r@ == self@,
    {
        proof {
            use_type_invariant(self);
        }
        SecretKey { bytes: copy_bytes(&self.bytes) }
    }

    /// The shared secret agreed with the holder of `their_pub`: a
    /// function of the two public points alone, stated in both
    /// spellings so that either party's derivation is known equal.
    pub fn shared_secret(&self, their_pub: &PublicKey) -> (r: Vec<u8>)
        ensures
            r@ == shared_of(pub_of(self@), their_pub@),
            r@ == shared_of(their_pub@, pub_of(self@)),
            r@.len() == 32,
    {
        proof {
            use_type_invariant(self);
            use_type_invariant(their_pub);
        }
        ecdh_raw(&self.bytes, &their_pub.bytes)
    }

    /// The public key this secret key derives.
    pub fn public_key(&self) -> (r: PublicKey)
        ensures
            r@ == pub_of(self@),
            r@.len() == 33,
            pub_key_valid(r@),
    {
        proof {
            use_type_invariant(self);
        }
        PublicKey { bytes: derive_public_raw(&self.bytes) }
    }
}

impl PublicKey {
    #[verifier::type_invariant]
    spec fn inv(self) -> bool {
        self.bytes@.len() == 33 && pub_key_valid(self.bytes@)
    }

    /// Takes 33 bytes as a compressed public key, refusing byte strings
    /// that do not parse as one.
    pub fn from_bytes(bytes: Vec<u8>) -> (r: Result<PublicKey, Error>)
        ensures
            match r {
                Ok(k) => k@ == bytes@ && bytes@.len() == 33 && pub_key_valid(bytes@),
                Err(e) => e == Error::InvalidPublicKey && !(bytes@.len() == 33 && pub_key_valid(
                    bytes@,
                )),
            },
    {
        if bytes.len() == 33 && pub_key_check(&bytes) {
            Ok(PublicKey { bytes })
        } else {
            Err(Error::InvalidPublicKey)
        }
    }

    /// An exact copy.
    pub fn duplicate(&self) -> (r: PublicKey)
        ensures
            r@ == self@,
    {
        proof {
            use_type_invariant(self);
        }
        PublicKey { bytes: copy_bytes(&self.bytes) }
    }

    /// The hex spelling of this key — the form that appears inside
    /// relay addresses.
    pub fn to_hex(&self) -> (r: String)
        ensures
            r@ == hex_of(self@),
    {
        hex_encode(&self.bytes)
    }

    /// Reads a key from its hex spelling.
    pub fn from_hex(s: &str) -> (r: Result<PublicKey, Error>)
        ensures
            match r {
                Ok(k) => valid_hex(s@) && k@ == bytes_of_hex(s@),
                Err(e) => e == Error::InvalidPublicKey,
            },
            r is Ok <==> valid_hex(s@) && bytes_of_hex(s@).len() == 33 && pub_key_valid(
                bytes_of_hex(s@),
            ),
            forall|b: Seq<u8>|
                s@ == hex_of(b) && b.len() == 33 && pub_key_valid(b) ==> (r matches Ok(k) && k@ == b),
    {
        proof {
            assert forall|b: Seq<u8>| s@ == hex_of(b) implies valid_hex(s@) && bytes_of_hex(s@)
                == b by {
                lemma_hex_round_trip(b);
            }
        }
        match hex_decode(s) {
            Some(bytes) => PublicKey::from_bytes(bytes),
            None => Err(Error::InvalidPublicKey),
        }
    }
}

/// The derived key with which an envelope's payload is sealed: the hash
/// of the agreed shared secret and the envelope's fresh salt.
pub open spec fn envelope_key(shared: Seq<u8>, salt: Seq<u8>) -> Seq<u8> {
    sha256_of(shared + salt)
}

/// Signs a challenge string: the signature of the SHA-256 digest of its
/// bytes, spelled in hex.
pub fn sign_challenge(challenge: &str, sk: &SecretKey) -> (r: String)
    ensures
        r@ == hex_of(sig_of(sha256_of(challenge.spec_bytes()), sk@)),
{
    let bytes = challenge.as_bytes_vec();
    let digest = sha256(&bytes);
    proof {
        use_type_invariant(sk);
    }
    let sig = ecdsa_sign_raw(&digest, &sk.bytes);
    hex_encode(&sig)
}

/// Checks a hex-spelled signature of a challenge string against a
/// public key: the answer is exactly the curve verification verdict on
/// the decoded signature — so whenever the signature is the genuine one
/// under a key pair whose public half is `pk`, the check passes, and a
/// body that answers blindly cannot meet this contract.
pub fn verify_challenge(challenge: &str, sig_hex: &str, pk: &PublicKey) -> (r: bool)
    ensures
        r == (valid_hex(sig_hex@) && verify_of(
            sha256_of(challenge.spec_bytes()),
            bytes_of_hex(sig_hex@),
            pk@,
        )),
        forall|x: Seq<u8>|
            pk@ == pub_of(x) && sig_hex@ == hex_of(sig_of(sha256_of(challenge.spec_bytes()), x))
                ==> r,
{
    proof {
        assert forall|b: Seq<u8>| sig_hex@ == hex_of(b) implies valid_hex(sig_hex@) && bytes_of_hex(
            sig_hex@,
        ) == b by {
            lemma_hex_round_trip(b);
        }
    }
    match hex_decode(sig_hex) {
        Some(sig) => {
            let bytes = challenge.as_bytes_vec();
            let digest = sha256(&bytes);
            proof {
                use_type_invariant(pk);
            }
            ecdsa_verify_raw(&digest, &sig, &pk.bytes)
        },
        None => false,
    }
}

} // verus!

verus! {

impl crate::address::GrinboxAddress {
    /// The curve public key a relay address names: its hex key field,
    /// decoded and validated. Only key fields that spell a parseable
    /// 33-byte compressed key have one.
    pub fn public_key(&self) -> (r: Result<PublicKey, Error>)
        ensures
            match r {
                Ok(k) => valid_hex(self.public_key@) && k@ == bytes_of_hex(self.public_key@),
                Err(e) => e == Error::InvalidPublicKey,
            },
            r is Ok <==> valid_hex(self.public_key@) && bytes_of_hex(self.public_key@).len() == 33
                && pub_key_valid(bytes_of_hex(self.public_key@)),
    {
        PublicKey::from_hex(self.public_key.as_str())
    }
}

} // verus!
