//! The encrypted envelope codec.
//!
//! A payload travels as an authenticated-encrypted envelope: the sender
//! derives a per-message key from the curve agreement between its
//! secret key and the recipient's public key, hashed together with a
//! fresh random salt, and seals the payload under a fresh random nonce.
//! The recipient re-derives the same key from its own secret key and
//! the sender's public key (known from context, not from the envelope).
//! Decryption with the wrong key, or of a tampered envelope, fails
//! closed; it never yields corrupted plaintext.

use vstd::prelude::*;

use crate::address::GrinboxAddress;
use crate::crypto::PublicKey;
use crate::crypto::SecretKey;
use crate::crypto::aead_open;
use crate::crypto::aead_seal;
use crate::crypto::envelope_key;
use crate::crypto::pub_of;
use crate::crypto::seal_of;
use crate::crypto::sha256;
use crate::crypto::shared_of;
use crate::crypto::copy_bytes;
use crate::crypto::random_bytes;
use crate::error::DecodeError;

verus! {

/// The self-describing encrypted wire form of a payload: who it is
/// for, the sealed bytes (ciphertext plus integrity tag), and the fresh
/// key-derivation salt and encryption nonce.
pub struct EncryptedMessage {
    pub destination: GrinboxAddress,
    pub encrypted_message: Vec<u8>,
    pub salt: Vec<u8>,
    pub nonce: Vec<u8>,
}

impl EncryptedMessage {
    /// Structural well-formedness of the envelope fields.
    pub open spec fn wf(&self) -> bool {
        self.salt@.len() == 8 && self.nonce@.len() == 12 && self.encrypted_message@.len() >= 16
    }

    /// Whether this envelope is the genuine sealing of `pt` under the
    /// key pair whose shared point is named by (`own_pub`, `other_pub`).
    pub open spec fn seals(&self, own_pub: Seq<u8>, other_pub: Seq<u8>, pt: Seq<u8>) -> bool {
        self.encrypted_message@ == seal_of(
            envelope_key(shared_of(own_pub, other_pub), self.salt@),
            self.nonce@,
            pt,
        )
    }
}

/// Produces an authenticated-encrypted, self-describing envelope for
/// `plaintext`, addressed to `destination`, readable only with the
/// secret half of `receiver_pub`. The envelope is the sealing of the
/// plaintext under the derived key, stated for both spellings of the
/// shared point so either party's derivation matches.
pub fn encrypt(
    plaintext: &Vec<u8>,
    destination: &GrinboxAddress,
    receiver_pub: &PublicKey,
    sender_sec: &SecretKey,
) -> (r: EncryptedMessage)
    requires
        plaintext@.len() < 0x1000_0000,
    ensures
        r.wf(),
        r.destination == *destination,
        r.encrypted_message@.len() == plaintext@.len() + 16,
        r.seals(pub_of(sender_sec@), receiver_pub@, plaintext@),
        r.seals(receiver_pub@, pub_of(sender_sec@), plaintext@),
{
    let salt = random_bytes(8);
    let nonce = random_bytes(12);
    let shared = sender_sec.shared_secret(receiver_pub);
    let mut keyed = copy_bytes(&shared);
    let mut salt_tail = copy_bytes(&salt);
    keyed.append(&mut salt_tail);
    let key = sha256(&keyed);
    let sealed = aead_seal(&key, &nonce, plaintext);
    EncryptedMessage {
        destination: destination.duplicate(),
        encrypted_message: sealed,
        salt,
        nonce,
    }
}

/// Recovers the plaintext of an envelope with the recipient's secret
/// key and the sender's public key. Fails closed: a structurally
/// malformed envelope is `Malformed`; one whose tag does not check out
/// under the derived key is `AuthenticationFailed`. Whatever plaintext
/// comes out is exactly the one this envelope seals, and a genuine
/// envelope for this key pair always opens.
pub fn decrypt(env: &EncryptedMessage, receiver_sec: &SecretKey, sender_pub: &PublicKey) -> (r:
    Result<Vec<u8>, DecodeError>)
    ensures
        r matches Ok(pt) ==> env.wf() && env.seals(pub_of(receiver_sec@), sender_pub@, pt@),
        forall|p: Seq<u8>|
            env.salt@.len() == 8 && env.nonce@.len() == 12 && env.seals(
                pub_of(receiver_sec@),
                sender_pub@,
                p,
            ) ==> (r matches Ok(pt) && pt@ == p),
        r == Err::<Vec<u8>, DecodeError>(DecodeError::Malformed) <==> (env.salt@.len() != 8
            || env.nonce@.len() != 12),
{
    if env.salt.len() != 8 || env.nonce.len() != 12 {
        return Err(DecodeError::Malformed);
    }
    let shared = receiver_sec.shared_secret(sender_pub);
    let mut keyed = copy_bytes(&shared);
    let mut salt_tail = copy_bytes(&env.salt);
    keyed.append(&mut salt_tail);
    let key = sha256(&keyed);
    match aead_open(&key, &env.nonce, &env.encrypted_message) {
        Some(pt) => {
            proof {
                assert(env.encrypted_message@.len() == pt@.len() + 16);
            }
            Ok(pt)
        },
        None => Err(DecodeError::AuthenticationFailed),
    }
}

/// The envelope round trip: an envelope genuinely sealed by the holder
/// of `sender_sec` for the public key of `receiver_sec` is, to the
/// recipient's own derivation, the sealing of the same plaintext — so
/// decrypting it with the recipient's secret key and the sender's
/// public key yields exactly the plaintext that was encrypted.
pub proof fn lemma_envelope_round_trip(
    sender_sec: Seq<u8>,
    receiver_sec: Seq<u8>,
    receiver_pub: Seq<u8>,
    env: EncryptedMessage,
    pt: Seq<u8>,
)
    requires
        receiver_pub == pub_of(receiver_sec),
        env.seals(receiver_pub, pub_of(sender_sec), pt),
    ensures
        env.seals(pub_of(receiver_sec), pub_of(sender_sec), pt),
{
}

} // verus!

verus! {

impl EncryptedMessage {
    /// Rebuilds an envelope from its wire fields: the hex spellings of
    /// the sealed bytes, salt and nonce. Exactly the well-formed hex
    /// spellings are accepted; anything else is a malformed envelope.
    pub fn from_parts(
        destination: GrinboxAddress,
        encrypted_hex: &str,
        salt_hex: &str,
        nonce_hex: &str,
    ) -> (r: Result<EncryptedMessage, DecodeError>)
        ensures
            match r {
                Ok(e) => {
                    &&& e.destination == destination
                    &&& crate::hexutil::valid_hex(encrypted_hex@) && e.encrypted_message@
                        == crate::hexutil::bytes_of_hex(encrypted_hex@)
                    &&& crate::hexutil::valid_hex(salt_hex@) && e.salt@
                        == crate::hexutil::bytes_of_hex(salt_hex@)
                    &&& crate::hexutil::valid_hex(nonce_hex@) && e.nonce@
                        == crate::hexutil::bytes_of_hex(nonce_hex@)
                },
                Err(e) => e == DecodeError::Malformed,
            },
            r is Ok <==> crate::hexutil::valid_hex(encrypted_hex@) && crate::hexutil::valid_hex(
                salt_hex@,
            ) && crate::hexutil::valid_hex(nonce_hex@),
    {
        let encrypted_message = match crate::hexutil::hex_decode(encrypted_hex) {
            Some(b) => b,
            None => {
                return Err(DecodeError::Malformed);
            },
        };
        let salt = match crate::hexutil::hex_decode(salt_hex) {
            Some(b) => b,
            None => {
                return Err(DecodeError::Malformed);
            },
        };
        let nonce = match crate::hexutil::hex_decode(nonce_hex) {
            Some(b) => b,
            None => {
                return Err(DecodeError::Malformed);
            },
        };
        Ok(EncryptedMessage { destination, encrypted_message, salt, nonce })
    }
}

} // verus!

verus! {

/// Tampering is never silent: a ciphertext that is not the sealing of
/// the original plaintext can only ever decrypt — if it decrypts at
/// all — to something other than that plaintext, because whatever
/// `decrypt` returns is exactly the plaintext its input seals.
pub proof fn lemma_no_silent_corruption(
    key: Seq<u8>,
    nonce: Seq<u8>,
    tampered: Seq<u8>,
    original_pt: Seq<u8>,
    recovered_pt: Seq<u8>,
)
    requires
        tampered != seal_of(key, nonce, original_pt),
        tampered == seal_of(key, nonce, recovered_pt),
    ensures
        recovered_pt != original_pt,
{
}

} // verus!
