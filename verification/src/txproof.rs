//! Transport proofs.
//!
//! When a `Slate` response arrives from the relay, the wallet builds a
//! record binding the decrypted payload to its claimed sender: it
//! checks the sender's signature over exactly the signed content — the
//! serialized envelope, the stripped sender and receiver addresses, and
//! the challenge the response accompanies — reads the envelope out of
//! that same serialized text, checks that it was addressed to this
//! wallet, and decrypts it. The record can later be checked offline
//! against chain data without trusting the relay.

use vstd::prelude::*;
use vstd::string::StringSliceAdditionalSpecFns;

use crate::address::Address;
use crate::address::AddressView;
use crate::address::GrinboxAddress;
use crate::address::parse_spec;
use crate::crypto::PublicKey;
use crate::crypto::SecretKey;
use crate::crypto::envelope_key;
use crate::crypto::pub_of;
use crate::crypto::pub_key_valid;
use crate::crypto::seal_of;
use crate::crypto::sha256_of;
use crate::crypto::shared_of;
use crate::crypto::sig_of;
use crate::crypto::verify_of;
use crate::crypto::verify_challenge;
use crate::envelope::EncryptedMessage;
use crate::envelope::decrypt;
use crate::error::ProofError;
use crate::hexutil::bytes_of_hex;
use crate::hexutil::hex_of;
use crate::hexutil::valid_hex;
use crate::hexutil::lemma_hex_round_trip;
use crate::protocol::parse_envelope_spec;
use crate::protocol::lemma_envelope_wire_round_trip;
use vstd::utf8::encode_utf8;

verus! {

/// A verified record of one received payload: the sender it was proved
/// to come from, the decrypted payload, and the signed material that
/// proves it.
pub struct TxProof {
    pub address: GrinboxAddress,
    pub message: Vec<u8>,
    pub challenge: String,
    pub signature: String,
}

/// A slate response is genuine for sender secret `x`, plaintext `p` and
/// envelope `env` when: the claimed sender parses as a relay address
/// whose key is the public half of `x`; the serialized text is exactly
/// the envelope's canonical wire form; the signature is the real
/// signature under `x` of the signed content — that text, both stripped
/// addresses, and the accompanying challenge; the envelope names the
/// expected destination, is structurally sound, and seals `p` for the
/// receiving key pair.
pub open spec fn genuine_slate_response(
    from: Seq<char>,
    envelope_json: Seq<char>,
    env: EncryptedMessage,
    challenge: Seq<char>,
    signature: Seq<char>,
    receiver_sec: Seq<u8>,
    expected_dest_key: Seq<char>,
    expected_dest_stripped: Seq<char>,
    x: Seq<u8>,
    p: Seq<u8>,
) -> bool {
    &&& parse_spec(from) matches Ok(av) && av matches AddressView::Grinbox(g) && g.public_key
        == hex_of(pub_of(x)) && signature == hex_of(
        sig_of(
            sha256_of(
                encode_utf8(
                    crate::protocol::slate_signed_content(
                        envelope_json,
                        g.stripped(),
                        expected_dest_stripped,
                        challenge,
                    ),
                ),
            ),
            x,
        ),
    )
    &&& pub_of(x).len() == 33 && pub_key_valid(pub_of(x))
    &&& envelope_json == env.wire_json()
    &&& env.destination@.wf()
    &&& env.destination.public_key@ == expected_dest_key
    &&& env.salt@.len() == 8 && env.nonce@.len() == 12
    &&& env.seals(pub_of(receiver_sec), pub_of(x), p)
}

impl TxProof {
    /// Builds a transport proof from an inbound slate response: parses
    /// the claimed sender, verifies its signature over the signed
    /// content — the serialized envelope, both stripped addresses and
    /// the accompanying challenge — reads the envelope back out of that
    /// exact text, checks its destination, and decrypts. Acceptance
    /// means the curve verification verdict on the signature was
    /// positive, whatever comes out decrypted under the claimed
    /// sender's key out of the very text the signature covers, and
    /// every genuine response is accepted.
    #[verifier::rlimit(60)]
    pub fn from_response(
        from: &str,
        envelope_json: &str,
        challenge: &str,
        signature: &str,
        secret_key: &SecretKey,
        expected_destination: &GrinboxAddress,
    ) -> (r: Result<(Vec<u8>, TxProof), ProofError>)
        ensures
            r matches Ok(p) ==> {
                &&& parse_spec(from@) matches Ok(av) && av matches AddressView::Grinbox(g) && (
                p.1.address@ == g)
                &&& valid_hex(p.1.address.public_key@)
                &&& parse_envelope_spec(envelope_json@) matches Some(parts) && {
                    &&& bytes_of_hex(parts.salt).len() == 8
                    &&& bytes_of_hex(parts.nonce).len() == 12
                    &&& bytes_of_hex(parts.enc) == seal_of(
                        envelope_key(
                            shared_of(
                                pub_of(secret_key@),
                                bytes_of_hex(p.1.address.public_key@),
                            ),
                            bytes_of_hex(parts.salt),
                        ),
                        bytes_of_hex(parts.nonce),
                        p.0@,
                    )
                    &&& parts.key == expected_destination.public_key@
                }
                &&& p.1.message@ == p.0@
                &&& p.1.challenge@ == challenge@
                &&& p.1.signature@ == signature@
                &&& valid_hex(signature@) && verify_of(
                    sha256_of(
                        encode_utf8(
                            crate::protocol::slate_signed_content(
                                envelope_json@,
                                p.1.address@.stripped(),
                                expected_destination@.stripped(),
                                challenge@,
                            ),
                        ),
                    ),
                    bytes_of_hex(signature@),
                    bytes_of_hex(p.1.address.public_key@),
                )
            },
            forall|x: Seq<u8>, p: Seq<u8>, env: EncryptedMessage|
                genuine_slate_response(
                    from@,
                    envelope_json@,
                    env,
                    challenge@,
                    signature@,
                    secret_key@,
                    expected_destination.public_key@,
                    expected_destination@.stripped(),
                    x,
                    p,
                ) ==> r is Ok,
    {
        proof {
            assert forall|b: Seq<u8>| #[trigger]
                bytes_of_hex(hex_of(b)) == b && valid_hex(hex_of(b)) && hex_of(b).len() == 2
                    * b.len() by {
                lemma_hex_round_trip(b);
            }
            assert forall|env: EncryptedMessage| env.destination@.wf() implies #[trigger]
                parse_envelope_spec(env.wire_json()) == Some(
                crate::protocol::EnvelopeParts {
                    key: env.destination.public_key@,
                    domain: env.destination.domain@,
                    port: env.destination.port,
                    enc: hex_of(env.encrypted_message@),
                    salt: hex_of(env.salt@),
                    nonce: hex_of(env.nonce@),
                },
            ) by {
                lemma_envelope_wire_round_trip(env);
            }
        }
        let env = match EncryptedMessage::decode(envelope_json) {
            Some(e) => e,
            None => {
                proof {
                    assert forall|x: Seq<u8>, p: Seq<u8>, e2: EncryptedMessage|
                        !genuine_slate_response(
                            from@,
                            envelope_json@,
                            e2,
                            challenge@,
                            signature@,
                            secret_key@,
                            expected_destination.public_key@,
                            expected_destination@.stripped(),
                            x,
                            p,
                        ) by {
                        if genuine_slate_response(
                            from@,
                            envelope_json@,
                            e2,
                            challenge@,
                            signature@,
                            secret_key@,
                            expected_destination.public_key@,
                            expected_destination@.stripped(),
                            x,
                            p,
                        ) {
                            lemma_envelope_wire_round_trip(e2);
                            lemma_hex_round_trip(e2.encrypted_message@);
                            lemma_hex_round_trip(e2.salt@);
                            lemma_hex_round_trip(e2.nonce@);
                        }
                    }
                }
                return Err(ProofError::ParseEncryptedMessage);
            },
        };
        let parsed = match Address::parse(from) {
            Ok(a) => a,
            Err(_) => {
                return Err(ProofError::ParseAddress);
            },
        };
        let g = match parsed {
            Address::Grinbox(g) => g,
            _ => {
                return Err(ProofError::ParseAddress);
            },
        };
        let pk = match PublicKey::from_hex(g.public_key.as_str()) {
            Ok(pk) => pk,
            Err(_) => {
                return Err(ProofError::ParsePublicKey);
            },
        };
        let from_stripped = g.stripped();
        let to_stripped = expected_destination.stripped();
        let mut signed = String::new();
        signed.append(envelope_json);
        signed.append(from_stripped.as_str());
        signed.append(to_stripped.as_str());
        signed.append(challenge);
        proof {
            assert(signed@ =~= crate::protocol::slate_signed_content(
                envelope_json@,
                g@.stripped(),
                expected_destination@.stripped(),
                challenge@,
            ));
        }
        if !verify_challenge(signed.as_str(), signature, &pk) {
            return Err(ProofError::VerifySignature);
        }
        if !env.destination.public_key.eq(&expected_destination.public_key) {
            return Err(ProofError::VerifyDestination);
        }
        let plaintext = match decrypt(&env, secret_key, &pk) {
            Ok(p) => p,
            Err(e) => {
                proof {
                    assert forall|x: Seq<u8>, p: Seq<u8>, e2: EncryptedMessage|
                        !genuine_slate_response(
                            from@,
                            envelope_json@,
                            e2,
                            challenge@,
                            signature@,
                            secret_key@,
                            expected_destination.public_key@,
                            expected_destination@.stripped(),
                            x,
                            p,
                        ) by {
                        if genuine_slate_response(
                            from@,
                            envelope_json@,
                            e2,
                            challenge@,
                            signature@,
                            secret_key@,
                            expected_destination.public_key@,
                            expected_destination@.stripped(),
                            x,
                            p,
                        ) {
                            lemma_envelope_wire_round_trip(e2);
                            lemma_hex_round_trip(e2.encrypted_message@);
                            lemma_hex_round_trip(e2.salt@);
                            lemma_hex_round_trip(e2.nonce@);
                            lemma_hex_round_trip(pub_of(x));
                            assert(env.encrypted_message@ == e2.encrypted_message@);
                            assert(env.salt@ == e2.salt@);
                            assert(env.nonce@ == e2.nonce@);
                            assert(pk@ == pub_of(x));
                            assert(env.seals(pub_of(secret_key@), pk@, p));
                        }
                    }
                }
                return Err(ProofError::DecryptMessage(e));
            },
        };
        let message = crate::crypto::copy_bytes(&plaintext);
        Ok(
            (
                plaintext,
                TxProof {
                    address: g,
                    message,
                    challenge: challenge.to_owned(),
                    signature: signature.to_owned(),
                },
            ),
        )
    }
}

} // verus!
