use wallet713_broker::address::GrinboxAddress;
use wallet713_broker::crypto::sign_challenge;
use wallet713_broker::crypto::SecretKey;
use wallet713_broker::envelope::encrypt;
use wallet713_broker::error::DecodeError;
use wallet713_broker::error::ProofError;
use wallet713_broker::txproof::TxProof;

fn sk(byte: u8) -> SecretKey {
    SecretKey::from_bytes(vec![byte; 32]).unwrap()
}

fn addr_of(secret: &SecretKey) -> GrinboxAddress {
    GrinboxAddress {
        public_key: secret.public_key().to_hex(),
        domain: "grinbox.io".to_string(),
        port: None,
    }
}

struct Fixture {
    from: String,
    env_json: String,
    challenge: String,
    signature: String,
    receiver: SecretKey,
    receiver_address: GrinboxAddress,
}

fn genuine() -> Fixture {
    let sender = sk(1);
    let receiver = sk(2);
    let receiver_address = addr_of(&receiver);
    let payload = b"{\"slate\":7}".to_vec();
    let env = encrypt(&payload, &receiver_address, &receiver.public_key(), &sender);
    let env_json = env.encode();
    let challenge = "abc".to_string();
    // the signature covers the envelope, both stripped addresses, and
    // the challenge; a bare key is its own stripped form
    let from = sender.public_key().to_hex();
    let signed = format!(
        "{}{}{}{}",
        env_json,
        from,
        receiver_address.stripped(),
        challenge
    );
    let signature = sign_challenge(&signed, &sender);
    Fixture {
        from,
        env_json,
        challenge,
        signature,
        receiver,
        receiver_address,
    }
}

#[test]
fn proof_accepts_genuine_response() {
    let f = genuine();
    let (payload, proof) = TxProof::from_response(
        &f.from,
        &f.env_json,
        &f.challenge,
        &f.signature,
        &f.receiver,
        &f.receiver_address,
    )
    .unwrap();
    assert_eq!(payload, b"{\"slate\":7}".to_vec());
    assert_eq!(proof.message, payload);
    assert_eq!(proof.address.public_key, f.from);
    assert_eq!(proof.challenge, "abc");
    assert_eq!(proof.signature, f.signature);
}

#[test]
fn proof_rejects_unparseable_sender() {
    let f = genuine();
    let r = TxProof::from_response(
        "keybase://alice",
        &f.env_json,
        &f.challenge,
        &f.signature,
        &f.receiver,
        &f.receiver_address,
    );
    assert!(matches!(r, Err(ProofError::ParseAddress)));
}

#[test]
fn proof_rejects_wrong_signature() {
    let f = genuine();
    // a signature over a different challenge does not verify
    let r = TxProof::from_response(
        &f.from,
        &f.env_json,
        "xyz",
        &f.signature,
        &f.receiver,
        &f.receiver_address,
    );
    assert!(matches!(r, Err(ProofError::VerifySignature)));
}

#[test]
fn proof_rejects_foreign_destination() {
    // the envelope names someone else as its destination, though the
    // sender signed for this wallet and sealed for its key
    let sender = sk(1);
    let receiver = sk(2);
    let receiver_address = addr_of(&receiver);
    let someone_else = addr_of(&sk(9));
    let payload = b"{\"slate\":7}".to_vec();
    let env = encrypt(&payload, &someone_else, &receiver.public_key(), &sender);
    let env_json = env.encode();
    let from = sender.public_key().to_hex();
    let signed = format!(
        "{}{}{}{}",
        env_json,
        from,
        receiver_address.stripped(),
        "abc"
    );
    let signature = sign_challenge(&signed, &sender);
    let r = TxProof::from_response(
        &from,
        &env_json,
        "abc",
        &signature,
        &receiver,
        &receiver_address,
    );
    assert!(matches!(r, Err(ProofError::VerifyDestination)));
}

#[test]
fn proof_rejects_forged_sender() {
    let f = genuine();
    // an impostor claims the slate came from them: their signature over
    // the same material verifies against their own key, but the seal
    // was not made with their key pair, so decryption fails closed
    let impostor = sk(5);
    let impostor_from = impostor.public_key().to_hex();
    let signed = format!(
        "{}{}{}{}",
        f.env_json,
        impostor_from,
        f.receiver_address.stripped(),
        f.challenge
    );
    let forged_signature = sign_challenge(&signed, &impostor);
    let r = TxProof::from_response(
        &impostor_from,
        &f.env_json,
        &f.challenge,
        &forged_signature,
        &f.receiver,
        &f.receiver_address,
    );
    assert!(matches!(
        r,
        Err(ProofError::DecryptMessage(DecodeError::AuthenticationFailed))
    ));
}
