use wallet713_broker::address::GrinboxAddress;
use wallet713_broker::crypto::PublicKey;
use wallet713_broker::crypto::SecretKey;
use wallet713_broker::envelope::decrypt;
use wallet713_broker::envelope::encrypt;
use wallet713_broker::envelope::EncryptedMessage;
use wallet713_broker::error::DecodeError;
use wallet713_broker::error::Error;

fn sk(byte: u8) -> SecretKey {
    SecretKey::from_bytes(vec![byte; 32]).unwrap()
}

fn addr_for(pk: &PublicKey) -> GrinboxAddress {
    GrinboxAddress {
        public_key: pk.to_hex(),
        domain: "grinbox.io".to_string(),
        port: None,
    }
}

#[test]
fn encrypt_decrypt_round_trip() {
    let sender = sk(1);
    let receiver = sk(2);
    let receiver_pub = receiver.public_key();
    let sender_pub = sender.public_key();
    let dest = addr_for(&receiver_pub);
    let plaintext = b"the payload under negotiation".to_vec();
    let env = encrypt(&plaintext, &dest, &receiver_pub, &sender);
    let out = decrypt(&env, &receiver, &sender_pub).unwrap();
    assert_eq!(out, plaintext);
}

#[test]
fn decrypt_with_wrong_key_fails_closed() {
    let sender = sk(1);
    let receiver = sk(2);
    let stranger = sk(3);
    let receiver_pub = receiver.public_key();
    let sender_pub = sender.public_key();
    let dest = addr_for(&receiver_pub);
    let plaintext = b"for the receiver only".to_vec();
    let env = encrypt(&plaintext, &dest, &receiver_pub, &sender);
    assert_eq!(
        decrypt(&env, &stranger, &sender_pub),
        Err(DecodeError::AuthenticationFailed)
    );
    // wrong claimed sender fails too
    assert_eq!(
        decrypt(&env, &receiver, &stranger.public_key()),
        Err(DecodeError::AuthenticationFailed)
    );
}

#[test]
fn any_single_bit_flip_fails_authentication() {
    let sender = sk(1);
    let receiver = sk(2);
    let receiver_pub = receiver.public_key();
    let sender_pub = sender.public_key();
    let dest = addr_for(&receiver_pub);
    let plaintext = b"short".to_vec();
    let env = encrypt(&plaintext, &dest, &receiver_pub, &sender);
    for i in 0..env.encrypted_message.len() {
        for bit in 0..8 {
            let mut tampered = EncryptedMessage {
                destination: env.destination.duplicate(),
                encrypted_message: env.encrypted_message.clone(),
                salt: env.salt.clone(),
                nonce: env.nonce.clone(),
            };
            tampered.encrypted_message[i] ^= 1u8 << bit;
            assert_eq!(
                decrypt(&tampered, &receiver, &sender_pub),
                Err(DecodeError::AuthenticationFailed),
                "flipping bit {} of byte {} must fail closed",
                bit,
                i
            );
        }
    }
}

#[test]
fn malformed_envelope_is_rejected() {
    let sender = sk(1);
    let receiver = sk(2);
    let receiver_pub = receiver.public_key();
    let sender_pub = sender.public_key();
    let dest = addr_for(&receiver_pub);
    let env = encrypt(&b"x".to_vec(), &dest, &receiver_pub, &sender);
    let bad = EncryptedMessage {
        destination: env.destination.duplicate(),
        encrypted_message: env.encrypted_message.clone(),
        salt: vec![0u8; 7],
        nonce: env.nonce.clone(),
    };
    assert_eq!(
        decrypt(&bad, &receiver, &sender_pub),
        Err(DecodeError::Malformed)
    );
}

#[test]
fn from_parts_accepts_exactly_valid_hex() {
    let dest = GrinboxAddress {
        public_key: "ab".repeat(33),
        domain: "grinbox.io".to_string(),
        port: None,
    };
    let e = EncryptedMessage::from_parts(dest.duplicate(), "00ff", "0011223344556677", "0011").unwrap();
    assert_eq!(e.encrypted_message, vec![0x00, 0xff]);
    assert_eq!(e.salt, vec![0x00, 0x11, 0x22, 0x33, 0x44, 0x55, 0x66, 0x77]);
    assert!(matches!(
        EncryptedMessage::from_parts(dest.duplicate(), "0f0", "00", "00"),
        Err(DecodeError::Malformed)
    ));
    assert!(matches!(
        EncryptedMessage::from_parts(dest, "zz", "00", "00"),
        Err(DecodeError::Malformed)
    ));
}

#[test]
fn key_material_is_validated() {
    assert!(matches!(
        SecretKey::from_bytes(vec![0u8; 32]),
        Err(Error::InvalidSecretKey)
    ));
    assert!(matches!(
        SecretKey::from_bytes(vec![1u8; 31]),
        Err(Error::InvalidSecretKey)
    ));
    assert!(SecretKey::from_bytes(vec![1u8; 32]).is_ok());
    assert!(matches!(
        PublicKey::from_bytes(vec![9u8; 33]),
        Err(Error::InvalidPublicKey)
    ));
    let good = sk(4).public_key();
    let bytes_hex = good.to_hex();
    let back = PublicKey::from_hex(&bytes_hex).unwrap();
    assert_eq!(back.to_hex(), bytes_hex);
}

#[test]
fn envelope_text_decodes_back() {
    let sender = sk(1);
    let receiver = sk(2);
    let receiver_pub = receiver.public_key();
    let mut dest = addr_for(&receiver_pub);
    dest.port = Some(443);
    let env = encrypt(&b"payload".to_vec(), &dest, &receiver_pub, &sender);
    let text = env.encode();
    let back = EncryptedMessage::decode(&text).unwrap();
    assert_eq!(back.destination, env.destination);
    assert_eq!(back.encrypted_message, env.encrypted_message);
    assert_eq!(back.salt, env.salt);
    assert_eq!(back.nonce, env.nonce);
    // the parser is strict: only the canonical text is accepted
    assert!(EncryptedMessage::decode(&format!(" {}", text)).is_none());
    assert!(EncryptedMessage::decode(&text[..text.len() - 1]).is_none());
    assert!(EncryptedMessage::decode("{}").is_none());
}
