//! Error taxonomy of the broker layer.
//!
//! Per-message decode failures are isolated (the session continues),
//! connection-level failures drive the reconnect machinery, and only
//! setup failures propagate to the caller synchronously.

use vstd::prelude::*;

verus! {

/// Failure to parse an address from its text form.
#[derive(Clone, Copy, PartialEq, Eq, Debug)]
pub enum ParseError {
    /// The text is empty or no known scheme's grammar matches.
    UnknownScheme,
    /// The public-key part of a relay address is malformed.
    InvalidKey,
    /// The domain part of a relay address is malformed.
    InvalidDomain,
    /// The port part of a relay address is malformed or out of range.
    InvalidPort,
    /// The username part of a chat address is malformed.
    InvalidUsername,
    /// The topic part of a chat address is malformed.
    InvalidTopic,
    /// The URL part of a direct address is malformed.
    InvalidUrl,
}

/// Failure to recover a plaintext from an encrypted envelope.
#[derive(Clone, Copy, PartialEq, Eq, Debug)]
pub enum DecodeError {
    /// The integrity tag did not check out under the derived key.
    AuthenticationFailed,
    /// The envelope itself is not well formed (wrong field sizes).
    Malformed,
}

/// Failure to build a transport proof from an inbound relay response.
#[derive(Clone, Copy, PartialEq, Eq, Debug)]
pub enum ProofError {
    /// The claimed sender is not a valid relay address.
    ParseAddress,
    /// The claimed sender's public key could not be decoded.
    ParsePublicKey,
    /// The accompanying signature is not well formed.
    ParseSignature,
    /// The serialized envelope is not a well-formed envelope text.
    ParseEncryptedMessage,
    /// The signature does not verify against the sender and payload.
    VerifySignature,
    /// The envelope was addressed to someone else.
    VerifyDestination,
    /// The envelope failed to decrypt.
    DecryptMessage(DecodeError),
}

/// The broker layer's top-level error.
#[derive(Clone, PartialEq, Eq, Debug)]
pub enum Error {
    /// A publish was attempted while the transport has no active
    /// connection; carries the transport's name.
    ClosedListener(String),
    /// The transport-level send itself failed.
    GenericError(String),
    /// The external relay process is missing or unreachable.
    KeybaseNotFound,
    /// The external relay's send call did not acknowledge the message.
    KeybaseMessageSendError,
    /// The duplex socket closed unexpectedly while still marked active.
    WebsocketAbnormalTermination,
    /// An address could not be parsed.
    Parse(ParseError),
    /// An envelope could not be decoded.
    Decode(DecodeError),
    /// A transport proof could not be built.
    Proof(ProofError),
    /// Thirty-two bytes that are not a valid curve secret key.
    InvalidSecretKey,
    /// Bytes that are not a valid compressed curve public key.
    InvalidPublicKey,
}

/// Why a subscriber's run ended; reported through the terminal
/// lifecycle callback.
#[derive(Clone, PartialEq, Eq, Debug)]
pub enum CloseReason {
    /// The run ended because of a local stop request.
    Normal,
    /// The run ended because the transport was lost.
    Abnormal(Error),
}

} // verus!
