//! Message-broker layer of a cryptocurrency wallet: typed endpoint
//! addresses, an authenticated-encryption envelope codec, the wire
//! protocol spoken with a persistent relay, transport proofs for
//! received payloads, and the state machines of the two transport
//! brokers (a persistent-connection relay broker and a polling broker
//! over an external chat relay).
//!
//! The hosting layer owns the sockets, processes and threads; this
//! crate owns every decision: what to send, when to retry, which
//! lifecycle event to fire, and whether an inbound message is genuine.

pub mod address;
pub mod crypto;
pub mod envelope;
pub mod error;
pub mod grinbox;
pub mod hexutil;
pub mod keybase;
pub mod protocol;
pub mod swap;
pub mod txproof;
