//! The persistent-connection relay broker.
//!
//! A subscriber owns one long-lived duplex socket. The socket work
//! itself (connecting, reading frames, sleeping between attempts) is
//! done by the hosting layer; everything the broker *decides* — when to
//! retry, how long to back off, which lifecycle event to fire, what to
//! send back — is here, as functions from state and event to next state
//! and action.
//!
//! States: disconnected, connecting, authenticating (challenge
//! received, subscription sent), subscribed. The shared connection slot
//! is set on socket open and cleared on socket close and on stop, so it
//! reflects the true connection state at all times; a separate stop bit
//! tells the reconnect loop to exit permanently rather than retry.

use vstd::prelude::*;
use vstd::arithmetic::power2::pow2;
use vstd::arithmetic::power2::lemma2_to64;
use vstd::arithmetic::power2::lemma_pow2_strictly_increases;

use crate::error::CloseReason;
use crate::error::Error;

verus! {

/// Interval between transport-level keepalive pings, in milliseconds.
pub const KEEPALIVE_INTERVAL_MS: u64 = 30_000;

/// The timer token under which the keepalive is scheduled.
pub const KEEPALIVE_TOKEN: u64 = 1;

/// Book-keeping of the reconnect loop: how many consecutive attempts
/// have failed since the last successful open, and whether any
/// connection was ever established during this run.
pub struct ConnectionMetadata {
    pub retries: u32,
    pub connected_at_least_once: bool,
}

impl ConnectionMetadata {
    /// A fresh run: no retries yet, never connected.
    pub fn new() -> (m: Self)
        ensures
            m.retries == 0,
            !m.connected_at_least_once,
    {
        Self {
            retries: 0,
            connected_at_least_once: false,
        }
    }
}

/// The metadata after one more failed attempt: the retry counter grows
/// by one (and merely stays put at its ceiling).
pub open spec fn retry_step(m: ConnectionMetadata) -> ConnectionMetadata {
    ConnectionMetadata {
        retries: if m.retries < u32::MAX {
            (m.retries + 1) as u32
        } else {
            m.retries
        },
        connected_at_least_once: m.connected_at_least_once,
    }
}

/// Whether a failed attempt in state `m` reports the connection as
/// dropped: only the first failure after an established session's loss
/// does (the counter was just reset by the successful open).
pub open spec fn fires_dropped(m: ConnectionMetadata) -> bool {
    m.retries == 0 && m.connected_at_least_once
}

/// How many dropped-connection reports `n` consecutive failed attempts
/// starting from metadata `m` produce.
pub open spec fn dropped_fire_count(m: ConnectionMetadata, n: nat) -> nat
    decreases n,
{
    if n == 0 {
        0
    } else {
        (if fires_dropped(m) {
            1nat
        } else {
            0nat
        }) + dropped_fire_count(retry_step(m), (n - 1) as nat)
    }
}

/// Seconds to wait before the attempt that follows `retries`
/// consecutive failures: doubling from one second, capped at 32.
pub open spec fn backoff_secs(retries: nat) -> nat {
    if retries == 0 {
        1
    } else if retries == 1 {
        2
    } else if retries == 2 {
        4
    } else if retries == 3 {
        8
    } else if retries == 4 {
        16
    } else {
        32
    }
}

/// The backoff delay is exactly `min(32, 2^retries)` seconds, so the
/// delays of repeated immediate failures run 1, 2, 4, 8, 16, 32, 32, …
pub proof fn lemma_backoff_sequence(retries: nat)
    ensures
        backoff_secs(retries) == if pow2(retries) < 32 {
            pow2(retries) as int
        } else {
            32
        },
        retries >= 5 ==> backoff_secs(retries) == 32,
{
    lemma2_to64();
    if retries > 5 {
        lemma_pow2_strictly_increases(5, retries);
    }
}

/// No attempt with a positive retry counter reports a drop.
proof fn lemma_no_fire_while_retrying(m: ConnectionMetadata, n: nat)
    requires
        m.retries > 0,
    ensures
        dropped_fire_count(m, n) == 0,
    decreases n,
{
    if n > 0 {
        lemma_no_fire_while_retrying(retry_step(m), (n - 1) as nat);
    }
}

/// A lost connection is reported as dropped exactly once, however many
/// retry attempts follow: one report per loss when a connection had
/// been established before (the counter was just reset going into the
/// loss), and none at all when the very first attempt of the run fails.
pub proof fn lemma_dropped_once_per_loss(m: ConnectionMetadata, n: nat)
    requires
        m.retries == 0,
    ensures
        dropped_fire_count(m, n) == if m.connected_at_least_once && n > 0 {
            1int
        } else {
            0
        },
{
    if n > 0 {
        lemma_no_fire_while_retrying(retry_step(m), (n - 1) as nat);
    }
}

/// Lifecycle event chosen when a socket opens.
#[derive(Clone, Copy, PartialEq, Eq, Debug)]
pub enum OpenEvent {
    /// The first successful connection of this run.
    Opened,
    /// A successful reconnection after an earlier session.
    Reestablished,
}

/// What the reconnect loop does after a connection attempt has ended.
#[derive(Clone, Copy, PartialEq, Eq, Debug)]
pub enum RetryDecision {
    /// Exit the loop permanently and report the reason.
    CloseNormal,
    /// Exit the loop permanently: the transport failed while still
    /// marked active.
    CloseAbnormal,
    /// Try again: report the loss first if `fire_dropped`, and wait
    /// `delay_secs` seconds before the next attempt.
    Retry { fire_dropped: bool, delay_secs: u64 },
}

/// The shared state of one persistent-connection broker: the current
/// send-handle slot (`None` means "not running"; set on socket open,
/// cleared on socket close and on stop, the single source of truth for
/// `is_running`), whether a local stop has been requested, the most
/// recent server challenge, and the transport security choice.
pub struct GrinboxBroker {
    slot: Option<u64>,
    stopped: bool,
    protocol_unsecure: bool,
    challenge: Option<String>,
}

impl GrinboxBroker {
    /// The current connection token; `None` is authoritative for "not
    /// running".
    pub closed spec fn connection(&self) -> Option<u64> {
        self.slot
    }

    /// Whether the broker was configured for the insecure (plain)
    /// socket scheme rather than the TLS one.
    pub closed spec fn unsecure(&self) -> bool {
        self.protocol_unsecure
    }

    /// The configured transport security choice.
    pub fn protocol_unsecure(&self) -> (r: bool)
        ensures
            r == self.unsecure(),
    {
        self.protocol_unsecure
    }

    /// Whether the broker currently holds an active connection handle.
    pub open spec fn running(&self) -> bool {
        self.connection() is Some
    }

    /// Whether a local stop has been requested for this run.
    pub closed spec fn stop_requested(&self) -> bool {
        self.stopped
    }

    /// The most recent server-issued challenge of the current session,
    /// if one has arrived.
    pub closed spec fn latest_challenge(&self) -> Option<String> {
        self.challenge
    }

    /// The challenge text outbound signatures cover: the most recent
    /// server-issued one, or nothing before the first has arrived.
    pub open spec fn challenge_text(&self) -> Seq<char> {
        match self.latest_challenge() {
            Some(c) => c@,
            None => Seq::<char>::empty(),
        }
    }

    /// Records a server-issued challenge for outbound signatures.
    pub fn observe_challenge(&mut self, c: &str)
        ensures
            final(self).challenge_text() == c@,
            final(self).connection() == old(self).connection(),
            final(self).unsecure() == old(self).unsecure(),
    {
        self.challenge = Some(c.to_owned());
    }

    /// A broker that is not running.
    pub fn new(protocol_unsecure: bool) -> (b: Self)
        ensures
            !b.running(),
            !b.stop_requested(),
            b.unsecure() == protocol_unsecure,
            b.latest_challenge() is None,
    {
        Self { slot: None, stopped: false, protocol_unsecure, challenge: None }
    }

    /// Enters a run: no connection yet and no stop requested, so the
    /// reconnect loop may proceed.
    pub fn begin(&mut self)
        ensures
            !final(self).running(),
            !final(self).stop_requested(),
            final(self).unsecure() == old(self).unsecure(),
            final(self).latest_challenge() is None,
    {
        self.slot = None;
        self.stopped = false;
        self.challenge = None;
    }

    /// Reflects the true connection state at all times: true exactly
    /// when the slot holds a live handle — never during the retry
    /// window after a confirmed disconnect, and never after a stop.
    pub fn is_running(&self) -> (r: bool)
        ensures
            r == self.running(),
    {
        self.slot.is_some()
    }

    /// Requests shutdown: clears the slot and marks the run stopped, so
    /// the reconnect loop exits on its next iteration and any
    /// concurrent publish fails fast. Returns the handle that was
    /// active, if any, so the hosting layer can deliver a close frame
    /// on it.
    pub fn stop(&mut self) -> (prev: Option<u64>)
        ensures
            !final(self).running(),
            final(self).stop_requested(),
            final(self).unsecure() == old(self).unsecure(),
            final(self).latest_challenge() == old(self).latest_challenge(),
            prev == old(self).connection(),
    {
        let prev = self.slot;
        self.slot = None;
        self.stopped = true;
        prev
    }

    /// A socket has opened under handle `token`: store the new
    /// send-handle, reset the retry counter, and choose the lifecycle
    /// event — the first open of a run reports `Opened`, every later
    /// one `Reestablished`.
    pub fn connection_opened(&mut self, token: u64, meta: &mut ConnectionMetadata) -> (ev:
        OpenEvent)
        ensures
            final(self).connection() == Some(token),
            final(self).stop_requested() == old(self).stop_requested(),
            final(self).unsecure() == old(self).unsecure(),
            final(self).latest_challenge() is None,
            final(meta).retries == 0,
            final(meta).connected_at_least_once,
            ev == (if old(meta).connected_at_least_once {
                OpenEvent::Reestablished
            } else {
                OpenEvent::Opened
            }),
    {
        self.slot = Some(token);
        self.challenge = None;
        let ev = if meta.connected_at_least_once {
            OpenEvent::Reestablished
        } else {
            OpenEvent::Opened
        };
        meta.connected_at_least_once = true;
        meta.retries = 0;
        ev
    }

    /// A connection attempt has ended (`connect_ok` tells whether the
    /// transport reported an orderly end). The socket is gone, so the
    /// slot is cleared either way: no stale "running" survives a
    /// confirmed disconnect, and a concurrent publish now fails fast.
    /// Then decide: a local stop ends the run; the loss of an
    /// established session is retried, reported exactly once, with the
    /// backoff delay doubling up to its cap; a run whose connection
    /// never opened ends.
    pub fn after_connect_ended(&mut self, connect_ok: bool, meta: &mut ConnectionMetadata) -> (d:
        RetryDecision)
        ensures
            !final(self).running(),
            final(self).stop_requested() == old(self).stop_requested(),
            final(self).unsecure() == old(self).unsecure(),
            final(self).latest_challenge() == old(self).latest_challenge(),
            old(self).stop_requested() || !old(meta).connected_at_least_once ==> {
                &&& *final(meta) == *old(meta)
                &&& d == (if connect_ok {
                    RetryDecision::CloseNormal
                } else {
                    RetryDecision::CloseAbnormal
                })
            },
            !old(self).stop_requested() && old(meta).connected_at_least_once ==> {
                &&& *final(meta) == retry_step(*old(meta))
                &&& d == (RetryDecision::Retry {
                    fire_dropped: fires_dropped(*old(meta)),
                    delay_secs: backoff_secs(old(meta).retries as nat) as u64,
                })
            },
    {
        self.slot = None;
        if self.stopped || !meta.connected_at_least_once {
            if connect_ok {
                RetryDecision::CloseNormal
            } else {
                RetryDecision::CloseAbnormal
            }
        } else {
            let fire_dropped = meta.retries == 0 && meta.connected_at_least_once;
            let delay_secs: u64 = if meta.retries == 0 {
                1
            } else if meta.retries == 1 {
                2
            } else if meta.retries == 2 {
                4
            } else if meta.retries == 3 {
                8
            } else if meta.retries == 4 {
                16
            } else {
                32
            };
            if meta.retries < u32::MAX {
                meta.retries = meta.retries + 1;
            }
            RetryDecision::Retry { fire_dropped, delay_secs }
        }
    }

    /// The reason reported through the terminal close callback for a
    /// given loop exit.
    pub fn close_reason(connect_ok: bool) -> (r: CloseReason)
        ensures
            connect_ok ==> r == CloseReason::Normal,
            !connect_ok ==> r == CloseReason::Abnormal(Error::WebsocketAbnormalTermination),
    {
        if connect_ok {
            CloseReason::Normal
        } else {
            CloseReason::Abnormal(Error::WebsocketAbnormalTermination)
        }
    }
}

/// What the keepalive timer does when it fires: under the keepalive
/// token, send a transport-level ping and re-arm the timer for the same
/// interval; any other token is an internal error.
pub fn keepalive_action(token: u64) -> (r: Option<u64>)
    ensures
        token == KEEPALIVE_TOKEN ==> r == Some(KEEPALIVE_INTERVAL_MS),
        token != KEEPALIVE_TOKEN ==> r is None,
{
    if token == KEEPALIVE_TOKEN {
        Some(KEEPALIVE_INTERVAL_MS)
    } else {
        None
    }
}

/// Whether an inbound transport error is the benign peer-reset
/// condition that is swallowed (logged at most) instead of surfacing:
/// an I/O error whose OS-level code is "connection reset by peer".
pub fn swallow_transport_error(is_io: bool, raw_os_error: Option<i32>) -> (r: bool)
    ensures
        r == (is_io && raw_os_error == Some(104i32)),
{
    match raw_os_error {
        Some(code) => is_io && code == 104,
        None => false,
    }
}

} // verus!

verus! {

/// The canonical subscribe reply to a login challenge: the wire JSON of
/// a `Subscribe` request carrying the wallet's own key and the hex
/// signature, under `sk`, of the digest of the challenge's bytes.
pub open spec fn subscribe_reply(own_key: Seq<char>, sk: Seq<u8>, challenge: Seq<char>) -> Seq<
    char,
> {
    "{\"type\":\"Subscribe\",\"address\":"@ + crate::protocol::json_str(own_key)
        + ",\"signature\":"@ + crate::protocol::json_str(
        crate::hexutil::hex_of(
            crate::crypto::sig_of(
                crate::crypto::sha256_of(vstd::utf8::encode_utf8(challenge)),
                sk,
            ),
        ),
    ) + "}"@
}

/// The canonical `PostSlate` request text for one outbound envelope:
/// stripped sender and recipient, the serialized envelope, and the hex
/// signature, under `sk`, of the digest of the signed content — the
/// serialized envelope plus both stripped addresses plus the most
/// recent server challenge.
pub open spec fn post_slate_request(
    from_stripped: Seq<char>,
    to_stripped: Seq<char>,
    envelope_json: Seq<char>,
    challenge: Seq<char>,
    sk: Seq<u8>,
) -> Seq<char> {
    "{\"type\":\"PostSlate\",\"from\":"@ + crate::protocol::json_str(from_stripped) + ",\"to\":"@
        + crate::protocol::json_str(to_stripped) + ",\"str\":"@ + crate::protocol::json_str(
        envelope_json,
    ) + ",\"signature\":"@ + crate::protocol::json_str(
        crate::hexutil::hex_of(
            crate::crypto::sig_of(
                crate::crypto::sha256_of(
                    vstd::utf8::encode_utf8(
                        crate::protocol::slate_signed_content(
                            envelope_json,
                            from_stripped,
                            to_stripped,
                            challenge,
                        ),
                    ),
                ),
                sk,
            ),
        ),
    ) + "}"@
}

/// What the client does with one inbound relay message.
pub enum InboundAction {
    /// Send this request text back over the socket.
    Respond(String),
    /// Hand the decrypted payload and its transport proof to the
    /// subscription handler.
    Deliver { payload: Vec<u8>, proof: crate::txproof::TxProof },
    /// Nothing to do beyond logging: an acknowledgement, a relay error
    /// report, or an inbound message that failed to decode — a single
    /// bad message never tears the session down.
    Ignore,
}

/// One connection's protocol state: the wallet's own address and key,
/// and the most recent server-issued challenge.
pub struct GrinboxSession {
    pub address: crate::address::GrinboxAddress,
    pub secret_key: crate::crypto::SecretKey,
    pub challenge: Option<String>,
}

impl GrinboxSession {
    /// A fresh session for a newly opened socket: no challenge seen.
    pub fn new(
        address: &crate::address::GrinboxAddress,
        secret_key: &crate::crypto::SecretKey,
    ) -> (s: Self)
        ensures
            s.address == *address,
            s.secret_key@ == secret_key@,
            s.challenge is None,
    {
        GrinboxSession {
            address: address.duplicate(),
            secret_key: secret_key.duplicate(),
            challenge: None,
        }
    }

    /// Dispatches one inbound relay message. A challenge is stored and
    /// answered with exactly one signed subscribe request — the hosting
    /// layer also records it on the shared broker (`observe_challenge`)
    /// so that concurrent publishes sign over it; an inbound
    /// slate is verified, decrypted and delivered — its envelope read
    /// out of the very text the signature covers — or ignored whole
    /// when any check fails; acknowledgements and relay error reports
    /// are ignored. No message aborts the session.
    pub fn handle_response(&mut self, resp: &crate::protocol::ProtocolResponse) -> (action:
        InboundAction)
        ensures
            old(self).address == final(self).address,
            old(self).secret_key@ == final(self).secret_key@,
            match resp {
                crate::protocol::ProtocolResponse::Challenge { challenge } => {
                    &&& final(self).challenge matches Some(c) && c@ == challenge@
                    &&& action matches InboundAction::Respond(t) && t@ == subscribe_reply(
                        old(self).address.public_key@,
                        old(self).secret_key@,
                        challenge@,
                    )
                },
                crate::protocol::ProtocolResponse::Slate { from, payload, challenge, signature } => {
                    &&& final(self).challenge == old(self).challenge
                    &&& (action matches InboundAction::Deliver { payload: pt, proof } ==> {
                        &&& proof.message@ == pt@
                        &&& crate::address::parse_spec(from@) matches Ok(av) && av
                            matches crate::address::AddressView::Grinbox(g) && proof.address@ == g
                        &&& crate::protocol::parse_envelope_spec(payload@) matches Some(parts) && {
                            &&& crate::hexutil::bytes_of_hex(parts.enc) == crate::crypto::seal_of(
                                crate::crypto::envelope_key(
                                    crate::crypto::shared_of(
                                        crate::crypto::pub_of(old(self).secret_key@),
                                        crate::hexutil::bytes_of_hex(proof.address.public_key@),
                                    ),
                                    crate::hexutil::bytes_of_hex(parts.salt),
                                ),
                                crate::hexutil::bytes_of_hex(parts.nonce),
                                pt@,
                            )
                            &&& parts.key == old(self).address.public_key@
                        }
                    })
                    &&& (action matches InboundAction::Deliver { proof, .. }
                        ==> crate::hexutil::valid_hex(signature@) && crate::crypto::verify_of(
                        crate::crypto::sha256_of(
                            vstd::utf8::encode_utf8(
                                crate::protocol::slate_signed_content(
                                    payload@,
                                    proof.address@.stripped(),
                                    old(self).address@.stripped(),
                                    challenge@,
                                ),
                            ),
                        ),
                        crate::hexutil::bytes_of_hex(signature@),
                        crate::hexutil::bytes_of_hex(proof.address.public_key@),
                    ))
                    &&& (action is Respond == false)
                },
                _ => final(self).challenge == old(self).challenge && action is Ignore,
            },
            forall|x: Seq<u8>, p: Seq<u8>, env: crate::envelope::EncryptedMessage|
                (resp is Slate && #[trigger] crate::txproof::genuine_slate_response(
                    resp->Slate_from@,
                    resp->Slate_payload@,
                    env,
                    resp->Slate_challenge@,
                    resp->Slate_signature@,
                    old(self).secret_key@,
                    old(self).address.public_key@,
                    old(self).address@.stripped(),
                    x,
                    p,
                )) ==> action is Deliver,
    {
        match resp {
            crate::protocol::ProtocolResponse::Challenge { challenge } => {
                let c: &String = challenge;
                self.challenge = Some(c.clone());
                let signature = crate::crypto::sign_challenge(c.as_str(), &self.secret_key);
                let request = crate::protocol::ProtocolRequest::Subscribe {
                    address: self.address.public_key.clone(),
                    signature,
                };
                InboundAction::Respond(request.encode())
            },
            crate::protocol::ProtocolResponse::Slate { from, payload, challenge, signature } => {
                match crate::txproof::TxProof::from_response(
                    from.as_str(),
                    payload.as_str(),
                    challenge.as_str(),
                    signature.as_str(),
                    &self.secret_key,
                    &self.address,
                ) {
                    Ok((pt, proof)) => InboundAction::Deliver { payload: pt, proof },
                    Err(_) => InboundAction::Ignore,
                }
            },
            _ => InboundAction::Ignore,
        }
    }
}

impl GrinboxBroker {
    /// The currently active connection token, if any.
    pub fn connection_token(&self) -> (r: Option<u64>)
        ensures
            r == self.connection(),
    {
        self.slot
    }

    /// The socket URL the reconnect loop dials: the configured scheme,
    /// the address's relay domain, and its port or the default one.
    pub open spec fn url_spec(&self, address: crate::address::GrinboxAddressView) -> Seq<char> {
        (if self.unsecure() {
            "ws://"@
        } else {
            "wss://"@
        }) + address.domain + ":"@ + crate::address::dec_digits(
            (match address.port {
                Some(p) => p,
                None => crate::address::DEFAULT_GRINBOX_PORT,
            }) as nat,
        )
    }

    /// Builds the socket URL for one relay address.
    pub fn connection_url(&self, address: &crate::address::GrinboxAddress) -> (r: String)
        ensures
            r@ == self.url_spec(address@),
    {
        let mut out = String::new();
        if self.protocol_unsecure {
            out.append("ws://");
        } else {
            out.append("wss://");
        }
        out.append(address.domain.as_str());
        out.append(":");
        let port = match address.port {
            Some(p) => p,
            None => crate::address::DEFAULT_GRINBOX_PORT,
        };
        crate::address::append_decimal(&mut out, port);
        proof {
            assert(out@ =~= self.url_spec(address@));
        }
        out
    }

    /// Encrypts, signs and frames one outbound payload as a `PostSlate`
    /// request, to be sent on the currently active connection. Fails
    /// fast with `ClosedListener` when no connection is active, and
    /// with `InvalidPublicKey` when the destination's key does not
    /// decode; otherwise returns the connection token, the request
    /// text, and the envelope it carries.
    pub fn post_slate(
        &self,
        slate_payload: &Vec<u8>,
        to: &crate::address::GrinboxAddress,
        from: &crate::address::GrinboxAddress,
        secret_key: &crate::crypto::SecretKey,
    ) -> (r: Result<(u64, String, crate::envelope::EncryptedMessage), Error>)
        requires
            slate_payload@.len() < 0x1000_0000,
        ensures
            match r {
                Err(e) => (!self.running() && (e matches Error::ClosedListener(n) && n@
                    == "mwcmq"@)) || (self.running() && e == Error::InvalidPublicKey && !(
                crate::hexutil::valid_hex(to.public_key@) && crate::hexutil::bytes_of_hex(
                    to.public_key@,
                ).len() == 33 && crate::crypto::pub_key_valid(
                    crate::hexutil::bytes_of_hex(to.public_key@),
                ))),
                Ok(x) => {
                    &&& self.running() && Some(x.0) == self.connection()
                    &&& x.2.wf() && x.2.destination == *to
                    &&& x.2.seals(
                        crate::crypto::pub_of(secret_key@),
                        crate::hexutil::bytes_of_hex(to.public_key@),
                        slate_payload@,
                    )
                    &&& x.2.seals(
                        crate::hexutil::bytes_of_hex(to.public_key@),
                        crate::crypto::pub_of(secret_key@),
                        slate_payload@,
                    )
                    &&& x.1@ == post_slate_request(
                        from@.stripped(),
                        to@.stripped(),
                        x.2.wire_json(),
                        self.challenge_text(),
                        secret_key@,
                    )
                },
            },
            self.running() ==> (r is Ok <==> (crate::hexutil::valid_hex(to.public_key@)
                && crate::hexutil::bytes_of_hex(to.public_key@).len() == 33
                && crate::crypto::pub_key_valid(crate::hexutil::bytes_of_hex(to.public_key@)))),
    {
        if !self.is_running() {
            return Err(Error::ClosedListener(String::from_str("mwcmq")));
        }
        let to_key = match crate::crypto::PublicKey::from_hex(to.public_key.as_str()) {
            Ok(k) => k,
            Err(e) => {
                return Err(e);
            },
        };
        let env = crate::envelope::encrypt(slate_payload, to, &to_key, secret_key);
        let message_ser = env.encode();
        let from_stripped = from.stripped();
        let to_stripped = to.stripped();
        let mut signed = String::new();
        signed.append(message_ser.as_str());
        signed.append(from_stripped.as_str());
        signed.append(to_stripped.as_str());
        match &self.challenge {
            Some(c) => signed.append(c.as_str()),
            None => {},
        }
        let signature = crate::crypto::sign_challenge(signed.as_str(), secret_key);
        let request = crate::protocol::ProtocolRequest::PostSlate {
            from: from_stripped,
            to: to_stripped,
            payload: message_ser,
            signature,
        };
        let token = match self.connection_token() {
            Some(t) => t,
            None => {
                return Err(Error::ClosedListener(String::from_str("mwcmq")));
            },
        };
        Ok((token, request.encode(), env))
    }
}

} // verus!

verus! {

/// Publishes outbound payloads over the persistent relay transport.
pub struct GrinboxPublisher {
    pub address: crate::address::GrinboxAddress,
    pub broker: GrinboxBroker,
    pub secret_key: crate::crypto::SecretKey,
}

impl GrinboxPublisher {
    /// A publisher for the given wallet address and key; its broker
    /// starts without a connection.
    pub fn new(
        address: &crate::address::GrinboxAddress,
        secret_key: &crate::crypto::SecretKey,
        protocol_unsecure: bool,
    ) -> (r: Result<Self, Error>)
        ensures
            r matches Ok(p) && p.address == *address && p.secret_key@ == secret_key@
                && !p.broker.running() && p.broker.unsecure() == protocol_unsecure,
    {
        Ok(
            GrinboxPublisher {
                address: address.duplicate(),
                broker: GrinboxBroker::new(protocol_unsecure),
                secret_key: secret_key.duplicate(),
            },
        )
    }

    /// Sends one payload to `to`: only relay addresses can be posted to
    /// over this transport; the rest is the broker's `post_slate`.
    pub fn post_slate(&self, slate_payload: &Vec<u8>, to: &crate::address::Address) -> (r: Result<
        (u64, String, crate::envelope::EncryptedMessage),
        Error,
    >)
        requires
            slate_payload@.len() < 0x1000_0000,
        ensures
            !(to is Grinbox) ==> r == Err::<(u64, String, crate::envelope::EncryptedMessage), Error>(
                Error::Parse(crate::error::ParseError::UnknownScheme),
            ),
            !self.broker.running() && to is Grinbox ==> (r matches Err(e) && (e
                matches Error::ClosedListener(n) && n@ == "mwcmq"@)),
            to matches crate::address::Address::Grinbox(g) ==> (r matches Ok(x) ==> {
                &&& self.broker.running() && Some(x.0) == self.broker.connection()
                &&& x.2.wf() && x.2.destination == g
                &&& x.2.seals(
                    crate::crypto::pub_of(self.secret_key@),
                    crate::hexutil::bytes_of_hex(g.public_key@),
                    slate_payload@,
                )
                &&& x.1@ == post_slate_request(
                    self.address@.stripped(),
                    g@.stripped(),
                    x.2.wire_json(),
                    self.broker.challenge_text(),
                    self.secret_key@,
                )
            }),
            to matches crate::address::Address::Grinbox(g) && self.broker.running() && (
            crate::hexutil::valid_hex(g.public_key@) && crate::hexutil::bytes_of_hex(
                g.public_key@,
            ).len() == 33 && crate::crypto::pub_key_valid(
                crate::hexutil::bytes_of_hex(g.public_key@),
            )) ==> r is Ok,
            to matches crate::address::Address::Grinbox(g) && self.broker.running() && !(
            crate::hexutil::valid_hex(g.public_key@) && crate::hexutil::bytes_of_hex(
                g.public_key@,
            ).len() == 33 && crate::crypto::pub_key_valid(
                crate::hexutil::bytes_of_hex(g.public_key@),
            )) ==> r == Err::<(u64, String, crate::envelope::EncryptedMessage), Error>(
                Error::InvalidPublicKey,
            ),
    {
        match to {
            crate::address::Address::Grinbox(g) => self.broker.post_slate(
                slate_payload,
                g,
                &self.address,
                &self.secret_key,
            ),
            _ => Err(Error::Parse(crate::error::ParseError::UnknownScheme)),
        }
    }
}

/// Runs the persistent transport's receive side: owns the connection
/// lifecycle, the reconnection policy and the keepalive, through the
/// decision functions of its broker.
pub struct GrinboxSubscriber {
    pub address: crate::address::GrinboxAddress,
    pub broker: GrinboxBroker,
    pub secret_key: crate::crypto::SecretKey,
}

impl GrinboxSubscriber {
    /// A subscriber sharing the publisher's address, key and broker
    /// state.
    pub fn new(publisher: &GrinboxPublisher) -> (r: Result<Self, Error>)
        ensures
            r matches Ok(s) && s.address == publisher.address && s.secret_key@
                == publisher.secret_key@ && s.broker == publisher.broker,
    {
        Ok(
            GrinboxSubscriber {
                address: publisher.address.duplicate(),
                broker: GrinboxBroker {
                    slot: publisher.broker.slot,
                    stopped: publisher.broker.stopped,
                    protocol_unsecure: publisher.broker.protocol_unsecure,
                    challenge: match &publisher.broker.challenge {
                        Some(c) => Some(c.clone()),
                        None => None,
                    },
                },
                secret_key: publisher.secret_key.duplicate(),
            },
        )
    }

    /// A fresh protocol session for a newly opened socket.
    pub fn session(&self) -> (s: GrinboxSession)
        ensures
            s.address == self.address,
            s.secret_key@ == self.secret_key@,
            s.challenge is None,
    {
        GrinboxSession::new(&self.address, &self.secret_key)
    }

    /// Requests shutdown; acknowledged unconditionally on this
    /// transport. The broker is no longer running when this returns.
    pub fn stop(&mut self) -> (r: bool)
        ensures
            r,
            !final(self).broker.running(),
            final(self).address == old(self).address,
            final(self).secret_key@ == old(self).secret_key@,
    {
        let _ = self.broker.stop();
        true
    }

    /// Reflects the true connection state at all times.
    pub fn is_running(&self) -> (r: bool)
        ensures
            r == self.broker.running(),
    {
        self.broker.is_running()
    }
}

} // verus!
