//! The wire protocol spoken with the persistent relay: JSON-encoded
//! request and response union types over a duplex socket.
//!
//! The library builds every outbound request text itself, exactly; the
//! hosting layer only hands the bytes to the socket. Inbound response
//! text is turned back into `ProtocolResponse` values by the hosting
//! layer.

use vstd::prelude::*;

use crate::hexutil::hex_of;
use crate::envelope::EncryptedMessage;
use crate::hexutil::hex_encode;

verus! {

/// A request from the wallet to the relay.
pub enum ProtocolRequest {
    /// Ask the relay for a fresh login challenge.
    Challenge,
    /// Subscribe under an address, proving ownership by a signature
    /// over the most recent server-issued challenge.
    Subscribe { address: String, signature: String },
    /// Hand the relay an encrypted envelope for another address,
    /// signed over the serialized envelope it accompanies.
    PostSlate { from: String, to: String, payload: String, signature: String },
}

/// A response from the relay to the wallet.
pub enum ProtocolResponse {
    /// Plain acknowledgement.
    Accepted,
    /// A fresh login challenge.
    Challenge { challenge: String },
    /// An inbound envelope: claimed sender, serialized envelope, the
    /// challenge the sender signed over, and its signature.
    Slate { from: String, payload: String, challenge: String, signature: String },
    /// An error report; logged and otherwise ignored.
    Error { kind: String, description: String },
}

// ---------------------------------------------------------------------
// JSON string escaping
// ---------------------------------------------------------------------

/// The escape of one character inside a JSON string: quote and
/// backslash are escaped, control characters become their
/// `\u00..` form, everything else stands as itself.
pub open spec fn esc_char(c: char) -> Seq<char> {
    if c == '"' {
        seq!['\\', '"']
    } else if c == '\\' {
        seq!['\\', '\\']
    } else if (c as u32) < 32 {
        seq![
            '\\',
            'u',
            '0',
            '0',
            crate::hexutil::hex_digit(((c as u32) / 16) as nat),
            crate::hexutil::hex_digit(((c as u32) % 16) as nat),
        ]
    } else {
        seq![c]
    }
}

/// The body of a JSON string: each character escaped.
pub open spec fn json_escaped(s: Seq<char>) -> Seq<char>
    decreases s.len(),
{
    if s.len() == 0 {
        Seq::<char>::empty()
    } else {
        json_escaped(s.drop_last()) + esc_char(s.last())
    }
}

/// A JSON string: the escaped body between quotes.
pub open spec fn json_str(s: Seq<char>) -> Seq<char> {
    seq!['"'] + json_escaped(s) + seq!['"']
}

/// Appends the escaped body of `s`.
fn append_escaped(out: &mut String, s: &str)
    ensures
        final(out)@ == old(out)@ + json_escaped(s@),
{
    let n = s.unicode_len();
    let mut i: usize = 0;
    while i < n
        invariant
            0 <= i <= n,
            n == s@.len(),
            out@ == old(out)@ + json_escaped(s@.subrange(0, i as int)),
        decreases n - i,
    {
        let c = s.get_char(i);
        if c == '"' {
            proof {
                reveal_strlit("\\\"");
            }
            out.append("\\\"");
        } else if c == '\\' {
            proof {
                reveal_strlit("\\\\");
            }
            out.append("\\\\");
        } else if (c as u32) < 32 {
            let v = c as u32;
            proof {
                reveal_strlit("\\u00");
            }
            out.append("\\u00");
            crate::hexutil::push_hex_digit(out, (v / 16) as u8);
            crate::hexutil::push_hex_digit(out, (v % 16) as u8);
        } else {
            out.append(s.substring_char(i, i + 1));
        }
        proof {
            let pre = s@.subrange(0, i as int);
            let cur = s@.subrange(0, i + 1);
            assert(cur.drop_last() =~= pre);
            assert(cur.last() == s@[i as int]);
            assert(out@ =~= old(out)@ + json_escaped(cur));
        }
        i = i + 1;
    }
    proof {
        assert(s@.subrange(0, n as int) =~= s@);
    }
}

/// Appends `s` as a JSON string.
pub fn append_json_str(out: &mut String, s: &str)
    ensures
        final(out)@ == old(out)@ + json_str(s@),
{
    proof {
        reveal_strlit("\"");
    }
    out.append("\"");
    append_escaped(out, s);
    out.append("\"");
    proof {
        assert(out@ =~= old(out)@ + json_str(s@));
    }
}

// ---------------------------------------------------------------------
// Canonical request encoding
// ---------------------------------------------------------------------

impl ProtocolRequest {
    /// The canonical JSON text of a request: a tagged object whose
    /// fields follow the tag in a fixed order.
    pub open spec fn wire_json(&self) -> Seq<char> {
        match self {
            ProtocolRequest::Challenge => "{\"type\":\"Challenge\"}"@,
            ProtocolRequest::Subscribe { address, signature } => "{\"type\":\"Subscribe\",\"address\":"@
                + json_str(address@) + ",\"signature\":"@ + json_str(signature@) + "}"@,
            ProtocolRequest::PostSlate { from, to, payload, signature } => "{\"type\":\"PostSlate\",\"from\":"@
                + json_str(from@) + ",\"to\":"@ + json_str(to@) + ",\"str\":"@ + json_str(payload@)
                + ",\"signature\":"@ + json_str(signature@) + "}"@,
        }
    }

    /// Serializes the request to its canonical JSON text.
    pub fn encode(&self) -> (r: String)
        ensures
            r@ == self.wire_json(),
    {
        let mut out = String::new();
        match self {
            ProtocolRequest::Challenge => {
                out.append("{\"type\":\"Challenge\"}");
            },
            ProtocolRequest::Subscribe { address, signature } => {
                out.append("{\"type\":\"Subscribe\",\"address\":");
                append_json_str(&mut out, address.as_str());
                out.append(",\"signature\":");
                append_json_str(&mut out, signature.as_str());
                out.append("}");
            },
            ProtocolRequest::PostSlate { from, to, payload, signature } => {
                out.append("{\"type\":\"PostSlate\",\"from\":");
                append_json_str(&mut out, from.as_str());
                out.append(",\"to\":");
                append_json_str(&mut out, to.as_str());
                out.append(",\"str\":");
                append_json_str(&mut out, payload.as_str());
                out.append(",\"signature\":");
                append_json_str(&mut out, signature.as_str());
                out.append("}");
            },
        }
        proof {
            assert(out@ =~= self.wire_json());
        }
        out
    }
}

// ---------------------------------------------------------------------
// Canonical envelope encoding
// ---------------------------------------------------------------------

impl EncryptedMessage {
    /// The canonical JSON text of an envelope: destination object, then
    /// the sealed bytes, salt and nonce, each spelled in hex.
    pub open spec fn wire_json(&self) -> Seq<char> {
        "{\"destination\":{\"public_key\":"@ + json_str(self.destination.public_key@)
            + ",\"domain\":"@ + json_str(self.destination.domain@) + (match self.destination.port {
            Some(p) => ",\"port\":"@ + crate::address::dec_digits(p as nat),
            None => Seq::<char>::empty(),
        }) + "},\"encrypted_message\":"@ + json_str(hex_of(self.encrypted_message@)) + ",\"salt\":"@
            + json_str(hex_of(self.salt@)) + ",\"nonce\":"@ + json_str(hex_of(self.nonce@)) + "}"@
    }

    /// Serializes the envelope to its canonical JSON text.
    pub fn encode(&self) -> (r: String)
        ensures
            r@ == self.wire_json(),
    {
        let mut out = String::new();
        out.append("{\"destination\":{\"public_key\":");
        append_json_str(&mut out, self.destination.public_key.as_str());
        out.append(",\"domain\":");
        append_json_str(&mut out, self.destination.domain.as_str());
        match self.destination.port {
            Some(p) => {
                out.append(",\"port\":");
                crate::address::append_decimal(&mut out, p);
            },
            None => {},
        }
        out.append("},\"encrypted_message\":");
        let ct_hex = hex_encode(&self.encrypted_message);
        append_json_str(&mut out, ct_hex.as_str());
        out.append(",\"salt\":");
        let salt_hex = hex_encode(&self.salt);
        append_json_str(&mut out, salt_hex.as_str());
        out.append(",\"nonce\":");
        let nonce_hex = hex_encode(&self.nonce);
        append_json_str(&mut out, nonce_hex.as_str());
        out.append("}");
        proof {
            assert(out@ =~= self.wire_json());
        }
        out
    }
}

} // verus!

verus! {

// ---------------------------------------------------------------------
// Canonical envelope decoding
// ---------------------------------------------------------------------

/// The raw fields read back out of an envelope's canonical JSON text:
/// the destination parts verbatim, the three hex spellings untouched.
pub struct EnvelopeParts {
    pub key: Seq<char>,
    pub domain: Seq<char>,
    pub port: Option<u16>,
    pub enc: Seq<char>,
    pub salt: Seq<char>,
    pub nonce: Seq<char>,
}

/// Strips an exact literal prefix.
pub open spec fn strip_lit_spec(s: Seq<char>, p: Seq<char>) -> Option<Seq<char>> {
    if crate::address::starts_with(s, p) {
        Some(s.skip(p.len() as int))
    } else {
        None
    }
}

/// Reads one JSON string that uses no escapes: an opening quote, the
/// content up to the next quote (with no backslash inside), the closing
/// quote. Anything else — including a string that would need
/// unescaping — is refused.
pub open spec fn take_str_spec(s: Seq<char>) -> Option<(Seq<char>, Seq<char>)> {
    if s.len() >= 1 && s[0] == '"' {
        match crate::address::find_char(s.skip(1), '"') {
            None => None,
            Some(k) => {
                let content = s.skip(1).subrange(0, k);
                if forall|i: int| 0 <= i < content.len() ==> content[i] != '\\' {
                    Some((content, s.skip(1).skip(k + 1)))
                } else {
                    None
                }
            },
        }
    } else {
        None
    }
}

/// Reads the optional `,"port":` field, leaving the closing brace in
/// place.
pub open spec fn take_port_spec(s: Seq<char>) -> Option<(Option<u16>, Seq<char>)> {
    if crate::address::starts_with(s, ",\"port\":"@) {
        let t = s.skip(8);
        match crate::address::find_char(t, '}') {
            None => None,
            Some(j) => {
                let digits = t.subrange(0, j);
                if crate::address::valid_port_digits(digits) && crate::address::dec_num(digits)
                    <= 65535 {
                    Some((Some(crate::address::dec_num(digits) as u16), t.skip(j)))
                } else {
                    None
                }
            },
        }
    } else {
        Some((None, s))
    }
}

/// The strict parser of the canonical envelope text: exactly the texts
/// the encoder produces are accepted, field for field.
pub open spec fn parse_envelope_spec(s: Seq<char>) -> Option<EnvelopeParts> {
    match strip_lit_spec(s, "{\"destination\":{\"public_key\":"@) {
        None => None,
        Some(s1) => match take_str_spec(s1) {
            None => None,
            Some((key, s2)) => match strip_lit_spec(s2, ",\"domain\":"@) {
                None => None,
                Some(s3) => match take_str_spec(s3) {
                    None => None,
                    Some((domain, s4)) => match take_port_spec(s4) {
                        None => None,
                        Some((port, s5)) => match strip_lit_spec(
                            s5,
                            "},\"encrypted_message\":"@,
                        ) {
                            None => None,
                            Some(s6) => match take_str_spec(s6) {
                                None => None,
                                Some((enc, s7)) => match strip_lit_spec(s7, ",\"salt\":"@) {
                                    None => None,
                                    Some(s8) => match take_str_spec(s8) {
                                        None => None,
                                        Some((salt, s9)) => match strip_lit_spec(
                                            s9,
                                            ",\"nonce\":"@,
                                        ) {
                                            None => None,
                                            Some(s10) => match take_str_spec(s10) {
                                                None => None,
                                                Some((nonce, s11)) => if s11 =~= "}"@ {
                                                    Some(
                                                        EnvelopeParts {
                                                            key,
                                                            domain,
                                                            port,
                                                            enc,
                                                            salt,
                                                            nonce,
                                                        },
                                                    )
                                                } else {
                                                    None
                                                },
                                            },
                                        },
                                    },
                                },
                            },
                        },
                    },
                },
            },
        },
    }
}

/// Escaping text that holds neither quotes, backslashes nor control
/// characters changes nothing.
pub proof fn lemma_escape_identity(s: Seq<char>)
    requires
        forall|i: int|
            0 <= i < s.len() ==> #[trigger] s[i] != '"' && s[i] != '\\' && (s[i] as u32) >= 32,
    ensures
        json_escaped(s) == s,
    decreases s.len(),
{
    if s.len() == 0 {
        assert(json_escaped(s) =~= s);
    } else {
        lemma_escape_identity(s.drop_last());
        assert(esc_char(s.last()) =~= seq![s.last()]);
        assert(json_escaped(s) =~= s.drop_last() + seq![s.last()]);
        assert(s.drop_last() + seq![s.last()] =~= s);
    }
}

/// Stripping a literal off text that begins with it leaves the rest.
pub proof fn lemma_strip_concat(p: Seq<char>, rest: Seq<char>)
    ensures
        strip_lit_spec(p + rest, p) == Some(rest),
{
    let s = p + rest;
    assert(crate::address::starts_with(s, p)) by {
        assert forall|i: int| 0 <= i < p.len() implies s[i] == #[trigger] p[i] by {
            assert(s[i] == (p + rest)[i]);
        }
    }
    assert(s.skip(p.len() as int) =~= rest);
}

/// Reading a JSON string of escape-free content off the front of text
/// yields the content and the rest.
pub proof fn lemma_take_json_str(content: Seq<char>, rest: Seq<char>)
    requires
        forall|i: int|
            0 <= i < content.len() ==> #[trigger] content[i] != '"' && content[i] != '\\' && (
            content[i] as u32) >= 32,
    ensures
        take_str_spec(json_str(content) + rest) == Some((content, rest)),
{
    lemma_escape_identity(content);
    let s = json_str(content) + rest;
    assert(s[0] == '"');
    assert(s.skip(1) =~= content + (seq!['"'] + rest));
    assert((seq!['"'] + rest)[0] == '"');
    crate::address::lemma_find_char_concat(content, seq!['"'] + rest, '"');
    assert(crate::address::find_char(s.skip(1), '"') == Some(content.len() as int));
    assert(s.skip(1).subrange(0, content.len() as int) =~= content);
    assert(s.skip(1).skip(content.len() as int + 1) =~= rest);
}

} // verus!

verus! {

/// Hex spellings and well-formed address fields never hold a quote, a
/// backslash or a control character, so they travel through JSON
/// strings unescaped.
proof fn lemma_field_chars()
    ensures
        forall|c: char|
            #[trigger] crate::address::hex_char(c) ==> c != '"' && c != '\\' && (c as u32) >= 32,
        forall|c: char|
            #[trigger] crate::address::domain_char(c) ==> c != '"' && c != '\\' && (c as u32)
                >= 32,
        forall|c: char| crate::address::dec_char(c) ==> c != '}',
{
}

/// The canonical envelope text reads back to exactly the envelope's
/// fields: the parser inverts the encoder on every envelope whose
/// destination is well formed.
#[verifier::rlimit(60)]
pub proof fn lemma_envelope_wire_round_trip(e: EncryptedMessage)
    requires
        e.destination@.wf(),
    ensures
        parse_envelope_spec(e.wire_json()) == Some(
            EnvelopeParts {
                key: e.destination.public_key@,
                domain: e.destination.domain@,
                port: e.destination.port,
                enc: hex_of(e.encrypted_message@),
                salt: hex_of(e.salt@),
                nonce: hex_of(e.nonce@),
            },
        ),
{
    reveal_strlit(",\"port\":");
    reveal_strlit("},\"encrypted_message\":");
    lemma_field_chars();
    let key = e.destination.public_key@;
    let domain = e.destination.domain@;
    let enc = hex_of(e.encrypted_message@);
    let salt = hex_of(e.salt@);
    let nonce = hex_of(e.nonce@);
    crate::hexutil::lemma_hex_round_trip(e.encrypted_message@);
    crate::hexutil::lemma_hex_round_trip(e.salt@);
    crate::hexutil::lemma_hex_round_trip(e.nonce@);
    let portseq: Seq<char> = match e.destination.port {
        Some(p) => ",\"port\":"@ + crate::address::dec_digits(p as nat),
        None => Seq::<char>::empty(),
    };
    let tail5: Seq<char> = "},\"encrypted_message\":"@ + (json_str(enc) + (",\"salt\":"@ + (
    json_str(salt) + (",\"nonce\":"@ + (json_str(nonce) + "}"@)))));
    let rest4 = portseq + tail5;
    let rest3 = json_str(domain) + rest4;
    let rest2 = ",\"domain\":"@ + rest3;
    let rest1 = json_str(key) + rest2;
    let s = e.wire_json();
    assert(s =~= "{\"destination\":{\"public_key\":"@ + rest1);
    lemma_strip_concat("{\"destination\":{\"public_key\":"@, rest1);
    lemma_take_json_str(key, rest2);
    lemma_strip_concat(",\"domain\":"@, rest3);
    lemma_take_json_str(domain, rest4);
    // the optional port, with the closing brace left in place
    assert(take_port_spec(rest4) == Some((e.destination.port, tail5))) by {
        match e.destination.port {
            None => {
                assert(rest4 =~= tail5);
                assert(rest4[0] == '}');
                assert(!crate::address::starts_with(rest4, ",\"port\":"@)) by {
                    if crate::address::starts_with(rest4, ",\"port\":"@) {
                        assert(rest4[0] == ",\"port\":"@[0]);
                    }
                }
            },
            Some(p) => {
                let digits = crate::address::dec_digits(p as nat);
                crate::address::lemma_dec_digits(p as nat);
                assert(crate::address::starts_with(rest4, ",\"port\":"@)) by {
                    assert forall|i: int| 0 <= i < 8 implies rest4[i] == #[trigger] ",\"port\":"@[i] by {
                        assert(rest4[i] == (",\"port\":"@ + digits)[i]);
                    }
                }
                let t = rest4.skip(8);
                assert(t =~= digits + tail5);
                assert(tail5[0] == '}');
                crate::address::lemma_find_char_concat(digits, tail5, '}');
                assert(crate::address::find_char(t, '}') == Some(digits.len() as int));
                assert(t.subrange(0, digits.len() as int) =~= digits);
                assert(crate::address::valid_port_digits(digits));
                assert(crate::address::dec_num(digits) == p as nat);
                assert(t.skip(digits.len() as int) =~= tail5);
            },
        }
    }
    lemma_strip_concat(
        "},\"encrypted_message\":"@,
        json_str(enc) + (",\"salt\":"@ + (json_str(salt) + (",\"nonce\":"@ + (json_str(nonce)
            + "}"@)))),
    );
    lemma_take_json_str(enc, ",\"salt\":"@ + (json_str(salt) + (",\"nonce\":"@ + (json_str(nonce)
        + "}"@))));
    lemma_strip_concat(",\"salt\":"@, json_str(salt) + (",\"nonce\":"@ + (json_str(nonce) + "}"@)));
    lemma_take_json_str(salt, ",\"nonce\":"@ + (json_str(nonce) + "}"@));
    lemma_strip_concat(",\"nonce\":"@, json_str(nonce) + "}"@);
    lemma_take_json_str(nonce, "}"@);
}

} // verus!

verus! {

/// Strips literal `p` at position `i`.
fn strip_lit_at(s: &str, i: usize, p: &str) -> (r: Option<usize>)
    requires
        i <= s@.len(),
    ensures
        match r {
            Some(k) => i <= k <= s@.len() && strip_lit_spec(s@.skip(i as int), p@) == Some(
                s@.skip(k as int),
            ),
            None => strip_lit_spec(s@.skip(i as int), p@) is None,
        },
{
    let n = s.unicode_len();
    let pl = p.unicode_len();
    if n - i < pl {
        return None;
    }
    let mut j: usize = 0;
    while j < pl
        invariant
            0 <= j <= pl,
            i + pl <= n,
            n == s@.len(),
            pl == p@.len(),
            forall|m: int| 0 <= m < j ==> s@[i + m] == #[trigger] p@[m],
        decreases pl - j,
    {
        if s.get_char(i + j) != p.get_char(j) {
            proof {
                assert(s@.skip(i as int)[j as int] == s@[i + j]);
            }
            return None;
        }
        j = j + 1;
    }
    proof {
        assert(crate::address::starts_with(s@.skip(i as int), p@)) by {
            assert forall|m: int| 0 <= m < p@.len() implies s@.skip(i as int)[m] == #[trigger] p@[m] by {
                assert(s@.skip(i as int)[m] == s@[i + m]);
            }
        }
        assert(s@.skip(i as int).skip(pl as int) =~= s@.skip(i + pl));
    }
    Some(i + pl)
}

/// Reads one escape-free JSON string starting at position `i`.
fn take_str_at(s: &str, i: usize) -> (r: Option<(String, usize)>)
    requires
        i <= s@.len(),
    ensures
        match r {
            Some(p) => i < p.1 <= s@.len() && take_str_spec(s@.skip(i as int)) == Some(
                (p.0@, s@.skip(p.1 as int)),
            ),
            None => take_str_spec(s@.skip(i as int)) is None,
        },
{
    let ghost u = s@.skip(i as int);
    let n = s.unicode_len();
    if i >= n || s.get_char(i) != '"' {
        proof {
            if u.len() >= 1 {
                assert(u[0] == s@[i as int]);
            }
        }
        return None;
    }
    let ghost t = s@.skip(i + 1);
    proof {
        assert(u[0] == s@[i as int]);
        assert(u.skip(1) =~= t);
    }
    let mut j: usize = i + 1;
    while j < n
        invariant
            i + 1 <= j <= n,
            n == s@.len(),
            i < n,
            s@[i as int] == '"',
            u == s@.skip(i as int),
            t == s@.skip(i + 1),
            u.len() >= 1 && u[0] == '"',
            u.skip(1) == t,
            forall|m: int| i + 1 <= m < j ==> s@[m] != '"' && #[trigger] s@[m] != '\\',
        decreases n - j,
    {
        let c = s.get_char(j);
        if c == '"' {
            proof {
                crate::address::lemma_find_char(t, '"');
                assert(forall|m: int| 0 <= m < t.len() ==> t[m] == #[trigger] s@[i + 1 + m]);
                assert(t[j - i - 1] == '"');
                match crate::address::find_char(t, '"') {
                    None => {
                        assert(false);
                    },
                    Some(k) => {
                        assert(t[k] == '"');
                        assert(k == j - i - 1);
                        let content = t.subrange(0, k);
                        assert(content =~= s@.subrange(i + 1, j as int));
                        assert forall|m: int| 0 <= m < content.len() implies content[m]
                            != '\\' by {
                            assert(content[m] == s@[i + 1 + m]);
                        }
                        assert(t.skip(k + 1) =~= s@.skip(j + 1));
                    },
                }
            }
            let content = substr_text(s, i + 1, j);
            return Some((content, j + 1));
        }
        if c == '\\' {
            proof {
                crate::address::lemma_find_char(t, '"');
                assert(forall|m: int| 0 <= m < t.len() ==> t[m] == #[trigger] s@[i + 1 + m]);
                match crate::address::find_char(t, '"') {
                    None => {},
                    Some(k) => {
                        assert(t[k] == '"');
                        assert(t[j - i - 1] == '\\');
                        assert(k > j - i - 1);
                        assert(t.subrange(0, k)[j - i - 1] == '\\');
                    },
                }
            }
            return None;
        }
        j = j + 1;
    }
    proof {
        crate::address::lemma_find_char(t, '"');
        assert(forall|m: int| 0 <= m < t.len() ==> t[m] == #[trigger] s@[i + 1 + m]);
        match crate::address::find_char(t, '"') {
            None => {},
            Some(k) => {
                assert(t[k] == '"');
            },
        }
    }
    None
}

/// A copy of `s[from..to]`.
fn substr_text(s: &str, from: usize, to: usize) -> (r: String)
    requires
        0 <= from <= to <= s@.len(),
    ensures
        r@ == s@.subrange(from as int, to as int),
{
    s.substring_char(from, to).to_owned()
}

/// First occurrence of `c` at or after position `i`.
fn find_char_at(s: &str, i: usize, c: char) -> (r: Option<usize>)
    requires
        i <= s@.len(),
    ensures
        match r {
            Some(k) => i <= k < s@.len() && crate::address::find_char(s@.skip(i as int), c) == Some(
                k - i,
            ),
            None => crate::address::find_char(s@.skip(i as int), c) is None,
        },
{
    let ghost t = s@.skip(i as int);
    let n = s.unicode_len();
    let mut j: usize = i;
    while j < n
        invariant
            i <= j <= n,
            n == s@.len(),
            t == s@.skip(i as int),
            forall|m: int| i <= m < j ==> #[trigger] s@[m] != c,
        decreases n - j,
    {
        if s.get_char(j) == c {
            proof {
                crate::address::lemma_find_char(t, c);
                assert(forall|m: int| 0 <= m < t.len() ==> t[m] == #[trigger] s@[i + m]);
                assert(t[j - i] == c);
            }
            return Some(j);
        }
        j = j + 1;
    }
    proof {
        crate::address::lemma_find_char(t, c);
        assert(forall|m: int| 0 <= m < t.len() ==> t[m] == #[trigger] s@[i + m]);
        match crate::address::find_char(t, c) {
            None => {},
            Some(k) => {
                assert(t[k] == c);
            },
        }
    }
    None
}

/// Reads the optional port field at position `i`.
fn take_port_at(s: &str, i: usize) -> (r: Option<(Option<u16>, usize)>)
    requires
        i <= s@.len(),
    ensures
        match r {
            Some(p) => i <= p.1 <= s@.len() && take_port_spec(s@.skip(i as int)) == Some(
                (p.0, s@.skip(p.1 as int)),
            ),
            None => take_port_spec(s@.skip(i as int)) is None,
        },
{
    match strip_lit_at(s, i, ",\"port\":") {
        None => {
            proof {
                assert(s@.skip(i as int).skip(0) =~= s@.skip(i as int));
            }
            Some((None, i))
        },
        Some(k) => {
            proof {
                reveal_strlit(",\"port\":");
            }
            match find_char_at(s, k, '}') {
                None => None,
                Some(j) => {
                    let digits = substr_text(s, k, j);
                    proof {
                        assert(s@.skip(k as int).subrange(0, j - k) =~= s@.subrange(
                            k as int,
                            j as int,
                        ));
                        assert(s@.skip(k as int).skip(j - k) =~= s@.skip(j as int));
                    }
                    match crate::address::parse_port(digits.as_str()) {
                        Some(p) => Some((Some(p), j)),
                        None => None,
                    }
                },
            }
        },
    }
}

impl EncryptedMessage {
    /// Reads an envelope back from its canonical JSON text: exactly the
    /// texts the encoder produces are accepted — strict framing, then
    /// the hex fields checked and decoded.
    #[verifier::rlimit(100)]
    pub fn decode(s: &str) -> (r: Option<EncryptedMessage>)
        ensures
            match r {
                Some(e) => parse_envelope_spec(s@) matches Some(parts) && {
                    &&& e.destination.public_key@ == parts.key
                    &&& e.destination.domain@ == parts.domain
                    &&& e.destination.port == parts.port
                    &&& crate::hexutil::valid_hex(parts.enc) && e.encrypted_message@
                        == crate::hexutil::bytes_of_hex(parts.enc)
                    &&& crate::hexutil::valid_hex(parts.salt) && e.salt@
                        == crate::hexutil::bytes_of_hex(parts.salt)
                    &&& crate::hexutil::valid_hex(parts.nonce) && e.nonce@
                        == crate::hexutil::bytes_of_hex(parts.nonce)
                },
                None => !(parse_envelope_spec(s@) matches Some(parts)
                    && crate::hexutil::valid_hex(parts.enc) && crate::hexutil::valid_hex(parts.salt)
                    && crate::hexutil::valid_hex(parts.nonce)),
            },
    {
        proof {
            assert(s@.skip(0) =~= s@);
        }
        let i1 = match strip_lit_at(s, 0, "{\"destination\":{\"public_key\":") {
            Some(k) => k,
            None => {
                return None;
            },
        };
        let (key, i2) = match take_str_at(s, i1) {
            Some(p) => p,
            None => {
                return None;
            },
        };
        let i3 = match strip_lit_at(s, i2, ",\"domain\":") {
            Some(k) => k,
            None => {
                return None;
            },
        };
        let (domain, i4) = match take_str_at(s, i3) {
            Some(p) => p,
            None => {
                return None;
            },
        };
        let (port, i5) = match take_port_at(s, i4) {
            Some(p) => p,
            None => {
                return None;
            },
        };
        let i6 = match strip_lit_at(s, i5, "},\"encrypted_message\":") {
            Some(k) => k,
            None => {
                return None;
            },
        };
        let (enc, i7) = match take_str_at(s, i6) {
            Some(p) => p,
            None => {
                return None;
            },
        };
        let i8 = match strip_lit_at(s, i7, ",\"salt\":") {
            Some(k) => k,
            None => {
                return None;
            },
        };
        let (salt, i9) = match take_str_at(s, i8) {
            Some(p) => p,
            None => {
                return None;
            },
        };
        let i10 = match strip_lit_at(s, i9, ",\"nonce\":") {
            Some(k) => k,
            None => {
                return None;
            },
        };
        let (nonce, i11) = match take_str_at(s, i10) {
            Some(p) => p,
            None => {
                return None;
            },
        };
        let n = s.unicode_len();
        if !(n - i11 == 1 && s.get_char(i11) == '}') {
            proof {
                reveal_strlit("}");
                if s@.skip(i11 as int) =~= "}"@ {
                    assert(s@.skip(i11 as int).len() == 1);
                    assert(s@.skip(i11 as int)[0] == s@[i11 as int]);
                    assert(s@[i11 as int] == '}');
                }
            }
            return None;
        }
        proof {
            reveal_strlit("}");
            assert(s@.skip(i11 as int)[0] == s@[i11 as int]);
            assert(s@.skip(i11 as int) =~= "}"@);
        }
        let encrypted_message = match crate::hexutil::hex_decode(enc.as_str()) {
            Some(b) => b,
            None => {
                return None;
            },
        };
        let salt_bytes = match crate::hexutil::hex_decode(salt.as_str()) {
            Some(b) => b,
            None => {
                return None;
            },
        };
        let nonce_bytes = match crate::hexutil::hex_decode(nonce.as_str()) {
            Some(b) => b,
            None => {
                return None;
            },
        };
        Some(
            EncryptedMessage {
                destination: crate::address::GrinboxAddress { public_key: key, domain, port },
                encrypted_message,
                salt: salt_bytes,
                nonce: nonce_bytes,
            },
        )
    }
}

} // verus!

verus! {

/// What a `PostSlate` signature covers: the serialized envelope it
/// accompanies, the sender's and recipient's stripped addresses, and
/// the most recent server-issued challenge — so the signed content is
/// independent of cosmetic routing details and cannot be replayed
/// across sessions.
pub open spec fn slate_signed_content(
    envelope_json: Seq<char>,
    from_stripped: Seq<char>,
    to_stripped: Seq<char>,
    challenge: Seq<char>,
) -> Seq<char> {
    envelope_json + from_stripped + to_stripped + challenge
}

} // verus!
