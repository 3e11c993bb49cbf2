//! Typed endpoint addresses.
//!
//! An address names the other end of a transport: a relay endpoint
//! (a public key, optionally pinned to a relay domain and port), a chat
//! endpoint (a username and optional topic), or a direct URL. Every
//! address round-trips through its canonical text form; a "stripped"
//! form omits the transport decoration (port, topic) and is what goes
//! inside signed payloads and what identity comparison looks at.
//!
//! Parsing tries each known scheme in a fixed priority order: an
//! explicit `grinbox://`, `keybase://`, `https://` or `http://` prefix
//! decides; bare text is tried as a relay address first and as a chat
//! username second.

use vstd::prelude::*;

use crate::error::ParseError;

verus! {

/// Default port of the public relay, used when an address names none.
pub const DEFAULT_GRINBOX_PORT: u16 = 13420;

/// Which transport an address belongs to.
#[derive(Clone, Copy, PartialEq, Eq, Debug)]
pub enum AddressType {
    Grinbox,
    Keybase,
    Https,
}

/// A relay endpoint: a hex-encoded compressed public key, a relay
/// domain, and an optional port.
#[derive(Clone, PartialEq, Eq, Debug)]
pub struct GrinboxAddress {
    pub public_key: String,
    pub domain: String,
    pub port: Option<u16>,
}

/// A chat endpoint: a username and an optional topic.
#[derive(Clone, PartialEq, Eq, Debug)]
pub struct KeybaseAddress {
    pub username: String,
    pub topic: Option<String>,
}

/// A direct endpoint: a plain URL, kept verbatim.
#[derive(Clone, PartialEq, Eq, Debug)]
pub struct HttpsAddress {
    pub uri: String,
}

/// A parsed, typed endpoint identifier.
#[derive(Clone, PartialEq, Eq, Debug)]
pub enum Address {
    Grinbox(GrinboxAddress),
    Keybase(KeybaseAddress),
    Https(HttpsAddress),
}

// ---------------------------------------------------------------------
// Ghost views
// ---------------------------------------------------------------------

/// The mathematical content of a relay address.
pub struct GrinboxAddressView {
    pub public_key: Seq<char>,
    pub domain: Seq<char>,
    pub port: Option<u16>,
}

/// The mathematical content of a chat address.
pub struct KeybaseAddressView {
    pub username: Seq<char>,
    pub topic: Option<Seq<char>>,
}

/// The mathematical content of an address.
pub enum AddressView {
    Grinbox(GrinboxAddressView),
    Keybase(KeybaseAddressView),
    Https(Seq<char>),
}

impl View for GrinboxAddress {
    type V = GrinboxAddressView;

    open spec fn view(&self) -> GrinboxAddressView {
        GrinboxAddressView {
            public_key: self.public_key@,
            domain: self.domain@,
            port: self.port,
        }
    }
}

impl View for KeybaseAddress {
    type V = KeybaseAddressView;

    open spec fn view(&self) -> KeybaseAddressView {
        KeybaseAddressView { username: self.username@, topic: match self.topic {
            Some(ref t) => Some(t@),
            None => None,
        } }
    }
}

impl View for Address {
    type V = AddressView;

    open spec fn view(&self) -> AddressView {
        match self {
            Address::Grinbox(a) => AddressView::Grinbox(a@),
            Address::Keybase(a) => AddressView::Keybase(a@),
            Address::Https(a) => AddressView::Https(a.uri@),
        }
    }
}

// ---------------------------------------------------------------------
// Character classes and well-formedness
// ---------------------------------------------------------------------

/// Lower-case hexadecimal digit.
pub open spec fn hex_char(c: char) -> bool {
    ('0' <= c && c <= '9') || ('a' <= c && c <= 'f')
}

/// Decimal digit.
pub open spec fn dec_char(c: char) -> bool {
    '0' <= c && c <= '9'
}

/// Characters allowed in a relay domain.
pub open spec fn domain_char(c: char) -> bool {
    ('a' <= c && c <= 'z') || ('0' <= c && c <= '9') || c == '.' || c == '-'
}

/// Characters allowed in a chat username or topic.
pub open spec fn name_char(c: char) -> bool {
    ('a' <= c && c <= 'z') || ('0' <= c && c <= '9') || c == '_'
}

/// A relay public key: exactly 66 lower-case hex digits (a compressed
/// 33-byte key).
pub open spec fn valid_public_key(s: Seq<char>) -> bool {
    s.len() == 66 && (forall|i: int| 0 <= i < s.len() ==> hex_char(#[trigger] s[i]))
}

/// A relay domain: nonempty, from the domain character class.
pub open spec fn valid_domain(s: Seq<char>) -> bool {
    1 <= s.len() <= 253 && (forall|i: int| 0 <= i < s.len() ==> domain_char(#[trigger] s[i]))
}

/// A chat username: one to sixteen name characters. The length cap
/// keeps usernames and bare relay keys from ever matching each other.
pub open spec fn valid_username(s: Seq<char>) -> bool {
    1 <= s.len() <= 16 && (forall|i: int| 0 <= i < s.len() ==> name_char(#[trigger] s[i]))
}

/// A chat topic: nonempty, from the name character class.
pub open spec fn valid_topic(s: Seq<char>) -> bool {
    1 <= s.len() && (forall|i: int| 0 <= i < s.len() ==> name_char(#[trigger] s[i]))
}

pub open spec fn grinbox_scheme() -> Seq<char> {
    "grinbox://"@
}

pub open spec fn keybase_scheme() -> Seq<char> {
    "keybase://"@
}

pub open spec fn https_scheme() -> Seq<char> {
    "https://"@
}

pub open spec fn http_scheme() -> Seq<char> {
    "http://"@
}

pub open spec fn default_domain() -> Seq<char> {
    "grinbox.io"@
}

/// `s` begins with `p`.
pub open spec fn starts_with(s: Seq<char>, p: Seq<char>) -> bool {
    s.len() >= p.len() && (forall|i: int| 0 <= i < p.len() ==> s[i] == #[trigger] p[i])
}

/// A direct URL: an explicit web scheme followed by at least one more
/// character.
pub open spec fn valid_uri(s: Seq<char>) -> bool {
    (starts_with(s, https_scheme()) && s.len() > https_scheme().len()) || (starts_with(
        s,
        http_scheme(),
    ) && s.len() > http_scheme().len())
}

impl GrinboxAddressView {
    /// Field-level well-formedness.
    pub open spec fn wf(&self) -> bool {
        valid_public_key(self.public_key) && valid_domain(self.domain)
    }
}

impl KeybaseAddressView {
    pub open spec fn wf(&self) -> bool {
        valid_username(self.username) && (match self.topic {
            Some(t) => valid_topic(t),
            None => true,
        })
    }
}

impl AddressView {
    pub open spec fn wf(&self) -> bool {
        match self {
            AddressView::Grinbox(a) => a.wf(),
            AddressView::Keybase(a) => a.wf(),
            AddressView::Https(u) => valid_uri(*u),
        }
    }
}

impl Address {
    /// Field-level well-formedness: parsing only ever yields
    /// well-formed addresses, and only those round-trip.
    pub open spec fn wf(&self) -> bool {
        self@.wf()
    }
}

// ---------------------------------------------------------------------
// Decimal numbers (ports)
// ---------------------------------------------------------------------

/// The character of one decimal digit.
pub open spec fn digit_char(d: nat) -> char {
    if d == 0 {
        '0'
    } else if d == 1 {
        '1'
    } else if d == 2 {
        '2'
    } else if d == 3 {
        '3'
    } else if d == 4 {
        '4'
    } else if d == 5 {
        '5'
    } else if d == 6 {
        '6'
    } else if d == 7 {
        '7'
    } else if d == 8 {
        '8'
    } else {
        '9'
    }
}

/// The value of one decimal digit character.
pub open spec fn digit_val(c: char) -> nat {
    if c == '0' {
        0
    } else if c == '1' {
        1
    } else if c == '2' {
        2
    } else if c == '3' {
        3
    } else if c == '4' {
        4
    } else if c == '5' {
        5
    } else if c == '6' {
        6
    } else if c == '7' {
        7
    } else if c == '8' {
        8
    } else {
        9
    }
}

/// The canonical decimal spelling of `n`, most significant digit first,
/// no leading zeros.
pub open spec fn dec_digits(n: nat) -> Seq<char>
    decreases n,
{
    if n < 10 {
        seq![digit_char(n)]
    } else {
        dec_digits(n / 10) + seq![digit_char(n % 10)]
    }
}

/// The numeric value of a digit string (most significant first).
pub open spec fn dec_num(s: Seq<char>) -> nat
    decreases s.len(),
{
    if s.len() == 0 {
        0
    } else {
        dec_num(s.drop_last()) * 10 + digit_val(s.last())
    }
}

/// Whether `s` is one-to-five decimal digits.
pub open spec fn valid_port_digits(s: Seq<char>) -> bool {
    1 <= s.len() <= 5 && (forall|i: int| 0 <= i < s.len() ==> dec_char(#[trigger] s[i]))
}

/// The canonical spelling of a number reads back to that number, is
/// made of digits, and a port-sized number fits in five digits.
pub proof fn lemma_dec_digits(n: nat)
    ensures
        dec_num(dec_digits(n)) == n,
        forall|i: int| 0 <= i < dec_digits(n).len() ==> dec_char(#[trigger] dec_digits(n)[i]),
        dec_digits(n).len() >= 1,
        n < 10 ==> dec_digits(n).len() == 1,
        n < 100 ==> dec_digits(n).len() <= 2,
        n < 1000 ==> dec_digits(n).len() <= 3,
        n < 10000 ==> dec_digits(n).len() <= 4,
        n < 100000 ==> dec_digits(n).len() <= 5,
    decreases n,
{
    if n < 10 {
        let s = dec_digits(n);
        assert(s =~= seq![digit_char(n)]);
        assert(s.drop_last() =~= Seq::<char>::empty());
        assert(dec_num(s.drop_last()) == 0);
        assert(s.last() == digit_char(n));
        assert(dec_num(s) == dec_num(s.drop_last()) * 10 + digit_val(s.last()));
        assert(digit_val(digit_char(n)) == n);
        assert forall|i: int| 0 <= i < s.len() implies dec_char(#[trigger] s[i]) by {
            assert(s[i] == digit_char(n));
        }
    } else {
        lemma_dec_digits(n / 10);
        let pre = dec_digits(n / 10);
        let whole = pre + seq![digit_char(n % 10)];
        assert(dec_digits(n) == whole);
        assert(whole.drop_last() =~= pre);
        assert(whole.last() == digit_char(n % 10));
        assert(digit_val(digit_char(n % 10)) == n % 10);
        assert(dec_num(whole) == dec_num(pre) * 10 + n % 10);
        assert((n / 10) * 10 + n % 10 == n);
        assert forall|i: int| 0 <= i < whole.len() implies dec_char(#[trigger] whole[i]) by {
            if i < pre.len() {
                assert(whole[i] == pre[i]);
            } else {
                assert(whole[i] == digit_char(n % 10));
            }
        }
    }
}

// ---------------------------------------------------------------------
// First occurrence of a separator
// ---------------------------------------------------------------------

/// Index of the first occurrence of `c` in `s`, if any.
pub open spec fn find_char(s: Seq<char>, c: char) -> Option<int>
    decreases s.len(),
{
    if s.len() == 0 {
        None
    } else if s[0] == c {
        Some(0)
    } else {
        match find_char(s.drop_first(), c) {
            None => None,
            Some(k) => Some(k + 1),
        }
    }
}

/// `find_char` returns the least index holding `c`, or `None` when `c`
/// does not occur.
pub proof fn lemma_find_char(s: Seq<char>, c: char)
    ensures
        match find_char(s, c) {
            Some(k) => 0 <= k < s.len() && s[k] == c && (forall|j: int| 0 <= j < k ==> s[j] != c),
            None => forall|j: int| 0 <= j < s.len() ==> s[j] != c,
        },
    decreases s.len(),
{
    if s.len() > 0 && s[0] != c {
        let t = s.drop_first();
        lemma_find_char(t, c);
        match find_char(t, c) {
            None => {
                assert forall|j: int| 0 <= j < s.len() implies s[j] != c by {
                    if j >= 1 {
                        assert(s[j] == t[j - 1]);
                    }
                }
            },
            Some(k) => {
                assert(find_char(s, c) == Some(k + 1));
                assert(s[k + 1] == t[k]);
                assert forall|j: int| 0 <= j < k + 1 implies s[j] != c by {
                    if j >= 1 {
                        assert(s[j] == t[j - 1]);
                    }
                }
            },
        }
    }
}

/// Finding in a concatenation whose first part is free of `c` finds in
/// the second part, shifted.
pub proof fn lemma_find_char_concat(a: Seq<char>, b: Seq<char>, c: char)
    requires
        forall|i: int| 0 <= i < a.len() ==> a[i] != c,
    ensures
        find_char(a + b, c) == match find_char(b, c) {
            None => None::<int>,
            Some(k) => Some(k + a.len()),
        },
    decreases a.len(),
{
    if a.len() == 0 {
        assert(a + b =~= b);
    } else {
        assert((a + b)[0] == a[0]);
        assert((a + b).drop_first() =~= a.drop_first() + b);
        lemma_find_char_concat(a.drop_first(), b, c);
    }
}

/// A sequence free of `c` has no first occurrence of it.
pub proof fn lemma_find_char_absent(s: Seq<char>, c: char)
    requires
        forall|i: int| 0 <= i < s.len() ==> s[i] != c,
    ensures
        find_char(s, c) is None,
    decreases s.len(),
{
    if s.len() > 0 {
        assert(forall|j: int|
            0 <= j < s.drop_first().len() ==> #[trigger] s.drop_first()[j] == s[j + 1]);
        lemma_find_char_absent(s.drop_first(), c);
    }
}

// ---------------------------------------------------------------------
// Canonical text and stripped forms
// ---------------------------------------------------------------------

impl GrinboxAddressView {
    /// The `@domain[:port]` decoration, present whenever the domain is
    /// not the default one or a port is named.
    pub open spec fn routing_suffix(&self) -> Seq<char> {
        if self.port is Some || self.domain != default_domain() {
            "@"@ + self.domain + (match self.port {
                Some(p) => ":"@ + dec_digits(p as nat),
                None => Seq::<char>::empty(),
            })
        } else {
            Seq::<char>::empty()
        }
    }

    /// The canonical text: scheme, key, routing decoration.
    pub open spec fn text(&self) -> Seq<char> {
        grinbox_scheme() + self.public_key + self.routing_suffix()
    }

    /// The stripped form: the key, plus the domain when it is not the
    /// default one; never the port.
    pub open spec fn stripped(&self) -> Seq<char> {
        if self.domain != default_domain() {
            self.public_key + "@"@ + self.domain
        } else {
            self.public_key
        }
    }
}

impl KeybaseAddressView {
    /// The canonical text: scheme, username, and the topic if any.
    pub open spec fn text(&self) -> Seq<char> {
        keybase_scheme() + self.username + (match self.topic {
            Some(t) => ":"@ + t,
            None => Seq::<char>::empty(),
        })
    }

    /// The stripped form: the username alone; never the topic.
    pub open spec fn stripped(&self) -> Seq<char> {
        self.username
    }
}

impl AddressView {
    /// The canonical text form.
    pub open spec fn text(&self) -> Seq<char> {
        match self {
            AddressView::Grinbox(a) => a.text(),
            AddressView::Keybase(a) => a.text(),
            AddressView::Https(u) => *u,
        }
    }

    /// The stripped form: canonical identity, without transport
    /// decoration.
    pub open spec fn stripped(&self) -> Seq<char> {
        match self {
            AddressView::Grinbox(a) => a.stripped(),
            AddressView::Keybase(a) => a.stripped(),
            AddressView::Https(u) => *u,
        }
    }
}

// ---------------------------------------------------------------------
// The parser, at the specification level
// ---------------------------------------------------------------------

/// Parse the remainder of a relay address (after any scheme):
/// `key[@domain[:port]]`.
pub open spec fn parse_grinbox_spec(t: Seq<char>) -> Result<GrinboxAddressView, ParseError> {
    match find_char(t, '@') {
        None => if valid_public_key(t) {
            Ok(GrinboxAddressView { public_key: t, domain: default_domain(), port: None })
        } else {
            Err(ParseError::InvalidKey)
        },
        Some(i) => {
            let key = t.subrange(0, i);
            let rest = t.subrange(i + 1, t.len() as int);
            if !valid_public_key(key) {
                Err(ParseError::InvalidKey)
            } else {
                match find_char(rest, ':') {
                    None => if valid_domain(rest) {
                        Ok(GrinboxAddressView { public_key: key, domain: rest, port: None })
                    } else {
                        Err(ParseError::InvalidDomain)
                    },
                    Some(j) => {
                        let domain = rest.subrange(0, j);
                        let digits = rest.subrange(j + 1, rest.len() as int);
                        if !valid_domain(domain) {
                            Err(ParseError::InvalidDomain)
                        } else if valid_port_digits(digits) && dec_num(digits) <= 65535 {
                            Ok(
                                GrinboxAddressView {
                                    public_key: key,
                                    domain,
                                    port: Some(dec_num(digits) as u16),
                                },
                            )
                        } else {
                            Err(ParseError::InvalidPort)
                        }
                    },
                }
            }
        },
    }
}

/// Parse the remainder of a chat address (after any scheme):
/// `username[:topic]`.
pub open spec fn parse_keybase_spec(t: Seq<char>) -> Result<KeybaseAddressView, ParseError> {
    match find_char(t, ':') {
        None => if valid_username(t) {
            Ok(KeybaseAddressView { username: t, topic: None })
        } else {
            Err(ParseError::InvalidUsername)
        },
        Some(i) => {
            let user = t.subrange(0, i);
            let topic = t.subrange(i + 1, t.len() as int);
            if !valid_username(user) {
                Err(ParseError::InvalidUsername)
            } else if valid_topic(topic) {
                Ok(KeybaseAddressView { username: user, topic: Some(topic) })
            } else {
                Err(ParseError::InvalidTopic)
            }
        },
    }
}

/// Parse an address: explicit schemes decide; bare text is tried as a
/// relay address first, then as a chat username.
pub open spec fn parse_spec(s: Seq<char>) -> Result<AddressView, ParseError> {
    if starts_with(s, grinbox_scheme()) {
        match parse_grinbox_spec(s.skip(grinbox_scheme().len() as int)) {
            Ok(g) => Ok(AddressView::Grinbox(g)),
            Err(e) => Err(e),
        }
    } else if starts_with(s, keybase_scheme()) {
        match parse_keybase_spec(s.skip(keybase_scheme().len() as int)) {
            Ok(k) => Ok(AddressView::Keybase(k)),
            Err(e) => Err(e),
        }
    } else if starts_with(s, https_scheme()) {
        if s.len() > https_scheme().len() {
            Ok(AddressView::Https(s))
        } else {
            Err(ParseError::InvalidUrl)
        }
    } else if starts_with(s, http_scheme()) {
        if s.len() > http_scheme().len() {
            Ok(AddressView::Https(s))
        } else {
            Err(ParseError::InvalidUrl)
        }
    } else {
        match parse_grinbox_spec(s) {
            Ok(g) => Ok(AddressView::Grinbox(g)),
            Err(_) => match parse_keybase_spec(s) {
                Ok(k) => Ok(AddressView::Keybase(k)),
                Err(_) => Err(ParseError::UnknownScheme),
            },
        }
    }
}

} // verus!

verus! {

// ---------------------------------------------------------------------
// Round-trip laws
// ---------------------------------------------------------------------

/// The separator and scheme characters never occur inside the
/// character classes that fields are drawn from.
proof fn lemma_char_classes()
    ensures
        forall|c: char| hex_char(c) ==> c != '@' && c != ':' && c != 'g' && c != 'k' && c != 'h',
        forall|c: char| domain_char(c) ==> c != '@' && c != ':',
        forall|c: char| name_char(c) ==> c != '@' && c != ':',
        forall|c: char| dec_char(c) ==> c != '@' && c != ':',
{
}

/// Parsing the text of a well-formed relay address yields it back.
pub proof fn lemma_grinbox_round_trip(g: GrinboxAddressView)
    requires
        g.wf(),
    ensures
        parse_spec(g.text()) == Ok::<AddressView, ParseError>(AddressView::Grinbox(g)),
{
    reveal_strlit("grinbox://");
    reveal_strlit("@");
    reveal_strlit(":");
    lemma_char_classes();
    let s = g.text();
    let key = g.public_key;
    let suf = g.routing_suffix();
    assert(starts_with(s, grinbox_scheme())) by {
        assert forall|i: int| 0 <= i < grinbox_scheme().len() implies s[i] == #[trigger] grinbox_scheme()[i] by {
            assert(s[i] == (grinbox_scheme() + key + suf)[i]);
        }
    }
    let t = s.skip(grinbox_scheme().len() as int);
    assert(t =~= key + suf);
    if g.port is None && g.domain == default_domain() {
        assert(t =~= key);
        lemma_find_char_absent(t, '@');
        assert(parse_grinbox_spec(t) == Ok::<GrinboxAddressView, ParseError>(GrinboxAddressView {
            public_key: t,
            domain: default_domain(),
            port: None,
        }));
    } else {
        let tail: Seq<char> = match g.port {
            Some(p) => ":"@ + dec_digits(p as nat),
            None => Seq::<char>::empty(),
        };
        assert(suf =~= "@"@ + (g.domain + tail));
        assert(find_char("@"@ + (g.domain + tail), '@') == Some(0int));
        lemma_find_char_concat(key, "@"@ + (g.domain + tail), '@');
        assert(find_char(t, '@') == Some(66int));
        let key2 = t.subrange(0, 66);
        let rest = t.subrange(67, t.len() as int);
        assert(key2 =~= key);
        assert(rest =~= g.domain + tail);
        match g.port {
            None => {
                assert(rest =~= g.domain);
                lemma_find_char_absent(rest, ':');
                assert(parse_grinbox_spec(t) == Ok::<GrinboxAddressView, ParseError>(GrinboxAddressView {
                    public_key: key2,
                    domain: rest,
                    port: None,
                }));
            },
            Some(p) => {
                let digits = dec_digits(p as nat);
                assert(tail =~= ":"@ + digits);
                assert(find_char(":"@ + digits, ':') == Some(0int));
                lemma_find_char_concat(g.domain, ":"@ + digits, ':');
                assert(find_char(rest, ':') == Some(g.domain.len() as int));
                let dom2 = rest.subrange(0, g.domain.len() as int);
                let digits2 = rest.subrange(g.domain.len() as int + 1, rest.len() as int);
                assert(dom2 =~= g.domain);
                assert(digits2 =~= digits);
                lemma_dec_digits(p as nat);
                assert(valid_port_digits(digits));
                assert(dec_num(digits) == p as nat);
                assert(parse_grinbox_spec(t) == Ok::<GrinboxAddressView, ParseError>(GrinboxAddressView {
                    public_key: key2,
                    domain: dom2,
                    port: Some(p),
                }));
            },
        }
    }
}

/// Parsing the text of a well-formed chat address yields it back.
pub proof fn lemma_keybase_round_trip(k: KeybaseAddressView)
    requires
        k.wf(),
    ensures
        parse_spec(k.text()) == Ok::<AddressView, ParseError>(AddressView::Keybase(k)),
{
    reveal_strlit("grinbox://");
    reveal_strlit("keybase://");
    reveal_strlit(":");
    lemma_char_classes();
    let s = k.text();
    let user = k.username;
    let tail: Seq<char> = match k.topic {
        Some(t) => ":"@ + t,
        None => Seq::<char>::empty(),
    };
    assert(starts_with(s, keybase_scheme())) by {
        assert forall|i: int| 0 <= i < keybase_scheme().len() implies s[i] == #[trigger] keybase_scheme()[i] by {
            assert(s[i] == (keybase_scheme() + user + tail)[i]);
        }
    }
    assert(!starts_with(s, grinbox_scheme())) by {
        if starts_with(s, grinbox_scheme()) {
            assert(s[0] == grinbox_scheme()[0]);
            assert(s[0] == keybase_scheme()[0]);
            assert(false);
        }
    }
    let t = s.skip(keybase_scheme().len() as int);
    assert(t =~= user + tail);
    match k.topic {
        None => {
            assert(t =~= user);
            lemma_find_char_absent(t, ':');
            assert(parse_keybase_spec(t) == Ok::<KeybaseAddressView, ParseError>(KeybaseAddressView { username: t, topic: None }));
        },
        Some(topic) => {
            assert(find_char(":"@ + topic, ':') == Some(0int));
            lemma_find_char_concat(user, ":"@ + topic, ':');
            assert(find_char(t, ':') == Some(user.len() as int));
            let user2 = t.subrange(0, user.len() as int);
            let topic2 = t.subrange(user.len() as int + 1, t.len() as int);
            assert(user2 =~= user);
            assert(topic2 =~= topic);
            assert(parse_keybase_spec(t) == Ok::<KeybaseAddressView, ParseError>(KeybaseAddressView {
                username: user2,
                topic: Some(topic2),
            }));
        },
    }
}

/// Parsing the text of a well-formed direct address yields it back.
pub proof fn lemma_https_round_trip(u: Seq<char>)
    requires
        valid_uri(u),
    ensures
        parse_spec(u) == Ok::<AddressView, ParseError>(AddressView::Https(u)),
{
    reveal_strlit("grinbox://");
    reveal_strlit("keybase://");
    reveal_strlit("https://");
    reveal_strlit("http://");
    if starts_with(u, https_scheme()) && u.len() > https_scheme().len() {
        assert(!starts_with(u, grinbox_scheme())) by {
            if starts_with(u, grinbox_scheme()) {
                assert(u[0] == grinbox_scheme()[0]);
                assert(u[0] == https_scheme()[0]);
                assert(false);
            }
        }
        assert(!starts_with(u, keybase_scheme())) by {
            if starts_with(u, keybase_scheme()) {
                assert(u[0] == keybase_scheme()[0]);
                assert(u[0] == https_scheme()[0]);
                assert(false);
            }
        }
    } else {
        assert(starts_with(u, http_scheme()) && u.len() > http_scheme().len());
        assert(!starts_with(u, grinbox_scheme())) by {
            if starts_with(u, grinbox_scheme()) {
                assert(u[0] == grinbox_scheme()[0]);
                assert(u[0] == http_scheme()[0]);
                assert(false);
            }
        }
        assert(!starts_with(u, keybase_scheme())) by {
            if starts_with(u, keybase_scheme()) {
                assert(u[0] == keybase_scheme()[0]);
                assert(u[0] == http_scheme()[0]);
                assert(false);
            }
        }
        assert(!starts_with(u, https_scheme())) by {
            if starts_with(u, https_scheme()) {
                assert(u[4] == https_scheme()[4]);
                assert(u[4] == http_scheme()[4]);
                assert(false);
            }
        }
    }
}

/// Every well-formed address comes back unchanged from a parse of its
/// canonical text form.
pub proof fn lemma_parse_round_trip(a: AddressView)
    requires
        a.wf(),
    ensures
        parse_spec(a.text()) == Ok::<AddressView, ParseError>(a),
{
    match a {
        AddressView::Grinbox(g) => lemma_grinbox_round_trip(g),
        AddressView::Keybase(k) => lemma_keybase_round_trip(k),
        AddressView::Https(u) => lemma_https_round_trip(u),
    }
}

/// No scheme prefix matches text whose characters come from the field
/// character classes (the schemes all hold a `:` among their first
/// characters).
proof fn lemma_bare_no_scheme(s: Seq<char>)
    requires
        (forall|i: int| 0 <= i < s.len() ==> hex_char(#[trigger] s[i])) || (forall|i: int|
            0 <= i < s.len() ==> name_char(#[trigger] s[i])) || (forall|i: int|
            0 <= i < s.len() ==> domain_char(#[trigger] s[i]) || s[i] == '@'),
    ensures
        !starts_with(s, grinbox_scheme()),
        !starts_with(s, keybase_scheme()),
        !starts_with(s, https_scheme()),
        !starts_with(s, http_scheme()),
{
    reveal_strlit("grinbox://");
    reveal_strlit("keybase://");
    reveal_strlit("https://");
    reveal_strlit("http://");
    lemma_char_classes();
    if starts_with(s, grinbox_scheme()) {
        assert(s[7] == grinbox_scheme()[7]);
    }
    if starts_with(s, keybase_scheme()) {
        assert(s[7] == keybase_scheme()[7]);
    }
    if starts_with(s, https_scheme()) {
        assert(s[5] == https_scheme()[5]);
    }
    if starts_with(s, http_scheme()) {
        assert(s[4] == http_scheme()[4]);
    }
}

/// Stripping is idempotent: the stripped form of a well-formed address
/// parses, and stripping the result gives the same text again.
pub proof fn lemma_stripped_idempotent(a: AddressView)
    requires
        a.wf(),
    ensures
        parse_spec(a.stripped()) is Ok,
        parse_spec(a.stripped()).unwrap().stripped() == a.stripped(),
{
    reveal_strlit("@");
    lemma_char_classes();
    match a {
        AddressView::Grinbox(g) => {
            let s = g.stripped();
            if g.domain == default_domain() {
                assert(s =~= g.public_key);
                lemma_bare_no_scheme(s);
                lemma_find_char_absent(s, '@');
                assert(parse_spec(s) == Ok::<AddressView, ParseError>(AddressView::Grinbox(GrinboxAddressView {
                    public_key: s,
                    domain: default_domain(),
                    port: None,
                })));
            } else {
                assert(s =~= g.public_key + ("@"@ + g.domain));
                assert forall|i: int| 0 <= i < s.len() implies domain_char(#[trigger] s[i]) || s[i]
                    == '@' by {
                    if i < 66 {
                        assert(s[i] == g.public_key[i]);
                        assert(hex_char(s[i]));
                    } else if i == 66 {
                        assert(s[i] == ("@"@ + g.domain)[0]);
                    } else {
                        assert(s[i] == g.domain[i - 67]);
                    }
                }
                lemma_bare_no_scheme(s);
                assert(find_char("@"@ + g.domain, '@') == Some(0int));
                lemma_find_char_concat(g.public_key, "@"@ + g.domain, '@');
                assert(find_char(s, '@') == Some(66int));
                let key2 = s.subrange(0, 66);
                let rest = s.subrange(67, s.len() as int);
                assert(key2 =~= g.public_key);
                assert(rest =~= g.domain);
                lemma_find_char_absent(rest, ':');
                assert(parse_spec(s) == Ok::<AddressView, ParseError>(AddressView::Grinbox(GrinboxAddressView {
                    public_key: key2,
                    domain: rest,
                    port: None,
                })));
            }
        },
        AddressView::Keybase(k) => {
            let s = k.stripped();
            assert(s =~= k.username);
            lemma_bare_no_scheme(s);
            lemma_find_char_absent(s, '@');
            assert(s.len() != 66);
            assert(!valid_public_key(s));
            assert(parse_grinbox_spec(s) == Err::<GrinboxAddressView, ParseError>(
                ParseError::InvalidKey,
            ));
            lemma_find_char_absent(s, ':');
            assert(parse_spec(s) == Ok::<AddressView, ParseError>(AddressView::Keybase(KeybaseAddressView {
                username: s,
                topic: None,
            })));
        },
        AddressView::Https(u) => {
            lemma_https_round_trip(u);
        },
    }
}

} // verus!

verus! {

// ---------------------------------------------------------------------
// Executable helpers
// ---------------------------------------------------------------------

/// Whether `s` begins with `p`.
fn starts_with_str(s: &str, p: &str) -> (r: bool)
    ensures
        r == starts_with(s@, p@),
{
    let sl = s.unicode_len();
    let pl = p.unicode_len();
    if sl < pl {
        return false;
    }
    let mut i: usize = 0;
    while i < pl
        invariant
            0 <= i <= pl,
            pl <= sl,
            sl == s@.len(),
            pl == p@.len(),
            forall|j: int| 0 <= j < i ==> s@[j] == #[trigger] p@[j],
        decreases pl - i,
    {
        if s.get_char(i) != p.get_char(i) {
            return false;
        }
        i = i + 1;
    }
    true
}

/// First occurrence of `c` in `s`.
fn find_char_str(s: &str, c: char) -> (r: Option<usize>)
    ensures
        match r {
            Some(k) => find_char(s@, c) == Some(k as int) && k < s@.len(),
            None => find_char(s@, c) is None,
        },
{
    let n = s.unicode_len();
    let mut i: usize = 0;
    while i < n
        invariant
            0 <= i <= n,
            n == s@.len(),
            forall|j: int| 0 <= j < i ==> s@[j] != c,
        decreases n - i,
    {
        if s.get_char(i) == c {
            proof {
                lemma_find_char(s@, c);
            }
            return Some(i);
        }
        i = i + 1;
    }
    proof {
        lemma_find_char(s@, c);
    }
    None
}

/// A copy of `s[from..to]`.
fn substr(s: &str, from: usize, to: usize) -> (r: String)
    requires
        0 <= from <= to <= s@.len(),
    ensures
        r@ == s@.subrange(from as int, to as int),
{
    s.substring_char(from, to).to_owned()
}

fn is_hex_char(c: char) -> (r: bool)
    ensures
        r == hex_char(c),
{
    ('0' <= c && c <= '9') || ('a' <= c && c <= 'f')
}

fn is_dec_char(c: char) -> (r: bool)
    ensures
        r == dec_char(c),
{
    '0' <= c && c <= '9'
}

fn is_domain_char(c: char) -> (r: bool)
    ensures
        r == domain_char(c),
{
    ('a' <= c && c <= 'z') || ('0' <= c && c <= '9') || c == '.' || c == '-'
}

fn is_name_char(c: char) -> (r: bool)
    ensures
        r == name_char(c),
{
    ('a' <= c && c <= 'z') || ('0' <= c && c <= '9') || c == '_'
}

/// Whether `s` is a well-formed relay public key.
fn check_public_key(s: &str) -> (r: bool)
    ensures
        r == valid_public_key(s@),
{
    let n = s.unicode_len();
    if n != 66 {
        return false;
    }
    let mut i: usize = 0;
    while i < n
        invariant
            0 <= i <= n,
            n == s@.len(),
            n == 66,
            forall|j: int| 0 <= j < i ==> hex_char(#[trigger] s@[j]),
        decreases n - i,
    {
        if !is_hex_char(s.get_char(i)) {
            return false;
        }
        i = i + 1;
    }
    true
}

/// Whether `s` is a well-formed relay domain.
fn check_domain(s: &str) -> (r: bool)
    ensures
        r == valid_domain(s@),
{
    let n = s.unicode_len();
    if n < 1 || n > 253 {
        return false;
    }
    let mut i: usize = 0;
    while i < n
        invariant
            0 <= i <= n,
            n == s@.len(),
            1 <= n <= 253,
            forall|j: int| 0 <= j < i ==> domain_char(#[trigger] s@[j]),
        decreases n - i,
    {
        if !is_domain_char(s.get_char(i)) {
            return false;
        }
        i = i + 1;
    }
    true
}

/// Whether `s` is a well-formed chat username.
fn check_username(s: &str) -> (r: bool)
    ensures
        r == valid_username(s@),
{
    let n = s.unicode_len();
    if n < 1 || n > 16 {
        return false;
    }
    let mut i: usize = 0;
    while i < n
        invariant
            0 <= i <= n,
            n == s@.len(),
            1 <= n <= 16,
            forall|j: int| 0 <= j < i ==> name_char(#[trigger] s@[j]),
        decreases n - i,
    {
        if !is_name_char(s.get_char(i)) {
            return false;
        }
        i = i + 1;
    }
    true
}

/// Whether `s` is a well-formed chat topic.
fn check_topic(s: &str) -> (r: bool)
    ensures
        r == valid_topic(s@),
{
    let n = s.unicode_len();
    if n < 1 {
        return false;
    }
    let mut i: usize = 0;
    while i < n
        invariant
            0 <= i <= n,
            n == s@.len(),
            1 <= n,
            forall|j: int| 0 <= j < i ==> name_char(#[trigger] s@[j]),
        decreases n - i,
    {
        if !is_name_char(s.get_char(i)) {
            return false;
        }
        i = i + 1;
    }
    true
}

/// Appends one decimal digit character.
fn push_digit(out: &mut String, d: u8)
    requires
        d < 10,
    ensures
        final(out)@ == old(out)@ + seq![digit_char(d as nat)],
{
    if d == 0 {
        proof {
            reveal_strlit("0");
            assert("0"@ =~= seq![digit_char(0)]);
        }
        out.append("0");
    } else if d == 1 {
        proof {
            reveal_strlit("1");
            assert("1"@ =~= seq![digit_char(1)]);
        }
        out.append("1");
    } else if d == 2 {
        proof {
            reveal_strlit("2");
            assert("2"@ =~= seq![digit_char(2)]);
        }
        out.append("2");
    } else if d == 3 {
        proof {
            reveal_strlit("3");
            assert("3"@ =~= seq![digit_char(3)]);
        }
        out.append("3");
    } else if d == 4 {
        proof {
            reveal_strlit("4");
            assert("4"@ =~= seq![digit_char(4)]);
        }
        out.append("4");
    } else if d == 5 {
        proof {
            reveal_strlit("5");
            assert("5"@ =~= seq![digit_char(5)]);
        }
        out.append("5");
    } else if d == 6 {
        proof {
            reveal_strlit("6");
            assert("6"@ =~= seq![digit_char(6)]);
        }
        out.append("6");
    } else if d == 7 {
        proof {
            reveal_strlit("7");
            assert("7"@ =~= seq![digit_char(7)]);
        }
        out.append("7");
    } else if d == 8 {
        proof {
            reveal_strlit("8");
            assert("8"@ =~= seq![digit_char(8)]);
        }
        out.append("8");
    } else {
        proof {
            reveal_strlit("9");
            assert("9"@ =~= seq![digit_char(9)]);
        }
        out.append("9");
    }
}

/// Appends the canonical decimal spelling of `n`.
pub fn append_decimal(out: &mut String, n: u16)
    ensures
        final(out)@ == old(out)@ + dec_digits(n as nat),
    decreases n,
{
    if n < 10 {
        push_digit(out, n as u8);
    } else {
        append_decimal(out, n / 10);
        push_digit(out, (n % 10) as u8);
        proof {
            assert(old(out)@ + dec_digits((n / 10) as nat) + seq![digit_char((n % 10) as nat)]
                =~= old(out)@ + dec_digits(n as nat));
        }
    }
}

/// The numeric value of one digit character.
fn digit_of(c: char) -> (d: u16)
    requires
        dec_char(c),
    ensures
        d == digit_val(c),
{
    if c == '0' {
        0
    } else if c == '1' {
        1
    } else if c == '2' {
        2
    } else if c == '3' {
        3
    } else if c == '4' {
        4
    } else if c == '5' {
        5
    } else if c == '6' {
        6
    } else if c == '7' {
        7
    } else if c == '8' {
        8
    } else {
        9
    }
}

/// Reads a port from its digit string.
pub fn parse_port(s: &str) -> (r: Option<u16>)
    ensures
        match r {
            Some(p) => valid_port_digits(s@) && dec_num(s@) <= 65535 && p == dec_num(s@),
            None => !(valid_port_digits(s@) && dec_num(s@) <= 65535),
        },
{
    let n = s.unicode_len();
    if n < 1 || n > 5 {
        return None;
    }
    let mut val: u32 = 0;
    let mut i: usize = 0;
    while i < n
        invariant
            0 <= i <= n,
            n == s@.len(),
            1 <= n <= 5,
            forall|j: int| 0 <= j < i ==> dec_char(#[trigger] s@[j]),
            val == dec_num(s@.subrange(0, i as int)),
            i == 0 ==> val == 0,
            i == 1 ==> val <= 9,
            i == 2 ==> val <= 99,
            i == 3 ==> val <= 999,
            i == 4 ==> val <= 9999,
            i == 5 ==> val <= 99999,
        decreases n - i,
    {
        let c = s.get_char(i);
        if !is_dec_char(c) {
            return None;
        }
        let d = digit_of(c);
        proof {
            assert(s@.subrange(0, i + 1).drop_last() =~= s@.subrange(0, i as int));
            assert(s@.subrange(0, i + 1).last() == s@[i as int]);
        }
        val = val * 10 + d as u32;
        i = i + 1;
    }
    proof {
        assert(s@.subrange(0, n as int) =~= s@);
    }
    if val <= 65535 {
        Some(val as u16)
    } else {
        None
    }
}

} // verus!

verus! {

// ---------------------------------------------------------------------
// Canonical text, executable
// ---------------------------------------------------------------------

/// Whether `d` is the default relay domain.
fn is_default_domain(d: &String) -> (r: bool)
    ensures
        r == (d@ == default_domain()),
{
    let def = String::from_str("grinbox.io");
    d.eq(&def)
}

impl GrinboxAddress {
    /// The canonical text form: scheme, key, and the routing
    /// decoration whenever it carries information.
    pub fn to_text(&self) -> (r: String)
        ensures
            r@ == self@.text(),
    {
        let mut out = String::new();
        out.append("grinbox://");
        out.append(self.public_key.as_str());
        if self.port.is_some() || !is_default_domain(&self.domain) {
            out.append("@");
            out.append(self.domain.as_str());
            match self.port {
                Some(p) => {
                    out.append(":");
                    append_decimal(&mut out, p);
                },
                None => {},
            }
        }
        proof {
            assert(out@ =~= self@.text());
        }
        out
    }

    /// The stripped form: the key, plus the domain when it is not the
    /// default one; never the port.
    pub fn stripped(&self) -> (r: String)
        ensures
            r@ == self@.stripped(),
    {
        let mut out = String::new();
        out.append(self.public_key.as_str());
        if !is_default_domain(&self.domain) {
            out.append("@");
            out.append(self.domain.as_str());
        }
        proof {
            assert(out@ =~= self@.stripped());
        }
        out
    }
}

impl KeybaseAddress {
    /// The canonical text form: scheme, username, topic if any.
    pub fn to_text(&self) -> (r: String)
        ensures
            r@ == self@.text(),
    {
        let mut out = String::new();
        out.append("keybase://");
        out.append(self.username.as_str());
        match &self.topic {
            Some(t) => {
                out.append(":");
                out.append(t.as_str());
            },
            None => {},
        }
        proof {
            assert(out@ =~= self@.text());
        }
        out
    }

    /// The stripped form: the username alone.
    pub fn stripped(&self) -> (r: String)
        ensures
            r@ == self@.stripped(),
    {
        let out = self.username.clone();
        proof {
            assert(out@ =~= self@.stripped());
        }
        out
    }
}

impl Address {
    /// The canonical text form.
    pub fn to_text(&self) -> (r: String)
        ensures
            r@ == self@.text(),
    {
        match self {
            Address::Grinbox(a) => a.to_text(),
            Address::Keybase(a) => a.to_text(),
            Address::Https(a) => a.uri.clone(),
        }
    }

    /// The stripped form: canonical identity, without transport
    /// decoration.
    pub fn stripped(&self) -> (r: String)
        ensures
            r@ == self@.stripped(),
    {
        match self {
            Address::Grinbox(a) => a.stripped(),
            Address::Keybase(a) => a.stripped(),
            Address::Https(a) => a.uri.clone(),
        }
    }

    /// Which transport this address belongs to.
    pub open spec fn address_type_spec(&self) -> AddressType {
        match self {
            Address::Grinbox(_) => AddressType::Grinbox,
            Address::Keybase(_) => AddressType::Keybase,
            Address::Https(_) => AddressType::Https,
        }
    }

    /// Transport kind of this address.
    pub fn address_type(&self) -> (t: AddressType)
        ensures
            t == self.address_type_spec(),
    {
        match self {
            Address::Grinbox(_) => AddressType::Grinbox,
            Address::Keybase(_) => AddressType::Keybase,
            Address::Https(_) => AddressType::Https,
        }
    }

    /// Two addresses name the same counterparty exactly when their
    /// stripped canonical forms are equal: port and topic differences
    /// do not affect identity, only routing.
    pub fn same_identity(&self, other: &Address) -> (r: bool)
        ensures
            r == (self@.stripped() == other@.stripped()),
    {
        let a = self.stripped();
        let b = other.stripped();
        a.eq(&b)
    }
}

// ---------------------------------------------------------------------
// Parsing, executable
// ---------------------------------------------------------------------

/// Every address the spec-level parser accepts is well formed.
proof fn lemma_parse_spec_wf(s: Seq<char>)
    ensures
        parse_spec(s) matches Ok(a) ==> a.wf(),
{
    reveal_strlit("grinbox.io");
    assert(valid_domain(default_domain())) by {
        assert forall|i: int| 0 <= i < default_domain().len() implies domain_char(
            #[trigger] default_domain()[i],
        ) by {
            assert(default_domain().len() == 10);
        }
    }
}

/// Parses the tail of a relay address (after any scheme).
fn parse_grinbox_tail(t: &str) -> (r: Result<GrinboxAddress, ParseError>)
    ensures
        match r {
            Ok(a) => parse_grinbox_spec(t@) == Ok::<GrinboxAddressView, ParseError>(a@),
            Err(e) => parse_grinbox_spec(t@) == Err::<GrinboxAddressView, ParseError>(e),
        },
{
    let n = t.unicode_len();
    match find_char_str(t, '@') {
        None => {
            if check_public_key(t) {
                Ok(
                    GrinboxAddress {
                        public_key: t.to_owned(),
                        domain: String::from_str("grinbox.io"),
                        port: None,
                    },
                )
            } else {
                Err(ParseError::InvalidKey)
            }
        },
        Some(i) => {
            let key = substr(t, 0, i);
            let rest = substr(t, i + 1, n);
            if !check_public_key(key.as_str()) {
                return Err(ParseError::InvalidKey);
            }
            let rl = rest.as_str().unicode_len();
            match find_char_str(rest.as_str(), ':') {
                None => {
                    if check_domain(rest.as_str()) {
                        Ok(GrinboxAddress { public_key: key, domain: rest, port: None })
                    } else {
                        Err(ParseError::InvalidDomain)
                    }
                },
                Some(j) => {
                    let domain = substr(rest.as_str(), 0, j);
                    let digits = substr(rest.as_str(), j + 1, rl);
                    if !check_domain(domain.as_str()) {
                        return Err(ParseError::InvalidDomain);
                    }
                    match parse_port(digits.as_str()) {
                        Some(p) => Ok(
                            GrinboxAddress { public_key: key, domain, port: Some(p) },
                        ),
                        None => Err(ParseError::InvalidPort),
                    }
                },
            }
        },
    }
}

/// Parses the tail of a chat address (after any scheme).
fn parse_keybase_tail(t: &str) -> (r: Result<KeybaseAddress, ParseError>)
    ensures
        match r {
            Ok(a) => parse_keybase_spec(t@) == Ok::<KeybaseAddressView, ParseError>(a@),
            Err(e) => parse_keybase_spec(t@) == Err::<KeybaseAddressView, ParseError>(e),
        },
{
    let n = t.unicode_len();
    match find_char_str(t, ':') {
        None => {
            if check_username(t) {
                Ok(KeybaseAddress { username: t.to_owned(), topic: None })
            } else {
                Err(ParseError::InvalidUsername)
            }
        },
        Some(i) => {
            let user = substr(t, 0, i);
            let topic = substr(t, i + 1, n);
            if !check_username(user.as_str()) {
                Err(ParseError::InvalidUsername)
            } else if check_topic(topic.as_str()) {
                Ok(KeybaseAddress { username: user, topic: Some(topic) })
            } else {
                Err(ParseError::InvalidTopic)
            }
        },
    }
}

impl Address {
    /// Parses an address from text. Tries each known scheme in a fixed
    /// priority order; the first scheme whose grammar matches wins, and
    /// text matching no scheme is a parse error. The result is exactly
    /// what the specification-level parser gives, and it is well
    /// formed — so every parsed address round-trips through its
    /// canonical text form.
    pub fn parse(s: &str) -> (r: Result<Address, ParseError>)
        ensures
            match r {
                Ok(a) => parse_spec(s@) == Ok::<AddressView, ParseError>(a@) && a.wf(),
                Err(e) => parse_spec(s@) == Err::<AddressView, ParseError>(e),
            },
    {
        proof {
            lemma_parse_spec_wf(s@);
            reveal_strlit("grinbox://");
            reveal_strlit("keybase://");
            reveal_strlit("https://");
            reveal_strlit("http://");
        }
        let n = s.unicode_len();
        if starts_with_str(s, "grinbox://") {
            let tail = substr(s, 10, n);
            proof {
                assert(tail@ =~= s@.skip(grinbox_scheme().len() as int));
            }
            match parse_grinbox_tail(tail.as_str()) {
                Ok(a) => Ok(Address::Grinbox(a)),
                Err(e) => Err(e),
            }
        } else if starts_with_str(s, "keybase://") {
            let tail = substr(s, 10, n);
            proof {
                assert(tail@ =~= s@.skip(keybase_scheme().len() as int));
            }
            match parse_keybase_tail(tail.as_str()) {
                Ok(a) => Ok(Address::Keybase(a)),
                Err(e) => Err(e),
            }
        } else if starts_with_str(s, "https://") {
            if n > 8 {
                Ok(Address::Https(HttpsAddress { uri: s.to_owned() }))
            } else {
                Err(ParseError::InvalidUrl)
            }
        } else if starts_with_str(s, "http://") {
            if n > 7 {
                Ok(Address::Https(HttpsAddress { uri: s.to_owned() }))
            } else {
                Err(ParseError::InvalidUrl)
            }
        } else {
            match parse_grinbox_tail(s) {
                Ok(a) => Ok(Address::Grinbox(a)),
                Err(_) => match parse_keybase_tail(s) {
                    Ok(a) => Ok(Address::Keybase(a)),
                    Err(_) => Err(ParseError::UnknownScheme),
                },
            }
        }
    }
}

} // verus!

verus! {

impl GrinboxAddress {
    /// An exact copy.
    pub fn duplicate(&self) -> (r: Self)
        ensures
            r == *self,
    {
        GrinboxAddress {
            public_key: self.public_key.clone(),
            domain: self.domain.clone(),
            port: match self.port {
                Some(p) => Some(p),
                None => None,
            },
        }
    }
}

impl KeybaseAddress {
    /// An exact copy.
    pub fn duplicate(&self) -> (r: Self)
        ensures
            r == *self,
    {
        KeybaseAddress { username: self.username.clone(), topic: match &self.topic {
            Some(t) => Some(t.clone()),
            None => None,
        } }
    }
}

} // verus!
