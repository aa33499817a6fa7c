//! Relay URLs.
use crate::encoding;
use crate::primitives;
use crate::seqs;
use crate::text;
use vstd::prelude::*;

verus! {

/// The relay on this machine that development uses.
pub const DEFAULT_DEV_SERVER: &'static str = "ws://127.0.0.1:8787/ws";

/// The parts of a WebSocket URL that a connection needs.
pub struct ParsedWsUrl {
    pub scheme: String,
    pub host: String,
    pub port: u16,
}

/// The parts of a WebSocket URL.
#[verifier::ext_equal]
pub struct ParsedWsUrlView {
    pub scheme: Seq<char>,
    pub host: Seq<char>,
    pub port: u16,
}

impl View for ParsedWsUrl {
    type V = ParsedWsUrlView;

    open spec fn view(&self) -> ParsedWsUrlView {
        ParsedWsUrlView { scheme: self.scheme@, host: self.host@, port: self.port }
    }
}

/// The hosts of this machine.
pub open spec fn local_host(host: Seq<char>) -> bool {
    host == "127.0.0.1"@ || host == "localhost"@ || host == "[::1]"@ || host == "::1"@
}

impl ParsedWsUrl {
    /// Whether the host is this machine.
    pub fn is_local_dev_host(&self) -> (r: bool)
        ensures
            r == local_host(self@.host),
    {
        let h = self.host.as_str();
        text::same_text(h, "127.0.0.1") || text::same_text(h, "localhost") || text::same_text(
            h,
            "[::1]",
        ) || text::same_text(h, "::1")
    }
}

/// The port of a scheme.
pub open spec fn default_port(scheme: Seq<char>) -> u16 {
    if scheme == "wss"@ {
        443
    } else {
        80
    }
}

/// The port that the text behind a bracketed host names: a colon and a number.
pub open spec fn bracket_port(tail: Seq<char>) -> Option<nat> {
    if text::has_prefix(tail, ":"@) {
        text::parsed(tail.skip(1), 65535)
    } else {
        None
    }
}

/// The parts of the host and port of a URL.
pub open spec fn parsed_authority(scheme: Seq<char>, authority: Seq<char>) -> Result<
    ParsedWsUrlView,
    Seq<char>,
> {
    if authority.len() == 0 {
        Err("server URL is missing a host"@)
    } else if authority[0] == '[' {
        match text::first_pos(authority, ']') {
            None => Err("invalid IPv6 host"@),
            Some(e) => Ok(
                ParsedWsUrlView {
                    scheme,
                    host: authority.take(e + 1),
                    port: match bracket_port(authority.skip(e + 1)) {
                        Some(n) => n as u16,
                        None => default_port(scheme),
                    },
                },
            ),
        }
    } else {
        match text::last_pos(authority, ':') {
            Some(i) => match text::parsed(authority.skip(i + 1), 65535) {
                Some(n) => Ok(
                    ParsedWsUrlView { scheme, host: authority.take(i), port: n as u16 },
                ),
                None => Err("invalid server port"@),
            },
            None => Ok(
                ParsedWsUrlView { scheme, host: authority, port: default_port(scheme) },
            ),
        }
    }
}

/// The scheme of a WebSocket URL and what follows it.
pub open spec fn scheme_split(url: Seq<char>) -> Option<(Seq<char>, Seq<char>)> {
    if text::has_prefix(url, "ws://"@) {
        Some(("ws"@, url.skip(5)))
    } else if text::has_prefix(url, "wss://"@) {
        Some(("wss"@, url.skip(6)))
    } else {
        None
    }
}

/// The parts of a WebSocket URL, or why it is none.
pub open spec fn parsed_ws_url(url: Seq<char>) -> Result<ParsedWsUrlView, Seq<char>> {
    match scheme_split(url) {
        None => Err("server URL must start with ws:// or wss://"@),
        Some((scheme, rest)) => parsed_authority(scheme, text::before(rest, '/')),
    }
}

fn split_scheme(url: &str) -> (r: Option<(String, String)>)
    ensures
        seqs::opt(r) == scheme_split(url@),
{
    proof {
        reveal_strlit("ws://");
        reveal_strlit("wss://");
    }
    if let Some(rest) = text::strip_prefix(url, "ws://") {
        return Some(("ws".to_string(), rest));
    }
    if let Some(rest) = text::strip_prefix(url, "wss://") {
        return Some(("wss".to_string(), rest));
    }
    None
}

fn port_of_scheme(scheme: &str) -> (r: u16)
    ensures
        r == default_port(scheme@),
{
    if text::same_text(scheme, "wss") {
        443
    } else {
        80
    }
}

fn port_behind_bracket(tail: &str) -> (r: Option<u64>)
    ensures
        match r {
            Some(n) => bracket_port(tail@) == Some(n as nat) && n <= 65535,
            None => bracket_port(tail@) == None::<nat>,
        },
{
    proof {
        reveal_strlit(":");
    }
    match text::strip_prefix(tail, ":") {
        Some(p) => text::parse_decimal(p.as_str(), 65535),
        None => None,
    }
}

fn parse_authority(scheme: String, authority: String) -> (r: Result<ParsedWsUrl, String>)
    ensures
        seqs::outcome(r) == parsed_authority(scheme@, authority@),
{
    let v = text::chars_of(authority.as_str());
    let n: usize = v.len();
    if n == 0 {
        return Err("server URL is missing a host".to_string());
    }
    if v[0] == '[' {
        return match text::find_char(&v, ']') {
            None => Err("invalid IPv6 host".to_string()),
            Some(e) => {
                let host = text::string_of(&v, 0, e + 1);
                let tail = text::string_of(&v, e + 1, n);
                proof {
                    assert(host@ =~= authority@.take(e + 1));
                    assert(tail@ =~= authority@.skip(e + 1));
                }
                let port: u16 = match port_behind_bracket(tail.as_str()) {
                    Some(p) => p as u16,
                    None => port_of_scheme(scheme.as_str()),
                };
                Ok(ParsedWsUrl { scheme, host, port })
            },
        };
    }
    match text::rsplit_once(authority.as_str(), ':') {
        Some((host, port)) => match text::parse_decimal(port.as_str(), 65535) {
            Some(p) => Ok(ParsedWsUrl { scheme, host, port: p as u16 }),
            None => Err("invalid server port".to_string()),
        },
        None => {
            let port: u16 = port_of_scheme(scheme.as_str());
            Ok(ParsedWsUrl { scheme, host: authority, port })
        },
    }
}

/// The scheme, the host and the port of a WebSocket URL.
pub fn parse_ws_url(url: &str) -> (r: Result<ParsedWsUrl, String>)
    ensures
        seqs::outcome(r) == parsed_ws_url(url@),
{
    match split_scheme(url) {
        None => Err("server URL must start with ws:// or wss://".to_string()),
        Some((scheme, rest)) => {
            let authority = text::until_char(rest.as_str(), '/');
            parse_authority(scheme, authority)
        },
    }
}

/// What the check of a URL says.
pub open spec fn checked_ws_url(url: Seq<char>) -> Result<(), Seq<char>> {
    if text::has_prefix(url, "ws://"@) || text::has_prefix(url, "wss://"@) {
        Ok(())
    } else {
        Err("server URL must start with ws:// or wss://"@)
    }
}

/// Refuses what is no WebSocket URL.
pub fn validate_ws_url(url: &str) -> (r: Result<(), String>)
    ensures
        seqs::verdict(r) == checked_ws_url(url@),
{
    if text::starts_with(url, "ws://") || text::starts_with(url, "wss://") {
        Ok(())
    } else {
        Err("server URL must start with ws:// or wss://".to_string())
    }
}

/// How to reach a relay.
pub enum Dial {
    /// Through Tor, to an onion service.
    Onion { host: String, port: u16 },
    /// Directly, to this machine.
    Direct,
}

/// How to reach a relay.
pub enum DialView {
    Onion { host: Seq<char>, port: u16 },
    Direct,
}

impl View for Dial {
    type V = DialView;

    open spec fn view(&self) -> DialView {
        match self {
            Dial::Onion { host, port } => DialView::Onion { host: host@, port: *port },
            Dial::Direct => DialView::Direct,
        }
    }
}

/// How to reach the relay at a URL: onion hosts through Tor, this machine directly, nothing else.
/// A lasting connection to an onion host must use the scheme `ws`.
pub open spec fn dialled(url: Seq<char>, lasting: bool) -> Result<DialView, Seq<char>> {
    match parsed_ws_url(url) {
        Err(e) => Err(e),
        Ok(p) => if text::has_suffix(p.host, ".onion"@) {
            if lasting && p.scheme != "ws"@ {
                Err(
                    "onion WebSocket URLs must use ws:// because Tor already provides the transport privacy; wss:// onion TLS is not implemented yet"@,
                )
            } else {
                Ok(DialView::Onion { host: p.host, port: p.port })
            }
        } else if local_host(p.host) {
            Ok(DialView::Direct)
        } else {
            Err(
                "direct WebSocket is only allowed for localhost development. Use a .onion server URL for real transport."@,
            )
        },
    }
}

/// How to reach the relay at a URL.
pub fn dial(url: &str, lasting: bool) -> (r: Result<Dial, String>)
    ensures
        seqs::outcome(r) == dialled(url@, lasting),
{
    match parse_ws_url(url) {
        Err(e) => Err(e),
        Ok(p) => {
            if text::ends_with(p.host.as_str(), ".onion") {
                if lasting && !text::same_text(p.scheme.as_str(), "ws") {
                    return Err(
                        "onion WebSocket URLs must use ws:// because Tor already provides the transport privacy; wss:// onion TLS is not implemented yet".to_string(),
                    );
                }
                return Ok(Dial::Onion { host: p.host, port: p.port });
            }
            if p.is_local_dev_host() {
                Ok(Dial::Direct)
            } else {
                Err(
                    "direct WebSocket is only allowed for localhost development. Use a .onion server URL for real transport.".to_string(),
                )
            }
        },
    }
}

/// The URL under which a relay is known.
pub open spec fn normalized(url: Seq<char>) -> Seq<char> {
    let raw = text::trimmed(url);
    if raw.len() == 0 {
        DEFAULT_DEV_SERVER@
    } else if text::has_suffix(raw, "/ws"@) {
        raw
    } else if text::has_prefix(raw, "ws://"@) || text::has_prefix(raw, "wss://"@) {
        text::without_trailing(raw, '/') + "/ws"@
    } else if text::has_suffix(raw, ".onion"@) {
        "ws://"@ + raw + "/ws"@
    } else {
        raw
    }
}

/// The URL under which a relay is known; without one, that of the development relay.
pub open spec fn normalized_opt(url: Option<Seq<char>>) -> Seq<char> {
    match url {
        Some(u) => normalized(u),
        None => normalized(DEFAULT_DEV_SERVER@),
    }
}

/// The URL under which the relay at a given URL is known.
pub fn normalize_url(url: &str) -> (r: String)
    ensures
        r@ == normalized(url@),
{
    let raw = text::trim(url);
    if raw.as_str().is_empty() {
        return DEFAULT_DEV_SERVER.to_string();
    }
    if text::ends_with(raw.as_str(), "/ws") {
        raw
    } else if text::starts_with(raw.as_str(), "ws://") || text::starts_with(
        raw.as_str(),
        "wss://",
    ) {
        let base = text::trim_end_char(raw.as_str(), '/');
        text::concat2(base.as_str(), "/ws")
    } else if text::ends_with(raw.as_str(), ".onion") {
        text::concat3("ws://", raw.as_str(), "/ws")
    } else {
        raw
    }
}

/// The URL under which a relay is known; without one, that of the development relay.
pub fn normalize_server_url(url: Option<String>) -> (r: String)
    ensures
        r@ == normalized_opt(seqs::opt(url)),
{
    match url {
        Some(u) => normalize_url(u.as_str()),
        None => normalize_url(DEFAULT_DEV_SERVER),
    }
}

/// The host of a WebSocket URL in lower case, where it is a plain name.
pub open spec fn host_of(url: Seq<char>) -> Option<Seq<char>> {
    match scheme_split(url) {
        None => None,
        Some((_, rest)) => {
            let authority = text::trimmed(text::before(rest, '/'));
            if authority.len() == 0 || authority.contains('@') || authority[0] == '[' {
                None
            } else {
                let name = match text::last_pos(authority, ':') {
                    Some(i) => authority.take(i),
                    None => authority,
                };
                let host = text::lowered(text::trimmed(name));
                if host.len() == 0 {
                    None
                } else {
                    Some(host)
                }
            }
        },
    }
}

/// The host of a WebSocket URL in lower case, where it is a plain name.
pub fn ws_url_host(url: &str) -> (r: Option<String>)
    ensures
        seqs::opt(r) == host_of(url@),
{
    match split_scheme(url) {
        None => None,
        Some((_, rest)) => {
            let cut = text::until_char(rest.as_str(), '/');
            let authority = text::trim(cut.as_str());
            let v = text::chars_of(authority.as_str());
            if v.len() == 0 || text::contains_char(authority.as_str(), '@') || v[0] == '[' {
                return None;
            }
            let name = match text::rsplit_once(authority.as_str(), ':') {
                Some((host, _)) => host,
                None => authority,
            };
            let bare = text::trim(name.as_str());
            let host = text::lower_text(bare.as_str());
            if host.as_str().is_empty() {
                None
            } else {
                Some(host)
            }
        },
    }
}

/// The URL of an onion service over `ws`.
pub open spec fn onion_url(url: Seq<char>) -> bool {
    let n = normalized(url);
    text::has_prefix(n, "ws://"@) && match host_of(n) {
        Some(h) => text::has_suffix(h, ".onion"@),
        None => false,
    }
}

/// Whether the URL is that of an onion service over `ws`.
pub fn is_private_onion_ws_url(url: &str) -> (r: bool)
    ensures
        r == onion_url(url@),
{
    let n = normalize_url(url);
    if !text::starts_with(n.as_str(), "ws://") {
        return false;
    }
    match ws_url_host(n.as_str()) {
        Some(h) => text::ends_with(h.as_str(), ".onion"),
        None => false,
    }
}

/// The identifier of the relay at a URL.
pub open spec fn server_id(url: Seq<char>) -> Seq<char> {
    "srv_"@ + encoding::hex_text(primitives::sha256(vstd::utf8::encode_utf8(url)).take(8))
}

/// The identifier of the relay at a URL: the first eight bytes of its SHA-256 digest.
pub fn server_id_for_url(url: &str) -> (r: String)
    ensures
        r@ == server_id(url@),
{
    let mut d = primitives::digest(url.as_bytes());
    d.truncate(8);
    proof {
        assert(d@ =~= primitives::sha256(vstd::utf8::encode_utf8(url@)).take(8));
    }
    let tail = encoding::to_hex(d.as_slice());
    text::concat2("srv_", tail.as_str())
}

proof fn ends_clean(s: Seq<char>)
    requires
        s.len() > 0,
        !text::is_white(s[0]),
        !text::is_white(s.last()),
    ensures
        text::trimmed(s) == s,
{
}

proof fn trimmed_ends(s: Seq<char>)
    requires
        text::trimmed(s).len() > 0,
    ensures
        !text::is_white(text::trimmed(s)[0]),
        !text::is_white(text::trimmed(s).last()),
{
    text::trim_twice(s);
    let t = text::trimmed(s);
    if text::is_white(t[0]) {
        let u = text::trim_start(t);
        text::trim_lengths(t.drop_first());
        text::trim_lengths(u);
    } else if text::is_white(t.last()) {
        assert(text::trim_start(t) == t);
        text::trim_lengths(t.drop_last());
    }
}

/// Normalising a normalised URL changes nothing.
pub proof fn normalized_twice(url: Seq<char>)
    ensures
        normalized(normalized(url)) == normalized(url),
{
    reveal_strlit("ws://127.0.0.1:8787/ws");
    reveal_strlit("/ws");
    reveal_strlit("ws://");
    reveal_strlit("wss://");
    let raw = text::trimmed(url);
    let n = normalized(url);
    if raw.len() == 0 {
        assert(n.skip(n.len() - 3) =~= "/ws"@);
        ends_clean(n);
    } else {
        trimmed_ends(url);
        if text::has_suffix(raw, "/ws"@) {
            ends_clean(raw);
        } else if text::has_prefix(raw, "ws://"@) || text::has_prefix(raw, "wss://"@) {
            let base = text::without_trailing(raw, '/');
            text::trailing_prefix(raw, '/');
            assert(raw[0] == 'w') by {
                assert(raw.take(5)[0] == raw[0]);
                assert(raw.len() >= 6 ==> raw.take(6)[0] == raw[0]);
                assert("ws://"@[0] == 'w');
                assert("wss://"@[0] == 'w');
            }
            if base.len() > 0 {
                assert(base[0] == raw[0]);
                assert(n[0] == 'w');
            } else {
                assert(n[0] == '/');
            }
            assert(n.last() == 's');
            ends_clean(n);
            assert(n.skip(n.len() - 3) =~= "/ws"@);
        } else if text::has_suffix(raw, ".onion"@) {
            assert(n[0] == 'w');
            assert(n.last() == 's');
            ends_clean(n);
            assert(n.skip(n.len() - 3) =~= "/ws"@);
        } else {
            ends_clean(raw);
        }
    }
}

} // verus!
