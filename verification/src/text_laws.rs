//! What holds of texts, addresses, padding and proofs of work.
use crate::contact_laws;
use crate::encoding;
use crate::ids;
use crate::link_laws;
use crate::padding;
use crate::pow;
use crate::primitives;
use crate::safety;
use crate::seqs;
use crate::text;
use crate::urls;
use crate::urls::DialView;
use crate::urls::ParsedWsUrlView;
use vstd::prelude::*;
use vstd::utf8::*;

verus! {

// ---------------------------------------------------------------------------------------------
// Texts.
// ---------------------------------------------------------------------------------------------

/// All that stands before and after a part is white space, and the part neither begins nor ends
/// with it.
pub open spec fn core_of(s: Seq<char>, a: int, b: int) -> bool {
    &&& 0 <= a <= b <= s.len()
    &&& forall|i: int| 0 <= i < a ==> text::is_white(#[trigger] s[i])
    &&& forall|i: int| b <= i < s.len() ==> text::is_white(#[trigger] s[i])
    &&& a < b ==> !text::is_white(s[a]) && !text::is_white(s[b - 1])
}

/// Trimming takes away exactly the white space around a text.
pub proof fn trimming_takes_away_the_space_around(s: Seq<char>)
    ensures
        exists|a: int, b: int| #[trigger] core_of(s, a, b) && text::trimmed(s) == s.subrange(a, b),
{
    let a = leading(s);
    let t = text::trim_start(s);
    let n = trailing(t);
    let b = a + n;
    assert(text::trimmed(s) == t.take(n));
    assert(t.take(n) =~= s.subrange(a, b));
    assert(core_of(s, a, b)) by {
        assert forall|i: int| b <= i < s.len() implies text::is_white(#[trigger] s[i]) by {
            assert(t[i - a] == s[i]);
        }
        if a < b {
            assert(t[0] == s[a]);
            assert(t[n - 1] == s[b - 1]);
        }
    }
}

proof fn leading(s: Seq<char>) -> (a: int)
    ensures
        0 <= a <= s.len(),
        text::trim_start(s) == s.skip(a),
        forall|i: int| 0 <= i < a ==> text::is_white(#[trigger] s[i]),
        a < s.len() ==> !text::is_white(s[a]),
    decreases s.len(),
{
    if s.len() > 0 && text::is_white(s[0]) {
        let r = s.drop_first();
        let a = leading(r);
        assert(s.skip(a + 1) =~= r.skip(a));
        assert forall|i: int| 0 <= i < a + 1 implies text::is_white(#[trigger] s[i]) by {
            if i > 0 {
                assert(r[i - 1] == s[i]);
            }
        }
        a + 1
    } else {
        assert(s.skip(0) =~= s);
        0
    }
}

proof fn trailing(s: Seq<char>) -> (n: int)
    ensures
        0 <= n <= s.len(),
        text::trim_end(s) == s.take(n),
        forall|i: int| n <= i < s.len() ==> text::is_white(#[trigger] s[i]),
        n > 0 ==> !text::is_white(s[n - 1]),
    decreases s.len(),
{
    if s.len() > 0 && text::is_white(s.last()) {
        let r = s.drop_last();
        let n = trailing(r);
        assert(s.take(n) =~= r.take(n));
        assert forall|i: int| n <= i < s.len() implies text::is_white(#[trigger] s[i]) by {
            if i < r.len() {
                assert(r[i] == s[i]);
            }
        }
        n
    } else {
        assert(s.take(s.len() as int) =~= s);
        s.len() as int
    }
}

/// A character is taken off the end of a text as often as it stands there, and nothing else is.
pub proof fn trailing_characters_are_taken_off(s: Seq<char>, c: char)
    ensures
        ({
            let w = text::without_trailing(s, c);
            &&& w.is_prefix_of(s)
            &&& forall|i: int| w.len() <= i < s.len() ==> #[trigger] s[i] == c
            &&& w.len() > 0 ==> w.last() != c
        }),
    decreases s.len(),
{
    if s.len() > 0 && s.last() == c {
        let r = s.drop_last();
        trailing_characters_are_taken_off(r, c);
        let w = text::without_trailing(s, c);
        assert(w =~= s.take(w.len() as int)) by {
            assert(w == r.take(w.len() as int));
        }
        assert forall|i: int| w.len() <= i < s.len() implies #[trigger] s[i] == c by {
            if i < r.len() {
                assert(r[i] == s[i]);
            }
        }
    } else {
        assert(s.take(s.len() as int) =~= s);
    }
}

// ---------------------------------------------------------------------------------------------
// Tokens and digests.
// ---------------------------------------------------------------------------------------------

/// What the relay takes for a mailbox, a token and a handle.
pub proof fn shapes_are_plain(s: Seq<char>)
    ensures
        ids::token_shape(s, 16) <==> link_laws::well_formed(s),
        ids::recipient_shape(s) <==> "mbx_"@.is_prefix_of(s) && 36 <= s.len() <= 128
            && link_laws::plain_text(s),
        ids::checked_recipient(s) is Ok <==> link_laws::mailbox(s),
        ids::checked_bundle(s) is Ok <==> link_laws::well_formed(s),
{
    link_laws::shapes(s, s);
    contact_laws::prefix_of(s, "mbx_"@);
}

/// A token is stored as its SHA-256 digest in hex, and its digest is all that is compared.
pub proof fn tokens_are_stored_as_digests(t: Seq<char>)
    ensures
        ids::token_digest(t) == encoding::hex_text(primitives::sha256(encode_utf8(t))),
{
}

/// The safety number of two identities is the start of one digest over both, the smaller first: 32
/// hex digits that both sides compute alike.
pub proof fn safety_numbers_cover_both_identities(a: Seq<u8>, b: Seq<u8>)
    ensures
        ({
            let label = encode_utf8("axeno-safety-number-v1"@);
            let n = safety::safety_number(a, b);
            &&& n == encoding::hex_text(primitives::sha256(label + a + b).take(16)) || n
                == encoding::hex_text(primitives::sha256(label + b + a).take(16))
            &&& n == safety::safety_number(b, a)
            &&& a.len() > 0 && b.len() > 0 && a[0] < b[0] ==> n == encoding::hex_text(
                primitives::sha256(label + a + b).take(16),
            )
        }),
{
    safety::safety_numbers_are_mutual(a, b);
}

/// A key for one purpose is a digest over a fixed label, the purpose and the root key.
pub proof fn keys_are_derived_for_one_purpose(root: Seq<u8>, label: Seq<char>)
    ensures
        safety::domain_key(root, label) == primitives::sha256(
            encode_utf8("axeno-domain-separated-key-v1"@) + encode_utf8(label) + root,
        ),
        safety::store_key(root) == safety::domain_key(root, "message-store"@),
{
}

// ---------------------------------------------------------------------------------------------
// Proof of work.
// ---------------------------------------------------------------------------------------------

/// A proof for a mailbox names a window of ten minutes and a nonce. It is accepted in its window
/// and the next one, exactly where the digest over mailbox, window and nonce begins with two zero
/// bytes.
pub proof fn proofs_of_work_are_checked(
    recipient: Seq<char>,
    window: u64,
    nonce: Seq<char>,
    current: u64,
)
    ensures
        pow::pow_accepted(recipient, text::decimal(window as nat) + ":"@ + nonce, current) <==> (
        window == current || window + 1 == current) && ({
            let d = primitives::sha256(
                encode_utf8(recipient + ":"@ + text::decimal(window as nat) + ":"@ + nonce),
            );
            d[0] == 0 && d[1] == 0
        }),
{
    reveal_strlit(":");
    let w = text::decimal(window as nat);
    let p = w + ":"@ + nonce;
    let i = w.len() as int;
    text::decimal_digits(window as nat);
    text::parse_of_decimal(window as nat, u64::MAX as nat);
    assert(p[i] == ':');
    assert forall|j: int| 0 <= j < i implies !text::is_char(':')(#[trigger] p[j]) by {
        assert(p[j] == w[j]);
        assert(w.contains(w[j]));
    }
    seqs::find_is(p, text::is_char(':'), i);
    assert(p.take(i) =~= w);
    assert(p.skip(i + 1) =~= nonce);
}

/// A text without a colon proves nothing.
pub proof fn proofs_of_work_name_their_window(recipient: Seq<char>, p: Seq<char>, current: u64)
    requires
        !p.contains(':'),
    ensures
        !pow::pow_accepted(recipient, p, current),
{
    seqs::find_spec(p, text::is_char(':'));
}

/// A window lasts for ten minutes.
pub proof fn windows_last_for_ten_minutes(now_ms: u64)
    ensures
        pow::pow_window(now_ms) * 600_000 <= now_ms < (pow::pow_window(now_ms) + 1) * 600_000,
{
}

// ---------------------------------------------------------------------------------------------
// Padding.
// ---------------------------------------------------------------------------------------------

/// The sizes that padded messages have.
pub open spec fn allowed_size(n: nat) -> bool {
    n == 512 || n == 1024 || n == 2048 || n == 4096 || n == 8192 || n == 16384 || n == 32768 || (n
        > 0 && n % 65536 == 0)
}

/// A message is padded to the smallest allowed size that holds it and its length.
pub proof fn padding_goes_to_the_next_size(raw: Seq<u8>, noise: Seq<u8>, other: nat)
    requires
        noise.len() == padding::noise_len(raw.len()),
    ensures
        allowed_size(padding::padded(raw, noise).len()),
        padding::padded(raw, noise).len() >= raw.len() + 4,
        allowed_size(other) && other >= raw.len() + 4 ==> padding::padded(raw, noise).len()
            <= other,
{
    let n = raw.len() + 4;
    padding::padding_hides_the_length(raw, noise);
    if n > 32768 && allowed_size(other) && other >= n {
        let k = (n + 65535) / 65536;
        let m = other / 65536;
        assert(other == m * 65536);
        assert(k <= m) by {
            assert(n <= m * 65536);
        }
        assert(k * 65536 <= m * 65536);
    }
}

/// A padded message begins with its length in four bytes, the highest first, and the message.
pub proof fn padded_messages_begin_with_their_length(raw: Seq<u8>, noise: Seq<u8>, i: int)
    requires
        raw.len() <= u32::MAX,
    ensures
        ({
            let b = padding::padded(raw, noise);
            &&& b.len() == 4 + raw.len() + noise.len()
            &&& b[0] * 16777216 + b[1] * 65536 + b[2] * 256 + b[3] == raw.len()
            &&& 0 <= i < raw.len() ==> b[4 + i] == raw[i]
        }),
{
    let n = raw.len();
    assert(n / 16777216 % 256 == n / 16777216);
    assert(n == n / 16777216 * 16777216 + n / 65536 % 256 * 65536 + n / 256 % 256 * 256 + n % 256);
}

/// Reading a padded message gives the part that its length names, where that part is there.
pub proof fn padding_is_read_by_its_length(b: Seq<u8>)
    ensures
        ({
            let n = b[0] * 16777216 + b[1] * 65536 + b[2] * 256 + b[3];
            &&& padding::unpadded(b) is Ok <==> b.len() >= 4 && 4 + n <= b.len()
            &&& padding::unpadded(b) is Ok ==> padding::unpadded(b)->Ok_0 == b.subrange(4, 4 + n)
            &&& padding::unpadded_or_same(b) == if b.len() >= 4 && 4 + n <= b.len() {
                b.subrange(4, 4 + n)
            } else {
                b
            }
        }),
{
}

// ---------------------------------------------------------------------------------------------
// Addresses.
// ---------------------------------------------------------------------------------------------

/// A url is completed: nothing is the local relay, a bare onion name gets its scheme and path, a
/// WebSocket url its path. One that has the path is taken as it is. Space around it does not count.
pub proof fn urls_are_completed(url: Seq<char>)
    ensures
        ({
            let raw = text::trimmed(url);
            let n = urls::normalized(url);
            &&& raw.len() == 0 ==> n == "ws://127.0.0.1:8787/ws"@
            &&& raw.len() > 0 && "/ws"@.is_suffix_of(raw) ==> n == raw
            &&& raw.len() > 0 && !"/ws"@.is_suffix_of(raw) && link_laws::websocket(raw)
                ==> "/ws"@.is_suffix_of(n) && n.take(n.len() - 3).is_prefix_of(raw) && (forall|
                i: int,
            | n.len() - 3 <= i < raw.len() ==> #[trigger] raw[i] == '/')
            &&& raw.len() > 0 && !"/ws"@.is_suffix_of(raw) && !link_laws::websocket(raw)
                && ".onion"@.is_suffix_of(raw) ==> n == "ws://"@ + raw + "/ws"@
            &&& raw.len() > 0 && !"/ws"@.is_suffix_of(raw) && !link_laws::websocket(raw)
                && !".onion"@.is_suffix_of(raw) ==> n == raw
        }),
{
    let raw = text::trimmed(url);
    suffix_of(raw, "/ws"@);
    suffix_of(raw, ".onion"@);
    contact_laws::prefix_of(raw, "ws://"@);
    contact_laws::prefix_of(raw, "wss://"@);
    trailing_characters_are_taken_off(raw, '/');
    reveal_strlit("/ws");
    let w = text::without_trailing(raw, '/');
    let n = w + "/ws"@;
    assert(n.take(n.len() - 3) =~= w);
    assert(n.skip(n.len() - 3) =~= "/ws"@);
    suffix_of(n, "/ws"@);
}

proof fn suffix_of(s: Seq<char>, p: Seq<char>)
    ensures
        text::has_suffix(s, p) == p.is_suffix_of(s),
{
    if p.len() <= s.len() {
        assert(s.skip(s.len() - p.len()) =~= s.subrange(s.len() - p.len(), s.len() as int));
    }
}

/// The name of a host: no slash, no colon and no bracket in front.
pub open spec fn host_name(h: Seq<char>) -> bool {
    h.len() > 0 && !h.contains('/') && !h.contains(':') && h[0] != '['
}

proof fn cut_at(s: Seq<char>, c: char, t: Seq<char>)
    requires
        !s.contains(c),
    ensures
        text::before(s.push(c) + t, c) == s,
        text::before(s, c) == s,
{
    let all = s.push(c) + t;
    let i = s.len() as int;
    assert(all[i] == c);
    assert forall|j: int| 0 <= j < i implies !text::is_char(c)(#[trigger] all[j]) by {
        assert(all[j] == s[j]);
        assert(s.contains(s[j]));
    }
    seqs::find_is(all, text::is_char(c), i);
    assert(all.take(i) =~= s);
    assert forall|j: int| 0 <= j < s.len() implies !text::is_char(c)(#[trigger] s[j]) by {
        assert(s.contains(s[j]));
    }
    seqs::find_none(s, text::is_char(c));
}

proof fn no_last(s: Seq<char>, c: char)
    requires
        !s.contains(c),
    ensures
        text::last_pos(s, c) == None::<int>,
    decreases s.len(),
{
    if s.len() > 0 {
        assert(s[s.len() - 1] == s.last());
        let r = s.drop_last();
        assert(!r.contains(c)) by {
            if r.contains(c) {
                let j = choose|j: int| 0 <= j < r.len() && r[j] == c;
                assert(s[j] == c);
            }
        }
        no_last(r, c);
    }
}

proof fn last_at(s: Seq<char>, c: char, t: Seq<char>)
    requires
        !t.contains(c),
    ensures
        text::last_pos(s.push(c) + t, c) == Some(s.len() as int),
    decreases t.len(),
{
    let all = s.push(c) + t;
    if t.len() == 0 {
        assert(all =~= s.push(c));
        assert(all.last() == c);
    } else {
        assert(t[t.len() - 1] == t.last());
        let r = t.drop_last();
        assert(!r.contains(c)) by {
            if r.contains(c) {
                let j = choose|j: int| 0 <= j < r.len() && r[j] == c;
                assert(t[j] == c);
            }
        }
        assert(all.last() == t.last());
        assert(all.drop_last() =~= s.push(c) + r);
        last_at(s, c, r);
    }
}

/// A relay is reached at the host and port that its url names; without a port at 80, or at 443 over
/// TLS. The path does not count.
pub proof fn urls_name_host_and_port(host: Seq<char>, port: u16, path: Seq<char>, secure: bool)
    requires
        host_name(host),
    ensures
        ({
            let scheme = if secure {
                "wss"@
            } else {
                "ws"@
            };
            let plain = scheme + "://"@ + host + "/"@ + path;
            let exact = scheme + "://"@ + host + ":"@ + text::decimal(port as nat) + "/"@ + path;
            &&& urls::parsed_ws_url(plain) == Ok::<ParsedWsUrlView, Seq<char>>(
                ParsedWsUrlView {
                    scheme,
                    host,
                    port: if secure {
                        443
                    } else {
                        80
                    },
                },
            )
            &&& urls::parsed_ws_url(exact) == Ok::<ParsedWsUrlView, Seq<char>>(
                ParsedWsUrlView { scheme, host, port },
            )
        }),
{
    schemes();
    if secure {
        named("wss"@, host, port, path);
    } else {
        named("ws"@, host, port, path);
    }
}

proof fn named(scheme: Seq<char>, host: Seq<char>, port: u16, path: Seq<char>)
    requires
        host_name(host),
        scheme == "ws"@ || scheme == "wss"@,
    ensures
        urls::parsed_ws_url(scheme + "://"@ + host + "/"@ + path) == Ok::<
            ParsedWsUrlView,
            Seq<char>,
        >(ParsedWsUrlView { scheme, host, port: urls::default_port(scheme) }),
        urls::parsed_ws_url(
            scheme + "://"@ + host + ":"@ + text::decimal(port as nat) + "/"@ + path,
        ) == Ok::<ParsedWsUrlView, Seq<char>>(ParsedWsUrlView { scheme, host, port }),
{
    assert(urls::parsed_ws_url(scheme + "://"@ + host + "/"@ + path) == Ok::<
        ParsedWsUrlView,
        Seq<char>,
    >(ParsedWsUrlView { scheme, host, port: urls::default_port(scheme) })) by {
        without_port(scheme, host, path);
        joined(scheme + "://"@, host, "/"@, path);
        found_in(scheme, host + "/"@ + path, host);
    }
    let authority = host + ":"@ + text::decimal(port as nat);
    assert(urls::parsed_ws_url(
        scheme + "://"@ + host + ":"@ + text::decimal(port as nat) + "/"@ + path,
    ) == Ok::<ParsedWsUrlView, Seq<char>>(ParsedWsUrlView { scheme, host, port })) by {
        with_port(scheme, host, port, path);
        joined(scheme + "://"@, host, ":"@, text::decimal(port as nat));
        joined(scheme + "://"@, authority, "/"@, path);
        found_in(scheme, authority + "/"@ + path, authority);
    }
}

proof fn joined(a: Seq<char>, b: Seq<char>, c: Seq<char>, d: Seq<char>)
    ensures
        a + b + c + d == a + (b + c + d),
{
    assert(a + b + c + d =~= a + (b + c + d));
}

proof fn found_in(scheme: Seq<char>, rest: Seq<char>, authority: Seq<char>)
    requires
        scheme == "ws"@ || scheme == "wss"@,
        text::before(rest, '/') == authority,
    ensures
        urls::parsed_ws_url(scheme + "://"@ + rest) == urls::parsed_authority(scheme, authority),
{
    split_scheme(scheme, rest);
}

proof fn schemes()
    ensures
        "ws"@ + "://"@ == "ws://"@,
        "wss"@ + "://"@ == "wss://"@,
        "ws"@ != "wss"@,
{
    reveal_strlit("ws://");
    reveal_strlit("wss://");
    reveal_strlit("ws");
    reveal_strlit("wss");
    reveal_strlit("://");
    assert("ws"@ + "://"@ =~= "ws://"@);
    assert("wss"@ + "://"@ =~= "wss://"@);
    assert("ws"@.len() != "wss"@.len());
}

proof fn without_port(scheme: Seq<char>, host: Seq<char>, path: Seq<char>)
    requires
        host_name(host),
    ensures
        text::before(host + "/"@ + path, '/') == host,
        urls::parsed_authority(scheme, host) == Ok::<ParsedWsUrlView, Seq<char>>(
            ParsedWsUrlView { scheme, host, port: urls::default_port(scheme) },
        ),
{
    reveal_strlit("/");
    assert(host + "/"@ + path =~= host.push('/') + path);
    cut_at(host, '/', path);
    no_last(host, ':');
}

proof fn with_port(scheme: Seq<char>, host: Seq<char>, port: u16, path: Seq<char>)
    requires
        host_name(host),
    ensures
        ({
            let authority = host + ":"@ + text::decimal(port as nat);
            &&& text::before(authority + "/"@ + path, '/') == authority
            &&& urls::parsed_authority(scheme, authority) == Ok::<ParsedWsUrlView, Seq<char>>(
                ParsedWsUrlView { scheme, host, port },
            )
        }),
{
    reveal_strlit("/");
    reveal_strlit(":");
    let digits = text::decimal(port as nat);
    text::decimal_digits(port as nat);
    text::parse_of_decimal(port as nat, 65535);
    let a = host + ":"@ + digits;
    assert(a + "/"@ + path =~= a.push('/') + path);
    assert(!a.contains('/')) by {
        if a.contains('/') {
            let j = choose|j: int| 0 <= j < a.len() && a[j] == '/';
            if j < host.len() {
                assert(host[j] == '/');
            } else if j > host.len() {
                assert(digits[j - host.len() - 1] == '/');
                assert(text::is_digit(digits[j - host.len() - 1]));
            }
        }
    }
    cut_at(a, '/', path);
    assert(a =~= host.push(':') + digits);
    last_at(host, ':', digits);
    assert(a.take(host.len() as int) =~= host);
    assert(a.skip(host.len() as int + 1) =~= digits);
    assert(a[0] == host[0]);
}

proof fn split_scheme(scheme: Seq<char>, rest: Seq<char>)
    requires
        scheme == "ws"@ || scheme == "wss"@,
    ensures
        urls::scheme_split(scheme + "://"@ + rest) == Some((scheme, rest)),
{
    schemes();
    let p = scheme + "://"@;
    let u = p + rest;
    assert(u.take(p.len() as int) =~= p);
    assert(u.skip(p.len() as int) =~= rest);
    reveal_strlit("ws://");
    reveal_strlit("wss://");
    if scheme == "wss"@ {
        assert(u.take(5)[2] == 's');
        assert("ws://"@[2] == ':');
    }
}

/// Onion services are reached over Tor and this machine directly; nothing else is reached at all. A
/// lasting connection to an onion service is not made over TLS.
pub proof fn only_onions_and_this_machine_are_dialled(url: Seq<char>, lasting: bool)
    ensures
        ({
            let r = urls::dialled(url, lasting);
            let p = urls::parsed_ws_url(url);
            let host = p->Ok_0.host;
            let onion = ".onion"@.is_suffix_of(host);
            let here = host == "127.0.0.1"@ || host == "localhost"@ || host == "[::1]"@ || host
                == "::1"@;
            &&& p is Err ==> r is Err
            &&& p is Ok && onion && !(lasting && p->Ok_0.scheme != "ws"@) ==> r == Ok::<
                DialView,
                Seq<char>,
            >(DialView::Onion { host, port: p->Ok_0.port })
            &&& p is Ok && onion && lasting && p->Ok_0.scheme != "ws"@ ==> r is Err
            &&& p is Ok && !onion && here ==> r == Ok::<DialView, Seq<char>>(DialView::Direct)
            &&& p is Ok && !onion && !here ==> r is Err
        }),
{
    if let Ok(p) = urls::parsed_ws_url(url) {
        suffix_of(p.host, ".onion"@);
    }
}

/// A relay goes by an id that its url alone decides: `srv_` and the first eight bytes of the url's
/// digest in hex.
pub proof fn relays_go_by_an_id_of_their_url(url: Seq<char>)
    ensures
        urls::server_id(url) == "srv_"@ + encoding::hex_text(
            primitives::sha256(encode_utf8(url)).take(8),
        ),
{
}

/// Only a `ws://` url whose host ends with `.onion`, in whatever case, counts as private.
pub proof fn private_relays_are_onions(url: Seq<char>)
    ensures
        ({
            let n = urls::normalized(url);
            urls::onion_url(url) <==> "ws://"@.is_prefix_of(n) && urls::host_of(n) is Some
                && ".onion"@.is_suffix_of(urls::host_of(n)->0)
        }),
{
    let n = urls::normalized(url);
    contact_laws::prefix_of(n, "ws://"@);
    if let Some(h) = urls::host_of(n) {
        suffix_of(h, ".onion"@);
    }
}

/// The plain name of a host: ASCII letters, digits, hyphens, underscores and dots.
pub open spec fn plain_host(h: Seq<char>) -> bool {
    h.len() > 0 && forall|i: int|
        0 <= i < h.len() ==> ('a' <= #[trigger] h[i] <= 'z' || 'A' <= h[i] <= 'Z' || '0' <= h[i]
            <= '9' || h[i] == '-' || h[i] == '_' || h[i] == '.')
}

proof fn nothing_to_trim(s: Seq<char>)
    requires
        s.len() > 0,
        !text::is_white(s[0]),
        !text::is_white(s.last()),
    ensures
        text::trimmed(s) == s,
{
}

proof fn plain_hosts_are_host_names(h: Seq<char>)
    requires
        plain_host(h),
    ensures
        host_name(h),
        !h.contains('@'),
        !text::is_white(h[0]),
        !text::is_white(h.last()),
        text::trimmed(h) == h,
{
    assert forall|c: char| c == '/' || c == ':' || c == '@' implies !h.contains(c) by {
        if h.contains(c) {
            let i = choose|i: int| 0 <= i < h.len() && h[i] == c;
            assert('a' <= h[i] <= 'z' || 'A' <= h[i] <= 'Z' || '0' <= h[i] <= '9' || h[i] == '-'
                || h[i] == '_' || h[i] == '.');
        }
    }
    assert(h.last() == h[h.len() - 1]);
    nothing_to_trim(h);
}

/// The host of a url is what stands before its port and path, in lower case.
pub proof fn hosts_are_read_in_lower_case(host: Seq<char>, port: u16, path: Seq<char>)
    requires
        plain_host(host),
    ensures
        urls::host_of("ws"@ + "://"@ + host + "/"@ + path) == Some(text::lowered(host)),
        urls::host_of("ws"@ + "://"@ + host + ":"@ + text::decimal(port as nat) + "/"@ + path)
            == Some(text::lowered(host)),
{
    plain_hosts_are_host_names(host);
    assert(urls::host_of("ws"@ + "://"@ + host + "/"@ + path) == Some(text::lowered(host))) by {
        without_port("ws"@, host, path);
        joined("ws"@ + "://"@, host, "/"@, path);
        split_scheme("ws"@, host + "/"@ + path);
        no_last(host, ':');
    }
    let digits = text::decimal(port as nat);
    let authority = host + ":"@ + digits;
    assert(urls::host_of("ws"@ + "://"@ + host + ":"@ + digits + "/"@ + path) == Some(
        text::lowered(host),
    )) by {
        with_port("ws"@, host, port, path);
        joined("ws"@ + "://"@, host, ":"@, digits);
        joined("ws"@ + "://"@, authority, "/"@, path);
        split_scheme("ws"@, authority + "/"@ + path);
        text::decimal_digits(port as nat);
        reveal_strlit(":");
        assert(text::is_digit(digits.last())) by {
            assert(digits.last() == digits[digits.len() - 1]);
        }
        assert(authority.last() == digits.last());
        assert(authority[0] == host[0]);
        nothing_to_trim(authority);
        assert(!authority.contains('@')) by {
            if authority.contains('@') {
                let j = choose|j: int| 0 <= j < authority.len() && authority[j] == '@';
                if j < host.len() {
                    assert(host[j] == '@');
                } else if j > host.len() {
                    assert(text::is_digit(digits[j - host.len() - 1]));
                }
            }
        }
        assert(authority =~= host.push(':') + digits);
        last_at(host, ':', digits);
        assert(authority.take(host.len() as int) =~= host);
    }
}

} // verus!
