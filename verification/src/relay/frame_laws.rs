//! What a relay does with each kind of frame, as the two ends of a conversation see it.
use crate::encoding;
use crate::frames::ClientFrameView;
use crate::frames::EnvelopeView;
use crate::frames::ServerFrameView;
use crate::ids;
use crate::pow;
use crate::relay::mailbox;
use crate::relay::mailbox::BundleView;
use crate::relay::socket;
use crate::relay::socket::CertificateRequestView;
use crate::relay::socket::SocketView;
use crate::relay::socket::StepView;
use crate::relay::state;
use crate::relay::state::RelayView;
use crate::seqs;
use crate::text;
use vstd::prelude::*;

verus! {

/// A letter, a digit, a hyphen or an underscore.
pub open spec fn plain(c: char) -> bool {
    ('a' <= c && c <= 'z') || ('A' <= c && c <= 'Z') || ('0' <= c && c <= '9') || c == '-' || c
        == '_'
}

/// Between 16 and 128 plain characters.
pub open spec fn is_token(s: Seq<char>) -> bool {
    16 <= s.len() <= 128 && forall|i: int| 0 <= i < s.len() ==> plain(#[trigger] s[i])
}

/// A token of at least 36 characters that begins with `mbx_`.
pub open spec fn is_mailbox(s: Seq<char>) -> bool {
    is_token(s) && s.len() >= 36 && s[0] == 'm' && s[1] == 'b' && s[2] == 'x' && s[3] == '_'
}

proof fn shapes(s: Seq<char>)
    ensures
        ids::token_shape(s, 16) == is_token(s),
        ids::recipient_shape(s) == is_mailbox(s),
{
    reveal_strlit("mbx_");
    if s.len() >= 4 {
        assert(s.take(4) == "mbx_"@ <==> s[0] == 'm' && s[1] == 'b' && s[2] == 'x' && s[3] == '_')
            by {
            if s[0] == 'm' && s[1] == 'b' && s[2] == 'x' && s[3] == '_' {
                assert(s.take(4) =~= "mbx_"@);
            }
            if s.take(4) == "mbx_"@ {
                assert(s.take(4)[0] == s[0] && s.take(4)[1] == s[1] && s.take(4)[2] == s[2]
                    && s.take(4)[3] == s[3]);
            }
        }
    }
    assert forall|i: int| 0 <= i < s.len() implies text::url_safe(#[trigger] s[i]) == plain(s[i]) by {
    }
}

/// The envelopes that wait for a mailbox, the oldest first.
pub open spec fn waiting(v: RelayView, rid: Seq<char>) -> Seq<EnvelopeView> {
    if v.queues.contains_key(rid) {
        v.queues[rid]
    } else {
        Seq::empty()
    }
}

/// The token is a delivery token of the mailbox.
pub open spec fn opens(v: RelayView, rid: Seq<char>, token: Seq<char>) -> bool {
    v.mailboxes.contains_key(rid) && (v.mailboxes[rid].delivery_token_hash == ids::token_digest(
        token,
    ) || v.mailboxes[rid].delivery_token_hashes.contains(ids::token_digest(token)))
}

/// The step tells the socket that an envelope was taken.
pub open spec fn confirmed(step: StepView) -> bool {
    match step {
        StepView::Offer { frame: ServerFrameView::SendOk { .. }, .. } => true,
        StepView::Reply { frame: ServerFrameView::SendOk { .. } } => true,
        _ => false,
    }
}

/// How often the socket has sent to a mailbox in this window.
pub open spec fn sent_before(s: SocketView, to: Seq<char>) -> int {
    if s.dest_send_counts.contains_key(to) {
        s.dest_send_counts[to] as int
    } else {
        0
    }
}

// ---------------------------------------------------------------------------------------------
// Sending.
// ---------------------------------------------------------------------------------------------

/// An envelope is taken exactly where the mailbox and the token have their shapes, the socket sent
/// fewer than 30 to the mailbox in this window, type and ciphertext are not too long, the token is
/// one of the mailbox, and the relay has room for the bytes.
pub proof fn sends_are_taken_exactly_when_they_may_be(
    v: RelayView,
    s: SocketView,
    client_ref: Option<Seq<char>>,
    to: Seq<char>,
    delivery_token: Seq<char>,
    envelope_type: Seq<char>,
    ciphertext: Seq<char>,
    now_ms: u64,
    id: u128,
)
    ensures
        ({
            let f = ClientFrameView::SendEnvelope {
                client_ref,
                to,
                delivery_token,
                envelope_type,
                ciphertext,
            };
            let (w, s1, step) = socket::handled(v, s, f, now_ms, id);
            let may = is_mailbox(to) && is_token(delivery_token) && sent_before(s, to) < 30
                && text::byte_len(envelope_type) <= 32 && text::byte_len(ciphertext) <= 524_288
                && opens(v, to, delivery_token) && v.queued_bytes + text::byte_len(ciphertext)
                <= 67_108_864;
            &&& confirmed(step) <==> may
            &&& !may ==> w == v && (step matches StepView::Reply {
                frame: ServerFrameView::SendError { client_ref: told, code, message },
            } && told == client_ref && (code, message) == if !is_mailbox(to) || !is_token(
                delivery_token,
            ) {
                ("bad_send"@, "invalid destination or delivery token"@)
            } else if sent_before(s, to) >= 30 {
                ("rate_limited"@, "too many sends to this destination"@)
            } else if text::byte_len(envelope_type) > 32 || text::byte_len(ciphertext) > 524_288 {
                ("bad_envelope"@, "envelope rejected by size/type limits"@)
            } else if !opens(v, to, delivery_token) {
                ("delivery_denied"@, "delivery token rejected"@)
            } else {
                ("relay_full"@, "relay queue memory limit reached"@)
            })
        }),
{
    shapes(to);
    shapes(delivery_token);
}

/// An envelope that is taken is pushed to the live socket of the mailbox, whatever already waits
/// there; it is merely confirmed only where no socket is live. The sender is told the same either
/// way.
pub proof fn sends_are_pushed_to_the_live_socket(
    v: RelayView,
    s: SocketView,
    client_ref: Option<Seq<char>>,
    to: Seq<char>,
    delivery_token: Seq<char>,
    envelope_type: Seq<char>,
    ciphertext: Seq<char>,
    now_ms: u64,
    id: u128,
)
    ensures
        ({
            let f = ClientFrameView::SendEnvelope {
                client_ref,
                to,
                delivery_token,
                envelope_type,
                ciphertext,
            };
            let step = socket::handled(v, s, f, now_ms, id).2;
            let frame = ServerFrameView::SendOk { id, queued: false, client_ref };
            confirmed(step) ==> step == if v.online.contains_key(to) {
                StepView::Offer {
                    socket: v.online[to],
                    envelope: EnvelopeView { id, to, envelope_type, ciphertext },
                    frame,
                }
            } else {
                StepView::Reply { frame }
            }
        }),
{
}

/// An envelope that is taken stands at the end of its mailbox's queue, behind all that waited
/// there, of which at most the oldest gave way to keep the queue at 200. Nothing else changes.
pub proof fn sends_join_the_queue(
    v: RelayView,
    s: SocketView,
    client_ref: Option<Seq<char>>,
    to: Seq<char>,
    delivery_token: Seq<char>,
    envelope_type: Seq<char>,
    ciphertext: Seq<char>,
    now_ms: u64,
    id: u128,
)
    requires
        confirmed(
            socket::handled(
                v,
                s,
                ClientFrameView::SendEnvelope {
                    client_ref,
                    to,
                    delivery_token,
                    envelope_type,
                    ciphertext,
                },
                now_ms,
                id,
            ).2,
        ),
    ensures
        ({
            let f = ClientFrameView::SendEnvelope {
                client_ref,
                to,
                delivery_token,
                envelope_type,
                ciphertext,
            };
            let w = socket::handled(v, s, f, now_ms, id).0;
            let before = waiting(v, to);
            let after = waiting(w, to);
            &&& after.len() > 0 && after.last() == (EnvelopeView {
                id,
                to,
                envelope_type,
                ciphertext,
            })
            &&& after.len() == if before.len() < 200 {
                before.len() + 1
            } else {
                200
            }
            &&& forall|i: int|
                0 <= i < after.len() - 1 ==> #[trigger] after[i] == before[i + before.len() - (
                after.len() - 1)]
            &&& forall|k: Seq<char>| k != to ==> #[trigger] waiting(w, k) == waiting(v, k)
            &&& w.mailboxes == v.mailboxes
            &&& w.mailbox_count == v.mailbox_count
            &&& w.online == v.online
            &&& w.bundles == v.bundles
            &&& w.trust_root == v.trust_root
            &&& w.dirty
        }),
{
    let q = state::queue_of(v, to);
    let kept = state::room_made(q);
    let e = EnvelopeView { id, to, envelope_type, ciphertext };
    assert forall|i: int| 0 <= i < kept.len() implies #[trigger] kept.push(e)[i] == q[i + q.len()
        - kept.len()] by {}
}

/// A send is counted against its socket and its mailbox, taken or not, where it names a mailbox
/// and shows something that can be a token; and against no other mailbox.
pub proof fn sends_are_counted_by_mailbox(
    v: RelayView,
    s: SocketView,
    client_ref: Option<Seq<char>>,
    to: Seq<char>,
    delivery_token: Seq<char>,
    envelope_type: Seq<char>,
    ciphertext: Seq<char>,
    now_ms: u64,
    id: u128,
    k: Seq<char>,
)
    requires
        sent_before(s, to) < u32::MAX,
    ensures
        ({
            let f = ClientFrameView::SendEnvelope {
                client_ref,
                to,
                delivery_token,
                envelope_type,
                ciphertext,
            };
            let s1 = socket::handled(v, s, f, now_ms, id).1;
            &&& sent_before(s1, k) == sent_before(s, k) + if k == to && is_mailbox(to)
                && is_token(delivery_token) {
                1int
            } else {
                0int
            }
            &&& s1.number == s.number
            &&& s1.recipient_id == s.recipient_id
            &&& s1.window_start_ms == s.window_start_ms
            &&& s1.frame_count == s.frame_count
        }),
{
    shapes(to);
    shapes(delivery_token);
}

// ---------------------------------------------------------------------------------------------
// Hello.
// ---------------------------------------------------------------------------------------------

/// The lowest or highest version that a client takes, from what its hello says.
pub open spec fn bound(given: Option<u16>, version: Option<u16>) -> u16 {
    match (given, version) {
        (Some(n), _) => n,
        (None, Some(n)) => n,
        (None, None) => 5,
    }
}

/// The relay takes versions 4 and 5. It agrees on 5 where the client takes it, on 4 where the
/// client takes that and not 5, and on nothing otherwise.
pub proof fn versions_are_agreed_on(pmin: Option<u16>, pmax: Option<u16>, pversion: Option<u16>)
    ensures
        socket::negotiated(pmin, pmax, pversion) == if bound(pmin, pversion) <= 5 <= bound(
            pmax,
            pversion,
        ) {
            Some(5u16)
        } else if bound(pmin, pversion) <= 4 <= bound(pmax, pversion) {
            Some(4u16)
        } else {
            None::<u16>
        },
{
}

/// The hello opens the mailbox: a version is agreed on, mailbox and tokens have their shapes, and
/// the receive token is the mailbox's own, or the mailbox is new, there is a proof of work for it
/// and the relay has fewer than 50,000.
pub open spec fn welcome(
    v: RelayView,
    rid: Seq<char>,
    auth: Seq<char>,
    delivery: Seq<char>,
    agreed: Option<u16>,
    pow: Option<Seq<char>>,
    now_ms: u64,
) -> bool {
    &&& agreed is Some
    &&& is_mailbox(rid) && is_token(auth) && is_token(delivery)
    &&& if v.mailboxes.contains_key(rid) {
        v.mailboxes[rid].receive_auth_hash == ids::token_digest(auth)
    } else {
        v.mailbox_count < 50_000 && (pow matches Some(p) && pow::pow_accepted(
            rid,
            p,
            now_ms / 600_000,
        ))
    }
}

/// A hello is answered with a welcome exactly where it opens the mailbox, and else refused for the
/// first reason there is, with nothing changed.
pub proof fn hellos_are_welcome_exactly_when_they_may_be(
    v: RelayView,
    s: SocketView,
    rid: Seq<char>,
    auth: Seq<char>,
    delivery: Seq<char>,
    pmin: Option<u16>,
    pmax: Option<u16>,
    pversion: Option<u16>,
    pow: Option<Seq<char>>,
    cert_only: bool,
    now_ms: u64,
    id: u128,
)
    ensures
        ({
            let f = ClientFrameView::Hello {
                recipient_id: rid,
                auth_token: auth,
                delivery_token: delivery,
                protocol_min: pmin,
                protocol_max: pmax,
                protocol_version: pversion,
                pow,
                cert_only,
            };
            let (w, s1, step) = socket::handled(v, s, f, now_ms, id);
            let agreed = socket::negotiated(pmin, pmax, pversion);
            let known = v.mailboxes.contains_key(rid);
            if welcome(v, rid, auth, delivery, agreed, pow, now_ms) {
                let frame = ServerFrameView::HelloOk {
                    protocol_version: agreed->0,
                    min_supported: Some(4u16),
                    current_protocol: Some(5u16),
                    server_time_ms: now_ms,
                    trust_root_b64: v.trust_root,
                };
                step == if cert_only {
                    StepView::Reply { frame }
                } else {
                    StepView::Welcome { frame, backlog: waiting(v, rid) }
                }
            } else {
                w == v && s1 == s && (step matches StepView::Reply {
                    frame: ServerFrameView::Error { code, message },
                } && (code, message) == if agreed is None {
                    ("protocol_mismatch"@, "no common relay protocol version"@)
                } else if !is_mailbox(rid) || !is_token(auth) || !is_token(delivery) {
                    ("bad_hello"@, "invalid mailbox or token"@)
                } else if known {
                    ("auth_failed"@, "mailbox auth failed"@)
                } else if !(pow matches Some(p) && pow::pow_accepted(rid, p, now_ms / 600_000)) {
                    ("bad_pow"@, "invalid proof of work for new mailbox"@)
                } else {
                    ("relay_full"@, "relay mailbox limit reached"@)
                })
            }
        }),
{
    shapes(rid);
    shapes(auth);
    shapes(delivery);
}

/// A welcome binds the socket to the mailbox, whose receive token is the one that was shown and
/// whose delivery tokens now count the shown one; it makes the socket the live one, unless it only
/// wants a certificate. Other mailboxes, the queues and the bundles stay as they are.
pub proof fn welcomes_open_the_mailbox(
    v: RelayView,
    s: SocketView,
    rid: Seq<char>,
    auth: Seq<char>,
    delivery: Seq<char>,
    pmin: Option<u16>,
    pmax: Option<u16>,
    pversion: Option<u16>,
    pow: Option<Seq<char>>,
    cert_only: bool,
    now_ms: u64,
    id: u128,
    hash: Seq<char>,
)
    requires
        welcome(
            v,
            rid,
            auth,
            delivery,
            socket::negotiated(pmin, pmax, pversion),
            pow,
            now_ms,
        ),
    ensures
        ({
            let f = ClientFrameView::Hello {
                recipient_id: rid,
                auth_token: auth,
                delivery_token: delivery,
                protocol_min: pmin,
                protocol_max: pmax,
                protocol_version: pversion,
                pow,
                cert_only,
            };
            let (w, s1, _) = socket::handled(v, s, f, now_ms, id);
            let known = v.mailboxes.contains_key(rid);
            &&& s1 == (SocketView { recipient_id: Some(rid), ..s })
            &&& w.online == if cert_only {
                v.online
            } else {
                v.online.insert(rid, s.number)
            }
            &&& w.mailboxes.contains_key(rid)
            &&& w.mailboxes[rid].receive_auth_hash == ids::token_digest(auth)
            &&& opens(w, rid, delivery)
            &&& known && v.mailboxes[rid].delivery_token_hashes.len() < 64 && v.mailboxes[rid].delivery_token_hashes.contains(hash)
                ==> w.mailboxes[rid].delivery_token_hashes.contains(hash)
            &&& known && v.mailboxes[rid].delivery_token_hash.len() > 0
                ==> w.mailboxes[rid].delivery_token_hash == v.mailboxes[rid].delivery_token_hash
            &&& w.mailboxes[rid].delivery_token_hashes.contains(hash) ==> hash
                == ids::token_digest(delivery) || (known
                && v.mailboxes[rid].delivery_token_hashes.contains(hash))
            &&& !known ==> w.mailboxes[rid].delivery_token_hash == ids::token_digest(delivery)
            &&& forall|k: Seq<char>|
                k != rid ==> (#[trigger] w.mailboxes.contains_key(k) <==> v.mailboxes.contains_key(
                    k,
                )) && w.mailboxes[k] == v.mailboxes[k]
            &&& w.mailbox_count == v.mailbox_count + if known {
                0int
            } else {
                1int
            }
            &&& w.queues == v.queues
            &&& w.queued_bytes == v.queued_bytes
            &&& w.bundles == v.bundles
            &&& w.trust_root == v.trust_root
            &&& known ==> ({
                let list = v.mailboxes[rid].delivery_token_hashes;
                w.mailboxes[rid].delivery_token_hashes == if list.contains(
                    ids::token_digest(delivery),
                ) {
                    list
                } else if list.len() < 64 {
                    list.push(ids::token_digest(delivery))
                } else {
                    list.drop_first().push(ids::token_digest(delivery))
                }
            })
            &&& !known ==> w.mailboxes[rid].delivery_token_hashes == seq![
                ids::token_digest(delivery),
            ]
            &&& w.dirty <==> v.dirty || !known
                || !v.mailboxes[rid].delivery_token_hashes.contains(ids::token_digest(delivery))
        }),
{
    shapes(rid);
    shapes(auth);
    shapes(delivery);
    let d = ids::token_digest(delivery);
    if v.mailboxes.contains_key(rid) {
        let a = v.mailboxes[rid];
        let list = a.delivery_token_hashes;
        let b = mailbox::with_token(a, d);
        let after = b.delivery_token_hashes;
        mailbox::new_token_is_accepted(a, d);
        if !list.contains(d) {
            if list.len() < 64 && list.contains(hash) {
                let i = choose|i: int| 0 <= i < list.len() && list[i] == hash;
                assert(after[i] == hash);
            }
            if after.contains(hash) && hash != d {
                let i = choose|i: int| 0 <= i < after.len() && after[i] == hash;
                if list.len() < 64 {
                    assert(list[i] == hash);
                } else {
                    assert(list[i + 1] == hash);
                }
            }
        }
    } else {
        let list = mailbox::new_mailbox(ids::token_digest(auth), d).delivery_token_hashes;
        assert(list[0] == d);
    }
}

// ---------------------------------------------------------------------------------------------
// Delivery tokens.
// ---------------------------------------------------------------------------------------------

/// The relay takes a list of delivery tokens.
pub open spec fn tokens_set(
    v: RelayView,
    s: SocketView,
    request_id: Seq<char>,
    tokens: Seq<Seq<char>>,
    now_ms: u64,
    id: u128,
) -> bool {
    socket::handled(
        v,
        s,
        ClientFrameView::SetDeliveryTokens { request_id, tokens },
        now_ms,
        id,
    ).2 matches StepView::Reply { frame: ServerFrameView::DeliveryTokensSet { .. } }
}

/// A list of delivery tokens is taken exactly where the socket stands for a mailbox that the relay
/// knows and the list holds 1 to 64 tokens; the answer counts the different ones. Else nothing
/// changes.
pub proof fn token_lists_are_taken_exactly_when_they_may_be(
    v: RelayView,
    s: SocketView,
    request_id: Seq<char>,
    tokens: Seq<Seq<char>>,
    now_ms: u64,
    id: u128,
)
    ensures
        ({
            let f = ClientFrameView::SetDeliveryTokens { request_id, tokens };
            let (w, s1, step) = socket::handled(v, s, f, now_ms, id);
            let well = 1 <= tokens.len() <= 64 && forall|i: int|
                0 <= i < tokens.len() ==> is_token(#[trigger] tokens[i]);
            let digests = tokens.map_values(|t: Seq<char>| ids::token_digest(t));
            &&& s1 == s
            &&& tokens_set(v, s, request_id, tokens, now_ms, id) <==> (s.recipient_id matches Some(
                rid,
            ) && v.mailboxes.contains_key(rid)) && well
            &&& tokens_set(v, s, request_id, tokens, now_ms, id) ==> step == (StepView::Reply {
                frame: ServerFrameView::DeliveryTokensSet {
                    request_id,
                    active_count: digests.to_set().len(),
                },
            }) && w.dirty
            &&& !tokens_set(v, s, request_id, tokens, now_ms, id) ==> w == v && (step matches
                StepView::Reply { frame: ServerFrameView::Error { code, message } } && (
                code,
                message,
            ) == if s.recipient_id is None {
                ("not_registered"@, "send hello first"@)
            } else if !well {
                ("bad_tokens"@, "invalid delivery-token allowlist"@)
            } else {
                ("not_registered"@, "mailbox auth missing"@)
            })
        }),
{
    let digests = tokens.map_values(|t: Seq<char>| ids::token_digest(t));
    assert(digests =~= socket::token_digests(tokens));
    assert forall|i: int| 0 <= i < tokens.len() implies ids::token_shape(#[trigger] tokens[i], 16)
        == is_token(tokens[i]) by {
        shapes(tokens[i]);
    }
    text::distinct_members(digests);
    let d = text::distinct(digests);
    d.unique_seq_to_set();
    assert(d.to_set() =~= digests.to_set());
}

/// After the relay took a list of delivery tokens, the mailbox accepts every token of the list and
/// no other; its receive token, all other mailboxes and everything else stay as they are.
pub proof fn taken_token_lists_decide(
    v: RelayView,
    s: SocketView,
    rid: Seq<char>,
    request_id: Seq<char>,
    tokens: Seq<Seq<char>>,
    now_ms: u64,
    id: u128,
    token: Seq<char>,
)
    requires
        s.recipient_id == Some(rid),
        tokens_set(v, s, request_id, tokens, now_ms, id),
    ensures
        ({
            let f = ClientFrameView::SetDeliveryTokens { request_id, tokens };
            let w = socket::handled(v, s, f, now_ms, id).0;
            &&& forall|i: int|
                0 <= i < tokens.len() ==> opens(w, rid, #[trigger] tokens[i])
            &&& opens(w, rid, token) ==> exists|i: int|
                0 <= i < tokens.len() && ids::token_digest(#[trigger] tokens[i])
                    == ids::token_digest(token)
            &&& w.mailboxes[rid].receive_auth_hash == v.mailboxes[rid].receive_auth_hash
            &&& forall|k: Seq<char>|
                k != rid ==> (#[trigger] w.mailboxes.contains_key(k) <==> v.mailboxes.contains_key(
                    k,
                )) && w.mailboxes[k] == v.mailboxes[k]
            &&& (RelayView { mailboxes: v.mailboxes, dirty: v.dirty, ..w }) == v
        }),
{
    let f = ClientFrameView::SetDeliveryTokens { request_id, tokens };
    let w = socket::handled(v, s, f, now_ms, id).0;
    let hashes = socket::token_digests(tokens);
    assert forall|i: int| 0 <= i < tokens.len() implies opens(w, rid, #[trigger] tokens[i]) by {
        assert(hashes[i] == ids::token_digest(tokens[i]));
        mailbox::replaced_tokens_decide(v.mailboxes[rid], hashes, ids::token_digest(tokens[i]));
    }
    if opens(w, rid, token) {
        mailbox::replaced_tokens_decide(v.mailboxes[rid], hashes, ids::token_digest(token));
        let i = choose|i: int| 0 <= i < hashes.len() && hashes[i] == ids::token_digest(token);
        assert(ids::token_digest(tokens[i]) == ids::token_digest(token));
    }
}

/// A peer that holds any token of a list that the relay took can send with it.
pub proof fn listed_tokens_deliver(
    v: RelayView,
    s: SocketView,
    rid: Seq<char>,
    request_id: Seq<char>,
    tokens: Seq<Seq<char>>,
    i: int,
    now_ms: u64,
    peer: SocketView,
    client_ref: Option<Seq<char>>,
    envelope_type: Seq<char>,
    ciphertext: Seq<char>,
    later_ms: u64,
    id: u128,
)
    requires
        s.recipient_id == Some(rid),
        is_mailbox(rid),
        tokens_set(v, s, request_id, tokens, now_ms, id),
        0 <= i < tokens.len(),
        sent_before(peer, rid) < 30,
        text::byte_len(envelope_type) <= 32,
        text::byte_len(ciphertext) <= 524_288,
        v.queued_bytes + text::byte_len(ciphertext) <= 67_108_864,
    ensures
        confirmed(
            socket::handled(
                socket::handled(
                    v,
                    s,
                    ClientFrameView::SetDeliveryTokens { request_id, tokens },
                    now_ms,
                    id,
                ).0,
                peer,
                ClientFrameView::SendEnvelope {
                    client_ref,
                    to: rid,
                    delivery_token: tokens[i],
                    envelope_type,
                    ciphertext,
                },
                later_ms,
                id,
            ).2,
        ),
{
    let f = ClientFrameView::SetDeliveryTokens { request_id, tokens };
    let w = socket::handled(v, s, f, now_ms, id).0;
    taken_token_lists_decide(v, s, rid, request_id, tokens, now_ms, id, tokens[i]);
    token_lists_are_taken_exactly_when_they_may_be(v, s, request_id, tokens, now_ms, id);
    assert(is_token(tokens[i]));
    sends_are_taken_exactly_when_they_may_be(
        w,
        peer,
        client_ref,
        rid,
        tokens[i],
        envelope_type,
        ciphertext,
        later_ms,
        id,
    );
}

// ---------------------------------------------------------------------------------------------
// Certificates.
// ---------------------------------------------------------------------------------------------

/// A certificate is signed exactly for the mailbox that the socket stands for, for a device from 1
/// to 127 and a key in base64 of at most 64 bytes of text; it names all of these and is good for a
/// day. Asking changes nothing.
pub proof fn certificates_are_signed_exactly_when_they_may_be(
    v: RelayView,
    s: SocketView,
    request_id: Seq<char>,
    sender_uuid: Seq<char>,
    sender_device_id: u32,
    key_b64: Seq<char>,
    now_ms: u64,
    id: u128,
)
    requires
        now_ms + 86_400_000 <= u64::MAX,
    ensures
        ({
            let f = ClientFrameView::IssueSenderCertificate {
                request_id,
                sender_uuid,
                sender_device_id,
                sender_cert_public_b64: key_b64,
            };
            let (w, s1, step) = socket::handled(v, s, f, now_ms, id);
            let may = s.recipient_id == Some(sender_uuid) && is_mailbox(sender_uuid) && 1
                <= sender_device_id <= 127 && text::byte_len(key_b64) <= 64 && exists|d: Seq<u8>|
                encoding::b64_text(d, false) == key_b64;
            &&& w == v && s1 == s
            &&& step is Certify <==> may
            &&& step matches StepView::Certify { request } ==> {
                &&& request.request_id == request_id
                &&& request.sender_uuid == sender_uuid
                &&& request.sender_device_id == sender_device_id
                &&& encoding::b64_text(request.key, false) == key_b64
                &&& request.expires_at_ms == now_ms + 86_400_000
            }
            &&& !may ==> (step matches StepView::Reply {
                frame: ServerFrameView::Error { code, .. },
            } && code == if s.recipient_id is None {
                "not_registered"@
            } else if s.recipient_id != Some(sender_uuid) {
                "cert_denied"@
            } else {
                "cert_failed"@
            })
        }),
{
    shapes(sender_uuid);
}

/// What is answered to a request for a certificate: the signed bytes in base64 with the relay's
/// trust root, under the request's own id and time; or why they could not be signed.
pub proof fn signed_certificates_are_handed_over(
    v: RelayView,
    request: CertificateRequestView,
    signed: Result<Seq<u8>, Seq<char>>,
)
    ensures
        socket::certificate_answer(v, request, signed) == match signed {
            Ok(bytes) => ServerFrameView::SenderCertificate {
                request_id: request.request_id,
                certificate_b64: encoding::b64_text(bytes, false),
                trust_root_b64: v.trust_root,
                expires_at_ms: request.expires_at_ms,
            },
            Err(why) => ServerFrameView::Error { code: "cert_failed"@, message: why },
        },
{
}

// ---------------------------------------------------------------------------------------------
// Bundles.
// ---------------------------------------------------------------------------------------------

/// The bundle that an upload leaves under a handle.
pub open spec fn hosted(v: RelayView, bundle_id: Seq<char>, now_ms: u64) -> bool {
    v.bundles.contains_key(bundle_id) && v.bundles[bundle_id].expires_at_ms > now_ms
}

/// A bundle is taken exactly where its handle is a token, it has at most 16 KiB and the relay holds
/// fewer than 50,000. It is then hosted as it came, until the asked time or, where that is less
/// than a minute or more than two days away, until then; the answer says until when. Of the other
/// bundles those whose time has not come stay. Nothing else changes.
pub proof fn uploads_are_hosted(
    v: RelayView,
    s: SocketView,
    request_id: Seq<char>,
    bundle_id: Seq<char>,
    ciphertext: Seq<char>,
    asked: u64,
    now_ms: u64,
    id: u128,
)
    requires
        now_ms + 172_800_000 <= u64::MAX,
    ensures
        ({
            let f = ClientFrameView::UploadBundle {
                request_id,
                bundle_id,
                ciphertext,
                expires_at_ms: asked,
            };
            let (w, s1, step) = socket::handled(v, s, f, now_ms, id);
            let may = is_token(bundle_id) && text::byte_len(ciphertext) <= 16_384
                && v.bundles.dom().len() < 50_000;
            let until = if asked > now_ms + 172_800_000 {
                (now_ms + 172_800_000) as u64
            } else if asked < now_ms + 60_000 {
                (now_ms + 60_000) as u64
            } else {
                asked
            };
            &&& s1 == s
            &&& may ==> step == (StepView::Reply {
                frame: ServerFrameView::BundleUploaded {
                    request_id,
                    bundle_id,
                    expires_at_ms: until,
                },
            })
            &&& may ==> w.bundles.contains_key(bundle_id) && w.bundles[bundle_id] == (BundleView {
                id: bundle_id,
                ciphertext,
                created_at_ms: now_ms,
                expires_at_ms: until,
            }) && w.dirty
            &&& may ==> forall|k: Seq<char>|
                k != bundle_id ==> (#[trigger] w.bundles.contains_key(k) <==> hosted(v, k, now_ms))
                    && (w.bundles.contains_key(k) ==> w.bundles[k] == v.bundles[k])
            &&& (RelayView { bundles: v.bundles, dirty: v.dirty, ..w }) == v
            &&& !may ==> w == v && (step matches StepView::Reply {
                frame: ServerFrameView::Error { code, message },
            } && (code, message) == if !is_token(bundle_id) || text::byte_len(ciphertext)
                > 16_384 {
                ("bad_bundle"@, "invalid invite bundle"@)
            } else {
                ("relay_full"@, "relay invite bundle limit reached"@)
            })
        }),
{
    shapes(bundle_id);
}

/// A fetch hands out the bundle under the handle, as it is, where its time has not come, and says
/// so where there is none. It drops the bundles whose time has come and no others, and changes
/// nothing else.
pub proof fn fetches_hand_out_what_is_hosted(
    v: RelayView,
    s: SocketView,
    request_id: Seq<char>,
    bundle_id: Seq<char>,
    now_ms: u64,
    id: u128,
)
    ensures
        ({
            let f = ClientFrameView::FetchBundle { request_id, bundle_id };
            let (w, s1, step) = socket::handled(v, s, f, now_ms, id);
            &&& s1 == s
            &&& step == if hosted(v, bundle_id, now_ms) {
                StepView::Reply {
                    frame: ServerFrameView::Bundle {
                        request_id,
                        bundle_id: v.bundles[bundle_id].id,
                        ciphertext: v.bundles[bundle_id].ciphertext,
                        expires_at_ms: v.bundles[bundle_id].expires_at_ms,
                    },
                }
            } else {
                StepView::Reply {
                    frame: ServerFrameView::Error {
                        code: "bundle_not_found"@,
                        message: "invite bundle was not found or has expired"@,
                    },
                }
            }
            &&& forall|k: Seq<char>|
                (#[trigger] w.bundles.contains_key(k) <==> hosted(v, k, now_ms)) && (
                w.bundles.contains_key(k) ==> w.bundles[k] == v.bundles[k])
            &&& (RelayView { bundles: v.bundles, dirty: v.dirty, ..w }) == v
            &&& w.dirty <==> v.dirty || exists|k: Seq<char>| #[trigger]
                v.bundles.contains_key(k) && !hosted(v, k, now_ms)
        }),
{
}

// ---------------------------------------------------------------------------------------------
// Acknowledging, retiring, pinging, closing.
// ---------------------------------------------------------------------------------------------

/// An acknowledgement leaves of the mailbox's queue, in their order, exactly the envelopes that it
/// does not name, and says how many left. It needs a hello and changes nothing else.
pub proof fn acknowledgements_take_out_what_they_name(
    v: RelayView,
    s: SocketView,
    named: Seq<u128>,
    now_ms: u64,
    id: u128,
)
    ensures
        ({
            let f = ClientFrameView::Ack { ids: named };
            let (w, s1, step) = socket::handled(v, s, f, now_ms, id);
            &&& s1 == s
            &&& match s.recipient_id {
                Some(rid) => {
                    &&& waiting(w, rid) == waiting(v, rid).filter(
                        |e: EnvelopeView| !named.contains(e.id),
                    )
                    &&& step == (StepView::Reply {
                        frame: ServerFrameView::AckOk {
                            removed: (waiting(v, rid).len() - waiting(w, rid).len()) as nat,
                        },
                    })
                    &&& waiting(w, rid).len() <= waiting(v, rid).len()
                    &&& forall|k: Seq<char>| k != rid ==> #[trigger] waiting(w, k) == waiting(v, k)
                    &&& w.dirty <==> v.dirty || waiting(w, rid) != waiting(v, rid)
                },
                None => w == v && step == (StepView::Reply {
                    frame: ServerFrameView::Error {
                        code: "not_registered"@,
                        message: "send hello first"@,
                    },
                }),
            }
            &&& (RelayView {
                queues: v.queues,
                queued_bytes: v.queued_bytes,
                dirty: v.dirty,
                ..w
            }) == v
        }),
{
    if let Some(rid) = s.recipient_id {
        let q = waiting(v, rid);
        let p = |e: EnvelopeView| !named.contains(e.id);
        assert(p =~= state::not_acked(named));
        seqs::filter_members(q, p);
        if !v.queues.contains_key(rid) {
            seqs::filter_empty(q, p);
        }
        whole_when_as_long(q, p);
    }
}

proof fn whole_when_as_long<A>(q: Seq<A>, p: spec_fn(A) -> bool)
    ensures
        q.filter(p).len() == q.len() ==> q.filter(p) == q,
    decreases q.len(),
{
    if q.len() == 0 {
        seqs::filter_empty(q, p);
        assert(q.filter(p) =~= q);
    } else {
        let t = q.drop_last();
        whole_when_as_long(t, p);
        seqs::filter_members(t, p);
        assert(q =~= t.push(q.last()));
        seqs::filter_push(t, q.last(), p);
    }
}

/// Retiring takes the socket's mailbox, its queue and its live socket away, leaves all others, and
/// ends the socket. It needs a hello.
pub proof fn retiring_takes_the_mailbox_away(
    v: RelayView,
    s: SocketView,
    now_ms: u64,
    id: u128,
    k: Seq<char>,
)
    ensures
        ({
            let (w, s1, step) = socket::handled(v, s, ClientFrameView::RetireMailbox, now_ms, id);
            &&& s1 == s
            &&& match s.recipient_id {
                Some(rid) => {
                    &&& step == (StepView::Close { frame: ServerFrameView::AckOk { removed: 0 } })
                    &&& w.dirty
                    &&& w.mailboxes.contains_key(k) <==> k != rid && v.mailboxes.contains_key(k)
                    &&& k != rid ==> w.mailboxes[k] == v.mailboxes[k]
                    &&& waiting(w, k) == if k == rid {
                        Seq::empty()
                    } else {
                        waiting(v, k)
                    }
                    &&& w.online.contains_key(k) <==> k != rid && v.online.contains_key(k)
                    &&& k != rid ==> w.online[k] == v.online[k]
                },
                None => w == v && step == (StepView::Reply {
                    frame: ServerFrameView::Error {
                        code: "not_registered"@,
                        message: "send hello first"@,
                    },
                }),
            }
            &&& w.bundles == v.bundles
            &&& w.trust_root == v.trust_root
        }),
{
}

/// A ping is answered with the relay's time, hello or not, and changes nothing.
pub proof fn pings_tell_the_time(v: RelayView, s: SocketView, now_ms: u64, id: u128)
    ensures
        socket::handled(v, s, ClientFrameView::Ping, now_ms, id) == (
            v,
            s,
            StepView::Reply { frame: ServerFrameView::Pong { server_time_ms: now_ms } },
        ),
{
}

/// A socket that closes stops being the live one of its mailbox where it was; another that took
/// its place stays. Nothing else changes.
pub proof fn closing_frees_the_live_place(v: RelayView, s: SocketView, k: Seq<char>)
    ensures
        ({
            let w = socket::closed(v, s);
            let its_own = s.recipient_id == Some(k) && v.online.contains_key(k) && v.online[k]
                == s.number;
            &&& w.online.contains_key(k) <==> v.online.contains_key(k) && !its_own
            &&& w.online.contains_key(k) ==> w.online[k] == v.online[k]
            &&& (RelayView { online: v.online, ..w }) == v
        }),
{
}

/// A frame more than a minute after the socket's window began opens a new window, with nothing
/// counted before it; an earlier one is counted in the window. The frame is refused where more than
/// 600 came in the window, or where it has more than 512 KiB.
pub proof fn frames_are_counted_by_the_minute(s: SocketView, now_ms: u64, text_bytes: usize)
    requires
        s.frame_count < u32::MAX,
    ensures
        ({
            let (s1, refusal) = socket::admitted(s, now_ms, text_bytes);
            let anew = now_ms > s.window_start_ms + 60_000;
            &&& s1.number == s.number
            &&& s1.recipient_id == s.recipient_id
            &&& anew ==> s1.window_start_ms == now_ms && s1.frame_count == 1
                && s1.dest_send_counts == Map::<Seq<char>, u32>::empty()
            &&& !anew ==> s1.window_start_ms == s.window_start_ms && s1.frame_count
                == s.frame_count + 1 && s1.dest_send_counts == s.dest_send_counts
            &&& refusal == if s1.frame_count > 600 {
                Some(
                    ServerFrameView::Error {
                        code: "rate_limited"@,
                        message: "too many frames on this socket"@,
                    },
                )
            } else if text_bytes > 524_288 {
                Some(ServerFrameView::Error { code: "too_large"@, message: "frame too large"@ })
            } else {
                None::<ServerFrameView>
            }
        }),
{
}

/// An envelope that was offered stays in the queue whether the socket took it or not. A socket that
/// did not take it is no longer the live one of its mailbox. Nothing else changes.
pub proof fn offered_envelopes_stay_queued(
    v: RelayView,
    to: Seq<char>,
    delivered: bool,
    k: Seq<char>,
)
    ensures
        ({
            let w = state::offer_settled(v, to, delivered);
            &&& w.queues == v.queues && w.queued_bytes == v.queued_bytes
            &&& w.mailboxes == v.mailboxes && w.bundles == v.bundles
            &&& w.online.contains_key(k) <==> v.online.contains_key(k) && (delivered || k != to)
            &&& w.online.contains_key(k) ==> w.online[k] == v.online[k]
        }),
{
}

/// Pruning drops exactly the bundles whose time has come, and is written down where there were any.
pub proof fn pruning_drops_expired_bundles(v: RelayView, now_ms: u64, k: Seq<char>)
    ensures
        ({
            let w = state::pruned(v, now_ms);
            &&& w.bundles.contains_key(k) <==> hosted(v, k, now_ms)
            &&& w.bundles.contains_key(k) ==> w.bundles[k] == v.bundles[k]
            &&& v.bundles.contains_key(k) && !hosted(v, k, now_ms) ==> w.dirty
            &&& (RelayView { bundles: v.bundles, dirty: v.dirty, ..w }) == v
        }),
{
}

/// A new relay knows no mailbox, no envelope and no bundle.
pub proof fn new_relays_are_empty(root: Seq<char>, k: Seq<char>)
    ensures
        ({
            let v = state::empty_relay(root);
            &&& !v.mailboxes.contains_key(k) && !v.queues.contains_key(k)
            &&& !v.online.contains_key(k) && !v.bundles.contains_key(k)
            &&& v.mailbox_count == 0 && v.queued_bytes == 0
            &&& v.trust_root == root && !v.dirty
        }),
{
}

/// The bytes of the ciphertexts in a queue.
pub open spec fn bytes_in(q: Seq<EnvelopeView>) -> nat
    decreases q.len(),
{
    if q.len() == 0 {
        0
    } else {
        bytes_in(q.drop_last()) + text::byte_len(q.last().ciphertext)
    }
}

proof fn bytes_agree(q: Seq<EnvelopeView>)
    ensures
        state::queue_bytes(q) == bytes_in(q),
    decreases q.len(),
{
    if q.len() > 0 {
        bytes_agree(q.drop_last());
    }
}

/// The relay's count of queued bytes follows every queue: it grows and shrinks by what joins and
/// what leaves.
pub proof fn queued_bytes_follow_the_queue(
    v: RelayView,
    s: SocketView,
    f: ClientFrameView,
    now_ms: u64,
    id: u128,
)
    requires
        s.recipient_id matches Some(rid) ==> v.queued_bytes >= bytes_in(waiting(v, rid)),
        f is SendEnvelope ==> v.queued_bytes >= bytes_in(waiting(v, f->to)),
    ensures
        ({
            let w = socket::handled(v, s, f, now_ms, id).0;
            &&& f is SendEnvelope ==> w.queued_bytes + bytes_in(waiting(v, f->to))
                == v.queued_bytes + bytes_in(waiting(w, f->to))
            &&& f is Ack || f is RetireMailbox ==> (s.recipient_id matches Some(rid)
                ==> w.queued_bytes + bytes_in(waiting(v, rid)) == v.queued_bytes + bytes_in(
                waiting(w, rid),
            ))
            &&& !(f is SendEnvelope || f is Ack || f is RetireMailbox) ==> w.queued_bytes
                == v.queued_bytes
        }),
{
    let w = socket::handled(v, s, f, now_ms, id).0;
    if f is SendEnvelope {
        bytes_agree(waiting(v, f->to));
        bytes_agree(waiting(w, f->to));
    }
    if let Some(rid) = s.recipient_id {
        bytes_agree(waiting(v, rid));
        bytes_agree(waiting(w, rid));
    }
}

/// The id of a confirmed envelope is the one that its sender is told, and the one that the live
/// socket is offered it under.
pub proof fn confirmations_name_their_envelope(
    v: RelayView,
    s: SocketView,
    f: ClientFrameView,
    now_ms: u64,
    id: u128,
)
    ensures
        ({
            let step = socket::handled(v, s, f, now_ms, id).2;
            &&& socket::confirms(step) <==> confirmed(step)
            &&& confirmed(step) ==> f is SendEnvelope && socket::confirmed_id(step) == id
            &&& step matches StepView::Offer { envelope, .. } ==> confirmed(step) && envelope.id
                == id
        }),
{
}

} // verus!
