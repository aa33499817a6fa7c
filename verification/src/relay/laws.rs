//! What holds of a relay whatever it is told.
use crate::frames::ClientFrameView;
use crate::frames::EnvelopeView;
use crate::frames::ServerFrameView;
use crate::ids;
use crate::relay::mailbox;
use crate::relay::socket;
use crate::relay::socket::SocketView;
use crate::relay::socket::StepView;
use crate::relay::state;
use crate::relay::state::RelayView;
use crate::relay::state::MAX_QUEUE_PER_RECIPIENT;
use crate::seqs;
use vstd::prelude::*;

verus! {

proof fn inv_after_insert(v: RelayView, w: RelayView, rid: Seq<char>)
    requires
        state::relay_inv(v),
        w.queues == v.queues,
        w.queued_bytes == v.queued_bytes,
        w.bundles == v.bundles,
        exists|a: mailbox::MailboxAuthView| w.mailboxes == #[trigger] v.mailboxes.insert(rid, a),
        w.mailbox_count == if v.mailboxes.contains_key(rid) {
            v.mailbox_count
        } else {
            v.mailbox_count + 1
        },
    ensures
        state::relay_inv(w),
        state::surplus(w) == state::surplus(v),
{
    let a = choose|a: mailbox::MailboxAuthView| w.mailboxes == #[trigger] v.mailboxes.insert(rid, a);
    assert(w.mailboxes.dom() =~= v.mailboxes.dom().insert(rid));
    if v.mailboxes.contains_key(rid) {
        assert(w.mailboxes.dom() =~= v.mailboxes.dom());
    }
}

proof fn inv_after_queue(v: RelayView, w: RelayView, rid: Seq<char>, q: Seq<EnvelopeView>)
    requires
        state::relay_inv(v),
        w.mailboxes == v.mailboxes,
        w.mailbox_count == v.mailbox_count,
        w.bundles == v.bundles,
        w.queues == v.queues.insert(rid, q),
        w.queued_bytes == v.queued_bytes - state::queue_bytes(state::queue_of(v, rid))
            + state::queue_bytes(q),
    ensures
        state::relay_inv(w),
        state::surplus(w) == state::surplus(v),
{
    state::total_insert(v.queues, rid, q);
    assert(state::queue_bytes(Seq::<EnvelopeView>::empty()) == 0);
}

proof fn inv_after_send(v: RelayView, to: Seq<char>, e: EnvelopeView)
    requires
        state::relay_inv(v),
    ensures
        state::relay_inv(state::enqueued(v, to, e)),
        state::surplus(state::enqueued(v, to, e)) == state::surplus(v),
{
    let q = state::queue_of(v, to);
    let kept = state::room_made(q);
    let after = kept.push(e);
    state::total_insert(v.queues, to, after);
    assert(state::queue_bytes(q) <= v.queued_bytes) by {
        assert(state::queue_bytes(Seq::<EnvelopeView>::empty()) == 0);
    }
    inv_after_queue(v, state::enqueued(v, to, e), to, after);
}

proof fn inv_after_ack(v: RelayView, rid: Seq<char>, acked_ids: Seq<u128>)
    requires
        state::relay_inv(v),
    ensures
        state::relay_inv(state::acked(v, rid, acked_ids)),
        state::surplus(state::acked(v, rid, acked_ids)) == state::surplus(v),
{
    if v.queues.contains_key(rid) {
        let q = v.queues[rid];
        let p = state::not_acked(acked_ids);
        let after = q.filter(p);
        state::total_split(v.queues, rid);
        inv_after_queue(v, state::acked(v, rid, acked_ids), rid, after);
    }
}

proof fn inv_after_forget(v: RelayView, rid: Seq<char>)
    requires
        state::relay_inv(v),
    ensures
        state::relay_inv(state::forgotten(v, rid)),
        state::surplus(state::forgotten(v, rid)) == state::surplus(v),
{
    let w = state::forgotten(v, rid);
    assert(w.mailboxes.dom() =~= v.mailboxes.dom().remove(rid));
    if !v.mailboxes.contains_key(rid) {
        assert(w.mailboxes.dom() =~= v.mailboxes.dom());
    }
    if v.queues.contains_key(rid) {
        state::total_split(v.queues, rid);
    } else {
        assert(w.queues =~= v.queues);
        assert(state::queue_bytes(Seq::<EnvelopeView>::empty()) == 0);
    }
}

proof fn pruned_bundles(v: RelayView, now_ms: u64)
    requires
        v.bundles.dom().finite(),
    ensures
        state::pruned(v, now_ms).bundles.dom().finite(),
        state::pruned(v, now_ms).bundles.dom().len() <= v.bundles.dom().len(),
{
    let live = state::live_bundles(v.bundles, now_ms);
    assert(live.dom().subset_of(v.bundles.dom()));
    vstd::set_lib::lemma_len_subset(live.dom(), v.bundles.dom());
}

proof fn inv_after_prune(v: RelayView, now_ms: u64)
    requires
        state::relay_inv(v),
    ensures
        state::relay_inv(state::pruned(v, now_ms)),
        state::surplus(state::pruned(v, now_ms)) == state::surplus(v),
{
    pruned_bundles(v, now_ms);
}

/// Whatever a frame asks for, the relay goes on counting its mailboxes exactly and every queued
/// byte; where it counts the bytes exactly, it goes on doing so.
pub proof fn inv_is_kept(
    v: RelayView,
    s: SocketView,
    frame: ClientFrameView,
    now_ms: u64,
    id: u128,
)
    requires
        state::relay_inv(v),
    ensures
        state::relay_inv(socket::handled(v, s, frame, now_ms, id).0),
        state::surplus(socket::handled(v, s, frame, now_ms, id).0) == state::surplus(v),
{
    let (w, _, _) = socket::handled(v, s, frame, now_ms, id);
    match frame {
        ClientFrameView::Hello { recipient_id, auth_token, delivery_token, pow, .. } => {
            if w != v {
                match socket::registered(v, recipient_id, auth_token, delivery_token, pow, now_ms) {
                    Ok(x) => {
                        inv_after_insert(v, x, recipient_id);
                    },
                    Err(_) => {},
                }
            }
        },
        ClientFrameView::SetDeliveryTokens { .. } => {
            if w != v {
                inv_after_insert(v, w, s.recipient_id->0);
            }
        },
        ClientFrameView::SendEnvelope { to, envelope_type, ciphertext, .. } => {
            inv_after_send(v, to, EnvelopeView { id, to, envelope_type, ciphertext });
        },
        ClientFrameView::UploadBundle { .. } => {
            inv_after_prune(v, now_ms);
        },
        ClientFrameView::FetchBundle { .. } => {
            inv_after_prune(v, now_ms);
        },
        ClientFrameView::Ack { ids } => {
            match s.recipient_id {
                Some(rid) => {
                    inv_after_ack(v, rid, ids);
                },
                None => {},
            }
        },
        ClientFrameView::RetireMailbox => {
            match s.recipient_id {
                Some(rid) => {
                    inv_after_forget(v, rid);
                },
                None => {},
            }
        },
        _ => {},
    }
}

/// Whatever a frame asks for, every envelope goes on standing in the queue of the mailbox that it
/// is addressed to, and every bundle under its own handle.
pub proof fn addresses_are_kept(
    v: RelayView,
    s: SocketView,
    frame: ClientFrameView,
    now_ms: u64,
    id: u128,
)
    requires
        state::well_addressed(v),
    ensures
        state::well_addressed(socket::handled(v, s, frame, now_ms, id).0),
{
    let w = socket::handled(v, s, frame, now_ms, id).0;
    assert forall|k: Seq<char>, i: int|
        w.queues.contains_key(k) && 0 <= i < w.queues[k].len() implies (
    #[trigger] w.queues[k][i]).to == k by {
        if v.queues.contains_key(k) && w.queues[k] == v.queues[k] {
            assert(v.queues[k][i].to == k);
        } else {
            match frame {
                ClientFrameView::SendEnvelope { .. } => {
                    let q = state::queue_of(v, k);
                    let kept = state::room_made(q);
                    if i < kept.len() {
                        assert(w.queues[k][i] == q[i + q.len() - kept.len()]);
                        assert(v.queues[k][i + q.len() - kept.len()].to == k);
                    }
                },
                ClientFrameView::Ack { ids } => {
                    let q = v.queues[k];
                    let after = w.queues[k];
                    seqs::filter_members(q, state::not_acked(ids));
                    assert(after.contains(after[i]));
                    assert(q.contains(after[i]));
                    let m = choose|m: int| 0 <= m < q.len() && q[m] == after[i];
                    assert(v.queues[k][m].to == k);
                },
                _ => {},
            }
        }
    }
}

/// Whatever a frame asks for, the relay stays within its limits: mailboxes, envelopes per
/// mailbox, queued bytes and bundles.
pub proof fn limits_are_kept(
    v: RelayView,
    s: SocketView,
    frame: ClientFrameView,
    now_ms: u64,
    id: u128,
)
    requires
        state::relay_inv(v),
        state::relay_bounded(v),
    ensures
        state::relay_bounded(socket::handled(v, s, frame, now_ms, id).0),
{
    let (w, _, _) = socket::handled(v, s, frame, now_ms, id);
    match frame {
        ClientFrameView::SendEnvelope { to, envelope_type, ciphertext, .. } => {
            if w.queues != v.queues {
                let e = EnvelopeView { id, to, envelope_type, ciphertext };
                let q = state::queue_of(v, to);
                let kept = state::room_made(q);
                state::queue_bytes_push(kept, e);
                let cut = q.len() - kept.len();
                assert(q =~= q.take(cut) + q.skip(cut));
                assert(kept =~= q.skip(cut));
                state::queue_bytes_concat(q.take(cut), q.skip(cut));
                assert(state::queue_bytes(q) <= v.queued_bytes) by {
                    state::total_insert(v.queues, to, q);
                    assert(state::queue_bytes(Seq::<EnvelopeView>::empty()) == 0);
                }
                assert forall|k: Seq<char>| #[trigger]
                    w.queues.contains_key(k) implies w.queues[k].len()
                    <= MAX_QUEUE_PER_RECIPIENT by {
                    if k != to {
                        assert(v.queues.contains_key(k));
                    }
                }
            }
        },
        ClientFrameView::UploadBundle { bundle_id, .. } => {
            pruned_bundles(v, now_ms);
            if w.bundles != v.bundles {
                let p = state::pruned(v, now_ms).bundles;
                assert(w.bundles.dom() =~= p.dom().insert(bundle_id));
            }
        },
        ClientFrameView::FetchBundle { .. } => {
            pruned_bundles(v, now_ms);
        },
        ClientFrameView::Ack { ids } => {
            match s.recipient_id {
                Some(rid) => {
                    if v.queues.contains_key(rid) {
                        let q = v.queues[rid];
                        seqs::filter_members(q, state::not_acked(ids));
                        state::queue_bytes_filter(q, state::not_acked(ids));
                        state::total_split(v.queues, rid);
                        assert forall|k: Seq<char>| #[trigger]
                            w.queues.contains_key(k) implies w.queues[k].len()
                            <= MAX_QUEUE_PER_RECIPIENT by {
                            if k != rid {
                                assert(v.queues.contains_key(k));
                            }
                        }
                    }
                },
                None => {},
            }
        },
        ClientFrameView::RetireMailbox => {
            match s.recipient_id {
                Some(rid) => {
                    assert forall|k: Seq<char>| #[trigger]
                        w.queues.contains_key(k) implies w.queues[k].len()
                        <= MAX_QUEUE_PER_RECIPIENT by {
                        assert(v.queues.contains_key(k));
                    }
                    if v.queues.contains_key(rid) {
                        state::total_split(v.queues, rid);
                    } else {
                        assert(state::queue_bytes(Seq::<EnvelopeView>::empty()) == 0);
                    }
                },
                None => {},
            }
        },
        _ => {},
    }
}

/// A mailbox belongs to whoever opened it first: a hello with another receive token changes
/// nothing and is refused.
pub proof fn first_owner_keeps_the_mailbox(
    v: RelayView,
    s: SocketView,
    rid: Seq<char>,
    auth: Seq<char>,
    delivery: Seq<char>,
    protocol: Option<u16>,
    proof_text: Option<Seq<char>>,
    cert_only: bool,
    now_ms: u64,
)
    requires
        v.mailboxes.contains_key(rid),
        v.mailboxes[rid].receive_auth_hash != ids::token_digest(auth),
    ensures
        ({
            let (w, s1, step) = socket::hello_step(
                v,
                s,
                rid,
                auth,
                delivery,
                protocol,
                proof_text,
                cert_only,
                now_ms,
            );
            w == v && s1 == s && step matches StepView::Reply {
                frame: ServerFrameView::Error { .. },
            }
        }),
{
}

/// No frame changes the receive token of a mailbox, and a mailbox goes away only where its owner
/// retires it.
pub proof fn receive_tokens_never_change(
    v: RelayView,
    s: SocketView,
    frame: ClientFrameView,
    now_ms: u64,
    id: u128,
    rid: Seq<char>,
)
    requires
        v.mailboxes.contains_key(rid),
    ensures
        ({
            let w = socket::handled(v, s, frame, now_ms, id).0;
            if w.mailboxes.contains_key(rid) {
                w.mailboxes[rid].receive_auth_hash == v.mailboxes[rid].receive_auth_hash
            } else {
                frame == ClientFrameView::RetireMailbox && s.recipient_id == Some(rid)
            }
        }),
{
}

/// A socket stands for a mailbox only after it showed the receive token of that mailbox.
pub proof fn sockets_show_the_receive_token(
    v: RelayView,
    s: SocketView,
    frame: ClientFrameView,
    now_ms: u64,
    id: u128,
)
    ensures
        ({
            let (w, s1, _) = socket::handled(v, s, frame, now_ms, id);
            s1.recipient_id == s.recipient_id || (frame matches ClientFrameView::Hello {
                recipient_id,
                auth_token,
                ..
            } && s1.recipient_id == Some(recipient_id) && w.mailboxes.contains_key(recipient_id)
                && w.mailboxes[recipient_id].receive_auth_hash == ids::token_digest(auth_token))
        }),
{
}

/// A queue changes only by an envelope that was sent with a delivery token of its mailbox, or by
/// the mailbox's owner acknowledging envelopes or retiring it.
pub proof fn queues_change_only_with_a_token(
    v: RelayView,
    s: SocketView,
    frame: ClientFrameView,
    now_ms: u64,
    id: u128,
    rid: Seq<char>,
)
    ensures
        ({
            let w = socket::handled(v, s, frame, now_ms, id).0;
            state::queue_of(w, rid) == state::queue_of(v, rid) || match frame {
                ClientFrameView::SendEnvelope { to, delivery_token, .. } => to == rid
                    && v.mailboxes.contains_key(rid) && mailbox::accepts(
                    v.mailboxes[rid],
                    ids::token_digest(delivery_token),
                ),
                ClientFrameView::Ack { .. } => s.recipient_id == Some(rid),
                ClientFrameView::RetireMailbox => s.recipient_id == Some(rid),
                _ => false,
            }
        }),
{
}

/// A confirmed envelope waits at the end of the recipient's queue, whole, and the recipient's
/// next hello hands it out.
pub proof fn sent_envelopes_are_handed_out(
    v: RelayView,
    s: SocketView,
    client_ref: Option<Seq<char>>,
    to: Seq<char>,
    token: Seq<char>,
    envelope_type: Seq<char>,
    ciphertext: Seq<char>,
    id: u128,
    other: SocketView,
    auth: Seq<char>,
    delivery: Seq<char>,
    protocol: u16,
    proof_text: Option<Seq<char>>,
    now_ms: u64,
)
    requires
        socket::send_step(v, s, client_ref, to, token, envelope_type, ciphertext, id).2 matches
            StepView::Offer { .. } || (socket::send_step(
            v,
            s,
            client_ref,
            to,
            token,
            envelope_type,
            ciphertext,
            id,
        ).2 matches StepView::Reply { frame: ServerFrameView::SendOk { .. } }),
        v.mailboxes[to].receive_auth_hash == ids::token_digest(auth),
        ids::token_shape(auth, 16),
        ids::token_shape(delivery, 16),
    ensures
        ({
            let e = EnvelopeView { id, to, envelope_type, ciphertext };
            let w = socket::send_step(
                v,
                s,
                client_ref,
                to,
                token,
                envelope_type,
                ciphertext,
                id,
            ).0;
            let q = state::queue_of(w, to);
            &&& q.len() > 0 && q.last() == e
            &&& socket::hello_step(
                w,
                other,
                to,
                auth,
                delivery,
                Some(protocol),
                proof_text,
                false,
                now_ms,
            ).2 == (StepView::Welcome {
                frame: socket::hello_ok(w, protocol, now_ms),
                backlog: q,
            })
        }),
{
    let e = EnvelopeView { id, to, envelope_type, ciphertext };
    let q = state::queue_of(v, to);
    assert(state::room_made(q).push(e).last() == e);
}

/// An acknowledgement takes out the acknowledged envelopes of the socket's mailbox and nothing
/// else.
pub proof fn acknowledgement_is_exact(
    v: RelayView,
    s: SocketView,
    acked_ids: Seq<u128>,
    rid: Seq<char>,
    e: EnvelopeView,
)
    requires
        s.recipient_id == Some(rid),
    ensures
        ({
            let w = socket::ack_step(v, s, acked_ids).0;
            &&& state::queue_of(w, rid).contains(e) <==> state::queue_of(v, rid).contains(e)
                && !acked_ids.contains(e.id)
            &&& forall|k: Seq<char>| k != rid ==> #[trigger] state::queue_of(w, k)
                == state::queue_of(v, k)
            &&& w.mailboxes == v.mailboxes
        }),
{
    let q = state::queue_of(v, rid);
    seqs::filter_members(q, state::not_acked(acked_ids));
    if !v.queues.contains_key(rid) {
        assert(q.len() == 0);
    }
}

/// What the sender of an envelope is told does not depend on who is online.
pub proof fn confirmations_hide_presence(
    v: RelayView,
    online: Map<Seq<char>, u64>,
    s: SocketView,
    client_ref: Option<Seq<char>>,
    to: Seq<char>,
    token: Seq<char>,
    envelope_type: Seq<char>,
    ciphertext: Seq<char>,
    id: u128,
)
    ensures
        told(
            socket::send_step(v, s, client_ref, to, token, envelope_type, ciphertext, id).2,
        ) == told(
            socket::send_step(
                (RelayView { online, ..v }),
                s,
                client_ref,
                to,
                token,
                envelope_type,
                ciphertext,
                id,
            ).2,
        ),
{
}

/// The frame that the socket itself gets.
pub open spec fn told(step: StepView) -> Option<ServerFrameView> {
    match step {
        StepView::Reply { frame } => Some(frame),
        StepView::Welcome { frame, .. } => Some(frame),
        StepView::Offer { frame, .. } => Some(frame),
        StepView::Certify { .. } => None,
        StepView::Close { frame } => Some(frame),
    }
}

/// A socket that only wants a certificate does not become the live one of its mailbox and gets
/// no envelope.
pub proof fn certificate_sockets_stay_aside(
    v: RelayView,
    s: SocketView,
    rid: Seq<char>,
    auth: Seq<char>,
    delivery: Seq<char>,
    protocol: Option<u16>,
    proof_text: Option<Seq<char>>,
    now_ms: u64,
)
    ensures
        ({
            let (w, _, step) = socket::hello_step(
                v,
                s,
                rid,
                auth,
                delivery,
                protocol,
                proof_text,
                true,
                now_ms,
            );
            w.online == v.online && step is Reply
        }),
{
}

/// A retired mailbox is gone: it has no tokens, no envelopes and no live socket, and sending to
/// it is denied.
pub proof fn retired_mailboxes_are_gone(
    v: RelayView,
    s: SocketView,
    rid: Seq<char>,
    sender: SocketView,
    client_ref: Option<Seq<char>>,
    token: Seq<char>,
    envelope_type: Seq<char>,
    ciphertext: Seq<char>,
    id: u128,
)
    requires
        s.recipient_id == Some(rid),
    ensures
        ({
            let w = socket::retire_step(v, s).0;
            &&& !w.mailboxes.contains_key(rid)
            &&& state::queue_of(w, rid) == Seq::<EnvelopeView>::empty()
            &&& !w.online.contains_key(rid)
            &&& socket::send_step(
                w,
                sender,
                client_ref,
                rid,
                token,
                envelope_type,
                ciphertext,
                id,
            ).2 matches StepView::Reply { frame: ServerFrameView::SendError { .. } }
        }),
{
}

/// A delivery token that is not among those that the owner set is denied.
pub proof fn revoked_tokens_are_denied(
    v: RelayView,
    s: SocketView,
    rid: Seq<char>,
    request_id: Seq<char>,
    tokens: Seq<Seq<char>>,
    sender: SocketView,
    client_ref: Option<Seq<char>>,
    token: Seq<char>,
    envelope_type: Seq<char>,
    ciphertext: Seq<char>,
    id: u128,
)
    requires
        s.recipient_id == Some(rid),
        socket::tokens_step(v, s, request_id, tokens).1 matches StepView::Reply {
            frame: ServerFrameView::DeliveryTokensSet { .. },
        },
        !socket::token_digests(tokens).contains(ids::token_digest(token)),
    ensures
        socket::send_step(
            socket::tokens_step(v, s, request_id, tokens).0,
            sender,
            client_ref,
            rid,
            token,
            envelope_type,
            ciphertext,
            id,
        ).2 matches StepView::Reply { frame: ServerFrameView::SendError { .. } },
{
    let hashes = socket::token_digests(tokens);
    mailbox::replaced_tokens_decide(v.mailboxes[rid], hashes, ids::token_digest(token));
}

/// A hosted bundle is handed out as it was uploaded until its time comes, and not after.
pub proof fn bundles_are_hosted_until_they_expire(
    v: RelayView,
    request_id: Seq<char>,
    bundle_id: Seq<char>,
    ciphertext: Seq<char>,
    asked: u64,
    uploaded_ms: u64,
    fetch_id: Seq<char>,
    fetched_ms: u64,
)
    requires
        socket::upload_step(v, request_id, bundle_id, ciphertext, asked, uploaded_ms).1 matches
            StepView::Reply { frame: ServerFrameView::BundleUploaded { .. } },
    ensures
        ({
            let w = socket::upload_step(
                v,
                request_id,
                bundle_id,
                ciphertext,
                asked,
                uploaded_ms,
            ).0;
            let expires = socket::bundle_expiry(asked, uploaded_ms);
            socket::fetch_step(w, fetch_id, bundle_id, fetched_ms).1 == if fetched_ms < expires {
                StepView::Reply {
                    frame: ServerFrameView::Bundle {
                        request_id: fetch_id,
                        bundle_id,
                        ciphertext,
                        expires_at_ms: expires,
                    },
                }
            } else {
                socket::refuse(
                    "bundle_not_found"@,
                    "invite bundle was not found or has expired"@,
                )
            }
        }),
{
}

/// A bundle is hosted for at least a minute and at most two days, and for as long as was asked
/// where that lies between.
pub proof fn bundle_expiry_is_clamped(asked: u64, now_ms: u64)
    requires
        now_ms + state::MAX_BUNDLE_TTL_MS <= u64::MAX,
    ensures
        now_ms + state::MIN_BUNDLE_TTL_MS <= socket::bundle_expiry(asked, now_ms) <= now_ms
            + state::MAX_BUNDLE_TTL_MS,
        now_ms + state::MIN_BUNDLE_TTL_MS <= asked <= now_ms + state::MAX_BUNDLE_TTL_MS
            ==> socket::bundle_expiry(asked, now_ms) == asked,
{
}

/// The negotiated protocol version is the highest that both sides take, and there is one wherever
/// both ranges meet.
pub proof fn negotiation_is_fair(pmin: Option<u16>, pmax: Option<u16>, pversion: Option<u16>, n: u16)
    ensures
        ({
            let low = socket::client_min(pmin, pversion);
            let high = socket::client_min(pmax, pversion);
            let common = |x: u16|
                low <= x <= high && crate::frames::PROTOCOL_MIN_SUPPORTED <= x
                    <= crate::frames::PROTOCOL_VERSION;
            match socket::negotiated(pmin, pmax, pversion) {
                Some(x) => common(x) && (common(n) ==> n <= x),
                None => !common(n),
            }
        }),
{
}

/// The socket after the frames, each with its time and its length, were counted.
pub open spec fn after_frames(s: SocketView, frames: Seq<(u64, usize)>) -> SocketView
    decreases frames.len(),
{
    if frames.len() == 0 {
        s
    } else {
        socket::admitted(
            after_frames(s, frames.drop_last()),
            frames.last().0,
            frames.last().1,
        ).0
    }
}

/// Every frame comes in the window of the socket.
pub open spec fn in_window(s: SocketView, frames: Seq<(u64, usize)>) -> bool {
    forall|i: int|
        0 <= i < frames.len() ==> (#[trigger] frames[i]).0 - s.window_start_ms
            <= socket::RATE_WINDOW_MS
}

proof fn frames_are_counted(s: SocketView, frames: Seq<(u64, usize)>)
    requires
        s.frame_count == 0,
        in_window(s, frames),
        frames.len() <= u32::MAX,
    ensures
        after_frames(s, frames).frame_count == frames.len(),
        after_frames(s, frames).window_start_ms == s.window_start_ms,
    decreases frames.len(),
{
    if frames.len() > 0 {
        assert forall|i: int| 0 <= i < frames.drop_last().len() implies (
        #[trigger] frames.drop_last()[i]).0 - s.window_start_ms <= socket::RATE_WINDOW_MS by {
            assert(frames.drop_last()[i] == frames[i]);
        }
        frames_are_counted(s, frames.drop_last());
        assert(frames[frames.len() - 1].0 - s.window_start_ms <= socket::RATE_WINDOW_MS);
    }
}

/// Of the frames of admissible length that a socket sends in a window that just began, exactly
/// the first 600 are let through, whatever came before them in the window.
pub proof fn frame_rate_is_limited(
    s: SocketView,
    earlier: Seq<(u64, usize)>,
    now_ms: u64,
    text_bytes: usize,
)
    requires
        s.frame_count == 0,
        in_window(s, earlier.push((now_ms, text_bytes))),
        earlier.len() < u32::MAX,
        text_bytes <= state::MAX_FRAME_BYTES,
    ensures
        socket::admitted(after_frames(s, earlier), now_ms, text_bytes).1 is None <==> earlier.len()
            < socket::MAX_FRAMES_PER_WINDOW,
{
    let all = earlier.push((now_ms, text_bytes));
    assert forall|i: int| 0 <= i < earlier.len() implies (#[trigger] earlier[i]).0
        - s.window_start_ms <= socket::RATE_WINDOW_MS by {
        assert(all[i] == earlier[i]);
    }
    frames_are_counted(s, earlier);
    assert(all[earlier.len() as int].0 == now_ms);
}

/// An envelope that a socket sends, and the relay as it then is.
pub struct SendView {
    pub relay: RelayView,
    pub client_ref: Option<Seq<char>>,
    pub token: Seq<char>,
    pub envelope_type: Seq<char>,
    pub ciphertext: Seq<char>,
    pub id: u128,
}

/// What becomes of an envelope that a socket sends to a mailbox.
pub open spec fn send(s: SocketView, to: Seq<char>, e: SendView) -> (
    RelayView,
    SocketView,
    StepView,
) {
    socket::send_step(
        e.relay,
        s,
        e.client_ref,
        to,
        e.token,
        e.envelope_type,
        e.ciphertext,
        e.id,
    )
}

/// The socket after it sent the envelopes to a mailbox, one after the other.
pub open spec fn after_sends(s: SocketView, to: Seq<char>, sends: Seq<SendView>) -> SocketView
    decreases sends.len(),
{
    if sends.len() == 0 {
        s
    } else {
        send(after_sends(s, to, sends.drop_last()), to, sends.last()).1
    }
}

/// Every envelope is sent with something that can be a token.
pub open spec fn with_tokens(sends: Seq<SendView>) -> bool {
    forall|i: int| 0 <= i < sends.len() ==> ids::token_shape((#[trigger] sends[i]).token, 16)
}

proof fn sends_are_counted(s: SocketView, to: Seq<char>, sends: Seq<SendView>)
    requires
        !s.dest_send_counts.contains_key(to),
        ids::recipient_shape(to),
        with_tokens(sends),
        sends.len() < u32::MAX,
    ensures
        socket::sends_so_far(after_sends(s, to, sends), to) == sends.len() + 1,
    decreases sends.len(),
{
    if sends.len() > 0 {
        let before = sends.drop_last();
        assert forall|i: int| 0 <= i < before.len() implies ids::token_shape(
            (#[trigger] before[i]).token,
            16,
        ) by {
            assert(before[i] == sends[i]);
        }
        sends_are_counted(s, to, before);
        assert(ids::token_shape(sends[sends.len() - 1].token, 16));
    }
}

/// A socket that sent to a mailbox 30 times in a window is refused further sends to it, and
/// before that it is refused none on that account.
pub proof fn send_rate_is_limited(
    s: SocketView,
    to: Seq<char>,
    earlier: Seq<SendView>,
    e: SendView,
)
    requires
        !s.dest_send_counts.contains_key(to),
        ids::recipient_shape(to),
        with_tokens(earlier),
        ids::token_shape(e.token, 16),
        earlier.len() < u32::MAX,
    ensures
        send(after_sends(s, to, earlier), to, e).2 == (StepView::Reply {
            frame: crate::frames::send_refusal(
                e.client_ref,
                "rate_limited"@,
                "too many sends to this destination"@,
            ),
        }) <==> earlier.len() >= socket::MAX_SENDS_PER_DEST_PER_WINDOW,
{
    sends_are_counted(s, to, earlier);
    reveal_strlit("rate_limited");
    reveal_strlit("bad_envelope");
    reveal_strlit("delivery_denied");
    reveal_strlit("relay_full");
    assert("rate_limited"@[0] == 'r' && "rate_limited"@[1] == 'a');
    assert("bad_envelope"@[0] == 'b');
    assert("delivery_denied"@[0] == 'd');
    assert("relay_full"@[1] == 'e');
}

/// Sending needs no hello: what becomes of an envelope, and what its sender is told, does not
/// depend on the mailbox that the sender's socket stands for.
pub proof fn sends_name_no_sender(
    v: RelayView,
    s: SocketView,
    recipient_id: Option<Seq<char>>,
    client_ref: Option<Seq<char>>,
    to: Seq<char>,
    token: Seq<char>,
    envelope_type: Seq<char>,
    ciphertext: Seq<char>,
    id: u128,
)
    ensures
        ({
            let (w, s1, step) = socket::send_step(
                v,
                s,
                client_ref,
                to,
                token,
                envelope_type,
                ciphertext,
                id,
            );
            socket::send_step(
                v,
                SocketView { recipient_id, ..s },
                client_ref,
                to,
                token,
                envelope_type,
                ciphertext,
                id,
            ) == (w, SocketView { recipient_id, ..s1 }, step)
        }),
{
}

/// A mailbox comes into being only by a hello with a proof of work for it.
pub proof fn new_mailboxes_need_work(
    v: RelayView,
    s: SocketView,
    frame: ClientFrameView,
    now_ms: u64,
    id: u128,
    rid: Seq<char>,
)
    requires
        !v.mailboxes.contains_key(rid),
        socket::handled(v, s, frame, now_ms, id).0.mailboxes.contains_key(rid),
    ensures
        frame matches ClientFrameView::Hello { recipient_id, pow: Some(p), .. } && recipient_id
            == rid && crate::pow::pow_accepted(rid, p, crate::pow::pow_window(now_ms)),
{
}

/// An envelope waits until the owner of the mailbox acknowledges it or retires the mailbox, or
/// until a new envelope needs its place in a full queue.
pub proof fn waiting_envelopes_stay(
    v: RelayView,
    s: SocketView,
    frame: ClientFrameView,
    now_ms: u64,
    id: u128,
    rid: Seq<char>,
    e: EnvelopeView,
)
    requires
        state::queue_of(v, rid).contains(e),
    ensures
        state::queue_of(socket::handled(v, s, frame, now_ms, id).0, rid).contains(e) || match frame {
            ClientFrameView::Ack { ids } => s.recipient_id == Some(rid) && ids.contains(e.id),
            ClientFrameView::RetireMailbox => s.recipient_id == Some(rid),
            ClientFrameView::SendEnvelope { to, .. } => to == rid && state::queue_of(v, rid).len()
                >= state::MAX_QUEUE_PER_RECIPIENT,
            _ => false,
        },
{
    let w = socket::handled(v, s, frame, now_ms, id).0;
    let q = state::queue_of(v, rid);
    queues_change_only_with_a_token(v, s, frame, now_ms, id, rid);
    match frame {
        ClientFrameView::Ack { ids: acked_ids } => {
            if s.recipient_id == Some(rid) {
                acknowledgement_is_exact(v, s, acked_ids, rid, e);
            }
        },
        ClientFrameView::SendEnvelope { to, .. } => {
            if to == rid && q.len() < state::MAX_QUEUE_PER_RECIPIENT {
                let i = choose|i: int| 0 <= i < q.len() && q[i] == e;
                if state::queue_of(w, rid) != q {
                    assert(state::queue_of(w, rid)[i] == e);
                }
            }
        },
        _ => {},
    }
}

} // verus!
