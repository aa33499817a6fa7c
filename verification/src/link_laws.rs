//! What holds of a connection to a relay: what each frame of the relay leads to, and what is asked
//! of it.
use crate::contact_laws;
use crate::events::AckView;
use crate::events::CertificateView;
use crate::events::FailureView;
use crate::events::ReceiptView;
use crate::events::StatusView;
use crate::frames::ClientFrameView;
use crate::frames::EnvelopeView;
use crate::frames::ServerFrameView;
use crate::ids;
use crate::link;
use crate::link::LinkActionView;
use crate::link::LinkStepView;
use crate::link::LinkView;
use crate::outbound;
use crate::outbound::CertificateStepView;
use crate::outbound::SendPlanView;
use crate::requests;
use crate::text;
use crate::urls;
use vstd::prelude::*;

verus! {

// ---------------------------------------------------------------------------------------------
// Frames of the relay.
// ---------------------------------------------------------------------------------------------

/// What the user is told of a connection.
pub open spec fn told(l: LinkView, state: Seq<char>, reason: Option<Seq<char>>) -> LinkActionView {
    LinkActionView::Status { event: StatusView { server_id: l.server_id, status: state, reason } }
}

/// The relay's trust root is the one that was seen in this session, or the first.
pub open spec fn root_holds(
    roots: Map<Seq<char>, Seq<char>>,
    l: LinkView,
    root: Seq<char>,
) -> bool {
    roots.contains_key(l.server_id) ==> roots[l.server_id] == root
}

/// The version is one that the client speaks, 4 or 5, and within what the relay says it speaks.
pub open spec fn version_agreed(version: u16, lowest: Option<u16>, highest: Option<u16>) -> bool {
    &&& 4 <= version <= 5
    &&& lowest matches Some(m) ==> m <= version
    &&& highest matches Some(m) ==> version <= m
}

/// The clocks differ by more than five minutes.
pub open spec fn clocks_differ(a: u64, b: u64) -> bool {
    a > b + 300_000 || b > a + 300_000
}

/// A greeting is accepted exactly where the version is agreed and the trust root holds. The
/// connection is then ready, which whoever waits for it is told once, and the root is kept. Else
/// the connection ends, and nothing is kept. A clock that is off is remarked on either way.
pub proof fn greetings_are_accepted_exactly_when_they_may_be(
    l: LinkView,
    roots: Map<Seq<char>, Seq<char>>,
    version: u16,
    lowest: Option<u16>,
    highest: Option<u16>,
    server_ms: u64,
    root: Seq<char>,
    now_ms: u64,
)
    ensures
        ({
            let f = ServerFrameView::HelloOk {
                protocol_version: version,
                min_supported: lowest,
                current_protocol: highest,
                server_time_ms: server_ms,
                trust_root_b64: root,
            };
            let (k, after, step) = link::stepped(l, roots, f, now_ms);
            let good = version_agreed(version, lowest, highest) && root_holds(roots, l, root);
            let off = clocks_differ(server_ms, now_ms);
            let n = if off {
                1int
            } else {
                0int
            };
            &&& step.end is None <==> good
            &&& good ==> k == (LinkView { waiting: false, ..l }) && after == roots.insert(
                l.server_id,
                root,
            )
            &&& !good ==> k == l && after == roots && step.actions.len() == n
            &&& off ==> step.actions.len() > 0 && (step.actions[0] matches LinkActionView::Status {
                event,
            } && event.status == "clock_skew"@ && event.server_id == l.server_id
                && event.reason is Some)
            &&& good && l.waiting ==> step.actions.len() == n + 2 && step.actions[n]
                == LinkActionView::Ready && step.actions[n + 1] == told(l, "ready"@, None)
            &&& good && !l.waiting ==> step.actions.len() == n + 1 && step.actions[n] == told(
                l,
                "ready"@,
                None,
            )
        }),
{
}

/// A certificate is handed on, whole and under its request, where its trust root holds; else the
/// connection ends.
pub proof fn certificates_are_handed_on(
    l: LinkView,
    roots: Map<Seq<char>, Seq<char>>,
    request_id: Seq<char>,
    certificate_b64: Seq<char>,
    root: Seq<char>,
    expires_at_ms: u64,
    now_ms: u64,
)
    ensures
        ({
            let f = ServerFrameView::SenderCertificate {
                request_id,
                certificate_b64,
                trust_root_b64: root,
                expires_at_ms,
            };
            let (k, after, step) = link::stepped(l, roots, f, now_ms);
            let good = root_holds(roots, l, root);
            &&& k == l
            &&& good ==> after == roots.insert(l.server_id, root) && step.end is None
                && step.actions == seq![
                LinkActionView::Certificate {
                    request_id,
                    certificate: CertificateView {
                        certificate_b64,
                        trust_root_b64: root,
                        expires_at_ms,
                    },
                },
            ]
            &&& !good ==> after == roots && step.end is Some && step.actions.len() == 0
        }),
{
}

/// An envelope is handed on as it came. A confirmation settles the request that it names, and is
/// noted. A refusal fails the request that it names, is noted with its reason, and is shown.
/// Confirmed tokens settle their request. None of these changes the connection.
pub proof fn frames_settle_their_requests(
    l: LinkView,
    roots: Map<Seq<char>, Seq<char>>,
    now_ms: u64,
    envelope: EnvelopeView,
    id: u128,
    queued: bool,
    client_ref: Option<Seq<char>>,
    code: Seq<char>,
    message: Seq<char>,
    request_id: Seq<char>,
    active_count: nat,
)
    ensures
        link::stepped(l, roots, ServerFrameView::Envelope { envelope }, now_ms) == (
            l,
            roots,
            LinkStepView { actions: seq![LinkActionView::Envelope { envelope }], end: None },
        ),
        link::stepped(l, roots, ServerFrameView::SendOk { id, queued, client_ref }, now_ms) == (
            l,
            roots,
            LinkStepView {
                actions: (if client_ref is Some {
                    seq![
                        LinkActionView::Sent {
                            client_ref: client_ref->0,
                            ack: AckView { id, queued, client_ref },
                        },
                    ]
                } else {
                    Seq::empty()
                }).push(
                    LinkActionView::Receipt {
                        receipt: ReceiptView { server_id: l.server_id, id, queued, client_ref },
                    },
                ),
                end: None,
            },
        ),
        link::stepped(
            l,
            roots,
            ServerFrameView::SendError { client_ref, code, message },
            now_ms,
        ) == (
            l,
            roots,
            LinkStepView {
                actions: (if client_ref is Some {
                    seq![
                        LinkActionView::NotSent {
                            client_ref: client_ref->0,
                            reason: code + ": "@ + message,
                        },
                    ]
                } else {
                    Seq::empty()
                }).push(
                    LinkActionView::Failure {
                        failure: FailureView { server_id: l.server_id, client_ref, code, message },
                    },
                ).push(told(l, "send_error"@, Some(code + ": "@ + message))),
                end: None,
            },
        ),
        link::stepped(
            l,
            roots,
            ServerFrameView::DeliveryTokensSet { request_id, active_count },
            now_ms,
        ) == (
            l,
            roots,
            LinkStepView { actions: seq![LinkActionView::TokensSet { request_id }], end: None },
        ),
{
    let none = Seq::<LinkActionView>::empty();
    assert(link::stepped(
        l,
        roots,
        ServerFrameView::SendOk { id, queued, client_ref },
        now_ms,
    ).2.actions =~= (if client_ref is Some {
        seq![
            LinkActionView::Sent {
                client_ref: client_ref->0,
                ack: AckView { id, queued, client_ref },
            },
        ]
    } else {
        none
    }).push(
        LinkActionView::Receipt {
            receipt: ReceiptView { server_id: l.server_id, id, queued, client_ref },
        },
    ));
    assert(link::stepped(
        l,
        roots,
        ServerFrameView::SendError { client_ref, code, message },
        now_ms,
    ).2.actions =~= (if client_ref is Some {
        seq![
            LinkActionView::NotSent { client_ref: client_ref->0, reason: code + ": "@ + message },
        ]
    } else {
        none
    }).push(
        LinkActionView::Failure {
            failure: FailureView { server_id: l.server_id, client_ref, code, message },
        },
    ).push(told(l, "send_error"@, Some(code + ": "@ + message))));
}

/// An error of the relay is shown. Whoever waits for the connection is told once that it will not
/// be ready. The connection stays.
pub proof fn errors_end_the_wait(
    l: LinkView,
    roots: Map<Seq<char>, Seq<char>>,
    code: Seq<char>,
    message: Seq<char>,
    now_ms: u64,
)
    ensures
        ({
            let (k, after, step) = link::stepped(
                l,
                roots,
                ServerFrameView::Error { code, message },
                now_ms,
            );
            let line = code + ": "@ + message;
            &&& k == (LinkView { waiting: false, ..l }) && after == roots && step.end is None
            &&& l.waiting ==> step.actions == seq![
                LinkActionView::NotReady { reason: line },
                told(l, "server_error"@, Some(line)),
            ]
            &&& !l.waiting ==> step.actions == seq![told(l, "server_error"@, Some(line))]
        }),
{
    let step = link::stepped(l, roots, ServerFrameView::Error { code, message }, now_ms).2;
    let line = code + ": "@ + message;
    if l.waiting {
        assert(step.actions =~= seq![
            LinkActionView::NotReady { reason: line },
            told(l, "server_error"@, Some(line)),
        ]);
    } else {
        assert(step.actions =~= seq![told(l, "server_error"@, Some(line))]);
    }
}

/// Other frames lead to nothing.
pub proof fn other_frames_lead_to_nothing(
    l: LinkView,
    roots: Map<Seq<char>, Seq<char>>,
    f: ServerFrameView,
    now_ms: u64,
)
    requires
        f is AckOk || f is Pong || f is Bundle || f is BundleUploaded,
    ensures
        link::stepped(l, roots, f, now_ms) == (
            l,
            roots,
            LinkStepView { actions: Seq::empty(), end: None },
        ),
{
}

/// A frame that could not be written fails the connection; a message in it that someone waits for
/// is noted as not sent.
pub proof fn unwritten_frames_are_noted(server_id: Seq<char>, f: ClientFrameView, e: Seq<char>)
    ensures
        ({
            let all = link::write_failed(server_id, f, e);
            let failed = LinkActionView::Status {
                event: StatusView { server_id, status: "failed"@, reason: Some(e) },
            };
            if f is SendEnvelope && f->SendEnvelope_client_ref is Some {
                all == seq![
                    LinkActionView::Failure {
                        failure: FailureView {
                            server_id,
                            client_ref: f->SendEnvelope_client_ref,
                            code: "websocket_write_failed"@,
                            message: e,
                        },
                    },
                    failed,
                ]
            } else {
                all == seq![failed]
            }
        }),
{
    let all = link::write_failed(server_id, f, e);
    let failed = LinkActionView::Status {
        event: StatusView { server_id, status: "failed"@, reason: Some(e) },
    };
    if f is SendEnvelope && f->SendEnvelope_client_ref is Some {
        assert(all =~= seq![
            LinkActionView::Failure {
                failure: FailureView {
                    server_id,
                    client_ref: f->SendEnvelope_client_ref,
                    code: "websocket_write_failed"@,
                    message: e,
                },
            },
            failed,
        ]);
    } else {
        assert(all =~= seq![failed]);
    }
}

// ---------------------------------------------------------------------------------------------
// What is asked of the relay.
// ---------------------------------------------------------------------------------------------

/// The text is made of ASCII letters, digits, hyphens and underscores.
pub open spec fn plain_text(s: Seq<char>) -> bool {
    forall|i: int|
        0 <= i < s.len() ==> ('a' <= #[trigger] s[i] <= 'z' || 'A' <= s[i] <= 'Z' || '0' <= s[i]
            <= '9' || s[i] == '-' || s[i] == '_')
}

/// A token or a handle: 16 to 128 such characters.
pub open spec fn well_formed(s: Seq<char>) -> bool {
    16 <= s.len() <= 128 && plain_text(s)
}

/// A WebSocket url.
pub open spec fn websocket(url: Seq<char>) -> bool {
    "ws://"@.is_prefix_of(url) || "wss://"@.is_prefix_of(url)
}

/// A mailbox as a client names it.
pub open spec fn mailbox(id: Seq<char>) -> bool {
    "mbx_"@.is_prefix_of(id) && well_formed(id)
}

pub(crate) proof fn shapes(s: Seq<char>, label: Seq<char>)
    ensures
        ids::checked_token(s, label) is Ok <==> well_formed(s),
        ids::checked_bundle(s) is Ok <==> well_formed(s),
        ids::checked_recipient(s) is Ok <==> mailbox(s),
        ids::token_shape(s, 16) <==> well_formed(s),
        urls::checked_ws_url(s) is Ok <==> websocket(s),
{
    contact_laws::prefix_of(s, "mbx_"@);
    contact_laws::prefix_of(s, "ws://"@);
    contact_laws::prefix_of(s, "wss://"@);
    assert(text::all_url_safe(s) == plain_text(s)) by {
        if text::all_url_safe(s) {
            assert forall|i: int| 0 <= i < s.len() implies ('a' <= #[trigger] s[i] <= 'z' || 'A'
                <= s[i] <= 'Z' || '0' <= s[i] <= '9' || s[i] == '-' || s[i] == '_') by {
                assert(text::url_safe(s[i]));
            }
        }
    }
}

/// A mailbox is connected to only over a WebSocket url, with a well-formed mailbox and tokens.
pub proof fn mailboxes_are_checked(
    url: Seq<char>,
    id: Seq<char>,
    auth: Seq<char>,
    delivery: Seq<char>,
)
    ensures
        requests::checked_mailbox(url, id, auth, delivery) is Ok <==> websocket(url) && mailbox(id)
            && well_formed(auth) && well_formed(delivery),
{
    shapes(url, url);
    shapes(id, id);
    shapes(auth, "auth token"@);
    shapes(delivery, "delivery token"@);
}

/// An envelope is asked to be sent exactly where the mailbox and the token are well-formed, its
/// type has at most 32 bytes and it has at most 512 KiB; what is asked is just that.
pub proof fn envelopes_are_asked_to_be_sent(
    client_ref: Seq<char>,
    to: Seq<char>,
    token: Seq<char>,
    kind: Seq<char>,
    ciphertext: Seq<char>,
)
    ensures
        ({
            let check = requests::checked_envelope(to, token, kind, ciphertext);
            let r = requests::asked(
                check,
                requests::envelope_asked(client_ref, to, token, kind, ciphertext),
            );
            &&& r is Ok <==> mailbox(to) && well_formed(token) && text::byte_len(kind) <= 32
                && text::byte_len(ciphertext) <= 524_288
            &&& r is Ok ==> r->Ok_0 == (ClientFrameView::SendEnvelope {
                client_ref: Some(client_ref),
                to,
                delivery_token: token,
                envelope_type: kind,
                ciphertext,
            })
        }),
{
    shapes(to, to);
    shapes(token, "delivery token"@);
}

/// A message leaves for the mailbox, and under the token, that are stored of its contact, as a
/// sealed envelope under the message's own id.
pub proof fn messages_leave_for_their_contact(
    p: SendPlanView,
    wire: Seq<char>,
    message_id: Seq<char>,
)
    ensures
        ({
            let r = outbound::envelope_for(p, wire, message_id);
            let c = p.contact;
            &&& r is Ok <==> websocket(c.server_url) && mailbox(c.recipient_id) && well_formed(
                c.delivery_token,
            ) && text::byte_len(wire) <= 524_288
            &&& r is Ok ==> r->Ok_0 == (ClientFrameView::SendEnvelope {
                client_ref: Some(message_id),
                to: c.recipient_id,
                delivery_token: c.delivery_token,
                envelope_type: "axeno_sealed_signal_v1"@,
                ciphertext: wire,
            })
        }),
{
    reveal_strlit("axeno_sealed_signal_v1");
    vstd::utf8::is_ascii_chars_encode_utf8("axeno_sealed_signal_v1"@);
    shapes(p.contact.server_url, p.contact.server_url);
    shapes(p.contact.recipient_id, p.contact.recipient_id);
    shapes(p.contact.delivery_token, "delivery token"@);
}

/// A list of tokens is asked for exactly where it is not empty and all of them are well-formed.
pub proof fn token_lists_are_checked(tokens: Seq<Seq<char>>)
    ensures
        requests::checked_tokens(tokens) is Ok <==> tokens.len() > 0 && forall|i: int|
            0 <= i < tokens.len() ==> well_formed(#[trigger] tokens[i]),
{
    assert forall|i: int| 0 <= i < tokens.len() implies ids::token_shape(#[trigger] tokens[i], 16)
        == well_formed(tokens[i]) by {
        shapes(tokens[i], tokens[i]);
    }
    if tokens.len() > 0 && requests::checked_tokens(tokens) is Err {
        let i = choose|i: int|
            0 <= i < tokens.len() && !(#[trigger] ids::token_shape(tokens[i], 16));
        assert(!well_formed(tokens[i]));
    }
    if requests::checked_tokens(tokens) is Ok {
        assert forall|i: int| 0 <= i < tokens.len() implies well_formed(#[trigger] tokens[i]) by {
            assert(ids::token_shape(tokens[i], 16));
        }
    }
}

/// A certificate is asked for a device from 1 to 127 and a key of at most 64 bytes of text.
pub proof fn certificate_requests_are_checked(device_id: u32, key_b64: Seq<char>)
    ensures
        requests::checked_certificate(device_id, key_b64) is Ok <==> 1 <= device_id <= 127
            && text::byte_len(key_b64) <= 64,
{
}

/// A bundle is uploaded over a WebSocket url, under a well-formed handle, with at most 16 KiB; it is
/// fetched over such a url, under such a handle.
pub proof fn bundle_requests_are_checked(
    url: Seq<char>,
    bundle_id: Seq<char>,
    ciphertext: Seq<char>,
)
    ensures
        requests::checked_handle(url, bundle_id) is Ok <==> websocket(url) && well_formed(
            bundle_id,
        ),
        requests::checked_upload(url, bundle_id, ciphertext) is Ok <==> websocket(url)
            && well_formed(bundle_id) && text::byte_len(ciphertext) <= 16_384,
{
    shapes(url, url);
    shapes(bundle_id, bundle_id);
}

/// Of two checks the first that fails says why.
pub proof fn the_first_failed_check_says_why(a: Result<(), Seq<char>>, b: Result<(), Seq<char>>)
    ensures
        requests::both(a, b) is Ok <==> a is Ok && b is Ok,
        a is Err ==> requests::both(a, b) == a,
        a is Ok ==> requests::both(a, b) == b,
{
}

/// The client's hello names its mailbox and tokens with the proof of work, and takes versions 4 and
/// 5, for a lasting connection.
pub proof fn hellos_name_the_mailbox(
    id: Seq<char>,
    auth: Seq<char>,
    delivery: Seq<char>,
    pow: Seq<char>,
)
    ensures
        requests::hello(id, auth, delivery, pow) == (ClientFrameView::Hello {
            recipient_id: id,
            auth_token: auth,
            delivery_token: delivery,
            protocol_min: Some(4u16),
            protocol_max: Some(5u16),
            protocol_version: None,
            pow: Some(pow),
            cert_only: false,
        }),
{
}

// ---------------------------------------------------------------------------------------------
// Answers of the relay.
// ---------------------------------------------------------------------------------------------

/// A message counts as sent exactly where the relay confirms it under the reference of its request.
pub proof fn sends_are_confirmed_under_their_reference(f: ServerFrameView, client_ref: Seq<char>)
    ensures
        requests::send_answer(f, client_ref) is Ok <==> f is SendOk && f->SendOk_client_ref == Some(
            client_ref,
        ),
        requests::send_answer(f, client_ref) matches Ok(a) ==> a == (AckView {
            id: f->SendOk_id,
            queued: f->SendOk_queued,
            client_ref: Some(client_ref),
        }),
        f is SendError ==> requests::send_answer(f, client_ref) == Err::<AckView, Seq<char>>(
            f->SendError_code + ": "@ + f->SendError_message,
        ),
{
}

/// A hello is answered by a welcome; a retirement by an acknowledgement. Anything else is a
/// refusal, with the relay's reason where it gives one.
pub proof fn hellos_and_retirements_are_answered(f: ServerFrameView, unexpected: Seq<char>)
    ensures
        requests::hello_answer(f, unexpected) is Ok <==> f is HelloOk,
        requests::retire_answer(f) is Ok <==> f is AckOk,
        f is Error ==> requests::hello_answer(f, unexpected) == Err::<(), Seq<char>>(
            f->Error_code + ": "@ + f->Error_message,
        ) && requests::retire_answer(f) == Err::<(), Seq<char>>(
            f->Error_code + ": "@ + f->Error_message,
        ),
        !(f is HelloOk) && !(f is Error) ==> requests::hello_answer(f, unexpected) == Err::<
            (),
            Seq<char>,
        >(unexpected),
{
}

/// A certificate is taken exactly where it answers the request, and then as it is.
pub proof fn certificates_answer_their_request(f: ServerFrameView, request_id: Seq<char>)
    ensures
        requests::certificate_answer(f, request_id) is Ok <==> f is SenderCertificate
            && f->SenderCertificate_request_id == request_id,
        requests::certificate_answer(f, request_id) matches Ok(c) ==> c == (CertificateView {
            certificate_b64: f->certificate_b64,
            trust_root_b64: f->SenderCertificate_trust_root_b64,
            expires_at_ms: f->SenderCertificate_expires_at_ms,
        }),
{
}

/// A bundle counts as uploaded, or is fetched, exactly where the relay answers for the request and
/// the handle; what is fetched is what the relay hosts.
pub proof fn bundles_answer_their_request(
    f: ServerFrameView,
    request_id: Seq<char>,
    bundle_id: Seq<char>,
)
    ensures
        requests::upload_answer(f, request_id, bundle_id) is Ok <==> f is BundleUploaded
            && f->BundleUploaded_request_id == request_id && f->BundleUploaded_bundle_id
            == bundle_id,
        requests::fetch_answer(f, request_id, bundle_id) is Ok <==> f is Bundle
            && f->Bundle_request_id == request_id && f->Bundle_bundle_id == bundle_id,
        requests::fetch_answer(f, request_id, bundle_id) is Ok ==> requests::fetch_answer(
            f,
            request_id,
            bundle_id,
        )->Ok_0 == f->Bundle_ciphertext,
{
}

/// A certificate that came is used, and the lasting connection is opened anew where it came over
/// another. A first refusal leads to another request over a connection of its own, a second one to
/// failure.
pub proof fn certificates_are_asked_for_twice_at_most(
    first: Seq<char>,
    then: Seq<char>,
    c: CertificateView,
)
    ensures
        outbound::after_answer(None, Ok(c)) == (CertificateStepView::Use {
            certificate: c,
            reconnect: false,
        }),
        outbound::after_answer(Some(first), Ok(c)) == (CertificateStepView::Use {
            certificate: c,
            reconnect: true,
        }),
        outbound::after_answer(None, Err(first)) == (CertificateStepView::AskAlone { why: first }),
        outbound::after_answer(Some(first), Err(then)) is Fail,
{
}

} // verus!
