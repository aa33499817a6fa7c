//! What a relay answers on a socket.
use crate::encoding;
use crate::frames;
use crate::frames::ClientFrame;
use crate::frames::ClientFrameView;
use crate::frames::EnvelopeView;
use crate::frames::ServerFrame;
use crate::frames::ServerFrameView;
use crate::frames::StoredEnvelope;
use crate::frames::PROTOCOL_MIN_SUPPORTED;
use crate::frames::PROTOCOL_VERSION;
use crate::ids;
use crate::pow;
use crate::primitives;
use crate::relay::mailbox;
use crate::relay::mailbox::BundleView;
use crate::relay::mailbox::HostedBundle;
use crate::relay::mailbox::MailboxAuth;
use crate::relay::mailbox::MAX_DELIVERY_TOKENS_PER_MAILBOX;
use crate::relay::state;
use crate::relay::state::Relay;
use crate::relay::state::RelayView;
use crate::relay::state::MAX_BUNDLES;
use crate::relay::state::MAX_BUNDLE_BYTES;
use crate::relay::state::MAX_BUNDLE_TTL_MS;
use crate::relay::state::MAX_FRAME_BYTES;
use crate::relay::state::MAX_MAILBOXES;
use crate::relay::state::MAX_TOTAL_QUEUED_BYTES;
use crate::relay::state::MIN_BUNDLE_TTL_MS;
use crate::seqs;
use crate::seqs::Duplicate;
use crate::strmap::StringMap;
use crate::text;
use vstd::prelude::*;

verus! {

/// How long a sender certificate is valid.
pub const SENDER_CERT_TTL_MS: u64 = 86_400_000;

/// How long a window of the rate limits lasts.
pub const RATE_WINDOW_MS: u64 = 60_000;

/// How many frames a socket may send in a window.
pub const MAX_FRAMES_PER_WINDOW: u32 = 600;

/// How many envelopes a socket may send to one mailbox in a window.
pub const MAX_SENDS_PER_DEST_PER_WINDOW: u32 = 30;

/// How many bytes the type of an envelope has at most.
pub const MAX_ENVELOPE_TYPE_BYTES: usize = 32;

/// The field `queued` of every confirmation of a send. It is the same for every recipient, so
/// that it tells nothing of whether the recipient is online.
pub const SEND_OK_QUEUED: bool = false;

/// What a relay remembers of a socket.
pub struct SocketState {
    pub number: u64,
    pub recipient_id: Option<String>,
    pub window_start_ms: u64,
    pub frame_count: u32,
    pub dest_send_counts: StringMap<u32>,
}

/// What a relay remembers of a socket.
#[verifier::ext_equal]
pub struct SocketView {
    pub number: u64,
    pub recipient_id: Option<Seq<char>>,
    pub window_start_ms: u64,
    pub frame_count: u32,
    pub dest_send_counts: Map<Seq<char>, u32>,
}

impl View for SocketState {
    type V = SocketView;

    open spec fn view(&self) -> SocketView {
        SocketView {
            number: self.number,
            recipient_id: seqs::opt(self.recipient_id),
            window_start_ms: self.window_start_ms,
            frame_count: self.frame_count,
            dest_send_counts: self.dest_send_counts@,
        }
    }
}

/// A certificate to be signed for the owner of a mailbox.
pub struct CertificateRequest {
    pub request_id: String,
    pub sender_uuid: String,
    pub sender_device_id: u32,
    pub key: Vec<u8>,
    pub expires_at_ms: u64,
}

/// A certificate to be signed for the owner of a mailbox.
#[verifier::ext_equal]
pub struct CertificateRequestView {
    pub request_id: Seq<char>,
    pub sender_uuid: Seq<char>,
    pub sender_device_id: u32,
    pub key: Seq<u8>,
    pub expires_at_ms: u64,
}

impl View for CertificateRequest {
    type V = CertificateRequestView;

    open spec fn view(&self) -> CertificateRequestView {
        CertificateRequestView {
            request_id: self.request_id@,
            sender_uuid: self.sender_uuid@,
            sender_device_id: self.sender_device_id,
            key: self.key@,
            expires_at_ms: self.expires_at_ms,
        }
    }
}

/// What is left to do after a frame was handled.
pub enum Step {
    /// Send the frame.
    Reply { frame: ServerFrame },
    /// Send the frame, and behind it each waiting envelope until one cannot be sent.
    Welcome { frame: ServerFrame, backlog: Vec<StoredEnvelope> },
    /// Hand the envelope to another socket, then send the frame.
    Offer { socket: u64, envelope: StoredEnvelope, frame: ServerFrame },
    /// Have the certificate signed and send what comes of it.
    Certify { request: CertificateRequest },
    /// Send the frame and close the socket.
    Close { frame: ServerFrame },
}

/// What is left to do after a frame was handled.
pub enum StepView {
    Reply { frame: ServerFrameView },
    Welcome { frame: ServerFrameView, backlog: Seq<EnvelopeView> },
    Offer { socket: u64, envelope: EnvelopeView, frame: ServerFrameView },
    Certify { request: CertificateRequestView },
    Close { frame: ServerFrameView },
}

impl View for Step {
    type V = StepView;

    open spec fn view(&self) -> StepView {
        match self {
            Step::Reply { frame } => StepView::Reply { frame: frame@ },
            Step::Welcome { frame, backlog } => StepView::Welcome {
                frame: frame@,
                backlog: seqs::views(backlog@),
            },
            Step::Offer { socket, envelope, frame } => StepView::Offer {
                socket: *socket,
                envelope: envelope@,
                frame: frame@,
            },
            Step::Certify { request } => StepView::Certify { request: request@ },
            Step::Close { frame } => StepView::Close { frame: frame@ },
        }
    }
}

// ---------------------------------------------------------------------------------------------
// What is answered.
// ---------------------------------------------------------------------------------------------

/// A refusal as a step.
pub open spec fn refuse(code: Seq<char>, message: Seq<char>) -> StepView {
    StepView::Reply { frame: frames::refusal(code, message) }
}

/// Sending without having said hello is refused.
pub open spec fn not_registered() -> StepView {
    refuse("not_registered"@, "send hello first"@)
}

/// The socket after one frame more was counted, and the refusal of that frame where there is one.
pub open spec fn admitted(s: SocketView, now_ms: u64, text_bytes: usize) -> (
    SocketView,
    Option<ServerFrameView>,
) {
    let w = if now_ms - s.window_start_ms > RATE_WINDOW_MS {
        SocketView {
            window_start_ms: now_ms,
            frame_count: 0,
            dest_send_counts: Map::empty(),
            ..s
        }
    } else {
        s
    };
    let counted = SocketView { frame_count: plus_one(w.frame_count), ..w };
    (
        counted,
        if counted.frame_count > MAX_FRAMES_PER_WINDOW {
            Some(frames::refusal("rate_limited"@, "too many frames on this socket"@))
        } else if text_bytes > MAX_FRAME_BYTES {
            Some(frames::refusal("too_large"@, "frame too large"@))
        } else {
            None
        },
    )
}

/// One more, as far as the type reaches.
pub open spec fn plus_one(n: u32) -> u32 {
    if n == u32::MAX {
        n
    } else {
        (n + 1) as u32
    }
}

/// A sum, as far as the type reaches.
pub open spec fn plus_ms(a: u64, b: u64) -> u64 {
    if a + b > u64::MAX {
        u64::MAX
    } else {
        (a + b) as u64
    }
}

/// The lowest protocol version that a client takes.
pub open spec fn client_min(pmin: Option<u16>, pversion: Option<u16>) -> u16 {
    match pmin {
        Some(v) => v,
        None => match pversion {
            Some(v) => v,
            None => PROTOCOL_VERSION,
        },
    }
}

/// The highest protocol version that both sides take, where it suits both.
pub open spec fn negotiated(pmin: Option<u16>, pmax: Option<u16>, pversion: Option<u16>) -> Option<
    u16,
> {
    let min = client_min(pmin, pversion);
    let max = client_min(pmax, pversion);
    let selected = if PROTOCOL_VERSION <= max {
        PROTOCOL_VERSION
    } else {
        max
    };
    if selected < PROTOCOL_MIN_SUPPORTED || selected < min {
        None
    } else {
        Some(selected)
    }
}

/// The relay after the owner of a mailbox showed its tokens: whoever comes first with a proof of
/// work owns the mailbox, and later only the same receive token opens it.
pub open spec fn registered(
    v: RelayView,
    rid: Seq<char>,
    auth: Seq<char>,
    delivery: Seq<char>,
    proof_text: Option<Seq<char>>,
    now_ms: u64,
) -> Result<RelayView, StepView> {
    let auth_hash = ids::token_digest(auth);
    let delivery_hash = ids::token_digest(delivery);
    if v.mailboxes.contains_key(rid) {
        let known = v.mailboxes[rid];
        if known.receive_auth_hash != auth_hash {
            Err(refuse("auth_failed"@, "mailbox auth failed"@))
        } else {
            Ok(
                RelayView {
                    mailboxes: v.mailboxes.insert(rid, mailbox::with_token(known, delivery_hash)),
                    dirty: v.dirty || !known.delivery_token_hashes.contains(delivery_hash),
                    ..v
                },
            )
        }
    } else if !(proof_text matches Some(p) && pow::pow_accepted(
        rid,
        p,
        pow::pow_window(now_ms),
    )) {
        Err(refuse("bad_pow"@, "invalid proof of work for new mailbox"@))
    } else if v.mailbox_count >= MAX_MAILBOXES {
        Err(refuse("relay_full"@, "relay mailbox limit reached"@))
    } else {
        Ok(
            RelayView {
                mailboxes: v.mailboxes.insert(rid, mailbox::new_mailbox(auth_hash, delivery_hash)),
                mailbox_count: v.mailbox_count + 1,
                dirty: true,
                ..v
            },
        )
    }
}

/// The answer to a hello that was accepted.
pub open spec fn hello_ok(v: RelayView, selected: u16, now_ms: u64) -> ServerFrameView {
    ServerFrameView::HelloOk {
        protocol_version: selected,
        min_supported: Some(PROTOCOL_MIN_SUPPORTED),
        current_protocol: Some(PROTOCOL_VERSION),
        server_time_ms: now_ms,
        trust_root_b64: v.trust_root,
    }
}

/// A hello: the mailbox is opened, and unless the socket only wants a certificate it becomes the
/// live one of the mailbox and gets what waits there.
pub open spec fn hello_step(
    v: RelayView,
    s: SocketView,
    rid: Seq<char>,
    auth: Seq<char>,
    delivery: Seq<char>,
    protocol: Option<u16>,
    proof_text: Option<Seq<char>>,
    cert_only: bool,
    now_ms: u64,
) -> (RelayView, SocketView, StepView) {
    match protocol {
        None => (v, s, refuse("protocol_mismatch"@, "no common relay protocol version"@)),
        Some(selected) => if !ids::recipient_shape(rid) || !ids::token_shape(auth, 16)
            || !ids::token_shape(delivery, 16) {
            (v, s, refuse("bad_hello"@, "invalid mailbox or token"@))
        } else {
            match registered(v, rid, auth, delivery, proof_text, now_ms) {
                Err(step) => (v, s, step),
                Ok(w) => {
                    let s1 = SocketView { recipient_id: Some(rid), ..s };
                    let frame = hello_ok(v, selected, now_ms);
                    if cert_only {
                        (w, s1, StepView::Reply { frame })
                    } else {
                        (
                            RelayView { online: w.online.insert(rid, s.number), ..w },
                            s1,
                            StepView::Welcome { frame, backlog: state::queue_of(v, rid) },
                        )
                    }
                },
            }
        },
    }
}

/// The digests of the tokens.
pub open spec fn token_digests(tokens: Seq<Seq<char>>) -> Seq<Seq<char>> {
    tokens.map_values(|t: Seq<char>| ids::token_digest(t))
}

/// Every one of the texts is a token.
pub open spec fn all_tokens(tokens: Seq<Seq<char>>) -> bool {
    forall|i: int| 0 <= i < tokens.len() ==> ids::token_shape(#[trigger] tokens[i], 16)
}

/// Setting the delivery tokens of the socket's mailbox.
pub open spec fn tokens_step(
    v: RelayView,
    s: SocketView,
    request_id: Seq<char>,
    tokens: Seq<Seq<char>>,
) -> (RelayView, StepView) {
    match s.recipient_id {
        None => (v, not_registered()),
        Some(rid) => if tokens.len() == 0 || tokens.len() > MAX_DELIVERY_TOKENS_PER_MAILBOX
            || !all_tokens(tokens) {
            (v, refuse("bad_tokens"@, "invalid delivery-token allowlist"@))
        } else if v.mailboxes.contains_key(rid) {
            let auth = mailbox::with_tokens(v.mailboxes[rid], token_digests(tokens));
            (
                RelayView { mailboxes: v.mailboxes.insert(rid, auth), dirty: true, ..v },
                StepView::Reply {
                    frame: ServerFrameView::DeliveryTokensSet {
                        request_id,
                        active_count: auth.delivery_token_hashes.len(),
                    },
                },
            )
        } else {
            (v, refuse("not_registered"@, "mailbox auth missing"@))
        },
    }
}

/// Why a request for a certificate fails before anything is signed.
pub open spec fn certificate_flaw(
    sender: Seq<char>,
    device: u32,
    key_b64: Seq<char>,
) -> Option<Seq<char>> {
    if !ids::recipient_shape(sender) || device == 0 || device > 127 {
        Some("invalid sender certificate request"@)
    } else if text::byte_len(key_b64) > 64 {
        Some("sender certificate public key is too large"@)
    } else if encoding::b64_bytes(key_b64, false) is None {
        Some("bad sender certificate public key encoding"@)
    } else {
        None
    }
}

/// A request for a certificate: only for the socket's own mailbox.
pub open spec fn certificate_step(
    s: SocketView,
    request_id: Seq<char>,
    sender: Seq<char>,
    device: u32,
    key_b64: Seq<char>,
    now_ms: u64,
) -> StepView {
    match s.recipient_id {
        None => not_registered(),
        Some(rid) => if sender != rid {
            refuse(
                "cert_denied"@,
                "sender certificate can only be issued for your authenticated mailbox"@,
            )
        } else {
            match certificate_flaw(sender, device, key_b64) {
                Some(why) => refuse("cert_failed"@, why),
                None => StepView::Certify {
                    request: CertificateRequestView {
                        request_id,
                        sender_uuid: sender,
                        sender_device_id: device,
                        key: encoding::b64_bytes(key_b64, false)->0,
                        expires_at_ms: plus_ms(now_ms, SENDER_CERT_TTL_MS),
                    },
                },
            }
        },
    }
}

/// How often the socket sent to a mailbox in this window, this time included.
pub open spec fn sends_so_far(s: SocketView, to: Seq<char>) -> u32 {
    plus_one(
        if s.dest_send_counts.contains_key(to) {
            s.dest_send_counts[to]
        } else {
            0
        },
    )
}

/// Why an envelope is refused once the send was counted.
pub open spec fn send_flaw(
    v: RelayView,
    count: u32,
    to: Seq<char>,
    token: Seq<char>,
    envelope_type: Seq<char>,
    ciphertext: Seq<char>,
) -> Option<(Seq<char>, Seq<char>)> {
    if count > MAX_SENDS_PER_DEST_PER_WINDOW {
        Some(("rate_limited"@, "too many sends to this destination"@))
    } else if text::byte_len(envelope_type) > MAX_ENVELOPE_TYPE_BYTES || text::byte_len(ciphertext)
        > MAX_FRAME_BYTES {
        Some(("bad_envelope"@, "envelope rejected by size/type limits"@))
    } else if !(v.mailboxes.contains_key(to) && mailbox::accepts(
        v.mailboxes[to],
        ids::token_digest(token),
    )) {
        Some(("delivery_denied"@, "delivery token rejected"@))
    } else if v.queued_bytes + text::byte_len(ciphertext) > MAX_TOTAL_QUEUED_BYTES {
        Some(("relay_full"@, "relay queue memory limit reached"@))
    } else {
        None
    }
}

/// Sending an envelope: whoever shows a delivery token of the mailbox may, hello or not.
pub open spec fn send_step(
    v: RelayView,
    s: SocketView,
    client_ref: Option<Seq<char>>,
    to: Seq<char>,
    token: Seq<char>,
    envelope_type: Seq<char>,
    ciphertext: Seq<char>,
    id: u128,
) -> (RelayView, SocketView, StepView) {
    if !ids::recipient_shape(to) || !ids::token_shape(token, 16) {
        (
            v,
            s,
            StepView::Reply {
                frame: frames::send_refusal(
                    client_ref,
                    "bad_send"@,
                    "invalid destination or delivery token"@,
                ),
            },
        )
    } else {
        let count = sends_so_far(s, to);
        let s1 = SocketView { dest_send_counts: s.dest_send_counts.insert(to, count), ..s };
        match send_flaw(v, count, to, token, envelope_type, ciphertext) {
            Some((code, message)) => (
                v,
                s1,
                StepView::Reply { frame: frames::send_refusal(client_ref, code, message) },
            ),
            None => {
                let envelope = EnvelopeView { id, to, envelope_type, ciphertext };
                let frame = ServerFrameView::SendOk { id, queued: SEND_OK_QUEUED, client_ref };
                (
                    RelayView { dirty: true, ..state::enqueued(v, to, envelope) },
                    s1,
                    match state::looked_up(v.online, to) {
                        Some(socket) => StepView::Offer { socket, envelope, frame },
                        None => StepView::Reply { frame },
                    },
                )
            },
        }
    }
}

/// How long a bundle is hosted: as long as asked, but between a minute and two days.
pub open spec fn bundle_expiry(asked: u64, now_ms: u64) -> u64 {
    let max = plus_ms(now_ms, MAX_BUNDLE_TTL_MS);
    let min = plus_ms(now_ms, MIN_BUNDLE_TTL_MS);
    let capped = if asked <= max {
        asked
    } else {
        max
    };
    if capped >= min {
        capped
    } else {
        min
    }
}

/// Hosting a bundle.
pub open spec fn upload_step(
    v: RelayView,
    request_id: Seq<char>,
    bundle_id: Seq<char>,
    ciphertext: Seq<char>,
    asked: u64,
    now_ms: u64,
) -> (RelayView, StepView) {
    if !ids::token_shape(bundle_id, 16) || text::byte_len(ciphertext) > MAX_BUNDLE_BYTES {
        (v, refuse("bad_bundle"@, "invalid invite bundle"@))
    } else if v.bundles.dom().len() >= MAX_BUNDLES {
        (v, refuse("relay_full"@, "relay invite bundle limit reached"@))
    } else {
        let w = state::pruned(v, now_ms);
        let expires = bundle_expiry(asked, now_ms);
        (
            RelayView {
                bundles: w.bundles.insert(
                    bundle_id,
                    BundleView {
                        id: bundle_id,
                        ciphertext,
                        created_at_ms: now_ms,
                        expires_at_ms: expires,
                    },
                ),
                dirty: true,
                ..w
            },
            StepView::Reply {
                frame: ServerFrameView::BundleUploaded {
                    request_id,
                    bundle_id,
                    expires_at_ms: expires,
                },
            },
        )
    }
}

/// Fetching a bundle.
pub open spec fn fetch_step(
    v: RelayView,
    request_id: Seq<char>,
    bundle_id: Seq<char>,
    now_ms: u64,
) -> (RelayView, StepView) {
    let w = state::pruned(v, now_ms);
    (
        w,
        match state::looked_up(w.bundles, bundle_id) {
            Some(b) => StepView::Reply {
                frame: ServerFrameView::Bundle {
                    request_id,
                    bundle_id: b.id,
                    ciphertext: b.ciphertext,
                    expires_at_ms: b.expires_at_ms,
                },
            },
            None => refuse("bundle_not_found"@, "invite bundle was not found or has expired"@),
        },
    )
}

/// Acknowledging envelopes of the socket's mailbox.
pub open spec fn ack_step(v: RelayView, s: SocketView, acked_ids: Seq<u128>) -> (
    RelayView,
    StepView,
) {
    match s.recipient_id {
        None => (v, not_registered()),
        Some(rid) => {
            let q = state::queue_of(v, rid);
            let removed = (q.len() - q.filter(state::not_acked(acked_ids)).len()) as nat;
            let w = state::acked(v, rid, acked_ids);
            (
                RelayView { dirty: w.dirty || removed > 0, ..w },
                StepView::Reply { frame: ServerFrameView::AckOk { removed } },
            )
        },
    }
}

/// Retiring the socket's mailbox.
pub open spec fn retire_step(v: RelayView, s: SocketView) -> (RelayView, StepView) {
    match s.recipient_id {
        None => (v, not_registered()),
        Some(rid) => (
            RelayView { dirty: true, ..state::forgotten(v, rid) },
            StepView::Close { frame: ServerFrameView::AckOk { removed: 0 } },
        ),
    }
}

/// What a relay makes of a frame; `id` is the identifier for an envelope that the frame sends.
pub open spec fn handled(
    v: RelayView,
    s: SocketView,
    frame: ClientFrameView,
    now_ms: u64,
    id: u128,
) -> (RelayView, SocketView, StepView) {
    match frame {
        ClientFrameView::Hello {
            recipient_id,
            auth_token,
            delivery_token,
            protocol_min,
            protocol_max,
            protocol_version,
            pow,
            cert_only,
        } => hello_step(
            v,
            s,
            recipient_id,
            auth_token,
            delivery_token,
            negotiated(protocol_min, protocol_max, protocol_version),
            pow,
            cert_only,
            now_ms,
        ),
        ClientFrameView::SetDeliveryTokens { request_id, tokens } => {
            let (w, step) = tokens_step(v, s, request_id, tokens);
            (w, s, step)
        },
        ClientFrameView::IssueSenderCertificate {
            request_id,
            sender_uuid,
            sender_device_id,
            sender_cert_public_b64,
        } => (
            v,
            s,
            certificate_step(
                s,
                request_id,
                sender_uuid,
                sender_device_id,
                sender_cert_public_b64,
                now_ms,
            ),
        ),
        ClientFrameView::SendEnvelope {
            client_ref,
            to,
            delivery_token,
            envelope_type,
            ciphertext,
        } => send_step(v, s, client_ref, to, delivery_token, envelope_type, ciphertext, id),
        ClientFrameView::UploadBundle { request_id, bundle_id, ciphertext, expires_at_ms } => {
            let (w, step) = upload_step(v, request_id, bundle_id, ciphertext, expires_at_ms, now_ms);
            (w, s, step)
        },
        ClientFrameView::FetchBundle { request_id, bundle_id } => {
            let (w, step) = fetch_step(v, request_id, bundle_id, now_ms);
            (w, s, step)
        },
        ClientFrameView::Ack { ids } => {
            let (w, step) = ack_step(v, s, ids);
            (w, s, step)
        },
        ClientFrameView::RetireMailbox => {
            let (w, step) = retire_step(v, s);
            (w, s, step)
        },
        ClientFrameView::Ping => (
            v,
            s,
            StepView::Reply { frame: ServerFrameView::Pong { server_time_ms: now_ms } },
        ),
    }
}

/// The identifier of the envelope that a step confirms; zero where it confirms none.
pub open spec fn confirmed_id(step: StepView) -> u128 {
    match step {
        StepView::Offer { envelope, .. } => envelope.id,
        StepView::Reply { frame: ServerFrameView::SendOk { id, .. } } => id,
        _ => 0,
    }
}

/// A step confirms an envelope.
pub open spec fn confirms(step: StepView) -> bool {
    match step {
        StepView::Offer { .. } => true,
        StepView::Reply { frame: ServerFrameView::SendOk { .. } } => true,
        _ => false,
    }
}

/// An envelope that is confirmed is confirmed with its identifier, and where none is, the
/// identifier does not matter.
#[verifier::spinoff_prover]
proof fn confirmed_with_its_id(
    v: RelayView,
    s: SocketView,
    frame: ClientFrameView,
    now_ms: u64,
    id: u128,
)
    ensures
        confirms(handled(v, s, frame, now_ms, id).2) ==> confirmed_id(
            handled(v, s, frame, now_ms, id).2,
        ) == id,
        handled(v, s, frame, now_ms, id) == handled(
            v,
            s,
            frame,
            now_ms,
            confirmed_id(handled(v, s, frame, now_ms, id).2),
        ),
{
}

/// The answer to a request for a certificate, once it was signed or failed to be.
pub open spec fn certificate_answer(
    v: RelayView,
    request: CertificateRequestView,
    signed: Result<Seq<u8>, Seq<char>>,
) -> ServerFrameView {
    match signed {
        Ok(cert) => ServerFrameView::SenderCertificate {
            request_id: request.request_id,
            certificate_b64: encoding::b64_text(cert, false),
            trust_root_b64: v.trust_root,
            expires_at_ms: request.expires_at_ms,
        },
        Err(why) => frames::refusal("cert_failed"@, why),
    }
}

/// The relay after a socket closed: its mailbox is offline, unless another socket took over.
pub open spec fn closed(v: RelayView, s: SocketView) -> RelayView {
    match s.recipient_id {
        Some(rid) if state::looked_up(v.online, rid) == Some(s.number) => RelayView {
            online: v.online.remove(rid),
            ..v
        },
        _ => v,
    }
}

// ---------------------------------------------------------------------------------------------
// The code.
// ---------------------------------------------------------------------------------------------

impl SocketState {
    /// A socket that has just been opened.
    pub fn new(number: u64, now_ms: u64) -> (r: Self)
        ensures
            r@ == (SocketView {
                number,
                recipient_id: None,
                window_start_ms: now_ms,
                frame_count: 0,
                dest_send_counts: Map::empty(),
            }),
    {
        SocketState {
            number,
            recipient_id: None,
            window_start_ms: now_ms,
            frame_count: 0,
            dest_send_counts: StringMap::new(),
        }
    }

    /// Counts one frame more; gives the refusal where the frame is one too many or too large.
    pub fn count_frame(&mut self, now_ms: u64, text_bytes: usize) -> (r: Option<ServerFrame>)
        ensures
            (final(self)@, seqs::opt(r)) == admitted(old(self)@, now_ms, text_bytes),
    {
        if now_ms.saturating_sub(self.window_start_ms) > RATE_WINDOW_MS {
            self.window_start_ms = now_ms;
            self.frame_count = 0;
            self.dest_send_counts.clear();
        }
        self.frame_count = self.frame_count.saturating_add(1);
        if self.frame_count > MAX_FRAMES_PER_WINDOW {
            return Some(frames::err("rate_limited", "too many frames on this socket"));
        }
        if text_bytes > MAX_FRAME_BYTES {
            return Some(frames::err("too_large", "frame too large"));
        }
        None
    }

    /// The mailbox that the socket showed the receive token of.
    pub fn mailbox(&self) -> (r: Option<String>)
        ensures
            seqs::opt(r) == self@.recipient_id,
    {
        self.recipient_id.clone()
    }

    /// Counts one envelope more to a mailbox.
    fn count_send(&mut self, to: &str) -> (r: u32)
        ensures
            r == sends_so_far(old(self)@, to@),
            final(self)@ == (SocketView {
                dest_send_counts: old(self)@.dest_send_counts.insert(to@, r),
                ..old(self)@
            }),
    {
        let before: u32 = match self.dest_send_counts.get(to) {
            Some(n) => *n,
            None => 0,
        };
        let count: u32 = before.saturating_add(1);
        self.dest_send_counts.insert(to.to_string(), count);
        count
    }
}

/// The highest protocol version that both sides take, where it suits both.
pub fn negotiate(pmin: Option<u16>, pmax: Option<u16>, pversion: Option<u16>) -> (r: Option<u16>)
    ensures
        r == negotiated(pmin, pmax, pversion),
{
    let base: u16 = match pversion {
        Some(v) => v,
        None => PROTOCOL_VERSION,
    };
    let min: u16 = match pmin {
        Some(v) => v,
        None => base,
    };
    let max: u16 = match pmax {
        Some(v) => v,
        None => base,
    };
    let selected: u16 = if PROTOCOL_VERSION <= max {
        PROTOCOL_VERSION
    } else {
        max
    };
    if selected < PROTOCOL_MIN_SUPPORTED || selected < min {
        None
    } else {
        Some(selected)
    }
}

fn reply_err(code: &str, message: &str) -> (r: Step)
    ensures
        r@ == refuse(code@, message@),
{
    Step::Reply { frame: frames::err(code, message) }
}

/// The digests of tokens.
fn hash_all(tokens: &Vec<String>) -> (r: Vec<String>)
    ensures
        seqs::views(r@) == token_digests(seqs::views(tokens@)),
{
    let ghost all = seqs::views(tokens@);
    let mut out: Vec<String> = Vec::new();
    let mut i: usize = 0;
    proof {
        assert(seqs::views(out@) =~= token_digests(all).take(0));
    }
    while i < tokens.len()
        invariant
            i <= tokens@.len(),
            all == seqs::views(tokens@),
            seqs::views(out@) == token_digests(all).take(i as int),
        decreases tokens@.len() - i,
    {
        let h = ids::token_hash(tokens[i].as_str());
        proof {
            seqs::take_step(token_digests(all), i as int);
            seqs::views_push(out@, h);
        }
        out.push(h);
        i = i + 1;
    }
    proof {
        assert(token_digests(all).take(i as int) =~= token_digests(all));
    }
    out
}

fn are_tokens(tokens: &Vec<String>) -> (r: bool)
    ensures
        r == all_tokens(seqs::views(tokens@)),
{
    let ghost all = seqs::views(tokens@);
    let mut i: usize = 0;
    while i < tokens.len()
        invariant
            i <= tokens@.len(),
            all == seqs::views(tokens@),
            forall|j: int| 0 <= j < i ==> ids::token_shape(#[trigger] all[j], 16),
        decreases tokens@.len() - i,
    {
        if !ids::valid_token(tokens[i].as_str()) {
            proof {
                assert(!ids::token_shape(all[i as int], 16));
            }
            return false;
        }
        i = i + 1;
    }
    true
}

/// How long a bundle is hosted.
pub fn clamp_bundle_expiry(asked: u64, now_ms: u64) -> (r: u64)
    ensures
        r == bundle_expiry(asked, now_ms),
{
    let max: u64 = now_ms.saturating_add(MAX_BUNDLE_TTL_MS);
    let min: u64 = now_ms.saturating_add(MIN_BUNDLE_TTL_MS);
    let capped: u64 = if asked <= max {
        asked
    } else {
        max
    };
    if capped >= min {
        capped
    } else {
        min
    }
}

impl Relay {
    fn register(
        &mut self,
        rid: &str,
        auth_token: &str,
        delivery_token: &str,
        proof_text: Option<String>,
        now_ms: u64,
    ) -> (r: Result<(), Step>)
        ensures
            match registered(
                old(self)@,
                rid@,
                auth_token@,
                delivery_token@,
                seqs::opt(proof_text),
                now_ms,
            ) {
                Ok(w) => r is Ok && final(self)@ == w,
                Err(step) => r is Err && r->Err_0@ == step && final(self)@ == old(self)@,
            },
    {
        let auth_hash = ids::token_hash(auth_token);
        let delivery_hash = ids::token_hash(delivery_token);
        match self.find_mailbox(rid) {
            Some(known) => {
                let mut auth = known;
                if !text::same_text(auth.receive_auth_hash.as_str(), auth_hash.as_str()) {
                    return Err(reply_err("auth_failed", "mailbox auth failed"));
                }
                let changed = auth.ensure_delivery_hash(delivery_hash);
                self.update_mailbox(rid, auth);
                if changed {
                    self.mark_dirty();
                }
                Ok(())
            },
            None => {
                let good = match &proof_text {
                    Some(p) => pow::verify_pow(rid, p.as_str(), pow::window_at(now_ms)),
                    None => false,
                };
                if !good {
                    return Err(reply_err("bad_pow", "invalid proof of work for new mailbox"));
                }
                if self.mailbox_total() >= MAX_MAILBOXES {
                    return Err(reply_err("relay_full", "relay mailbox limit reached"));
                }
                self.add_mailbox(rid, MailboxAuth::new(auth_hash, delivery_hash));
                self.mark_dirty();
                Ok(())
            },
        }
    }

    fn hello(
        &mut self,
        socket: &mut SocketState,
        rid: String,
        auth_token: String,
        delivery_token: String,
        protocol: Option<u16>,
        proof_text: Option<String>,
        cert_only: bool,
        now_ms: u64,
    ) -> (r: Step)
        ensures
            (final(self)@, final(socket)@, r@) == hello_step(
                old(self)@,
                old(socket)@,
                rid@,
                auth_token@,
                delivery_token@,
                protocol,
                seqs::opt(proof_text),
                cert_only,
                now_ms,
            ),
    {
        let selected: u16 = match protocol {
            Some(v) => v,
            None => {
                return reply_err("protocol_mismatch", "no common relay protocol version");
            },
        };
        if !ids::valid_recipient_id(rid.as_str()) || !ids::valid_token(auth_token.as_str())
            || !ids::valid_token(delivery_token.as_str()) {
            return reply_err("bad_hello", "invalid mailbox or token");
        }
        if let Err(step) = self.register(
            rid.as_str(),
            auth_token.as_str(),
            delivery_token.as_str(),
            proof_text,
            now_ms,
        ) {
            return step;
        }
        let frame = ServerFrame::HelloOk {
            protocol_version: selected,
            min_supported: Some(PROTOCOL_MIN_SUPPORTED),
            current_protocol: Some(PROTOCOL_VERSION),
            server_time_ms: now_ms,
            trust_root_b64: self.trust_root(),
        };
        let step = if cert_only {
            Step::Reply { frame }
        } else {
            self.set_live(rid.as_str(), socket.number);
            let backlog = self.backlog(rid.as_str());
            Step::Welcome { frame, backlog }
        };
        socket.recipient_id = Some(rid);
        step
    }

    fn set_tokens(
        &mut self,
        socket: &SocketState,
        request_id: String,
        tokens: Vec<String>,
    ) -> (r: Step)
        ensures
            (final(self)@, r@) == tokens_step(
                old(self)@,
                socket@,
                request_id@,
                seqs::views(tokens@),
            ),
    {
        let rid = match socket.mailbox() {
            Some(rid) => rid,
            None => {
                return reply_err("not_registered", "send hello first");
            },
        };
        if tokens.len() == 0 || tokens.len() > MAX_DELIVERY_TOKENS_PER_MAILBOX || !are_tokens(
            &tokens,
        ) {
            return reply_err("bad_tokens", "invalid delivery-token allowlist");
        }
        match self.find_mailbox(rid.as_str()) {
            Some(known) => {
                let mut auth = known;
                auth.replace_delivery_hashes(hash_all(&tokens));
                let active_count: usize = auth.delivery_token_hashes.len();
                self.update_mailbox(rid.as_str(), auth);
                self.mark_dirty();
                Step::Reply { frame: ServerFrame::DeliveryTokensSet { request_id, active_count } }
            },
            None => reply_err("not_registered", "mailbox auth missing"),
        }
    }

    fn certify(
        &self,
        socket: &SocketState,
        request_id: String,
        sender_uuid: String,
        sender_device_id: u32,
        key_b64: String,
        now_ms: u64,
    ) -> (r: Step)
        ensures
            r@ == certificate_step(
                socket@,
                request_id@,
                sender_uuid@,
                sender_device_id,
                key_b64@,
                now_ms,
            ),
    {
        let rid = match socket.mailbox() {
            Some(rid) => rid,
            None => {
                return reply_err("not_registered", "send hello first");
            },
        };
        if !text::same_text(sender_uuid.as_str(), rid.as_str()) {
            return reply_err(
                "cert_denied",
                "sender certificate can only be issued for your authenticated mailbox",
            );
        }
        if !ids::valid_recipient_id(sender_uuid.as_str()) || sender_device_id == 0
            || sender_device_id > 127 {
            return reply_err("cert_failed", "invalid sender certificate request");
        }
        if text::len_in_bytes(key_b64.as_str()) > 64 {
            return reply_err("cert_failed", "sender certificate public key is too large");
        }
        match encoding::from_b64(key_b64.as_str()) {
            None => reply_err("cert_failed", "bad sender certificate public key encoding"),
            Some(key) => Step::Certify {
                request: CertificateRequest {
                    request_id,
                    sender_uuid,
                    sender_device_id,
                    key,
                    expires_at_ms: now_ms.saturating_add(SENDER_CERT_TTL_MS),
                },
            },
        }
    }

    fn send(
        &mut self,
        socket: &mut SocketState,
        client_ref: Option<String>,
        to: String,
        delivery_token: String,
        envelope_type: String,
        ciphertext: String,
        id: u128,
    ) -> (r: Step)
        requires
            state::relay_inv(old(self)@),
        ensures
            (final(self)@, final(socket)@, r@) == send_step(
                old(self)@,
                old(socket)@,
                seqs::opt(client_ref),
                to@,
                delivery_token@,
                envelope_type@,
                ciphertext@,
                id,
            ),
    {
        if !ids::valid_recipient_id(to.as_str()) || !ids::valid_token(delivery_token.as_str()) {
            return Step::Reply {
                frame: frames::send_err(
                    client_ref,
                    "bad_send",
                    "invalid destination or delivery token",
                ),
            };
        }
        let count: u32 = socket.count_send(to.as_str());
        if count > MAX_SENDS_PER_DEST_PER_WINDOW {
            return Step::Reply {
                frame: frames::send_err(
                    client_ref,
                    "rate_limited",
                    "too many sends to this destination",
                ),
            };
        }
        let size: usize = text::len_in_bytes(ciphertext.as_str());
        if text::len_in_bytes(envelope_type.as_str()) > MAX_ENVELOPE_TYPE_BYTES || size
            > MAX_FRAME_BYTES {
            return Step::Reply {
                frame: frames::send_err(
                    client_ref,
                    "bad_envelope",
                    "envelope rejected by size/type limits",
                ),
            };
        }
        let hash = ids::token_hash(delivery_token.as_str());
        let allowed = match self.find_mailbox(to.as_str()) {
            Some(auth) => auth.accepts_delivery_hash(hash.as_str()),
            None => false,
        };
        if !allowed {
            return Step::Reply {
                frame: frames::send_err(client_ref, "delivery_denied", "delivery token rejected"),
            };
        }
        if self.queued_total().saturating_add(size) > MAX_TOTAL_QUEUED_BYTES {
            return Step::Reply {
                frame: frames::send_err(
                    client_ref,
                    "relay_full",
                    "relay queue memory limit reached",
                ),
            };
        }
        let envelope = StoredEnvelope { id, to: to.clone(), envelope_type, ciphertext };
        let copy = envelope.duplicate();
        let live = self.live_socket(to.as_str());
        self.enqueue(to.as_str(), envelope);
        self.mark_dirty();
        let frame = ServerFrame::SendOk { id, queued: SEND_OK_QUEUED, client_ref };
        match live {
            Some(other) => Step::Offer { socket: other, envelope: copy, frame },
            None => Step::Reply { frame },
        }
    }

    fn upload(
        &mut self,
        request_id: String,
        bundle_id: String,
        ciphertext: String,
        asked: u64,
        now_ms: u64,
    ) -> (r: Step)
        ensures
            (final(self)@, r@) == upload_step(
                old(self)@,
                request_id@,
                bundle_id@,
                ciphertext@,
                asked,
                now_ms,
            ),
    {
        if !ids::valid_bundle_id(bundle_id.as_str()) || text::len_in_bytes(ciphertext.as_str())
            > MAX_BUNDLE_BYTES {
            return reply_err("bad_bundle", "invalid invite bundle");
        }
        if self.bundle_total() >= MAX_BUNDLES {
            return reply_err("relay_full", "relay invite bundle limit reached");
        }
        let expires: u64 = clamp_bundle_expiry(asked, now_ms);
        self.prune_expired_bundles(now_ms);
        let bundle = HostedBundle {
            id: bundle_id.clone(),
            ciphertext,
            created_at_ms: now_ms,
            expires_at_ms: expires,
        };
        self.put_bundle(bundle_id.as_str(), bundle);
        self.mark_dirty();
        Step::Reply {
            frame: ServerFrame::BundleUploaded { request_id, bundle_id, expires_at_ms: expires },
        }
    }

    fn fetch(&mut self, request_id: String, bundle_id: String, now_ms: u64) -> (r: Step)
        ensures
            (final(self)@, r@) == fetch_step(old(self)@, request_id@, bundle_id@, now_ms),
    {
        self.prune_expired_bundles(now_ms);
        match self.find_bundle(bundle_id.as_str()) {
            Some(b) => Step::Reply {
                frame: ServerFrame::Bundle {
                    request_id,
                    bundle_id: b.id,
                    ciphertext: b.ciphertext,
                    expires_at_ms: b.expires_at_ms,
                },
            },
            None => reply_err("bundle_not_found", "invite bundle was not found or has expired"),
        }
    }

    fn ack(&mut self, socket: &SocketState, acked_ids: Vec<u128>) -> (r: Step)
        requires
            state::relay_inv(old(self)@),
        ensures
            (final(self)@, r@) == ack_step(old(self)@, socket@, acked_ids@),
    {
        let rid = match socket.mailbox() {
            Some(rid) => rid,
            None => {
                return reply_err("not_registered", "send hello first");
            },
        };
        let removed: usize = self.remove_acked(rid.as_str(), &acked_ids);
        if removed > 0 {
            self.mark_dirty();
        }
        Step::Reply { frame: ServerFrame::AckOk { removed } }
    }

    fn retire(&mut self, socket: &SocketState) -> (r: Step)
        requires
            state::relay_inv(old(self)@),
        ensures
            (final(self)@, r@) == retire_step(old(self)@, socket@),
    {
        let rid = match socket.mailbox() {
            Some(rid) => rid,
            None => {
                return reply_err("not_registered", "send hello first");
            },
        };
        self.forget(rid.as_str());
        self.mark_dirty();
        Step::Close { frame: ServerFrame::AckOk { removed: 0 } }
    }

    /// Handles a frame of a socket; `id` is the identifier for an envelope that the frame sends.
    pub fn handle_frame_with(
        &mut self,
        socket: &mut SocketState,
        frame: ClientFrame,
        now_ms: u64,
        id: u128,
    ) -> (r: Step)
        requires
            state::relay_inv(old(self)@),
        ensures
            (final(self)@, final(socket)@, r@) == handled(
                old(self)@,
                old(socket)@,
                frame@,
                now_ms,
                id,
            ),
            state::relay_inv(final(self)@),
    {
        proof {
            crate::relay::laws::inv_is_kept(self@, socket@, frame@, now_ms, id);
        }
        match frame {
            ClientFrame::Hello {
                recipient_id,
                auth_token,
                delivery_token,
                protocol_min,
                protocol_max,
                protocol_version,
                pow,
                cert_only,
            } => {
                let protocol = negotiate(protocol_min, protocol_max, protocol_version);
                self.hello(
                    socket,
                    recipient_id,
                    auth_token,
                    delivery_token,
                    protocol,
                    pow,
                    cert_only,
                    now_ms,
                )
            },
            ClientFrame::SetDeliveryTokens { request_id, tokens } => self.set_tokens(
                socket,
                request_id,
                tokens,
            ),
            ClientFrame::IssueSenderCertificate {
                request_id,
                sender_uuid,
                sender_device_id,
                sender_cert_public_b64,
            } => self.certify(
                socket,
                request_id,
                sender_uuid,
                sender_device_id,
                sender_cert_public_b64,
                now_ms,
            ),
            ClientFrame::SendEnvelope {
                client_ref,
                to,
                delivery_token,
                envelope_type,
                ciphertext,
            } => self.send(
                socket,
                client_ref,
                to,
                delivery_token,
                envelope_type,
                ciphertext,
                id,
            ),
            ClientFrame::UploadBundle { request_id, bundle_id, ciphertext, expires_at_ms } => {
                self.upload(request_id, bundle_id, ciphertext, expires_at_ms, now_ms)
            },
            ClientFrame::FetchBundle { request_id, bundle_id } => self.fetch(
                request_id,
                bundle_id,
                now_ms,
            ),
            ClientFrame::Ack { ids } => self.ack(socket, ids),
            ClientFrame::RetireMailbox => self.retire(socket),
            ClientFrame::Ping => Step::Reply {
                frame: ServerFrame::Pong { server_time_ms: now_ms },
            },
        }
    }

    /// Handles a frame of a socket; an envelope that it sends gets a fresh identifier.
    pub fn handle_frame(
        &mut self,
        socket: &mut SocketState,
        frame: ClientFrame,
        now_ms: u64,
    ) -> (r: Step)
        requires
            state::relay_inv(old(self)@),
        ensures
            (final(self)@, final(socket)@, r@) == handled(
                old(self)@,
                old(socket)@,
                frame@,
                now_ms,
                confirmed_id(r@),
            ),
            confirms(r@) ==> primitives::is_random_id(confirmed_id(r@)),
            state::relay_inv(final(self)@),
    {
        let id: u128 = primitives::fresh_uuid();
        proof {
            confirmed_with_its_id(self@, socket@, frame@, now_ms, id);
        }
        self.handle_frame_with(socket, frame, now_ms, id)
    }

    /// Handles a text of a socket that was counted, given how it reads as a frame: a text that is
    /// no frame is refused with the reason, and changes nothing.
    pub fn handle_text(
        &mut self,
        socket: &mut SocketState,
        parsed: Result<ClientFrame, String>,
        now_ms: u64,
    ) -> (r: Step)
        requires
            state::relay_inv(old(self)@),
        ensures
            match parsed {
                Ok(frame) => {
                    &&& (final(self)@, final(socket)@, r@) == handled(
                        old(self)@,
                        old(socket)@,
                        frame@,
                        now_ms,
                        confirmed_id(r@),
                    )
                    &&& confirms(r@) ==> primitives::is_random_id(confirmed_id(r@))
                },
                Err(why) => {
                    &&& final(self)@ == old(self)@
                    &&& final(socket)@ == old(socket)@
                    &&& r@ == (StepView::Reply { frame: frames::refusal("bad_json"@, why@) })
                },
            },
            state::relay_inv(final(self)@),
    {
        match parsed {
            Ok(frame) => self.handle_frame(socket, frame, now_ms),
            Err(why) => Step::Reply { frame: frames::unreadable_frame(why.as_str()) },
        }
    }

    /// The answer to a request for a certificate, once it was signed or failed to be.
    pub fn certificate_frame(
        &self,
        request: CertificateRequest,
        signed: Result<Vec<u8>, String>,
    ) -> (r: ServerFrame)
        ensures
            r@ == certificate_answer(self@, request@, seqs::outcome(signed)),
    {
        match signed {
            Ok(cert) => ServerFrame::SenderCertificate {
                request_id: request.request_id,
                certificate_b64: encoding::to_b64(cert.as_slice()),
                trust_root_b64: self.trust_root(),
                expires_at_ms: request.expires_at_ms,
            },
            Err(why) => frames::err("cert_failed", why.as_str()),
        }
    }

    /// Forgets a socket that was closed.
    pub fn close_socket(&mut self, socket: &SocketState)
        ensures
            final(self)@ == closed(old(self)@, socket@),
    {
        if let Some(rid) = socket.mailbox() {
            if let Some(live) = self.live_socket(rid.as_str()) {
                if live == socket.number {
                    self.drop_live(rid.as_str());
                }
            }
        }
    }
}

} // verus!
