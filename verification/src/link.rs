//! A connection to a relay that stays open: what each frame from the relay leads to.
use crate::events::AckView;
use crate::events::CertificateView;
use crate::events::FailureView;
use crate::events::ReceiptView;
use crate::events::SendEnvelopeAck;
use crate::events::SendFailure;
use crate::events::SendReceipt;
use crate::events::SenderCertificateResponse;
use crate::events::StatusView;
use crate::events::TransportStatusEvent;
use crate::frames;
use crate::frames::ClientFrame;
use crate::frames::ClientFrameView;
use crate::frames::EnvelopeView;
use crate::frames::ServerFrame;
use crate::frames::ServerFrameView;
use crate::frames::StoredEnvelope;
use crate::seqs;
use crate::strmap::StringMap;
use crate::text;
use vstd::prelude::*;

verus! {

/// How far the clocks may differ before the user is told.
pub const MAX_CLOCK_SKEW_MS: u64 = 300_000;

/// What a frame from the relay leads to.
pub enum LinkAction {
    /// Show the state of the connection.
    Status { event: TransportStatusEvent },
    /// The connection is set up.
    Ready,
    /// The connection could not be set up.
    NotReady { reason: String },
    /// Hand a certificate to whoever asked for it.
    Certificate { request_id: String, certificate: SenderCertificateResponse },
    /// Handle an envelope.
    Envelope { envelope: StoredEnvelope },
    /// Tell whoever sent an envelope that the relay took it.
    Sent { client_ref: String, ack: SendEnvelopeAck },
    /// Tell whoever sent an envelope that the relay refused it.
    NotSent { client_ref: String, reason: String },
    /// Show that the relay took an envelope.
    Receipt { receipt: SendReceipt },
    /// Show that an envelope was not sent.
    Failure { failure: SendFailure },
    /// Tell whoever announced delivery tokens that the relay took them.
    TokensSet { request_id: String },
}

/// What a frame from the relay leads to.
pub enum LinkActionView {
    Status { event: StatusView },
    Ready,
    NotReady { reason: Seq<char> },
    Certificate { request_id: Seq<char>, certificate: CertificateView },
    Envelope { envelope: EnvelopeView },
    Sent { client_ref: Seq<char>, ack: AckView },
    NotSent { client_ref: Seq<char>, reason: Seq<char> },
    Receipt { receipt: ReceiptView },
    Failure { failure: FailureView },
    TokensSet { request_id: Seq<char> },
}

impl View for LinkAction {
    type V = LinkActionView;

    open spec fn view(&self) -> LinkActionView {
        match self {
            LinkAction::Status { event } => LinkActionView::Status { event: event@ },
            LinkAction::Ready => LinkActionView::Ready,
            LinkAction::NotReady { reason } => LinkActionView::NotReady { reason: reason@ },
            LinkAction::Certificate {
                request_id,
                certificate,
            } => LinkActionView::Certificate {
                request_id: request_id@,
                certificate: certificate@,
            },
            LinkAction::Envelope { envelope } => LinkActionView::Envelope {
                envelope: envelope@,
            },
            LinkAction::Sent { client_ref, ack } => LinkActionView::Sent {
                client_ref: client_ref@,
                ack: ack@,
            },
            LinkAction::NotSent { client_ref, reason } => LinkActionView::NotSent {
                client_ref: client_ref@,
                reason: reason@,
            },
            LinkAction::Receipt { receipt } => LinkActionView::Receipt { receipt: receipt@ },
            LinkAction::Failure { failure } => LinkActionView::Failure { failure: failure@ },
            LinkAction::TokensSet { request_id } => LinkActionView::TokensSet {
                request_id: request_id@,
            },
        }
    }
}

/// A connection to a relay: its name, and whether someone still waits for it to be set up.
pub struct Link {
    pub server_id: String,
    pub waiting: bool,
}

/// A connection to a relay.
#[verifier::ext_equal]
pub struct LinkView {
    pub server_id: Seq<char>,
    pub waiting: bool,
}

impl View for Link {
    type V = LinkView;

    open spec fn view(&self) -> LinkView {
        LinkView { server_id: self.server_id@, waiting: self.waiting }
    }
}

/// What a frame leads to, and why the connection ends, where it does.
pub struct LinkStep {
    pub actions: Vec<LinkAction>,
    pub end: Option<String>,
}

/// What a frame leads to, and why the connection ends, where it does.
#[verifier::ext_equal]
pub struct LinkStepView {
    pub actions: Seq<LinkActionView>,
    pub end: Option<Seq<char>>,
}

impl View for LinkStep {
    type V = LinkStepView;

    open spec fn view(&self) -> LinkStepView {
        LinkStepView { actions: seqs::views(self.actions@), end: seqs::opt(self.end) }
    }
}

/// The state of a connection, to be shown.
pub open spec fn status(server_id: Seq<char>, state: Seq<char>, reason: Option<Seq<char>>)
    -> LinkActionView {
    LinkActionView::Status { event: StatusView { server_id, status: state, reason } }
}

/// How far two clocks differ.
pub open spec fn skew(a: u64, b: u64) -> u64 {
    if a > b {
        (a - b) as u64
    } else {
        (b - a) as u64
    }
}

/// The remark on clocks that differ, where they differ too much.
pub open spec fn skew_remark(server_id: Seq<char>, server_ms: u64, local_ms: u64) -> Seq<
    LinkActionView,
> {
    let d = skew(server_ms, local_ms);
    if d > MAX_CLOCK_SKEW_MS {
        seq![
            status(
                server_id,
                "clock_skew"@,
                Some(
                    "local clock differs from relay by about "@ + text::decimal(
                        (d / 60_000) as nat,
                    ) + " minutes"@,
                ),
            ),
        ]
    } else {
        Seq::empty()
    }
}

/// The version that the relay chose suits both sides.
pub open spec fn version_fits(version: u16, min_supported: Option<u16>, current: Option<u16>)
    -> bool {
    &&& frames::PROTOCOL_MIN_SUPPORTED <= version <= frames::PROTOCOL_VERSION
    &&& match min_supported {
        Some(m) => m <= version,
        None => true,
    }
    &&& match current {
        Some(m) => version <= m,
        None => true,
    }
}

/// The roots of relays with one more, or nothing where the relay's root is known and another.
pub open spec fn with_root(
    roots: Map<Seq<char>, Seq<char>>,
    server_id: Seq<char>,
    root: Seq<char>,
) -> Option<Map<Seq<char>, Seq<char>>> {
    if roots.contains_key(server_id) && roots[server_id] != root {
        None
    } else {
        Some(roots.insert(server_id, root))
    }
}

/// A step that goes on.
pub open spec fn going_on(actions: Seq<LinkActionView>) -> LinkStepView {
    LinkStepView { actions, end: None }
}

/// What the relay's greeting leads to.
pub open spec fn greeted(
    l: LinkView,
    roots: Map<Seq<char>, Seq<char>>,
    version: u16,
    min_supported: Option<u16>,
    current: Option<u16>,
    server_ms: u64,
    root: Seq<char>,
    now_ms: u64,
) -> (LinkView, Map<Seq<char>, Seq<char>>, LinkStepView) {
    let remark = skew_remark(l.server_id, server_ms, now_ms);
    if !version_fits(version, min_supported, current) {
        (
            l,
            roots,
            LinkStepView {
                actions: remark,
                end: Some(
                    "relay protocol mismatch: client supports "@ + text::decimal(
                        frames::PROTOCOL_MIN_SUPPORTED as nat,
                    ) + "-"@ + text::decimal(frames::PROTOCOL_VERSION as nat)
                        + ", relay selected "@ + text::decimal(version as nat),
                ),
            },
        )
    } else {
        match with_root(roots, l.server_id, root) {
            None => (
                l,
                roots,
                LinkStepView {
                    actions: remark,
                    end: Some("relay trust root changed during this session"@),
                },
            ),
            Some(after) => (
                LinkView { waiting: false, ..l },
                after,
                going_on(
                    remark + if l.waiting {
                        seq![LinkActionView::Ready]
                    } else {
                        Seq::empty()
                    } + seq![status(l.server_id, "ready"@, None)],
                ),
            ),
        }
    }
}

/// What a certificate from the relay leads to.
pub open spec fn certificate_issued(
    l: LinkView,
    roots: Map<Seq<char>, Seq<char>>,
    request_id: Seq<char>,
    certificate: CertificateView,
) -> (LinkView, Map<Seq<char>, Seq<char>>, LinkStepView) {
    match with_root(roots, l.server_id, certificate.trust_root_b64) {
        None => (
            l,
            roots,
            LinkStepView {
                actions: Seq::empty(),
                end: Some("relay trust root changed during sender-certificate issuance"@),
            },
        ),
        Some(after) => (
            l,
            after,
            going_on(seq![LinkActionView::Certificate { request_id, certificate }]),
        ),
    }
}

/// What an accepted envelope leads to.
pub open spec fn envelope_taken(l: LinkView, ack: AckView) -> Seq<LinkActionView> {
    (match ack.client_ref {
        Some(r) => seq![LinkActionView::Sent { client_ref: r, ack }],
        None => Seq::empty(),
    }) + seq![
        LinkActionView::Receipt {
            receipt: ReceiptView {
                server_id: l.server_id,
                id: ack.id,
                queued: ack.queued,
                client_ref: ack.client_ref,
            },
        },
    ]
}

/// What a refused envelope leads to.
pub open spec fn envelope_refused(
    l: LinkView,
    client_ref: Option<Seq<char>>,
    code: Seq<char>,
    message: Seq<char>,
) -> Seq<LinkActionView> {
    let line = frames::refusal_line(code, message);
    (match client_ref {
        Some(r) => seq![LinkActionView::NotSent { client_ref: r, reason: line }],
        None => Seq::empty(),
    }) + seq![
        LinkActionView::Failure {
            failure: FailureView { server_id: l.server_id, client_ref, code, message },
        },
        status(l.server_id, "send_error"@, Some(line)),
    ]
}

/// What a refusal leads to.
pub open spec fn relay_refused(l: LinkView, code: Seq<char>, message: Seq<char>) -> Seq<
    LinkActionView,
> {
    let line = frames::refusal_line(code, message);
    (if l.waiting {
        seq![LinkActionView::NotReady { reason: line }]
    } else {
        Seq::empty()
    }) + seq![status(l.server_id, "server_error"@, Some(line))]
}

/// What a frame from the relay leads to.
pub open spec fn stepped(
    l: LinkView,
    roots: Map<Seq<char>, Seq<char>>,
    f: ServerFrameView,
    now_ms: u64,
) -> (LinkView, Map<Seq<char>, Seq<char>>, LinkStepView) {
    match f {
        ServerFrameView::HelloOk {
            protocol_version,
            min_supported,
            current_protocol,
            server_time_ms,
            trust_root_b64,
        } => greeted(
            l,
            roots,
            protocol_version,
            min_supported,
            current_protocol,
            server_time_ms,
            trust_root_b64,
            now_ms,
        ),
        ServerFrameView::SenderCertificate {
            request_id,
            certificate_b64,
            trust_root_b64,
            expires_at_ms,
        } => certificate_issued(
            l,
            roots,
            request_id,
            CertificateView { certificate_b64, trust_root_b64, expires_at_ms },
        ),
        ServerFrameView::Envelope { envelope } => (
            l,
            roots,
            going_on(seq![LinkActionView::Envelope { envelope }]),
        ),
        ServerFrameView::SendOk { id, queued, client_ref } => (
            l,
            roots,
            going_on(envelope_taken(l, AckView { id, queued, client_ref })),
        ),
        ServerFrameView::SendError { client_ref, code, message } => (
            l,
            roots,
            going_on(envelope_refused(l, client_ref, code, message)),
        ),
        ServerFrameView::DeliveryTokensSet { request_id, .. } => (
            l,
            roots,
            going_on(seq![LinkActionView::TokensSet { request_id }]),
        ),
        ServerFrameView::Error { code, message } => (
            LinkView { waiting: false, ..l },
            roots,
            going_on(relay_refused(l, code, message)),
        ),
        _ => (l, roots, going_on(Seq::empty())),
    }
}

fn status_of(server_id: &str, state: &str, reason: Option<String>) -> (r: LinkAction)
    ensures
        r@ == status(server_id@, state@, seqs::opt(reason)),
{
    LinkAction::Status {
        event: TransportStatusEvent {
            server_id: server_id.to_string(),
            status: state.to_string(),
            reason,
        },
    }
}

fn list_of(a: LinkAction) -> (r: Vec<LinkAction>)
    ensures
        seqs::views(r@) == seq![a@],
{
    let mut v: Vec<LinkAction> = Vec::new();
    v.push(a);
    proof {
        assert(seqs::views(v@) =~= seq![a@]);
    }
    v
}

fn push_action(v: &mut Vec<LinkAction>, a: LinkAction)
    ensures
        seqs::views(final(v)@) == seqs::views(old(v)@) + seq![a@],
{
    proof {
        seqs::views_push(v@, a);
    }
    v.push(a);
    proof {
        assert(seqs::views(old(v)@).push(a@) =~= seqs::views(old(v)@) + seq![a@]);
    }
}

fn no_actions() -> (r: Vec<LinkAction>)
    ensures
        seqs::views(r@) == Seq::<LinkActionView>::empty(),
{
    let v: Vec<LinkAction> = Vec::new();
    proof {
        assert(seqs::views(v@) =~= Seq::<LinkActionView>::empty());
    }
    v
}

fn mismatch_text(version: u16) -> (r: String)
    ensures
        r@ == "relay protocol mismatch: client supports "@ + text::decimal(
            frames::PROTOCOL_MIN_SUPPORTED as nat,
        ) + "-"@ + text::decimal(frames::PROTOCOL_VERSION as nat) + ", relay selected "@
            + text::decimal(version as nat),
{
    let min = text::decimal_text(frames::PROTOCOL_MIN_SUPPORTED as u64);
    let max = text::decimal_text(frames::PROTOCOL_VERSION as u64);
    let got = text::decimal_text(version as u64);
    let a = text::concat3("relay protocol mismatch: client supports ", min.as_str(), "-");
    let b = text::concat3(a.as_str(), max.as_str(), ", relay selected ");
    text::concat2(b.as_str(), got.as_str())
}

fn fits(version: u16, min_supported: Option<u16>, current: Option<u16>) -> (r: bool)
    ensures
        r == version_fits(version, min_supported, current),
{
    let low: u16 = match min_supported {
        Some(m) => m,
        None => version,
    };
    let high: u16 = match current {
        Some(m) => m,
        None => version,
    };
    frames::PROTOCOL_MIN_SUPPORTED <= version && version <= frames::PROTOCOL_VERSION && low
        <= version && version <= high
}

/// Adds the root of a relay; tells whether it is not another one than the known one.
fn add_root(roots: &mut StringMap<String>, server_id: &str, root: &str) -> (r: bool)
    ensures
        match with_root(old(roots)@, server_id@, root@) {
            Some(after) => r && final(roots)@ == after,
            None => !r && final(roots)@ == old(roots)@,
        },
{
    if let Some(known) = roots.get(server_id) {
        if !text::same_text(known.as_str(), root) {
            return false;
        }
    }
    roots.insert(server_id.to_string(), root.to_string());
    true
}

impl Link {
    /// A connection that is being set up.
    pub fn new(server_id: String) -> (r: Self)
        ensures
            r@ == (LinkView { server_id: server_id@, waiting: true }),
    {
        Link { server_id, waiting: true }
    }

    fn greet(
        &mut self,
        roots: &mut StringMap<String>,
        version: u16,
        min_supported: Option<u16>,
        current: Option<u16>,
        server_ms: u64,
        root: String,
        now_ms: u64,
    ) -> (r: LinkStep)
        ensures
            (final(self)@, final(roots)@, r@) == greeted(
                old(self)@,
                old(roots)@,
                version,
                min_supported,
                current,
                server_ms,
                root@,
                now_ms,
            ),
    {
        let id = self.server_id.clone();
        let mut actions = no_actions();
        let d: u64 = if server_ms > now_ms {
            server_ms - now_ms
        } else {
            now_ms - server_ms
        };
        if d > MAX_CLOCK_SKEW_MS {
            let minutes = text::decimal_text(d / 60_000);
            let reason = text::concat3(
                "local clock differs from relay by about ",
                minutes.as_str(),
                " minutes",
            );
            actions = list_of(status_of(id.as_str(), "clock_skew", Some(reason)));
        }
        proof {
            assert(seqs::views(actions@) == skew_remark(id@, server_ms, now_ms));
        }
        if !fits(version, min_supported, current) {
            return LinkStep { actions, end: Some(mismatch_text(version)) };
        }
        if !add_root(roots, id.as_str(), root.as_str()) {
            return LinkStep {
                actions,
                end: Some("relay trust root changed during this session".to_string()),
            };
        }
        let ghost remark = seqs::views(actions@);
        if self.waiting {
            push_action(&mut actions, LinkAction::Ready);
        } else {
            proof {
                assert(remark + Seq::<LinkActionView>::empty() =~= remark);
            }
        }
        self.waiting = false;
        push_action(&mut actions, status_of(id.as_str(), "ready", None));
        LinkStep { actions, end: None }
    }

    /// What a frame from the relay leads to.
    pub fn receive(&mut self, roots: &mut StringMap<String>, frame: ServerFrame, now_ms: u64) -> (r:
        LinkStep)
        ensures
            (final(self)@, final(roots)@, r@) == stepped(old(self)@, old(roots)@, frame@, now_ms),
    {
        let id = self.server_id.clone();
        match frame {
            ServerFrame::HelloOk {
                protocol_version,
                min_supported,
                current_protocol,
                server_time_ms,
                trust_root_b64,
            } => self.greet(
                roots,
                protocol_version,
                min_supported,
                current_protocol,
                server_time_ms,
                trust_root_b64,
                now_ms,
            ),
            ServerFrame::SenderCertificate {
                request_id,
                certificate_b64,
                trust_root_b64,
                expires_at_ms,
            } => {
                if !add_root(roots, id.as_str(), trust_root_b64.as_str()) {
                    return LinkStep {
                        actions: no_actions(),
                        end: Some(
                            "relay trust root changed during sender-certificate issuance".to_string(),
                        ),
                    };
                }
                let certificate = SenderCertificateResponse {
                    certificate_b64,
                    trust_root_b64,
                    expires_at_ms,
                };
                LinkStep {
                    actions: list_of(LinkAction::Certificate { request_id, certificate }),
                    end: None,
                }
            },
            ServerFrame::Envelope { envelope } => LinkStep {
                actions: list_of(LinkAction::Envelope { envelope }),
                end: None,
            },
            ServerFrame::SendOk { id: envelope_id, queued, client_ref } => {
                let mut actions = no_actions();
                if let Some(r) = &client_ref {
                    let ack = SendEnvelopeAck {
                        id: envelope_id,
                        queued,
                        client_ref: client_ref.clone(),
                    };
                    actions = list_of(LinkAction::Sent { client_ref: r.clone(), ack });
                }
                push_action(
                    &mut actions,
                    LinkAction::Receipt {
                        receipt: SendReceipt { server_id: id, id: envelope_id, queued, client_ref },
                    },
                );
                LinkStep { actions, end: None }
            },
            ServerFrame::SendError { client_ref, code, message } => {
                let line = frames::refusal_text(code.as_str(), message.as_str());
                let mut actions = no_actions();
                if let Some(r) = &client_ref {
                    actions = list_of(
                        LinkAction::NotSent { client_ref: r.clone(), reason: line.clone() },
                    );
                }
                let ghost first = seqs::views(actions@);
                let last = status_of(id.as_str(), "send_error", Some(line));
                let failure = SendFailure { server_id: id, client_ref, code, message };
                let ghost two = seq![LinkActionView::Failure { failure: failure@ }, last@];
                push_action(&mut actions, LinkAction::Failure { failure });
                push_action(&mut actions, last);
                proof {
                    assert(seqs::views(actions@) =~= first + two);
                }
                LinkStep { actions, end: None }
            },
            ServerFrame::DeliveryTokensSet { request_id, .. } => LinkStep {
                actions: list_of(LinkAction::TokensSet { request_id }),
                end: None,
            },
            ServerFrame::Error { code, message } => {
                let line = frames::refusal_text(code.as_str(), message.as_str());
                let mut actions = no_actions();
                if self.waiting {
                    actions = list_of(LinkAction::NotReady { reason: line.clone() });
                }
                self.waiting = false;
                push_action(
                    &mut actions,
                    status_of(id.as_str(), "server_error", Some(line)),
                );
                LinkStep { actions, end: None }
            },
            _ => LinkStep { actions: no_actions(), end: None },
        }
    }

    /// What it leads to that the relay closed the connection.
    pub fn closed(&mut self) -> (r: Vec<LinkAction>)
        ensures
            final(self)@ == (LinkView { waiting: false, ..old(self)@ }),
            seqs::views(r@) == if old(self)@.waiting {
                seq![
                    LinkActionView::NotReady {
                        reason: "relay connection ended before registration completed"@,
                    },
                ]
            } else {
                Seq::empty()
            },
    {
        if self.waiting {
            self.waiting = false;
            list_of(
                LinkAction::NotReady {
                    reason: "relay connection ended before registration completed".to_string(),
                },
            )
        } else {
            no_actions()
        }
    }
}

/// What is to be shown when a frame could not be written.
pub open spec fn write_failed(server_id: Seq<char>, f: ClientFrameView, e: Seq<char>) -> Seq<
    LinkActionView,
> {
    (match f {
        ClientFrameView::SendEnvelope { client_ref: Some(r), .. } => seq![
            LinkActionView::Failure {
                failure: FailureView {
                    server_id,
                    client_ref: Some(r),
                    code: "websocket_write_failed"@,
                    message: e,
                },
            },
        ],
        _ => Seq::empty(),
    }) + seq![status(server_id, "failed"@, Some(e))]
}

/// What is to be shown when a frame could not be written.
pub fn write_failure(server_id: &str, frame: &ClientFrame, e: &str) -> (r: Vec<LinkAction>)
    ensures
        seqs::views(r@) == write_failed(server_id@, frame@, e@),
{
    let mut actions = no_actions();
    if let ClientFrame::SendEnvelope { client_ref, .. } = frame {
        if let Some(r) = client_ref {
            let failure = SendFailure {
                server_id: server_id.to_string(),
                client_ref: Some(r.clone()),
                code: "websocket_write_failed".to_string(),
                message: e.to_string(),
            };
            actions = list_of(LinkAction::Failure { failure });
        }
    }
    push_action(&mut actions, status_of(server_id, "failed", Some(e.to_string())));
    actions
}

/// Whether an open connection is the one that is asked for.
pub fn is_same_connection(
    open_url: &str,
    open_recipient_id: &str,
    closed: bool,
    url: &str,
    recipient_id: &str,
) -> (r: bool)
    ensures
        r == (open_url@ == url@ && open_recipient_id@ == recipient_id@ && !closed),
{
    text::same_text(open_url, url) && text::same_text(open_recipient_id, recipient_id) && !closed
}

/// The root of a relay never changes while it is known: a frame leaves it as it is, or ends the
/// connection.
pub proof fn roots_stay(
    l: LinkView,
    roots: Map<Seq<char>, Seq<char>>,
    f: ServerFrameView,
    now_ms: u64,
    server_id: Seq<char>,
)
    requires
        roots.contains_key(server_id),
    ensures
        stepped(l, roots, f, now_ms).1.contains_key(server_id),
        stepped(l, roots, f, now_ms).1[server_id] == roots[server_id],
{
}

/// Whoever waits for the connection hears of it once: the first greeting or refusal ends the
/// waiting, and later frames announce nothing.
pub proof fn waiting_ends_once(
    l: LinkView,
    roots: Map<Seq<char>, Seq<char>>,
    f: ServerFrameView,
    now_ms: u64,
)
    requires
        !l.waiting,
    ensures
        !stepped(l, roots, f, now_ms).0.waiting,
        forall|i: int|
            0 <= i < stepped(l, roots, f, now_ms).2.actions.len() ==> !((#[trigger] stepped(
                l,
                roots,
                f,
                now_ms,
            ).2.actions[i]) is Ready) && !(stepped(l, roots, f, now_ms).2.actions[i] is NotReady),
{
}

} // verus!
