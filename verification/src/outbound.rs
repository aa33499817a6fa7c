//! Sending: from a text to a sealed envelope, and what became of it.
use crate::contacts;
use crate::events::CertificateView;
use crate::events::SenderCertificateResponse;
use crate::frames::ClientFrame;
use crate::frames::ClientFrameView;
use crate::inbound;
use crate::keys;
use crate::keys::BundleParts;
use crate::keys::BundlePartsView;
use crate::requests;
use crate::routes;
use crate::routes::FreshRoute;
use crate::routes::FreshRouteView;
use crate::seqs;
use crate::seqs::Duplicate;
use crate::store::ContactView;
use crate::store::LocalRoute;
use crate::store::MessageView;
use crate::store::MessagingStore;
use crate::store::RouteView;
use crate::store::SessionView;
use crate::store::StoreView;
use crate::store::StoredContact;
use crate::store::StoredMessage;
use crate::text;
use crate::urls;
use vstd::prelude::*;

verus! {

/// The largest text that is sent, in bytes.
pub const MAX_TEXT_BYTES: usize = 16_384;

/// What is sent of a text, or why it is not: white space around a message is dropped.
pub open spec fn outgoing(kind: Seq<char>, body: Seq<char>) -> Result<Seq<char>, Seq<char>> {
    let t = if kind == "text"@ {
        text::trimmed(body)
    } else {
        body
    };
    if kind == "text"@ && t.len() == 0 {
        Err("message is empty"@)
    } else if text::byte_len(t) > MAX_TEXT_BYTES {
        Err("message too large for text MVP"@)
    } else {
        Ok(t)
    }
}

/// What is sent of a text.
pub fn outgoing_text(kind: &str, body: &str) -> (r: Result<String, String>)
    ensures
        seqs::outcome(r) == outgoing(kind@, body@),
{
    let is_text = text::same_text(kind, "text");
    let t = if is_text {
        text::trim(body)
    } else {
        body.to_string()
    };
    if is_text && t.as_str().is_empty() {
        return Err("message is empty".to_string());
    }
    if text::len_in_bytes(t.as_str()) > MAX_TEXT_BYTES {
        return Err("message too large for text MVP".to_string());
    }
    Ok(t)
}

/// A contact and the routes of a message to it.
pub struct SendPlan {
    pub contact: StoredContact,
    /// The route that the sender certificate is for.
    pub sender_route: LocalRoute,
    /// The route by which the contact answers.
    pub return_route: LocalRoute,
}

/// A contact and the routes of a message to it.
#[verifier::ext_equal]
pub struct SendPlanView {
    pub contact: ContactView,
    pub sender_route: RouteView,
    pub return_route: RouteView,
}

impl View for SendPlan {
    type V = SendPlanView;

    open spec fn view(&self) -> SendPlanView {
        SendPlanView {
            contact: self.contact@,
            sender_route: self.sender_route@,
            return_route: self.return_route@,
        }
    }
}

/// The store with a route for a contact, and the routes of a message to it; a contact whose
/// identity changed is refused.
pub open spec fn planned(st: StoreView, contact_id: Seq<char>, f: FreshRouteView, now_ms: u64) -> (
    StoreView,
    Result<SendPlanView, Seq<char>>,
) {
    match seqs::first_where(st.contacts, routes::contact_is(contact_id)) {
        None => (st, Err("contact not found"@)),
        Some(c) => if c.trust_state == contacts::BLOCKED@ {
            (st, Err("contact identity changed; verify before sending"@))
        } else {
            let (s1, return_route) = routes::ensured_route(st, c.id, c.server_url, f, now_ms);
            (
                s1,
                Ok(
                    SendPlanView {
                        contact: c,
                        sender_route: routes::sender_route(s1, c.id, return_route),
                        return_route,
                    },
                ),
            )
        },
    }
}

fn plan(store: &mut MessagingStore, contact_id: &str, fresh: FreshRoute, now_ms: u64) -> (r: Result<
    SendPlan,
    String,
>)
    ensures
        (final(store)@, seqs::outcome(r)) == planned(old(store)@, contact_id@, fresh@, now_ms),
{
    let i: usize = match routes::find_contact(&store.contacts, contact_id) {
        None => {
            return Err("contact not found".to_string());
        },
        Some(i) => i,
    };
    let contact = store.contacts[i].duplicate();
    if text::same_text(contact.trust_state.as_str(), contacts::BLOCKED) {
        return Err("contact identity changed; verify before sending".to_string());
    }
    let return_route = routes::ensure_route_for_contact(
        store,
        contact.id.as_str(),
        contact.server_url.as_str(),
        fresh,
        now_ms,
    );
    let sender_route = routes::sender_route_for_contact(
        store,
        contact.id.as_str(),
        &return_route,
    );
    Ok(SendPlan { contact, sender_route, return_route })
}

/// Chooses the routes of a message to a contact, before a sender certificate is asked for.
pub fn prepare_send(
    store: &mut MessagingStore,
    contact_id: &str,
    fresh: FreshRoute,
    now_ms: u64,
) -> (r: Result<SendPlan, String>)
    ensures
        (final(store)@, seqs::outcome(r)) == planned(
            routes::cleaned(old(store)@, now_ms),
            contact_id@,
            fresh@,
            now_ms,
        ),
{
    routes::cleanup_expired_routes(store, now_ms);
    plan(store, contact_id, fresh, now_ms)
}

/// The store and the plan once the sender certificate is there: the relay's root must be the
/// pinned one, and the route must still be the one that the certificate is for.
pub open spec fn planned_with_certificate(
    st: StoreView,
    first: SendPlanView,
    trust_root: Seq<char>,
    f: FreshRouteView,
    now_ms: u64,
) -> (StoreView, Result<SendPlanView, Seq<char>>) {
    let s1 = routes::cleaned(st, now_ms);
    match routes::pinned(s1, first.sender_route.server_id, trust_root) {
        Err(e) => (s1, Err(e)),
        Ok((s2, _)) => match planned(s2, first.contact.id, f, now_ms) {
            (s3, Err(e)) => (s3, Err(e)),
            (s3, Ok(p)) => if p.sender_route.id != first.sender_route.id {
                (s3, Err("sender route changed while preparing message; retry send"@))
            } else {
                (s3, Ok(p))
            },
        },
    }
}

/// Chooses the routes once more when the sender certificate is there.
pub fn prepare_with_certificate(
    store: &mut MessagingStore,
    first: &SendPlan,
    trust_root: &str,
    fresh: FreshRoute,
    now_ms: u64,
) -> (r: Result<SendPlan, String>)
    ensures
        (final(store)@, seqs::outcome(r)) == planned_with_certificate(
            old(store)@,
            first@,
            trust_root@,
            fresh@,
            now_ms,
        ),
{
    routes::cleanup_expired_routes(store, now_ms);
    match routes::pin_server_trust_root(
        store,
        first.sender_route.server_id.as_str(),
        trust_root,
    ) {
        Err(e) => {
            return Err(e);
        },
        Ok(_) => {},
    }
    let p = match plan(store, first.contact.id.as_str(), fresh, now_ms) {
        Err(e) => {
            return Err(e);
        },
        Ok(p) => p,
    };
    if p.sender_route.id != first.sender_route.id {
        return Err("sender route changed while preparing message; retry send".to_string());
    }
    Ok(p)
}

/// Where a sender certificate was asked for: over the open connection of the route, or, after that
/// failed for a reason, over a connection of its own.
pub enum CertificateSource {
    Open,
    Alone { why: String },
}

/// What follows the answer to a request for a sender certificate.
pub enum CertificateStep {
    /// Use the certificate; where it came over a connection of its own, open the lasting one anew.
    Use { certificate: SenderCertificateResponse, reconnect: bool },
    /// Ask over a connection of its own.
    AskAlone { why: String },
    /// Give up.
    Fail { why: String },
}

/// What follows the answer to a request for a sender certificate.
pub enum CertificateStepView {
    Use { certificate: CertificateView, reconnect: bool },
    AskAlone { why: Seq<char> },
    Fail { why: Seq<char> },
}

impl View for CertificateStep {
    type V = CertificateStepView;

    open spec fn view(&self) -> CertificateStepView {
        match self {
            CertificateStep::Use { certificate, reconnect } => CertificateStepView::Use {
                certificate: certificate@,
                reconnect: *reconnect,
            },
            CertificateStep::AskAlone { why } => CertificateStepView::AskAlone { why: why@ },
            CertificateStep::Fail { why } => CertificateStepView::Fail { why: why@ },
        }
    }
}

/// What follows an answer, given why an earlier request over the open connection failed, if it was
/// made.
pub open spec fn after_answer(
    failed_before: Option<Seq<char>>,
    answer: Result<CertificateView, Seq<char>>,
) -> CertificateStepView {
    match (failed_before, answer) {
        (_, Ok(certificate)) => CertificateStepView::Use {
            certificate,
            reconnect: failed_before is Some,
        },
        (None, Err(why)) => CertificateStepView::AskAlone { why },
        (Some(first), Err(then)) => CertificateStepView::Fail {
            why: "sender certificate failed ("@ + first + "); fallback also failed: "@ + then,
        },
    }
}

/// What follows the answer to a request for a sender certificate: a request over the open
/// connection that fails is made again over a connection of its own, and then no more.
pub fn certificate_step(
    source: CertificateSource,
    answer: Result<SenderCertificateResponse, String>,
) -> (r: CertificateStep)
    ensures
        r@ == match (source, answer) {
            (CertificateSource::Open, Ok(c)) => CertificateStepView::Use {
                certificate: c@,
                reconnect: false,
            },
            (CertificateSource::Open, Err(why)) => CertificateStepView::AskAlone { why: why@ },
            (CertificateSource::Alone { .. }, Ok(c)) => CertificateStepView::Use {
                certificate: c@,
                reconnect: true,
            },
            (CertificateSource::Alone { why }, Err(fallback)) => CertificateStepView::Fail {
                why: "sender certificate failed ("@ + why@ + "); fallback also failed: "@
                    + fallback@,
            },
        },
        r@ == after_answer(
            match source {
                CertificateSource::Open => None,
                CertificateSource::Alone { why } => Some(why@),
            },
            seqs::outcome(answer),
        ),
{
    match source {
        CertificateSource::Open => match answer {
            Ok(certificate) => CertificateStep::Use { certificate, reconnect: false },
            Err(why) => CertificateStep::AskAlone { why },
        },
        CertificateSource::Alone { why } => match answer {
            Ok(certificate) => CertificateStep::Use { certificate, reconnect: true },
            Err(fallback) => CertificateStep::Fail {
                why: certificate_failure(why.as_str(), fallback.as_str()),
            },
        },
    }
}

/// The frame that carries a sealed text to the contact of a plan, under the message's id.
pub open spec fn envelope_for(p: SendPlanView, wire: Seq<char>, message_id: Seq<char>) -> Result<
    ClientFrameView,
    Seq<char>,
> {
    requests::asked(
        requests::both(
            urls::checked_ws_url(p.contact.server_url),
            requests::checked_envelope(
                p.contact.recipient_id,
                p.contact.delivery_token,
                inbound::ENVELOPE_TYPE_SEALED_SIGNAL@,
                wire,
            ),
        ),
        (ClientFrameView::SendEnvelope {
            client_ref: Some(message_id),
            to: p.contact.recipient_id,
            delivery_token: p.contact.delivery_token,
            envelope_type: inbound::ENVELOPE_TYPE_SEALED_SIGNAL@,
            ciphertext: wire,
        }),
    )
}

/// The one frame that carries a message to its contact, over a connection of its own: the sealed
/// text for the contact's mailbox, under the message's own id.
pub fn envelope_frame(plan: &SendPlan, wire: String, message_id: String) -> (r: Result<
    ClientFrame,
    String,
>)
    ensures
        seqs::outcome(r) == requests::asked(
            requests::both(
                urls::checked_ws_url(plan@.contact.server_url),
                requests::checked_envelope(
                    plan@.contact.recipient_id,
                    plan@.contact.delivery_token,
                    inbound::ENVELOPE_TYPE_SEALED_SIGNAL@,
                    wire@,
                ),
            ),
            (ClientFrameView::SendEnvelope {
                client_ref: Some(message_id@),
                to: plan@.contact.recipient_id,
                delivery_token: plan@.contact.delivery_token,
                envelope_type: inbound::ENVELOPE_TYPE_SEALED_SIGNAL@,
                ciphertext: wire@,
            }),
        ),
        seqs::outcome(r) == envelope_for(plan@, wire@, message_id@),
{
    requests::ask_to_send_once(
        plan.contact.server_url.as_str(),
        plan.contact.recipient_id.clone(),
        plan.contact.delivery_token.clone(),
        inbound::ENVELOPE_TYPE_SEALED_SIGNAL.to_string(),
        wire,
        message_id,
    )
}

/// The message of a failed certificate request: what the open connection said, and what the
/// short-lived one said.
pub fn certificate_failure(primary: &str, fallback: &str) -> (r: String)
    ensures
        r@ == "sender certificate failed ("@ + primary@ + "); fallback also failed: "@ + fallback@,
{
    let a = text::concat3("sender certificate failed (", primary, "); fallback also failed: ");
    text::concat2(a.as_str(), fallback)
}

// ---------------------------------------------------------------------------------------------
// The session with the contact.
// ---------------------------------------------------------------------------------------------

/// The session is with a device of a mailbox.
pub open spec fn session_with(recipient_id: Seq<char>, device_id: u32) -> spec_fn(
    (Seq<char>, SessionView),
) -> bool {
    |e: (Seq<char>, SessionView)| e.1.address_name == recipient_id && e.1.device_id == device_id
}

/// Whether there is a session with a device of a mailbox.
pub fn has_session(store: &MessagingStore, recipient_id: &str, device_id: u32) -> (r: bool)
    ensures
        r == (seqs::find(
            store.signal_sessions.listing(),
            session_with(recipient_id@, device_id),
        ) is Some),
{
    let ghost all = store.signal_sessions.listing();
    let ghost p = session_with(recipient_id@, device_id);
    let n: usize = store.signal_sessions.count();
    let mut i: usize = 0;
    while i < n
        invariant
            i <= n,
            n == all.len(),
            all == store.signal_sessions.listing(),
            p == session_with(recipient_id@, device_id),
            forall|j: int| 0 <= j < i ==> !p(#[trigger] all[j]),
        decreases n - i,
    {
        let (_, blob) = store.signal_sessions.entry(i);
        if text::same_text(blob.address_name.as_str(), recipient_id) && blob.device_id
            == device_id {
            proof {
                assert(p(all[i as int]));
                seqs::find_is(all, p, i as int);
            }
            return true;
        }
        proof {
            assert(!p(all[i as int]));
        }
        i = i + 1;
    }
    proof {
        seqs::find_none(all, p);
    }
    false
}

/// The store after a session was given up for one that starts from prekeys, where that was asked
/// for and the contact's prekeys allow it.
pub open spec fn session_reset(st: StoreView, c: ContactView, force_prekey: bool) -> StoreView {
    if force_prekey && routes::reusable_prekeys(c) {
        StoreView {
            signal_sessions: st.signal_sessions.remove(
                contacts::session_key(c.recipient_id, c.device_id),
            ),
            ..st
        }
    } else {
        st
    }
}

/// Gives a session up for one that starts from prekeys, where that was asked for.
pub fn reset_session(store: &mut MessagingStore, contact: &StoredContact, force_prekey: bool)
    ensures
        final(store)@ == session_reset(old(store)@, contact@, force_prekey),
{
    if force_prekey && routes::contact_has_reusable_prekey_material(contact) {
        let name = contacts::session_name(contact.recipient_id.as_str(), contact.device_id);
        store.signal_sessions.remove(name.as_str());
    }
}

/// The prekey bundle to start a session from, or why none can be started.
pub open spec fn first_contact(c: ContactView) -> Result<BundlePartsView, Seq<char>> {
    if c.identity_public_b64.len() == 0 || c.signed_prekey_public_b64.len() == 0 {
        Err(
            "contact does not have a usable Signal prekey bundle yet, and no established session exists; exchange connection codes first"@,
        )
    } else {
        keys::contact_bundle(c)
    }
}

/// The prekey bundle to start a session from.
pub fn bundle_for_first_message(contact: &StoredContact) -> (r: Result<BundleParts, String>)
    ensures
        seqs::outcome(r) == first_contact(contact@),
{
    if contact.identity_public_b64.as_str().is_empty()
        || contact.signed_prekey_public_b64.as_str().is_empty() {
        return Err(
            "contact does not have a usable Signal prekey bundle yet, and no established session exists; exchange connection codes first".to_string(),
        );
    }
    keys::prekey_bundle_from_contact(contact)
}

/// The contacts, one of them without its one-time prekey.
pub open spec fn opk_spent(cs: Seq<ContactView>, contact_id: Seq<char>) -> Seq<ContactView> {
    match seqs::find(cs, routes::contact_is(contact_id)) {
        Some(i) => cs.update(i, ContactView { opk_id: None, opk_public_b64: None, ..cs[i] }),
        None => cs,
    }
}

/// Forgets the one-time prekey of a contact, which a session was started from.
pub fn spend_contact_opk(store: &mut MessagingStore, contact_id: &str)
    ensures
        final(store)@ == (StoreView {
            contacts: opk_spent(old(store)@.contacts, contact_id@),
            ..old(store)@
        }),
{
    if let Some(i) = routes::find_contact(&store.contacts, contact_id) {
        let mut c = store.contacts[i].duplicate();
        c.opk_id = None;
        c.opk_public_b64 = None;
        proof {
            seqs::views_update(store.contacts@, i as int, c);
        }
        store.contacts.set(i, c);
    }
}

// ---------------------------------------------------------------------------------------------
// The message in the store.
// ---------------------------------------------------------------------------------------------

/// A message of one's own on its way to the relay.
pub open spec fn outgoing_message(
    id: Seq<char>,
    contact_id: Seq<char>,
    body: Seq<char>,
    sent_at_ms: u64,
) -> MessageView {
    MessageView {
        id,
        contact_id,
        mine: true,
        text: body,
        timestamp: sent_at_ms,
        received_at_ms: None,
        status: "relay_pending"@,
    }
}

/// Stores a message of one's own before it is sent.
pub fn record_outgoing(
    store: &mut MessagingStore,
    id: &str,
    contact_id: &str,
    body: &str,
    sent_at_ms: u64,
) -> (r: StoredMessage)
    ensures
        r@ == outgoing_message(id@, contact_id@, body@, sent_at_ms),
        final(store)@ == (StoreView {
            messages: old(store)@.messages.push(r@),
            ..old(store)@
        }),
{
    let m = StoredMessage {
        id: id.to_string(),
        contact_id: contact_id.to_string(),
        mine: true,
        text: body.to_string(),
        timestamp: sent_at_ms,
        received_at_ms: None,
        status: "relay_pending".to_string(),
    };
    let copy = m.duplicate();
    proof {
        seqs::views_push(store.messages@, copy);
    }
    store.messages.push(copy);
    m
}

/// The message is one's own and has the id.
pub open spec fn own_message(id: Seq<char>) -> spec_fn(MessageView) -> bool {
    |m: MessageView| m.id == id && m.mine
}

fn find_own_message(messages: &Vec<StoredMessage>, id: &str) -> (r: Option<usize>)
    ensures
        match r {
            Some(i) => i < messages@.len() && seqs::find(
                seqs::views(messages@),
                own_message(id@),
            ) == Some(i as int),
            None => seqs::find(seqs::views(messages@), own_message(id@)) == None::<int>,
        },
{
    let ghost all = seqs::views(messages@);
    let mut i: usize = 0;
    while i < messages.len()
        invariant
            i <= messages@.len(),
            all == seqs::views(messages@),
            forall|j: int| 0 <= j < i ==> !own_message(id@)(#[trigger] all[j]),
        decreases messages@.len() - i,
    {
        if text::same_text(messages[i].id.as_str(), id) && messages[i].mine {
            proof {
                seqs::find_is(all, own_message(id@), i as int);
            }
            return Some(i);
        }
        i = i + 1;
    }
    proof {
        seqs::find_none(all, own_message(id@));
    }
    None
}

/// The status of a message that the relay took.
pub open spec fn accepted_status(queued: bool) -> Seq<char> {
    if queued {
        "relay_queued"@
    } else {
        "relay_received"@
    }
}

/// The status of a message after it was sent, given whether the relay took it and queued it.
pub open spec fn sent_status(accepted: Option<bool>) -> Seq<char> {
    match accepted {
        Some(queued) => accepted_status(queued),
        None => "send_failed"@,
    }
}

fn status_text(accepted: Option<bool>) -> (r: String)
    ensures
        r@ == sent_status(accepted),
{
    match accepted {
        Some(queued) => if queued {
            "relay_queued".to_string()
        } else {
            "relay_received".to_string()
        },
        None => "send_failed".to_string(),
    }
}

/// The store after a message of one's own got a status, and the message, if it is there.
pub open spec fn restated(st: StoreView, id: Seq<char>, accepted: Option<bool>) -> (
    StoreView,
    Option<MessageView>,
) {
    match seqs::find(st.messages, own_message(id)) {
        Some(i) => {
            let m = MessageView { status: sent_status(accepted), ..st.messages[i] };
            (StoreView { messages: st.messages.update(i, m), ..st }, Some(m))
        },
        None => (st, None),
    }
}

fn restate(store: &mut MessagingStore, id: &str, accepted: Option<bool>) -> (r: Option<
    StoredMessage,
>)
    ensures
        (final(store)@, seqs::opt(r)) == restated(old(store)@, id@, accepted),
{
    match find_own_message(&store.messages, id) {
        Some(i) => {
            let mut m = store.messages[i].duplicate();
            m.status = status_text(accepted);
            let copy = m.duplicate();
            proof {
                seqs::views_update(store.messages@, i as int, copy);
            }
            store.messages.set(i, copy);
            Some(m)
        },
        None => None,
    }
}

/// Notes that the relay took a message.
pub fn mark_message_relay_received(store: &mut MessagingStore, id: &str, queued: bool) -> (r: Option<
    StoredMessage,
>)
    ensures
        (final(store)@, seqs::opt(r)) == restated(old(store)@, id@, Some(queued)),
{
    restate(store, id, Some(queued))
}

/// Notes that a message could not be sent.
pub fn mark_message_send_failed(store: &mut MessagingStore, id: &str) -> (r: Option<StoredMessage>)
    ensures
        (final(store)@, seqs::opt(r)) == restated(old(store)@, id@, None),
{
    restate(store, id, None)
}

/// The store after a message was sent or not, and the message: one that is no longer there is
/// stored again.
pub open spec fn sent(st: StoreView, m: MessageView, accepted: Option<bool>) -> (
    StoreView,
    MessageView,
) {
    match restated(st, m.id, accepted) {
        (s, Some(after)) => (s, after),
        (_, None) => {
            let after = MessageView { status: sent_status(accepted), ..m };
            (StoreView { messages: st.messages.push(after), ..st }, after)
        },
    }
}

/// Notes what became of a message: whether the relay took it, and whether it queued it.
pub fn finish_send(store: &mut MessagingStore, message: StoredMessage, accepted: Option<bool>)
    -> (r: StoredMessage)
    ensures
        (final(store)@, r@) == sent(old(store)@, message@, accepted),
{
    match restate(store, message.id.as_str(), accepted) {
        Some(m) => m,
        None => {
            let mut m = message;
            m.status = status_text(accepted);
            let copy = m.duplicate();
            proof {
                seqs::views_push(store.messages@, copy);
            }
            store.messages.push(copy);
            m
        },
    }
}

// ---------------------------------------------------------------------------------------------
// Laws.
// ---------------------------------------------------------------------------------------------

/// Nothing is sent to a contact whose identity changed: neither before nor after a certificate
/// was asked for.
pub proof fn blocked_contacts_get_nothing(
    st: StoreView,
    contact_id: Seq<char>,
    f: FreshRouteView,
    now_ms: u64,
    c: ContactView,
)
    requires
        seqs::first_where(st.contacts, routes::contact_is(contact_id)) == Some(c),
        c.trust_state == contacts::BLOCKED@,
    ensures
        planned(st, contact_id, f, now_ms) == (
            st,
            Err::<SendPlanView, Seq<char>>("contact identity changed; verify before sending"@),
        ),
{
}

/// A message that was stored before it was sent is in the store once afterwards, with the status
/// that its sending gave it.
pub proof fn sent_messages_are_stored_once(
    st: StoreView,
    id: Seq<char>,
    contact_id: Seq<char>,
    body: Seq<char>,
    at_ms: u64,
    accepted: Option<bool>,
)
    requires
        seqs::find(st.messages, inbound::message_is(id)) is None,
    ensures
        ({
            let m = outgoing_message(id, contact_id, body, at_ms);
            let stored = StoreView { messages: st.messages.push(m), ..st };
            sent(stored, m, accepted) == (
                StoreView {
                    messages: st.messages.push(
                        MessageView { status: sent_status(accepted), ..m },
                    ),
                    ..st
                },
                MessageView { status: sent_status(accepted), ..m },
            )
        }),
{
    let m = outgoing_message(id, contact_id, body, at_ms);
    let all = st.messages.push(m);
    seqs::find_spec(st.messages, inbound::message_is(id));
    assert forall|j: int| 0 <= j < all.len() - 1 implies !own_message(id)(#[trigger] all[j]) by {
        assert(all[j] == st.messages[j]);
        assert(!inbound::message_is(id)(st.messages[j]));
    }
    assert(all[all.len() - 1] == m);
    seqs::find_is(all, own_message(id), all.len() - 1);
    let after = MessageView { status: sent_status(accepted), ..m };
    assert(all.update(all.len() - 1, after) =~= st.messages.push(after));
}

} // verus!
