//! What holds of the client as a whole: pinned identities, verification, and messages that arrive.
use crate::contacts;
use crate::encoding;
use crate::inbound;
use crate::keys::LocalBundleView;
use crate::messages;
use crate::outbound;
use crate::payloads::DecryptedView;
use crate::payloads::VerificationView;
use crate::plaintext;
use crate::routes;
use crate::routes::FreshRouteView;
use crate::safety;
use crate::senders;
use crate::seqs;
use crate::store::ContactView;
use crate::store::InviteView;
use crate::store::KyberView;
use crate::store::MessageView;
use crate::store::RouteView;
use crate::store::StoreView;
use crate::text;
use vstd::prelude::*;

verus! {

// ---------------------------------------------------------------------------------------------
// Identities.
// ---------------------------------------------------------------------------------------------

/// No contact whose identity was known has another one now.
pub open spec fn identities_kept(before: Seq<ContactView>, after: Seq<ContactView>) -> bool {
    &&& before.len() <= after.len()
    &&& forall|i: int|
        0 <= i < before.len() && (#[trigger] before[i]).identity_public_b64.len() > 0
            ==> after[i].identity_public_b64 == before[i].identity_public_b64
}

proof fn route_keeps_identities(cs: Seq<ContactView>, contact_id: Seq<char>, route_id: Seq<char>)
    ensures
        identities_kept(cs, routes::with_contact_route(cs, contact_id, route_id)),
        routes::with_contact_route(cs, contact_id, route_id).len() == cs.len(),
        forall|i: int|
            0 <= i < cs.len() ==> (#[trigger] routes::with_contact_route(
                cs,
                contact_id,
                route_id,
            )[i]).identity_public_b64 == cs[i].identity_public_b64,
{
    seqs::find_spec(cs, routes::contact_is(contact_id));
}

/// A connection code never replaces the identity of a contact that is known.
pub proof fn codes_keep_identities(st: StoreView, c: ContactView, f: FreshRouteView, now_ms: u64)
    ensures
        identities_kept(st.contacts, contacts::added(st, c, f, now_ms).0.contacts),
{
    let s1 = routes::cleaned(st, now_ms);
    seqs::find_spec(s1.contacts, contacts::recipient_is(c.recipient_id));
    match seqs::find(s1.contacts, contacts::recipient_is(c.recipient_id)) {
        Some(i) => {
            let e = s1.contacts[i];
            routes::ensured_keeps_contacts(s1, e.id, c.server_url, f, now_ms);
            route_keeps_identities(s1.contacts, e.id, f.id);
        },
        None => {
            let s2 = StoreView { contacts: s1.contacts.push(c), ..s1 };
            routes::ensured_keeps_contacts(s2, c.id, c.server_url, f, now_ms);
            route_keeps_identities(s2.contacts, c.id, f.id);
            let (s3, route) = routes::ensured_route(s2, c.id, c.server_url, f, now_ms);
            route_keeps_identities(s3.contacts, c.id, route.id);
            let after = contacts::added(st, c, f, now_ms).0.contacts;
            assert forall|i: int|
                0 <= i < st.contacts.len() && (#[trigger] st.contacts[i]).identity_public_b64.len()
                    > 0 implies after[i].identity_public_b64 == st.contacts[i].identity_public_b64 by {
                assert(s2.contacts[i] == st.contacts[i]);
                assert(s3.contacts[i].identity_public_b64 == s2.contacts[i].identity_public_b64);
            }
        },
    }
}

/// A move to another relay never replaces the identity of a contact.
pub proof fn moves_keep_identities(
    st: StoreView,
    contact_id: Seq<char>,
    c: ContactView,
    f: FreshRouteView,
    now_ms: u64,
)
    ensures
        identities_kept(st.contacts, contacts::migrated(st, contact_id, c, f, now_ms).0.contacts),
{
    let s1 = routes::cleaned(st, now_ms);
    seqs::find_spec(s1.contacts, routes::contact_is(contact_id));
    if let Some(i) = seqs::find(s1.contacts, routes::contact_is(contact_id)) {
        let before = s1.contacts[i];
        let s2 = StoreView {
            signal_sessions: s1.signal_sessions.remove(
                contacts::session_key(before.recipient_id, before.device_id),
            ),
            ..s1
        };
        routes::rotated_keeps_contacts(s2, contact_id, c.server_url, f, now_ms);
        route_keeps_identities(s2.contacts, contact_id, f.id);
    }
}

proof fn keeping_keeps_identities(st: StoreView, c: ContactView, route: RouteView)
    requires
        senders::known_at(st.contacts, c) matches Some(i)
            ==> st.contacts[i].identity_public_b64.len() > 0
            ==> st.contacts[i].identity_public_b64 == c.identity_public_b64,
    ensures
        identities_kept(st.contacts, senders::kept_sender(st, c, route).0.contacts),
{
    seqs::find_spec(st.contacts, contacts::recipient_is(c.recipient_id));
    seqs::find_spec(st.contacts, senders::identity_is(c.identity_public_b64));
}

/// The store after a message of a certified sender was decrypted, and the sender as it is stored.
/// A first message names an identity key.
pub open spec fn heard(
    st: StoreView,
    uuid: Seq<char>,
    device_id: u32,
    route: RouteView,
    key: Option<Seq<u8>>,
    d: DecryptedView,
    my_public: Seq<u8>,
    session: Option<Seq<u8>>,
    now_ms: u64,
) -> (StoreView, Result<ContactView, Seq<char>>) {
    let c = senders::certified(st, uuid, device_id, route, now_ms);
    let (s1, sender) = match key {
        Some(k) => senders::identified(st, c, uuid, k, my_public),
        None => (st, Ok(c)),
    };
    match sender {
        Ok(c1) => senders::taken_in(
            s1,
            c1,
            d,
            uuid,
            device_id,
            route,
            my_public,
            session,
            now_ms,
        ),
        Err(e) => (s1, Err(e)),
    }
}

proof fn blocking_keeps_identities(st: StoreView, recipient_id: Seq<char>)
    ensures
        identities_kept(st.contacts, senders::recipient_blocked(st, recipient_id).contacts),
{
    seqs::find_spec(st.contacts, contacts::recipient_is(recipient_id));
}

/// A message never replaces the identity of a contact that is known, unless its sender moves to a
/// mailbox under which a contact with another identity is kept.
pub proof fn messages_keep_identities(
    st: StoreView,
    uuid: Seq<char>,
    device_id: u32,
    route: RouteView,
    key: Option<Seq<u8>>,
    d: DecryptedView,
    my_public: Seq<u8>,
    session: Option<Seq<u8>>,
    now_ms: u64,
)
    requires
        heard(st, uuid, device_id, route, key, d, my_public, session, now_ms).1 matches Ok(c)
            ==> c.recipient_id != uuid ==> (seqs::first_where(
            st.contacts,
            contacts::recipient_is(c.recipient_id),
        ) matches Some(e) ==> e.identity_public_b64.len() > 0 ==> e.identity_public_b64
            == c.identity_public_b64),
    ensures
        identities_kept(
            st.contacts,
            heard(st, uuid, device_id, route, key, d, my_public, session, now_ms).0.contacts,
        ),
{
    let c = senders::certified(st, uuid, device_id, route, now_ms);
    seqs::find_spec(st.contacts, contacts::recipient_is(uuid));
    let (s1, sender) = match key {
        Some(k) => senders::identified(st, c, uuid, k, my_public),
        None => (st, Ok(c)),
    };
    blocking_keeps_identities(st, uuid);
    if let Ok(c1) = sender {
        let routed = senders::with_routes(c1, d, uuid);
        blocking_keeps_identities(st, routed.recipient_id);
        let (s2, profile) = senders::profiled(st, c1, d, uuid, my_public);
        if let Ok(c2) = profile {
            seqs::find_spec(st.contacts, contacts::recipient_is(c2.recipient_id));
            seqs::find_spec(st.contacts, senders::identity_is(c2.identity_public_b64));
            keeping_keeps_identities(st, c2, route);
        }
    }
}

/// A contact whose identity changed cannot be verified, neither by hand nor with a code, and
/// stays as it is.
pub proof fn blocked_contacts_stay_unverified(
    st: StoreView,
    contact_id: Seq<char>,
    i: int,
    p: VerificationView,
    my_public: Seq<u8>,
    now_ms: u64,
)
    requires
        seqs::find(st.contacts, routes::contact_is(contact_id)) == Some(i),
        st.contacts[i].trust_state == contacts::BLOCKED@,
    ensures
        contacts::with_contact(st, contact_id, contacts::marked(true, now_ms)).0 == st,
        contacts::with_contact(st, contact_id, contacts::marked(true, now_ms)).1 is Err,
        contacts::with_contact(
            st,
            contact_id,
            contacts::verified_by(p, my_public, now_ms),
        ).0 == st,
        contacts::with_contact(
            st,
            contact_id,
            contacts::verified_by(p, my_public, now_ms),
        ).1 is Err,
{
}

/// Two people who know each other's true identity verify each other: the code that one makes
/// verifies that one for the other, as long as it is fresh.
pub proof fn true_identities_verify(
    mine: StoreView,
    theirs: StoreView,
    id_of_them: Seq<char>,
    id_of_me: Seq<char>,
    my_public: Seq<u8>,
    their_public: Seq<u8>,
    made_ms: u64,
    now_ms: u64,
    they: ContactView,
    me: ContactView,
    i: int,
)
    requires
        seqs::first_where(mine.contacts, routes::contact_is(id_of_them)) == Some(they),
        they.identity_public_b64 == encoding::b64_text(their_public, false),
        they.safety_number == safety::safety_number(my_public, their_public),
        !text::blank(they.identity_public_b64),
        !text::blank(they.safety_number),
        seqs::find(theirs.contacts, routes::contact_is(id_of_me)) == Some(i),
        0 <= i < theirs.contacts.len(),
        theirs.contacts[i] == me,
        me.identity_public_b64 == encoding::b64_text(my_public, false),
        me.safety_number == safety::safety_number(their_public, my_public),
        !text::blank(me.identity_public_b64),
        me.trust_state != contacts::BLOCKED@,
        routes::later(made_ms, contacts::VERIFY_CODE_TTL_MS) >= now_ms,
    ensures
        ({
            &&& contacts::verification_for(mine, id_of_them, my_public, made_ms) matches Ok(p)
            &&& contacts::checked_verification(p, now_ms) is Ok
            &&& contacts::with_contact(
                theirs,
                id_of_me,
                contacts::verified_by(p, their_public, now_ms),
            ).1 matches Ok(c)
            &&& c.trust_state == "verified"@
            &&& c.verified_at_ms == Some(now_ms)
        }),
{
    safety::safety_numbers_are_mutual(my_public, their_public);
}

// ---------------------------------------------------------------------------------------------
// Messages.
// ---------------------------------------------------------------------------------------------

/// A text that one side sends the other side stores: with the same words, under the same name,
/// and with the time at which it was written.
pub proof fn sent_texts_arrive(
    body: Seq<char>,
    text_sent: Seq<char>,
    display_name: Seq<char>,
    message_id: Seq<char>,
    sent_at_ms: u64,
    sender_route: RouteView,
    return_route: RouteView,
    me: LocalBundleView,
    kyber: KyberView,
    acked_epoch: u64,
    acked_mailbox: Option<Seq<char>>,
    st: StoreView,
    contact_id: Seq<char>,
    route: RouteView,
    f: FreshRouteView,
    at_ms: u64,
)
    requires
        outbound::outgoing("text"@, body) == Ok::<Seq<char>, Seq<char>>(text_sent),
        seqs::find(st.messages, inbound::message_is(message_id)) is None,
    ensures
        text_sent == text::trimmed(body),
        ({
            let p = plaintext::written(
                "text"@,
                text_sent,
                display_name,
                message_id,
                sent_at_ms,
                sender_route,
                return_route,
                me,
                kyber,
                acked_epoch,
                acked_mailbox,
            );
            &&& plaintext::read_payload(p) matches Ok(d)
            &&& inbound::absorbed(st, d, contact_id, route, f, at_ms).1 matches Some(out)
            &&& out.message == Some(
                MessageView {
                    id: message_id,
                    contact_id,
                    mine: false,
                    text: text_sent,
                    timestamp: sent_at_ms,
                    received_at_ms: Some(at_ms),
                    status: "received"@,
                },
            )
        }),
{
}

/// A message that the store has is not stored again.
pub proof fn messages_are_stored_once(
    st: StoreView,
    d: DecryptedView,
    contact_id: Seq<char>,
    route: RouteView,
    f: FreshRouteView,
    at_ms: u64,
)
    requires
        seqs::any(st.messages, inbound::message_is(d.message_id)),
    ensures
        inbound::absorbed(st, d, contact_id, route, f, at_ms) == (
            st,
            None::<inbound::AbsorbedView>,
        ),
{
    seqs::find_spec(st.messages, inbound::message_is(d.message_id));
    let k = choose|k: int|
        0 <= k < st.messages.len() && inbound::message_is(d.message_id)(st.messages[k]);
    assert(inbound::message_is(d.message_id)(st.messages[k]));
}

/// Every message in the store is still there after another was taken in, and that one too, as
/// long as no contact has more messages than are kept.
pub proof fn messages_stay(
    st: StoreView,
    d: DecryptedView,
    contact_id: Seq<char>,
    route: RouteView,
    f: FreshRouteView,
    at_ms: u64,
)
    requires
        seqs::find(st.messages, inbound::message_is(d.message_id)) is None,
        d.kind == "text"@,
        !messages::any_over(
            st.messages.push(inbound::received_message(d, contact_id, at_ms)),
        ),
    ensures
        inbound::absorbed(st, d, contact_id, route, f, at_ms).0.messages == st.messages.push(
            inbound::received_message(d, contact_id, at_ms),
        ),
{
}

/// The mailbox of an invite does not become a lasting one: the first message to it gives the
/// contact a private route, of which the contact is told, and spends the invite.
pub proof fn invites_are_replaced(
    st: StoreView,
    d: DecryptedView,
    contact_id: Seq<char>,
    route: RouteView,
    f: FreshRouteView,
    at_ms: u64,
    i: int,
)
    requires
        seqs::find(st.messages, inbound::message_is(d.message_id)) is None,
        seqs::find(st.local_routes, routes::route_is(route.id)) == Some(i),
        0 <= i < st.local_routes.len(),
        st.local_routes[i].scope == "pending_invite"@,
    ensures
        ({
            let (after, out) = inbound::absorbed(st, d, contact_id, route, f, at_ms);
            &&& out matches Some(a)
            &&& a.sync
            &&& a.connect matches Some(fresh)
            &&& fresh.mailbox_id == f.mailbox_id
            &&& fresh.scope == routes::contact_scope(contact_id)
            &&& after.local_routes.contains(fresh)
            &&& forall|k: int|
                0 <= k < after.pending_invites.len() ==> (
                #[trigger] after.pending_invites[k]).mailbox_id != route.mailbox_id
        }),
{
    let known = inbound::invites_retired(st.local_routes, d.acked_peer_sender_mailbox_id, at_ms);
    let (settled, _) = inbound::tokens_retired(
        known,
        route.id,
        d.acked_peer_delivery_token_epoch,
        at_ms,
    );
    seqs::find_spec(st.local_routes, routes::route_is(route.id));
    assert forall|j: int| 0 <= j < i implies !routes::route_is(route.id)(#[trigger] known[j]) by {
        assert(known[j].id == st.local_routes[j].id);
    }
    assert(routes::route_is(route.id)(known[i]));
    seqs::find_is(known, routes::route_is(route.id), i);
    assert forall|j: int| 0 <= j < i implies !routes::route_is(route.id)(#[trigger] settled[j]) by {
        assert(settled[j] == known[j]);
    }
    assert(routes::route_is(route.id)(settled[i]));
    seqs::find_is(settled, routes::route_is(route.id), i);
    let (after, out) = inbound::absorbed(st, d, contact_id, route, f, at_ms);
    let fresh = out->0.connect->0;
    let message = if d.kind == "text"@ {
        Some(inbound::received_message(d, contact_id, at_ms))
    } else {
        None
    };
    let s2 = StoreView {
        messages: match message {
            Some(m) => st.messages.push(m),
            None => st.messages,
        },
        local_routes: settled,
        ..st
    };
    let s3 = inbound::route_settled(s2, route.id, contact_id, f, at_ms).0;
    seqs::filter_members(s3.local_routes, routes::live_route(at_ms));
    assert(s3.local_routes.last() == fresh);
    assert(s3.local_routes.contains(fresh));
    assert(routes::live_route(at_ms)(fresh));
    let spent = inbound::invites_spent(s3.pending_invites, route.mailbox_id, at_ms);
    seqs::filter_members(spent, routes::live_invite(at_ms));
    assert forall|k: int| 0 <= k < after.pending_invites.len() implies (
    #[trigger] after.pending_invites[k]).mailbox_id != route.mailbox_id by {
        let p = after.pending_invites[k];
        assert(spent.filter(routes::live_invite(at_ms)).contains(p));
        assert(spent.contains(p));
        let m = choose|m: int| 0 <= m < spent.len() && spent[m] == p;
        assert(routes::live_invite(at_ms)(p));
        if p.mailbox_id == route.mailbox_id {
            assert(spent[m] == InviteView { expires_at_ms: at_ms, ..s3.pending_invites[m] });
        }
    }
}

} // verus!
