//! What holds of contacts: how a code introduces or moves one, what a message changes in one, and
//! the trust that the user put in it.
use crate::contacts;
use crate::encoding;
use crate::payloads::DecryptedView;
use crate::payloads::InvitePayloadView;
use crate::payloads::VerificationView;
use crate::routes;
use crate::routes::FreshRouteView;
use crate::safety;
use crate::senders;
use crate::seqs;
use crate::store::ContactView;
use crate::store::RouteView;
use crate::store::SessionView;
use crate::store::StoreView;
use crate::text;
use crate::urls;
use vstd::prelude::*;

verus! {

/// The first contact with the id.
pub open spec fn has_id(cs: Seq<ContactView>, id: Seq<char>, i: int) -> bool {
    &&& 0 <= i < cs.len()
    &&& cs[i].id == id
    &&& forall|j: int| 0 <= j < i ==> (#[trigger] cs[j]).id != id
}

/// The first contact that is reached at the mailbox.
pub open spec fn is_at(cs: Seq<ContactView>, mailbox_id: Seq<char>, i: int) -> bool {
    &&& 0 <= i < cs.len()
    &&& cs[i].recipient_id == mailbox_id
    &&& forall|j: int| 0 <= j < i ==> (#[trigger] cs[j]).recipient_id != mailbox_id
}

/// No contact is reached at the mailbox.
pub open spec fn nobody_at(cs: Seq<ContactView>, mailbox_id: Seq<char>) -> bool {
    forall|j: int| 0 <= j < cs.len() ==> (#[trigger] cs[j]).recipient_id != mailbox_id
}

/// No contact has the id.
pub open spec fn unknown_id(cs: Seq<ContactView>, id: Seq<char>) -> bool {
    forall|j: int| 0 <= j < cs.len() ==> (#[trigger] cs[j]).id != id
}

/// The contact as it was, but blocked for another identity.
pub open spec fn shut_out(e: ContactView) -> ContactView {
    ContactView { trust_state: "identity_changed_blocked"@, verified_at_ms: None, ..e }
}

/// All contacts but one are as they were.
pub open spec fn others_kept(before: Seq<ContactView>, after: Seq<ContactView>, i: int) -> bool {
    &&& after.len() == before.len()
    &&& forall|j: int| 0 <= j < before.len() && j != i ==> #[trigger] after[j] == before[j]
}

pub(crate) proof fn found_by_id(cs: Seq<ContactView>, id: Seq<char>)
    ensures
        forall|i: int| #[trigger] has_id(cs, id, i) ==> seqs::find(cs, routes::contact_is(id))
            == Some(i),
        unknown_id(cs, id) ==> seqs::find(cs, routes::contact_is(id)) is None,
        match seqs::find(cs, routes::contact_is(id)) {
            Some(i) => has_id(cs, id, i),
            None => unknown_id(cs, id),
        },
{
    let p = routes::contact_is(id);
    seqs::find_spec(cs, p);
    assert forall|i: int| #[trigger] has_id(cs, id, i) implies seqs::find(cs, p) == Some(i) by {
        seqs::find_is(cs, p, i);
    }
    if unknown_id(cs, id) {
        seqs::find_none(cs, p);
    }
    match seqs::find(cs, p) {
        Some(i) => {
            assert forall|j: int| 0 <= j < i implies (#[trigger] cs[j]).id != id by {
                assert(!p(cs[j]));
            }
        },
        None => {
            assert forall|j: int| 0 <= j < cs.len() implies (#[trigger] cs[j]).id != id by {
                assert(!p(cs[j]));
            }
        },
    }
}

pub(crate) proof fn found_at(cs: Seq<ContactView>, mailbox_id: Seq<char>)
    ensures
        forall|i: int| #[trigger] is_at(cs, mailbox_id, i) ==> seqs::find(
            cs,
            contacts::recipient_is(mailbox_id),
        ) == Some(i),
        nobody_at(cs, mailbox_id) ==> seqs::find(cs, contacts::recipient_is(mailbox_id)) is None,
        match seqs::find(cs, contacts::recipient_is(mailbox_id)) {
            Some(i) => is_at(cs, mailbox_id, i),
            None => nobody_at(cs, mailbox_id),
        },
{
    let p = contacts::recipient_is(mailbox_id);
    seqs::find_spec(cs, p);
    assert forall|i: int| #[trigger] is_at(cs, mailbox_id, i) implies seqs::find(cs, p) == Some(
        i,
    ) by {
        seqs::find_is(cs, p, i);
    }
    if nobody_at(cs, mailbox_id) {
        seqs::find_none(cs, p);
    }
    match seqs::find(cs, p) {
        Some(i) => {
            assert forall|j: int| 0 <= j < i implies (#[trigger] cs[j]).recipient_id
                != mailbox_id by {
                assert(!p(cs[j]));
            }
        },
        None => {
            assert forall|j: int| 0 <= j < cs.len() implies (#[trigger] cs[j]).recipient_id
                != mailbox_id by {
                assert(!p(cs[j]));
            }
        },
    }
}

// ---------------------------------------------------------------------------------------------
// Codes.
// ---------------------------------------------------------------------------------------------

/// A code introduces a contact exactly where it is of the known protocol, was made less than a day
/// ago and not more than five minutes ahead, and names an identity that is not the reader's own.
pub proof fn codes_introduce_exactly_when_they_may(
    p: InvitePayloadView,
    local: Seq<u8>,
    now_ms: u64,
)
    requires
        now_ms + 300_000 <= u64::MAX,
        p.created_at_ms + 86_400_000 <= u64::MAX,
    ensures
        ({
            let key = encoding::b64_bytes(p.identity_public_b64, false);
            contacts::introduced(p, local, now_ms) is Ok <==> p.v == 1 && p.protocol
                == "axeno_signal_v1"@ && p.created_at_ms <= now_ms + 300_000 && now_ms
                <= p.created_at_ms + 86_400_000 && key is Some && key != Some(local)
        }),
{
}

/// A contact is introduced as the code says: reached at its mailbox and relay with its token, under
/// its identity and with its prekeys. Nobody has verified it yet, and its safety number belongs to
/// the two identities.
pub proof fn introduced_contacts_are_as_the_code_says(
    p: InvitePayloadView,
    local: Seq<u8>,
    now_ms: u64,
)
    ensures
        contacts::introduced(p, local, now_ms) matches Ok(c) ==> {
            &&& c.id == p.mailbox_id
            &&& c.recipient_id == p.mailbox_id
            &&& c.server_url == urls::normalized(p.server_url)
            &&& c.server_id == urls::server_id(c.server_url)
            &&& c.delivery_token == p.delivery_token
            &&& c.delivery_token_epoch == 1
            &&& c.display_name == if text::trimmed(p.display_name).len() == 0 {
                None::<Seq<char>>
            } else {
                Some(p.display_name)
            }
            &&& c.identity_public_b64 == p.identity_public_b64
            &&& c.registration_id == p.registration_id
            &&& c.device_id == p.device_id
            &&& c.signed_prekey_id == p.signed_prekey_id
            &&& c.signed_prekey_public_b64 == p.signed_prekey_public_b64
            &&& c.signed_prekey_signature_b64 == p.signed_prekey_signature_b64
            &&& c.opk_id == p.opk_id
            &&& c.opk_public_b64 == p.opk_public_b64
            &&& c.kyber_prekey_id == p.kyber_prekey_id
            &&& c.kyber_prekey_public_b64 == p.kyber_prekey_public_b64
            &&& c.kyber_prekey_signature_b64 == p.kyber_prekey_signature_b64
            &&& encoding::b64_bytes(p.identity_public_b64, false) matches Some(key)
            &&& c.safety_number == safety::safety_number(local, key)
            &&& c.trust_state == "unverified"@
            &&& c.verified_at_ms is None
            &&& c.local_route_id is None
            &&& c.peer_sender_mailbox_id is None
            &&& c.created_at_ms == now_ms
            &&& c.last_read_at is None
        },
{
}

/// The contact is reached as the code says, and its prekeys are those of the code.
pub open spec fn reached_by(k: ContactView, c: ContactView) -> bool {
    &&& k.recipient_id == c.recipient_id
    &&& k.server_url == c.server_url
    &&& k.server_id == c.server_id
    &&& k.delivery_token == c.delivery_token
    &&& k.identity_public_b64 == c.identity_public_b64
    &&& k.registration_id == c.registration_id
    &&& k.device_id == c.device_id
    &&& k.signed_prekey_id == c.signed_prekey_id
    &&& k.signed_prekey_public_b64 == c.signed_prekey_public_b64
    &&& k.signed_prekey_signature_b64 == c.signed_prekey_signature_b64
    &&& k.opk_id == c.opk_id
    &&& k.opk_public_b64 == c.opk_public_b64
    &&& k.kyber_prekey_id == c.kyber_prekey_id
    &&& k.kyber_prekey_public_b64 == c.kyber_prekey_public_b64
    &&& k.kyber_prekey_signature_b64 == c.kyber_prekey_signature_b64
    &&& k.safety_number == c.safety_number
}

/// A contact is moved exactly where it has an identity and the fresh code names the same one and
/// the same device. A code with another identity blocks the contact; any other refusal leaves the
/// contacts as they are.
pub proof fn contacts_move_exactly_when_they_may(
    st: StoreView,
    contact_id: Seq<char>,
    c: ContactView,
    f: FreshRouteView,
    now_ms: u64,
    i: int,
)
    ensures
        unknown_id(st.contacts, contact_id) ==> contacts::migrated(
            st,
            contact_id,
            c,
            f,
            now_ms,
        ).1 is Err && contacts::migrated(st, contact_id, c, f, now_ms).0.contacts == st.contacts,
        has_id(st.contacts, contact_id, i) ==> {
            let e = st.contacts[i];
            let (w, r) = contacts::migrated(st, contact_id, c, f, now_ms);
            let pinned = text::trimmed(e.identity_public_b64).len() > 0;
            let same = e.identity_public_b64 == c.identity_public_b64;
            &&& r is Ok <==> pinned && same && e.device_id == c.device_id
            &&& pinned && !same ==> others_kept(st.contacts, w.contacts, i) && w.contacts[i]
                == shut_out(e)
            &&& r is Err && (!pinned || same) ==> w.contacts == st.contacts
            &&& r is Err ==> w.local_routes == routes::cleaned(st, now_ms).local_routes
                && w.signal_sessions == st.signal_sessions
        },
{
    found_by_id(st.contacts, contact_id);
}

/// After a successful move the contact is reached as the fresh code says, and has its prekeys. It
/// is still the same contact to the user, and verified if it was.
pub proof fn moved_contacts_are_reached_by_the_fresh_code(
    st: StoreView,
    contact_id: Seq<char>,
    c: ContactView,
    f: FreshRouteView,
    now_ms: u64,
    i: int,
    k: ContactView,
    route: RouteView,
)
    requires
        has_id(st.contacts, contact_id, i),
        contacts::migrated(st, contact_id, c, f, now_ms).1 == Ok::<
            (ContactView, RouteView),
            Seq<char>,
        >((k, route)),
    ensures
        ({
            let w = contacts::migrated(st, contact_id, c, f, now_ms).0;
            let e = st.contacts[i];
            &&& reached_by(k, c)
            &&& others_kept(st.contacts, w.contacts, i)
            &&& w.contacts[i] == k
            &&& k.id == e.id
            &&& k.identity_public_b64 == e.identity_public_b64
            &&& k.display_name == if c.display_name is Some {
                c.display_name
            } else {
                e.display_name
            }
            &&& k.trust_state == if e.trust_state == "verified"@ {
                "verified"@
            } else {
                "unverified"@
            }
            &&& k.verified_at_ms == e.verified_at_ms
            &&& k.delivery_token_epoch == e.delivery_token_epoch
            &&& k.peer_sender_mailbox_id == e.peer_sender_mailbox_id
            &&& k.created_at_ms == e.created_at_ms
            &&& k.last_read_at == e.last_read_at
            &&& k.local_route_id == Some(route.id)
        }),
{
    found_by_id(st.contacts, contact_id);
    let s1 = routes::cleaned(st, now_ms);
    let s2 = StoreView {
        signal_sessions: s1.signal_sessions.remove(
            contacts::session_key(s1.contacts[i].recipient_id, s1.contacts[i].device_id),
        ),
        ..s1
    };
    routes::rotated_keeps_contacts(s2, contact_id, c.server_url, f, now_ms);
}

/// A fresh route of this side: made of the fresh ids, tokens and keys, at the relay of the url.
pub open spec fn made_for(
    r: RouteView,
    f: FreshRouteView,
    url: Seq<char>,
    scope: Seq<char>,
    now_ms: u64,
) -> bool {
    &&& r.id == f.id
    &&& r.mailbox_id == f.mailbox_id
    &&& r.receive_auth_token == f.receive_auth_token
    &&& r.delivery_token == f.delivery_token
    &&& r.delivery_token_epoch == 1
    &&& r.retired_delivery_tokens.len() == 0
    &&& r.pending_token_retirements.len() == 0
    &&& r.server_url == urls::normalized(url)
    &&& r.server_id == urls::server_id(r.server_url)
    &&& r.sealed_sender_cert_public_b64 == f.keys.public_b64
    &&& r.sealed_sender_cert_private_b64 == f.keys.private_b64
    &&& r.scope == scope
    &&& r.replacement_route_id is None
    &&& r.active
    &&& r.created_at_ms == now_ms
}

/// A move gives the contact a fresh route of this side, takes the former one out of use and notes
/// its mailbox for retirement, and forgets the session with the former mailbox and no other.
pub proof fn moves_change_the_route_and_the_session(
    st: StoreView,
    contact_id: Seq<char>,
    c: ContactView,
    f: FreshRouteView,
    now_ms: u64,
    i: int,
    k: ContactView,
    route: RouteView,
    x: RouteView,
)
    requires
        has_id(st.contacts, contact_id, i),
        contacts::migrated(st, contact_id, c, f, now_ms).1 == Ok::<
            (ContactView, RouteView),
            Seq<char>,
        >((k, route)),
    ensures
        ({
            let w = contacts::migrated(st, contact_id, c, f, now_ms).0;
            let s = routes::cleaned(st, now_ms);
            let e = st.contacts[i];
            let n = s.local_routes.len() as int;
            &&& made_for(route, f, c.server_url, "contact:"@ + contact_id, now_ms)
            &&& route.expires_at_ms is None
            &&& w.local_routes.len() == n + 1
            &&& w.local_routes[n] == route
            &&& forall|j: int|
                0 <= j < n && e.local_route_id != Some((#[trigger] s.local_routes[j]).id)
                    ==> w.local_routes[j] == s.local_routes[j]
            &&& forall|j: int|
                0 <= j < n && e.local_route_id == Some((#[trigger] s.local_routes[j]).id) && (
                forall|m: int| 0 <= m < j ==> (#[trigger] s.local_routes[m]).id
                    != s.local_routes[j].id) ==> w.local_routes[j] == (RouteView {
                    active: false,
                    expires_at_ms: Some(now_ms),
                    ..s.local_routes[j]
                })
            &&& w.signal_sessions == st.signal_sessions.remove(
                e.recipient_id + ":"@ + text::decimal(e.device_id as nat),
            )
            &&& (StoreView {
                contacts: s.contacts,
                local_routes: s.local_routes,
                pending_relay_retires: s.pending_relay_retires,
                signal_sessions: s.signal_sessions,
                ..w
            }) == s
        }),
{
    found_by_id(st.contacts, contact_id);
    let s1 = routes::cleaned(st, now_ms);
    let e = s1.contacts[i];
    if let Some(id) = e.local_route_id {
        let p = routes::route_is(id);
        seqs::find_spec(s1.local_routes, p);
        assert forall|j: int|
            0 <= j < s1.local_routes.len() && e.local_route_id == Some(
                (#[trigger] s1.local_routes[j]).id,
            ) && (forall|m: int| 0 <= m < j ==> (#[trigger] s1.local_routes[m]).id
                != s1.local_routes[j].id) implies seqs::find(s1.local_routes, p) == Some(j) by {
            seqs::find_is(s1.local_routes, p, j);
        }
    }
}

/// A code for a mailbox at which nobody was reached adds its contact, with a route of this side,
/// and leaves the others as they are.
pub proof fn new_codes_add_their_contact(
    st: StoreView,
    c: ContactView,
    f: FreshRouteView,
    now_ms: u64,
)
    requires
        nobody_at(st.contacts, c.recipient_id),
        unknown_id(st.contacts, c.id),
        c.local_route_id is None,
    ensures
        ({
            let (w, r) = contacts::added(st, c, f, now_ms);
            let n = st.contacts.len() as int;
            &&& w.contacts.len() == n + 1
            &&& w.contacts.take(n) == st.contacts
            &&& w.contacts[n] == (ContactView { local_route_id: Some(f.id), ..c })
            &&& r == Ok::<ContactView, Seq<char>>(w.contacts[n])
            &&& w.signal_sessions == st.signal_sessions
            &&& w.local_routes.len() > 0
            &&& made_for(w.local_routes.last(), f, c.server_url, "contact:"@ + c.id, now_ms)
            &&& w.local_routes.last().expires_at_ms is None
            &&& w.local_routes.drop_last() == routes::cleaned(st, now_ms).local_routes
        }),
{
    found_at(st.contacts, c.recipient_id);
    let s1 = routes::cleaned(st, now_ms);
    let s2 = StoreView { contacts: s1.contacts.push(c), ..s1 };
    let s2c = routes::cleaned(s2, now_ms);
    crate::route_laws::cleaning_twice_is_cleaning_once(st, now_ms);
    assert(s2c.local_routes == s1.local_routes);
    let n = st.contacts.len() as int;
    assert(has_id(s2.contacts, c.id, n));
    found_by_id(s2.contacts, c.id);
    urls::normalized_twice(c.server_url);
    let (s3, route) = routes::ensured_route(s2, c.id, c.server_url, f, now_ms);
    assert(has_id(s3.contacts, c.id, n));
    found_by_id(s3.contacts, c.id);
    let w = contacts::added(st, c, f, now_ms).0;
    assert(has_id(w.contacts, c.id, n));
    found_by_id(w.contacts, c.id);
    assert(w.contacts.take(n) =~= st.contacts);
    assert(w.local_routes.drop_last() =~= s1.local_routes);
}

/// A code for a mailbox at which a contact was reached refreshes how it is reached and its prekeys.
/// It is still the same contact to the user, and what they trusted stays. A code with another
/// identity than the one that was known blocks the contact.
pub proof fn known_codes_refresh_their_contact(
    st: StoreView,
    c: ContactView,
    f: FreshRouteView,
    now_ms: u64,
    i: int,
)
    requires
        is_at(st.contacts, c.recipient_id, i),
    ensures
        ({
            let (w, r) = contacts::added(st, c, f, now_ms);
            let e = st.contacts[i];
            let strange = e.identity_public_b64.len() > 0 && e.identity_public_b64
                != c.identity_public_b64;
            &&& r is Err <==> strange
            &&& strange ==> others_kept(st.contacts, w.contacts, i) && w.contacts[i]
                == shut_out(e) && w.local_routes == routes::cleaned(st, now_ms).local_routes
            &&& r matches Ok(k) ==> {
                &&& w.contacts.len() == st.contacts.len()
                &&& w.contacts[i] == k
                &&& forall|j: int|
                    0 <= j < st.contacts.len() && j != i && (#[trigger] st.contacts[j]).id != e.id
                        ==> w.contacts[j] == st.contacts[j]
                &&& reached_by(k, c)
                &&& k.display_name == if c.display_name is Some {
                    c.display_name
                } else {
                    e.display_name
                }
                &&& k.delivery_token_epoch == if c.delivery_token_epoch
                    >= e.delivery_token_epoch {
                    c.delivery_token_epoch
                } else {
                    e.delivery_token_epoch
                }
                &&& k.id == e.id
                &&& k.trust_state == e.trust_state
                &&& k.verified_at_ms == e.verified_at_ms
                &&& k.peer_sender_mailbox_id == e.peer_sender_mailbox_id
                &&& k.created_at_ms == e.created_at_ms
                &&& k.last_read_at == e.last_read_at
                &&& k.local_route_id is Some
                &&& exists|m: int|
                    0 <= m < w.local_routes.len() && Some((#[trigger] w.local_routes[m]).id)
                        == k.local_route_id && w.local_routes[m].active
                        && w.local_routes[m].server_url == urls::normalized(c.server_url)
            }
            &&& w.signal_sessions == st.signal_sessions
        }),
{
    found_at(st.contacts, c.recipient_id);
    let s1 = routes::cleaned(st, now_ms);
    let e = s1.contacts[i];
    found_by_id(s1.contacts, e.id);
    assert(routes::contact_is(e.id)(s1.contacts[i]));
    seqs::first_exists(s1.contacts, routes::contact_is(e.id), i);
    seqs::find_spec(s1.contacts, routes::contact_is(e.id));
    routes::ensured_keeps_contacts(s1, e.id, c.server_url, f, now_ms);
    crate::route_laws::contacts_get_a_route(s1, e.id, c.server_url, f, now_ms);
    let (s2, route) = routes::ensured_route(s1, e.id, c.server_url, f, now_ms);
    let m = choose|m: int| 0 <= m < s2.local_routes.len() && s2.local_routes[m] == route;
    let (w, r) = contacts::added(st, c, f, now_ms);
    if r is Ok {
        assert(w.local_routes[m] == route);
    }
}

// ---------------------------------------------------------------------------------------------
// Messages.
// ---------------------------------------------------------------------------------------------

/// What stays of a contact whatever message comes in from it: who it is to the user, and the trust
/// that they put in it.
pub open spec fn trusted_as_before(before: ContactView, after: ContactView) -> bool {
    &&& after.id == before.id
    &&& after.trust_state == before.trust_state
    &&& after.verified_at_ms == before.verified_at_ms
    &&& after.created_at_ms == before.created_at_ms
    &&& after.last_read_at == before.last_read_at
    &&& before.safety_number.len() > 0 ==> after.safety_number == before.safety_number
}

/// Taking in a message leaves the trust in every contact as it was, changes at most one contact or
/// adds one, and hands out that one as it is stored. Nothing but contacts and sessions changes.
pub proof fn messages_leave_trust_alone(
    st: StoreView,
    c: ContactView,
    d: DecryptedView,
    uuid: Seq<char>,
    device_id: u32,
    route: RouteView,
    my_public: Seq<u8>,
    session: Option<Seq<u8>>,
    now_ms: u64,
    k: ContactView,
)
    requires
        senders::taken_in(st, c, d, uuid, device_id, route, my_public, session, now_ms).1 == Ok::<
            ContactView,
            Seq<char>,
        >(k),
    ensures
        ({
            let w = senders::taken_in(
                st,
                c,
                d,
                uuid,
                device_id,
                route,
                my_public,
                session,
                now_ms,
            ).0;
            &&& forall|j: int|
                0 <= j < st.contacts.len() ==> trusted_as_before(
                    #[trigger] st.contacts[j],
                    w.contacts[j],
                )
            &&& st.contacts.len() <= w.contacts.len() <= st.contacts.len() + 1
            &&& exists|i: int|
                0 <= i < w.contacts.len() && #[trigger] w.contacts[i] == k && forall|j: int|
                    0 <= j < st.contacts.len() && j != i ==> #[trigger] w.contacts[j]
                        == st.contacts[j]
            &&& (StoreView { contacts: st.contacts, signal_sessions: st.signal_sessions, ..w })
                == st
        }),
{
    let c1 = senders::profiled(st, c, d, uuid, my_public).1->Ok_0;
    let w = senders::taken_in(
        st,
        c,
        d,
        uuid,
        device_id,
        route,
        my_public,
        session,
        now_ms,
    ).0;
    let by_recipient = contacts::recipient_is(c1.recipient_id);
    let by_identity = senders::identity_is(c1.identity_public_b64);
    seqs::find_spec(st.contacts, by_recipient);
    seqs::find_spec(st.contacts, by_identity);
    match senders::known_at(st.contacts, c1) {
        Some(i) => {
            assert(w.contacts[i] == k);
        },
        None => {
            assert(w.contacts[st.contacts.len() as int] == k);
        },
    }
}

/// A message that is refused changes nothing, or blocks the one contact that is reached where the
/// message came from.
pub proof fn refused_messages_change_no_contact(
    st: StoreView,
    c: ContactView,
    d: DecryptedView,
    uuid: Seq<char>,
    device_id: u32,
    route: RouteView,
    my_public: Seq<u8>,
    session: Option<Seq<u8>>,
    now_ms: u64,
    j: int,
)
    requires
        senders::taken_in(
            st,
            c,
            d,
            uuid,
            device_id,
            route,
            my_public,
            session,
            now_ms,
        ).1 is Err,
        0 <= j < st.contacts.len(),
    ensures
        ({
            let w = senders::taken_in(
                st,
                c,
                d,
                uuid,
                device_id,
                route,
                my_public,
                session,
                now_ms,
            ).0;
            &&& (StoreView { contacts: st.contacts, ..w }) == st
            &&& w.contacts.len() == st.contacts.len()
            &&& w.contacts[j] == st.contacts[j] || w.contacts[j] == shut_out(st.contacts[j])
        }),
{
    let at = senders::with_routes(c, d, uuid).recipient_id;
    seqs::find_spec(st.contacts, contacts::recipient_is(at));
}

/// The contact has what it takes to be written to again at another mailbox.
pub open spec fn can_be_moved(c: ContactView) -> bool {
    &&& text::trimmed(c.identity_public_b64).len() > 0
    &&& text::trimmed(c.signed_prekey_public_b64).len() > 0
    &&& c.kyber_prekey_public_b64 matches Some(key) && text::trimmed(key).len() > 0
}

/// The mailbox at which the sender of a message is reached from now on.
pub open spec fn answers_go_to(c: ContactView, d: DecryptedView) -> Seq<char> {
    if d.return_mailbox_id is Some && can_be_moved(c) {
        d.return_mailbox_id->0
    } else {
        c.recipient_id
    }
}

/// A message is taken in exactly where the mailbox that it names, if any, is the one of the
/// certificate, and it names the identity of its sender where that is known, or names one where it
/// is not. One that names another identity blocks the contact.
pub proof fn messages_are_taken_in_exactly_when_they_may(
    st: StoreView,
    c: ContactView,
    d: DecryptedView,
    uuid: Seq<char>,
    device_id: u32,
    route: RouteView,
    my_public: Seq<u8>,
    session: Option<Seq<u8>>,
    now_ms: u64,
    i: int,
)
    ensures
        ({
            let (w, r) = senders::taken_in(
                st,
                c,
                d,
                uuid,
                device_id,
                route,
                my_public,
                session,
                now_ms,
            );
            let certified = d.sender_mailbox_id is None || d.sender_mailbox_id == Some(uuid);
            let known = c.identity_public_b64.len() > 0;
            let named = d.sender_identity_public_b64;
            &&& r is Ok <==> certified && if known {
                named is None || named == Some(c.identity_public_b64)
            } else {
                named is Some && named->0.len() > 0
            }
            &&& certified && known && named is Some && named->0 != c.identity_public_b64 && is_at(
                st.contacts,
                answers_go_to(c, d),
                i,
            ) ==> w.contacts[i] == shut_out(st.contacts[i])
            &&& !certified ==> w == st
        }),
{
    found_at(st.contacts, answers_go_to(c, d));
}

/// The token under which a contact is written to, and its epoch, after it named a token: the newer
/// of the two, or the named one where there was none.
pub open spec fn newer_token(
    known: Seq<char>,
    known_epoch: u64,
    named: Option<Seq<char>>,
    named_epoch: Option<u64>,
) -> (Seq<char>, u64) {
    if named is None {
        (known, known_epoch)
    } else {
        let e = if named_epoch is Some {
            named_epoch->0
        } else if known_epoch >= 1 {
            known_epoch
        } else {
            1
        };
        if e >= known_epoch || known.len() == 0 {
            (
                named->0,
                if e >= 1 {
                    e
                } else {
                    1
                },
            )
        } else {
            (known, known_epoch)
        }
    }
}

/// The relay that a message names, or the one that was known.
pub open spec fn newer_relay(known: Seq<char>, named: Option<Seq<char>>) -> Seq<char> {
    if named is Some {
        urls::normalized(named->0)
    } else {
        known
    }
}

/// The sender as a message says: where answers go, with which token, under which identity and with
/// which prekeys.
pub open spec fn told_by(
    n: ContactView,
    c: ContactView,
    d: DecryptedView,
    uuid: Seq<char>,
    my_public: Seq<u8>,
) -> bool {
    let away = d.return_mailbox_id is Some && can_be_moved(c);
    let (t1, e1) = newer_token(
        c.delivery_token,
        c.delivery_token_epoch,
        d.sender_delivery_token,
        d.sender_delivery_token_epoch,
    );
    let u1 = newer_relay(c.server_url, d.sender_server_url);
    &&& n.recipient_id == answers_go_to(c, d)
    &&& (n.delivery_token, n.delivery_token_epoch) == if away {
        newer_token(t1, e1, d.return_delivery_token, d.return_delivery_token_epoch)
    } else {
        (t1, e1)
    }
    &&& n.server_url == if away {
        newer_relay(
            u1,
            if d.return_server_url is Some {
                d.return_server_url
            } else {
                d.sender_server_url
            },
        )
    } else {
        u1
    }
    &&& n.server_id == if d.sender_server_url is Some || (away && d.return_server_url is Some) {
        urls::server_id(n.server_url)
    } else {
        c.server_id
    }
    &&& n.identity_public_b64 == if c.identity_public_b64.len() > 0 {
        c.identity_public_b64
    } else {
        d.sender_identity_public_b64->0
    }
    &&& c.identity_public_b64.len() > 0 ==> n.safety_number == c.safety_number
    &&& c.identity_public_b64.len() == 0 ==> (encoding::b64_bytes(
        d.sender_identity_public_b64->0,
        false,
    ) matches Some(raw) ==> n.safety_number == safety::safety_number(my_public, raw))
    &&& n.display_name == if d.sender_display_name is Some {
        d.sender_display_name
    } else {
        c.display_name
    }
    &&& n.peer_sender_mailbox_id == Some(uuid)
    &&& n.device_id == if d.sender_device_id is Some {
        d.sender_device_id->0
    } else {
        c.device_id
    }
    &&& n.registration_id == if d.sender_registration_id is Some {
        d.sender_registration_id->0
    } else {
        c.registration_id
    }
    &&& n.signed_prekey_id == if d.sender_signed_prekey_id is Some {
        d.sender_signed_prekey_id->0
    } else {
        c.signed_prekey_id
    }
    &&& n.signed_prekey_public_b64 == if d.sender_signed_prekey_public_b64 is Some {
        d.sender_signed_prekey_public_b64->0
    } else {
        c.signed_prekey_public_b64
    }
    &&& n.signed_prekey_signature_b64 == if d.sender_signed_prekey_signature_b64 is Some {
        d.sender_signed_prekey_signature_b64->0
    } else {
        c.signed_prekey_signature_b64
    }
    &&& n.kyber_prekey_id == if d.sender_kyber_prekey_id is Some {
        d.sender_kyber_prekey_id
    } else {
        c.kyber_prekey_id
    }
    &&& n.kyber_prekey_public_b64 == if d.sender_kyber_prekey_public_b64 is Some {
        d.sender_kyber_prekey_public_b64
    } else {
        c.kyber_prekey_public_b64
    }
    &&& n.kyber_prekey_signature_b64 == if d.sender_kyber_prekey_signature_b64 is Some {
        d.sender_kyber_prekey_signature_b64
    } else {
        c.kyber_prekey_signature_b64
    }
    &&& (n.opk_id, n.opk_public_b64) == if away {
        (None, None)
    } else {
        (c.opk_id, c.opk_public_b64)
    }
    &&& trusted_as_before(ContactView { safety_number: Seq::empty(), ..c }, n)
    &&& n.local_route_id == c.local_route_id
}

/// The route on which the message came is one that is only held for a while.
pub open spec fn only_held(route: RouteView, contact_id: Seq<char>) -> bool {
    ||| "retiring_invite:"@.is_prefix_of(route.scope)
    ||| route.active && route.scope == "sender:"@ + contact_id
}

/// A sender of whom nothing is stored is stored as the message says. Its route of this side is the
/// one on which the message came, unless that is only held for a while.
pub proof fn new_senders_are_stored_as_they_say(
    st: StoreView,
    c: ContactView,
    d: DecryptedView,
    uuid: Seq<char>,
    device_id: u32,
    route: RouteView,
    my_public: Seq<u8>,
    session: Option<Seq<u8>>,
    now_ms: u64,
    k: ContactView,
)
    requires
        senders::taken_in(st, c, d, uuid, device_id, route, my_public, session, now_ms).1 == Ok::<
            ContactView,
            Seq<char>,
        >(k),
        nobody_at(st.contacts, answers_go_to(c, d)),
        forall|j: int|
            0 <= j < st.contacts.len() ==> (#[trigger] st.contacts[j]).identity_public_b64
                != if c.identity_public_b64.len() > 0 {
                c.identity_public_b64
            } else {
                d.sender_identity_public_b64->0
            },
    ensures
        ({
            let w = senders::taken_in(
                st,
                c,
                d,
                uuid,
                device_id,
                route,
                my_public,
                session,
                now_ms,
            ).0;
            &&& w.contacts == st.contacts.push(k)
            &&& told_by(ContactView { local_route_id: c.local_route_id, ..k }, c, d, uuid, my_public)
            &&& k.local_route_id == if only_held(route, c.id) {
                c.local_route_id
            } else {
                Some(route.id)
            }
        }),
{
    found_at(st.contacts, answers_go_to(c, d));
    profiles_tell(st, c, d, uuid, my_public);
    let c1 = senders::profiled(st, c, d, uuid, my_public).1->Ok_0;
    assert(c1.recipient_id == answers_go_to(c, d));
    seqs::find_spec(st.contacts, senders::identity_is(c1.identity_public_b64));
    prefix_of(route.scope, "retiring_invite:"@);
}

pub(crate) proof fn prefix_of(s: Seq<char>, p: Seq<char>)
    ensures
        text::has_prefix(s, p) == p.is_prefix_of(s),
{
}

/// What a stored contact takes over from what a message says: each value as far as there is one.
/// The one-time key is dropped where the sender moved. Its route of this side becomes the one on
/// which the message came, unless that is only held for a while.
pub open spec fn takes_over(
    k: ContactView,
    e: ContactView,
    n: ContactView,
    uuid: Seq<char>,
    route: RouteView,
) -> bool {
    &&& trusted_as_before(e, k)
    &&& e.safety_number.len() == 0 ==> k.safety_number == n.safety_number
    &&& k.recipient_id == n.recipient_id
    &&& k.identity_public_b64 == n.identity_public_b64
    &&& k.device_id == n.device_id
    &&& k.peer_sender_mailbox_id == Some(uuid)
    &&& k.display_name == if n.display_name is Some {
        n.display_name
    } else {
        e.display_name
    }
    &&& k.delivery_token == if n.delivery_token.len() > 0 {
        n.delivery_token
    } else {
        e.delivery_token
    }
    &&& k.delivery_token_epoch >= e.delivery_token_epoch && k.delivery_token_epoch
        >= n.delivery_token_epoch
    &&& k.delivery_token_epoch == e.delivery_token_epoch || k.delivery_token_epoch
        == n.delivery_token_epoch
    &&& k.server_url == if n.server_url.len() > 0 {
        n.server_url
    } else {
        e.server_url
    }
    &&& k.server_id == if n.server_id.len() > 0 {
        n.server_id
    } else {
        e.server_id
    }
    &&& k.registration_id == if n.registration_id > 0 {
        n.registration_id
    } else {
        e.registration_id
    }
    &&& k.signed_prekey_id == if n.signed_prekey_id > 0 {
        n.signed_prekey_id
    } else {
        e.signed_prekey_id
    }
    &&& k.signed_prekey_public_b64 == if n.signed_prekey_public_b64.len() > 0 {
        n.signed_prekey_public_b64
    } else {
        e.signed_prekey_public_b64
    }
    &&& k.signed_prekey_signature_b64 == if n.signed_prekey_signature_b64.len() > 0 {
        n.signed_prekey_signature_b64
    } else {
        e.signed_prekey_signature_b64
    }
    &&& k.kyber_prekey_id == if n.kyber_prekey_id is Some {
        n.kyber_prekey_id
    } else {
        e.kyber_prekey_id
    }
    &&& k.kyber_prekey_public_b64 == if n.kyber_prekey_public_b64 is Some
        && n.kyber_prekey_public_b64->0.len() > 0 {
        n.kyber_prekey_public_b64
    } else {
        e.kyber_prekey_public_b64
    }
    &&& k.kyber_prekey_signature_b64 == if n.kyber_prekey_signature_b64 is Some
        && n.kyber_prekey_signature_b64->0.len() > 0 {
        n.kyber_prekey_signature_b64
    } else {
        e.kyber_prekey_signature_b64
    }
    &&& (k.opk_id, k.opk_public_b64) == if n.opk_id is None {
        (None, None)
    } else {
        (e.opk_id, e.opk_public_b64)
    }
    &&& k.local_route_id == if only_held(route, e.id) {
        e.local_route_id
    } else {
        Some(route.id)
    }
}

proof fn profiles_tell(
    st: StoreView,
    c: ContactView,
    d: DecryptedView,
    uuid: Seq<char>,
    my_public: Seq<u8>,
)
    ensures
        senders::profiled(st, c, d, uuid, my_public).1 matches Ok(n) ==> told_by(
            n,
            c,
            d,
            uuid,
            my_public,
        ) && n.id == c.id,
        senders::profiled(st, c, d, uuid, my_public).1 is Ok ==> senders::profiled(
            st,
            c,
            d,
            uuid,
            my_public,
        ).0 == st,
{
}

proof fn merging_takes_over(e: ContactView, n: ContactView, route: RouteView, uuid: Seq<char>)
    requires
        n.peer_sender_mailbox_id == Some(uuid),
    ensures
        takes_over(senders::merged(e, n, route), e, n, uuid, route),
{
    prefix_of(route.scope, "retiring_invite:"@);
}

/// A known sender takes over what the message says, and what the message leaves open stays.
pub proof fn known_senders_take_over_what_they_say(
    st: StoreView,
    c: ContactView,
    d: DecryptedView,
    uuid: Seq<char>,
    device_id: u32,
    route: RouteView,
    my_public: Seq<u8>,
    session: Option<Seq<u8>>,
    now_ms: u64,
    k: ContactView,
    i: int,
)
    requires
        senders::taken_in(st, c, d, uuid, device_id, route, my_public, session, now_ms).1 == Ok::<
            ContactView,
            Seq<char>,
        >(k),
        is_at(st.contacts, answers_go_to(c, d), i),
    ensures
        senders::taken_in(
            st,
            c,
            d,
            uuid,
            device_id,
            route,
            my_public,
            session,
            now_ms,
        ).0.contacts == st.contacts.update(i, k),
        exists|n: ContactView| #[trigger]
            told_by(n, c, d, uuid, my_public) && takes_over(k, st.contacts[i], n, uuid, route),
{
    found_at(st.contacts, answers_go_to(c, d));
    profiles_tell(st, c, d, uuid, my_public);
    let n = senders::profiled(st, c, d, uuid, my_public).1->Ok_0;
    assert(n.recipient_id == answers_go_to(c, d));
    merging_takes_over(st.contacts[i], n, route, uuid);
    assert(told_by(n, c, d, uuid, my_public));
}

/// The identity that the sender of a message has.
pub open spec fn identity_of(c: ContactView, d: DecryptedView) -> Seq<char> {
    if c.identity_public_b64.len() > 0 {
        c.identity_public_b64
    } else {
        d.sender_identity_public_b64->0
    }
}

/// A sender that is reached at a mailbox where nobody was known is still known by its identity: the
/// contact with it takes over what the message says, and no second one is made.
pub proof fn senders_are_known_by_their_identity(
    st: StoreView,
    c: ContactView,
    d: DecryptedView,
    uuid: Seq<char>,
    device_id: u32,
    route: RouteView,
    my_public: Seq<u8>,
    session: Option<Seq<u8>>,
    now_ms: u64,
    k: ContactView,
    i: int,
)
    requires
        senders::taken_in(st, c, d, uuid, device_id, route, my_public, session, now_ms).1 == Ok::<
            ContactView,
            Seq<char>,
        >(k),
        nobody_at(st.contacts, answers_go_to(c, d)),
        0 <= i < st.contacts.len(),
        st.contacts[i].identity_public_b64 == identity_of(c, d),
        forall|j: int|
            0 <= j < i ==> (#[trigger] st.contacts[j]).identity_public_b64 != identity_of(c, d),
    ensures
        senders::taken_in(
            st,
            c,
            d,
            uuid,
            device_id,
            route,
            my_public,
            session,
            now_ms,
        ).0.contacts == st.contacts.update(i, k),
        exists|n: ContactView| #[trigger]
            told_by(n, c, d, uuid, my_public) && takes_over(k, st.contacts[i], n, uuid, route),
{
    found_at(st.contacts, answers_go_to(c, d));
    profiles_tell(st, c, d, uuid, my_public);
    let n = senders::profiled(st, c, d, uuid, my_public).1->Ok_0;
    assert(n.recipient_id == answers_go_to(c, d));
    seqs::find_is(st.contacts, senders::identity_is(n.identity_public_b64), i);
    merging_takes_over(st.contacts[i], n, route, uuid);
    assert(told_by(n, c, d, uuid, my_public));
}

/// Taking in a message stores the session with its sender under the certified mailbox and device,
/// where there is one, since when it began; the other sessions stay.
pub proof fn messages_store_their_session(
    st: StoreView,
    c: ContactView,
    d: DecryptedView,
    uuid: Seq<char>,
    device_id: u32,
    route: RouteView,
    my_public: Seq<u8>,
    session: Option<Seq<u8>>,
    now_ms: u64,
    k: ContactView,
)
    requires
        senders::taken_in(st, c, d, uuid, device_id, route, my_public, session, now_ms).1 == Ok::<
            ContactView,
            Seq<char>,
        >(k),
    ensures
        ({
            let w = senders::taken_in(
                st,
                c,
                d,
                uuid,
                device_id,
                route,
                my_public,
                session,
                now_ms,
            ).0;
            let key = uuid + ":"@ + text::decimal(device_id as nat);
            match session {
                None => w.signal_sessions == st.signal_sessions,
                Some(raw) => w.signal_sessions == st.signal_sessions.insert(
                    key,
                    SessionView {
                        address_name: uuid,
                        device_id,
                        session_b64: encoding::b64_text(raw, false),
                        remote_identity_b64: k.identity_public_b64,
                        created_at_ms: if st.signal_sessions.contains_key(key) {
                            st.signal_sessions[key].created_at_ms
                        } else {
                            now_ms
                        },
                        updated_at_ms: now_ms,
                    },
                ),
            }
        }),
{
}

/// A certified sender is the contact that is reached at the certified mailbox, on the certified
/// device and the relay of the route, or a stranger there: nothing is known of that one but the
/// mailbox, and nobody has verified it.
pub proof fn certified_senders_are_looked_up(
    st: StoreView,
    uuid: Seq<char>,
    device_id: u32,
    route: RouteView,
    now_ms: u64,
    i: int,
)
    ensures
        is_at(st.contacts, uuid, i) ==> senders::certified(st, uuid, device_id, route, now_ms) == (
        ContactView { device_id, server_id: route.server_id, ..st.contacts[i] }),
        nobody_at(st.contacts, uuid) ==> {
            let c = senders::certified(st, uuid, device_id, route, now_ms);
            &&& c.id == uuid && c.recipient_id == uuid && c.peer_sender_mailbox_id == Some(uuid)
            &&& c.device_id == device_id
            &&& c.server_id == route.server_id && c.local_route_id == Some(route.id)
            &&& c.trust_state == "unverified"@ && c.verified_at_ms is None
            &&& c.identity_public_b64.len() == 0 && c.safety_number.len() == 0
            &&& c.delivery_token.len() == 0 && c.delivery_token_epoch == 1
            &&& c.server_url.len() == 0 && c.display_name is None
            &&& c.signed_prekey_public_b64.len() == 0 && c.signed_prekey_signature_b64.len() == 0
            &&& c.registration_id == 0 && c.signed_prekey_id == 0
            &&& c.opk_id is None && c.opk_public_b64 is None
            &&& c.kyber_prekey_id is None && c.kyber_prekey_public_b64 is None
                && c.kyber_prekey_signature_b64 is None
            &&& c.created_at_ms == now_ms && c.last_read_at is None
        },
{
    found_at(st.contacts, uuid);
}

/// A first message gives a stranger the identity that it was encrypted under, and the safety number
/// of the two identities. It changes nothing for a contact that has this identity, and blocks one
/// that has another.
pub proof fn first_messages_pin_the_identity(
    st: StoreView,
    c: ContactView,
    uuid: Seq<char>,
    identity: Seq<u8>,
    my_public: Seq<u8>,
    i: int,
)
    ensures
        ({
            let (w, r) = senders::identified(st, c, uuid, identity, my_public);
            let named = encoding::b64_text(identity, false);
            let known = c.identity_public_b64.len() > 0;
            &&& r is Err <==> known && c.identity_public_b64 != named
            &&& r matches Ok(k) ==> w == st && k == if known {
                c
            } else {
                ContactView {
                    identity_public_b64: named,
                    safety_number: safety::safety_number(my_public, identity),
                    ..c
                }
            }
            &&& r is Err && is_at(st.contacts, uuid, i) ==> others_kept(
                st.contacts,
                w.contacts,
                i,
            ) && w.contacts[i] == shut_out(st.contacts[i])
            &&& r is Err && nobody_at(st.contacts, uuid) ==> w == st
            &&& (StoreView { contacts: st.contacts, ..w }) == st
        }),
{
    found_at(st.contacts, uuid);
}

// ---------------------------------------------------------------------------------------------
// The user's decisions.
// ---------------------------------------------------------------------------------------------

/// Reading a conversation notes when, on the one contact, and changes nothing else.
pub proof fn reading_is_noted(st: StoreView, contact_id: Seq<char>, now_ms: u64, i: int)
    ensures
        has_id(st.contacts, contact_id, i) ==> {
            let (w, r) = contacts::with_contact(st, contact_id, contacts::read_at(now_ms));
            let after = ContactView { last_read_at: Some(now_ms), ..st.contacts[i] };
            &&& r == Ok::<ContactView, Seq<char>>(after)
            &&& w == (StoreView { contacts: st.contacts.update(i, after), ..st })
        },
        unknown_id(st.contacts, contact_id) ==> contacts::with_contact(
            st,
            contact_id,
            contacts::read_at(now_ms),
        ) == (st, Err::<ContactView, Seq<char>>("contact not found"@)),
{
    found_by_id(st.contacts, contact_id);
}

/// The user can take their trust back at any time, and give it to any contact that is not blocked
/// and has an identity and a safety number. Nothing but that trust changes.
pub proof fn users_decide_on_trust(
    st: StoreView,
    contact_id: Seq<char>,
    verified: bool,
    now_ms: u64,
    i: int,
)
    requires
        has_id(st.contacts, contact_id, i),
    ensures
        ({
            let (w, r) = contacts::with_contact(st, contact_id, contacts::marked(verified, now_ms));
            let e = st.contacts[i];
            let after = if verified {
                ContactView { trust_state: "verified"@, verified_at_ms: Some(now_ms), ..e }
            } else {
                ContactView { trust_state: "unverified"@, verified_at_ms: None, ..e }
            };
            &&& r is Ok <==> !verified || (e.trust_state != "identity_changed_blocked"@
                && text::trimmed(e.identity_public_b64).len() > 0 && text::trimmed(
                e.safety_number,
            ).len() > 0)
            &&& r is Ok ==> r->Ok_0 == after && w == (StoreView {
                contacts: st.contacts.update(i, after),
                ..st
            })
            &&& r is Err ==> w == st
        }),
{
    found_by_id(st.contacts, contact_id);
}

/// A verification code verifies a contact exactly where the contact is not blocked, the code was
/// made by its identity for the reader's own, and both see the same safety number.
pub proof fn verification_codes_verify_exactly_when_they_may(
    st: StoreView,
    contact_id: Seq<char>,
    p: VerificationView,
    my_public: Seq<u8>,
    now_ms: u64,
    i: int,
)
    requires
        has_id(st.contacts, contact_id, i),
    ensures
        ({
            let (w, r) = contacts::with_contact(
                st,
                contact_id,
                contacts::verified_by(p, my_public, now_ms),
            );
            let e = st.contacts[i];
            let after = ContactView {
                trust_state: "verified"@,
                verified_at_ms: Some(now_ms),
                ..e
            };
            &&& r is Ok <==> e.trust_state != "identity_changed_blocked"@ && text::trimmed(
                e.identity_public_b64,
            ).len() > 0 && text::trimmed(e.safety_number).len() > 0
                && p.local_identity_public_b64 == e.identity_public_b64
                && p.remote_identity_public_b64 == encoding::b64_text(my_public, false)
                && p.safety_number == e.safety_number
            &&& r is Ok ==> r->Ok_0 == after && w == (StoreView {
                contacts: st.contacts.update(i, after),
                ..st
            })
            &&& r is Err ==> w == st
        }),
{
    found_by_id(st.contacts, contact_id);
}

/// A verification code names the identity of its maker, the one of the contact, and the safety
/// number that its maker sees. It is taken for ten minutes.
pub proof fn verification_codes_say_who_made_them(
    st: StoreView,
    contact_id: Seq<char>,
    my_public: Seq<u8>,
    now_ms: u64,
    i: int,
    later_ms: u64,
)
    requires
        has_id(st.contacts, contact_id, i),
        now_ms + 600_000 <= u64::MAX,
    ensures
        ({
            let r = contacts::verification_for(st, contact_id, my_public, now_ms);
            let e = st.contacts[i];
            &&& r is Ok <==> text::trimmed(e.identity_public_b64).len() > 0 && text::trimmed(
                e.safety_number,
            ).len() > 0
            &&& r matches Ok(p) ==> {
                &&& p.v == 1 && p.kind == "axeno_verify_v1"@
                &&& p.local_identity_public_b64 == encoding::b64_text(my_public, false)
                &&& p.remote_identity_public_b64 == e.identity_public_b64
                &&& p.safety_number == e.safety_number
                &&& p.created_at_ms == now_ms
                &&& contacts::checked_verification(p, later_ms) is Ok <==> later_ms <= now_ms
                    + 600_000
            }
        }),
{
    found_by_id(st.contacts, contact_id);
}

// ---------------------------------------------------------------------------------------------
// Why something is refused.
// ---------------------------------------------------------------------------------------------

/// A code that is refused says why: another protocol, a clock that is ahead, an age of more than a
/// day, an identity that cannot be read, or the reader's own.
pub proof fn refused_codes_say_why(p: InvitePayloadView, local: Seq<u8>, now_ms: u64)
    requires
        now_ms + 300_000 <= u64::MAX,
        p.created_at_ms + 86_400_000 <= u64::MAX,
    ensures
        contacts::introduced(p, local, now_ms) matches Err(why) ==> why == if p.v != 1 || p.protocol
            != "axeno_signal_v1"@ {
            "unsupported connection code protocol"@
        } else if p.created_at_ms > now_ms + 300_000 {
            "connection code claims to be from the future; check your clock or request a fresh code"@
        } else if p.created_at_ms + 86_400_000 < now_ms {
            "connection code has expired; ask for a fresh code"@
        } else if encoding::b64_bytes(p.identity_public_b64, false) is None {
            "bad identity public key in code"@
        } else {
            "this connection code belongs to your own identity"@
        },
{
}

/// A move or an addition that is refused says why.
pub proof fn refused_moves_say_why(
    st: StoreView,
    contact_id: Seq<char>,
    c: ContactView,
    f: FreshRouteView,
    now_ms: u64,
    i: int,
)
    ensures
        contacts::added(st, c, f, now_ms).1 matches Err(why) ==> why
            == "contact identity key changed; refusing to replace it automatically. Verify out-of-band before re-adding."@,
        unknown_id(st.contacts, contact_id) ==> contacts::migrated(st, contact_id, c, f, now_ms).1
            == Err::<(ContactView, RouteView), Seq<char>>("contact not found"@),
        has_id(st.contacts, contact_id, i) ==> (contacts::migrated(
            st,
            contact_id,
            c,
            f,
            now_ms,
        ).1 matches Err(why) ==> why == if text::trimmed(st.contacts[i].identity_public_b64).len()
            == 0 {
            "cannot migrate a contact without a pinned identity key"@
        } else if st.contacts[i].identity_public_b64 != c.identity_public_b64 {
            "fresh code has a different identity key; refusing relay migration"@
        } else {
            "fresh code uses a different device id; create a new contact or verify out-of-band first"@
        }),
{
    found_by_id(st.contacts, contact_id);
}

/// A message that is refused says why.
pub proof fn refused_messages_say_why(
    st: StoreView,
    c: ContactView,
    d: DecryptedView,
    uuid: Seq<char>,
    device_id: u32,
    route: RouteView,
    my_public: Seq<u8>,
    session: Option<Seq<u8>>,
    now_ms: u64,
)
    ensures
        senders::taken_in(
            st,
            c,
            d,
            uuid,
            device_id,
            route,
            my_public,
            session,
            now_ms,
        ).1 matches Err(why) ==> why == if d.sender_mailbox_id is Some && d.sender_mailbox_id
            != Some(uuid) {
            "encrypted sender profile did not match sealed sender certificate"@
        } else if c.identity_public_b64.len() > 0 {
            "encrypted sender profile identity did not match the Signal session identity"@
        } else {
            "decrypted sender profile did not contain a stable Signal identity"@
        },
        senders::identified(st, c, uuid, my_public, my_public).1 matches Err(why) ==> why
            == "Signal prekey identity did not match stored contact identity"@,
{
}

} // verus!
