//! What holds of the routes that the client listens on, and of what the user sees of a store.
use crate::connections;
use crate::contact_laws;
use crate::ids;
use crate::messages;
use crate::overview;
use crate::routes;
use crate::routes::FreshRouteView;
use crate::routes::RouteKeysView;
use crate::seqs;
use crate::store::ContactView;
use crate::store::InviteView;
use crate::store::MessageView;
use crate::store::ProfileView;
use crate::store::RetiredTokenView;
use crate::store::RouteView;
use crate::store::StoreView;
use crate::text;
use crate::urls;
use vstd::prelude::*;

verus! {

/// The route is active and its time has not come.
pub open spec fn listening(r: RouteView, now_ms: u64) -> bool {
    r.active && (r.expires_at_ms matches Some(t) ==> t > now_ms)
}

/// Only the lists of retired tokens differ.
pub open spec fn same_but_tokens(a: RouteView, b: RouteView) -> bool {
    (RouteView {
        retired_delivery_tokens: b.retired_delivery_tokens,
        pending_token_retirements: b.pending_token_retirements,
        ..a
    }) == b
}

/// Cleaning up leaves, in their order, exactly the routes that are active and whose time has not
/// come, and exactly the invites whose time has not come. The mailboxes that were to be retired
/// still are. Contacts, keys, sessions and settings stay as they are.
pub proof fn cleaning_up_drops_what_is_over(st: StoreView, now_ms: u64)
    ensures
        ({
            let w = routes::cleaned(st, now_ms);
            &&& w.local_routes == st.local_routes.filter(|r: RouteView| listening(r, now_ms))
            &&& w.pending_invites == st.pending_invites.filter(
                |p: InviteView| p.expires_at_ms > now_ms,
            )
            &&& w.messages == messages::kept(st.messages)
            &&& st.pending_relay_retires.len() <= w.pending_relay_retires.len()
            &&& w.pending_relay_retires.take(st.pending_relay_retires.len() as int)
                == st.pending_relay_retires
            &&& (StoreView {
                local_routes: st.local_routes,
                pending_invites: st.pending_invites,
                pending_relay_retires: st.pending_relay_retires,
                messages: st.messages,
                ..w
            }) == st
        }),
{
    assert(routes::live_route(now_ms) =~= |r: RouteView| listening(r, now_ms));
    assert(routes::live_invite(now_ms) =~= |p: InviteView| p.expires_at_ms > now_ms);
    retires_grow(st.pending_relay_retires, st.local_routes.filter(routes::dead_route(now_ms)));
}

proof fn retires_grow(retires: Seq<RouteView>, more: Seq<RouteView>)
    ensures
        retires.len() <= routes::with_retires(retires, more).len(),
        routes::with_retires(retires, more).take(retires.len() as int) == retires,
    decreases more.len(),
{
    if more.len() > 0 {
        retires_grow(retires, more.drop_last());
        let before = routes::with_retires(retires, more.drop_last());
        let after = routes::with_retires(retires, more);
        assert(after.take(retires.len() as int) =~= before.take(retires.len() as int));
    } else {
        assert(retires.take(retires.len() as int) =~= retires);
    }
}

/// The routes to listen on are the active routes of the store that was made ready, whatever they
/// are for and in their order, and the mailboxes to retire are those that it notes.
pub proof fn every_active_route_is_listened_on(
    st: StoreView,
    fs: Seq<FreshRouteView>,
    now_ms: u64,
    x: RouteView,
)
    ensures
        ({
            let w = connections::connectable(st, fs, now_ms);
            let plan = connections::asked_for(w);
            &&& plan.routes.contains(x) <==> w.local_routes.contains(x) && x.active
            &&& plan.routes == w.local_routes.filter(|r: RouteView| r.active)
            &&& plan.retires == w.pending_relay_retires
        }),
{
    let w = connections::connectable(st, fs, now_ms);
    assert(connections::in_use() =~= |r: RouteView| r.active);
    seqs::filter_members(w.local_routes, |r: RouteView| r.active);
}

/// No contact has the route.
pub open spec fn of_no_contact(cs: Seq<ContactView>, id: Seq<char>) -> bool {
    forall|i: int| 0 <= i < cs.len() ==> (#[trigger] cs[i]).local_route_id != Some(id)
}

proof fn routing_leaves_the_others(
    st: StoreView,
    contact_id: Seq<char>,
    server_url: Seq<char>,
    f: FreshRouteView,
    now_ms: u64,
    x: RouteView,
)
    requires
        st.local_routes.contains(x),
        listening(x, now_ms),
        of_no_contact(st.contacts, x.id),
        f.id != x.id,
    ensures
        ({
            let w = routes::ensured_route(st, contact_id, server_url, f, now_ms).0;
            &&& w.local_routes.contains(x)
            &&& of_no_contact(w.contacts, x.id)
        }),
{
    let s1 = routes::cleaned(st, now_ms);
    let w = routes::ensured_route(st, contact_id, server_url, f, now_ms).0;
    seqs::filter_members(st.local_routes, routes::live_route(now_ms));
    assert(s1.local_routes.contains(x));
    seqs::find_spec(st.contacts, routes::contact_is(contact_id));
    let n = choose|n: int| 0 <= n < s1.local_routes.len() && s1.local_routes[n] == x;
    if let Some(c) = seqs::first_where(s1.contacts, routes::contact_is(contact_id)) {
        if let Some(id) = c.local_route_id {
            seqs::find_spec(s1.local_routes, routes::route_is(id));
        }
    }
    match routes::current_route(s1, contact_id) {
        Some(i) => {
            assert(s1.local_routes[i].id != x.id);
        },
        None => {},
    }
    assert(w.local_routes[n] == x);
}

proof fn routing_all_leaves_the_others(
    st: StoreView,
    cs: Seq<ContactView>,
    fs: Seq<FreshRouteView>,
    now_ms: u64,
    x: RouteView,
)
    requires
        st.local_routes.contains(x),
        listening(x, now_ms),
        of_no_contact(st.contacts, x.id),
        cs.len() <= fs.len(),
        forall|i: int| 0 <= i < fs.len() ==> (#[trigger] fs[i]).id != x.id,
    ensures
        ({
            let w = connections::all_routed(st, cs, fs, now_ms);
            &&& w.local_routes.contains(x)
            &&& of_no_contact(w.contacts, x.id)
        }),
    decreases cs.len(),
{
    if cs.len() > 0 {
        routing_all_leaves_the_others(st, cs.drop_last(), fs, now_ms, x);
        let before = connections::all_routed(st, cs.drop_last(), fs, now_ms);
        let c = cs.last();
        routing_leaves_the_others(before, c.id, c.server_url, fs[cs.len() - 1], now_ms, x);
    }
}

/// A route that no contact has, such as the one of a pending invite, is listened on as long as it
/// is active and its time has not come. The tokens that were given up on it and are still accepted
/// stay so.
pub proof fn routes_of_no_contact_are_listened_on(
    st: StoreView,
    fs: Seq<FreshRouteView>,
    now_ms: u64,
    x: RouteView,
)
    requires
        st.local_routes.contains(x),
        listening(x, now_ms),
        of_no_contact(st.contacts, x.id),
        st.contacts.len() <= fs.len(),
        forall|i: int| 0 <= i < fs.len() ==> (#[trigger] fs[i]).id != x.id,
    ensures
        ({
            let plan = connections::asked_for(connections::connectable(st, fs, now_ms));
            exists|k: int|
                0 <= k < plan.routes.len() && same_but_tokens(#[trigger] plan.routes[k], x) && (
                forall|t: RetiredTokenView| #[trigger]
                    x.pending_token_retirements.contains(t) ==> (
                    plan.routes[k].pending_token_retirements.contains(t) <==> t.retire_after_ms
                        > now_ms))
        }),
{
    let s1 = routes::cleaned(st, now_ms);
    seqs::filter_members(st.local_routes, routes::live_route(now_ms));
    assert(s1.local_routes.contains(x));
    routing_all_leaves_the_others(s1, s1.contacts, fs, now_ms, x);
    let s2 = connections::all_routed(s1, s1.contacts, fs, now_ms);
    let n = choose|n: int| 0 <= n < s2.local_routes.len() && s2.local_routes[n] == x;
    let w = connections::connectable(st, fs, now_ms);
    let y = routes::without_expired(x, now_ms);
    assert(w.local_routes[n] == y);
    let plan = connections::asked_for(w);
    every_active_route_is_listened_on(st, fs, now_ms, y);
    assert(plan.routes.contains(y));
    let k = choose|k: int| 0 <= k < plan.routes.len() && plan.routes[k] == y;
    let d = routes::with_dates(x, now_ms).pending_token_retirements;
    seqs::filter_members(d, routes::still_accepted(now_ms));
    assert forall|t: RetiredTokenView| #[trigger]
        x.pending_token_retirements.contains(t) implies (y.pending_token_retirements.contains(t)
        <==> t.retire_after_ms > now_ms) by {
        let j = choose|j: int|
            0 <= j < x.pending_token_retirements.len() && x.pending_token_retirements[j] == t;
        assert(d[j] == t);
    }
    assert(same_but_tokens(plan.routes[k], x));
}

/// The same but for the routes of the contacts.
pub open spec fn same_but_routes(before: StoreView, after: StoreView) -> bool {
    &&& after.contacts.len() == before.contacts.len()
    &&& forall|i: int|
        0 <= i < before.contacts.len() ==> (#[trigger] after.contacts[i]) == (ContactView {
            local_route_id: after.contacts[i].local_route_id,
            ..before.contacts[i]
        })
    &&& after.signal_sessions == before.signal_sessions
    &&& after.used_opk_ids == before.used_opk_ids
    &&& after.local_profile == before.local_profile
    &&& after.local_kyber_prekey == before.local_kyber_prekey
    &&& after.previous_kyber_prekeys == before.previous_kyber_prekeys
    &&& after.server_trust_roots == before.server_trust_roots
    &&& after.private_servers == before.private_servers
    &&& after.default_server_url == before.default_server_url
}

proof fn routing_changes_no_more(
    st: StoreView,
    contact_id: Seq<char>,
    url: Seq<char>,
    f: FreshRouteView,
    now_ms: u64,
)
    ensures
        same_but_routes(st, routes::ensured_route(st, contact_id, url, f, now_ms).0),
{
    let w = routes::ensured_route(st, contact_id, url, f, now_ms).0;
    routes::ensured_keeps_contacts(st, contact_id, url, f, now_ms);
    seqs::find_spec(st.contacts, routes::contact_is(contact_id));
    assert forall|i: int| 0 <= i < st.contacts.len() implies (#[trigger] w.contacts[i]) == (
    ContactView { local_route_id: w.contacts[i].local_route_id, ..st.contacts[i] }) by {}
}

proof fn routing_all_changes_no_more(
    st: StoreView,
    cs: Seq<ContactView>,
    fs: Seq<FreshRouteView>,
    now_ms: u64,
)
    ensures
        same_but_routes(st, connections::all_routed(st, cs, fs, now_ms)),
    decreases cs.len(),
{
    if cs.len() > 0 {
        routing_all_changes_no_more(st, cs.drop_last(), fs, now_ms);
        let before = connections::all_routed(st, cs.drop_last(), fs, now_ms);
        let c = cs.last();
        routing_changes_no_more(before, c.id, c.server_url, fs[cs.len() - 1], now_ms);
    }
}

/// Making a store ready to connect changes contacts by their routes alone, and neither sessions nor
/// keys, trust roots or settings.
pub proof fn connecting_changes_routes_alone(st: StoreView, fs: Seq<FreshRouteView>, now_ms: u64)
    ensures
        same_but_routes(st, connections::connectable(st, fs, now_ms)),
{
    let s1 = routes::cleaned(st, now_ms);
    routing_all_changes_no_more(s1, s1.contacts, fs, now_ms);
}

/// Of the mailboxes to retire exactly those stay whose retirement was not confirmed.
pub proof fn unconfirmed_retirements_stay(retires: Seq<RouteView>, done: Seq<bool>, x: RouteView)
    requires
        retires.len() == done.len(),
    ensures
        connections::unconfirmed(retires, done).contains(x) <==> exists|i: int|
            0 <= i < retires.len() && #[trigger] retires[i] == x && !done[i],
        (forall|i: int| 0 <= i < done.len() ==> !#[trigger] done[i]) ==> connections::unconfirmed(
            retires,
            done,
        ) == retires,
{
    unconfirmed_members(retires, done, x);
}

proof fn unconfirmed_members(retires: Seq<RouteView>, done: Seq<bool>, x: RouteView)
    requires
        retires.len() <= done.len(),
    ensures
        connections::unconfirmed(retires, done).contains(x) <==> exists|i: int|
            0 <= i < retires.len() && #[trigger] retires[i] == x && !done[i],
        (forall|i: int| 0 <= i < retires.len() ==> !#[trigger] done[i])
            ==> connections::unconfirmed(retires, done) == retires,
    decreases retires.len(),
{
    if retires.len() > 0 {
        let front = retires.drop_last();
        unconfirmed_members(front, done, x);
        let before = connections::unconfirmed(front, done);
        let after = connections::unconfirmed(retires, done);
        let n = retires.len() - 1;
        if after.contains(x) {
            let k = choose|k: int| 0 <= k < after.len() && after[k] == x;
            if k < before.len() {
                assert(before[k] == x);
                let i = choose|i: int| 0 <= i < front.len() && #[trigger] front[i] == x && !done[i];
                assert(retires[i] == x);
            } else {
                assert(retires[n] == x);
            }
        }
        if exists|i: int| 0 <= i < retires.len() && #[trigger] retires[i] == x && !done[i] {
            let i = choose|i: int| 0 <= i < retires.len() && #[trigger] retires[i] == x && !done[i];
            if i < n {
                assert(front[i] == x);
                let k = choose|k: int| 0 <= k < before.len() && before[k] == x;
                assert(after[k] == x);
            } else {
                assert(after[after.len() - 1] == x);
            }
        }
        assert(retires =~= front.push(retires.last()));
    }
}

// ---------------------------------------------------------------------------------------------
// What the user sees.
// ---------------------------------------------------------------------------------------------

/// The user sees the contacts as they are stored and their own mailboxes, one for each active
/// route, whatever it is for. The first of these is shown as theirs, or that of the profile where
/// there is none.
pub proof fn contacts_and_mailboxes_are_shown(st: StoreView)
    ensures
        ({
            let v = overview::seen(st);
            let active = st.local_routes.filter(|r: RouteView| r.active);
            &&& v.contacts == st.contacts
            &&& v.my_recipient_ids == active.map_values(|r: RouteView| r.mailbox_id)
            &&& active.len() > 0 ==> v.my_recipient_id == active[0].mailbox_id
            &&& active.len() == 0 ==> v.my_recipient_id == match st.local_profile {
                Some(p) => p.mailbox_id,
                None => Seq::empty(),
            }
        }),
{
    assert(connections::in_use() =~= |r: RouteView| r.active);
}

/// The first message was sent before the second, or came in no later where they were sent at the
/// same time.
pub open spec fn no_later(a: MessageView, b: MessageView) -> bool {
    a.timestamp < b.timestamp || (a.timestamp == b.timestamp && (match a.received_at_ms {
        Some(t) => t,
        None => a.timestamp,
    }) <= (match b.received_at_ms {
        Some(t) => t,
        None => b.timestamp,
    }))
}

/// A conversation is shown with exactly the messages of its contact, the older ones first, and
/// there is one for each contact of a message, and none else.
pub proof fn conversations_show_their_messages(st: StoreView, k: int)
    requires
        0 <= k < overview::seen(st).messages.len(),
    ensures
        ({
            let c = overview::seen(st).messages[k];
            &&& c.messages.to_multiset() == st.messages.filter(
                |m: MessageView| m.contact_id == c.contact_id,
            ).to_multiset()
            &&& forall|a: int, b: int|
                0 <= a < b < c.messages.len() ==> no_later(
                    #[trigger] c.messages[a],
                    #[trigger] c.messages[b],
                )
            &&& exists|i: int|
                0 <= i < st.messages.len() && (#[trigger] st.messages[i]).contact_id
                    == c.contact_id
        }),
{
    let c = overview::seen(st).messages[k];
    let ids = overview::partners(st.messages);
    text::distinct_members(ids);
    assert(text::distinct(ids)[k] == c.contact_id);
    assert(text::distinct(ids).contains(c.contact_id));
    assert(ids.contains(c.contact_id));
    let i = choose|i: int| 0 <= i < ids.len() && ids[i] == c.contact_id;
    assert(st.messages[i].contact_id == c.contact_id);
    assert(messages::of_contact(c.contact_id) =~= |m: MessageView| m.contact_id == c.contact_id);
    let own = st.messages.filter(messages::of_contact(c.contact_id));
    messages::in_order_is_ordered(own);
    seqs::filter_members(st.messages, messages::of_contact(c.contact_id));
    assert forall|a: int| 0 <= a < c.messages.len() implies (#[trigger] c.messages[a]).contact_id
        == c.contact_id by {
        broadcast use vstd::seq_lib::group_to_multiset_ensures;

        assert(c.messages.contains(c.messages[a]));
        assert(own.to_multiset().contains(c.messages[a]));
        assert(own.contains(c.messages[a]));
    }
    assert forall|a: int, b: int| 0 <= a < b < c.messages.len() implies no_later(
        #[trigger] c.messages[a],
        #[trigger] c.messages[b],
    ) by {
        assert(!messages::before(c.messages[b], c.messages[a]));
    }
}

// ---------------------------------------------------------------------------------------------
// Routes of this side.
// ---------------------------------------------------------------------------------------------

/// A fresh route has the ids, tokens and keys that were drawn for it, is at the relay that was
/// asked for, is in use, and ends when it was told to.
pub proof fn fresh_routes_are_what_was_drawn(
    f: FreshRouteView,
    url: Seq<char>,
    scope: Seq<char>,
    expires_at_ms: Option<u64>,
    now_ms: u64,
)
    ensures
        ({
            let r = routes::made_route(f, url, scope, expires_at_ms, now_ms);
            &&& contact_laws::made_for(r, f, url, scope, now_ms)
            &&& r.expires_at_ms == expires_at_ms
        }),
{
}

/// The first route with the id.
pub open spec fn is_route(rs: Seq<RouteView>, id: Seq<char>, m: int) -> bool {
    &&& 0 <= m < rs.len()
    &&& rs[m].id == id
    &&& forall|j: int| 0 <= j < m ==> (#[trigger] rs[j]).id != id
}

/// No route has the id.
pub open spec fn no_route(rs: Seq<RouteView>, id: Seq<char>) -> bool {
    forall|j: int| 0 <= j < rs.len() ==> (#[trigger] rs[j]).id != id
}

pub(crate) proof fn found_route(rs: Seq<RouteView>, id: Seq<char>)
    ensures
        forall|m: int| #[trigger] is_route(rs, id, m) ==> seqs::find(rs, routes::route_is(id))
            == Some(m),
        no_route(rs, id) ==> seqs::find(rs, routes::route_is(id)) is None,
        match seqs::find(rs, routes::route_is(id)) {
            Some(m) => is_route(rs, id, m),
            None => no_route(rs, id),
        },
{
    let p = routes::route_is(id);
    seqs::find_spec(rs, p);
    assert forall|m: int| #[trigger] is_route(rs, id, m) implies seqs::find(rs, p) == Some(m) by {
        seqs::find_is(rs, p, m);
    }
    if no_route(rs, id) {
        seqs::find_none(rs, p);
    }
    match seqs::find(rs, p) {
        Some(m) => {
            assert forall|j: int| 0 <= j < m implies (#[trigger] rs[j]).id != id by {
                assert(!p(rs[j]));
            }
        },
        None => {
            assert forall|j: int| 0 <= j < rs.len() implies (#[trigger] rs[j]).id != id by {
                assert(!p(rs[j]));
            }
        },
    }
}

/// The route as it is kept for a contact: without an end, and with certificate keys.
pub open spec fn kept_for_good(r: RouteView, f: FreshRouteView) -> RouteView {
    let keyed = text::trimmed(r.sealed_sender_cert_public_b64).len() > 0 && text::trimmed(
        r.sealed_sender_cert_private_b64,
    ).len() > 0;
    RouteView {
        expires_at_ms: None,
        sealed_sender_cert_public_b64: if keyed {
            r.sealed_sender_cert_public_b64
        } else {
            f.keys.public_b64
        },
        sealed_sender_cert_private_b64: if keyed {
            r.sealed_sender_cert_private_b64
        } else {
            f.keys.private_b64
        },
        ..r
    }
}

/// The route, taken out of use.
pub open spec fn out_of_use(r: RouteView, now_ms: u64) -> RouteView {
    RouteView { active: false, expires_at_ms: Some(now_ms), ..r }
}

/// A contact whose route is in use at the relay that is asked for keeps that route, for good. Any
/// other gets a fresh one, and a route that it had is taken out of use. No other route or contact
/// changes.
pub proof fn contacts_keep_or_get_their_route(
    st: StoreView,
    contact_id: Seq<char>,
    url: Seq<char>,
    f: FreshRouteView,
    now_ms: u64,
    i: int,
    m: int,
)
    requires
        contact_laws::has_id(st.contacts, contact_id, i),
    ensures
        ({
            let (w, r) = routes::ensured_route(st, contact_id, url, f, now_ms);
            let s = routes::cleaned(st, now_ms);
            let own = st.contacts[i].local_route_id;
            let has = own is Some && is_route(s.local_routes, own->0, m);
            let none = own is None || no_route(s.local_routes, own->0);
            let fits = s.local_routes[m].server_url == urls::normalized(url);
            &&& has && fits ==> r == kept_for_good(s.local_routes[m], f) && w.local_routes
                == s.local_routes.update(m, r) && w.contacts == st.contacts
                && w.pending_relay_retires == s.pending_relay_retires
            &&& none || (has && !fits) ==> contact_laws::made_for(
                r,
                f,
                url,
                "contact:"@ + contact_id,
                now_ms,
            ) && r.expires_at_ms is None && w.contacts == st.contacts.update(
                i,
                ContactView { local_route_id: Some(f.id), ..st.contacts[i] },
            )
            &&& none ==> w.local_routes == s.local_routes.push(r) && w.pending_relay_retires
                == s.pending_relay_retires
            &&& has && !fits ==> w.local_routes == s.local_routes.update(
                m,
                out_of_use(s.local_routes[m], now_ms),
            ).push(r)
        }),
{
    let s = routes::cleaned(st, now_ms);
    contact_laws::found_by_id(st.contacts, contact_id);
    urls::normalized_twice(url);
    if let Some(id) = st.contacts[i].local_route_id {
        found_route(s.local_routes, id);
        if is_route(s.local_routes, id, m) {
            seqs::filter_members(st.local_routes, routes::live_route(now_ms));
            assert(s.local_routes.contains(s.local_routes[m]));
        }
    }
}

/// The mailbox of a route that is given up for another is noted for retirement, once, where it is
/// one of this client's own making.
pub proof fn given_up_mailboxes_are_noted(retires: Seq<RouteView>, r: RouteView)
    ensures
        ({
            let w = routes::with_retire(retires, r);
            let ours = "mbx_"@.is_prefix_of(r.mailbox_id);
            let noted = exists|j: int|
                0 <= j < retires.len() && (#[trigger] retires[j]).server_url == r.server_url
                    && retires[j].mailbox_id == r.mailbox_id;
            w == if ours && !noted {
                retires.push(r)
            } else {
                retires
            }
        }),
{
    let noted = exists|j: int|
        0 <= j < retires.len() && (#[trigger] retires[j]).server_url == r.server_url
            && retires[j].mailbox_id == r.mailbox_id;
    let p = routes::same_mailbox(r);
    if noted {
        let j = choose|j: int|
            0 <= j < retires.len() && (#[trigger] retires[j]).server_url == r.server_url
                && retires[j].mailbox_id == r.mailbox_id;
        assert(p(retires[j]));
    }
    if seqs::any(retires, p) {
        let j = choose|j: int| 0 <= j < retires.len() && p(#[trigger] retires[j]);
        assert(retires[j].server_url == r.server_url);
    }
}

/// A relay's trust root is pinned when it is first seen, taken again where it is the same, and
/// refused where it is another or empty. No other root changes.
pub proof fn trust_roots_are_pinned(
    st: StoreView,
    server_id: Seq<char>,
    root: Seq<char>,
)
    ensures
        ({
            let r = routes::pinned(st, server_id, root);
            let known = st.server_trust_roots.contains_key(server_id);
            &&& r is Ok <==> text::trimmed(root).len() > 0 && (known
                ==> st.server_trust_roots[server_id] == root)
            &&& r matches Ok((w, new)) ==> {
                &&& new == !known
                &&& w == (StoreView {
                    server_trust_roots: st.server_trust_roots.insert(server_id, root),
                    ..st
                })
            }
        }),
{
    if st.server_trust_roots.contains_key(server_id) && st.server_trust_roots[server_id] == root {
        assert(st.server_trust_roots.insert(server_id, root) =~= st.server_trust_roots);
    }
}

/// A route that the sender of a message to the contact may show.
pub open spec fn shown_for(r: RouteView, scope: Seq<char>, url: Seq<char>) -> bool {
    r.active && r.scope == scope && r.server_url == url
}

/// A message is sent from the contact's own route where the contact has prekeys to answer on it.
/// Where it has not, it is sent from the route that is held for this contact or, if there is none,
/// from the invite that the contact came by, since the contact knows these; only then from its own.
pub proof fn messages_leave_on_a_route_that_the_contact_knows(
    st: StoreView,
    contact_id: Seq<char>,
    fallback: RouteView,
    i: int,
)
    requires
        contact_laws::has_id(st.contacts, contact_id, i),
    ensures
        ({
            let r = routes::sender_route(st, contact_id, fallback);
            let c = st.contacts[i];
            let url = fallback.server_url;
            let own = exists|m: int|
                0 <= m < st.local_routes.len() && (#[trigger] st.local_routes[m]).active
                    && c.local_route_id == Some(st.local_routes[m].id)
                    && st.local_routes[m].server_url == url;
            let held = exists|m: int|
                0 <= m < st.local_routes.len() && shown_for(
                    #[trigger] st.local_routes[m],
                    "sender:"@ + contact_id,
                    url,
                );
            let retiring = exists|m: int|
                0 <= m < st.local_routes.len() && shown_for(
                    #[trigger] st.local_routes[m],
                    "retiring_invite:"@ + contact_id,
                    url,
                );
            let is_own = r.active && c.local_route_id == Some(r.id) && r.server_url == url
                && st.local_routes.contains(r);
            &&& own && contact_laws::can_be_moved(c) ==> is_own
            &&& !(own && contact_laws::can_be_moved(c)) && held ==> shown_for(
                r,
                "sender:"@ + contact_id,
                url,
            ) && st.local_routes.contains(r)
            &&& !(own && contact_laws::can_be_moved(c)) && !held && retiring ==> shown_for(
                r,
                "retiring_invite:"@ + contact_id,
                url,
            ) && st.local_routes.contains(r)
            &&& !held && !retiring && own ==> is_own
            &&& !held && !retiring && !own ==> r == fallback
        }),
{
    contact_laws::found_by_id(st.contacts, contact_id);
    let c = st.contacts[i];
    let url = fallback.server_url;
    let rs = st.local_routes;
    if let Some(id) = c.local_route_id {
        let p = routes::own_route_at(id, url);
        seqs::find_spec(rs, p);
        assert forall|m: int| 0 <= m < rs.len() implies p(#[trigger] rs[m]) == (rs[m].active
            && rs[m].id == id && rs[m].server_url == url) by {}
    }
    let h = routes::hold_at(contact_id, url);
    seqs::find_spec(rs, h);
    assert forall|m: int| 0 <= m < rs.len() implies h(#[trigger] rs[m]) == shown_for(
        rs[m],
        "sender:"@ + contact_id,
        url,
    ) by {}
    let g = routes::retiring_at(contact_id, url);
    seqs::find_spec(rs, g);
    assert forall|m: int| 0 <= m < rs.len() implies g(#[trigger] rs[m]) == shown_for(
        rs[m],
        "retiring_invite:"@ + contact_id,
        url,
    ) by {}
}

// ---------------------------------------------------------------------------------------------
// Delivery tokens.
// ---------------------------------------------------------------------------------------------

/// The token was given up on the route and is still accepted.
pub open spec fn retiring(r: RouteView, t: Seq<char>) -> bool {
    r.retired_delivery_tokens.contains(t) || exists|j: int|
        0 <= j < r.pending_token_retirements.len() && (
        #[trigger] r.pending_token_retirements[j]).token == t
}

/// The relay is told of exactly the current token, first, and of those that are still accepted,
/// each once.
pub proof fn allowlists_hold_what_is_accepted(r: RouteView, t: Seq<char>)
    ensures
        routes::allowlist(r).contains(t) <==> t == r.delivery_token || retiring(r, t),
        routes::allowlist(r).no_duplicates(),
        routes::allowlist(r).len() > 0 && routes::allowlist(r)[0] == r.delivery_token,
{
    crate::route_laws::allowlist_contains(r, t);
    pending_tokens(r.pending_token_retirements, t);
}

proof fn pending_tokens(s: Seq<RetiredTokenView>, t: Seq<char>)
    ensures
        routes::retired_tokens(s).contains(t) <==> exists|j: int|
            0 <= j < s.len() && (#[trigger] s[j]).token == t,
{
    let all = routes::retired_tokens(s);
    if all.contains(t) {
        let j = choose|j: int| 0 <= j < all.len() && all[j] == t;
        assert(s[j].token == t);
    }
    if exists|j: int| 0 <= j < s.len() && (#[trigger] s[j]).token == t {
        let j = choose|j: int| 0 <= j < s.len() && (#[trigger] s[j]).token == t;
        assert(all[j] == t);
    }
}

/// Rotating makes the new token the current one under the next epoch, and keeps the former one for
/// a week. Nothing else of the route changes.
pub proof fn rotated_tokens_stay_for_a_week(r: RouteView, new_token: Seq<char>, now_ms: u64)
    requires
        1 <= r.delivery_token_epoch < u64::MAX,
        now_ms + 604_800_000 <= u64::MAX,
    ensures
        routes::token_rotated(r, new_token, now_ms) == (RouteView {
            delivery_token: new_token,
            delivery_token_epoch: (r.delivery_token_epoch + 1) as u64,
            pending_token_retirements: r.pending_token_retirements.push(
                RetiredTokenView {
                    token: r.delivery_token,
                    epoch: r.delivery_token_epoch,
                    retire_after_ms: (now_ms + 604_800_000) as u64,
                },
            ),
            ..r
        }),
{
}

/// The tokens that the relay is told of before a rotation are the new one, the current one and
/// those that are still accepted, each once where the new one is new.
pub proof fn rotations_announce_every_token(r: RouteView, new_token: Seq<char>, t: Seq<char>)
    ensures
        ({
            let all = routes::rotation_allowlist(r, new_token);
            &&& all.contains(t) <==> t == new_token || t == r.delivery_token || exists|j: int|
                0 <= j < r.pending_token_retirements.len() && (
                #[trigger] r.pending_token_retirements[j]).token == t
            &&& all[0] == new_token && all[1] == r.delivery_token
            &&& new_token != r.delivery_token ==> all.no_duplicates()
        }),
{
    let seen = seq![new_token, r.delivery_token];
    let more = routes::retired_tokens(r.pending_token_retirements);
    pending_tokens(r.pending_token_retirements, t);
    fresh_members(seen, more, t);
    let fresh = routes::fresh_of(seen, more);
    let all = routes::rotation_allowlist(r, new_token);
    assert(all == seen + fresh);
    if all.contains(t) {
        let j = choose|j: int| 0 <= j < all.len() && all[j] == t;
        if j >= 2 {
            assert(fresh[j - 2] == t);
        }
    }
    assert(seen.contains(t) <==> t == new_token || t == r.delivery_token) by {
        assert(seen[0] == new_token);
        assert(seen[1] == r.delivery_token);
    }
    if fresh.contains(t) {
        let j = choose|j: int| 0 <= j < fresh.len() && fresh[j] == t;
        assert(all[j + 2] == t);
    }
    assert(all[0] == new_token && all[1] == r.delivery_token);
    if new_token != r.delivery_token {
        assert forall|a: int, b: int| 0 <= a < all.len() && 0 <= b < all.len() && a != b implies all[a]
            != all[b] by {
            if a >= 2 {
                assert(all[a] == fresh[a - 2]);
                fresh_members(seen, more, fresh[a - 2]);
                assert(fresh.contains(fresh[a - 2]));
            }
            if b >= 2 {
                assert(all[b] == fresh[b - 2]);
                fresh_members(seen, more, fresh[b - 2]);
                assert(fresh.contains(fresh[b - 2]));
            }
            assert(seen.contains(seen[0]) && seen.contains(seen[1]));
        }
    }
}

proof fn fresh_members(seen: Seq<Seq<char>>, more: Seq<Seq<char>>, t: Seq<char>)
    ensures
        routes::fresh_of(seen, more).contains(t) <==> more.contains(t) && !seen.contains(t),
        routes::fresh_of(seen, more).no_duplicates(),
    decreases more.len(),
{
    let after = routes::fresh_of(seen, more);
    if more.len() > 0 {
        let front = more.drop_last();
        let x = more.last();
        let before = routes::fresh_of(seen, front);
        fresh_members(seen, front, t);
        fresh_members(seen, front, x);
        assert(more =~= front.push(x));
        assert(more.contains(t) <==> front.contains(t) || t == x) by {
            if more.contains(t) {
                let j = choose|j: int| 0 <= j < more.len() && more[j] == t;
                if j < front.len() {
                    assert(front[j] == t);
                }
            }
            if front.contains(t) {
                let j = choose|j: int| 0 <= j < front.len() && front[j] == t;
                assert(more[j] == t);
            }
            assert(more[more.len() - 1] == x);
        }
        both_contain(seen, before, x);
        if !(seen + before).contains(x) {
            assert(after == before.push(x));
            assert(after.contains(t) <==> before.contains(t) || t == x) by {
                if after.contains(t) {
                    let j = choose|j: int| 0 <= j < after.len() && after[j] == t;
                    if j < before.len() {
                        assert(before[j] == t);
                    }
                }
                if before.contains(t) {
                    let j = choose|j: int| 0 <= j < before.len() && before[j] == t;
                    assert(after[j] == t);
                }
                assert(after[after.len() - 1] == x);
            }
        }
    }
}

proof fn both_contain(a: Seq<Seq<char>>, b: Seq<Seq<char>>, x: Seq<char>)
    ensures
        (a + b).contains(x) <==> a.contains(x) || b.contains(x),
{
    let c = a + b;
    if c.contains(x) {
        let j = choose|j: int| 0 <= j < c.len() && c[j] == x;
        if j < a.len() {
            assert(a[j] == x);
        } else {
            assert(b[j - a.len()] == x);
        }
    }
    if a.contains(x) {
        let j = choose|j: int| 0 <= j < a.len() && a[j] == x;
        assert(c[j] == x);
    }
    if b.contains(x) {
        let j = choose|j: int| 0 <= j < b.len() && b[j] == x;
        assert(c[a.len() + j] == x);
    }
}

/// An acknowledgement of the current epoch drops all tokens that were given up. One of an earlier
/// epoch, or none, drops only those whose time has come. Nothing else of the route changes.
pub proof fn acknowledgements_end_former_tokens(
    r: RouteView,
    acked: Option<u64>,
    now_ms: u64,
    t: RetiredTokenView,
)
    requires
        r.pending_token_retirements.contains(t),
    ensures
        ({
            let w = routes::acknowledged(r, acked, now_ms);
            let current = acked is Some && acked->0 >= r.delivery_token_epoch;
            &&& same_but_tokens(w, r)
            &&& w.retired_delivery_tokens.len() == 0
            &&& current ==> w.pending_token_retirements.len() == 0
            &&& !current ==> (w.pending_token_retirements.contains(t) <==> t.retire_after_ms
                > now_ms)
        }),
{
    let d = routes::with_dates(r, now_ms);
    let dd = routes::with_dates(d, now_ms);
    seqs::filter_members(dd.pending_token_retirements, routes::still_accepted(now_ms));
    let j = choose|j: int|
        0 <= j < r.pending_token_retirements.len() && r.pending_token_retirements[j] == t;
    assert(d.pending_token_retirements[j] == t);
    assert(dd.pending_token_retirements[j] == t);
    assert(dd.pending_token_retirements.contains(t));
}

/// A token that was given up without a date is accepted for a week from now on.
pub proof fn undated_tokens_stay_for_a_week(r: RouteView, now_ms: u64, t: Seq<char>)
    requires
        r.retired_delivery_tokens.contains(t),
        t != r.delivery_token,
        now_ms + 604_800_000 <= u64::MAX,
    ensures
        ({
            let w = routes::with_dates(r, now_ms);
            &&& same_but_tokens(w, r)
            &&& w.retired_delivery_tokens.len() == 0
            &&& exists|j: int|
                0 <= j < w.pending_token_retirements.len() && (
                #[trigger] w.pending_token_retirements[j]).token == t
                    && w.pending_token_retirements[j].retire_after_ms == now_ms + 604_800_000
        }),
{
    let w = routes::with_dates(r, now_ms);
    let k = r.pending_token_retirements.len() as int;
    let d = routes::dated(
        r.retired_delivery_tokens,
        r.delivery_token,
        r.delivery_token_epoch,
        now_ms,
    );
    dated_for_a_week(
        r.retired_delivery_tokens,
        r.delivery_token,
        r.delivery_token_epoch,
        now_ms,
        t,
    );
    let j = choose|j: int| 0 <= j < d.len() && (#[trigger] d[j]).token == t;
    assert(w.pending_token_retirements[k + j] == d[j]);
}

proof fn dated_for_a_week(
    tokens: Seq<Seq<char>>,
    current: Seq<char>,
    epoch: u64,
    now_ms: u64,
    t: Seq<char>,
)
    requires
        now_ms + 604_800_000 <= u64::MAX,
    ensures
        tokens.contains(t) && t != current ==> exists|j: int|
            0 <= j < routes::dated(tokens, current, epoch, now_ms).len() && (
            #[trigger] routes::dated(tokens, current, epoch, now_ms)[j]).token == t,
        forall|j: int|
            0 <= j < routes::dated(tokens, current, epoch, now_ms).len() ==> (
            #[trigger] routes::dated(tokens, current, epoch, now_ms)[j]).retire_after_ms == now_ms
                + 604_800_000,
    decreases tokens.len(),
{
    if tokens.len() > 0 {
        let front = tokens.drop_last();
        let x = tokens.last();
        let before = routes::dated(front, current, epoch, now_ms);
        let after = routes::dated(tokens, current, epoch, now_ms);
        dated_for_a_week(front, current, epoch, now_ms, t);
        pending_tokens(before, x);
        if tokens.contains(t) && t != current {
            let n = choose|n: int| 0 <= n < tokens.len() && tokens[n] == t;
            if n < front.len() {
                assert(front[n] == t);
                let j = choose|j: int| 0 <= j < before.len() && (#[trigger] before[j]).token == t;
                assert(after[j].token == t);
            } else if routes::retired_tokens(before).contains(t) {
                let j = choose|j: int| 0 <= j < before.len() && (#[trigger] before[j]).token == t;
                assert(after[j].token == t);
            } else {
                assert(after[after.len() - 1].token == t);
            }
        }
    }
}

/// The route that stands for a profile: its mailbox and tokens, in use at the relay, without an end.
pub proof fn profiles_have_a_route(
    p: ProfileView,
    server_id: Seq<char>,
    url: Seq<char>,
    keys: RouteKeysView,
)
    ensures
        ({
            let r = routes::profile_route(p, server_id, url, keys);
            &&& r.id == "legacy_local_profile"@ && r.scope == "legacy"@
            &&& r.mailbox_id == p.mailbox_id
            &&& r.receive_auth_token == p.receive_auth_token
            &&& r.delivery_token == p.delivery_token && r.delivery_token_epoch == 1
            &&& r.retired_delivery_tokens.len() == 0 && r.pending_token_retirements.len() == 0
            &&& r.server_url == urls::normalized(url) && r.server_id == server_id
            &&& r.sealed_sender_cert_public_b64 == keys.public_b64
            &&& r.sealed_sender_cert_private_b64 == keys.private_b64
            &&& r.active && r.expires_at_ms is None && r.replacement_route_id is None
            &&& r.created_at_ms == p.created_at_ms
        }),
{
}

/// A fresh profile was made now; its mailbox and its tokens are ones that a relay takes.
pub proof fn fresh_profiles_can_be_registered(p: ProfileView, now_ms: u64)
    requires
        routes::fresh_profile(p, now_ms),
    ensures
        p.created_at_ms == now_ms,
        ids::recipient_shape(p.mailbox_id),
        ids::token_shape(p.receive_auth_token, 16),
        ids::token_shape(p.delivery_token, 16),
{
    ids::random_mailbox_is_valid(p.mailbox_id);
    ids::random_token_is_valid(p.receive_auth_token, true);
    ids::random_token_is_valid(p.delivery_token, false);
}

/// What is drawn for a fresh route is what a relay takes for a mailbox and its tokens.
pub proof fn fresh_routes_can_be_registered(f: FreshRouteView)
    requires
        routes::fresh_shape(f),
    ensures
        ids::recipient_shape(f.mailbox_id),
        ids::token_shape(f.receive_auth_token, 16),
        ids::token_shape(f.delivery_token, 16),
{
    ids::random_mailbox_is_valid(f.mailbox_id);
    ids::random_token_is_valid(f.receive_auth_token, true);
    ids::random_token_is_valid(f.delivery_token, false);
}

} // verus!
