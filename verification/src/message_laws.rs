//! What holds of messages: which are kept, what one that came in changes, and what one needs that
//! leaves.
use crate::connection_laws;
use crate::contact_laws;
use crate::encoding;
use crate::inbound;
use crate::messages;
use crate::outbound;
use crate::outbound::SendPlanView;
use crate::padding;
use crate::payloads::DecryptedView;
use crate::payloads::WireView;
use crate::routes;
use crate::routes::FreshRouteView;
use crate::routes::RouteKeysView;
use crate::senders;
use crate::senders::CiphertextKind;
use crate::seqs;
use crate::store::ContactView;
use crate::store::InviteView;
use crate::store::MessageView;
use crate::store::RouteView;
use crate::store::SessionView;
use crate::store::StoreView;
use crate::text;
use vstd::prelude::*;

verus! {

// ---------------------------------------------------------------------------------------------
// History.
// ---------------------------------------------------------------------------------------------

/// How many messages there are with a contact.
pub open spec fn count(s: Seq<MessageView>, contact_id: Seq<char>) -> nat {
    s.filter(|m: MessageView| m.contact_id == contact_id).len()
}

proof fn counts(s: Seq<MessageView>, contact_id: Seq<char>)
    ensures
        messages::count_of(s, contact_id) == count(s, contact_id),
{
    assert(messages::of_contact(contact_id) =~= |m: MessageView| m.contact_id == contact_id);
}

proof fn newest_is_part(s: Seq<MessageView>)
    ensures
        forall|m: MessageView| messages::newest(s).contains(m) ==> #[trigger] s.contains(m),
    decreases s.len(),
{
    if s.len() > 0 {
        let rest = s.drop_first();
        newest_is_part(rest);
        assert forall|m: MessageView| messages::newest(s).contains(m) implies #[trigger] s.contains(
            m,
        ) by {
            let all = messages::newest(s);
            let j = choose|j: int| 0 <= j < all.len() && all[j] == m;
            if m != s[0] {
                let before = messages::newest(rest);
                if all != before {
                    assert(before[j - 1] == m);
                }
                assert(before.contains(m));
                assert(rest.contains(m));
                let k = choose|k: int| 0 <= k < rest.len() && rest[k] == m;
                assert(s[k + 1] == m);
            } else {
                assert(s[0] == m);
            }
        }
    }
}

proof fn count_of_rest(s: Seq<MessageView>, c: Seq<char>)
    requires
        s.len() > 0,
    ensures
        messages::count_of(s, c) == messages::count_of(s.drop_first(), c) + if s[0].contact_id == c {
            1nat
        } else {
            0nat
        },
{
    let p = messages::of_contact(c);
    filter_from_the_front(s, p);
}

proof fn filter_from_the_front<A>(s: Seq<A>, p: spec_fn(A) -> bool)
    requires
        s.len() > 0,
    ensures
        s.filter(p) == (if p(s[0]) {
            seq![s[0]]
        } else {
            Seq::<A>::empty()
        }) + s.drop_first().filter(p),
    decreases s.len(),
{
    let head = if p(s[0]) {
        seq![s[0]]
    } else {
        Seq::<A>::empty()
    };
    if s.len() == 1 {
        seqs::filter_empty(s.drop_first(), p);
        let none = Seq::<A>::empty();
        seqs::filter_empty(none, p);
        assert(s =~= none.push(s[0]));
        seqs::filter_push(none, s[0], p);
        assert(s.filter(p) =~= head + s.drop_first().filter(p));
    } else {
        let t = s.drop_last();
        filter_from_the_front(t, p);
        assert(s =~= t.push(s.last()));
        seqs::filter_push(t, s.last(), p);
        let rest = s.drop_first();
        assert(rest =~= t.drop_first().push(s.last()));
        seqs::filter_push(t.drop_first(), s.last(), p);
        assert(s.filter(p) =~= head + rest.filter(p));
    }
}

proof fn few_are_all_kept(s: Seq<MessageView>, m: MessageView)
    requires
        s.contains(m),
        messages::count_of(s, m.contact_id) <= messages::MAX_MESSAGES_PER_CONTACT,
    ensures
        messages::newest(s).contains(m),
    decreases s.len(),
{
    let rest = s.drop_first();
    let c = m.contact_id;
    count_of_rest(s, c);
    let j = choose|j: int| 0 <= j < s.len() && s[j] == m;
    let all = messages::newest(s);
    if j == 0 {
        assert(all[0] == m);
    } else {
        assert(rest[j - 1] == m);
        few_are_all_kept(rest, m);
        let before = messages::newest(rest);
        let k = choose|k: int| 0 <= k < before.len() && before[k] == m;
        if all == before {
            assert(all[k] == m);
        } else {
            assert(all[k + 1] == m);
        }
    }
}

proof fn dropped_are_no_newer(s: Seq<MessageView>, m: MessageView, k: MessageView)
    requires
        messages::ordered(s),
        s.contains(m),
        !messages::newest(s).contains(m),
        messages::newest(s).contains(k),
        k.contact_id == m.contact_id,
    ensures
        !messages::before(k, m),
    decreases s.len(),
{
    let rest = s.drop_first();
    let all = messages::newest(s);
    let before = messages::newest(rest);
    newest_is_part(rest);
    assert(messages::ordered(rest)) by {
        assert forall|i: int, j: int| 0 <= i < j < rest.len() implies !messages::before(
            #[trigger] rest[j],
            #[trigger] rest[i],
        ) by {
            assert(!messages::before(s[j + 1], s[i + 1]));
        }
    }
    let a = choose|a: int| 0 <= a < s.len() && s[a] == m;
    let b = choose|b: int| 0 <= b < all.len() && all[b] == k;
    if messages::count_of(rest, s[0].contact_id) < messages::MAX_MESSAGES_PER_CONTACT {
        assert(all == seq![s[0]] + before);
        assert(all[0] == s[0]);
        assert(a > 0);
        assert(rest[a - 1] == m);
        assert(!before.contains(m)) by {
            if before.contains(m) {
                let n = choose|n: int| 0 <= n < before.len() && before[n] == m;
                assert(all[n + 1] == m);
            }
        }
        if b == 0 {
            few_are_all_kept(rest, m);
        } else {
            assert(before[b - 1] == k);
            dropped_are_no_newer(rest, m, k);
        }
    } else {
        assert(all == before);
        assert(before.contains(k));
        if a == 0 {
            assert(rest.contains(k));
            let n = choose|n: int| 0 <= n < rest.len() && rest[n] == k;
            assert(s[n + 1] == k);
            assert(!messages::before(s[n + 1], s[0]));
        } else {
            assert(rest[a - 1] == m);
            dropped_are_no_newer(rest, m, k);
        }
    }
}

/// A history is kept whole up to 10,000 messages for each contact. Of a contact with more, the
/// newest 10,000 are kept: none that is dropped is newer than one that stays. No message is made up.
pub proof fn only_the_oldest_messages_are_dropped(
    s: Seq<MessageView>,
    m: MessageView,
    k: MessageView,
    c: Seq<char>,
)
    requires
        s.contains(m),
    ensures
        count(messages::kept(s), c) == if count(s, c) <= 10_000 {
            count(s, c)
        } else {
            10_000
        },
        count(s, m.contact_id) <= 10_000 ==> messages::kept(s).contains(m),
        messages::kept(s).contains(k) ==> s.contains(k),
        !messages::kept(s).contains(m) && messages::kept(s).contains(k) && k.contact_id
            == m.contact_id ==> connection_laws::no_later(m, k),
        (forall|x: Seq<char>| #[trigger] count(s, x) <= 10_000) ==> messages::kept(s) == s,
{
    broadcast use vstd::seq_lib::group_to_multiset_ensures;

    let t = messages::in_order(s);
    messages::in_order_is_ordered(s);
    newest_is_part(t);
    counts(s, c);
    counts(messages::kept(s), c);
    counts(s, m.contact_id);
    sorting_keeps_counts(s, c);
    sorting_keeps_counts(s, m.contact_id);
    messages::newest_is_bounded(t, c);
    assert(s.to_multiset().contains(m));
    assert(t.to_multiset().contains(m));
    assert(t.contains(m));
    if messages::any_over(s) {
        if count(s, m.contact_id) <= 10_000 {
            few_are_all_kept(t, m);
        }
        if messages::kept(s).contains(k) {
            assert(t.contains(k));
            assert(t.to_multiset().contains(k));
            assert(s.to_multiset().contains(k));
            if !messages::kept(s).contains(m) && k.contact_id == m.contact_id {
                dropped_are_no_newer(t, m, k);
            }
        }
        let i = choose|i: int|
            0 <= i < s.len() && messages::count_of(s, (#[trigger] s[i]).contact_id)
                > messages::MAX_MESSAGES_PER_CONTACT;
        counts(s, s[i].contact_id);
    } else if count(s, c) > 10_000 {
        seqs::filter_members(s, messages::of_contact(c));
        let own = s.filter(messages::of_contact(c));
        assert(own.contains(own[0]));
        assert(s.contains(own[0]));
        let i = choose|i: int| 0 <= i < s.len() && s[i] == own[0];
        assert(messages::count_of(s, s[i].contact_id) > messages::MAX_MESSAGES_PER_CONTACT);
    }
}

proof fn placing_keeps_counts(s: Seq<MessageView>, m: MessageView, c: Seq<char>)
    ensures
        messages::count_of(messages::placed(s, m), c) == messages::count_of(s.push(m), c),
    decreases s.len(),
{
    let p = messages::of_contact(c);
    seqs::filter_push(s, m, p);
    if s.len() > 0 && messages::before(m, s.last()) {
        let t = s.drop_last();
        placing_keeps_counts(t, m, c);
        seqs::filter_push(t, m, p);
        seqs::filter_push(messages::placed(t, m), s.last(), p);
        assert(s =~= t.push(s.last()));
        seqs::filter_push(t, s.last(), p);
    }
}

proof fn sorting_keeps_counts(s: Seq<MessageView>, c: Seq<char>)
    ensures
        messages::count_of(messages::in_order(s), c) == messages::count_of(s, c),
    decreases s.len(),
{
    if s.len() > 0 {
        let t = s.drop_last();
        let p = messages::of_contact(c);
        sorting_keeps_counts(t, c);
        placing_keeps_counts(messages::in_order(t), s.last(), c);
        seqs::filter_push(messages::in_order(t), s.last(), p);
        assert(s =~= t.push(s.last()));
        seqs::filter_push(t, s.last(), p);
    }
}

// ---------------------------------------------------------------------------------------------
// Coming in.
// ---------------------------------------------------------------------------------------------

/// An envelope is for the first active route with its mailbox, or else for the profile.
pub proof fn envelopes_find_their_route(
    st: StoreView,
    mailbox_id: Seq<char>,
    server_id: Seq<char>,
    keys: RouteKeysView,
    m: int,
)
    ensures
        ({
            let r = inbound::receiving_route(st, mailbox_id, server_id, keys);
            let first = 0 <= m < st.local_routes.len() && st.local_routes[m].active
                && st.local_routes[m].mailbox_id == mailbox_id && forall|j: int|
                0 <= j < m ==> !((#[trigger] st.local_routes[j]).active
                    && st.local_routes[j].mailbox_id == mailbox_id);
            let none = forall|j: int|
                0 <= j < st.local_routes.len() ==> !((#[trigger] st.local_routes[j]).active
                    && st.local_routes[j].mailbox_id == mailbox_id);
            &&& first ==> r == Ok::<RouteView, Seq<char>>(st.local_routes[m])
            &&& none ==> (r is Ok <==> st.local_profile is Some)
            &&& none && r is Ok ==> r->Ok_0.mailbox_id == st.local_profile->0.mailbox_id
                && r->Ok_0.server_id == server_id
        }),
{
    let p = routes::serves(mailbox_id);
    seqs::find_spec(st.local_routes, p);
    if 0 <= m < st.local_routes.len() && st.local_routes[m].active
        && st.local_routes[m].mailbox_id == mailbox_id && forall|j: int|
        0 <= j < m ==> !((#[trigger] st.local_routes[j]).active && st.local_routes[j].mailbox_id
            == mailbox_id) {
        seqs::find_is(st.local_routes, p, m);
    }
    if forall|j: int|
        0 <= j < st.local_routes.len() ==> !((#[trigger] st.local_routes[j]).active
            && st.local_routes[j].mailbox_id == mailbox_id) {
        seqs::find_none(st.local_routes, p);
    }
}

/// The bytes in an envelope are those that its base64 text stands for, without their padding. Only
/// the first version of it is read.
pub proof fn envelopes_are_opened(w: WireView)
    ensures
        inbound::sealed_in(w) is Ok <==> w.v == 1 && encoding::b64_bytes(
            w.sealed_sender_b64,
            false,
        ) is Some,
        inbound::sealed_in(w) matches Ok(raw) ==> (encoding::b64_bytes(w.sealed_sender_b64, false)
            matches Some(bytes) && raw == padding::unpadded_or_same(bytes)),
{
}

/// There is no message with the id.
pub open spec fn new_message(s: Seq<MessageView>, id: Seq<char>) -> bool {
    forall|j: int| 0 <= j < s.len() ==> (#[trigger] s[j]).id != id
}

proof fn not_found(s: Seq<MessageView>, id: Seq<char>)
    ensures
        new_message(s, id) <==> seqs::find(s, inbound::message_is(id)) is None,
{
    let p = inbound::message_is(id);
    seqs::find_spec(s, p);
    if new_message(s, id) {
        seqs::find_none(s, p);
    }
    if seqs::find(s, p) is None {
        assert forall|j: int| 0 <= j < s.len() implies (#[trigger] s[j]).id != id by {
            assert(!p(s[j]));
        }
    }
}

/// The history before it is cut to size after a message came in.
pub open spec fn with_text(
    st: StoreView,
    d: DecryptedView,
    contact_id: Seq<char>,
    at_ms: u64,
) -> Seq<MessageView> {
    if d.kind == "text"@ {
        st.messages.push(
            MessageView {
                id: d.message_id,
                contact_id,
                mine: false,
                text: d.body,
                timestamp: d.sent_at_ms,
                received_at_ms: Some(at_ms),
                status: "received"@,
            },
        )
    } else {
        st.messages
    }
}

/// A message that came in before changes nothing. A new one is stored where it is a text, as it was
/// sent, under its contact; what is then to be done is told: a text is shown, a request to compare
/// routes is answered.
pub proof fn messages_are_absorbed_once(
    st: StoreView,
    d: DecryptedView,
    contact_id: Seq<char>,
    route: RouteView,
    f: FreshRouteView,
    at_ms: u64,
)
    ensures
        ({
            let (w, out) = inbound::absorbed(st, d, contact_id, route, f, at_ms);
            let stored = with_text(st, d, contact_id, at_ms);
            &&& out is Some <==> new_message(st.messages, d.message_id)
            &&& out is None ==> w == st
            &&& out matches Some(a) ==> {
                &&& w.messages == messages::kept(stored)
                &&& a.message == if d.kind == "text"@ {
                    Some(stored.last())
                } else {
                    None
                }
                &&& a.sync_ack == (d.kind == "route_sync"@)
                &&& a.sync == a.connect is Some
            }
            &&& w.signal_sessions == st.signal_sessions
            &&& w.used_opk_ids == st.used_opk_ids
            &&& w.server_trust_roots == st.server_trust_roots
            &&& w.private_servers == st.private_servers
            &&& w.default_server_url == st.default_server_url
            &&& w.local_profile == st.local_profile
            &&& w.local_kyber_prekey == st.local_kyber_prekey
            &&& w.previous_kyber_prekeys == st.previous_kyber_prekeys
        }),
{
    not_found(st.messages, d.message_id);
}

/// A new message is acted upon in full: invites whose replacement its sender knows are given up,
/// tokens that it acknowledges are ended and the relay is told so, and the route on which it came is
/// settled for its contact. Of the routes that come of this those stay that are in use, and a
/// contact changes only by its route.
pub proof fn messages_are_acted_upon_in_full(
    st: StoreView,
    d: DecryptedView,
    contact_id: Seq<char>,
    route: RouteView,
    f: FreshRouteView,
    at_ms: u64,
)
    requires
        new_message(st.messages, d.message_id),
    ensures
        ({
            let (w, out) = inbound::absorbed(st, d, contact_id, route, f, at_ms);
            let known = inbound::invites_retired(
                st.local_routes,
                d.acked_peer_sender_mailbox_id,
                at_ms,
            );
            let (ended, told) = inbound::tokens_retired(
                known,
                route.id,
                d.acked_peer_delivery_token_epoch,
                at_ms,
            );
            let (settled, connect) = inbound::route_settled(
                StoreView { local_routes: ended, ..st },
                route.id,
                contact_id,
                f,
                at_ms,
            );
            &&& out matches Some(a) && a.allowlist == told && a.connect == connect
            &&& w.local_routes == settled.local_routes.filter(
                |r: RouteView| connection_laws::listening(r, at_ms),
            )
            &&& w.contacts == settled.contacts
        }),
{
    not_found(st.messages, d.message_id);
    assert(routes::live_route(at_ms) =~= |r: RouteView| connection_laws::listening(r, at_ms));
}

/// The invites on the mailbox where a new message came in are spent: none is left. Other invites
/// stay until their time comes.
pub proof fn answered_invites_are_spent(
    st: StoreView,
    d: DecryptedView,
    contact_id: Seq<char>,
    route: RouteView,
    f: FreshRouteView,
    at_ms: u64,
    p: InviteView,
)
    requires
        new_message(st.messages, d.message_id),
        st.pending_invites.contains(p),
    ensures
        inbound::absorbed(
            st,
            d,
            contact_id,
            route,
            f,
            at_ms,
        ).0.pending_invites.contains(p) <==> p.mailbox_id != route.mailbox_id && p.expires_at_ms
            > at_ms,
{
    not_found(st.messages, d.message_id);
    let spent = inbound::invites_spent(st.pending_invites, route.mailbox_id, at_ms);
    seqs::filter_members(spent, routes::live_invite(at_ms));
    let j = choose|j: int| 0 <= j < st.pending_invites.len() && st.pending_invites[j] == p;
    if p.mailbox_id != route.mailbox_id {
        assert(spent[j] == p);
        assert(spent.contains(p));
    }
    if spent.contains(p) && p.expires_at_ms > at_ms {
        let n = choose|n: int| 0 <= n < spent.len() && spent[n] == p;
        assert(spent[n] == p);
    }
}

/// A route that answers an invite is replaced: the contact gets a fresh route at the same relay,
/// to be connected to, and the one of the invite is held until the contact knows the fresh one.
pub proof fn answered_invites_are_replaced(
    st: StoreView,
    contact_id: Seq<char>,
    f: FreshRouteView,
    at_ms: u64,
    m: int,
    i: int,
)
    requires
        0 <= m < st.local_routes.len(),
        connection_laws::is_route(st.local_routes, st.local_routes[m].id, m),
        st.local_routes[m].scope == "pending_invite"@,
        contact_laws::has_id(st.contacts, contact_id, i),
    ensures
        ({
            let (w, out) = inbound::route_settled(
                st,
                st.local_routes[m].id,
                contact_id,
                f,
                at_ms,
            );
            let r = st.local_routes[m];
            let n = st.local_routes.len() as int;
            &&& out matches Some(fresh)
            &&& contact_laws::made_for(fresh, f, r.server_url, "contact:"@ + contact_id, at_ms)
            &&& fresh.expires_at_ms is None
            &&& w.local_routes.len() == n + 1
            &&& w.local_routes[n] == fresh
            &&& w.local_routes[m] == (RouteView {
                scope: "retiring_invite:"@ + contact_id,
                replacement_route_id: Some(f.id),
                expires_at_ms: None,
                ..r
            })
            &&& forall|j: int|
                0 <= j < n && j != m ==> #[trigger] w.local_routes[j] == st.local_routes[j]
            &&& w.contacts == st.contacts.update(
                i,
                ContactView { local_route_id: Some(f.id), ..st.contacts[i] },
            )
            &&& (StoreView { local_routes: st.local_routes, contacts: st.contacts, ..w }) == st
        }),
{
    connection_laws::found_route(st.local_routes, st.local_routes[m].id);
    contact_laws::found_by_id(st.contacts, contact_id);
}

/// Any other route on which a contact writes becomes the contact's, for good, unless it is only
/// held for a while.
pub proof fn used_routes_become_the_contacts(
    st: StoreView,
    contact_id: Seq<char>,
    f: FreshRouteView,
    at_ms: u64,
    m: int,
)
    requires
        0 <= m < st.local_routes.len(),
        connection_laws::is_route(st.local_routes, st.local_routes[m].id, m),
        st.local_routes[m].scope != "pending_invite"@,
    ensures
        ({
            let (w, out) = inbound::route_settled(
                st,
                st.local_routes[m].id,
                contact_id,
                f,
                at_ms,
            );
            let r = st.local_routes[m];
            &&& out is None
            &&& w == (StoreView {
                local_routes: if contact_laws::only_held(r, contact_id) {
                    st.local_routes
                } else {
                    st.local_routes.update(
                        m,
                        RouteView {
                            scope: "contact:"@ + contact_id,
                            expires_at_ms: None,
                            ..r
                        },
                    )
                },
                ..st
            })
        }),
{
    connection_laws::found_route(st.local_routes, st.local_routes[m].id);
    contact_laws::prefix_of(st.local_routes[m].scope, "retiring_invite:"@);
}

/// The route of an invite is given up once its contact shows that it knows the mailbox of the route
/// that replaces it; all other routes stay as they are.
pub proof fn replaced_invites_are_given_up(
    s: Seq<RouteView>,
    acked: Option<Seq<char>>,
    at_ms: u64,
    i: int,
)
    requires
        0 <= i < s.len(),
        connection_laws::is_route(s, s[i].id, i),
        forall|a: int, b: int| 0 <= a < b < s.len() ==> (#[trigger] s[a]).id != (#[trigger] s[b]).id,
    ensures
        ({
            let w = inbound::invites_retired(s, acked, at_ms);
            let over = acked is Some && "retiring_invite:"@.is_prefix_of(s[i].scope)
                && s[i].replacement_route_id is Some && exists|m: int|
                0 <= m < s.len() && Some((#[trigger] s[m]).id) == s[i].replacement_route_id
                    && s[m].mailbox_id == acked->0;
            &&& w.len() == s.len()
            &&& w[i] == if over {
                connection_laws::out_of_use(s[i], at_ms)
            } else {
                s[i]
            }
        }),
{
    contact_laws::prefix_of(s[i].scope, "retiring_invite:"@);
    if let Some(mailbox) = acked {
        let p = inbound::replacement_known(s, mailbox);
        seqs::filter_members(s, p);
        let over = s.filter(p);
        let ids = inbound::ids_of(over);
        if let Some(id) = s[i].replacement_route_id {
            connection_laws::found_route(s, id);
            seqs::find_spec(s, routes::route_is(id));
        }
        assert(s.contains(s[i]));
        if p(s[i]) {
            assert(over.contains(s[i]));
            let j = choose|j: int| 0 <= j < over.len() && over[j] == s[i];
            assert(ids[j] == s[i].id);
        }
        if ids.contains(s[i].id) {
            let j = choose|j: int| 0 <= j < ids.len() && ids[j] == s[i].id;
            assert(over[j].id == s[i].id);
            assert(over.contains(over[j]));
            assert(s.contains(over[j]));
            let n = choose|n: int| 0 <= n < s.len() && s[n] == over[j];
            assert(n == i) by {
                if n < i {
                    assert(s[n].id != s[i].id);
                } else if i < n {
                    assert(s[i].id != s[n].id);
                }
            }
        }
        if let Some(id) = s[i].replacement_route_id {
            if exists|m: int|
                0 <= m < s.len() && Some((#[trigger] s[m]).id) == s[i].replacement_route_id
                    && s[m].mailbox_id == acked->0 {
                let m = choose|m: int|
                    0 <= m < s.len() && Some((#[trigger] s[m]).id) == s[i].replacement_route_id
                        && s[m].mailbox_id == acked->0;
                assert(connection_laws::is_route(s, id, m)) by {
                    assert forall|j: int| 0 <= j < m implies (#[trigger] s[j]).id != id by {
                        assert(s[j].id != s[m].id);
                    }
                }
            }
        }
    }
}

// ---------------------------------------------------------------------------------------------
// Leaving.
// ---------------------------------------------------------------------------------------------

/// A text is sent without the space around it, where anything is left of it. Nothing over 16 KiB is
/// sent. Other messages are sent as they are.
pub proof fn texts_leave_trimmed(kind: Seq<char>, body: Seq<char>)
    ensures
        ({
            let t = if kind == "text"@ {
                text::trimmed(body)
            } else {
                body
            };
            outbound::outgoing(kind, body) == if kind == "text"@ && t.len() == 0 {
                Err::<Seq<char>, Seq<char>>("message is empty"@)
            } else if text::byte_len(t) > 16_384 {
                Err::<Seq<char>, Seq<char>>("message too large for text MVP"@)
            } else {
                Ok::<Seq<char>, Seq<char>>(t)
            }
        }),
{
}

/// A message to a contact that is not blocked is planned: for the contact as it is stored, to be
/// answered on its route of this side. A blocked contact gets none, and nothing changes.
pub proof fn messages_are_planned_for_contacts_in_good_standing(
    st: StoreView,
    contact_id: Seq<char>,
    f: FreshRouteView,
    now_ms: u64,
    i: int,
)
    ensures
        contact_laws::unknown_id(st.contacts, contact_id) ==> outbound::planned(
            st,
            contact_id,
            f,
            now_ms,
        ) == (st, Err::<SendPlanView, Seq<char>>("contact not found"@)),
        contact_laws::has_id(st.contacts, contact_id, i) ==> {
            let (w, r) = outbound::planned(st, contact_id, f, now_ms);
            let c = st.contacts[i];
            &&& r is Ok <==> c.trust_state != "identity_changed_blocked"@
            &&& r is Err ==> w == st
            &&& r matches Ok(p) ==> {
                &&& p.contact == c
                &&& (w, p.return_route) == routes::ensured_route(
                    st,
                    contact_id,
                    c.server_url,
                    f,
                    now_ms,
                )
                &&& p.sender_route == routes::sender_route(w, contact_id, p.return_route)
            }
        },
{
    contact_laws::found_by_id(st.contacts, contact_id);
}

/// A message is sent with a certificate only where the relay's trust root is the pinned one and the
/// route to send from is still the one that the certificate was asked for.
pub proof fn certificates_are_used_on_their_own_route(
    st: StoreView,
    first: SendPlanView,
    root: Seq<char>,
    f: FreshRouteView,
    now_ms: u64,
)
    ensures
        ({
            let (w, r) = outbound::planned_with_certificate(st, first, root, f, now_ms);
            let id = first.sender_route.server_id;
            let known = st.server_trust_roots.contains_key(id);
            let s = StoreView {
                server_trust_roots: st.server_trust_roots.insert(id, root),
                ..routes::cleaned(st, now_ms)
            };
            let good = text::trimmed(root).len() > 0 && (known ==> st.server_trust_roots[id]
                == root);
            let again = outbound::planned(s, first.contact.id, f, now_ms);
            &&& !good ==> r is Err && w == routes::cleaned(st, now_ms)
            &&& good ==> w == again.0
            &&& r is Ok <==> good && again.1 is Ok && again.1->Ok_0.sender_route.id
                == first.sender_route.id
            &&& r is Ok ==> r == again.1
        }),
{
    let id = first.sender_route.server_id;
    if st.server_trust_roots.contains_key(id) && st.server_trust_roots[id] == root {
        assert(st.server_trust_roots.insert(id, root) =~= st.server_trust_roots);
    }
}

/// A session is given up only where a fresh start was asked for and the contact's prekeys allow
/// one; then only the session with this contact goes.
pub proof fn sessions_are_reset_on_demand(st: StoreView, c: ContactView, force_prekey: bool)
    ensures
        outbound::session_reset(st, c, force_prekey) == (StoreView {
            signal_sessions: if force_prekey && contact_laws::can_be_moved(c) {
                st.signal_sessions.remove(
                    c.recipient_id + ":"@ + text::decimal(c.device_id as nat),
                )
            } else {
                st.signal_sessions
            },
            ..st
        }),
{
}

/// There is a session with a contact exactly where one is stored for its mailbox and its device.
pub proof fn sessions_are_found_by_mailbox_and_device(
    all: Seq<(Seq<char>, SessionView)>,
    recipient_id: Seq<char>,
    device_id: u32,
)
    ensures
        seqs::find(all, outbound::session_with(recipient_id, device_id)) is Some <==> exists|i: int|
            0 <= i < all.len() && (#[trigger] all[i]).1.address_name == recipient_id
                && all[i].1.device_id == device_id,
{
    let p = outbound::session_with(recipient_id, device_id);
    seqs::find_spec(all, p);
    if exists|i: int|
        0 <= i < all.len() && (#[trigger] all[i]).1.address_name == recipient_id
            && all[i].1.device_id == device_id {
        let i = choose|i: int|
            0 <= i < all.len() && (#[trigger] all[i]).1.address_name == recipient_id
                && all[i].1.device_id == device_id;
        assert(p(all[i]));
    }
}

/// A first message is encrypted for exactly the prekeys that are stored of the contact, each the
/// bytes that its base64 text stands for, and only where identity, signed prekey and Kyber prekey
/// are there and all of them can be read.
pub proof fn first_messages_use_the_stored_prekeys(c: ContactView)
    ensures
        ({
            let r = outbound::first_contact(c);
            let identity = encoding::b64_bytes(c.identity_public_b64, false);
            let spk = encoding::b64_bytes(c.signed_prekey_public_b64, false);
            let sig = encoding::b64_bytes(c.signed_prekey_signature_b64, false);
            let has_opk = c.opk_id is Some && c.opk_public_b64 is Some;
            let opk = encoding::b64_bytes(c.opk_public_b64->0, false);
            let kyber = encoding::b64_bytes(c.kyber_prekey_public_b64->0, false);
            let kyber_sig = encoding::b64_bytes(c.kyber_prekey_signature_b64->0, false);
            &&& r is Ok <==> c.identity_public_b64.len() > 0 && c.signed_prekey_public_b64.len()
                > 0 && identity is Some && spk is Some && sig is Some && (has_opk
                ==> opk is Some) && c.kyber_prekey_id is Some && c.kyber_prekey_public_b64 is Some
                && c.kyber_prekey_signature_b64 is Some && kyber is Some && kyber_sig is Some
            &&& r matches Ok(b) ==> {
                &&& b.registration_id == c.registration_id && b.device_id == c.device_id
                &&& Some(b.identity) == identity
                &&& b.signed_prekey_id == c.signed_prekey_id
                &&& Some(b.signed_prekey) == spk && Some(b.signed_prekey_signature) == sig
                &&& b.opk is Some <==> has_opk
                &&& b.opk matches Some(o) ==> Some(o.id) == c.opk_id && Some(o.public_key) == opk
                &&& Some(b.kyber_prekey_id) == c.kyber_prekey_id
                &&& Some(b.kyber_prekey) == kyber && Some(b.kyber_prekey_signature) == kyber_sig
            }
        }),
{
}

/// A one-time key is used for one message: afterwards the contact has none, and is otherwise as it
/// was.
pub proof fn one_time_keys_are_used_once(cs: Seq<ContactView>, contact_id: Seq<char>, i: int)
    ensures
        contact_laws::has_id(cs, contact_id, i) ==> outbound::opk_spent(cs, contact_id)
            == cs.update(i, ContactView { opk_id: None, opk_public_b64: None, ..cs[i] }),
        contact_laws::unknown_id(cs, contact_id) ==> outbound::opk_spent(cs, contact_id) == cs,
{
    contact_laws::found_by_id(cs, contact_id);
}

/// A message that was sent is the user's own, with the text and time it was sent with. Its status
/// says what became of it: waiting at the relay, passed on by it, or not sent. No other message
/// changes.
pub proof fn sent_messages_show_what_became_of_them(
    st: StoreView,
    id: Seq<char>,
    contact_id: Seq<char>,
    body: Seq<char>,
    at_ms: u64,
    accepted: Option<bool>,
)
    requires
        new_message(st.messages, id),
    ensures
        ({
            let m = outbound::outgoing_message(id, contact_id, body, at_ms);
            let stored = StoreView { messages: st.messages.push(m), ..st };
            let status = match accepted {
                Some(true) => "relay_queued"@,
                Some(false) => "relay_received"@,
                None => "send_failed"@,
            };
            &&& m == (MessageView {
                id,
                contact_id,
                mine: true,
                text: body,
                timestamp: at_ms,
                received_at_ms: None,
                status: "relay_pending"@,
            })
            &&& outbound::sent(stored, m, accepted) == (
                StoreView { messages: st.messages.push(MessageView { status, ..m }), ..st },
                MessageView { status, ..m },
            )
            &&& outbound::restated(stored, id, accepted) == (
                StoreView { messages: st.messages.push(MessageView { status, ..m }), ..st },
                Some(MessageView { status, ..m }),
            )
        }),
{
    not_found(st.messages, id);
    outbound::sent_messages_are_stored_once(st, id, contact_id, body, at_ms, accepted);
    let m = outbound::outgoing_message(id, contact_id, body, at_ms);
    let all = st.messages.push(m);
    let p = outbound::own_message(id);
    assert forall|j: int| 0 <= j < st.messages.len() implies !p(#[trigger] all[j]) by {
        assert(st.messages[j].id != id);
    }
    seqs::find_is(all, p, st.messages.len() as int);
}

// ---------------------------------------------------------------------------------------------
// Order, acknowledgements and kinds.
// ---------------------------------------------------------------------------------------------

/// The first text stands before the second in a dictionary, or is the same: they are alike up to
/// where the first ends, or up to a character that is smaller in the first.
pub open spec fn no_greater(a: Seq<char>, b: Seq<char>) -> bool {
    exists|p: int| #[trigger] alike_up_to(a, b, p)
}

/// The texts are alike up to a place where the first ends or has the smaller character.
pub open spec fn alike_up_to(a: Seq<char>, b: Seq<char>, p: int) -> bool {
    &&& 0 <= p <= a.len() && p <= b.len()
    &&& forall|i: int| 0 <= i < p ==> a[i] == b[i]
    &&& p == a.len() || (p < b.len() && a[p] < b[p])
}

proof fn dictionary_order(a: Seq<char>, b: Seq<char>)
    requires
        !messages::text_before(b, a),
    ensures
        no_greater(a, b),
    decreases a.len(),
{
    if a.len() == 0 {
        assert(alike_up_to(a, b, 0));
    } else if b.len() > 0 {
        if a[0] == b[0] {
            let x = a.drop_first();
            let y = b.drop_first();
            dictionary_order(x, y);
            let p = choose|p: int| #[trigger] alike_up_to(x, y, p);
            assert(alike_up_to(a, b, p + 1)) by {
                assert forall|i: int| 0 <= i < p + 1 implies a[i] == b[i] by {
                    if i > 0 {
                        assert(x[i - 1] == y[i - 1]);
                    }
                }
                if p < x.len() {
                    assert(a[p + 1] == x[p] && b[p + 1] == y[p]);
                }
            }
        } else {
            assert(alike_up_to(a, b, 0));
        }
    }
}

/// Sorting keeps exactly the messages that there are, puts them in the order of their contacts, and
/// puts the earlier of two messages with a contact first.
pub proof fn sorting_puts_earlier_messages_first(s: Seq<MessageView>, a: int, b: int)
    requires
        0 <= a < b < messages::in_order(s).len(),
    ensures
        messages::in_order(s).to_multiset() == s.to_multiset(),
        no_greater(messages::in_order(s)[a].contact_id, messages::in_order(s)[b].contact_id),
        messages::in_order(s)[a].contact_id == messages::in_order(s)[b].contact_id
            ==> connection_laws::no_later(messages::in_order(s)[a], messages::in_order(s)[b]),
{
    messages::in_order_is_ordered(s);
    let t = messages::in_order(s);
    assert(!messages::before(t[b], t[a]));
    if t[a].contact_id == t[b].contact_id {
        assert(alike_up_to(t[a].contact_id, t[b].contact_id, t[a].contact_id.len() as int));
    } else {
        dictionary_order(t[a].contact_id, t[b].contact_id);
    }
}

/// An acknowledgement of tokens on a route changes that route alone. Where it ends the acceptance
/// of any token, the relay is told of all that are still accepted.
pub proof fn acknowledgements_reach_the_relay(
    s: Seq<RouteView>,
    route_id: Seq<char>,
    acked: Option<u64>,
    at_ms: u64,
    m: int,
)
    requires
        connection_laws::is_route(s, route_id, m),
    ensures
        ({
            let (w, told) = inbound::tokens_retired(s, route_id, acked, at_ms);
            let after = routes::acknowledged(s[m], acked, at_ms);
            let dated = routes::with_dates(s[m], at_ms);
            let fewer = after.pending_token_retirements.len()
                != dated.pending_token_retirements.len();
            &&& told is Some <==> fewer
            &&& w == if fewer {
                s.update(m, after)
            } else {
                s
            }
            &&& told matches Some(a) ==> a.connection_id == s[m].server_id + "__"@
                + s[m].mailbox_id && a.tokens == routes::allowlist(after)
        }),
{
    connection_laws::found_route(s, route_id);
    let d = routes::with_dates(s[m], at_ms);
    assert(routes::with_dates(d, at_ms).pending_token_retirements
        =~= d.pending_token_retirements);
}

/// The ids of routes that are given up take exactly these out of use.
pub proof fn named_routes_are_given_up(
    s: Seq<RouteView>,
    ids: Seq<Seq<char>>,
    at_ms: u64,
    i: int,
)
    requires
        0 <= i < s.len(),
    ensures
        inbound::with_given_up(s, ids, at_ms).len() == s.len(),
        inbound::with_given_up(s, ids, at_ms)[i] == if ids.contains(s[i].id) {
            connection_laws::out_of_use(s[i], at_ms)
        } else {
            s[i]
        },
{
}

/// A sealed message is put on the wire in base64, in the first version of its form.
pub proof fn sealed_messages_are_wrapped(padded: Seq<u8>)
    ensures
        inbound::wire_of(padded).v == 1,
        encoding::b64_bytes(inbound::wire_of(padded).sealed_sender_b64, false) == Some(padded),
{
    encoding::b64_round_trip(padded, false);
}

/// Only messages of the two kinds of a Signal session are read.
pub proof fn only_session_messages_are_read()
    ensures
        senders::kind_name(CiphertextKind::PreKey) == Ok::<Seq<char>, Seq<char>>("prekey_signal"@),
        senders::kind_name(CiphertextKind::Whisper) == Ok::<Seq<char>, Seq<char>>("signal"@),
        senders::kind_name(CiphertextKind::SenderKey) is Err,
        senders::kind_name(CiphertextKind::Plaintext) is Err,
{
}

} // verus!
