//! What holds of routes whatever happens to them.
use crate::connections;
use crate::contacts;
use crate::messages;
use crate::routes;
use crate::routes::FreshRouteView;
use crate::seqs;
use crate::store::ContactView;
use crate::store::RouteView;
use crate::store::StoreView;
use crate::text;
use crate::urls;
use vstd::prelude::*;

verus! {

proof fn filter_of_filter<A>(s: Seq<A>, p: spec_fn(A) -> bool, q: spec_fn(A) -> bool, same: bool)
    requires
        same ==> forall|x: A| #[trigger] p(x) ==> q(x),
        !same ==> forall|x: A| #[trigger] p(x) ==> !q(x),
    ensures
        s.filter(p).filter(q) == if same {
            s.filter(p)
        } else {
            Seq::<A>::empty()
        },
    decreases s.len(),
{
    if s.len() == 0 {
        seqs::filter_empty(s, p);
        seqs::filter_empty(s.filter(p), q);
        assert(s.filter(p) =~= Seq::<A>::empty());
    } else {
        let t = s.drop_last();
        filter_of_filter(t, p, q, same);
        assert(s =~= t.push(s.last()));
        seqs::filter_push(t, s.last(), p);
        seqs::filter_push(t.filter(p), s.last(), q);
    }
}

/// Cleaning up a store that was just cleaned up changes nothing.
pub proof fn cleaning_twice_is_cleaning_once(st: StoreView, now_ms: u64)
    ensures
        routes::cleaned(routes::cleaned(st, now_ms), now_ms) == routes::cleaned(st, now_ms),
{
    let c = routes::cleaned(st, now_ms);
    let live = routes::live_route(now_ms);
    let dead = routes::dead_route(now_ms);
    filter_of_filter(st.pending_invites, routes::live_invite(now_ms), routes::live_invite(now_ms), true);
    filter_of_filter(st.local_routes, live, live, true);
    filter_of_filter(st.local_routes, live, dead, false);
    let kept = c.messages;
    assert forall|m: Seq<char>| #[trigger] messages::count_of(kept, m)
        <= messages::MAX_MESSAGES_PER_CONTACT by {
        messages::kept_messages_are_bounded(st.messages, m);
    }
    messages::small_histories_are_untouched(kept);
}

proof fn retires_contain(retires: Seq<RouteView>, more: Seq<RouteView>, r: RouteView)
    requires
        seqs::any(retires, routes::same_mailbox(r)) || (more.contains(r) && text::has_prefix(
            r.mailbox_id,
            "mbx_"@,
        )),
    ensures
        seqs::any(routes::with_retires(retires, more), routes::same_mailbox(r)),
    decreases more.len(),
{
    let p = routes::same_mailbox(r);
    if more.len() > 0 {
        let front = more.drop_last();
        let x = more.last();
        let before = routes::with_retires(retires, front);
        let after = routes::with_retires(retires, more);
        if seqs::any(retires, p) || front.contains(r) {
            retires_contain(retires, front, r);
            let i = choose|i: int| 0 <= i < before.len() && p(#[trigger] before[i]);
            assert(after[i] == before[i]);
            assert(p(after[i]));
        } else {
            let k = choose|k: int| 0 <= k < more.len() && more[k] == r;
            if k < front.len() {
                assert(front[k] == r);
            }
            assert(x == r);
            if seqs::any(before, routes::same_mailbox(x)) {
                assert(after == before);
            } else {
                assert(after[after.len() - 1] == r);
                assert(p(after[after.len() - 1]));
            }
        }
    }
}

/// No mailbox is forgotten: a route that cleaning up drops is noted for its relay.
pub proof fn dropped_routes_are_noted(st: StoreView, now_ms: u64, r: RouteView)
    requires
        st.local_routes.contains(r),
        text::has_prefix(r.mailbox_id, "mbx_"@),
    ensures
        routes::cleaned(st, now_ms).local_routes.contains(r) || seqs::any(
            routes::cleaned(st, now_ms).pending_relay_retires,
            routes::same_mailbox(r),
        ),
{
    let live = routes::live_route(now_ms);
    let dead = routes::dead_route(now_ms);
    seqs::filter_members(st.local_routes, live);
    seqs::filter_members(st.local_routes, dead);
    if !live(r) {
        assert(dead(r));
        let gone = st.local_routes.filter(dead);
        assert(gone.contains(r));
        retires_contain(st.pending_relay_retires, gone, r);
    } else {
        assert(st.local_routes.filter(live).contains(r));
    }
}

/// The routes that are left after cleaning up are active and their time has not come.
pub proof fn cleaned_routes_are_live(st: StoreView, now_ms: u64, i: int)
    requires
        0 <= i < routes::cleaned(st, now_ms).local_routes.len(),
    ensures
        routes::live_route(now_ms)(routes::cleaned(st, now_ms).local_routes[i]),
{
    seqs::filter_members(st.local_routes, routes::live_route(now_ms));
}

/// The contact that an identifier finds.
pub open spec fn contact_of(st: StoreView, id: Seq<char>) -> Option<ContactView> {
    seqs::first_where(st.contacts, routes::contact_is(id))
}

proof fn contact_after_route(contacts: Seq<ContactView>, id: Seq<char>, route_id: Seq<char>)
    requires
        seqs::find(contacts, routes::contact_is(id)) is Some,
    ensures
        ({
            let i = seqs::find(contacts, routes::contact_is(id))->0;
            let after = routes::with_contact_route(contacts, id, route_id);
            &&& 0 <= i < contacts.len()
            &&& seqs::find(after, routes::contact_is(id)) == Some(i)
            &&& after[i].local_route_id == Some(route_id)
            &&& after.len() == contacts.len()
        }),
{
    let p = routes::contact_is(id);
    seqs::find_spec(contacts, p);
    let i = seqs::find(contacts, p)->0;
    let after = routes::with_contact_route(contacts, id, route_id);
    assert(p(after[i]));
    assert forall|j: int| 0 <= j < i implies !p(#[trigger] after[j]) by {
        assert(after[j] == contacts[j]);
    }
    seqs::find_is(after, p, i);
}

/// The certificate key pair of the route is there.
pub open spec fn has_cert_keys(r: RouteView) -> bool {
    !text::blank(r.sealed_sender_cert_public_b64) && !text::blank(r.sealed_sender_cert_private_b64)
}

/// The fresh certificate key pair is there.
pub open spec fn has_fresh_keys(f: FreshRouteView) -> bool {
    !text::blank(f.keys.public_b64) && !text::blank(f.keys.private_b64)
}

/// Asking for the route of a contact leaves the contact with an active route without an end at
/// the relay that was asked for, with a certificate key pair, and hands out that very route.
pub proof fn contacts_get_a_route(
    st: StoreView,
    id: Seq<char>,
    server_url: Seq<char>,
    f: FreshRouteView,
    now_ms: u64,
)
    requires
        contact_of(st, id) is Some,
    ensures
        ({
            let (w, r) = routes::ensured_route(st, id, server_url, f, now_ms);
            &&& contact_of(w, id) matches Some(c) && c.local_route_id == Some(r.id)
            &&& w.local_routes.contains(r)
            &&& r.active && r.expires_at_ms is None
            &&& r.server_url == crate::urls::normalized(server_url)
            &&& has_fresh_keys(f) ==> has_cert_keys(r)
        }),
{
    let s1 = routes::cleaned(st, now_ms);
    let url = crate::urls::normalized(server_url);
    let (w, r) = routes::ensured_route(st, id, server_url, f, now_ms);
    crate::urls::normalized_twice(server_url);
    match routes::current_route(s1, id) {
        Some(i) if s1.local_routes[i].server_url == url && s1.local_routes[i].active => {
            let c = contact_of(s1, id)->0;
            let rid = c.local_route_id->0;
            seqs::find_spec(s1.local_routes, routes::route_is(rid));
            assert(w.local_routes[i] == r);
            assert(r.id == rid);
        },
        _ => {
            let s2 = routes::route_given_up(s1, id, now_ms);
            assert(s2.contacts == st.contacts);
            contact_after_route(st.contacts, id, r.id);
            assert(w.local_routes[w.local_routes.len() - 1] == r);
        },
    }
}

proof fn first_of_filtered<A>(s: Seq<A>, p: spec_fn(A) -> bool, q: spec_fn(A) -> bool, i: int)
    requires
        seqs::is_first(s, p, i),
        q(s[i]),
    ensures
        seqs::first_where(s.filter(q), p) == Some(s[i]),
    decreases s.len(),
{
    let t = s.drop_last();
    let f = t.filter(q);
    assert(s =~= t.push(s.last()));
    seqs::filter_push(t, s.last(), q);
    seqs::filter_members(t, q);
    if i < t.len() {
        assert(seqs::is_first(t, p, i));
        first_of_filtered(t, p, q, i);
        seqs::find_spec(f, p);
        let k = seqs::find(f, p)->0;
        let after = s.filter(q);
        assert forall|j: int| 0 <= j < k implies !p(#[trigger] after[j]) by {
            assert(after[j] == f[j]);
        }
        assert(after[k] == f[k]);
        seqs::find_is(after, p, k);
    } else {
        let after = s.filter(q);
        assert(after == f.push(s.last()));
        assert forall|j: int| 0 <= j < f.len() implies !p(#[trigger] after[j]) by {
            assert(after[j] == f[j]);
            assert(f.contains(f[j]));
            assert(t.contains(f[j]));
            let m = choose|m: int| 0 <= m < t.len() && t[m] == f[j];
            assert(s[m] == t[m]);
        }
        seqs::find_is(after, p, f.len() as int);
    }
}

/// Asking again for the route of a contact at the same relay, whenever that is, hands out the same
/// route, adds none and leaves the contacts as they are.
pub proof fn contacts_keep_their_route(
    st: StoreView,
    id: Seq<char>,
    server_url: Seq<char>,
    f: FreshRouteView,
    now_ms: u64,
    again: FreshRouteView,
    later_ms: u64,
)
    requires
        contact_of(st, id) is Some,
        forall|i: int| 0 <= i < st.local_routes.len() ==> (#[trigger] st.local_routes[i]).id
            != f.id,
    ensures
        ({
            let (w, r) = routes::ensured_route(st, id, server_url, f, now_ms);
            let (w2, r2) = routes::ensured_route(w, id, server_url, again, later_ms);
            &&& r2 == routes::with_cert_keys(r, again.keys)
            &&& has_fresh_keys(f) ==> r2 == r
            &&& w2.local_routes.len() <= w.local_routes.len()
            &&& has_fresh_keys(f) ==> forall|x: RouteView| #[trigger]
                w2.local_routes.contains(x) ==> w.local_routes.contains(x)
            &&& w2.contacts == w.contacts
        }),
{
    contacts_get_a_route(st, id, server_url, f, now_ms);
    let s1 = routes::cleaned(st, now_ms);
    let url = urls::normalized(server_url);
    let (w, r) = routes::ensured_route(st, id, server_url, f, now_ms);
    urls::normalized_twice(server_url);
    let live = routes::live_route(later_ms);
    let p = routes::route_is(r.id);
    seqs::filter_members(st.local_routes, routes::live_route(now_ms));
    let i = match routes::current_route(s1, id) {
        Some(i) if s1.local_routes[i].server_url == url && s1.local_routes[i].active => {
            let rid = contact_of(s1, id)->0.local_route_id->0;
            seqs::find_spec(s1.local_routes, routes::route_is(rid));
            assert forall|j: int| 0 <= j < i implies !p(#[trigger] w.local_routes[j]) by {
                assert(w.local_routes[j] == s1.local_routes[j]);
            }
            i
        },
        _ => {
            let s2 = routes::route_given_up(s1, id, now_ms);
            let n = s2.local_routes.len() as int;
            assert forall|j: int| 0 <= j < n implies !p(#[trigger] w.local_routes[j]) by {
                assert(w.local_routes[j] == s2.local_routes[j]);
                assert(s2.local_routes[j].id == s1.local_routes[j].id);
                assert(s1.local_routes.contains(s1.local_routes[j]));
                assert(st.local_routes.contains(s1.local_routes[j]));
                let m = choose|m: int|
                    0 <= m < st.local_routes.len() && st.local_routes[m] == s1.local_routes[j];
            }
            n
        },
    };
    assert(w.local_routes[i] == r);
    first_of_filtered(w.local_routes, p, live, i);
    seqs::filter_members(w.local_routes, live);
    let s3 = routes::cleaned(w, later_ms);
    seqs::find_spec(s3.local_routes, p);
    let k = routes::current_route(s3, id)->0;
    let (w2, r2) = routes::ensured_route(w, id, server_url, again, later_ms);
    if has_fresh_keys(f) {
        assert(w2.local_routes =~= s3.local_routes);
    }
}

/// No two contacts have the same route.
pub open spec fn routes_unshared(contacts: Seq<ContactView>) -> bool {
    forall|i: int, j: int|
        0 <= i < contacts.len() && 0 <= j < contacts.len() && i != j && (
        #[trigger] contacts[i]).local_route_id is Some ==> contacts[i].local_route_id != (
        #[trigger] contacts[j]).local_route_id
}

/// Contacts do not come to share a route: the route of one is the one that it had, or a fresh
/// one.
pub proof fn routes_stay_unshared(
    st: StoreView,
    id: Seq<char>,
    server_url: Seq<char>,
    f: FreshRouteView,
    now_ms: u64,
)
    requires
        routes_unshared(st.contacts),
        forall|i: int| 0 <= i < st.contacts.len() ==> (#[trigger] st.contacts[i]).local_route_id
            != Some(f.id),
    ensures
        routes_unshared(routes::ensured_route(st, id, server_url, f, now_ms).0.contacts),
{
    let s1 = routes::cleaned(st, now_ms);
    let w = routes::ensured_route(st, id, server_url, f, now_ms).0;
    let s2 = routes::route_given_up(s1, id, now_ms);
    assert(s2.contacts == st.contacts);
    seqs::find_spec(st.contacts, routes::contact_is(id));
    if w.contacts != st.contacts {
        let k = seqs::find(st.contacts, routes::contact_is(id))->0;
        assert forall|i: int, j: int|
            0 <= i < w.contacts.len() && 0 <= j < w.contacts.len() && i != j && (
            #[trigger] w.contacts[i]).local_route_id is Some implies w.contacts[i].local_route_id
            != (#[trigger] w.contacts[j]).local_route_id by {
            if i == k {
                assert(w.contacts[j] == st.contacts[j]);
            } else if j == k {
                assert(w.contacts[i] == st.contacts[i]);
            } else {
                assert(w.contacts[i] == st.contacts[i]);
                assert(w.contacts[j] == st.contacts[j]);
            }
        }
    }
}

// ---------------------------------------------------------------------------------------------
// A route for each contact.
// ---------------------------------------------------------------------------------------------

/// No two contacts have the same id.
pub open spec fn distinct_contacts(cs: Seq<ContactView>) -> bool {
    forall|i: int, j: int|
        0 <= i < cs.len() && 0 <= j < cs.len() && i != j ==> (#[trigger] cs[i]).id != (
        #[trigger] cs[j]).id
}

/// No contact has the route.
pub open spec fn route_unused(cs: Seq<ContactView>, id: Seq<char>) -> bool {
    forall|i: int| 0 <= i < cs.len() ==> (#[trigger] cs[i]).local_route_id != Some(id)
}

/// A route with the id, at the relay, that is active and has no end.
pub open spec fn lasting_route(rs: Seq<RouteView>, k: int, id: Seq<char>, url: Seq<char>) -> bool {
    &&& 0 <= k < rs.len()
    &&& rs[k].id == id
    &&& rs[k].server_url == url
    &&& rs[k].active
    &&& rs[k].expires_at_ms is None
}

/// The contact has an active route without an end at its relay.
pub open spec fn has_route(rs: Seq<RouteView>, c: ContactView) -> bool {
    c.local_route_id matches Some(id) && exists|k: int| #[trigger]
        lasting_route(rs, k, id, urls::normalized(c.server_url))
}

proof fn found_by_id(cs: Seq<ContactView>, i: int)
    requires
        0 <= i < cs.len(),
        distinct_contacts(cs),
    ensures
        seqs::find(cs, routes::contact_is(cs[i].id)) == Some(i),
{
    seqs::find_is(cs, routes::contact_is(cs[i].id), i);
}

proof fn unshared_as_before(before: Seq<ContactView>, after: Seq<ContactView>)
    requires
        routes_unshared(before),
        after.len() == before.len(),
        forall|i: int|
            0 <= i < after.len() ==> (#[trigger] after[i]).local_route_id
                == before[i].local_route_id,
    ensures
        routes_unshared(after),
{
    assert forall|i: int, j: int|
        0 <= i < after.len() && 0 <= j < after.len() && i != j && (
        #[trigger] after[i]).local_route_id is Some implies after[i].local_route_id != (
    #[trigger] after[j]).local_route_id by {
        assert(before[i].local_route_id != before[j].local_route_id);
    }
}

/// An imported contact gets a route of its own: no other contact has it, and none comes to share
/// one.
pub proof fn imported_contacts_get_their_own_route(
    st: StoreView,
    c: ContactView,
    f: FreshRouteView,
    now_ms: u64,
)
    requires
        distinct_contacts(st.contacts),
        routes_unshared(st.contacts),
        route_unused(st.contacts, f.id),
        c.local_route_id is None,
        seqs::find(st.contacts, contacts::recipient_is(c.recipient_id)) is None ==> seqs::find(
            st.contacts,
            routes::contact_is(c.id),
        ) is None,
    ensures
        ({
            let (after, r) = contacts::added(st, c, f, now_ms);
            &&& routes_unshared(after.contacts)
            &&& r matches Ok(k) ==> after.contacts.contains(k) && has_route(after.local_routes, k)
        }),
{
    let s1 = routes::cleaned(st, now_ms);
    let (after, r) = contacts::added(st, c, f, now_ms);
    seqs::find_spec(st.contacts, contacts::recipient_is(c.recipient_id));
    match seqs::find(s1.contacts, contacts::recipient_is(c.recipient_id)) {
        Some(i) => {
            let e = s1.contacts[i];
            if r is Ok {
                let (s2, route) = routes::ensured_route(s1, e.id, c.server_url, f, now_ms);
                found_by_id(s1.contacts, i);
                contacts_get_a_route(s1, e.id, c.server_url, f, now_ms);
                routes_stay_unshared(s1, e.id, c.server_url, f, now_ms);
                routes::ensured_keeps_contacts(s1, e.id, c.server_url, f, now_ms);
                assert forall|a: int, b: int|
                    0 <= a < s2.contacts.len() && 0 <= b < s2.contacts.len() && a != b implies (
                #[trigger] s2.contacts[a]).id != (#[trigger] s2.contacts[b]).id by {
                    assert(s2.contacts[a].id == s1.contacts[a].id);
                    assert(s2.contacts[b].id == s1.contacts[b].id);
                }
                found_by_id(s2.contacts, i);
                assert(after.contacts[i] == r->Ok_0);
                assert(s2.contacts[i].id == e.id);
                assert(contact_of(s2, e.id) == Some(s2.contacts[i]));
                unshared_as_before(s2.contacts, after.contacts);
                let k = choose|k: int| 0 <= k < s2.local_routes.len() && s2.local_routes[k] == route;
                assert(lasting_route(
                    after.local_routes,
                    k,
                    r->Ok_0.local_route_id->0,
                    urls::normalized(r->Ok_0.server_url),
                ));
            } else {
                unshared_as_before(st.contacts, after.contacts);
            }
        },
        None => {
            let s2 = StoreView { contacts: s1.contacts.push(c), ..s1 };
            let n = s1.contacts.len() as int;
            seqs::find_spec(st.contacts, routes::contact_is(c.id));
            let p = routes::contact_is(c.id);
            assert(p(s2.contacts[n]));
            assert forall|j: int| 0 <= j < n implies !p(#[trigger] s2.contacts[j]) by {
                assert(s2.contacts[j] == st.contacts[j]);
            }
            seqs::find_is(s2.contacts, p, n);
            assert forall|i: int| 0 <= i < s2.contacts.len() implies (
            #[trigger] s2.contacts[i]).local_route_id != Some(f.id) by {
                if i < n {
                    assert(s2.contacts[i] == st.contacts[i]);
                }
            }
            assert forall|i: int, j: int|
                0 <= i < s2.contacts.len() && 0 <= j < s2.contacts.len() && i != j && (
                #[trigger] s2.contacts[i]).local_route_id is Some implies
                s2.contacts[i].local_route_id != (#[trigger] s2.contacts[j]).local_route_id by {
                assert(s2.contacts[i] == st.contacts[i]);
                if j < n {
                    assert(s2.contacts[j] == st.contacts[j]);
                }
            }
            let (s3, route) = routes::ensured_route(s2, c.id, c.server_url, f, now_ms);
            contacts_get_a_route(s2, c.id, c.server_url, f, now_ms);
            routes_stay_unshared(s2, c.id, c.server_url, f, now_ms);
            seqs::find_spec(s3.contacts, p);
            let m = seqs::find(s3.contacts, p)->0;
            assert(s3.contacts[m].local_route_id == Some(route.id));
            assert(after.contacts =~= s3.contacts);
            assert(after.contacts[m] == r->Ok_0);
            routes::ensured_keeps_contacts(s2, c.id, c.server_url, f, now_ms);
            assert(r->Ok_0.server_url == c.server_url) by {
                assert(m == n) by {
                    assert forall|j: int| 0 <= j < n implies !p(#[trigger] s3.contacts[j]) by {
                        assert(s3.contacts[j].id == s2.contacts[j].id);
                    }
                    assert(p(s3.contacts[n]));
                }
            }
            let k = choose|k: int| 0 <= k < s3.local_routes.len() && s3.local_routes[k] == route;
            assert(lasting_route(
                after.local_routes,
                k,
                r->Ok_0.local_route_id->0,
                urls::normalized(r->Ok_0.server_url),
            ));
        },
    }
}

proof fn other_routes_last(
    st: StoreView,
    id: Seq<char>,
    server_url: Seq<char>,
    f: FreshRouteView,
    now_ms: u64,
    k: int,
    rid: Seq<char>,
    url: Seq<char>,
)
    requires
        lasting_route(st.local_routes, k, rid, url),
        contact_of(st, id) matches Some(c) ==> c.local_route_id != Some(rid),
    ensures
        exists|m: int| #[trigger]
            lasting_route(
                routes::ensured_route(st, id, server_url, f, now_ms).0.local_routes,
                m,
                rid,
                url,
            ),
{
    let s1 = routes::cleaned(st, now_ms);
    let w = routes::ensured_route(st, id, server_url, f, now_ms).0;
    let r = st.local_routes[k];
    seqs::filter_members(st.local_routes, routes::live_route(now_ms));
    assert(routes::live_route(now_ms)(r));
    assert(s1.local_routes.contains(r));
    let m = choose|m: int| 0 <= m < s1.local_routes.len() && s1.local_routes[m] == r;
    if let Some(c) = contact_of(st, id) {
        if let Some(own) = c.local_route_id {
            seqs::find_spec(s1.local_routes, routes::route_is(own));
        }
    }
    assert(w.local_routes[m] == r);
    assert(lasting_route(w.local_routes, m, rid, url));
}

/// The spare routes differ from each other and from those that contacts have.
pub open spec fn spare_routes(cs: Seq<ContactView>, fs: Seq<FreshRouteView>) -> bool {
    &&& forall|i: int| 0 <= i < fs.len() ==> route_unused(cs, (#[trigger] fs[i]).id)
    &&& forall|i: int, j: int|
        0 <= i < fs.len() && 0 <= j < fs.len() && i != j ==> (#[trigger] fs[i]).id != (
        #[trigger] fs[j]).id
}

/// The first contacts have routes now, and of the contacts nothing changed but the routes of
/// those.
pub open spec fn routed_up_to(
    before: Seq<ContactView>,
    w: StoreView,
    fs: Seq<FreshRouteView>,
    n: int,
) -> bool {
    &&& w.contacts.len() == before.len()
    &&& routes_unshared(w.contacts)
    &&& forall|i: int|
        0 <= i < before.len() ==> (#[trigger] w.contacts[i]) == (ContactView {
            local_route_id: w.contacts[i].local_route_id,
            ..before[i]
        })
    &&& forall|i: int|
        0 <= i < before.len() ==> (#[trigger] w.contacts[i]).local_route_id
            == before[i].local_route_id || (i < n && w.contacts[i].local_route_id == Some(fs[i].id))
    &&& forall|i: int| 0 <= i < n ==> has_route(w.local_routes, #[trigger] w.contacts[i])
}

proof fn contacts_are_routed(st: StoreView, fs: Seq<FreshRouteView>, now_ms: u64, n: int)
    requires
        0 <= n <= st.contacts.len() <= fs.len(),
        distinct_contacts(st.contacts),
        routes_unshared(st.contacts),
        spare_routes(st.contacts, fs),
    ensures
        routed_up_to(
            st.contacts,
            connections::all_routed(st, st.contacts.take(n), fs, now_ms),
            fs,
            n,
        ),
    decreases n,
{
    let cs = st.contacts;
    if n > 0 {
        contacts_are_routed(st, fs, now_ms, n - 1);
        seqs::take_step(cs, n - 1);
        let prev = connections::all_routed(st, cs.take(n - 1), fs, now_ms);
        let c = cs[n - 1];
        let f = fs[n - 1];
        let (w, r) = routes::ensured_route(prev, c.id, c.server_url, f, now_ms);
        assert(prev.contacts[n - 1].id == c.id);
        assert forall|a: int, b: int|
            0 <= a < prev.contacts.len() && 0 <= b < prev.contacts.len() && a != b implies (
        #[trigger] prev.contacts[a]).id != (#[trigger] prev.contacts[b]).id by {
            assert(prev.contacts[a].id == cs[a].id);
            assert(prev.contacts[b].id == cs[b].id);
        }
        found_by_id(prev.contacts, n - 1);
        assert forall|i: int| 0 <= i < prev.contacts.len() implies (
        #[trigger] prev.contacts[i]).local_route_id != Some(f.id) by {
            assert(route_unused(cs, f.id));
            assert(cs[i].local_route_id != Some(f.id));
            if i < n - 1 {
                assert(fs[i].id != fs[n - 1].id);
            }
        }
        contacts_get_a_route(prev, c.id, c.server_url, f, now_ms);
        routes_stay_unshared(prev, c.id, c.server_url, f, now_ms);
        routes::ensured_keeps_contacts(prev, c.id, c.server_url, f, now_ms);
        assert forall|a: int| 0 <= a < w.contacts.len() implies (#[trigger] w.contacts[a])
            == (ContactView {
            local_route_id: w.contacts[a].local_route_id,
            ..prev.contacts[a]
        }) && (a != n - 1 ==> w.contacts[a] == prev.contacts[a]) by {}
        assert forall|a: int, b: int|
            0 <= a < w.contacts.len() && 0 <= b < w.contacts.len() && a != b implies (
        #[trigger] w.contacts[a]).id != (#[trigger] w.contacts[b]).id by {
            assert(w.contacts[a].id == prev.contacts[a].id);
            assert(w.contacts[b].id == prev.contacts[b].id);
        }
        found_by_id(w.contacts, n - 1);
        assert forall|i: int| 0 <= i < n implies has_route(
            w.local_routes,
            #[trigger] w.contacts[i],
        ) by {
            if i == n - 1 {
                let k = choose|k: int| 0 <= k < w.local_routes.len() && w.local_routes[k] == r;
                assert(w.contacts[i].id == c.id);
                assert(contact_of(w, c.id) == Some(w.contacts[i]));
                assert(prev.contacts[i].server_url == c.server_url);
                assert(lasting_route(
                    w.local_routes,
                    k,
                    w.contacts[i].local_route_id->0,
                    urls::normalized(w.contacts[i].server_url),
                ));
            } else {
                assert(has_route(prev.local_routes, prev.contacts[i]));
                let own = prev.contacts[i];
                let url = urls::normalized(own.server_url);
                let rid = own.local_route_id->0;
                let k = choose|k: int| #[trigger] lasting_route(prev.local_routes, k, rid, url);
                assert(prev.contacts[n - 1].local_route_id != Some(rid));
                other_routes_last(prev, c.id, c.server_url, f, now_ms, k, rid, url);
                assert(w.contacts[i] == own);
            }
        }
    }
}

/// Before connecting, every contact has a mailbox of its own at its relay: an active route without
/// an end that no other contact has.
pub proof fn connecting_gives_every_contact_a_route(
    st: StoreView,
    fs: Seq<FreshRouteView>,
    now_ms: u64,
    i: int,
)
    requires
        st.contacts.len() <= fs.len(),
        distinct_contacts(st.contacts),
        routes_unshared(st.contacts),
        spare_routes(st.contacts, fs),
        0 <= i < st.contacts.len(),
    ensures
        ({
            let w = connections::connectable(st, fs, now_ms);
            &&& w.contacts.len() == st.contacts.len()
            &&& w.contacts[i].id == st.contacts[i].id
            &&& routes_unshared(w.contacts)
            &&& has_route(w.local_routes, w.contacts[i])
        }),
{
    let s1 = routes::cleaned(st, now_ms);
    let n = s1.contacts.len() as int;
    contacts_are_routed(s1, fs, now_ms, n);
    assert(s1.contacts.take(n) =~= s1.contacts);
    let s2 = connections::all_routed(s1, s1.contacts, fs, now_ms);
    let w = connections::connectable(st, fs, now_ms);
    let c = w.contacts[i];
    assert(has_route(s2.local_routes, s2.contacts[i]));
    let url = urls::normalized(c.server_url);
    let k = choose|k: int| #[trigger] lasting_route(s2.local_routes, k, c.local_route_id->0, url);
    assert(lasting_route(w.local_routes, k, c.local_route_id->0, url));
}

/// A pinned trust root never changes.
pub proof fn pinned_roots_stay(st: StoreView, server_id: Seq<char>, root: Seq<char>, other: Seq<char>)
    requires
        st.server_trust_roots.contains_key(other),
    ensures
        match routes::pinned(st, server_id, root) {
            Ok((w, _)) => w.server_trust_roots.contains_key(other) && w.server_trust_roots[other]
                == st.server_trust_roots[other],
            Err(_) => true,
        },
        other == server_id && st.server_trust_roots[other] != root ==> routes::pinned(
            st,
            server_id,
            root,
        ) is Err,
{
}

proof fn dated_tokens(tokens: Seq<Seq<char>>, current: Seq<char>, epoch: u64, now_ms: u64, t: Seq<char>)
    ensures
        routes::retired_tokens(routes::dated(tokens, current, epoch, now_ms)).contains(t) <==> (
        tokens.contains(t) && t != current),
    decreases tokens.len(),
{
    let all = routes::retired_tokens(routes::dated(tokens, current, epoch, now_ms));
    if tokens.len() > 0 {
        let front = tokens.drop_last();
        let x = tokens.last();
        dated_tokens(front, current, epoch, now_ms, t);
        let d = routes::dated(front, current, epoch, now_ms);
        let before = routes::retired_tokens(d);
        if tokens.contains(t) {
            let k = choose|k: int| 0 <= k < tokens.len() && tokens[k] == t;
            if k < front.len() {
                assert(front[k] == t);
                assert(front.contains(t));
            } else {
                assert(t == x);
            }
        }
        if front.contains(t) {
            let k = choose|k: int| 0 <= k < front.len() && front[k] == t;
            assert(tokens[k] == t);
        }
        if x == current || before.contains(x) {
            assert(all == before);
            if tokens.contains(t) && t != current && !front.contains(t) {
                assert(t == x);
            }
        } else {
            assert(all =~= before.push(x));
            if all.contains(t) {
                let k = choose|k: int| 0 <= k < all.len() && all[k] == t;
                if k < before.len() {
                    assert(before[k] == t);
                    assert(before.contains(t));
                } else {
                    assert(tokens[tokens.len() - 1] == t);
                }
            }
            if before.contains(t) {
                let k = choose|k: int| 0 <= k < before.len() && before[k] == t;
                assert(all[k] == t);
            }
            assert(all[all.len() - 1] == x);
        }
    }
}

proof fn concat_contains<A>(a: Seq<A>, b: Seq<A>, x: A)
    ensures
        (a + b).contains(x) <==> a.contains(x) || b.contains(x),
{
    let c = a + b;
    if c.contains(x) {
        let k = choose|k: int| 0 <= k < c.len() && c[k] == x;
        if k < a.len() {
            assert(a[k] == x);
        } else {
            assert(b[k - a.len()] == x);
        }
    }
    if a.contains(x) {
        let k = choose|k: int| 0 <= k < a.len() && a[k] == x;
        assert(c[k] == x);
    }
    if b.contains(x) {
        let k = choose|k: int| 0 <= k < b.len() && b[k] == x;
        assert(c[a.len() + k] == x);
    }
}

pub(crate) proof fn allowlist_contains(r: RouteView, t: Seq<char>)
    ensures
        routes::allowlist(r).contains(t) <==> t == r.delivery_token
            || r.retired_delivery_tokens.contains(t) || routes::retired_tokens(
            r.pending_token_retirements,
        ).contains(t),
        routes::allowlist(r).len() > 0,
        routes::allowlist(r)[0] == r.delivery_token,
        routes::allowlist(r).no_duplicates(),
{
    let head = seq![r.delivery_token];
    let pending = routes::retired_tokens(r.pending_token_retirements);
    let all = head + r.retired_delivery_tokens + pending;
    text::distinct_members(all);
    concat_contains(head + r.retired_delivery_tokens, pending, t);
    concat_contains(head, r.retired_delivery_tokens, t);
    assert(head.contains(t) <==> t == r.delivery_token) by {
        assert(head[0] == r.delivery_token);
    }
    assert(all[0] == r.delivery_token);
}

/// Giving dates to retired tokens changes nothing in what the route accepts.
pub proof fn dating_keeps_the_allowlist(r: RouteView, now_ms: u64, t: Seq<char>)
    ensures
        routes::allowlist(routes::with_dates(r, now_ms)).contains(t) <==> routes::allowlist(
            r,
        ).contains(t),
{
    let d = routes::with_dates(r, now_ms);
    allowlist_contains(r, t);
    allowlist_contains(d, t);
    let extra = routes::dated(
        r.retired_delivery_tokens,
        r.delivery_token,
        r.delivery_token_epoch,
        now_ms,
    );
    dated_tokens(
        r.retired_delivery_tokens,
        r.delivery_token,
        r.delivery_token_epoch,
        now_ms,
        t,
    );
    assert(routes::retired_tokens(d.pending_token_retirements) =~= routes::retired_tokens(
        r.pending_token_retirements,
    ) + routes::retired_tokens(extra));
    concat_contains(
        routes::retired_tokens(r.pending_token_retirements),
        routes::retired_tokens(extra),
        t,
    );
    assert(!d.retired_delivery_tokens.contains(t));
}

/// After a rotation the route accepts the new delivery token and still the old one.
pub proof fn rotation_overlaps(r: RouteView, new_token: Seq<char>, now_ms: u64)
    ensures
        ({
            let w = routes::token_rotated(r, new_token, now_ms);
            &&& w.delivery_token == new_token
            &&& routes::allowlist(w)[0] == new_token
            &&& routes::allowlist(w).contains(r.delivery_token)
            &&& w.delivery_token_epoch > r.delivery_token_epoch || r.delivery_token_epoch
                == u64::MAX
        }),
{
    let w = routes::token_rotated(r, new_token, now_ms);
    allowlist_contains(w, r.delivery_token);
    let list = routes::retired_tokens(w.pending_token_retirements);
    assert(list[list.len() - 1] == r.delivery_token);
}

/// Once the peer shows that it knows the current delivery token, the route accepts that one only.
pub proof fn acknowledged_tokens_are_dropped(r: RouteView, acked: u64, now_ms: u64)
    requires
        acked >= r.delivery_token_epoch,
    ensures
        routes::allowlist(routes::acknowledged(r, Some(acked), now_ms)) == seq![r.delivery_token],
{
    let w = routes::acknowledged(r, Some(acked), now_ms);
    let head = seq![r.delivery_token];
    assert(routes::retired_tokens(w.pending_token_retirements) =~= Seq::<Seq<char>>::empty());
    assert(head + w.retired_delivery_tokens + routes::retired_tokens(w.pending_token_retirements)
        =~= head);
    assert(head.drop_last() =~= Seq::<Seq<char>>::empty());
    assert(text::distinct(head.drop_last()) =~= Seq::<Seq<char>>::empty());
    assert(text::distinct(head) =~= head);
}

/// The current delivery token is never dropped.
pub proof fn current_token_is_always_accepted(r: RouteView, acked: Option<u64>, now_ms: u64)
    ensures
        routes::allowlist(routes::acknowledged(r, acked, now_ms)).contains(r.delivery_token),
        routes::allowlist(routes::without_expired(r, now_ms)).contains(r.delivery_token),
        routes::allowlist(r).contains(r.delivery_token),
{
    allowlist_contains(r, r.delivery_token);
    allowlist_contains(routes::without_expired(r, now_ms), r.delivery_token);
    allowlist_contains(routes::acknowledged(r, acked, now_ms), r.delivery_token);
}

} // verus!
