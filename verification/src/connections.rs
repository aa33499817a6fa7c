//! Which routes to listen on, and which mailboxes to retire.
use crate::routes;
use crate::routes::FreshRoute;
use crate::routes::FreshRouteView;
use crate::seqs;
use crate::seqs::Duplicate;
use crate::store::ContactView;
use crate::store::LocalRoute;
use crate::store::MessagingStore;
use crate::store::RouteView;
use crate::store::StoreView;
use vstd::prelude::*;

verus! {

/// The store after each of some contacts was given a route at its relay.
pub open spec fn all_routed(
    st: StoreView,
    cs: Seq<ContactView>,
    fs: Seq<FreshRouteView>,
    now_ms: u64,
) -> StoreView
    decreases cs.len(),
{
    if cs.len() == 0 {
        st
    } else {
        let before = all_routed(st, cs.drop_last(), fs, now_ms);
        let c = cs.last();
        routes::ensured_route(before, c.id, c.server_url, fs[cs.len() - 1], now_ms).0
    }
}

/// The routes, retired tokens whose date has come dropped.
pub open spec fn all_pruned(s: Seq<RouteView>, now_ms: u64) -> Seq<RouteView> {
    Seq::new(s.len(), |i: int| routes::without_expired(s[i], now_ms))
}

/// The route is in use.
pub open spec fn in_use() -> spec_fn(RouteView) -> bool {
    |r: RouteView| r.active
}

/// The store before connecting: every contact has a route, and old delivery tokens are dropped.
pub open spec fn connectable(st: StoreView, fs: Seq<FreshRouteView>, now_ms: u64) -> StoreView {
    let s1 = routes::cleaned(st, now_ms);
    let s2 = all_routed(s1, s1.contacts, fs, now_ms);
    StoreView { local_routes: all_pruned(s2.local_routes, now_ms), ..s2 }
}

/// The routes to listen on, and the mailboxes to retire.
pub struct ConnectPlan {
    pub routes: Vec<LocalRoute>,
    pub retires: Vec<LocalRoute>,
}

/// The routes to listen on, and the mailboxes to retire.
#[verifier::ext_equal]
pub struct ConnectPlanView {
    pub routes: Seq<RouteView>,
    pub retires: Seq<RouteView>,
}

impl View for ConnectPlan {
    type V = ConnectPlanView;

    open spec fn view(&self) -> ConnectPlanView {
        ConnectPlanView {
            routes: seqs::views(self.routes@),
            retires: seqs::views(self.retires@),
        }
    }
}

fn route_contacts(store: &mut MessagingStore, spares: &Vec<FreshRoute>, now_ms: u64)
    requires
        spares@.len() >= old(store)@.contacts.len(),
    ensures
        final(store)@ == all_routed(
            old(store)@,
            old(store)@.contacts,
            seqs::views(spares@),
            now_ms,
        ),
{
    let ghost st = store@;
    let ghost fs = seqs::views(spares@);
    let cs = seqs::duplicate_vec(&store.contacts);
    let ghost all = seqs::views(cs@);
    let mut i: usize = 0;
    proof {
        assert(all.take(0) =~= Seq::<ContactView>::empty());
    }
    while i < cs.len()
        invariant
            i <= cs@.len(),
            cs@.len() <= spares@.len(),
            all == seqs::views(cs@),
            fs == seqs::views(spares@),
            store@ == all_routed(st, all.take(i as int), fs, now_ms),
        decreases cs@.len() - i,
    {
        proof {
            seqs::take_step(all, i as int);
        }
        let fresh = spares[i].duplicate();
        routes::ensure_route_for_contact(
            store,
            cs[i].id.as_str(),
            cs[i].server_url.as_str(),
            fresh,
            now_ms,
        );
        i = i + 1;
    }
    proof {
        assert(all.take(i as int) =~= all);
    }
}

fn prune_tokens(all: &mut Vec<LocalRoute>, now_ms: u64)
    ensures
        seqs::views(final(all)@) == all_pruned(seqs::views(old(all)@), now_ms),
{
    let ghost before = seqs::views(all@);
    let n: usize = all.len();
    let mut i: usize = 0;
    while i < n
        invariant
            i <= n,
            n == all@.len(),
            n == before.len(),
            forall|j: int|
                0 <= j < n ==> (#[trigger] all@[j])@ == if j < i {
                    all_pruned(before, now_ms)[j]
                } else {
                    before[j]
                },
        decreases n - i,
    {
        let mut r = all[i].duplicate();
        routes::prune_expired_token_retirements(&mut r, now_ms);
        all.set(i, r);
        i = i + 1;
    }
    proof {
        assert(seqs::views(all@) =~= all_pruned(before, now_ms));
    }
}

fn routes_in_use(all: &Vec<LocalRoute>) -> (r: Vec<LocalRoute>)
    ensures
        seqs::views(r@) == seqs::views(all@).filter(in_use()),
{
    let ghost w = seqs::views(all@);
    let mut out: Vec<LocalRoute> = Vec::new();
    let mut i: usize = 0;
    proof {
        seqs::filter_empty(w.take(0), in_use());
        assert(seqs::views(out@) =~= Seq::<RouteView>::empty());
    }
    while i < all.len()
        invariant
            i <= all@.len(),
            w == seqs::views(all@),
            seqs::views(out@) == w.take(i as int).filter(in_use()),
        decreases all@.len() - i,
    {
        proof {
            seqs::filter_take_step(w, i as int, in_use());
        }
        if all[i].active {
            let copy = all[i].duplicate();
            proof {
                seqs::views_push(out@, copy);
            }
            out.push(copy);
        }
        i = i + 1;
    }
    proof {
        assert(w.take(i as int) =~= w);
    }
    out
}

/// What a store that was made ready asks for: the routes to listen on, and the mailboxes to retire.
pub open spec fn asked_for(st: StoreView) -> ConnectPlanView {
    ConnectPlanView {
        routes: st.local_routes.filter(in_use()),
        retires: st.pending_relay_retires,
    }
}

/// Gives every contact a route, and tells which routes to listen on and which mailboxes to
/// retire. There must be as many fresh routes at hand as there are contacts.
pub fn plan_connections(store: &mut MessagingStore, spares: &Vec<FreshRoute>, now_ms: u64)
    -> (r: ConnectPlan)
    requires
        spares@.len() >= old(store)@.contacts.len(),
    ensures
        final(store)@ == connectable(old(store)@, seqs::views(spares@), now_ms),
        r@ == (ConnectPlanView {
            routes: final(store)@.local_routes.filter(in_use()),
            retires: final(store)@.pending_relay_retires,
        }),
        r@ == asked_for(final(store)@),
        r@.routes == final(store)@.local_routes.filter(|x: RouteView| x.active),
{
    proof {
        assert(in_use() =~= |x: RouteView| x.active);
    }
    routes::cleanup_expired_routes(store, now_ms);
    route_contacts(store, spares, now_ms);
    prune_tokens(&mut store.local_routes, now_ms);
    ConnectPlan {
        routes: routes_in_use(&store.local_routes),
        retires: seqs::duplicate_vec(&store.pending_relay_retires),
    }
}

/// The mailboxes whose retirement the relay has not confirmed.
pub open spec fn unconfirmed(retires: Seq<RouteView>, done: Seq<bool>) -> Seq<RouteView>
    decreases retires.len(),
{
    if retires.len() == 0 {
        Seq::empty()
    } else {
        let before = unconfirmed(retires.drop_last(), done);
        if done[retires.len() - 1] {
            before
        } else {
            before.push(retires.last())
        }
    }
}

/// Keeps the mailboxes that are still to be retired, given which retirements were confirmed.
pub fn keep_unconfirmed(store: &mut MessagingStore, retires: &Vec<LocalRoute>, done: &Vec<bool>)
    requires
        done@.len() == retires@.len(),
    ensures
        final(store)@ == (StoreView {
            pending_relay_retires: unconfirmed(seqs::views(retires@), done@),
            ..old(store)@
        }),
{
    let ghost all = seqs::views(retires@);
    let mut out: Vec<LocalRoute> = Vec::new();
    let mut i: usize = 0;
    proof {
        assert(all.take(0) =~= Seq::<RouteView>::empty());
        assert(seqs::views(out@) =~= Seq::<RouteView>::empty());
    }
    while i < retires.len()
        invariant
            i <= retires@.len(),
            done@.len() == retires@.len(),
            all == seqs::views(retires@),
            seqs::views(out@) == unconfirmed(all.take(i as int), done@),
        decreases retires@.len() - i,
    {
        proof {
            seqs::take_step(all, i as int);
        }
        if !done[i] {
            let copy = retires[i].duplicate();
            proof {
                seqs::views_push(out@, copy);
            }
            out.push(copy);
        }
        i = i + 1;
    }
    proof {
        assert(all.take(i as int) =~= all);
    }
    store.pending_relay_retires = out;
}

/// Whether the relay has to be told of more delivery tokens than the current one.
pub fn has_retiring_tokens(route: &LocalRoute) -> (r: bool)
    ensures
        r == (routes::allowlist(route@).len() > 1),
{
    routes::route_delivery_allowlist(route).len() > 1
}

} // verus!
