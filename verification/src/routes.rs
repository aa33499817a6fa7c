//! Mailboxes of one's own: making, keeping, rotating and retiring them.
use crate::encoding;
use crate::ids;
use crate::messages;
use crate::seqs;
use crate::seqs::Duplicate;
use crate::store::ContactView;
use crate::store::InviteView;
use crate::store::LocalProfile;
use crate::store::LocalRoute;
use crate::store::MessagingStore;
use crate::store::PendingInvite;
use crate::store::ProfileView;
use crate::store::RetiredDeliveryToken;
use crate::store::RetiredTokenView;
use crate::store::RouteView;
use crate::store::StoreView;
use crate::store::StoredContact;
use crate::text;
use crate::urls;
use vstd::prelude::*;

verus! {

/// How long a delivery token is still accepted after it was replaced, unless the peer shows
/// sooner that it knows the new one.
pub const DELIVERY_TOKEN_FALLBACK_TTL_MS: u64 = 604_800_000;

/// The certificate key pair of a route, in base64.
pub struct RouteKeys {
    pub public_b64: String,
    pub private_b64: String,
}

/// The certificate key pair of a route.
#[verifier::ext_equal]
pub struct RouteKeysView {
    pub public_b64: Seq<char>,
    pub private_b64: Seq<char>,
}

impl View for RouteKeys {
    type V = RouteKeysView;

    open spec fn view(&self) -> RouteKeysView {
        RouteKeysView { public_b64: self.public_b64@, private_b64: self.private_b64@ }
    }
}

impl RouteKeys {
    /// The key pair from its serialized halves.
    pub fn from_raw(public: &[u8], private: &[u8]) -> (r: Self)
        ensures
            r@ == (RouteKeysView {
                public_b64: encoding::b64_text(public@, false),
                private_b64: encoding::b64_text(private@, false),
            }),
    {
        RouteKeys { public_b64: encoding::to_b64(public), private_b64: encoding::to_b64(private) }
    }
}

/// What a new route takes from chance: its names, its tokens and its certificate key pair.
pub struct FreshRoute {
    pub id: String,
    pub mailbox_id: String,
    pub receive_auth_token: String,
    pub delivery_token: String,
    pub keys: RouteKeys,
}

/// What a new route takes from chance.
#[verifier::ext_equal]
pub struct FreshRouteView {
    pub id: Seq<char>,
    pub mailbox_id: Seq<char>,
    pub receive_auth_token: Seq<char>,
    pub delivery_token: Seq<char>,
    pub keys: RouteKeysView,
}

impl View for FreshRoute {
    type V = FreshRouteView;

    open spec fn view(&self) -> FreshRouteView {
        FreshRouteView {
            id: self.id@,
            mailbox_id: self.mailbox_id@,
            receive_auth_token: self.receive_auth_token@,
            delivery_token: self.delivery_token@,
            keys: self.keys@,
        }
    }
}

impl Duplicate for RouteKeys {
    fn duplicate(&self) -> (r: Self) {
        RouteKeys { public_b64: self.public_b64.clone(), private_b64: self.private_b64.clone() }
    }
}

impl Duplicate for FreshRoute {
    fn duplicate(&self) -> (r: Self) {
        FreshRoute {
            id: self.id.clone(),
            mailbox_id: self.mailbox_id.clone(),
            receive_auth_token: self.receive_auth_token.clone(),
            delivery_token: self.delivery_token.clone(),
            keys: self.keys.duplicate(),
        }
    }
}

/// The names and tokens have the shapes that chance gives them.
pub open spec fn fresh_shape(f: FreshRouteView) -> bool {
    &&& ids::random_shape(f.id, "rt_"@, 18)
    &&& ids::random_shape(f.mailbox_id, "mbx_"@, 24)
    &&& ids::random_shape(f.receive_auth_token, "rx_"@, 32)
    &&& ids::random_shape(f.delivery_token, "dt_"@, 32)
}

impl FreshRoute {
    /// Draws the names and tokens of a new route.
    pub fn draw(keys: RouteKeys) -> (r: Result<FreshRoute, String>)
        ensures
            match r {
                Ok(f) => fresh_shape(f@) && f@.keys == keys@,
                Err(e) => text::has_prefix(e@, "OS randomness unavailable: "@),
            },
    {
        let id = ids::random_token("rt_", 18)?;
        let mailbox_id = ids::random_token("mbx_", 24)?;
        let receive_auth_token = ids::random_token("rx_", 32)?;
        let delivery_token = ids::random_token("dt_", 32)?;
        Ok(FreshRoute { id, mailbox_id, receive_auth_token, delivery_token, keys })
    }
}

/// A new route.
pub open spec fn made_route(
    f: FreshRouteView,
    server_url: Seq<char>,
    scope: Seq<char>,
    expires_at_ms: Option<u64>,
    now_ms: u64,
) -> RouteView {
    let url = urls::normalized(server_url);
    RouteView {
        id: f.id,
        mailbox_id: f.mailbox_id,
        receive_auth_token: f.receive_auth_token,
        delivery_token: f.delivery_token,
        delivery_token_epoch: 1,
        retired_delivery_tokens: Seq::empty(),
        pending_token_retirements: Seq::empty(),
        server_url: url,
        server_id: urls::server_id(url),
        sealed_sender_cert_public_b64: f.keys.public_b64,
        sealed_sender_cert_private_b64: f.keys.private_b64,
        scope,
        replacement_route_id: None,
        active: true,
        created_at_ms: now_ms,
        expires_at_ms,
    }
}

/// A new route with the given names, tokens and keys.
pub fn make_route(
    fresh: FreshRoute,
    server_url: &str,
    scope: String,
    expires_at_ms: Option<u64>,
    now_ms: u64,
) -> (r: LocalRoute)
    ensures
        r@ == made_route(fresh@, server_url@, scope@, expires_at_ms, now_ms),
{
    let url = urls::normalize_url(server_url);
    let server_id = urls::server_id_for_url(url.as_str());
    let r = LocalRoute {
        id: fresh.id,
        mailbox_id: fresh.mailbox_id,
        receive_auth_token: fresh.receive_auth_token,
        delivery_token: fresh.delivery_token,
        delivery_token_epoch: 1,
        retired_delivery_tokens: Vec::new(),
        pending_token_retirements: Vec::new(),
        server_url: url,
        server_id,
        sealed_sender_cert_public_b64: fresh.keys.public_b64,
        sealed_sender_cert_private_b64: fresh.keys.private_b64,
        scope,
        replacement_route_id: None,
        active: true,
        created_at_ms: now_ms,
        expires_at_ms,
    };
    proof {
        assert(r@ =~= made_route(fresh@, server_url@, scope@, expires_at_ms, now_ms));
    }
    r
}

/// A new route with fresh names and tokens.
pub fn new_local_route(
    server_url: String,
    scope: String,
    expires_at_ms: Option<u64>,
    keys: RouteKeys,
    now_ms: u64,
) -> (r: Result<LocalRoute, String>)
    ensures
        match r {
            Ok(route) => exists|f: FreshRouteView| #[trigger]
                fresh_shape(f) && f.keys == keys@ && route@ == made_route(
                    f,
                    server_url@,
                    scope@,
                    expires_at_ms,
                    now_ms,
                ),
            Err(e) => text::has_prefix(e@, "OS randomness unavailable: "@),
        },
{
    let fresh = FreshRoute::draw(keys)?;
    proof {
        assert(fresh_shape(fresh@));
    }
    Ok(make_route(fresh, server_url.as_str(), scope, expires_at_ms, now_ms))
}

/// The name of the connection of a route.
pub open spec fn connection_id(r: RouteView) -> Seq<char> {
    r.server_id + "__"@ + r.mailbox_id
}

/// The name of the connection of a route.
pub fn route_connection_id(route: &LocalRoute) -> (r: String)
    ensures
        r@ == connection_id(route@),
{
    text::concat3(route.server_id.as_str(), "__", route.mailbox_id.as_str())
}

// ---------------------------------------------------------------------------------------------
// Finding contacts and routes.
// ---------------------------------------------------------------------------------------------

/// The contact has the identifier.
pub open spec fn contact_is(id: Seq<char>) -> spec_fn(ContactView) -> bool {
    |c: ContactView| c.id == id
}

/// The route has the identifier.
pub open spec fn route_is(id: Seq<char>) -> spec_fn(RouteView) -> bool {
    |r: RouteView| r.id == id
}

/// Where the contact with an identifier stands.
pub fn find_contact(contacts: &Vec<StoredContact>, id: &str) -> (r: Option<usize>)
    ensures
        match r {
            Some(i) => i < contacts@.len() && seqs::find(seqs::views(contacts@), contact_is(id@))
                == Some(i as int),
            None => seqs::find(seqs::views(contacts@), contact_is(id@)) == None::<int>,
        },
{
    let ghost all = seqs::views(contacts@);
    let mut i: usize = 0;
    while i < contacts.len()
        invariant
            i <= contacts@.len(),
            all == seqs::views(contacts@),
            forall|j: int| 0 <= j < i ==> !contact_is(id@)(#[trigger] all[j]),
        decreases contacts@.len() - i,
    {
        if text::same_text(contacts[i].id.as_str(), id) {
            proof {
                seqs::find_is(all, contact_is(id@), i as int);
            }
            return Some(i);
        }
        i = i + 1;
    }
    proof {
        seqs::find_none(all, contact_is(id@));
    }
    None
}

/// Where the route with an identifier stands.
pub fn find_route(routes: &Vec<LocalRoute>, id: &str) -> (r: Option<usize>)
    ensures
        match r {
            Some(i) => i < routes@.len() && seqs::find(seqs::views(routes@), route_is(id@))
                == Some(i as int),
            None => seqs::find(seqs::views(routes@), route_is(id@)) == None::<int>,
        },
{
    let ghost all = seqs::views(routes@);
    let mut i: usize = 0;
    while i < routes.len()
        invariant
            i <= routes@.len(),
            all == seqs::views(routes@),
            forall|j: int| 0 <= j < i ==> !route_is(id@)(#[trigger] all[j]),
        decreases routes@.len() - i,
    {
        if text::same_text(routes[i].id.as_str(), id) {
            proof {
                seqs::find_is(all, route_is(id@), i as int);
            }
            return Some(i);
        }
        i = i + 1;
    }
    proof {
        seqs::find_none(all, route_is(id@));
    }
    None
}

/// An active route for a mailbox.
pub open spec fn serves(mailbox_id: Seq<char>) -> spec_fn(RouteView) -> bool {
    |r: RouteView| r.active && r.mailbox_id == mailbox_id
}

/// The active route for a mailbox.
pub fn route_for_mailbox(store: &MessagingStore, mailbox_id: &str) -> (r: Option<LocalRoute>)
    ensures
        seqs::opt(r) == seqs::first_where(store@.local_routes, serves(mailbox_id@)),
{
    let ghost all = store@.local_routes;
    let mut i: usize = 0;
    while i < store.local_routes.len()
        invariant
            i <= store.local_routes@.len(),
            all == seqs::views(store.local_routes@),
            forall|j: int| 0 <= j < i ==> !serves(mailbox_id@)(#[trigger] all[j]),
        decreases store.local_routes@.len() - i,
    {
        if store.local_routes[i].active && text::same_text(
            store.local_routes[i].mailbox_id.as_str(),
            mailbox_id,
        ) {
            proof {
                seqs::find_is(all, serves(mailbox_id@), i as int);
            }
            return Some(store.local_routes[i].duplicate());
        }
        i = i + 1;
    }
    proof {
        seqs::find_none(all, serves(mailbox_id@));
    }
    None
}

// ---------------------------------------------------------------------------------------------
// Retiring and cleaning up.
// ---------------------------------------------------------------------------------------------

/// A route to the same mailbox at the same relay.
pub open spec fn same_mailbox(r: RouteView) -> spec_fn(RouteView) -> bool {
    |o: RouteView| o.server_url == r.server_url && o.mailbox_id == r.mailbox_id
}

/// The routes that the relay has yet to be told to retire, with one more.
pub open spec fn with_retire(retires: Seq<RouteView>, r: RouteView) -> Seq<RouteView> {
    if !text::has_prefix(r.mailbox_id, "mbx_"@) || seqs::any(retires, same_mailbox(r)) {
        retires
    } else {
        retires.push(r)
    }
}

/// The routes that the relay has yet to be told to retire, with several more.
pub open spec fn with_retires(retires: Seq<RouteView>, more: Seq<RouteView>) -> Seq<RouteView>
    decreases more.len(),
{
    if more.len() == 0 {
        retires
    } else {
        with_retire(with_retires(retires, more.drop_last()), more.last())
    }
}

/// Notes a route that the relay has yet to be told to retire.
fn push_retire(retires: &mut Vec<LocalRoute>, route: LocalRoute)
    ensures
        seqs::views(final(retires)@) == with_retire(seqs::views(old(retires)@), route@),
{
    if !text::starts_with(route.mailbox_id.as_str(), "mbx_") {
        return;
    }
    let ghost all = seqs::views(retires@);
    let ghost p = same_mailbox(route@);
    let mut i: usize = 0;
    while i < retires.len()
        invariant
            i <= retires@.len(),
            retires@ == old(retires)@,
            all == seqs::views(retires@),
            p == same_mailbox(route@),
            text::has_prefix(route@.mailbox_id, "mbx_"@),
            forall|j: int| 0 <= j < i ==> !p(#[trigger] all[j]),
        decreases retires@.len() - i,
    {
        if retires[i].server_url == route.server_url && retires[i].mailbox_id == route.mailbox_id {
            proof {
                assert(p(all[i as int]));
            }
            return;
        }
        i = i + 1;
    }
    proof {
        seqs::views_push(retires@, route);
    }
    retires.push(route);
}

/// Notes a route that the relay has yet to be told to retire.
pub fn queue_relay_retire(store: &mut MessagingStore, route: LocalRoute)
    ensures
        final(store)@ == (StoreView {
            pending_relay_retires: with_retire(old(store)@.pending_relay_retires, route@),
            ..old(store)@
        }),
{
    push_retire(&mut store.pending_relay_retires, route);
}

/// The route is active and its time has not come.
pub open spec fn live_route(now_ms: u64) -> spec_fn(RouteView) -> bool {
    |r: RouteView| r.active && match r.expires_at_ms {
        Some(t) => t > now_ms,
        None => true,
    }
}

/// The route is inactive or its time has come.
pub open spec fn dead_route(now_ms: u64) -> spec_fn(RouteView) -> bool {
    |r: RouteView| !live_route(now_ms)(r)
}

/// The invite's time has not come.
pub open spec fn live_invite(now_ms: u64) -> spec_fn(InviteView) -> bool {
    |p: InviteView| p.expires_at_ms > now_ms
}

/// The store without what is over: invites and routes whose time has come, and messages beyond
/// what is kept. The dropped routes are noted for the relay.
pub open spec fn cleaned(st: StoreView, now_ms: u64) -> StoreView {
    StoreView {
        pending_invites: st.pending_invites.filter(live_invite(now_ms)),
        local_routes: st.local_routes.filter(live_route(now_ms)),
        pending_relay_retires: with_retires(
            st.pending_relay_retires,
            st.local_routes.filter(dead_route(now_ms)),
        ),
        messages: messages::kept(st.messages),
        ..st
    }
}

fn is_live(route: &LocalRoute, now_ms: u64) -> (r: bool)
    ensures
        r == live_route(now_ms)(route@),
{
    route.active && match route.expires_at_ms {
        Some(t) => t > now_ms,
        None => true,
    }
}

fn keep_live_invites(invites: &mut Vec<PendingInvite>, now_ms: u64)
    ensures
        seqs::views(final(invites)@) == seqs::views(old(invites)@).filter(live_invite(now_ms)),
{
    let ghost all = seqs::views(invites@);
    let ghost p = live_invite(now_ms);
    let mut out: Vec<PendingInvite> = Vec::new();
    let mut i: usize = 0;
    proof {
        seqs::filter_empty(all.take(0), p);
        assert(seqs::views(out@) =~= all.take(0).filter(p));
    }
    while i < invites.len()
        invariant
            i <= invites@.len(),
            all == seqs::views(invites@),
            p == live_invite(now_ms),
            seqs::views(out@) == all.take(i as int).filter(p),
        decreases invites@.len() - i,
    {
        let e = invites[i].duplicate();
        proof {
            seqs::filter_take_step(all, i as int, p);
            seqs::views_push(out@, e);
        }
        if e.expires_at_ms > now_ms {
            out.push(e);
        }
        i = i + 1;
    }
    proof {
        assert(all.take(i as int) =~= all);
    }
    *invites = out;
}

/// Drops what is over.
pub fn cleanup_expired_routes(store: &mut MessagingStore, now_ms: u64)
    ensures
        final(store)@ == cleaned(old(store)@, now_ms),
{
    let ghost st = store@;
    keep_live_invites(&mut store.pending_invites, now_ms);
    let mut routes: Vec<LocalRoute> = Vec::new();
    std::mem::swap(&mut routes, &mut store.local_routes);
    let ghost all = seqs::views(routes@);
    let ghost live = live_route(now_ms);
    let ghost dead = dead_route(now_ms);
    let mut keep: Vec<LocalRoute> = Vec::new();
    let mut i: usize = 0;
    proof {
        seqs::filter_empty(all.take(0), live);
        seqs::filter_empty(all.take(0), dead);
        assert(seqs::views(keep@) =~= all.take(0).filter(live));
    }
    while i < routes.len()
        invariant
            i <= routes@.len(),
            all == seqs::views(routes@),
            live == live_route(now_ms),
            dead == dead_route(now_ms),
            seqs::views(keep@) == all.take(i as int).filter(live),
            seqs::views(store.pending_relay_retires@) == with_retires(
                st.pending_relay_retires,
                all.take(i as int).filter(dead),
            ),
            store@ == (StoreView {
                pending_invites: st.pending_invites.filter(live_invite(now_ms)),
                local_routes: store@.local_routes,
                pending_relay_retires: store@.pending_relay_retires,
                ..st
            }),
        decreases routes@.len() - i,
    {
        let route = routes[i].duplicate();
        let ghost r = all[i as int];
        proof {
            seqs::filter_take_step(all, i as int, live);
            seqs::filter_take_step(all, i as int, dead);
            seqs::views_push(keep@, route);
            let f = all.take(i as int).filter(dead);
            assert(f.push(r).drop_last() =~= f);
        }
        if is_live(&route, now_ms) {
            keep.push(route);
        } else {
            push_retire(&mut store.pending_relay_retires, route);
        }
        i = i + 1;
    }
    proof {
        assert(all.take(i as int) =~= all);
    }
    store.local_routes = keep;
    messages::prune_old_messages(store);
}

// ---------------------------------------------------------------------------------------------
// The route of a contact.
// ---------------------------------------------------------------------------------------------

/// The route with a certificate key pair: its own, or the given one where it has none.
pub open spec fn with_cert_keys(r: RouteView, keys: RouteKeysView) -> RouteView {
    if text::blank(r.sealed_sender_cert_public_b64) || text::blank(
        r.sealed_sender_cert_private_b64,
    ) {
        RouteView {
            sealed_sender_cert_public_b64: keys.public_b64,
            sealed_sender_cert_private_b64: keys.private_b64,
            ..r
        }
    } else {
        r
    }
}

/// Gives a route a certificate key pair where it has none.
pub fn ensure_route_cert_key(route: &mut LocalRoute, keys: RouteKeys)
    ensures
        final(route)@ == with_cert_keys(old(route)@, keys@),
{
    if text::is_blank(route.sealed_sender_cert_public_b64.as_str()) || text::is_blank(
        route.sealed_sender_cert_private_b64.as_str(),
    ) {
        route.sealed_sender_cert_public_b64 = keys.public_b64;
        route.sealed_sender_cert_private_b64 = keys.private_b64;
    }
}

/// Where the route of a contact stands.
pub open spec fn current_route(st: StoreView, contact_id: Seq<char>) -> Option<int> {
    match seqs::first_where(st.contacts, contact_is(contact_id)) {
        Some(c) => match c.local_route_id {
            Some(id) => seqs::find(st.local_routes, route_is(id)),
            None => None,
        },
        None => None,
    }
}

fn find_current_route(store: &MessagingStore, contact_id: &str) -> (r: Option<usize>)
    ensures
        match r {
            Some(i) => i < store.local_routes@.len() && current_route(store@, contact_id@) == Some(
                i as int,
            ),
            None => current_route(store@, contact_id@) == None::<int>,
        },
{
    match find_contact(&store.contacts, contact_id) {
        Some(i) => match &store.contacts[i].local_route_id {
            Some(id) => find_route(&store.local_routes, id.as_str()),
            None => None,
        },
        None => None,
    }
}

/// The contacts, the route of one of them set.
pub open spec fn with_contact_route(
    contacts: Seq<ContactView>,
    contact_id: Seq<char>,
    route_id: Seq<char>,
) -> Seq<ContactView> {
    match seqs::find(contacts, contact_is(contact_id)) {
        Some(i) => contacts.update(
            i,
            ContactView { local_route_id: Some(route_id), ..contacts[i] },
        ),
        None => contacts,
    }
}

/// Sets the route of a contact.
pub fn set_contact_route(contacts: &mut Vec<StoredContact>, contact_id: &str, route_id: &str)
    ensures
        seqs::views(final(contacts)@) == with_contact_route(
            seqs::views(old(contacts)@),
            contact_id@,
            route_id@,
        ),
{
    if let Some(i) = find_contact(contacts, contact_id) {
        contacts[i].local_route_id = Some(route_id.to_string());
        proof {
            assert(seqs::views(contacts@) =~= with_contact_route(
                seqs::views(old(contacts)@),
                contact_id@,
                route_id@,
            ));
        }
    }
}

/// The store without the route of a contact, which is noted for the relay.
pub open spec fn route_given_up(st: StoreView, contact_id: Seq<char>, now_ms: u64) -> StoreView {
    match current_route(st, contact_id) {
        Some(i) => {
            let gone = RouteView {
                active: false,
                expires_at_ms: Some(now_ms),
                ..st.local_routes[i]
            };
            StoreView {
                local_routes: st.local_routes.update(i, gone),
                pending_relay_retires: with_retire(st.pending_relay_retires, gone),
                ..st
            }
        },
        None => st,
    }
}

/// The scope of the route of a contact.
pub open spec fn contact_scope(contact_id: Seq<char>) -> Seq<char> {
    "contact:"@ + contact_id
}

/// The store with a new route for a contact in place of the one that it had.
pub open spec fn rotated(
    st: StoreView,
    contact_id: Seq<char>,
    server_url: Seq<char>,
    f: FreshRouteView,
    now_ms: u64,
) -> (StoreView, RouteView) {
    let s1 = route_given_up(st, contact_id, now_ms);
    let route = made_route(f, server_url, contact_scope(contact_id), None, now_ms);
    (
        StoreView {
            local_routes: s1.local_routes.push(route),
            contacts: with_contact_route(s1.contacts, contact_id, route.id),
            ..s1
        },
        route,
    )
}

/// Gives a contact a new route in place of the one that it had.
pub fn rotate_local_route_for_contact(
    store: &mut MessagingStore,
    contact_id: &str,
    server_url: &str,
    fresh: FreshRoute,
    now_ms: u64,
) -> (r: LocalRoute)
    ensures
        (final(store)@, r@) == rotated(old(store)@, contact_id@, server_url@, fresh@, now_ms),
{
    let ghost st = store@;
    if let Some(i) = find_current_route(store, contact_id) {
        store.local_routes[i].active = false;
        store.local_routes[i].expires_at_ms = Some(now_ms);
        let gone = store.local_routes[i].duplicate();
        proof {
            let g = RouteView {
                active: false,
                expires_at_ms: Some(now_ms),
                ..st.local_routes[i as int]
            };
            assert(gone@ =~= g);
            assert(store@.local_routes =~= st.local_routes.update(i as int, g));
        }
        push_retire(&mut store.pending_relay_retires, gone);
    }
    proof {
        assert(store@ =~= route_given_up(st, contact_id@, now_ms));
    }
    let scope = text::concat2("contact:", contact_id);
    let route = make_route(fresh, server_url, scope, None, now_ms);
    let copy = route.duplicate();
    proof {
        seqs::views_push(store.local_routes@, copy);
    }
    store.local_routes.push(copy);
    set_contact_route(&mut store.contacts, contact_id, route.id.as_str());
    route
}

/// The store and the route of a contact at a relay: the one that it has, from now on without an
/// end, or a new one.
pub open spec fn ensured_route(
    st: StoreView,
    contact_id: Seq<char>,
    server_url: Seq<char>,
    f: FreshRouteView,
    now_ms: u64,
) -> (StoreView, RouteView) {
    let s1 = cleaned(st, now_ms);
    let url = urls::normalized(server_url);
    match current_route(s1, contact_id) {
        Some(i) if s1.local_routes[i].server_url == url && s1.local_routes[i].active => {
            let route = with_cert_keys(
                RouteView { expires_at_ms: None, ..s1.local_routes[i] },
                f.keys,
            );
            (StoreView { local_routes: s1.local_routes.update(i, route), ..s1 }, route)
        },
        _ => rotated(s1, contact_id, url, f, now_ms),
    }
}

/// The route of a contact at a relay: the one that it has, or a new one.
pub fn ensure_route_for_contact(
    store: &mut MessagingStore,
    contact_id: &str,
    server_url: &str,
    fresh: FreshRoute,
    now_ms: u64,
) -> (r: LocalRoute)
    ensures
        (final(store)@, r@) == ensured_route(
            old(store)@,
            contact_id@,
            server_url@,
            fresh@,
            now_ms,
        ),
{
    cleanup_expired_routes(store, now_ms);
    let ghost s1 = store@;
    let url = urls::normalize_url(server_url);
    if let Some(i) = find_current_route(store, contact_id) {
        if store.local_routes[i].server_url == url && store.local_routes[i].active {
            let mut route = store.local_routes[i].duplicate();
            route.expires_at_ms = None;
            ensure_route_cert_key(&mut route, fresh.keys);
            let copy = route.duplicate();
            proof {
                seqs::views_update(store.local_routes@, i as int, copy);
            }
            store.local_routes.set(i, copy);
            return route;
        }
    }
    rotate_local_route_for_contact(store, contact_id, url.as_str(), fresh, now_ms)
}

/// A new route changes the contacts in nothing but the route of the one it is for.
pub proof fn rotated_keeps_contacts(
    st: StoreView,
    contact_id: Seq<char>,
    server_url: Seq<char>,
    f: FreshRouteView,
    now_ms: u64,
)
    ensures
        rotated(st, contact_id, server_url, f, now_ms).0.contacts == with_contact_route(
            st.contacts,
            contact_id,
            f.id,
        ),
        rotated(st, contact_id, server_url, f, now_ms).0.contacts.len() == st.contacts.len(),
{
}

/// Asking for a route changes the contacts in nothing but the route of the one it is for.
pub proof fn ensured_keeps_contacts(
    st: StoreView,
    contact_id: Seq<char>,
    server_url: Seq<char>,
    f: FreshRouteView,
    now_ms: u64,
)
    ensures
        ({
            let w = ensured_route(st, contact_id, server_url, f, now_ms).0;
            &&& w.contacts == st.contacts || w.contacts == with_contact_route(
                st.contacts,
                contact_id,
                f.id,
            )
            &&& w.contacts.len() == st.contacts.len()
        }),
{
    rotated_keeps_contacts(
        cleaned(st, now_ms),
        contact_id,
        urls::normalized(server_url),
        f,
        now_ms,
    );
}

/// The route holds the sender's side for a contact.
pub open spec fn sender_hold(r: RouteView, contact_id: Seq<char>) -> bool {
    r.active && r.scope == "sender:"@ + contact_id
}

/// The route is an invite's, kept for a contact until the contact knows its new route.
pub open spec fn retiring_invite_for(r: RouteView, contact_id: Seq<char>) -> bool {
    r.active && r.scope == "retiring_invite:"@ + contact_id
}

/// The route is an invite's that is about to go.
pub open spec fn retiring_invite(r: RouteView) -> bool {
    text::has_prefix(r.scope, "retiring_invite:"@)
}

/// Whether the route holds the sender's side for a contact.
pub fn route_is_sender_hold(route: &LocalRoute, contact_id: &str) -> (r: bool)
    ensures
        r == sender_hold(route@, contact_id@),
{
    let scope = text::concat2("sender:", contact_id);
    route.active && text::same_text(route.scope.as_str(), scope.as_str())
}

/// Whether the route is an invite's, kept for a contact until the contact knows its new route.
pub fn route_is_retiring_invite_for_contact(route: &LocalRoute, contact_id: &str) -> (r: bool)
    ensures
        r == retiring_invite_for(route@, contact_id@),
{
    let scope = text::concat2("retiring_invite:", contact_id);
    route.active && text::same_text(route.scope.as_str(), scope.as_str())
}

/// Whether the route is an invite's that is about to go.
pub fn route_is_retiring_invite(route: &LocalRoute) -> (r: bool)
    ensures
        r == retiring_invite(route@),
{
    text::starts_with(route.scope.as_str(), "retiring_invite:")
}

/// The contact's prekeys suffice to start a session anew.
pub open spec fn reusable_prekeys(c: ContactView) -> bool {
    &&& !text::blank(c.identity_public_b64)
    &&& !text::blank(c.signed_prekey_public_b64)
    &&& c.kyber_prekey_public_b64 matches Some(k) && !text::blank(k)
}

/// Whether the contact's prekeys suffice to start a session anew.
pub fn contact_has_reusable_prekey_material(contact: &StoredContact) -> (r: bool)
    ensures
        r == reusable_prekeys(contact@),
{
    !text::is_blank(contact.identity_public_b64.as_str()) && !text::is_blank(
        contact.signed_prekey_public_b64.as_str(),
    ) && match &contact.kyber_prekey_public_b64 {
        Some(k) => !text::is_blank(k.as_str()),
        None => false,
    }
}

/// The contact's own route at a relay, while it is active.
pub open spec fn own_route_at(id: Seq<char>, url: Seq<char>) -> spec_fn(RouteView) -> bool {
    |r: RouteView| r.active && r.id == id && r.server_url == url
}

/// A route at a relay that holds the sender's side for a contact.
pub open spec fn hold_at(contact_id: Seq<char>, url: Seq<char>) -> spec_fn(RouteView) -> bool {
    |r: RouteView| sender_hold(r, contact_id) && r.server_url == url
}

/// A route at a relay that is an invite's, kept for a contact.
pub open spec fn retiring_at(contact_id: Seq<char>, url: Seq<char>) -> spec_fn(RouteView) -> bool {
    |r: RouteView| retiring_invite_for(r, contact_id) && r.server_url == url
}

/// The contact's own route at a relay.
pub open spec fn own_route(st: StoreView, contact: Option<ContactView>, url: Seq<char>) -> Option<
    RouteView,
> {
    match contact {
        Some(c) => match c.local_route_id {
            Some(id) => seqs::first_where(st.local_routes, own_route_at(id, url)),
            None => None,
        },
        None => None,
    }
}

/// The route from which to write to a contact. The contact's own route counts first only where a
/// session can be started anew: a ratchet that began on another route would not be understood.
pub open spec fn sender_route(
    st: StoreView,
    contact_id: Seq<char>,
    fallback: RouteView,
) -> RouteView {
    let url = fallback.server_url;
    let contact = seqs::first_where(st.contacts, contact_is(contact_id));
    let own = own_route(st, contact, url);
    let held = seqs::first_where(st.local_routes, hold_at(contact_id, url));
    let retiring = seqs::first_where(st.local_routes, retiring_at(contact_id, url));
    if (contact matches Some(c) && reusable_prekeys(c)) && own is Some {
        own->0
    } else if held is Some {
        held->0
    } else if retiring is Some {
        retiring->0
    } else if own is Some {
        own->0
    } else {
        fallback
    }
}

fn find_own_route(store: &MessagingStore, contact: Option<usize>, url: &str) -> (r: Option<
    LocalRoute,
>)
    requires
        contact matches Some(i) ==> i < store.contacts@.len(),
    ensures
        seqs::opt(r) == own_route(
            store@,
            match contact {
                Some(i) => Some(store@.contacts[i as int]),
                None => None,
            },
            url@,
        ),
{
    let id = match contact {
        Some(i) => match &store.contacts[i].local_route_id {
            Some(id) => id.clone(),
            None => {
                return None;
            },
        },
        None => {
            return None;
        },
    };
    let ghost all = store@.local_routes;
    let ghost p = own_route_at(id@, url@);
    let ghost target = own_route(
        store@,
        match contact {
            Some(i) => Some(store@.contacts[i as int]),
            None => None,
        },
        url@,
    );
    let mut i: usize = 0;
    while i < store.local_routes.len()
        invariant
            i <= store.local_routes@.len(),
            all == seqs::views(store.local_routes@),
            p == own_route_at(id@, url@),
            target == seqs::first_where(all, p),
            target == own_route(
                store@,
                match contact {
                    Some(i) => Some(store@.contacts[i as int]),
                    None => None,
                },
                url@,
            ),
            forall|j: int| 0 <= j < i ==> !p(#[trigger] all[j]),
        decreases store.local_routes@.len() - i,
    {
        let route = &store.local_routes[i];
        if route.active && route.id == id && text::same_text(route.server_url.as_str(), url) {
            proof {
                seqs::find_is(all, p, i as int);
            }
            return Some(route.duplicate());
        }
        i = i + 1;
    }
    proof {
        seqs::find_none(all, p);
    }
    None
}

fn find_hold(store: &MessagingStore, contact_id: &str, url: &str) -> (r: Option<LocalRoute>)
    ensures
        seqs::opt(r) == seqs::first_where(store@.local_routes, hold_at(contact_id@, url@)),
{
    let ghost all = store@.local_routes;
    let ghost p = hold_at(contact_id@, url@);
    let mut i: usize = 0;
    while i < store.local_routes.len()
        invariant
            i <= store.local_routes@.len(),
            all == seqs::views(store.local_routes@),
            p == hold_at(contact_id@, url@),
            forall|j: int| 0 <= j < i ==> !p(#[trigger] all[j]),
        decreases store.local_routes@.len() - i,
    {
        let route = &store.local_routes[i];
        if route_is_sender_hold(route, contact_id) && text::same_text(
            route.server_url.as_str(),
            url,
        ) {
            proof {
                seqs::find_is(all, p, i as int);
            }
            return Some(route.duplicate());
        }
        i = i + 1;
    }
    proof {
        seqs::find_none(all, p);
    }
    None
}

fn find_retiring(store: &MessagingStore, contact_id: &str, url: &str) -> (r: Option<LocalRoute>)
    ensures
        seqs::opt(r) == seqs::first_where(store@.local_routes, retiring_at(contact_id@, url@)),
{
    let ghost all = store@.local_routes;
    let ghost p = retiring_at(contact_id@, url@);
    let mut i: usize = 0;
    while i < store.local_routes.len()
        invariant
            i <= store.local_routes@.len(),
            all == seqs::views(store.local_routes@),
            p == retiring_at(contact_id@, url@),
            forall|j: int| 0 <= j < i ==> !p(#[trigger] all[j]),
        decreases store.local_routes@.len() - i,
    {
        let route = &store.local_routes[i];
        if route_is_retiring_invite_for_contact(route, contact_id) && text::same_text(
            route.server_url.as_str(),
            url,
        ) {
            proof {
                seqs::find_is(all, p, i as int);
            }
            return Some(route.duplicate());
        }
        i = i + 1;
    }
    proof {
        seqs::find_none(all, p);
    }
    None
}

/// The route from which to write to a contact.
pub fn sender_route_for_contact(
    store: &MessagingStore,
    contact_id: &str,
    fallback: &LocalRoute,
) -> (r: LocalRoute)
    ensures
        r@ == sender_route(store@, contact_id@, fallback@),
{
    let url = fallback.server_url.as_str();
    let contact = find_contact(&store.contacts, contact_id);
    let own = find_own_route(store, contact, url);
    let renewable = match contact {
        Some(i) => contact_has_reusable_prekey_material(&store.contacts[i]),
        None => false,
    };
    if renewable {
        if let Some(route) = own {
            return route;
        }
    }
    if let Some(route) = find_hold(store, contact_id, url) {
        return route;
    }
    if let Some(route) = find_retiring(store, contact_id, url) {
        return route;
    }
    let again = find_own_route(store, contact, url);
    match again {
        Some(route) => route,
        None => fallback.duplicate(),
    }
}

// ---------------------------------------------------------------------------------------------
// Trust roots and profiles.
// ---------------------------------------------------------------------------------------------

/// The store with the trust root of a relay pinned, and whether it is new; a relay whose root
/// changed is refused.
pub open spec fn pinned(st: StoreView, server_id: Seq<char>, root: Seq<char>) -> Result<
    (StoreView, bool),
    Seq<char>,
> {
    if text::blank(root) {
        Err("relay trust root was empty"@)
    } else if st.server_trust_roots.contains_key(server_id) {
        if st.server_trust_roots[server_id] != root {
            Err(
                "server trust root changed for this relay; refusing to continue until manually reviewed"@,
            )
        } else {
            Ok((st, false))
        }
    } else {
        Ok(
            (
                StoreView {
                    server_trust_roots: st.server_trust_roots.insert(server_id, root),
                    ..st
                },
                true,
            ),
        )
    }
}

/// Pins the trust root of a relay; tells whether it is new.
pub fn pin_server_trust_root(
    store: &mut MessagingStore,
    server_id: &str,
    trust_root_b64: &str,
) -> (r: Result<bool, String>)
    ensures
        match pinned(old(store)@, server_id@, trust_root_b64@) {
            Ok((st, new)) => r == Ok::<bool, String>(new) && final(store)@ == st,
            Err(e) => r is Err && r->Err_0@ == e && final(store)@ == old(store)@,
        },
{
    if text::is_blank(trust_root_b64) {
        return Err("relay trust root was empty".to_string());
    }
    if let Some(known) = store.server_trust_roots.get(server_id) {
        if !text::same_text(known.as_str(), trust_root_b64) {
            return Err(
                "server trust root changed for this relay; refusing to continue until manually reviewed".to_string(),
            );
        }
        return Ok(false);
    }
    store.server_trust_roots.insert(server_id.to_string(), trust_root_b64.to_string());
    Ok(true)
}

/// The route that an early profile's mailbox stands for.
pub open spec fn profile_route(
    p: ProfileView,
    server_id: Seq<char>,
    server_url: Seq<char>,
    keys: RouteKeysView,
) -> RouteView {
    RouteView {
        id: "legacy_local_profile"@,
        mailbox_id: p.mailbox_id,
        receive_auth_token: p.receive_auth_token,
        delivery_token: p.delivery_token,
        delivery_token_epoch: 1,
        retired_delivery_tokens: Seq::empty(),
        pending_token_retirements: Seq::empty(),
        server_url: urls::normalized(server_url),
        server_id,
        sealed_sender_cert_public_b64: keys.public_b64,
        sealed_sender_cert_private_b64: keys.private_b64,
        scope: "legacy"@,
        replacement_route_id: None,
        active: true,
        created_at_ms: p.created_at_ms,
        expires_at_ms: None,
    }
}

/// The route that an early profile's mailbox stands for.
pub fn legacy_route_from_profile(
    profile: LocalProfile,
    server_id: String,
    server_url: String,
    keys: RouteKeys,
) -> (r: LocalRoute)
    ensures
        r@ == profile_route(profile@, server_id@, server_url@, keys@),
{
    let r = LocalRoute {
        id: "legacy_local_profile".to_string(),
        mailbox_id: profile.mailbox_id,
        receive_auth_token: profile.receive_auth_token,
        delivery_token: profile.delivery_token,
        delivery_token_epoch: 1,
        retired_delivery_tokens: Vec::new(),
        pending_token_retirements: Vec::new(),
        server_url: urls::normalize_url(server_url.as_str()),
        server_id,
        sealed_sender_cert_public_b64: keys.public_b64,
        sealed_sender_cert_private_b64: keys.private_b64,
        scope: "legacy".to_string(),
        replacement_route_id: None,
        active: true,
        created_at_ms: profile.created_at_ms,
        expires_at_ms: None,
    };
    proof {
        assert(r@ =~= profile_route(profile@, server_id@, server_url@, keys@));
    }
    r
}

/// A profile with the names and tokens that chance gives.
pub open spec fn fresh_profile(p: ProfileView, now_ms: u64) -> bool {
    &&& ids::random_shape(p.mailbox_id, "mbx_"@, 24)
    &&& ids::random_shape(p.receive_auth_token, "rx_"@, 32)
    &&& ids::random_shape(p.delivery_token, "dt_"@, 32)
    &&& p.created_at_ms == now_ms
}

/// The profile of the store; a new one where there is none.
pub fn ensure_local_profile(store: &mut MessagingStore, now_ms: u64) -> (r: Result<
    LocalProfile,
    String,
>)
    ensures
        match old(store)@.local_profile {
            Some(p) => r is Ok && r->Ok_0@ == p && final(store)@ == old(store)@,
            None => match r {
                Ok(p) => fresh_profile(p@, now_ms) && final(store)@ == (StoreView {
                    local_profile: Some(p@),
                    ..old(store)@
                }),
                Err(e) => text::has_prefix(e@, "OS randomness unavailable: "@) && final(store)@
                    == old(store)@,
            },
        },
{
    if let Some(p) = &store.local_profile {
        return Ok(p.duplicate());
    }
    let mailbox_id = ids::random_token("mbx_", 24)?;
    let receive_auth_token = ids::random_token("rx_", 32)?;
    let delivery_token = ids::random_token("dt_", 32)?;
    let profile = LocalProfile {
        mailbox_id,
        receive_auth_token,
        delivery_token,
        created_at_ms: now_ms,
    };
    store.local_profile = Some(profile.duplicate());
    Ok(profile)
}

// ---------------------------------------------------------------------------------------------
// Delivery tokens.
// ---------------------------------------------------------------------------------------------

/// The tokens of the retirements.
pub open spec fn retired_tokens(s: Seq<RetiredTokenView>) -> Seq<Seq<char>> {
    s.map_values(|t: RetiredTokenView| t.token)
}

/// The delivery tokens that a route accepts, the current one first, each once.
pub open spec fn allowlist(r: RouteView) -> Seq<Seq<char>> {
    text::distinct(
        seq![r.delivery_token] + r.retired_delivery_tokens + retired_tokens(
            r.pending_token_retirements,
        ),
    )
}

/// Appends texts that are not there yet.
fn append_distinct(
    out: &mut Vec<String>,
    more: &Vec<String>,
    Ghost(so_far): Ghost<Seq<Seq<char>>>,
)
    requires
        seqs::views(old(out)@) == text::distinct(so_far),
    ensures
        seqs::views(final(out)@) == text::distinct(so_far + seqs::views(more@)),
{
    let ghost all = seqs::views(more@);
    let mut i: usize = 0;
    proof {
        assert(so_far + all.take(0) =~= so_far);
    }
    while i < more.len()
        invariant
            i <= more@.len(),
            all == seqs::views(more@),
            seqs::views(out@) == text::distinct(so_far + all.take(i as int)),
        decreases more@.len() - i,
    {
        proof {
            seqs::take_step(all, i as int);
            assert(so_far + all.take(i + 1) =~= (so_far + all.take(i as int)).push(
                all[i as int],
            ));
            text::distinct_push(so_far + all.take(i as int), all[i as int]);
        }
        text::push_distinct(out, more[i].as_str());
        i = i + 1;
    }
    proof {
        assert(all.take(i as int) =~= all);
    }
}

/// The tokens of the retirements.
fn tokens_of(retired: &Vec<RetiredDeliveryToken>) -> (r: Vec<String>)
    ensures
        seqs::views(r@) == retired_tokens(seqs::views(retired@)),
{
    let ghost all = retired_tokens(seqs::views(retired@));
    let mut out: Vec<String> = Vec::new();
    let mut i: usize = 0;
    proof {
        assert(seqs::views(out@) =~= all.take(0));
    }
    while i < retired.len()
        invariant
            i <= retired@.len(),
            all == retired_tokens(seqs::views(retired@)),
            seqs::views(out@) == all.take(i as int),
        decreases retired@.len() - i,
    {
        let t = retired[i].token.clone();
        proof {
            seqs::take_step(all, i as int);
            seqs::views_push(out@, t);
        }
        out.push(t);
        i = i + 1;
    }
    proof {
        assert(all.take(i as int) =~= all);
    }
    out
}

/// The delivery tokens that a route accepts, the current one first, each once.
pub fn route_delivery_allowlist(route: &LocalRoute) -> (r: Vec<String>)
    ensures
        seqs::views(r@) == allowlist(route@),
{
    let mut out: Vec<String> = Vec::new();
    out.push(route.delivery_token.clone());
    let ghost first = seq![route@.delivery_token];
    proof {
        assert(seqs::views(out@) =~= first);
        assert(first.drop_last() =~= Seq::<Seq<char>>::empty());
        assert(text::distinct(first.drop_last()) =~= Seq::<Seq<char>>::empty());
        assert(text::distinct(first) =~= first);
    }
    append_distinct(&mut out, &route.retired_delivery_tokens, Ghost(first));
    let pending = tokens_of(&route.pending_token_retirements);
    append_distinct(
        &mut out,
        &pending,
        Ghost(first + route@.retired_delivery_tokens),
    );
    out
}

/// A sum, as far as the type reaches.
pub open spec fn later(now_ms: u64, ms: u64) -> u64 {
    if now_ms + ms > u64::MAX {
        u64::MAX
    } else {
        (now_ms + ms) as u64
    }
}

/// The epoch before an epoch; the first has none before it.
pub open spec fn epoch_before(epoch: u64) -> u64 {
    if epoch <= 2 {
        1
    } else {
        (epoch - 1) as u64
    }
}

/// The tokens that were retired without a date, each once and without the current one, with a
/// date.
pub open spec fn dated(
    tokens: Seq<Seq<char>>,
    current: Seq<char>,
    epoch: u64,
    now_ms: u64,
) -> Seq<RetiredTokenView>
    decreases tokens.len(),
{
    if tokens.len() == 0 {
        Seq::empty()
    } else {
        let before = dated(tokens.drop_last(), current, epoch, now_ms);
        let t = tokens.last();
        if t == current || retired_tokens(before).contains(t) {
            before
        } else {
            before.push(
                RetiredTokenView {
                    token: t,
                    epoch: epoch_before(epoch),
                    retire_after_ms: later(now_ms, DELIVERY_TOKEN_FALLBACK_TTL_MS),
                },
            )
        }
    }
}

/// The route with a date for every token that was retired without one.
pub open spec fn with_dates(r: RouteView, now_ms: u64) -> RouteView {
    RouteView {
        retired_delivery_tokens: Seq::empty(),
        pending_token_retirements: r.pending_token_retirements + dated(
            r.retired_delivery_tokens,
            r.delivery_token,
            r.delivery_token_epoch,
            now_ms,
        ),
        ..r
    }
}

fn has_token(retired: &Vec<RetiredDeliveryToken>, token: &str) -> (r: bool)
    ensures
        r == retired_tokens(seqs::views(retired@)).contains(token@),
{
    let list = tokens_of(retired);
    text::contains_text(&list, token)
}

/// Gives a date to every token that was retired without one.
pub fn normalize_legacy_retired_tokens(route: &mut LocalRoute, now_ms: u64)
    ensures
        final(route)@ == with_dates(old(route)@, now_ms),
{
    let ghost r = route@;
    let mut tokens: Vec<String> = Vec::new();
    std::mem::swap(&mut tokens, &mut route.retired_delivery_tokens);
    let ghost all = seqs::views(tokens@);
    let mut converted: Vec<RetiredDeliveryToken> = Vec::new();
    let mut i: usize = 0;
    proof {
        assert(seqs::views(converted@) =~= dated(
            all.take(0),
            r.delivery_token,
            r.delivery_token_epoch,
            now_ms,
        ));
    }
    while i < tokens.len()
        invariant
            i <= tokens@.len(),
            all == seqs::views(tokens@),
            route@ == (RouteView { retired_delivery_tokens: Seq::empty(), ..r }),
            seqs::views(converted@) == dated(
                all.take(i as int),
                r.delivery_token,
                r.delivery_token_epoch,
                now_ms,
            ),
        decreases tokens@.len() - i,
    {
        let token = tokens[i].clone();
        proof {
            seqs::take_step(all, i as int);
            assert(all.take(i + 1).drop_last() =~= all.take(i as int));
        }
        if token != route.delivery_token && !has_token(&converted, token.as_str()) {
            let before: u64 = route.delivery_token_epoch.saturating_sub(1);
            let epoch: u64 = if before >= 1 {
                before
            } else {
                1
            };
            let entry = RetiredDeliveryToken {
                token,
                epoch,
                retire_after_ms: now_ms.saturating_add(DELIVERY_TOKEN_FALLBACK_TTL_MS),
            };
            proof {
                seqs::views_push(converted@, entry);
            }
            converted.push(entry);
        }
        i = i + 1;
    }
    proof {
        assert(all.take(i as int) =~= all);
        assert(seqs::views(route.pending_token_retirements@ + converted@) =~= seqs::views(
            route.pending_token_retirements@,
        ) + seqs::views(converted@));
    }
    route.pending_token_retirements.append(&mut converted);
    proof {
        assert(route@ =~= with_dates(r, now_ms));
    }
}

/// The token is still accepted.
pub open spec fn still_accepted(now_ms: u64) -> spec_fn(RetiredTokenView) -> bool {
    |t: RetiredTokenView| t.retire_after_ms > now_ms
}

/// The route without the tokens whose date has come.
pub open spec fn without_expired(r: RouteView, now_ms: u64) -> RouteView {
    let d = with_dates(r, now_ms);
    RouteView {
        pending_token_retirements: d.pending_token_retirements.filter(still_accepted(now_ms)),
        ..d
    }
}

/// Drops the tokens whose date has come; tells whether there were any.
pub fn prune_expired_token_retirements(route: &mut LocalRoute, now_ms: u64) -> (r: bool)
    ensures
        final(route)@ == without_expired(old(route)@, now_ms),
        r == (without_expired(old(route)@, now_ms).pending_token_retirements.len() != with_dates(
            old(route)@,
            now_ms,
        ).pending_token_retirements.len()),
{
    normalize_legacy_retired_tokens(route, now_ms);
    let ghost d = route@;
    let ghost all = d.pending_token_retirements;
    let ghost p = still_accepted(now_ms);
    let before: usize = route.pending_token_retirements.len();
    let mut out: Vec<RetiredDeliveryToken> = Vec::new();
    let mut i: usize = 0;
    proof {
        seqs::filter_empty(all.take(0), p);
        assert(seqs::views(out@) =~= all.take(0).filter(p));
    }
    while i < route.pending_token_retirements.len()
        invariant
            i <= route.pending_token_retirements@.len(),
            route@ == d,
            all == d.pending_token_retirements,
            p == still_accepted(now_ms),
            seqs::views(out@) == all.take(i as int).filter(p),
        decreases route.pending_token_retirements@.len() - i,
    {
        let t = route.pending_token_retirements[i].duplicate();
        proof {
            seqs::filter_take_step(all, i as int, p);
            seqs::views_push(out@, t);
        }
        if t.retire_after_ms > now_ms {
            out.push(t);
        }
        i = i + 1;
    }
    proof {
        assert(all.take(i as int) =~= all);
    }
    let after: usize = out.len();
    route.pending_token_retirements = out;
    proof {
        assert(route@ =~= without_expired(old(route)@, now_ms));
    }
    before != after
}

/// The route after the peer acknowledged an epoch: tokens whose date has come are dropped, and
/// all retired ones where the peer knows the current one.
pub open spec fn acknowledged(r: RouteView, acked_epoch: Option<u64>, now_ms: u64) -> RouteView {
    let d = without_expired(with_dates(r, now_ms), now_ms);
    if acked_epoch matches Some(e) && e >= d.delivery_token_epoch {
        RouteView { pending_token_retirements: Seq::empty(), ..d }
    } else {
        d
    }
}

/// Whether an acknowledgement shortens the list of retired tokens.
pub open spec fn acknowledgement_counts(
    r: RouteView,
    acked_epoch: Option<u64>,
    now_ms: u64,
) -> bool {
    with_dates(with_dates(r, now_ms), now_ms).pending_token_retirements.len() != acknowledged(
        r,
        acked_epoch,
        now_ms,
    ).pending_token_retirements.len()
}

/// Drops retired tokens that the peer no longer needs; tells whether the relay has to be told.
pub fn retire_acknowledged_tokens(
    route: &mut LocalRoute,
    acked_epoch: Option<u64>,
    now_ms: u64,
) -> (r: bool)
    ensures
        final(route)@ == acknowledged(old(route)@, acked_epoch, now_ms),
        r == acknowledgement_counts(old(route)@, acked_epoch, now_ms),
{
    normalize_legacy_retired_tokens(route, now_ms);
    let ghost dated_once = route@;
    let mut changed = prune_expired_token_retirements(route, now_ms);
    let ghost pruned = route@;
    proof {
        seqs::filter_members(
            with_dates(dated_once, now_ms).pending_token_retirements,
            still_accepted(now_ms),
        );
    }
    if let Some(acked) = acked_epoch {
        if acked >= route.delivery_token_epoch {
            if route.pending_token_retirements.len() != 0 {
                changed = true;
            }
            route.pending_token_retirements.clear();
            proof {
                assert(seqs::views(route.pending_token_retirements@) =~= Seq::<
                    RetiredTokenView,
                >::empty());
                assert(route@ =~= acknowledged(old(route)@, acked_epoch, now_ms));
            }
        }
    }
    changed
}

/// The delivery tokens to announce before a new one is used: the new one, the current one, and
/// those that are being retired.
pub open spec fn rotation_allowlist(r: RouteView, new_token: Seq<char>) -> Seq<Seq<char>> {
    seq![new_token, r.delivery_token] + fresh_of(
        seq![new_token, r.delivery_token],
        retired_tokens(r.pending_token_retirements),
    )
}

/// Those of `more` that are not in `seen` or earlier in `more`.
pub open spec fn fresh_of(seen: Seq<Seq<char>>, more: Seq<Seq<char>>) -> Seq<Seq<char>>
    decreases more.len(),
{
    if more.len() == 0 {
        more
    } else {
        let before = fresh_of(seen, more.drop_last());
        if (seen + before).contains(more.last()) {
            before
        } else {
            before.push(more.last())
        }
    }
}

/// The route with a new delivery token; the one that it replaces stays accepted for a while.
pub open spec fn token_rotated(r: RouteView, new_token: Seq<char>, now_ms: u64) -> RouteView {
    let epoch = if r.delivery_token_epoch == u64::MAX {
        u64::MAX
    } else if r.delivery_token_epoch == 0 {
        2
    } else {
        (r.delivery_token_epoch + 1) as u64
    };
    RouteView {
        delivery_token: new_token,
        delivery_token_epoch: epoch,
        pending_token_retirements: r.pending_token_retirements.push(
            RetiredTokenView {
                token: r.delivery_token,
                epoch: epoch_before(epoch),
                retire_after_ms: later(now_ms, DELIVERY_TOKEN_FALLBACK_TTL_MS),
            },
        ),
        ..r
    }
}

/// The delivery tokens to announce to the relay before a new one is used.
pub fn allowlist_for_rotation(route: &mut LocalRoute, new_token: &str, now_ms: u64) -> (r: Vec<
    String,
>)
    ensures
        final(route)@ == with_dates(old(route)@, now_ms),
        seqs::views(r@) == rotation_allowlist(with_dates(old(route)@, now_ms), new_token@),
{
    normalize_legacy_retired_tokens(route, now_ms);
    let mut out: Vec<String> = Vec::new();
    out.push(new_token.to_string());
    out.push(route.delivery_token.clone());
    let ghost head = seq![new_token@, route@.delivery_token];
    let more = tokens_of(&route.pending_token_retirements);
    let ghost all = seqs::views(more@);
    let mut i: usize = 0;
    proof {
        assert(seqs::views(out@) =~= head + fresh_of(head, all.take(0)));
    }
    while i < more.len()
        invariant
            i <= more@.len(),
            all == seqs::views(more@),
            seqs::views(out@) == head + fresh_of(head, all.take(i as int)),
        decreases more@.len() - i,
    {
        proof {
            seqs::take_step(all, i as int);
            assert(all.take(i + 1).drop_last() =~= all.take(i as int));
            let b = fresh_of(head, all.take(i as int));
            assert((head + b).push(all[i as int]) =~= head + b.push(all[i as int]));
        }
        text::push_distinct(&mut out, more[i].as_str());
        i = i + 1;
    }
    proof {
        assert(all.take(i as int) =~= all);
    }
    out
}

/// Uses a new delivery token once the relay confirmed that it accepts it.
pub fn rotate_delivery_token(route: &mut LocalRoute, new_token: String, now_ms: u64)
    ensures
        final(route)@ == token_rotated(old(route)@, new_token@, now_ms),
{
    let ghost r = route@;
    let next: u64 = route.delivery_token_epoch.saturating_add(1);
    let new_epoch: u64 = if next >= 2 {
        next
    } else {
        2
    };
    let before: u64 = new_epoch.saturating_sub(1);
    let old_epoch: u64 = if before >= 1 {
        before
    } else {
        1
    };
    let entry = RetiredDeliveryToken {
        token: route.delivery_token.clone(),
        epoch: old_epoch,
        retire_after_ms: now_ms.saturating_add(DELIVERY_TOKEN_FALLBACK_TTL_MS),
    };
    proof {
        seqs::views_push(route.pending_token_retirements@, entry);
    }
    route.delivery_token = new_token;
    route.delivery_token_epoch = new_epoch;
    route.pending_token_retirements.push(entry);
    proof {
        assert(route@ =~= token_rotated(r, new_token@, now_ms));
    }
}

} // verus!
