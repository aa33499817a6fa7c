//! Connection codes: making them, listing them, deleting them.
use crate::contacts;
use crate::encoding;
use crate::inbound;
use crate::keys;
use crate::keys::LocalBundle;
use crate::keys::LocalBundleView;
use crate::keys::OpkPublic;
use crate::keys::OpkPublicView;
use crate::payloads::InvitePayload;
use crate::payloads::InvitePayloadView;
use crate::plaintext;
use crate::routes;
use crate::routes::FreshRoute;
use crate::routes::FreshRouteView;
use crate::seqs;
use crate::seqs::Duplicate;
use crate::store::CodeView;
use crate::store::ConnectionCodeResponse;
use crate::store::InviteView;
use crate::store::KyberPreKeyBlob;
use crate::store::KyberView;
use crate::store::LocalRoute;
use crate::store::MessagingStore;
use crate::store::PendingInvite;
use crate::store::RouteView;
use crate::store::ServerSettingView;
use crate::store::StoreView;
use crate::text;
use crate::urls;
use vstd::prelude::*;

verus! {

/// How a relay is called that has no name.
pub const UNKNOWN_RELAY: &'static str = "Unknown relay";

/// The longest name of a relay, in characters.
pub const MAX_RELAY_NAME_CHARS: usize = 80;

// ---------------------------------------------------------------------------------------------
// Names of relays.
// ---------------------------------------------------------------------------------------------

/// The setting is that of the relay at a URL.
pub open spec fn setting_at(url: Seq<char>) -> spec_fn(ServerSettingView) -> bool {
    |s: ServerSettingView| urls::normalized(s.onion) == url
}

/// How the relay at a URL is called.
pub open spec fn relay_name(st: StoreView, server_url: Seq<char>) -> Seq<char> {
    let url = urls::normalized(server_url);
    match seqs::first_where(st.private_servers, setting_at(url)) {
        Some(s) => s.name,
        None => if url == urls::DEFAULT_DEV_SERVER@ {
            "Local dev relay"@
        } else {
            UNKNOWN_RELAY@
        },
    }
}

/// How the relay at a URL is called.
pub fn relay_display_name_for_url(store: &MessagingStore, server_url: &str) -> (r: String)
    ensures
        r@ == relay_name(store@, server_url@),
{
    let url = urls::normalize_url(server_url);
    let ghost all = seqs::views(store.private_servers@);
    let ghost target = relay_name(store@, server_url@);
    let mut i: usize = 0;
    while i < store.private_servers.len()
        invariant
            i <= store.private_servers@.len(),
            all == seqs::views(store.private_servers@),
            url@ == urls::normalized(server_url@),
            target == relay_name(store@, server_url@),
            forall|j: int| 0 <= j < i ==> !setting_at(url@)(#[trigger] all[j]),
        decreases store.private_servers@.len() - i,
    {
        let here = urls::normalize_url(store.private_servers[i].onion.as_str());
        if here == url {
            proof {
                assert(setting_at(url@)(all[i as int]));
                seqs::find_is(all, setting_at(url@), i as int);
            }
            return store.private_servers[i].name.clone();
        }
        i = i + 1;
    }
    proof {
        seqs::find_none(all, setting_at(url@));
    }
    if text::same_text(url.as_str(), urls::DEFAULT_DEV_SERVER) {
        return "Local dev relay".to_string();
    }
    UNKNOWN_RELAY.to_string()
}

/// A name for a relay, without white space around it and not too long.
pub open spec fn cleaned_name(name: Option<Seq<char>>) -> Option<Seq<char>> {
    match name {
        None => None,
        Some(n) => {
            let t = text::trimmed(n);
            if t.len() == 0 {
                None
            } else if t.len() <= MAX_RELAY_NAME_CHARS {
                Some(t)
            } else {
                Some(t.take(MAX_RELAY_NAME_CHARS as int))
            }
        },
    }
}

/// A name for a relay, without white space around it and not too long.
pub fn clean_relay_display_name(input: Option<String>) -> (r: Option<String>)
    ensures
        seqs::opt(r) == cleaned_name(seqs::opt(input)),
{
    match input {
        None => None,
        Some(n) => {
            let t = text::trim(n.as_str());
            if t.as_str().is_empty() {
                return None;
            }
            Some(text::take_chars(t.as_str(), MAX_RELAY_NAME_CHARS))
        },
    }
}

/// A connection code as it is shown.
pub open spec fn shown(st: StoreView, p: InviteView) -> CodeView {
    let current = relay_name(st, p.server_url);
    CodeView {
        id: p.id,
        code: p.code,
        created_at: p.created_at_ms,
        server_url: p.server_url,
        server_name: if current == UNKNOWN_RELAY@ && p.server_name is Some {
            p.server_name->0
        } else {
            current
        },
        reusable: p.reusable,
    }
}

/// A connection code as it is shown.
pub fn connection_code_response(store: &MessagingStore, pending: &PendingInvite)
    -> (r: ConnectionCodeResponse)
    ensures
        r@ == shown(store@, pending@),
{
    let current = relay_display_name_for_url(store, pending.server_url.as_str());
    let server_name = if text::same_text(current.as_str(), UNKNOWN_RELAY) {
        match &pending.server_name {
            Some(n) => n.clone(),
            None => current,
        }
    } else {
        current
    };
    ConnectionCodeResponse {
        id: pending.id.clone(),
        code: pending.code.clone(),
        created_at: pending.created_at_ms,
        server_url: pending.server_url.clone(),
        server_name,
        reusable: pending.reusable,
    }
}

// ---------------------------------------------------------------------------------------------
// Making a code.
// ---------------------------------------------------------------------------------------------

/// What a connection code offers: a route of its own, and the prekeys to start a session from.
pub open spec fn offered(
    me: LocalBundleView,
    display_name: Seq<char>,
    kyber: KyberView,
    opk: Option<OpkPublicView>,
    route: RouteView,
    now_ms: u64,
) -> InvitePayloadView {
    InvitePayloadView {
        v: 1,
        protocol: contacts::PROTOCOL_SIGNAL@,
        display_name: text::trimmed(display_name),
        mailbox_id: route.mailbox_id,
        delivery_token: route.delivery_token,
        server_url: route.server_url,
        device_id: plaintext::DEVICE_ID,
        identity_public_b64: encoding::b64_text(me.public_key, false),
        registration_id: me.registration_id as u32,
        signed_prekey_id: me.signed_prekey_id,
        signed_prekey_public_b64: encoding::b64_text(me.signed_prekey_public, false),
        signed_prekey_signature_b64: encoding::b64_text(me.signed_prekey_signature, false),
        opk_id: match opk {
            Some(o) => Some(o.id),
            None => None,
        },
        opk_public_b64: match opk {
            Some(o) => Some(encoding::b64_text(o.public_key, false)),
            None => None,
        },
        kyber_prekey_id: Some(kyber.id),
        kyber_prekey_public_b64: Some(kyber.public_b64),
        kyber_prekey_signature_b64: Some(kyber.signature_b64),
        created_at_ms: now_ms,
    }
}

/// An invite that is being made: its route, and what its bundle says.
pub struct InviteDraft {
    pub route: LocalRoute,
    pub payload: InvitePayload,
}

/// An invite that is being made.
#[verifier::ext_equal]
pub struct InviteDraftView {
    pub route: RouteView,
    pub payload: InvitePayloadView,
}

impl View for InviteDraft {
    type V = InviteDraftView;

    open spec fn view(&self) -> InviteDraftView {
        InviteDraftView { route: self.route@, payload: self.payload@ }
    }
}

/// The route of an invite.
pub open spec fn invite_route(f: FreshRouteView, server_url: Option<Seq<char>>, now_ms: u64)
    -> RouteView {
    routes::made_route(
        f,
        urls::normalized_opt(server_url),
        "pending_invite"@,
        Some(routes::later(now_ms, contacts::CONNECTION_CODE_TTL_MS)),
        now_ms,
    )
}

/// The store after an invite was begun, and the invite: one for single use takes a one-time
/// prekey that was never offered.
pub open spec fn drafted(
    st: StoreView,
    me: LocalBundleView,
    display_name: Seq<char>,
    kyber: KyberView,
    server_url: Option<Seq<char>>,
    reusable: bool,
    f: FreshRouteView,
    now_ms: u64,
) -> (StoreView, Result<InviteDraftView, Seq<char>>) {
    let s1 = routes::cleaned(st, now_ms);
    let route = invite_route(f, server_url, now_ms);
    if reusable {
        (
            s1,
            Ok(
                InviteDraftView {
                    route,
                    payload: offered(me, display_name, kyber, None, route, now_ms),
                },
            ),
        )
    } else {
        match keys::opk_taken(s1, me.opks_public) {
            (s2, Err(e)) => (s2, Err(e)),
            (s2, Ok(o)) => (
                s2,
                Ok(
                    InviteDraftView {
                        route,
                        payload: offered(me, display_name, kyber, Some(o), route, now_ms),
                    },
                ),
            ),
        }
    }
}

/// Begins an invite.
pub fn draft_invite(
    store: &mut MessagingStore,
    me: &LocalBundle,
    display_name: &str,
    kyber: &KyberPreKeyBlob,
    server_url: Option<String>,
    reusable: bool,
    fresh: FreshRoute,
    now_ms: u64,
) -> (r: Result<InviteDraft, String>)
    ensures
        (final(store)@, seqs::outcome(r)) == drafted(
            old(store)@,
            me@,
            display_name@,
            kyber@,
            seqs::opt(server_url),
            reusable,
            fresh@,
            now_ms,
        ),
{
    routes::cleanup_expired_routes(store, now_ms);
    let opk: Option<OpkPublic> = if reusable {
        None
    } else {
        match keys::take_opk(store, &me.opks_public) {
            Ok(o) => Some(o),
            Err(e) => {
                return Err(e);
            },
        }
    };
    let expires: u64 = now_ms.saturating_add(contacts::CONNECTION_CODE_TTL_MS);
    let url = urls::normalize_server_url(server_url);
    let route = routes::make_route(
        fresh,
        url.as_str(),
        "pending_invite".to_string(),
        Some(expires),
        now_ms,
    );
    let (opk_id, opk_public_b64) = match &opk {
        Some(o) => (Some(o.id), Some(encoding::to_b64(o.public_key.as_slice()))),
        None => (None, None),
    };
    let payload = InvitePayload {
        v: 1,
        protocol: contacts::PROTOCOL_SIGNAL.to_string(),
        display_name: text::trim(display_name),
        mailbox_id: route.mailbox_id.clone(),
        delivery_token: route.delivery_token.clone(),
        server_url: route.server_url.clone(),
        device_id: plaintext::DEVICE_ID,
        identity_public_b64: encoding::to_b64(me.public_key.as_slice()),
        registration_id: me.registration_id as u32,
        signed_prekey_id: me.signed_prekey_id,
        signed_prekey_public_b64: encoding::to_b64(me.signed_prekey_public.as_slice()),
        signed_prekey_signature_b64: encoding::to_b64(me.signed_prekey_signature.as_slice()),
        opk_id,
        opk_public_b64,
        kyber_prekey_id: Some(kyber.id),
        kyber_prekey_public_b64: Some(kyber.public_b64.clone()),
        kyber_prekey_signature_b64: Some(kyber.signature_b64.clone()),
        created_at_ms: now_ms,
    };
    Ok(InviteDraft { route, payload })
}

/// An invite that waits to be used.
pub open spec fn pending(
    st: StoreView,
    route: RouteView,
    id: Seq<char>,
    code: Seq<char>,
    server_name: Option<Seq<char>>,
    reusable: bool,
    now_ms: u64,
) -> InviteView {
    let inferred = relay_name(st, route.server_url);
    InviteView {
        id,
        code,
        mailbox_id: route.mailbox_id,
        server_url: route.server_url,
        server_name: match cleaned_name(server_name) {
            Some(n) => Some(n),
            None => if inferred == UNKNOWN_RELAY@ {
                None
            } else {
                Some(inferred)
            },
        },
        route_id: Some(route.id),
        created_at_ms: now_ms,
        expires_at_ms: routes::later(now_ms, contacts::CONNECTION_CODE_TTL_MS),
        reusable,
    }
}

/// The store after an invite was made, and the code as it is shown.
pub open spec fn issued(
    st: StoreView,
    route: RouteView,
    id: Seq<char>,
    code: Seq<char>,
    server_name: Option<Seq<char>>,
    reusable: bool,
    now_ms: u64,
) -> (StoreView, CodeView) {
    let p = pending(st, route, id, code, server_name, reusable, now_ms);
    (
        StoreView {
            local_routes: st.local_routes.push(route),
            pending_invites: st.pending_invites.push(p),
            ..st
        },
        shown(st, p),
    )
}

/// Stores an invite once its code is made.
pub fn issue_invite(
    store: &mut MessagingStore,
    route: LocalRoute,
    id: String,
    code: String,
    server_name: Option<String>,
    reusable: bool,
    now_ms: u64,
) -> (r: ConnectionCodeResponse)
    ensures
        (final(store)@, r@) == issued(
            old(store)@,
            route@,
            id@,
            code@,
            seqs::opt(server_name),
            reusable,
            now_ms,
        ),
{
    let inferred = relay_display_name_for_url(store, route.server_url.as_str());
    let name = match clean_relay_display_name(server_name) {
        Some(n) => Some(n),
        None => if text::same_text(inferred.as_str(), UNKNOWN_RELAY) {
            None
        } else {
            Some(inferred)
        },
    };
    let p = PendingInvite {
        id,
        code,
        mailbox_id: route.mailbox_id.clone(),
        server_url: route.server_url.clone(),
        server_name: name,
        route_id: Some(route.id.clone()),
        created_at_ms: now_ms,
        expires_at_ms: now_ms.saturating_add(contacts::CONNECTION_CODE_TTL_MS),
        reusable,
    };
    let response = connection_code_response(store, &p);
    proof {
        assert(p@ =~= pending(
            store@,
            route@,
            id@,
            code@,
            seqs::opt(server_name),
            reusable,
            now_ms,
        ));
        seqs::views_push(store.local_routes@, route);
        seqs::views_push(store.pending_invites@, p);
    }
    store.local_routes.push(route);
    store.pending_invites.push(p);
    response
}

// ---------------------------------------------------------------------------------------------
// Listing and deleting.
// ---------------------------------------------------------------------------------------------

/// The codes as they are shown.
pub open spec fn all_shown(st: StoreView, s: Seq<InviteView>) -> Seq<CodeView> {
    s.map_values(|p: InviteView| shown(st, p))
}

/// The codes that can still be used.
pub fn list_connection_codes(store: &mut MessagingStore, now_ms: u64) -> (r: Vec<
    ConnectionCodeResponse,
>)
    ensures
        final(store)@ == routes::cleaned(old(store)@, now_ms),
        seqs::views(r@) == all_shown(final(store)@, final(store)@.pending_invites),
{
    routes::cleanup_expired_routes(store, now_ms);
    let ghost st = store@;
    let ghost all = all_shown(st, st.pending_invites);
    let mut out: Vec<ConnectionCodeResponse> = Vec::new();
    let mut i: usize = 0;
    proof {
        assert(seqs::views(out@) =~= all.take(0));
    }
    while i < store.pending_invites.len()
        invariant
            i <= store.pending_invites@.len(),
            st == store@,
            st == routes::cleaned(old(store)@, now_ms),
            all == all_shown(st, st.pending_invites),
            seqs::views(out@) == all.take(i as int),
        decreases store.pending_invites@.len() - i,
    {
        let response = connection_code_response(store, &store.pending_invites[i]);
        proof {
            seqs::take_step(all, i as int);
            seqs::views_push(out@, response);
        }
        out.push(response);
        i = i + 1;
    }
    proof {
        assert(all.take(i as int) =~= all);
    }
    out
}

/// The invite has another id.
pub open spec fn invite_is_not(id: Seq<char>) -> spec_fn(InviteView) -> bool {
    |p: InviteView| p.id != id
}

/// The invite has the id, and a route.
pub open spec fn invite_with_route(id: Seq<char>) -> spec_fn(InviteView) -> bool {
    |p: InviteView| p.id == id && p.route_id is Some
}

/// The routes of the invites with an id.
pub open spec fn routes_of_invite(s: Seq<InviteView>, id: Seq<char>) -> Seq<Seq<char>> {
    s.filter(invite_with_route(id)).map_values(|p: InviteView| p.route_id->0)
}

/// The route has one of the ids.
pub open spec fn route_among(ids: Seq<Seq<char>>) -> spec_fn(RouteView) -> bool {
    |r: RouteView| ids.contains(r.id)
}

/// The connections of the routes with the given ids.
pub open spec fn connections_of(s: Seq<RouteView>, ids: Seq<Seq<char>>) -> Seq<Seq<char>> {
    s.filter(route_among(ids)).map_values(|r: RouteView| routes::connection_id(r))
}

/// The store after a code was deleted, and the connections that it used: its routes are given up.
pub open spec fn deleted(st: StoreView, id: Seq<char>, now_ms: u64) -> (
    StoreView,
    Seq<Seq<char>>,
) {
    let ids = routes_of_invite(st.pending_invites, id);
    (
        routes::cleaned(
            StoreView {
                pending_invites: st.pending_invites.filter(invite_is_not(id)),
                local_routes: inbound::with_given_up(st.local_routes, ids, now_ms),
                ..st
            },
            now_ms,
        ),
        connections_of(st.local_routes, ids),
    )
}

fn take_invite_routes(invites: &mut Vec<PendingInvite>, id: &str) -> (r: Vec<String>)
    ensures
        seqs::views(r@) == routes_of_invite(seqs::views(old(invites)@), id@),
        seqs::views(final(invites)@) == seqs::views(old(invites)@).filter(invite_is_not(id@)),
{
    let ghost all = seqs::views(invites@);
    let ghost p = invite_with_route(id@);
    let ghost q = invite_is_not(id@);
    let n: usize = invites.len();
    let mut out: Vec<String> = Vec::new();
    let mut kept: Vec<PendingInvite> = Vec::new();
    let mut i: usize = 0;
    proof {
        seqs::filter_empty(all.take(0), p);
        seqs::filter_empty(all.take(0), q);
        assert(seqs::views(kept@) =~= Seq::<InviteView>::empty());
        assert(seqs::views(out@) =~= routes_of_invite(all.take(0), id@));
    }
    while i < n
        invariant
            i <= n,
            n == invites@.len(),
            all == seqs::views(invites@),
            p == invite_with_route(id@),
            q == invite_is_not(id@),
            seqs::views(out@) == routes_of_invite(all.take(i as int), id@),
            seqs::views(kept@) == all.take(i as int).filter(q),
        decreases n - i,
    {
        proof {
            seqs::filter_take_step(all, i as int, p);
            seqs::filter_take_step(all, i as int, q);
            assert(all[i as int] == invites@[i as int]@);
        }
        if text::same_text(invites[i].id.as_str(), id) {
            if let Some(route_id) = &invites[i].route_id {
                let copy = route_id.clone();
                proof {
                    seqs::views_push(out@, copy);
                    assert(routes_of_invite(all.take(i + 1), id@) =~= routes_of_invite(
                        all.take(i as int),
                        id@,
                    ).push(copy@));
                }
                out.push(copy);
            }
        } else {
            let copy = invites[i].duplicate();
            proof {
                seqs::views_push(kept@, copy);
            }
            kept.push(copy);
        }
        i = i + 1;
    }
    proof {
        assert(all.take(i as int) =~= all);
    }
    *invites = kept;
    out
}

fn connection_ids(all_routes: &Vec<LocalRoute>, ids: &Vec<String>) -> (r: Vec<String>)
    ensures
        seqs::views(r@) == connections_of(seqs::views(all_routes@), seqs::views(ids@)),
{
    let ghost all = seqs::views(all_routes@);
    let ghost given = seqs::views(ids@);
    let ghost p = route_among(given);
    let mut out: Vec<String> = Vec::new();
    let mut i: usize = 0;
    proof {
        seqs::filter_empty(all.take(0), p);
        assert(seqs::views(out@) =~= connections_of(all.take(0), given));
    }
    while i < all_routes.len()
        invariant
            i <= all_routes@.len(),
            all == seqs::views(all_routes@),
            given == seqs::views(ids@),
            p == route_among(given),
            seqs::views(out@) == connections_of(all.take(i as int), given),
        decreases all_routes@.len() - i,
    {
        proof {
            seqs::filter_take_step(all, i as int, p);
            assert(all[i as int] == all_routes@[i as int]@);
        }
        if text::contains_text(ids, all_routes[i].id.as_str()) {
            let c = routes::route_connection_id(&all_routes[i]);
            proof {
                seqs::views_push(out@, c);
                assert(connections_of(all.take(i + 1), given) =~= connections_of(
                    all.take(i as int),
                    given,
                ).push(c@));
            }
            out.push(c);
        }
        i = i + 1;
    }
    proof {
        assert(all.take(i as int) =~= all);
    }
    out
}

/// Deletes a code, gives up its routes, and tells which connections they used.
pub fn delete_connection_code(store: &mut MessagingStore, id: &str, now_ms: u64) -> (r: Vec<String>)
    ensures
        (final(store)@, seqs::views(r@)) == deleted(old(store)@, id@, now_ms),
{
    let ids = take_invite_routes(&mut store.pending_invites, id);
    let connections = connection_ids(&store.local_routes, &ids);
    inbound::give_up_routes(&mut store.local_routes, &ids, now_ms);
    routes::cleanup_expired_routes(store, now_ms);
    connections
}

// ---------------------------------------------------------------------------------------------
// Laws.
// ---------------------------------------------------------------------------------------------

/// A code that is read back within a day introduces its maker: the contact that it makes has the
/// identity, the mailbox, the delivery token and the prekeys that the code offers.
pub proof fn codes_introduce_their_maker(
    me: LocalBundleView,
    display_name: Seq<char>,
    kyber: KyberView,
    opk: Option<OpkPublicView>,
    route: RouteView,
    made_ms: u64,
    reader: Seq<u8>,
    now_ms: u64,
)
    requires
        reader != me.public_key,
        made_ms <= routes::later(now_ms, contacts::MAX_CLOCK_DRIFT_MS),
        routes::later(made_ms, contacts::CONNECTION_CODE_TTL_MS) >= now_ms,
    ensures
        ({
            let p = offered(me, display_name, kyber, opk, route, made_ms);
            &&& contacts::introduced(p, reader, now_ms) matches Ok(c)
            &&& c.recipient_id == route.mailbox_id
            &&& c.delivery_token == route.delivery_token
            &&& c.server_url == urls::normalized(route.server_url)
            &&& encoding::b64_bytes(c.identity_public_b64, false) == Some(me.public_key)
            &&& c.registration_id == me.registration_id
            &&& c.signed_prekey_id == me.signed_prekey_id
            &&& encoding::b64_bytes(c.signed_prekey_public_b64, false) == Some(
                me.signed_prekey_public,
            )
            &&& encoding::b64_bytes(c.signed_prekey_signature_b64, false) == Some(
                me.signed_prekey_signature,
            )
            &&& match opk {
                Some(o) => c.opk_id == Some(o.id) && (c.opk_public_b64 matches Some(t)
                    && encoding::b64_bytes(t, false) == Some(o.public_key)),
                None => c.opk_id is None && c.opk_public_b64 is None,
            }
            &&& c.kyber_prekey_id == Some(kyber.id)
            &&& c.kyber_prekey_public_b64 == Some(kyber.public_b64)
            &&& c.kyber_prekey_signature_b64 == Some(kyber.signature_b64)
            &&& c.trust_state == "unverified"@
        }),
{
    encoding::b64_round_trip(me.public_key, false);
    encoding::b64_round_trip(me.signed_prekey_public, false);
    encoding::b64_round_trip(me.signed_prekey_signature, false);
    if let Some(o) = opk {
        encoding::b64_round_trip(o.public_key, false);
    }
}

/// A deleted code is gone, and so is every route that was only its.
pub proof fn deleted_codes_are_gone(st: StoreView, id: Seq<char>, now_ms: u64)
    ensures
        forall|i: int|
            0 <= i < deleted(st, id, now_ms).0.pending_invites.len()
                ==> (#[trigger] deleted(st, id, now_ms).0.pending_invites[i]).id != id,
        forall|r: RouteView|
            deleted(st, id, now_ms).0.local_routes.contains(r) ==> !(#[trigger] routes_of_invite(
                st.pending_invites,
                id,
            ).contains(r.id)),
{
    let ids = routes_of_invite(st.pending_invites, id);
    let invites = st.pending_invites.filter(invite_is_not(id));
    let given = inbound::with_given_up(st.local_routes, ids, now_ms);
    seqs::filter_members(st.pending_invites, invite_is_not(id));
    seqs::filter_members(invites, routes::live_invite(now_ms));
    seqs::filter_members(given, routes::live_route(now_ms));
    let after = deleted(st, id, now_ms).0;
    assert forall|i: int| 0 <= i < after.pending_invites.len() implies (
    #[trigger] after.pending_invites[i]).id != id by {
        let p = after.pending_invites[i];
        assert(invites.filter(routes::live_invite(now_ms)).contains(p));
        assert(invites.contains(p));
        assert(invite_is_not(id)(p));
    }
    assert forall|r: RouteView| after.local_routes.contains(r) implies !(
    #[trigger] ids.contains(r.id)) by {
        assert(given.filter(routes::live_route(now_ms)).contains(r));
        assert(given.contains(r));
        let k = choose|k: int| 0 <= k < given.len() && given[k] == r;
        if ids.contains(r.id) {
            assert(given[k] == inbound::given_up(st.local_routes[k], now_ms));
            assert(!routes::live_route(now_ms)(r));
        }
    }
}

} // verus!
