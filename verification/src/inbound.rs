//! Receiving: from an envelope to the store.
use crate::encoding;
use crate::padding;
use crate::payloads::DecryptedSignalText;
use crate::payloads::DecryptedView;
use crate::payloads::SealedSignalWireMessage;
use crate::payloads::WireView;
use crate::routes;
use crate::routes::FreshRoute;
use crate::routes::FreshRouteView;
use crate::routes::RouteKeys;
use crate::routes::RouteKeysView;
use crate::seqs;
use crate::seqs::Duplicate;
use crate::store::InviteView;
use crate::store::LocalRoute;
use crate::store::MessageView;
use crate::store::MessagingStore;
use crate::store::PendingInvite;
use crate::store::RouteView;
use crate::store::StoreView;
use crate::store::StoredMessage;
use crate::text;
use crate::urls;
use vstd::prelude::*;

verus! {

/// The type of an envelope that carries a sealed message.
pub const ENVELOPE_TYPE_SEALED_SIGNAL: &'static str = "axeno_sealed_signal_v1";

/// The type of an envelope of earlier versions.
pub const ENVELOPE_TYPE_SIGNAL: &'static str = "axeno_signal_v1";

/// Whether envelopes of the type are for the messaging layer.
pub fn is_signal_envelope(envelope_type: &str) -> (r: bool)
    ensures
        r == (envelope_type@ == ENVELOPE_TYPE_SEALED_SIGNAL@ || envelope_type@
            == ENVELOPE_TYPE_SIGNAL@),
{
    text::same_text(envelope_type, ENVELOPE_TYPE_SEALED_SIGNAL) || text::same_text(
        envelope_type,
        ENVELOPE_TYPE_SIGNAL,
    )
}

/// The route that an envelope was sent to: the one with that mailbox, or that of an early profile.
pub open spec fn receiving_route(
    st: StoreView,
    mailbox_id: Seq<char>,
    server_id: Seq<char>,
    keys: RouteKeysView,
) -> Result<RouteView, Seq<char>> {
    match seqs::first_where(st.local_routes, routes::serves(mailbox_id)) {
        Some(r) => Ok(r),
        None => match st.local_profile {
            Some(p) => Ok(
                routes::profile_route(p, server_id, urls::DEFAULT_DEV_SERVER@, keys),
            ),
            None => Err("incoming envelope was not addressed to a known local mailbox"@),
        },
    }
}

/// The route that an envelope was sent to.
pub fn route_for_envelope(
    store: &MessagingStore,
    mailbox_id: &str,
    server_id: &str,
    keys: RouteKeys,
) -> (r: Result<LocalRoute, String>)
    ensures
        seqs::outcome(r) == receiving_route(store@, mailbox_id@, server_id@, keys@),
{
    match routes::route_for_mailbox(store, mailbox_id) {
        Some(r) => Ok(r),
        None => match &store.local_profile {
            Some(p) => {
                let profile = p.duplicate();
                Ok(
                    routes::legacy_route_from_profile(
                        profile,
                        server_id.to_string(),
                        urls::DEFAULT_DEV_SERVER.to_string(),
                        keys,
                    ),
                )
            },
            None => Err(
                "incoming envelope was not addressed to a known local mailbox".to_string(),
            ),
        },
    }
}

/// The sealed message in an envelope, or why there is none: padding is taken off where there is
/// any.
pub open spec fn sealed_in(w: WireView) -> Result<Seq<u8>, Seq<char>> {
    if w.v != 1 {
        Err("unsupported sealed Signal envelope version"@)
    } else {
        match encoding::b64_bytes(w.sealed_sender_b64, false) {
            Some(raw) => Ok(padding::unpadded_or_same(raw)),
            None => Err("bad sealed sender ciphertext encoding"@),
        }
    }
}

/// The sealed message in an envelope.
pub fn sealed_message(wire: &SealedSignalWireMessage) -> (r: Result<Vec<u8>, String>)
    ensures
        seqs::outcome(r) == sealed_in(wire@),
{
    if wire.v != 1 {
        return Err("unsupported sealed Signal envelope version".to_string());
    }
    match encoding::from_b64(wire.sealed_sender_b64.as_str()) {
        Some(raw) => Ok(padding::unpad_or_same(raw)),
        None => Err("bad sealed sender ciphertext encoding".to_string()),
    }
}

/// A sealed message as it travels: padded, in base64.
pub open spec fn wire_of(padded: Seq<u8>) -> WireView {
    WireView { v: 1, sealed_sender_b64: encoding::b64_text(padded, false) }
}

/// Wraps a padded sealed message for an envelope.
pub fn wrap_sealed(padded: &[u8]) -> (r: SealedSignalWireMessage)
    ensures
        r@ == wire_of(padded@),
{
    SealedSignalWireMessage { v: 1, sealed_sender_b64: encoding::to_b64(padded) }
}

/// What a sealed message was wrapped into gives the message back.
pub proof fn wrapped_messages_are_read_back(raw: Seq<u8>, noise: Seq<u8>)
    requires
        raw.len() <= u32::MAX,
        noise.len() == padding::noise_len(raw.len()),
    ensures
        sealed_in(wire_of(padding::padded(raw, noise))) == Ok::<Seq<u8>, Seq<char>>(raw),
{
    padding::padding_round_trip(raw, noise, Seq::empty());
    assert(padding::padded(raw, noise) + Seq::<u8>::empty() =~= padding::padded(raw, noise));
    encoding::b64_round_trip(padding::padded(raw, noise), false);
}

// ---------------------------------------------------------------------------------------------
// Taking a message into the store.
// ---------------------------------------------------------------------------------------------

/// The message has the id.
pub open spec fn message_is(id: Seq<char>) -> spec_fn(MessageView) -> bool {
    |m: MessageView| m.id == id
}

/// A message that came in.
pub open spec fn received_message(d: DecryptedView, contact_id: Seq<char>, at_ms: u64)
    -> MessageView {
    MessageView {
        id: d.message_id,
        contact_id,
        mine: false,
        text: d.body,
        timestamp: d.sent_at_ms,
        received_at_ms: Some(at_ms),
        status: "received"@,
    }
}

/// The invite's route whose replacement the peer has shown to know.
pub open spec fn replacement_known(all: Seq<RouteView>, mailbox: Seq<char>) -> spec_fn(
    RouteView,
) -> bool {
    |r: RouteView|
        routes::retiring_invite(r) && r.replacement_route_id is Some && (match seqs::first_where(
            all,
            routes::route_is(r.replacement_route_id->0),
        ) {
            Some(c) => c.mailbox_id == mailbox,
            None => false,
        })
}

/// The ids of the routes.
pub open spec fn ids_of(s: Seq<RouteView>) -> Seq<Seq<char>> {
    s.map_values(|r: RouteView| r.id)
}

/// A route that is given up.
pub open spec fn given_up(r: RouteView, at_ms: u64) -> RouteView {
    RouteView { active: false, expires_at_ms: Some(at_ms), ..r }
}

/// The routes, those with the given ids given up.
pub open spec fn with_given_up(s: Seq<RouteView>, ids: Seq<Seq<char>>, at_ms: u64) -> Seq<
    RouteView,
> {
    Seq::new(
        s.len(),
        |i: int|
            if ids.contains(s[i].id) {
                given_up(s[i], at_ms)
            } else {
                s[i]
            },
    )
}

/// The routes after the peer has shown to know a mailbox: invites' routes that it replaced go.
pub open spec fn invites_retired(s: Seq<RouteView>, acked: Option<Seq<char>>, at_ms: u64) -> Seq<
    RouteView,
> {
    match acked {
        None => s,
        Some(mailbox) => with_given_up(
            s,
            ids_of(s.filter(replacement_known(s, mailbox))),
            at_ms,
        ),
    }
}

/// Gives up the routes with the given ids.
pub fn give_up_routes(all: &mut Vec<LocalRoute>, ids: &Vec<String>, at_ms: u64)
    ensures
        seqs::views(final(all)@) == with_given_up(
            seqs::views(old(all)@),
            seqs::views(ids@),
            at_ms,
        ),
        final(all)@.len() == old(all)@.len(),
{
    let ghost before = seqs::views(all@);
    let ghost given = seqs::views(ids@);
    let n: usize = all.len();
    let mut i: usize = 0;
    while i < n
        invariant
            i <= n,
            n == all@.len(),
            n == before.len(),
            given == seqs::views(ids@),
            forall|j: int|
                0 <= j < n ==> (#[trigger] all@[j])@ == if j < i {
                    with_given_up(before, given, at_ms)[j]
                } else {
                    before[j]
                },
        decreases n - i,
    {
        if text::contains_text(ids, all[i].id.as_str()) {
            let mut r = all[i].duplicate();
            r.active = false;
            r.expires_at_ms = Some(at_ms);
            all.set(i, r);
        }
        i = i + 1;
    }
    proof {
        assert(seqs::views(all@) =~= with_given_up(before, given, at_ms));
    }
}

fn is_replacement_known(all: &Vec<LocalRoute>, r: &LocalRoute, mailbox: &str) -> (b: bool)
    ensures
        b == replacement_known(seqs::views(all@), mailbox@)(r@),
{
    if !routes::route_is_retiring_invite(r) {
        return false;
    }
    match &r.replacement_route_id {
        None => false,
        Some(id) => match routes::find_route(all, id.as_str()) {
            Some(k) => text::same_text(all[k].mailbox_id.as_str(), mailbox),
            None => false,
        },
    }
}

fn retire_invites(all: &mut Vec<LocalRoute>, acked: &Option<String>, at_ms: u64)
    ensures
        seqs::views(final(all)@) == invites_retired(
            seqs::views(old(all)@),
            seqs::opt(*acked),
            at_ms,
        ),
{
    if let Some(mailbox) = acked {
        let ghost before = seqs::views(all@);
        let ghost p = replacement_known(before, mailbox@);
        let mut ids: Vec<String> = Vec::new();
        let mut i: usize = 0;
        proof {
            seqs::filter_empty(before.take(0), p);
            assert(seqs::views(ids@) =~= ids_of(before.take(0).filter(p)));
        }
        while i < all.len()
            invariant
                i <= all@.len(),
                before == seqs::views(all@),
                p == replacement_known(before, mailbox@),
                seqs::views(ids@) == ids_of(before.take(i as int).filter(p)),
            decreases all@.len() - i,
        {
            proof {
                seqs::filter_take_step(before, i as int, p);
                assert(before[i as int] == all@[i as int]@);
            }
            if is_replacement_known(all, &all[i], mailbox.as_str()) {
                let id = all[i].id.clone();
                proof {
                    seqs::views_push(ids@, id);
                    assert(ids_of(before.take(i + 1).filter(p)) =~= ids_of(
                        before.take(i as int).filter(p),
                    ).push(id@));
                }
                ids.push(id);
            }
            i = i + 1;
        }
        proof {
            assert(before.take(i as int) =~= before);
        }
        give_up_routes(all, &ids, at_ms);
    }
}

/// The delivery tokens that a relay is to accept from now on.
pub struct AllowlistUpdate {
    pub connection_id: String,
    pub tokens: Vec<String>,
}

/// The delivery tokens that a relay is to accept from now on.
#[verifier::ext_equal]
pub struct AllowlistView {
    pub connection_id: Seq<char>,
    pub tokens: Seq<Seq<char>>,
}

impl View for AllowlistUpdate {
    type V = AllowlistView;

    open spec fn view(&self) -> AllowlistView {
        AllowlistView {
            connection_id: self.connection_id@,
            tokens: seqs::views(self.tokens@),
        }
    }
}

/// The routes after the peer acknowledged an epoch of the one that it wrote to, and what the
/// relay has to be told.
pub open spec fn tokens_retired(
    s: Seq<RouteView>,
    route_id: Seq<char>,
    acked_epoch: Option<u64>,
    at_ms: u64,
) -> (Seq<RouteView>, Option<AllowlistView>) {
    match seqs::find(s, routes::route_is(route_id)) {
        Some(i) if routes::acknowledgement_counts(s[i], acked_epoch, at_ms) => {
            let r = routes::acknowledged(s[i], acked_epoch, at_ms);
            (
                s.update(i, r),
                Some(
                    AllowlistView {
                        connection_id: routes::connection_id(r),
                        tokens: routes::allowlist(r),
                    },
                ),
            )
        },
        _ => (s, None),
    }
}

fn retire_tokens(
    all: &mut Vec<LocalRoute>,
    route_id: &str,
    acked_epoch: Option<u64>,
    at_ms: u64,
) -> (r: Option<AllowlistUpdate>)
    ensures
        (seqs::views(final(all)@), seqs::opt(r)) == tokens_retired(
            seqs::views(old(all)@),
            route_id@,
            acked_epoch,
            at_ms,
        ),
{
    if let Some(i) = routes::find_route(all, route_id) {
        let mut route = all[i].duplicate();
        if routes::retire_acknowledged_tokens(&mut route, acked_epoch, at_ms) {
            let update = AllowlistUpdate {
                connection_id: routes::route_connection_id(&route),
                tokens: routes::route_delivery_allowlist(&route),
            };
            proof {
                seqs::views_update(all@, i as int, route);
            }
            all.set(i, route);
            return Some(update);
        }
    }
    None
}

/// The store after a message on a route settled what the route is for: an invite's route is
/// replaced by a private one, which is handed out; another becomes the contact's.
pub open spec fn route_settled(
    st: StoreView,
    route_id: Seq<char>,
    contact_id: Seq<char>,
    f: FreshRouteView,
    at_ms: u64,
) -> (StoreView, Option<RouteView>) {
    match seqs::find(st.local_routes, routes::route_is(route_id)) {
        None => (st, None),
        Some(i) => {
            let r = st.local_routes[i];
            if r.scope == "pending_invite"@ {
                let fresh = routes::made_route(
                    f,
                    r.server_url,
                    routes::contact_scope(contact_id),
                    None,
                    at_ms,
                );
                let retiring = RouteView {
                    scope: "retiring_invite:"@ + contact_id,
                    replacement_route_id: Some(fresh.id),
                    expires_at_ms: None,
                    ..r
                };
                (
                    StoreView {
                        local_routes: st.local_routes.update(i, retiring).push(fresh),
                        contacts: routes::with_contact_route(st.contacts, contact_id, fresh.id),
                        ..st
                    },
                    Some(fresh),
                )
            } else if !routes::sender_hold(r, contact_id) && !routes::retiring_invite(r) {
                (
                    StoreView {
                        local_routes: st.local_routes.update(
                            i,
                            RouteView {
                                scope: routes::contact_scope(contact_id),
                                expires_at_ms: None,
                                ..r
                            },
                        ),
                        ..st
                    },
                    None,
                )
            } else {
                (st, None)
            }
        },
    }
}

fn settle_route(
    store: &mut MessagingStore,
    route_id: &str,
    contact_id: &str,
    fresh: FreshRoute,
    at_ms: u64,
) -> (r: Option<LocalRoute>)
    ensures
        (final(store)@, seqs::opt(r)) == route_settled(
            old(store)@,
            route_id@,
            contact_id@,
            fresh@,
            at_ms,
        ),
{
    let i: usize = match routes::find_route(&store.local_routes, route_id) {
        None => {
            return None;
        },
        Some(i) => i,
    };
    let mut r = store.local_routes[i].duplicate();
    if text::same_text(r.scope.as_str(), "pending_invite") {
        let scope = text::concat2("contact:", contact_id);
        let new_route = routes::make_route(fresh, r.server_url.as_str(), scope, None, at_ms);
        r.scope = text::concat2("retiring_invite:", contact_id);
        r.replacement_route_id = Some(new_route.id.clone());
        r.expires_at_ms = None;
        proof {
            seqs::views_update(store.local_routes@, i as int, r);
        }
        store.local_routes.set(i, r);
        routes::set_contact_route(&mut store.contacts, contact_id, new_route.id.as_str());
        let copy = new_route.duplicate();
        proof {
            seqs::views_push(store.local_routes@, copy);
        }
        store.local_routes.push(copy);
        return Some(new_route);
    }
    if !routes::route_is_sender_hold(&r, contact_id) && !routes::route_is_retiring_invite(&r) {
        r.scope = text::concat2("contact:", contact_id);
        r.expires_at_ms = None;
        proof {
            seqs::views_update(store.local_routes@, i as int, r);
        }
        store.local_routes.set(i, r);
    }
    None
}

/// The invites, those of a mailbox spent.
pub open spec fn invites_spent(s: Seq<InviteView>, mailbox_id: Seq<char>, at_ms: u64) -> Seq<
    InviteView,
> {
    Seq::new(
        s.len(),
        |i: int|
            if s[i].mailbox_id == mailbox_id {
                InviteView { expires_at_ms: at_ms, ..s[i] }
            } else {
                s[i]
            },
    )
}

fn spend_invites(invites: &mut Vec<PendingInvite>, mailbox_id: &str, at_ms: u64)
    ensures
        seqs::views(final(invites)@) == invites_spent(
            seqs::views(old(invites)@),
            mailbox_id@,
            at_ms,
        ),
{
    let ghost before = seqs::views(invites@);
    let n: usize = invites.len();
    let mut i: usize = 0;
    while i < n
        invariant
            i <= n,
            n == invites@.len(),
            n == before.len(),
            forall|j: int|
                0 <= j < n ==> (#[trigger] invites@[j])@ == if j < i {
                    invites_spent(before, mailbox_id@, at_ms)[j]
                } else {
                    before[j]
                },
        decreases n - i,
    {
        if text::same_text(invites[i].mailbox_id.as_str(), mailbox_id) {
            let mut p = invites[i].duplicate();
            p.expires_at_ms = at_ms;
            invites.set(i, p);
        }
        i = i + 1;
    }
    proof {
        assert(seqs::views(invites@) =~= invites_spent(before, mailbox_id@, at_ms));
    }
}

/// What is left to do after a message was taken into the store.
pub struct Absorbed {
    /// The message, where it was one to show.
    pub message: Option<StoredMessage>,
    /// A new route to listen on.
    pub connect: Option<LocalRoute>,
    /// What the relay has to be told of delivery tokens.
    pub allowlist: Option<AllowlistUpdate>,
    /// The contact is to be told of the new route.
    pub sync: bool,
    /// The contact is to be told that its new route is known.
    pub sync_ack: bool,
}

/// What is left to do after a message was taken into the store.
#[verifier::ext_equal]
pub struct AbsorbedView {
    pub message: Option<MessageView>,
    pub connect: Option<RouteView>,
    pub allowlist: Option<AllowlistView>,
    pub sync: bool,
    pub sync_ack: bool,
}

impl View for Absorbed {
    type V = AbsorbedView;

    open spec fn view(&self) -> AbsorbedView {
        AbsorbedView {
            message: seqs::opt(self.message),
            connect: seqs::opt(self.connect),
            allowlist: seqs::opt(self.allowlist),
            sync: self.sync,
            sync_ack: self.sync_ack,
        }
    }
}

/// The store after a message was taken in, and what is left to do; nothing where the store has
/// the message already.
pub open spec fn absorbed(
    st: StoreView,
    d: DecryptedView,
    contact_id: Seq<char>,
    route: RouteView,
    f: FreshRouteView,
    at_ms: u64,
) -> (StoreView, Option<AbsorbedView>) {
    if seqs::find(st.messages, message_is(d.message_id)) is Some {
        (st, None)
    } else {
        let message = if d.kind == "text"@ {
            Some(received_message(d, contact_id, at_ms))
        } else {
            None
        };
        let s1 = StoreView {
            messages: match message {
                Some(m) => st.messages.push(m),
                None => st.messages,
            },
            local_routes: invites_retired(st.local_routes, d.acked_peer_sender_mailbox_id, at_ms),
            ..st
        };
        let (settled, allowlist) = tokens_retired(
            s1.local_routes,
            route.id,
            d.acked_peer_delivery_token_epoch,
            at_ms,
        );
        let s2 = StoreView { local_routes: settled, ..s1 };
        let (s3, connect) = route_settled(s2, route.id, contact_id, f, at_ms);
        let s4 = StoreView {
            pending_invites: invites_spent(s3.pending_invites, route.mailbox_id, at_ms),
            ..s3
        };
        (
            routes::cleaned(s4, at_ms),
            Some(
                AbsorbedView {
                    message,
                    connect,
                    allowlist,
                    sync: connect is Some,
                    sync_ack: d.kind == "route_sync"@,
                },
            ),
        )
    }
}

/// Whether the store has a message with the id.
pub fn has_message(store: &MessagingStore, id: &str) -> (r: bool)
    ensures
        r == (seqs::find(store@.messages, message_is(id@)) is Some),
{
    let ghost all = seqs::views(store.messages@);
    let mut i: usize = 0;
    while i < store.messages.len()
        invariant
            i <= store.messages@.len(),
            all == seqs::views(store.messages@),
            forall|j: int| 0 <= j < i ==> !message_is(id@)(#[trigger] all[j]),
        decreases store.messages@.len() - i,
    {
        if text::same_text(store.messages[i].id.as_str(), id) {
            proof {
                seqs::find_is(all, message_is(id@), i as int);
            }
            return true;
        }
        i = i + 1;
    }
    proof {
        seqs::find_none(all, message_is(id@));
    }
    false
}

/// Takes a message into the store.
pub fn absorb(
    store: &mut MessagingStore,
    decoded: &DecryptedSignalText,
    contact_id: &str,
    local_route: &LocalRoute,
    fresh: FreshRoute,
    at_ms: u64,
) -> (r: Option<Absorbed>)
    ensures
        (final(store)@, seqs::opt(r)) == absorbed(
            old(store)@,
            decoded@,
            contact_id@,
            local_route@,
            fresh@,
            at_ms,
        ),
{
    if has_message(store, decoded.message_id.as_str()) {
        return None;
    }
    let message = if text::same_text(decoded.kind.as_str(), "text") {
        let m = StoredMessage {
            id: decoded.message_id.clone(),
            contact_id: contact_id.to_string(),
            mine: false,
            text: decoded.body.clone(),
            timestamp: decoded.sent_at_ms,
            received_at_ms: Some(at_ms),
            status: "received".to_string(),
        };
        let copy = m.duplicate();
        proof {
            seqs::views_push(store.messages@, copy);
        }
        store.messages.push(copy);
        Some(m)
    } else {
        None
    };
    retire_invites(&mut store.local_routes, &decoded.acked_peer_sender_mailbox_id, at_ms);
    let allowlist = retire_tokens(
        &mut store.local_routes,
        local_route.id.as_str(),
        decoded.acked_peer_delivery_token_epoch,
        at_ms,
    );
    let connect = settle_route(store, local_route.id.as_str(), contact_id, fresh, at_ms);
    spend_invites(&mut store.pending_invites, local_route.mailbox_id.as_str(), at_ms);
    routes::cleanup_expired_routes(store, at_ms);
    let sync = connect.is_some();
    let sync_ack = text::same_text(decoded.kind.as_str(), "route_sync");
    Some(Absorbed { message, connect, allowlist, sync, sync_ack })
}

} // verus!
