//! What holds of invites and codes, of the relays that the user saved, and of what a message says.
use crate::codes;
use crate::codes::DecodedInviteView;
use crate::connection_laws;
use crate::contact_laws;
use crate::encoding;
use crate::invites;
use crate::keys::LocalBundleView;
use crate::payloads::HostedCiphertextView;
use crate::payloads::HostedCodeView;
use crate::payloads::InvitePayloadView;
use crate::payloads::PlaintextView;
use crate::plaintext;
use crate::primitives;
use crate::routes;
use crate::routes::FreshRouteView;
use crate::seqs;
use crate::settings;
use crate::store::InviteView;
use crate::store::KyberView;
use crate::store::RouteView;
use crate::store::ServerSettingView;
use crate::store::ServerSettingsView;
use crate::store::StoreView;
use crate::text;
use crate::urls;
use vstd::prelude::*;

verus! {

// ---------------------------------------------------------------------------------------------
// Names of relays.
// ---------------------------------------------------------------------------------------------

/// The saved relay is the one at the url.
pub open spec fn saved_at(s: ServerSettingView, url: Seq<char>) -> bool {
    urls::normalized(s.onion) == urls::normalized(url)
}

/// A relay goes by the name under which it was first saved. One that was not saved is the local
/// one, or unknown.
pub proof fn relays_go_by_their_saved_name(st: StoreView, url: Seq<char>, i: int)
    ensures
        0 <= i < st.private_servers.len() && saved_at(st.private_servers[i], url) && (forall|j: int|
            0 <= j < i ==> !saved_at(#[trigger] st.private_servers[j], url)) ==> invites::relay_name(
            st,
            url,
        ) == st.private_servers[i].name,
        (forall|j: int|
            0 <= j < st.private_servers.len() ==> !saved_at(#[trigger] st.private_servers[j], url))
            ==> invites::relay_name(st, url) == if urls::normalized(url)
            == "ws://127.0.0.1:8787/ws"@ {
            "Local dev relay"@
        } else {
            "Unknown relay"@
        },
{
    let p = invites::setting_at(urls::normalized(url));
    let all = st.private_servers;
    if 0 <= i < all.len() && saved_at(all[i], url) && forall|j: int|
        0 <= j < i ==> !saved_at(#[trigger] all[j], url) {
        assert forall|j: int| 0 <= j < i implies !p(#[trigger] all[j]) by {
            assert(!saved_at(all[j], url));
        }
        seqs::find_is(all, p, i);
    }
    if forall|j: int| 0 <= j < all.len() ==> !saved_at(#[trigger] all[j], url) {
        assert forall|j: int| 0 <= j < all.len() implies !p(#[trigger] all[j]) by {
            assert(!saved_at(all[j], url));
        }
        seqs::find_none(all, p);
    }
}

/// A name for a relay is what the user wrote without the space around it, up to 80 characters, or
/// none where nothing is left.
pub proof fn names_are_short(name: Option<Seq<char>>)
    ensures
        ({
            let r = invites::cleaned_name(name);
            &&& r is Some <==> name is Some && text::trimmed(name->0).len() > 0
            &&& r matches Some(n) ==> n.is_prefix_of(text::trimmed(name->0)) && n.len()
                == if text::trimmed(name->0).len() <= 80 {
                text::trimmed(name->0).len()
            } else {
                80
            }
        }),
{
}

// ---------------------------------------------------------------------------------------------
// Invites.
// ---------------------------------------------------------------------------------------------

/// The route for an invite is fresh, at the relay that was asked for or the local one, and lasts
/// for a day. A reusable invite takes no one-time key. Any other takes the first that was not used,
/// which is then used; without one there is no invite.
pub proof fn invites_are_drafted(
    st: StoreView,
    me: LocalBundleView,
    display_name: Seq<char>,
    kyber: KyberView,
    server_url: Option<Seq<char>>,
    reusable: bool,
    f: FreshRouteView,
    now_ms: u64,
    i: int,
)
    requires
        now_ms + 86_400_000 <= u64::MAX,
    ensures
        ({
            let (w, r) = invites::drafted(
                st,
                me,
                display_name,
                kyber,
                server_url,
                reusable,
                f,
                now_ms,
            );
            let s = routes::cleaned(st, now_ms);
            let first = 0 <= i < me.opks_public.len() && !st.used_opk_ids.contains(
                me.opks_public[i].id,
            ) && forall|j: int|
                0 <= j < i ==> st.used_opk_ids.contains((#[trigger] me.opks_public[j]).id);
            let none = forall|j: int|
                0 <= j < me.opks_public.len() ==> st.used_opk_ids.contains(
                    (#[trigger] me.opks_public[j]).id,
                );
            &&& reusable ==> r is Ok && w == s
            &&& !reusable && none ==> r is Err && w == s
            &&& !reusable && first ==> r is Ok && w == (StoreView {
                used_opk_ids: st.used_opk_ids.push(me.opks_public[i].id),
                ..s
            })
            &&& r matches Ok(d) ==> {
                let p = d.payload;
                &&& contact_laws::made_for(
                    d.route,
                    f,
                    if server_url is Some {
                        server_url->0
                    } else {
                        "ws://127.0.0.1:8787/ws"@
                    },
                    "pending_invite"@,
                    now_ms,
                )
                &&& d.route.expires_at_ms == Some((now_ms + 86_400_000) as u64)
                &&& p.v == 1 && p.protocol == "axeno_signal_v1"@
                &&& p.mailbox_id == f.mailbox_id && p.delivery_token == f.delivery_token
                &&& p.server_url == d.route.server_url
                &&& p.display_name == text::trimmed(display_name)
                &&& p.device_id == 1 && p.registration_id == me.registration_id
                &&& p.created_at_ms == now_ms
                &&& p.identity_public_b64 == encoding::b64_text(me.public_key, false)
                &&& p.signed_prekey_id == me.signed_prekey_id
                &&& p.signed_prekey_public_b64 == encoding::b64_text(
                    me.signed_prekey_public,
                    false,
                )
                &&& p.signed_prekey_signature_b64 == encoding::b64_text(
                    me.signed_prekey_signature,
                    false,
                )
                &&& p.kyber_prekey_id == Some(kyber.id)
                &&& p.kyber_prekey_public_b64 == Some(kyber.public_b64)
                &&& p.kyber_prekey_signature_b64 == Some(kyber.signature_b64)
                &&& reusable ==> p.opk_id is None && p.opk_public_b64 is None
                &&& !reusable && first ==> p.opk_id == Some(me.opks_public[i].id)
                    && p.opk_public_b64 == Some(
                    encoding::b64_text(me.opks_public[i].public_key, false),
                )
            }
        }),
{
    let s = routes::cleaned(st, now_ms);
    let p = crate::keys::unused(s.used_opk_ids);
    let all = me.opks_public;
    seqs::find_spec(all, p);
    if 0 <= i < all.len() && !st.used_opk_ids.contains(all[i].id) && forall|j: int|
        0 <= j < i ==> st.used_opk_ids.contains((#[trigger] all[j]).id) {
        seqs::find_is(all, p, i);
    }
    if forall|j: int| 0 <= j < all.len() ==> st.used_opk_ids.contains((#[trigger] all[j]).id) {
        seqs::find_none(all, p);
    }
    if let Some(u) = server_url {
        urls::normalized_twice(u);
    } else {
        urls::normalized_twice("ws://127.0.0.1:8787/ws"@);
    }
}

/// An invite is kept with its route, its code and its mailbox, for a day, under the name that the
/// user gave the relay or by which it is known.
pub proof fn issued_invites_are_kept(
    st: StoreView,
    route: RouteView,
    id: Seq<char>,
    code: Seq<char>,
    name: Option<Seq<char>>,
    reusable: bool,
    now_ms: u64,
)
    requires
        now_ms + 86_400_000 <= u64::MAX,
    ensures
        ({
            let (w, shown) = invites::issued(st, route, id, code, name, reusable, now_ms);
            let known = invites::relay_name(st, route.server_url);
            let given = name is Some && text::trimmed(name->0).len() > 0;
            let p = w.pending_invites.last();
            &&& w.local_routes == st.local_routes.push(route)
            &&& w.pending_invites.len() == st.pending_invites.len() + 1
            &&& w.pending_invites.drop_last() == st.pending_invites
            &&& p.id == id && p.code == code && p.reusable == reusable
            &&& p.mailbox_id == route.mailbox_id && p.server_url == route.server_url
            &&& p.route_id == Some(route.id)
            &&& p.created_at_ms == now_ms && p.expires_at_ms == now_ms + 86_400_000
            &&& given ==> p.server_name == invites::cleaned_name(name)
            &&& !given ==> p.server_name == if known == "Unknown relay"@ {
                None
            } else {
                Some(known)
            }
            &&& shown.id == id && shown.code == code && shown.reusable == reusable
            &&& shown.server_url == route.server_url && shown.created_at == now_ms
            &&& (StoreView {
                local_routes: st.local_routes,
                pending_invites: st.pending_invites,
                ..w
            }) == st
        }),
{
    let w = invites::issued(st, route, id, code, name, reusable, now_ms).0;
    assert(w.pending_invites.drop_last() =~= st.pending_invites);
}

/// Invites are listed as they were issued, one for one; the relay goes by its current name, or by
/// the one that the invite was issued under where the relay is not known any more.
pub proof fn invites_are_listed_one_for_one(st: StoreView, s: Seq<InviteView>, i: int)
    requires
        0 <= i < s.len(),
    ensures
        ({
            let all = invites::all_shown(st, s);
            let known = invites::relay_name(st, s[i].server_url);
            &&& all.len() == s.len()
            &&& all[i].id == s[i].id && all[i].code == s[i].code
            &&& all[i].created_at == s[i].created_at_ms
            &&& all[i].server_url == s[i].server_url
            &&& all[i].reusable == s[i].reusable
            &&& all[i].server_name == if known == "Unknown relay"@ && s[i].server_name is Some {
                s[i].server_name->0
            } else {
                known
            }
        }),
{
}

/// The route is the one of an invite with the id.
pub open spec fn of_invite(s: Seq<InviteView>, id: Seq<char>, route_id: Seq<char>) -> bool {
    exists|j: int|
        0 <= j < s.len() && (#[trigger] s[j]).id == id && s[j].route_id == Some(route_id)
}

/// Deleting an invite takes away it and its route, and names the connection to close. Other invites
/// and routes stay until their time comes.
pub proof fn deleted_invites_take_their_route_along(
    st: StoreView,
    id: Seq<char>,
    now_ms: u64,
    p: InviteView,
    r: RouteView,
)
    ensures
        ({
            let (w, closed) = invites::deleted(st, id, now_ms);
            &&& w.pending_invites.contains(p) <==> st.pending_invites.contains(p) && p.id != id
                && p.expires_at_ms > now_ms
            &&& w.local_routes.contains(r) <==> st.local_routes.contains(r)
                && connection_laws::listening(r, now_ms) && !of_invite(
                st.pending_invites,
                id,
                r.id,
            )
            &&& st.local_routes.contains(r) && of_invite(st.pending_invites, id, r.id)
                ==> closed.contains(r.server_id + "__"@ + r.mailbox_id)
            &&& w.contacts == st.contacts && w.signal_sessions == st.signal_sessions
                && w.used_opk_ids == st.used_opk_ids
        }),
{
    let ids = invites::routes_of_invite(st.pending_invites, id);
    let not = invites::invite_is_not(id);
    let live = routes::live_invite(now_ms);
    let left = st.pending_invites.filter(not);
    seqs::filter_members(st.pending_invites, not);
    seqs::filter_members(left, live);
    let with = invites::invite_with_route(id);
    seqs::filter_members(st.pending_invites, with);
    let named = st.pending_invites.filter(with);
    assert(ids.contains(r.id) <==> of_invite(st.pending_invites, id, r.id)) by {
        if ids.contains(r.id) {
            let j = choose|j: int| 0 <= j < ids.len() && ids[j] == r.id;
            assert(named.contains(named[j]));
            assert(st.pending_invites.contains(named[j]));
            let n = choose|n: int|
                0 <= n < st.pending_invites.len() && st.pending_invites[n] == named[j];
            assert(st.pending_invites[n].id == id);
        }
        if of_invite(st.pending_invites, id, r.id) {
            let j = choose|j: int|
                0 <= j < st.pending_invites.len() && (#[trigger] st.pending_invites[j]).id == id
                    && st.pending_invites[j].route_id == Some(r.id);
            assert(st.pending_invites.contains(st.pending_invites[j]));
            assert(named.contains(st.pending_invites[j]));
            let n = choose|n: int| 0 <= n < named.len() && named[n] == st.pending_invites[j];
            assert(ids[n] == r.id);
        }
    }
    let given_up = crate::inbound::with_given_up(st.local_routes, ids, now_ms);
    seqs::filter_members(given_up, routes::live_route(now_ms));
    if given_up.contains(r) && connection_laws::listening(r, now_ms) {
        let j = choose|j: int| 0 <= j < given_up.len() && given_up[j] == r;
        assert(st.local_routes[j] == r);
    }
    if st.local_routes.contains(r) {
        let j = choose|j: int| 0 <= j < st.local_routes.len() && st.local_routes[j] == r;
        if !ids.contains(r.id) {
            assert(given_up[j] == r);
        } else {
            let among = invites::route_among(ids);
            seqs::filter_members(st.local_routes, among);
            let chosen = st.local_routes.filter(among);
            assert(chosen.contains(r));
            let n = choose|n: int| 0 <= n < chosen.len() && chosen[n] == r;
            let closed = invites::deleted(st, id, now_ms).1;
            assert(closed[n] == r.server_id + "__"@ + r.mailbox_id);
        }
    }
}

// ---------------------------------------------------------------------------------------------
// Saved relays.
// ---------------------------------------------------------------------------------------------

/// A saved relay without the space around what the user wrote, its url in full.
pub open spec fn tidy_setting(s: ServerSettingView) -> ServerSettingView {
    ServerSettingView {
        id: text::trimmed(s.id),
        name: text::trimmed(s.name),
        onion: urls::normalized(text::trimmed(s.onion)),
    }
}

/// The entry has an id and a name, and is the first such entry with its id.
#[verifier::opaque]
pub open spec fn counts(s: Seq<ServerSettingView>, i: int) -> bool {
    &&& 0 <= i < s.len()
    &&& text::trimmed(s[i].id).len() > 0 && text::trimmed(s[i].name).len() > 0
    &&& forall|j: int|
        0 <= j < i && text::trimmed((#[trigger] s[j]).id) == text::trimmed(s[i].id)
            ==> text::trimmed(s[j].name).len() == 0
}

/// The entry is at an onion address.
pub open spec fn at_onion(s: ServerSettingView) -> bool {
    urls::onion_url(urls::normalized(text::trimmed(s.onion)))
}

/// Every entry that counts is at an onion address.
pub open spec fn all_onion(s: Seq<ServerSettingView>) -> bool {
    forall|i: int| 0 <= i < s.len() && counts(s, i) ==> at_onion(#[trigger] s[i])
}

proof fn first_that_counts(s: Seq<ServerSettingView>, j: int)
    requires
        0 <= j < s.len(),
        text::trimmed(s[j].id).len() > 0,
        text::trimmed(s[j].name).len() > 0,
    ensures
        exists|i: int| #[trigger]
            counts(s, i) && text::trimmed(s[i].id) == text::trimmed(s[j].id),
    decreases j,
{
    reveal(counts);
    if !counts(s, j) {
        let k = choose|k: int|
            0 <= k < j && text::trimmed((#[trigger] s[k]).id) == text::trimmed(s[j].id)
                && text::trimmed(s[k].name).len() > 0;
        first_that_counts(s, k);
    } else {
        assert(counts(s, j));
    }
}

proof fn counts_in_front(s: Seq<ServerSettingView>)
    requires
        s.len() > 0,
    ensures
        forall|i: int|
            0 <= i < s.len() - 1 ==> #[trigger] counts(s.drop_last(), i) == counts(s, i),
        forall|i: int| #[trigger] counts(s, i) ==> 0 <= i < s.len(),
        forall|i: int| #[trigger] counts(s.drop_last(), i) ==> 0 <= i < s.len() - 1,
        forall|i: int| #[trigger]
            counts(s, i) && i < s.len() - 1 ==> counts(s.drop_last(), i),
{
    reveal(counts);
    let front = s.drop_last();
    assert forall|i: int| 0 <= i < s.len() - 1 implies #[trigger] counts(front, i) == counts(
        s,
        i,
    ) by {
        assert(front[i] == s[i]);
        if counts(front, i) {
            assert forall|j: int|
                0 <= j < i && text::trimmed((#[trigger] s[j]).id) == text::trimmed(
                    s[i].id,
                ) implies text::trimmed(s[j].name).len() == 0 by {
                assert(front[j] == s[j]);
            }
        }
        if counts(s, i) {
            assert forall|j: int|
                0 <= j < i && text::trimmed((#[trigger] front[j]).id) == text::trimmed(
                    front[i].id,
                ) implies text::trimmed(front[j].name).len() == 0 by {
                assert(front[j] == s[j]);
            }
        }
    }
}

/// An entry with the id counts.
spec fn id_counts(s: Seq<ServerSettingView>, id: Seq<char>) -> bool {
    exists|i: int| #[trigger] counts(s, i) && text::trimmed(s[i].id) == id
}

proof fn last_counts(s: Seq<ServerSettingView>)
    requires
        s.len() > 0,
    ensures
        counts(s, s.len() - 1) <==> text::trimmed(s.last().id).len() > 0 && text::trimmed(
            s.last().name,
        ).len() > 0 && !id_counts(s.drop_last(), text::trimmed(s.last().id)),
{
    let front = s.drop_last();
    let n = s.len() - 1;
    let id = text::trimmed(s.last().id);
    if id.len() > 0 && text::trimmed(s.last().name).len() > 0 {
        if id_counts(front, id) {
            let i = choose|i: int| #[trigger] counts(front, i) && text::trimmed(front[i].id) == id;
            reveal(counts);
            assert(front[i] == s[i]);
            assert(!counts(s, n));
        } else {
            assert forall|j: int|
                0 <= j < n && text::trimmed((#[trigger] s[j]).id) == id implies text::trimmed(
                s[j].name,
            ).len() == 0 by {
                assert(front[j] == s[j]);
                if text::trimmed(s[j].name).len() > 0 {
                    first_that_counts(front, j);
                }
            }
            reveal(counts);
        }
    } else {
        reveal(counts);
    }
}

spec fn has_setting(kept: Seq<ServerSettingView>, id: Seq<char>) -> bool {
    exists|k: int| 0 <= k < kept.len() && (#[trigger] kept[k]).id == id
}

spec fn entry_counts(s: Seq<ServerSettingView>, x: ServerSettingView) -> bool {
    exists|i: int| #[trigger] counts(s, i) && x == tidy_setting(s[i])
}

proof fn ids_in_front(s: Seq<ServerSettingView>, id: Seq<char>)
    requires
        s.len() > 0,
    ensures
        id_counts(s, id) <==> id_counts(s.drop_last(), id) || (counts(s, s.len() - 1)
            && text::trimmed(s.last().id) == id),
{
    let front = s.drop_last();
    counts_in_front(s);
    if id_counts(s, id) {
        let i = choose|i: int| #[trigger] counts(s, i) && text::trimmed(s[i].id) == id;
        if i < s.len() - 1 {
            assert(counts(front, i));
        }
    }
    if id_counts(front, id) {
        let i = choose|i: int| #[trigger] counts(front, i) && text::trimmed(front[i].id) == id;
        assert(counts(s, i));
    }
}

proof fn entries_in_front(s: Seq<ServerSettingView>, x: ServerSettingView)
    requires
        s.len() > 0,
    ensures
        entry_counts(s, x) <==> entry_counts(s.drop_last(), x) || (counts(s, s.len() - 1)
            && tidy_setting(s.last()) == x),
{
    let front = s.drop_last();
    counts_in_front(s);
    if entry_counts(s, x) {
        let i = choose|i: int| #[trigger] counts(s, i) && x == tidy_setting(s[i]);
        if i < s.len() - 1 {
            assert(counts(front, i));
        }
    }
    if entry_counts(front, x) {
        let i = choose|i: int| #[trigger] counts(front, i) && x == tidy_setting(front[i]);
        assert(counts(s, i));
    }
}

proof fn onions_in_front(s: Seq<ServerSettingView>)
    requires
        s.len() > 0,
    ensures
        all_onion(s) <==> all_onion(s.drop_last()) && (counts(s, s.len() - 1) ==> at_onion(
            s.last(),
        )),
{
    let front = s.drop_last();
    let n = s.len() - 1;
    counts_in_front(s);
    if all_onion(s) {
        assert forall|i: int| 0 <= i < front.len() && counts(front, i) implies at_onion(
            #[trigger] front[i],
        ) by {
            assert(counts(s, i));
            assert(front[i] == s[i]);
        }
        assert(s[n] == s.last());
    }
    if all_onion(front) && (counts(s, n) ==> at_onion(s.last())) {
        assert forall|i: int| 0 <= i < s.len() && counts(s, i) implies at_onion(
            #[trigger] s[i],
        ) by {
            if i < n {
                assert(counts(front, i));
                assert(front[i] == s[i]);
            }
        }
    }
}

proof fn settings_kept(s: Seq<ServerSettingView>, x: ServerSettingView, id: Seq<char>)
    ensures
        settings::kept_settings(s) is Ok <==> all_onion(s),
        settings::kept_settings(s) matches Ok(kept) ==> (kept.contains(x) <==> entry_counts(s, x))
            && (has_setting(kept, id) <==> id_counts(s, id)),
    decreases s.len(),
{
    if s.len() > 0 {
        let front = s.drop_last();
        let t = settings::tidied(s.last());
        settings_kept(front, x, id);
        settings_kept(front, x, t.id);
        ids_in_front(s, id);
        entries_in_front(s, x);
        onions_in_front(s);
        last_counts(s);
        if let Ok(before) = settings::kept_settings(front) {
            let p = settings::setting_is(t.id);
            seqs::find_spec(before, p);
            if has_setting(before, t.id) {
                let k = choose|k: int| 0 <= k < before.len() && (#[trigger] before[k]).id == t.id;
                assert(p(before[k]));
            }
            assert((seqs::find(before, p) is Some) == has_setting(before, t.id));
            if let Ok(kept) = settings::kept_settings(s) {
                if kept != before {
                    assert(kept == before.push(t));
                    pushed(before, t, x, id);
                }
            }
        }
    } else {
        reveal(counts);
    }
}

proof fn pushed(
    before: Seq<ServerSettingView>,
    t: ServerSettingView,
    x: ServerSettingView,
    id: Seq<char>,
)
    ensures
        before.push(t).contains(x) <==> before.contains(x) || x == t,
        has_setting(before.push(t), id) <==> has_setting(before, id) || t.id == id,
{
    let kept = before.push(t);
    if kept.contains(x) {
        let k = choose|k: int| 0 <= k < kept.len() && kept[k] == x;
        if k < before.len() {
            assert(before[k] == x);
        }
    }
    if before.contains(x) {
        let k = choose|k: int| 0 <= k < before.len() && before[k] == x;
        assert(kept[k] == x);
    }
    assert(kept[before.len() as int] == t);
    if has_setting(kept, id) {
        let k = choose|k: int| 0 <= k < kept.len() && (#[trigger] kept[k]).id == id;
        if k < before.len() {
            assert(before[k].id == id);
        }
    }
    if has_setting(before, id) {
        let k = choose|k: int| 0 <= k < before.len() && (#[trigger] before[k]).id == id;
        assert(kept[k].id == id);
    }
}

/// The entries that are considered at all.
pub open spec fn considered(s: Seq<ServerSettingView>) -> Seq<ServerSettingView> {
    if s.len() <= 32 {
        s
    } else {
        s.take(32)
    }
}

/// Of the first 32 relays that the user wrote down, those with an id and a name are saved, the
/// first one for each id. All of these must be at an onion address, or nothing is saved. The default
/// relay must be one of them. Nothing else in the store changes.
pub proof fn relays_are_saved_as_written(st: StoreView, s: ServerSettingsView, x: ServerSettingView)
    ensures
        ({
            let (w, r) = settings::saved(st, s);
            let given = considered(s.private_servers);
            &&& r is Ok <==> all_onion(given)
            &&& r is Err ==> w == st
            &&& r matches Ok(out) ==> {
                &&& w == (StoreView {
                    private_servers: out.private_servers,
                    default_server_url: out.default_server_url,
                    ..st
                })
                &&& out.private_servers.contains(x) <==> exists|i: int| #[trigger]
                    counts(given, i) && x == tidy_setting(given[i])
                &&& out.default_server_url is Some ==> s.default_server_url is Some
                    && out.default_server_url->0 == urls::normalized(s.default_server_url->0)
                &&& out.default_server_url is Some <==> s.default_server_url is Some && exists|
                    k: int,
                |
                    0 <= k < out.private_servers.len() && (
                    #[trigger] out.private_servers[k]).onion == urls::normalized(
                        s.default_server_url->0,
                    )
            }
        }),
{
    let given = considered(s.private_servers);
    assert(given == settings::first_settings(s.private_servers));
    settings_kept(given, x, x.id);
    if let Ok(kept) = settings::kept_settings(given) {
        if let Some(u) = s.default_server_url {
            let p = settings::relay_is(urls::normalized(u));
            seqs::find_spec(kept, p);
            if exists|k: int|
                0 <= k < kept.len() && (#[trigger] kept[k]).onion == urls::normalized(u) {
                let k = choose|k: int|
                    0 <= k < kept.len() && (#[trigger] kept[k]).onion == urls::normalized(u);
                assert(p(kept[k]));
            }
        }
    }
}

// ---------------------------------------------------------------------------------------------
// Codes.
// ---------------------------------------------------------------------------------------------

/// A connection code is `axn1_` and what it holds in url-safe base64, with any space around it; a
/// verification code is the same with `axv1_`.
pub proof fn codes_have_their_prefix(code: Seq<char>, b: Seq<u8>)
    ensures
        ({
            let t = text::trimmed(code);
            let invite = "axn1_"@ + encoding::b64_text(b, true);
            let verify = "axv1_"@ + encoding::b64_text(b, true);
            &&& codes::invite_contents(code) == Ok::<Seq<u8>, Seq<char>>(b) <==> t == invite
            &&& codes::verification_contents(code) == Ok::<Seq<u8>, Seq<char>>(b) <==> t == verify
            &&& !"axn1_"@.is_prefix_of(t) ==> codes::invite_contents(code) is Err
            &&& !"axv1_"@.is_prefix_of(t) ==> codes::verification_contents(code) is Err
        }),
{
    let t = text::trimmed(code);
    contact_laws::prefix_of(t, "axn1_"@);
    contact_laws::prefix_of(t, "axv1_"@);
    encoding::b64_round_trip(b, true);
    code_reads(t, "axn1_"@, b);
    code_reads(t, "axv1_"@, b);
}

proof fn code_reads(t: Seq<char>, prefix: Seq<char>, b: Seq<u8>)
    ensures
        t == prefix + encoding::b64_text(b, true) <==> prefix.is_prefix_of(t)
            && encoding::b64_bytes(t.skip(prefix.len() as int), true) == Some(b),
{
    encoding::b64_round_trip(b, true);
    let body = encoding::b64_text(b, true);
    if t == prefix + body {
        assert(t.skip(prefix.len() as int) =~= body);
        assert(t.take(prefix.len() as int) =~= prefix);
    }
    if prefix.is_prefix_of(t) && encoding::b64_bytes(t.skip(prefix.len() as int), true) == Some(b) {
        assert(encoding::b64_text(b, true) == t.skip(prefix.len() as int));
        assert(t =~= prefix + body);
    }
}

/// A code points to a hosted invite exactly where what it holds reads as one of the known kind; any
/// other is an invite itself, where it reads as one.
pub proof fn hosted_codes_are_told_apart(
    hosted: Option<HostedCodeView>,
    direct: Result<InvitePayloadView, Seq<char>>,
)
    ensures
        ({
            let r = codes::told_apart(hosted, direct);
            let is_hosted = hosted is Some && hosted->0.v == 1 && hosted->0.kind
                == "axeno_hosted_invite_v1"@;
            &&& is_hosted ==> r == Ok::<DecodedInviteView, Seq<char>>(
                DecodedInviteView::Hosted { hosted: hosted->0 },
            )
            &&& !is_hosted && direct is Ok ==> r == Ok::<DecodedInviteView, Seq<char>>(
                DecodedInviteView::Direct { payload: direct->Ok_0 },
            )
            &&& !is_hosted && direct is Err ==> r is Err
        }),
{
}

/// A hosted invite is what was sealed under a key that only its code holds; the relay gets the
/// nonce and the sealed bytes, and neither key nor text.
pub proof fn hosted_invites_are_sealed(
    plain: Seq<u8>,
    url: Seq<char>,
    key: Seq<u8>,
    nonce: Seq<u8>,
    bundle_id: Seq<char>,
)
    ensures
        ({
            let s = codes::sealed_invite(plain, url, key, nonce, bundle_id);
            &&& s.hosted.v == 1 && s.hosted.kind == "axeno_hosted_invite_v1"@
            &&& s.hosted.server_url == urls::normalized(url) && s.hosted.bundle_id == bundle_id
            &&& encoding::b64_bytes(s.hosted.bundle_key_b64, true) == Some(key)
            &&& s.bundle.v == 1
            &&& encoding::b64_bytes(s.bundle.nonce_b64, true) == Some(nonce)
            &&& encoding::b64_bytes(s.bundle.ciphertext_b64, true) == Some(
                primitives::sealed(key, nonce, plain),
            )
        }),
{
    encoding::b64_round_trip(key, true);
    encoding::b64_round_trip(nonce, true);
    encoding::b64_round_trip(primitives::sealed(key, nonce, plain), true);
}

/// A hosted invite is opened exactly where it is of the known version, its key has 32 bytes, its
/// nonce has 12 and the cipher accepts what was sealed.
pub proof fn hosted_invites_open_exactly_when_they_may(
    h: HostedCodeView,
    key: Seq<u8>,
    b: HostedCiphertextView,
)
    ensures
        ({
            let k = encoding::b64_bytes(h.bundle_key_b64, true);
            let nonce = encoding::b64_bytes(b.nonce_b64, true);
            let sealed = encoding::b64_bytes(b.ciphertext_b64, true);
            &&& codes::invite_key(h) is Ok <==> h.v == 1 && h.kind == "axeno_hosted_invite_v1"@
                && k is Some && k->0.len() == 32
            &&& codes::invite_key(h) is Ok ==> codes::invite_key(h)->Ok_0 == k->0
            &&& codes::opened_invite(key, b) is Ok <==> b.v == 1 && nonce is Some && nonce->0.len()
                == 12 && sealed is Some && primitives::decrypted(
                key,
                nonce->0,
                sealed->0,
            ) is Some
            &&& codes::opened_invite(key, b) is Ok ==> Some(codes::opened_invite(key, b)->Ok_0)
                == primitives::decrypted(key, nonce->0, sealed->0)
        }),
{
}

// ---------------------------------------------------------------------------------------------
// What a message says.
// ---------------------------------------------------------------------------------------------

/// A message says who sent it and from where, where answers go, which token of the contact was
/// seen last, and the sender's prekeys, all as they are.
pub proof fn messages_say_where_answers_go(
    kind: Seq<char>,
    body: Seq<char>,
    display_name: Seq<char>,
    message_id: Seq<char>,
    sent_at_ms: u64,
    from: RouteView,
    back: RouteView,
    me: LocalBundleView,
    kyber: KyberView,
    acked_epoch: u64,
    acked_mailbox: Option<Seq<char>>,
)
    ensures
        ({
            let p = plaintext::written(
                kind,
                body,
                display_name,
                message_id,
                sent_at_ms,
                from,
                back,
                me,
                kyber,
                acked_epoch,
                acked_mailbox,
            );
            &&& p.v == 1 && p.kind == kind && p.body == body
            &&& p.message_id == message_id && p.sent_at_ms == sent_at_ms
            &&& p.sender_display_name == if text::trimmed(display_name).len() == 0 {
                None
            } else {
                Some(text::trimmed(display_name))
            }
            &&& p.sender_mailbox_id == Some(from.mailbox_id)
            &&& p.sender_delivery_token == Some(from.delivery_token)
            &&& p.sender_delivery_token_epoch == Some(from.delivery_token_epoch)
            &&& p.sender_server_url == Some(from.server_url)
            &&& p.return_mailbox_id == Some(back.mailbox_id)
            &&& p.return_delivery_token == Some(back.delivery_token)
            &&& p.return_delivery_token_epoch == Some(back.delivery_token_epoch)
            &&& p.return_server_url == Some(back.server_url)
            &&& p.acked_peer_delivery_token_epoch == Some(acked_epoch)
            &&& p.acked_peer_sender_mailbox_id == acked_mailbox
            &&& p.sender_device_id == Some(1u32)
            &&& p.sender_registration_id == Some(me.registration_id as u32)
            &&& p.sender_identity_public_b64 == Some(encoding::b64_text(me.public_key, false))
            &&& p.sender_signed_prekey_id == Some(me.signed_prekey_id)
            &&& p.sender_signed_prekey_public_b64 == Some(
                encoding::b64_text(me.signed_prekey_public, false),
            )
            &&& p.sender_signed_prekey_signature_b64 == Some(
                encoding::b64_text(me.signed_prekey_signature, false),
            )
            &&& p.sender_kyber_prekey_id == Some(kyber.id)
            &&& p.sender_kyber_prekey_public_b64 == Some(kyber.public_b64)
            &&& p.sender_kyber_prekey_signature_b64 == Some(kyber.signature_b64)
        }),
{
}

/// A value that a message names, without the space around it; none where nothing is left.
pub open spec fn named(s: Option<Seq<char>>) -> Option<Seq<char>> {
    if s is Some && text::trimmed(s->0).len() > 0 {
        Some(text::trimmed(s->0))
    } else {
        None
    }
}

/// A number that a message names, where it is not zero.
pub open spec fn numbered(n: Option<u64>) -> Option<u64> {
    if n == Some(0u64) {
        None
    } else {
        n
    }
}

/// An id that a message names, where it is not zero.
pub open spec fn identified(n: Option<u32>) -> Option<u32> {
    if n == Some(0u32) {
        None
    } else {
        n
    }
}

/// A message is read where it is of the first version and a text, a request to compare routes or
/// the answer to one. Each value is taken from where it was put.
pub proof fn messages_are_read_as_written(p: PlaintextView)
    ensures
        plaintext::read_payload(p) is Ok <==> p.v == 1 && (p.kind == "text"@ || p.kind
            == "route_sync"@ || p.kind == "route_sync_ack"@),
        plaintext::read_payload(p) matches Ok(d) ==> {
            &&& d.kind == p.kind && d.message_id == p.message_id
            &&& d.sent_at_ms == p.sent_at_ms && d.body == p.body
            &&& d.sender_display_name == named(p.sender_display_name)
            &&& d.sender_mailbox_id == named(p.sender_mailbox_id)
            &&& d.sender_delivery_token == named(p.sender_delivery_token)
            &&& d.sender_delivery_token_epoch == numbered(p.sender_delivery_token_epoch)
            &&& d.sender_server_url == named(p.sender_server_url)
            &&& d.return_mailbox_id == named(p.return_mailbox_id)
            &&& d.return_delivery_token == named(p.return_delivery_token)
            &&& d.return_delivery_token_epoch == numbered(p.return_delivery_token_epoch)
            &&& d.return_server_url == named(p.return_server_url)
            &&& d.acked_peer_delivery_token_epoch == numbered(p.acked_peer_delivery_token_epoch)
            &&& d.acked_peer_sender_mailbox_id == named(p.acked_peer_sender_mailbox_id)
            &&& d.sender_device_id == p.sender_device_id
            &&& d.sender_identity_public_b64 == named(p.sender_identity_public_b64)
            &&& d.sender_registration_id == identified(p.sender_registration_id)
            &&& d.sender_signed_prekey_id == identified(p.sender_signed_prekey_id)
            &&& d.sender_signed_prekey_public_b64 == named(p.sender_signed_prekey_public_b64)
            &&& d.sender_signed_prekey_signature_b64 == named(p.sender_signed_prekey_signature_b64)
            &&& d.sender_kyber_prekey_id == identified(p.sender_kyber_prekey_id)
            &&& d.sender_kyber_prekey_public_b64 == named(p.sender_kyber_prekey_public_b64)
            &&& d.sender_kyber_prekey_signature_b64 == named(p.sender_kyber_prekey_signature_b64)
        },
{
}

/// Bytes that are no message of the known form are a bare text, where they are UTF-8: it came now,
/// and says nothing of its sender.
pub proof fn other_bytes_are_bare_texts(
    parsed: Option<PlaintextView>,
    raw: Seq<u8>,
    id: Seq<char>,
    now_ms: u64,
)
    ensures
        parsed is Some ==> plaintext::read_plaintext(parsed, raw, id, now_ms)
            == plaintext::read_payload(parsed->0),
        parsed is None ==> {
            let r = plaintext::read_plaintext(parsed, raw, id, now_ms);
            &&& r is Ok <==> text::utf8_text(raw) is Some
            &&& r matches Ok(d) ==> {
                &&& d.kind == "text"@ && Some(d.body) == text::utf8_text(raw)
                &&& d.message_id == id && d.sent_at_ms == now_ms
                &&& d.sender_mailbox_id is None && d.return_mailbox_id is None
                &&& d.sender_delivery_token is None && d.return_delivery_token is None
                &&& d.sender_server_url is None && d.return_server_url is None
                &&& d.sender_identity_public_b64 is None && d.sender_display_name is None
                &&& d.sender_device_id is None && d.sender_registration_id is None
                &&& d.acked_peer_delivery_token_epoch is None
                    && d.acked_peer_sender_mailbox_id is None
                &&& d.sender_signed_prekey_id is None && d.sender_kyber_prekey_id is None
            }
        },
{
}

} // verus!
