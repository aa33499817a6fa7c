//! Contacts: learning them from codes, moving them, verifying them.
use crate::encoding;
use crate::payloads::InvitePayload;
use crate::payloads::InvitePayloadView;
use crate::payloads::SignedVerificationPayload;
use crate::payloads::SignedVerificationView;
use crate::payloads::VerificationPayload;
use crate::payloads::VerificationView;
use crate::routes;
use crate::routes::FreshRoute;
use crate::routes::FreshRouteView;
use crate::safety;
use crate::seqs;
use crate::seqs::Duplicate;
use crate::store::ContactView;
use crate::store::LocalRoute;
use crate::store::MessagingStore;
use crate::store::RouteView;
use crate::store::StoreView;
use crate::store::StoredContact;
use crate::text;
use crate::urls;
use vstd::prelude::*;

verus! {

/// The protocol that connection codes speak of.
pub const PROTOCOL_SIGNAL: &'static str = "axeno_signal_v1";

/// How long a connection code can be used.
pub const CONNECTION_CODE_TTL_MS: u64 = 86_400_000;

/// How far in the future a connection code may claim to have been made.
pub const MAX_CLOCK_DRIFT_MS: u64 = 300_000;

/// How long a verification code can be used.
pub const VERIFY_CODE_TTL_MS: u64 = 600_000;

/// The kind of a verification code.
pub const VERIFY_KIND: &'static str = "axeno_verify_v1";

/// The trust in a contact whose identity key changed.
pub const BLOCKED: &'static str = "identity_changed_blocked";

/// The bytes are the same.
pub fn same_bytes(a: &[u8], b: &[u8]) -> (r: bool)
    ensures
        r == (a@ == b@),
{
    if a.len() != b.len() {
        return false;
    }
    let mut i: usize = 0;
    while i < a.len()
        invariant
            i <= a@.len(),
            a@.len() == b@.len(),
            forall|j: int| 0 <= j < i ==> a@[j] == b@[j],
        decreases a@.len() - i,
    {
        if a[i] != b[i] {
            return false;
        }
        i = i + 1;
    }
    proof {
        assert(a@ =~= b@);
    }
    true
}

/// The contact that a connection code introduces, or why it introduces none.
pub open spec fn introduced(p: InvitePayloadView, local: Seq<u8>, now_ms: u64) -> Result<
    ContactView,
    Seq<char>,
> {
    let url = urls::normalized(p.server_url);
    if p.v != 1 || p.protocol != PROTOCOL_SIGNAL@ {
        Err("unsupported connection code protocol"@)
    } else if p.created_at_ms > routes::later(now_ms, MAX_CLOCK_DRIFT_MS) {
        Err(
            "connection code claims to be from the future; check your clock or request a fresh code"@,
        )
    } else if routes::later(p.created_at_ms, CONNECTION_CODE_TTL_MS) < now_ms {
        Err("connection code has expired; ask for a fresh code"@)
    } else {
        match encoding::b64_bytes(p.identity_public_b64, false) {
            None => Err("bad identity public key in code"@),
            Some(identity) => if identity == local {
                Err("this connection code belongs to your own identity"@)
            } else {
                Ok(
                    ContactView {
                        id: p.mailbox_id,
                        display_name: if text::blank(p.display_name) {
                            None
                        } else {
                            Some(p.display_name)
                        },
                        recipient_id: p.mailbox_id,
                        server_url: url,
                        server_id: urls::server_id(url),
                        identity_public_b64: p.identity_public_b64,
                        registration_id: p.registration_id,
                        device_id: p.device_id,
                        signed_prekey_id: p.signed_prekey_id,
                        signed_prekey_public_b64: p.signed_prekey_public_b64,
                        signed_prekey_signature_b64: p.signed_prekey_signature_b64,
                        opk_id: p.opk_id,
                        opk_public_b64: p.opk_public_b64,
                        kyber_prekey_id: p.kyber_prekey_id,
                        kyber_prekey_public_b64: p.kyber_prekey_public_b64,
                        kyber_prekey_signature_b64: p.kyber_prekey_signature_b64,
                        delivery_token: p.delivery_token,
                        delivery_token_epoch: 1,
                        safety_number: safety::safety_number(local, identity),
                        trust_state: "unverified"@,
                        verified_at_ms: None,
                        local_route_id: None,
                        peer_sender_mailbox_id: None,
                        created_at_ms: now_ms,
                        last_read_at: None,
                    },
                )
            },
        }
    }
}

/// The contact that a connection code introduces.
pub fn contact_from_payload(
    payload: InvitePayload,
    local_identity_public: &[u8],
    now_ms: u64,
) -> (r: Result<StoredContact, String>)
    ensures
        seqs::outcome(r) == introduced(payload@, local_identity_public@, now_ms),
{
    if payload.v != 1 || !text::same_text(payload.protocol.as_str(), PROTOCOL_SIGNAL) {
        return Err("unsupported connection code protocol".to_string());
    }
    if payload.created_at_ms > now_ms.saturating_add(MAX_CLOCK_DRIFT_MS) {
        return Err(
            "connection code claims to be from the future; check your clock or request a fresh code".to_string(),
        );
    }
    if payload.created_at_ms.saturating_add(CONNECTION_CODE_TTL_MS) < now_ms {
        return Err("connection code has expired; ask for a fresh code".to_string());
    }
    let server_url = urls::normalize_url(payload.server_url.as_str());
    let identity = match encoding::from_b64(payload.identity_public_b64.as_str()) {
        None => {
            return Err("bad identity public key in code".to_string());
        },
        Some(i) => i,
    };
    if same_bytes(identity.as_slice(), local_identity_public) {
        return Err("this connection code belongs to your own identity".to_string());
    }
    let display_name = if text::is_blank(payload.display_name.as_str()) {
        None
    } else {
        Some(payload.display_name)
    };
    let server_id = urls::server_id_for_url(server_url.as_str());
    let safety_number = safety::pairwise_safety_number(
        local_identity_public,
        identity.as_slice(),
    );
    Ok(
        StoredContact {
            id: payload.mailbox_id.clone(),
            display_name,
            recipient_id: payload.mailbox_id,
            server_url,
            server_id,
            identity_public_b64: payload.identity_public_b64,
            registration_id: payload.registration_id,
            device_id: payload.device_id,
            signed_prekey_id: payload.signed_prekey_id,
            signed_prekey_public_b64: payload.signed_prekey_public_b64,
            signed_prekey_signature_b64: payload.signed_prekey_signature_b64,
            opk_id: payload.opk_id,
            opk_public_b64: payload.opk_public_b64,
            kyber_prekey_id: payload.kyber_prekey_id,
            kyber_prekey_public_b64: payload.kyber_prekey_public_b64,
            kyber_prekey_signature_b64: payload.kyber_prekey_signature_b64,
            delivery_token: payload.delivery_token,
            delivery_token_epoch: 1,
            safety_number,
            trust_state: "unverified".to_string(),
            verified_at_ms: None,
            local_route_id: None,
            peer_sender_mailbox_id: None,
            created_at_ms: now_ms,
            last_read_at: None,
        },
    )
}

// ---------------------------------------------------------------------------------------------
// Adding and moving.
// ---------------------------------------------------------------------------------------------

/// The contact has the mailbox.
pub open spec fn recipient_is(id: Seq<char>) -> spec_fn(ContactView) -> bool {
    |c: ContactView| c.recipient_id == id
}

/// Where the contact with a mailbox stands.
pub fn find_recipient(contacts: &Vec<StoredContact>, id: &str) -> (r: Option<usize>)
    ensures
        match r {
            Some(i) => i < contacts@.len() && seqs::find(
                seqs::views(contacts@),
                recipient_is(id@),
            ) == Some(i as int),
            None => seqs::find(seqs::views(contacts@), recipient_is(id@)) == None::<int>,
        },
{
    let ghost all = seqs::views(contacts@);
    let mut i: usize = 0;
    while i < contacts.len()
        invariant
            i <= contacts@.len(),
            all == seqs::views(contacts@),
            forall|j: int| 0 <= j < i ==> !recipient_is(id@)(#[trigger] all[j]),
        decreases contacts@.len() - i,
    {
        if text::same_text(contacts[i].recipient_id.as_str(), id) {
            proof {
                seqs::find_is(all, recipient_is(id@), i as int);
            }
            return Some(i);
        }
        i = i + 1;
    }
    proof {
        seqs::find_none(all, recipient_is(id@));
    }
    None
}

/// The contact after its identity key turned out to have changed.
pub open spec fn blocked(c: ContactView) -> ContactView {
    ContactView { trust_state: BLOCKED@, verified_at_ms: None, ..c }
}

/// The contacts, one of them blocked.
pub open spec fn with_blocked(contacts: Seq<ContactView>, i: int) -> Seq<ContactView> {
    contacts.update(i, blocked(contacts[i]))
}

/// Blocks a contact.
pub fn block_contact(contacts: &mut Vec<StoredContact>, i: usize)
    requires
        i < old(contacts)@.len(),
    ensures
        seqs::views(final(contacts)@) == with_blocked(seqs::views(old(contacts)@), i as int),
        final(contacts)@.len() == old(contacts)@.len(),
{
    contacts[i].trust_state = BLOCKED.to_string();
    contacts[i].verified_at_ms = None;
    proof {
        assert(seqs::views(contacts@) =~= with_blocked(seqs::views(old(contacts)@), i as int));
    }
}

/// The name that a newer source gives, or the one that is known.
pub open spec fn or_known(newer: Option<Seq<char>>, known: Option<Seq<char>>) -> Option<
    Seq<char>,
> {
    match newer {
        Some(n) => Some(n),
        None => known,
    }
}

/// The newer text, or the known one.
pub fn or_else_text(newer: Option<String>, known: Option<String>) -> (r: Option<String>)
    ensures
        seqs::opt(r) == or_known(seqs::opt(newer), seqs::opt(known)),
{
    match newer {
        Some(n) => Some(n),
        None => known,
    }
}

/// The larger of two numbers.
pub open spec fn larger(a: u64, b: u64) -> u64 {
    if a >= b {
        a
    } else {
        b
    }
}

/// A contact that is known, after its connection code came again.
pub open spec fn refreshed(e: ContactView, c: ContactView, route_id: Seq<char>) -> ContactView {
    ContactView {
        display_name: or_known(c.display_name, e.display_name),
        server_url: c.server_url,
        server_id: c.server_id,
        identity_public_b64: c.identity_public_b64,
        registration_id: c.registration_id,
        device_id: c.device_id,
        signed_prekey_id: c.signed_prekey_id,
        signed_prekey_public_b64: c.signed_prekey_public_b64,
        signed_prekey_signature_b64: c.signed_prekey_signature_b64,
        opk_id: c.opk_id,
        opk_public_b64: c.opk_public_b64,
        kyber_prekey_id: c.kyber_prekey_id,
        kyber_prekey_public_b64: c.kyber_prekey_public_b64,
        kyber_prekey_signature_b64: c.kyber_prekey_signature_b64,
        delivery_token: c.delivery_token,
        delivery_token_epoch: larger(c.delivery_token_epoch, e.delivery_token_epoch),
        safety_number: c.safety_number,
        local_route_id: Some(route_id),
        ..e
    }
}

/// The store after a contact was added, and the contact as it is stored; a known mailbox with
/// another identity key is blocked and refused.
pub open spec fn added(st: StoreView, c: ContactView, f: FreshRouteView, now_ms: u64) -> (
    StoreView,
    Result<ContactView, Seq<char>>,
) {
    let s1 = routes::cleaned(st, now_ms);
    match seqs::find(s1.contacts, recipient_is(c.recipient_id)) {
        Some(i) => {
            let e = s1.contacts[i];
            if e.identity_public_b64 != c.identity_public_b64 && e.identity_public_b64.len() > 0 {
                (
                    StoreView { contacts: with_blocked(s1.contacts, i), ..s1 },
                    Err(OTHER_IDENTITY_ADDED@),
                )
            } else {
                let (s2, route) = routes::ensured_route(s1, e.id, c.server_url, f, now_ms);
                let after = refreshed(s2.contacts[i], c, route.id);
                (StoreView { contacts: s2.contacts.update(i, after), ..s2 }, Ok(after))
            }
        },
        None => {
            let s2 = StoreView { contacts: s1.contacts.push(c), ..s1 };
            let (s3, route) = routes::ensured_route(s2, c.id, c.server_url, f, now_ms);
            let contacts = routes::with_contact_route(s3.contacts, c.id, route.id);
            (
                StoreView { contacts, ..s3 },
                Ok(
                    match seqs::first_where(contacts, routes::contact_is(c.id)) {
                        Some(stored) => stored,
                        None => c,
                    },
                ),
            )
        },
    }
}

/// Why a known contact is not added again under another identity.
pub const OTHER_IDENTITY_ADDED: &'static str =
    "contact identity key changed; refusing to replace it automatically. Verify out-of-band before re-adding.";

/// Why a contact is not moved under another identity.
pub const OTHER_IDENTITY_MOVED: &'static str =
    "fresh code has a different identity key; refusing relay migration";

/// Whether a refusal to add or move a contact is one that blocked it, so that the store has to be
/// written all the same.
pub fn is_blocking(why: &str) -> (r: bool)
    ensures
        r == (why@ == OTHER_IDENTITY_ADDED@ || why@ == OTHER_IDENTITY_MOVED@),
{
    text::same_text(why, OTHER_IDENTITY_ADDED) || text::same_text(why, OTHER_IDENTITY_MOVED)
}

/// Adds a contact.
pub fn add_contact(
    store: &mut MessagingStore,
    contact: StoredContact,
    fresh: FreshRoute,
    now_ms: u64,
) -> (r: Result<StoredContact, String>)
    ensures
        (final(store)@, seqs::outcome(r)) == added(old(store)@, contact@, fresh@, now_ms),
{
    routes::cleanup_expired_routes(store, now_ms);
    let ghost s1 = store@;
    match find_recipient(&store.contacts, contact.recipient_id.as_str()) {
        Some(i) => {
            if store.contacts[i].identity_public_b64 != contact.identity_public_b64
                && !store.contacts[i].identity_public_b64.as_str().is_empty() {
                block_contact(&mut store.contacts, i);
                return Err(OTHER_IDENTITY_ADDED.to_string());
            }
            let id = store.contacts[i].id.clone();
            proof {
                routes::ensured_keeps_contacts(s1, id@, contact@.server_url, fresh@, now_ms);
            }
            let route = routes::ensure_route_for_contact(
                store,
                id.as_str(),
                contact.server_url.as_str(),
                fresh,
                now_ms,
            );
            let ghost s2 = store@;
            let e = store.contacts[i].duplicate();
            let epoch: u64 = if contact.delivery_token_epoch >= e.delivery_token_epoch {
                contact.delivery_token_epoch
            } else {
                e.delivery_token_epoch
            };
            let after = StoredContact {
                display_name: or_else_text(contact.display_name, e.display_name),
                server_url: contact.server_url,
                server_id: contact.server_id,
                identity_public_b64: contact.identity_public_b64,
                registration_id: contact.registration_id,
                device_id: contact.device_id,
                signed_prekey_id: contact.signed_prekey_id,
                signed_prekey_public_b64: contact.signed_prekey_public_b64,
                signed_prekey_signature_b64: contact.signed_prekey_signature_b64,
                opk_id: contact.opk_id,
                opk_public_b64: contact.opk_public_b64,
                kyber_prekey_id: contact.kyber_prekey_id,
                kyber_prekey_public_b64: contact.kyber_prekey_public_b64,
                kyber_prekey_signature_b64: contact.kyber_prekey_signature_b64,
                delivery_token: contact.delivery_token,
                delivery_token_epoch: epoch,
                safety_number: contact.safety_number,
                local_route_id: Some(route.id),
                id: e.id,
                recipient_id: e.recipient_id,
                trust_state: e.trust_state,
                verified_at_ms: e.verified_at_ms,
                peer_sender_mailbox_id: e.peer_sender_mailbox_id,
                created_at_ms: e.created_at_ms,
                last_read_at: e.last_read_at,
            };
            let copy = after.duplicate();
            proof {
                assert(after@ =~= refreshed(s2.contacts[i as int], contact@, route@.id));
                seqs::views_update(store.contacts@, i as int, copy);
            }
            store.contacts.set(i, copy);
            Ok(after)
        },
        None => {
            let copy = contact.duplicate();
            proof {
                seqs::views_push(store.contacts@, copy);
            }
            store.contacts.push(copy);
            let route = routes::ensure_route_for_contact(
                store,
                contact.id.as_str(),
                contact.server_url.as_str(),
                fresh,
                now_ms,
            );
            routes::set_contact_route(&mut store.contacts, contact.id.as_str(), route.id.as_str());
            match routes::find_contact(&store.contacts, contact.id.as_str()) {
                Some(k) => Ok(store.contacts[k].duplicate()),
                None => Ok(contact),
            }
        },
    }
}

/// The name of the session with a device of a mailbox.
pub open spec fn session_key(recipient_id: Seq<char>, device_id: u32) -> Seq<char> {
    recipient_id + ":"@ + text::decimal(device_id as nat)
}

/// The name of the session with a device of a mailbox.
pub fn session_name(recipient_id: &str, device_id: u32) -> (r: String)
    ensures
        r@ == session_key(recipient_id@, device_id),
{
    let d = text::decimal_text(device_id as u64);
    text::concat3(recipient_id, ":", d.as_str())
}

/// A contact after it moved to another relay.
pub open spec fn moved(e: ContactView, before: ContactView, c: ContactView, route_id: Seq<char>)
    -> ContactView {
    ContactView {
        display_name: or_known(c.display_name, e.display_name),
        recipient_id: c.recipient_id,
        server_url: c.server_url,
        server_id: c.server_id,
        registration_id: c.registration_id,
        device_id: c.device_id,
        signed_prekey_id: c.signed_prekey_id,
        signed_prekey_public_b64: c.signed_prekey_public_b64,
        signed_prekey_signature_b64: c.signed_prekey_signature_b64,
        opk_id: c.opk_id,
        opk_public_b64: c.opk_public_b64,
        kyber_prekey_id: c.kyber_prekey_id,
        kyber_prekey_public_b64: c.kyber_prekey_public_b64,
        kyber_prekey_signature_b64: c.kyber_prekey_signature_b64,
        delivery_token: c.delivery_token,
        safety_number: c.safety_number,
        local_route_id: Some(route_id),
        trust_state: if before.trust_state == "verified"@ {
            "verified"@
        } else {
            "unverified"@
        },
        verified_at_ms: before.verified_at_ms,
        ..e
    }
}

/// The store after a contact moved with a fresh code, the contact and its new route. The code
/// must belong to the same identity and device; another identity blocks the contact.
pub open spec fn migrated(
    st: StoreView,
    contact_id: Seq<char>,
    c: ContactView,
    f: FreshRouteView,
    now_ms: u64,
) -> (StoreView, Result<(ContactView, RouteView), Seq<char>>) {
    let s1 = routes::cleaned(st, now_ms);
    match seqs::find(s1.contacts, routes::contact_is(contact_id)) {
        None => (s1, Err("contact not found"@)),
        Some(i) => {
            let before = s1.contacts[i];
            if text::blank(before.identity_public_b64) {
                (s1, Err("cannot migrate a contact without a pinned identity key"@))
            } else if before.identity_public_b64 != c.identity_public_b64 {
                (
                    StoreView { contacts: with_blocked(s1.contacts, i), ..s1 },
                    Err(OTHER_IDENTITY_MOVED@),
                )
            } else if before.device_id != c.device_id {
                (
                    s1,
                    Err(
                        "fresh code uses a different device id; create a new contact or verify out-of-band first"@,
                    ),
                )
            } else {
                let s2 = StoreView {
                    signal_sessions: s1.signal_sessions.remove(
                        session_key(before.recipient_id, before.device_id),
                    ),
                    ..s1
                };
                let (s3, route) = routes::rotated(s2, contact_id, c.server_url, f, now_ms);
                let after = moved(s3.contacts[i], before, c, route.id);
                (StoreView { contacts: s3.contacts.update(i, after), ..s3 }, Ok((after, route)))
            }
        },
    }
}

/// Moves a contact to the relay of a fresh code.
pub fn migrate_contact(
    store: &mut MessagingStore,
    contact_id: &str,
    incoming: StoredContact,
    fresh: FreshRoute,
    now_ms: u64,
) -> (r: Result<(StoredContact, LocalRoute), String>)
    ensures
        (final(store)@, seqs::outcome(r)) == migrated(
            old(store)@,
            contact_id@,
            incoming@,
            fresh@,
            now_ms,
        ),
{
    routes::cleanup_expired_routes(store, now_ms);
    let i: usize = match routes::find_contact(&store.contacts, contact_id) {
        None => {
            return Err("contact not found".to_string());
        },
        Some(i) => i,
    };
    let before = store.contacts[i].duplicate();
    if text::is_blank(before.identity_public_b64.as_str()) {
        return Err("cannot migrate a contact without a pinned identity key".to_string());
    }
    if before.identity_public_b64 != incoming.identity_public_b64 {
        block_contact(&mut store.contacts, i);
        return Err(OTHER_IDENTITY_MOVED.to_string());
    }
    if before.device_id != incoming.device_id {
        return Err(
            "fresh code uses a different device id; create a new contact or verify out-of-band first".to_string(),
        );
    }
    let session = session_name(before.recipient_id.as_str(), before.device_id);
    store.signal_sessions.remove(session.as_str());
    let ghost s2 = store@;
    proof {
        routes::rotated_keeps_contacts(s2, contact_id@, incoming@.server_url, fresh@, now_ms);
    }
    let route = routes::rotate_local_route_for_contact(
        store,
        contact_id,
        incoming.server_url.as_str(),
        fresh,
        now_ms,
    );
    let ghost s3 = store@;
    let e = store.contacts[i].duplicate();
    let trust_state = if text::same_text(before.trust_state.as_str(), "verified") {
        "verified".to_string()
    } else {
        "unverified".to_string()
    };
    let after = StoredContact {
        display_name: or_else_text(incoming.display_name, e.display_name),
        recipient_id: incoming.recipient_id,
        server_url: incoming.server_url,
        server_id: incoming.server_id,
        registration_id: incoming.registration_id,
        device_id: incoming.device_id,
        signed_prekey_id: incoming.signed_prekey_id,
        signed_prekey_public_b64: incoming.signed_prekey_public_b64,
        signed_prekey_signature_b64: incoming.signed_prekey_signature_b64,
        opk_id: incoming.opk_id,
        opk_public_b64: incoming.opk_public_b64,
        kyber_prekey_id: incoming.kyber_prekey_id,
        kyber_prekey_public_b64: incoming.kyber_prekey_public_b64,
        kyber_prekey_signature_b64: incoming.kyber_prekey_signature_b64,
        delivery_token: incoming.delivery_token,
        safety_number: incoming.safety_number,
        local_route_id: Some(route.id.clone()),
        trust_state,
        verified_at_ms: before.verified_at_ms,
        id: e.id,
        identity_public_b64: e.identity_public_b64,
        delivery_token_epoch: e.delivery_token_epoch,
        peer_sender_mailbox_id: e.peer_sender_mailbox_id,
        created_at_ms: e.created_at_ms,
        last_read_at: e.last_read_at,
    };
    let copy = after.duplicate();
    proof {
        assert(after@ =~= moved(s3.contacts[i as int], before@, incoming@, route@.id));
        seqs::views_update(store.contacts@, i as int, copy);
    }
    store.contacts.set(i, copy);
    Ok((after, route))
}

/// The code that moves a contact, without the white space around it.
pub fn migration_code(code: &str) -> (r: Result<String, String>)
    ensures
        seqs::outcome(r) == if text::blank(code@) {
            Err("migration code is empty"@)
        } else {
            Ok(text::trimmed(code@))
        },
{
    let trimmed = text::trim(code);
    if trimmed.as_str().is_empty() {
        return Err("migration code is empty".to_string());
    }
    Ok(trimmed)
}

/// The verification code without the white space around it.
pub fn verification_code_text(code: &str) -> (r: Result<String, String>)
    ensures
        seqs::outcome(r) == if text::blank(code@) {
            Err("verification code is empty"@)
        } else {
            Ok(text::trimmed(code@))
        },
{
    let trimmed = text::trim(code);
    if trimmed.as_str().is_empty() {
        return Err("verification code is empty".to_string());
    }
    Ok(trimmed)
}

/// Moving a contact without a fresh code is refused.
pub fn update_contact_server() -> (r: Result<StoredContact, String>)
    ensures
        seqs::outcome(r) == Err::<ContactView, Seq<char>>(
            "changing a contact relay without a fresh connection code is unsafe; use relay migration with a fresh code"@,
        ),
{
    Err(
        "changing a contact relay without a fresh connection code is unsafe; use relay migration with a fresh code".to_string(),
    )
}

// ---------------------------------------------------------------------------------------------
// Reading and verifying.
// ---------------------------------------------------------------------------------------------

/// The store after a contact was changed, and the contact, or the store as it was and why.
pub open spec fn with_contact(
    st: StoreView,
    contact_id: Seq<char>,
    change: spec_fn(ContactView) -> Result<ContactView, Seq<char>>,
) -> (StoreView, Result<ContactView, Seq<char>>) {
    match seqs::find(st.contacts, routes::contact_is(contact_id)) {
        None => (st, Err("contact not found"@)),
        Some(i) => match change(st.contacts[i]) {
            Ok(c) => (StoreView { contacts: st.contacts.update(i, c), ..st }, Ok(c)),
            Err(e) => (st, Err(e)),
        },
    }
}

/// A contact that was read up to a time.
pub open spec fn read_at(now_ms: u64) -> spec_fn(ContactView) -> Result<ContactView, Seq<char>> {
    |c: ContactView| Ok(ContactView { last_read_at: Some(now_ms), ..c })
}

/// Notes that a conversation was read.
pub fn mark_contact_read(store: &mut MessagingStore, contact_id: &str, now_ms: u64) -> (r: Result<
    StoredContact,
    String,
>)
    ensures
        (final(store)@, seqs::outcome(r)) == with_contact(
            old(store)@,
            contact_id@,
            read_at(now_ms),
        ),
{
    let i: usize = match routes::find_contact(&store.contacts, contact_id) {
        None => {
            return Err("contact not found".to_string());
        },
        Some(i) => i,
    };
    let mut c = store.contacts[i].duplicate();
    c.last_read_at = Some(now_ms);
    let copy = c.duplicate();
    proof {
        seqs::views_update(store.contacts@, i as int, copy);
    }
    store.contacts.set(i, copy);
    Ok(c)
}

/// A contact whose trust its user set by hand, or why it cannot be set.
pub open spec fn marked(verified: bool, now_ms: u64) -> spec_fn(ContactView) -> Result<
    ContactView,
    Seq<char>,
> {
    |c: ContactView|
        if c.trust_state == BLOCKED@ && verified {
            Err("contact identity changed; re-add using a fresh code before verifying"@)
        } else if verified && (text::blank(c.identity_public_b64) || text::blank(
            c.safety_number,
        )) {
            Err("contact does not have enough identity material to verify yet"@)
        } else {
            Ok(
                ContactView {
                    trust_state: if verified {
                        "verified"@
                    } else {
                        "unverified"@
                    },
                    verified_at_ms: if verified {
                        Some(now_ms)
                    } else {
                        None
                    },
                    ..c
                },
            )
        }
}

/// Sets the trust in a contact by hand.
pub fn mark_contact_verified(
    store: &mut MessagingStore,
    contact_id: &str,
    verified: bool,
    now_ms: u64,
) -> (r: Result<StoredContact, String>)
    ensures
        (final(store)@, seqs::outcome(r)) == with_contact(
            old(store)@,
            contact_id@,
            marked(verified, now_ms),
        ),
{
    let i: usize = match routes::find_contact(&store.contacts, contact_id) {
        None => {
            return Err("contact not found".to_string());
        },
        Some(i) => i,
    };
    let mut c = store.contacts[i].duplicate();
    if text::same_text(c.trust_state.as_str(), BLOCKED) && verified {
        return Err(
            "contact identity changed; re-add using a fresh code before verifying".to_string(),
        );
    }
    if verified && (text::is_blank(c.identity_public_b64.as_str()) || text::is_blank(
        c.safety_number.as_str(),
    )) {
        return Err("contact does not have enough identity material to verify yet".to_string());
    }
    if verified {
        c.trust_state = "verified".to_string();
        c.verified_at_ms = Some(now_ms);
    } else {
        c.trust_state = "unverified".to_string();
        c.verified_at_ms = None;
    }
    let copy = c.duplicate();
    proof {
        seqs::views_update(store.contacts@, i as int, copy);
    }
    store.contacts.set(i, copy);
    Ok(c)
}

/// What a verification code for a contact says, or why there can be none.
pub open spec fn verification_for(
    st: StoreView,
    contact_id: Seq<char>,
    my_public: Seq<u8>,
    now_ms: u64,
) -> Result<VerificationView, Seq<char>> {
    match seqs::first_where(st.contacts, routes::contact_is(contact_id)) {
        None => Err("contact not found"@),
        Some(c) => if text::blank(c.identity_public_b64) || text::blank(c.safety_number) {
            Err(
                "contact identity is not established yet; exchange at least one valid Signal message first"@,
            )
        } else {
            Ok(
                VerificationView {
                    v: 1,
                    kind: VERIFY_KIND@,
                    local_identity_public_b64: encoding::b64_text(my_public, false),
                    remote_identity_public_b64: c.identity_public_b64,
                    safety_number: c.safety_number,
                    created_at_ms: now_ms,
                },
            )
        },
    }
}

/// What a verification code for a contact says.
pub fn verification_payload(
    store: &MessagingStore,
    contact_id: &str,
    my_public: &[u8],
    now_ms: u64,
) -> (r: Result<VerificationPayload, String>)
    ensures
        seqs::outcome(r) == verification_for(store@, contact_id@, my_public@, now_ms),
{
    let i: usize = match routes::find_contact(&store.contacts, contact_id) {
        None => {
            return Err("contact not found".to_string());
        },
        Some(i) => i,
    };
    let c = &store.contacts[i];
    if text::is_blank(c.identity_public_b64.as_str()) || text::is_blank(c.safety_number.as_str()) {
        return Err(
            "contact identity is not established yet; exchange at least one valid Signal message first".to_string(),
        );
    }
    Ok(
        VerificationPayload {
            v: 1,
            kind: VERIFY_KIND.to_string(),
            local_identity_public_b64: encoding::to_b64(my_public),
            remote_identity_public_b64: c.identity_public_b64.clone(),
            safety_number: c.safety_number.clone(),
            created_at_ms: now_ms,
        },
    )
}

/// What a verification code says, with the signature that was made of it.
pub fn with_signature(payload: VerificationPayload, signature: &[u8]) -> (r:
    SignedVerificationPayload)
    ensures
        r@ == (SignedVerificationView {
            payload: payload@,
            signature_b64: encoding::b64_text(signature@, false),
        }),
{
    SignedVerificationPayload { payload, signature_b64: encoding::to_b64(signature) }
}

/// What the check of a verification code says before its signature is looked at.
pub open spec fn checked_verification(p: VerificationView, now_ms: u64) -> Result<(), Seq<char>> {
    if p.v != 1 || p.kind != VERIFY_KIND@ {
        Err("unsupported verification code"@)
    } else if routes::later(p.created_at_ms, VERIFY_CODE_TTL_MS) < now_ms {
        Err("verification code has expired; ask them to generate a fresh one"@)
    } else {
        Ok(())
    }
}

/// Refuses a verification code that is of another kind or too old.
pub fn check_verification(payload: &VerificationPayload, now_ms: u64) -> (r: Result<(), String>)
    ensures
        seqs::verdict(r) == checked_verification(payload@, now_ms),
{
    if payload.v != 1 || !text::same_text(payload.kind.as_str(), VERIFY_KIND) {
        return Err("unsupported verification code".to_string());
    }
    if payload.created_at_ms.saturating_add(VERIFY_CODE_TTL_MS) < now_ms {
        return Err(
            "verification code has expired; ask them to generate a fresh one".to_string(),
        );
    }
    Ok(())
}

/// Refuses a verification code whose signature is not that of the identity it names.
pub fn check_signature(authentic: bool) -> (r: Result<(), String>)
    ensures
        seqs::verdict(r) == if authentic {
            Ok(())
        } else {
            Err("verification code signature did not match the claimed identity"@)
        },
{
    if authentic {
        Ok(())
    } else {
        Err("verification code signature did not match the claimed identity".to_string())
    }
}

/// A contact that a verification code verifies, or why it does not.
pub open spec fn verified_by(p: VerificationView, my_public: Seq<u8>, now_ms: u64) -> spec_fn(
    ContactView,
) -> Result<ContactView, Seq<char>> {
    |c: ContactView|
        if c.trust_state == BLOCKED@ {
            Err("contact identity changed; re-add using a fresh code before verifying"@)
        } else if text::blank(c.identity_public_b64) || text::blank(c.safety_number) {
            Err(
                "contact identity is not established yet; exchange at least one valid Signal message first"@,
            )
        } else if p.local_identity_public_b64 != c.identity_public_b64 {
            Err("verification code was not generated by this contact identity"@)
        } else if p.remote_identity_public_b64 != encoding::b64_text(my_public, false) {
            Err("verification code was generated for a different recipient identity"@)
        } else if p.safety_number != c.safety_number {
            Err("verification code safety number does not match this conversation"@)
        } else {
            Ok(
                ContactView {
                    trust_state: "verified"@,
                    verified_at_ms: Some(now_ms),
                    ..c
                },
            )
        }
}

/// Verifies a contact with the contents of a verification code whose signature was found
/// authentic.
pub fn verify_contact(
    store: &mut MessagingStore,
    contact_id: &str,
    payload: &VerificationPayload,
    my_public: &[u8],
    now_ms: u64,
) -> (r: Result<StoredContact, String>)
    ensures
        (final(store)@, seqs::outcome(r)) == with_contact(
            old(store)@,
            contact_id@,
            verified_by(payload@, my_public@, now_ms),
        ),
{
    let i: usize = match routes::find_contact(&store.contacts, contact_id) {
        None => {
            return Err("contact not found".to_string());
        },
        Some(i) => i,
    };
    let mut c = store.contacts[i].duplicate();
    if text::same_text(c.trust_state.as_str(), BLOCKED) {
        return Err(
            "contact identity changed; re-add using a fresh code before verifying".to_string(),
        );
    }
    if text::is_blank(c.identity_public_b64.as_str()) || text::is_blank(c.safety_number.as_str()) {
        return Err(
            "contact identity is not established yet; exchange at least one valid Signal message first".to_string(),
        );
    }
    let mine = encoding::to_b64(my_public);
    if payload.local_identity_public_b64 != c.identity_public_b64 {
        return Err("verification code was not generated by this contact identity".to_string());
    }
    if payload.remote_identity_public_b64 != mine {
        return Err(
            "verification code was generated for a different recipient identity".to_string(),
        );
    }
    if payload.safety_number != c.safety_number {
        return Err(
            "verification code safety number does not match this conversation".to_string(),
        );
    }
    c.trust_state = "verified".to_string();
    c.verified_at_ms = Some(now_ms);
    let copy = c.duplicate();
    proof {
        seqs::views_update(store.contacts@, i as int, copy);
    }
    store.contacts.set(i, copy);
    Ok(c)
}

/// A refusal to add or move a contact either blocked it, and says so, or changed nothing beyond
/// cleaning up.
pub proof fn refusals_block_or_change_nothing(
    st: StoreView,
    contact_id: Seq<char>,
    c: ContactView,
    f: FreshRouteView,
    now_ms: u64,
)
    ensures
        added(st, c, f, now_ms).1 matches Err(e) ==> e == OTHER_IDENTITY_ADDED@,
        migrated(st, contact_id, c, f, now_ms).1 matches Err(e) ==> e == OTHER_IDENTITY_MOVED@ || (e
            != OTHER_IDENTITY_ADDED@ && migrated(st, contact_id, c, f, now_ms).0
            == routes::cleaned(st, now_ms)),
        migrated(st, contact_id, c, f, now_ms).1 == Err::<(ContactView, RouteView), Seq<char>>(
            OTHER_IDENTITY_MOVED@,
        ) ==> (seqs::first_where(
            migrated(st, contact_id, c, f, now_ms).0.contacts,
            routes::contact_is(contact_id),
        ) matches Some(k) && k.trust_state == BLOCKED@),
{
    reveal_strlit("contact not found");
    reveal_strlit("cannot migrate a contact without a pinned identity key");
    reveal_strlit(
        "fresh code uses a different device id; create a new contact or verify out-of-band first",
    );
    reveal_strlit("fresh code has a different identity key; refusing relay migration");
    reveal_strlit(
        "contact identity key changed; refusing to replace it automatically. Verify out-of-band before re-adding.",
    );
    assert(OTHER_IDENTITY_MOVED@.len() == 65);
    assert("contact not found"@.len() == 17);
    let p = routes::contact_is(contact_id);
    let s1 = routes::cleaned(st, now_ms);
    seqs::find_spec(s1.contacts, p);
    if let Some(i) = seqs::find(s1.contacts, p) {
        let after = with_blocked(s1.contacts, i);
        assert forall|j: int| 0 <= j < i implies !p(#[trigger] after[j]) by {
            assert(after[j] == s1.contacts[j]);
        }
        assert(p(after[i]));
        seqs::find_is(after, p, i);
    }
}

} // verus!
