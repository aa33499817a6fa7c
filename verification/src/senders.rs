//! Who a sealed message is from: the contact behind a sender certificate, and what an encrypted
//! payload teaches about it.
use crate::contacts;
use crate::encoding;
use crate::keys;
use crate::payloads::DecryptedSignalText;
use crate::payloads::DecryptedView;
use crate::routes;
use crate::safety;
use crate::seqs;
use crate::seqs::Duplicate;
use crate::store::ContactView;
use crate::store::LocalRoute;
use crate::store::MessagingStore;
use crate::store::RouteView;
use crate::store::StoreView;
use crate::store::StoredContact;
use crate::text;
use crate::urls;
use vstd::prelude::*;

verus! {

/// A sender whom nothing is known of but its certificate.
pub open spec fn stranger(uuid: Seq<char>, device_id: u32, route: RouteView, now_ms: u64)
    -> ContactView {
    ContactView {
        id: uuid,
        display_name: None,
        recipient_id: uuid,
        server_url: Seq::empty(),
        server_id: route.server_id,
        identity_public_b64: Seq::empty(),
        registration_id: 0,
        device_id,
        signed_prekey_id: 0,
        signed_prekey_public_b64: Seq::empty(),
        signed_prekey_signature_b64: Seq::empty(),
        opk_id: None,
        opk_public_b64: None,
        kyber_prekey_id: None,
        kyber_prekey_public_b64: None,
        kyber_prekey_signature_b64: None,
        delivery_token: Seq::empty(),
        delivery_token_epoch: 1,
        safety_number: Seq::empty(),
        trust_state: "unverified"@,
        verified_at_ms: None,
        local_route_id: Some(route.id),
        peer_sender_mailbox_id: Some(uuid),
        created_at_ms: now_ms,
        last_read_at: None,
    }
}

/// The contact that a sender certificate speaks of: the one with that mailbox, or a stranger.
pub open spec fn certified(
    st: StoreView,
    uuid: Seq<char>,
    device_id: u32,
    route: RouteView,
    now_ms: u64,
) -> ContactView {
    ContactView {
        device_id,
        server_id: route.server_id,
        ..match seqs::first_where(st.contacts, contacts::recipient_is(uuid)) {
            Some(c) => c,
            None => stranger(uuid, device_id, route, now_ms),
        }
    }
}

/// The contact that a sender certificate speaks of.
pub fn certified_sender(
    store: &MessagingStore,
    uuid: &str,
    device_id: u32,
    local_route: &LocalRoute,
    now_ms: u64,
) -> (r: StoredContact)
    ensures
        r@ == certified(store@, uuid@, device_id, local_route@, now_ms),
{
    let mut c = match contacts::find_recipient(&store.contacts, uuid) {
        Some(i) => store.contacts[i].duplicate(),
        None => StoredContact {
            id: uuid.to_string(),
            display_name: None,
            recipient_id: uuid.to_string(),
            server_url: String::new(),
            server_id: local_route.server_id.clone(),
            identity_public_b64: String::new(),
            registration_id: 0,
            device_id,
            signed_prekey_id: 0,
            signed_prekey_public_b64: String::new(),
            signed_prekey_signature_b64: String::new(),
            opk_id: None,
            opk_public_b64: None,
            kyber_prekey_id: None,
            kyber_prekey_public_b64: None,
            kyber_prekey_signature_b64: None,
            delivery_token: String::new(),
            delivery_token_epoch: 1,
            safety_number: String::new(),
            trust_state: "unverified".to_string(),
            verified_at_ms: None,
            local_route_id: Some(local_route.id.clone()),
            peer_sender_mailbox_id: Some(uuid.to_string()),
            created_at_ms: now_ms,
            last_read_at: None,
        },
    };
    c.device_id = device_id;
    c.server_id = local_route.server_id.clone();
    c
}

/// The kinds of ciphertext that the Signal engine tells apart.
pub enum CiphertextKind {
    PreKey,
    Whisper,
    SenderKey,
    Plaintext,
}

/// The name of a kind of ciphertext that is accepted, or why it is not.
pub open spec fn kind_name(kind: CiphertextKind) -> Result<Seq<char>, Seq<char>> {
    match kind {
        CiphertextKind::PreKey => Ok("prekey_signal"@),
        CiphertextKind::Whisper => Ok("signal"@),
        CiphertextKind::SenderKey => Err(
            "group SenderKey messages are not enabled in the text MVP"@,
        ),
        CiphertextKind::Plaintext => Err("plaintext libsignal messages are not allowed"@),
    }
}

/// The name of a kind of ciphertext that is accepted.
pub fn ciphertext_type_name(kind: CiphertextKind) -> (r: Result<String, String>)
    ensures
        seqs::outcome(r) == kind_name(kind),
{
    match kind {
        CiphertextKind::PreKey => Ok("prekey_signal".to_string()),
        CiphertextKind::Whisper => Ok("signal".to_string()),
        CiphertextKind::SenderKey => Err(
            "group SenderKey messages are not enabled in the text MVP".to_string(),
        ),
        CiphertextKind::Plaintext => Err(
            "plaintext libsignal messages are not allowed".to_string(),
        ),
    }
}

/// The store after the contact with a mailbox was blocked, if there is one.
pub open spec fn recipient_blocked(st: StoreView, recipient_id: Seq<char>) -> StoreView {
    match seqs::find(st.contacts, contacts::recipient_is(recipient_id)) {
        Some(i) => StoreView { contacts: contacts::with_blocked(st.contacts, i), ..st },
        None => st,
    }
}

fn block_recipient(store: &mut MessagingStore, recipient_id: &str)
    ensures
        final(store)@ == recipient_blocked(old(store)@, recipient_id@),
{
    if let Some(i) = contacts::find_recipient(&store.contacts, recipient_id) {
        contacts::block_contact(&mut store.contacts, i);
    }
}

/// The store and the sender after the identity key in a first message was looked at: a sender
/// without a known key gets it, and another key than the known one blocks the contact.
pub open spec fn identified(
    st: StoreView,
    c: ContactView,
    uuid: Seq<char>,
    identity: Seq<u8>,
    my_public: Seq<u8>,
) -> (StoreView, Result<ContactView, Seq<char>>) {
    let b64 = encoding::b64_text(identity, false);
    if c.identity_public_b64.len() == 0 {
        (
            st,
            Ok(
                ContactView {
                    identity_public_b64: b64,
                    safety_number: safety::safety_number(my_public, identity),
                    ..c
                },
            ),
        )
    } else if c.identity_public_b64 != b64 {
        (
            recipient_blocked(st, uuid),
            Err("Signal prekey identity did not match stored contact identity"@),
        )
    } else {
        (st, Ok(c))
    }
}

/// Looks at the identity key in a first message.
pub fn check_prekey_identity(
    store: &mut MessagingStore,
    contact: StoredContact,
    uuid: &str,
    identity: &[u8],
    my_public: &[u8],
) -> (r: Result<StoredContact, String>)
    ensures
        (final(store)@, seqs::outcome(r)) == identified(
            old(store)@,
            contact@,
            uuid@,
            identity@,
            my_public@,
        ),
{
    let mut c = contact;
    let b64 = encoding::to_b64(identity);
    if c.identity_public_b64.as_str().is_empty() {
        c.identity_public_b64 = b64;
        c.safety_number = safety::pairwise_safety_number(my_public, identity);
        return Ok(c);
    }
    if c.identity_public_b64 != b64 {
        block_recipient(store, uuid);
        return Err("Signal prekey identity did not match stored contact identity".to_string());
    }
    Ok(c)
}

/// What the check of a message in a running session says: its sender's identity must be known.
pub fn check_known_identity(contact: &StoredContact) -> (r: Result<(), String>)
    ensures
        seqs::verdict(r) == if contact@.identity_public_b64.len() == 0 {
            Err(
                "received a normal Signal message from an unknown sealed-sender route; exchange a prekey message first"@,
            )
        } else {
            Ok(())
        },
{
    if contact.identity_public_b64.as_str().is_empty() {
        return Err(
            "received a normal Signal message from an unknown sealed-sender route; exchange a prekey message first".to_string(),
        );
    }
    Ok(())
}

/// Refuses a sender certificate that the relay's root does not vouch for.
pub fn check_certificate(trusted: bool) -> (r: Result<(), String>)
    ensures
        seqs::verdict(r) == if trusted {
            Ok(())
        } else {
            Err("sender certificate was not trusted by this server root"@)
        },
{
    if trusted {
        Ok(())
    } else {
        Err("sender certificate was not trusted by this server root".to_string())
    }
}

// ---------------------------------------------------------------------------------------------
// What a payload teaches.
// ---------------------------------------------------------------------------------------------

/// The epoch, and not less than one.
pub open spec fn at_least_one(epoch: u64) -> u64 {
    if epoch >= 1 {
        epoch
    } else {
        1
    }
}

/// The contact with a delivery token that is not older than the one it has.
pub open spec fn with_token(c: ContactView, token: Option<Seq<char>>, epoch: Option<u64>)
    -> ContactView {
    match token {
        None => c,
        Some(t) => {
            let e = match epoch {
                Some(e) => e,
                None => at_least_one(c.delivery_token_epoch),
            };
            if e >= c.delivery_token_epoch || c.delivery_token.len() == 0 {
                ContactView {
                    delivery_token: t,
                    delivery_token_epoch: at_least_one(e),
                    ..c
                }
            } else {
                c
            }
        },
    }
}

/// The contact at a relay.
pub open spec fn at_server(c: ContactView, url: Option<Seq<char>>) -> ContactView {
    match url {
        None => c,
        Some(u) => ContactView {
            server_url: urls::normalized(u),
            server_id: urls::server_id(urls::normalized(u)),
            ..c
        },
    }
}

/// The contact, reached by the route that its sender certificate stands for.
pub open spec fn with_sender_route(c: ContactView, d: DecryptedView) -> ContactView {
    at_server(
        with_token(c, d.sender_delivery_token, d.sender_delivery_token_epoch),
        d.sender_server_url,
    )
}

/// The contact, reached by the return route that it names, where its prekeys allow a new session
/// there. A one-time prekey of an old code is then given up.
pub open spec fn with_return_route(c: ContactView, d: DecryptedView) -> ContactView {
    match d.return_mailbox_id {
        Some(mailbox) if routes::reusable_prekeys(c) => {
            let moved = at_server(
                with_token(
                    ContactView { recipient_id: mailbox, ..c },
                    d.return_delivery_token,
                    d.return_delivery_token_epoch,
                ),
                contacts::or_known(d.return_server_url, d.sender_server_url),
            );
            ContactView { opk_id: None, opk_public_b64: None, ..moved }
        },
        _ => c,
    }
}

/// The id in a payload, or the known one.
pub open spec fn id_or(newer: Option<u32>, known: u32) -> u32 {
    match newer {
        Some(n) => n,
        None => known,
    }
}

/// The optional id in a payload, or the known one.
pub open spec fn id_or_known(newer: Option<u32>, known: Option<u32>) -> Option<u32> {
    match newer {
        Some(n) => Some(n),
        None => known,
    }
}

/// The text in a payload, or the known one.
pub open spec fn text_or(newer: Option<Seq<char>>, known: Seq<char>) -> Seq<char> {
    match newer {
        Some(n) => n,
        None => known,
    }
}

/// The contact with the prekey bundle that a payload carries.
pub open spec fn with_bundle(c: ContactView, d: DecryptedView) -> ContactView {
    ContactView {
        registration_id: id_or(d.sender_registration_id, c.registration_id),
        signed_prekey_id: id_or(d.sender_signed_prekey_id, c.signed_prekey_id),
        signed_prekey_public_b64: text_or(
            d.sender_signed_prekey_public_b64,
            c.signed_prekey_public_b64,
        ),
        signed_prekey_signature_b64: text_or(
            d.sender_signed_prekey_signature_b64,
            c.signed_prekey_signature_b64,
        ),
        kyber_prekey_id: id_or_known(d.sender_kyber_prekey_id, c.kyber_prekey_id),
        kyber_prekey_public_b64: contacts::or_known(
            d.sender_kyber_prekey_public_b64,
            c.kyber_prekey_public_b64,
        ),
        kyber_prekey_signature_b64: contacts::or_known(
            d.sender_kyber_prekey_signature_b64,
            c.kyber_prekey_signature_b64,
        ),
        ..c
    }
}

/// The contact with the routes, name and device that a payload carries.
pub open spec fn with_routes(c: ContactView, d: DecryptedView, uuid: Seq<char>) -> ContactView {
    let named = ContactView {
        display_name: contacts::or_known(d.sender_display_name, c.display_name),
        peer_sender_mailbox_id: Some(uuid),
        ..c
    };
    let routed = with_return_route(with_sender_route(named, d), d);
    ContactView { device_id: id_or(d.sender_device_id, routed.device_id), ..routed }
}

/// The contact with the identity that a payload names, where none was known.
pub open spec fn with_identity(c: ContactView, identity: Seq<char>, my_public: Seq<u8>)
    -> ContactView {
    ContactView {
        identity_public_b64: identity,
        safety_number: match encoding::b64_bytes(identity, false) {
            Some(raw) => safety::safety_number(my_public, raw),
            None => c.safety_number,
        },
        ..c
    }
}

/// The store and the sender after its payload was read: the profile in it must fit the
/// certificate and the identity of the session; another identity blocks the contact.
pub open spec fn profiled(
    st: StoreView,
    c: ContactView,
    d: DecryptedView,
    uuid: Seq<char>,
    my_public: Seq<u8>,
) -> (StoreView, Result<ContactView, Seq<char>>) {
    if d.sender_mailbox_id is Some && d.sender_mailbox_id->0 != uuid {
        (st, Err("encrypted sender profile did not match sealed sender certificate"@))
    } else {
        let routed = with_routes(c, d, uuid);
        if d.sender_identity_public_b64 is Some && routed.identity_public_b64.len() > 0
            && d.sender_identity_public_b64->0 != routed.identity_public_b64 {
            (
                recipient_blocked(st, routed.recipient_id),
                Err(
                    "encrypted sender profile identity did not match the Signal session identity"@,
                ),
            )
        } else {
            let known = if d.sender_identity_public_b64 is Some
                && routed.identity_public_b64.len() == 0 {
                with_identity(routed, d.sender_identity_public_b64->0, my_public)
            } else {
                routed
            };
            if known.identity_public_b64.len() == 0 {
                (
                    st,
                    Err("decrypted sender profile did not contain a stable Signal identity"@),
                )
            } else {
                (st, Ok(with_bundle(known, d)))
            }
        }
    }
}

fn take_token(c: &mut StoredContact, token: &Option<String>, epoch: Option<u64>)
    ensures
        final(c)@ == with_token(old(c)@, seqs::opt(*token), epoch),
{
    if let Some(t) = token {
        let e: u64 = match epoch {
            Some(e) => e,
            None => if c.delivery_token_epoch >= 1 {
                c.delivery_token_epoch
            } else {
                1
            },
        };
        if e >= c.delivery_token_epoch || c.delivery_token.as_str().is_empty() {
            c.delivery_token = t.clone();
            c.delivery_token_epoch = if e >= 1 {
                e
            } else {
                1
            };
        }
    }
}

fn take_server(c: &mut StoredContact, url: &Option<String>)
    ensures
        final(c)@ == at_server(old(c)@, seqs::opt(*url)),
{
    if let Some(u) = url {
        let server_url = urls::normalize_url(u.as_str());
        c.server_id = urls::server_id_for_url(server_url.as_str());
        c.server_url = server_url;
    }
}

fn take_return_route(c: &mut StoredContact, d: &DecryptedSignalText)
    ensures
        final(c)@ == with_return_route(old(c)@, d@),
{
    if let Some(mailbox) = &d.return_mailbox_id {
        if routes::contact_has_reusable_prekey_material(c) {
            c.recipient_id = mailbox.clone();
            take_token(c, &d.return_delivery_token, d.return_delivery_token_epoch);
            let url = contacts::or_else_text(
                d.return_server_url.clone(),
                d.sender_server_url.clone(),
            );
            take_server(c, &url);
            c.opk_id = None;
            c.opk_public_b64 = None;
        }
    }
}

fn take_bundle(c: &mut StoredContact, d: &DecryptedSignalText)
    ensures
        final(c)@ == with_bundle(old(c)@, d@),
{
    if let Some(id) = d.sender_registration_id {
        c.registration_id = id;
    }
    if let Some(id) = d.sender_signed_prekey_id {
        c.signed_prekey_id = id;
    }
    if let Some(v) = &d.sender_signed_prekey_public_b64 {
        c.signed_prekey_public_b64 = v.clone();
    }
    if let Some(v) = &d.sender_signed_prekey_signature_b64 {
        c.signed_prekey_signature_b64 = v.clone();
    }
    if let Some(id) = d.sender_kyber_prekey_id {
        c.kyber_prekey_id = Some(id);
    }
    if let Some(v) = &d.sender_kyber_prekey_public_b64 {
        c.kyber_prekey_public_b64 = Some(v.clone());
    }
    if let Some(v) = &d.sender_kyber_prekey_signature_b64 {
        c.kyber_prekey_signature_b64 = Some(v.clone());
    }
}

fn take_routes(c: &mut StoredContact, d: &DecryptedSignalText, uuid: &str)
    ensures
        final(c)@ == with_routes(old(c)@, d@, uuid@),
{
    if let Some(name) = &d.sender_display_name {
        c.display_name = Some(name.clone());
    }
    c.peer_sender_mailbox_id = Some(uuid.to_string());
    take_token(c, &d.sender_delivery_token, d.sender_delivery_token_epoch);
    take_server(c, &d.sender_server_url);
    take_return_route(c, d);
    if let Some(dev) = d.sender_device_id {
        c.device_id = dev;
    }
}

fn take_identity(c: &mut StoredContact, identity: &str, my_public: &[u8])
    ensures
        final(c)@ == with_identity(old(c)@, identity@, my_public@),
{
    c.identity_public_b64 = identity.to_string();
    if let Some(raw) = encoding::from_b64(identity) {
        c.safety_number = safety::pairwise_safety_number(my_public, raw.as_slice());
    }
}

/// Reads the profile in a payload.
pub fn read_profile(
    store: &mut MessagingStore,
    contact: StoredContact,
    decoded: &DecryptedSignalText,
    uuid: &str,
    my_public: &[u8],
) -> (r: Result<StoredContact, String>)
    ensures
        (final(store)@, seqs::outcome(r)) == profiled(
            old(store)@,
            contact@,
            decoded@,
            uuid@,
            my_public@,
        ),
{
    let mut c = contact;
    if let Some(mailbox) = &decoded.sender_mailbox_id {
        if !text::same_text(mailbox.as_str(), uuid) {
            return Err(
                "encrypted sender profile did not match sealed sender certificate".to_string(),
            );
        }
    }
    take_routes(&mut c, decoded, uuid);
    if let Some(identity) = &decoded.sender_identity_public_b64 {
        if c.identity_public_b64.as_str().is_empty() {
            take_identity(&mut c, identity.as_str(), my_public);
        } else if !text::same_text(identity.as_str(), c.identity_public_b64.as_str()) {
            block_recipient(store, c.recipient_id.as_str());
            return Err(
                "encrypted sender profile identity did not match the Signal session identity".to_string(),
            );
        }
    }
    if c.identity_public_b64.as_str().is_empty() {
        return Err(
            "decrypted sender profile did not contain a stable Signal identity".to_string(),
        );
    }
    take_bundle(&mut c, decoded);
    Ok(c)
}

// ---------------------------------------------------------------------------------------------
// Keeping what was learned.
// ---------------------------------------------------------------------------------------------

/// The contact has the identity, which is known.
pub open spec fn identity_is(identity: Seq<char>) -> spec_fn(ContactView) -> bool {
    |c: ContactView| c.identity_public_b64.len() > 0 && c.identity_public_b64 == identity
}

/// Where a sender is kept: under its mailbox, or else under its identity.
pub open spec fn known_at(contacts: Seq<ContactView>, c: ContactView) -> Option<int> {
    match seqs::find(contacts, contacts::recipient_is(c.recipient_id)) {
        Some(i) => Some(i),
        None => if c.identity_public_b64.len() == 0 {
            None
        } else {
            seqs::find(contacts, identity_is(c.identity_public_b64))
        },
    }
}

/// The newer text, where it is not empty.
pub open spec fn filled_or(newer: Seq<char>, known: Seq<char>) -> Seq<char> {
    if newer.len() > 0 {
        newer
    } else {
        known
    }
}

/// The newer text, where there is one that is not empty.
pub open spec fn given_or(newer: Option<Seq<char>>, known: Option<Seq<char>>) -> Option<
    Seq<char>,
> {
    match newer {
        Some(n) if n.len() > 0 => Some(n),
        _ => known,
    }
}

/// The newer id, where it is not zero.
pub open spec fn id_filled_or(newer: u32, known: u32) -> u32 {
    if newer > 0 {
        newer
    } else {
        known
    }
}

/// The route on which a message came in becomes that of the contact, unless it is only held for
/// sending or being retired.
pub open spec fn adopted_route(route: RouteView, contact_id: Seq<char>, known: Option<Seq<char>>)
    -> Option<Seq<char>> {
    if routes::retiring_invite(route) || routes::sender_hold(route, contact_id) {
        known
    } else {
        Some(route.id)
    }
}

/// A contact that is known, with what was learned of it.
pub open spec fn merged(e: ContactView, c: ContactView, route: RouteView) -> ContactView {
    ContactView {
        display_name: contacts::or_known(c.display_name, e.display_name),
        recipient_id: c.recipient_id,
        server_url: filled_or(c.server_url, e.server_url),
        server_id: filled_or(c.server_id, e.server_id),
        identity_public_b64: c.identity_public_b64,
        device_id: c.device_id,
        registration_id: id_filled_or(c.registration_id, e.registration_id),
        signed_prekey_id: id_filled_or(c.signed_prekey_id, e.signed_prekey_id),
        signed_prekey_public_b64: filled_or(
            c.signed_prekey_public_b64,
            e.signed_prekey_public_b64,
        ),
        signed_prekey_signature_b64: filled_or(
            c.signed_prekey_signature_b64,
            e.signed_prekey_signature_b64,
        ),
        kyber_prekey_id: id_or_known(c.kyber_prekey_id, e.kyber_prekey_id),
        kyber_prekey_public_b64: given_or(c.kyber_prekey_public_b64, e.kyber_prekey_public_b64),
        kyber_prekey_signature_b64: given_or(
            c.kyber_prekey_signature_b64,
            e.kyber_prekey_signature_b64,
        ),
        delivery_token: filled_or(c.delivery_token, e.delivery_token),
        delivery_token_epoch: contacts::larger(e.delivery_token_epoch, c.delivery_token_epoch),
        peer_sender_mailbox_id: contacts::or_known(
            c.peer_sender_mailbox_id,
            e.peer_sender_mailbox_id,
        ),
        safety_number: filled_or(e.safety_number, c.safety_number),
        local_route_id: adopted_route(route, e.id, e.local_route_id),
        opk_id: if c.opk_id is None {
            None
        } else {
            e.opk_id
        },
        opk_public_b64: if c.opk_id is None {
            None
        } else {
            e.opk_public_b64
        },
        ..e
    }
}

/// The store after a sender was kept, and the contact as it is kept.
pub open spec fn kept_sender(st: StoreView, c: ContactView, route: RouteView) -> (
    StoreView,
    ContactView,
) {
    match known_at(st.contacts, c) {
        Some(i) => {
            let after = merged(st.contacts[i], c, route);
            (StoreView { contacts: st.contacts.update(i, after), ..st }, after)
        },
        None => {
            let after = ContactView {
                local_route_id: adopted_route(route, c.id, c.local_route_id),
                ..c
            };
            (StoreView { contacts: st.contacts.push(after), ..st }, after)
        },
    }
}

fn find_identity(contacts: &Vec<StoredContact>, identity: &str) -> (r: Option<usize>)
    ensures
        match r {
            Some(i) => i < contacts@.len() && seqs::find(
                seqs::views(contacts@),
                identity_is(identity@),
            ) == Some(i as int),
            None => seqs::find(seqs::views(contacts@), identity_is(identity@)) == None::<int>,
        },
{
    let ghost all = seqs::views(contacts@);
    let mut i: usize = 0;
    while i < contacts.len()
        invariant
            i <= contacts@.len(),
            all == seqs::views(contacts@),
            forall|j: int| 0 <= j < i ==> !identity_is(identity@)(#[trigger] all[j]),
        decreases contacts@.len() - i,
    {
        if !contacts[i].identity_public_b64.as_str().is_empty() && text::same_text(
            contacts[i].identity_public_b64.as_str(),
            identity,
        ) {
            proof {
                seqs::find_is(all, identity_is(identity@), i as int);
            }
            return Some(i);
        }
        i = i + 1;
    }
    proof {
        seqs::find_none(all, identity_is(identity@));
    }
    None
}

fn known_index(store: &MessagingStore, c: &StoredContact) -> (r: Option<usize>)
    ensures
        match r {
            Some(i) => i < store.contacts@.len() && known_at(store@.contacts, c@) == Some(i as int),
            None => known_at(store@.contacts, c@) == None::<int>,
        },
{
    match contacts::find_recipient(&store.contacts, c.recipient_id.as_str()) {
        Some(i) => Some(i),
        None => if c.identity_public_b64.as_str().is_empty() {
            None
        } else {
            find_identity(&store.contacts, c.identity_public_b64.as_str())
        },
    }
}

fn text_filled_or(newer: String, known: String) -> (r: String)
    ensures
        r@ == filled_or(newer@, known@),
{
    if newer.as_str().is_empty() {
        known
    } else {
        newer
    }
}

fn text_given_or(newer: Option<String>, known: Option<String>) -> (r: Option<String>)
    ensures
        seqs::opt(r) == given_or(seqs::opt(newer), seqs::opt(known)),
{
    if let Some(n) = newer {
        if !n.as_str().is_empty() {
            return Some(n);
        }
    }
    known
}

fn adopt_route(route: &LocalRoute, contact_id: &str, known: Option<String>) -> (r: Option<String>)
    ensures
        seqs::opt(r) == adopted_route(route@, contact_id@, seqs::opt(known)),
{
    if routes::route_is_retiring_invite(route) || routes::route_is_sender_hold(route, contact_id) {
        known
    } else {
        Some(route.id.clone())
    }
}

fn merge(e: StoredContact, c: StoredContact, route: &LocalRoute) -> (r: StoredContact)
    ensures
        r@ == merged(e@, c@, route@),
{
    let epoch: u64 = if e.delivery_token_epoch >= c.delivery_token_epoch {
        e.delivery_token_epoch
    } else {
        c.delivery_token_epoch
    };
    let local_route_id = adopt_route(route, e.id.as_str(), e.local_route_id);
    let (opk_id, opk_public_b64) = match c.opk_id {
        None => (None, None),
        Some(_) => (e.opk_id, e.opk_public_b64),
    };
    let r = StoredContact {
        display_name: contacts::or_else_text(c.display_name, e.display_name),
        recipient_id: c.recipient_id,
        server_url: text_filled_or(c.server_url, e.server_url),
        server_id: text_filled_or(c.server_id, e.server_id),
        identity_public_b64: c.identity_public_b64,
        device_id: c.device_id,
        registration_id: if c.registration_id > 0 {
            c.registration_id
        } else {
            e.registration_id
        },
        signed_prekey_id: if c.signed_prekey_id > 0 {
            c.signed_prekey_id
        } else {
            e.signed_prekey_id
        },
        signed_prekey_public_b64: text_filled_or(
            c.signed_prekey_public_b64,
            e.signed_prekey_public_b64,
        ),
        signed_prekey_signature_b64: text_filled_or(
            c.signed_prekey_signature_b64,
            e.signed_prekey_signature_b64,
        ),
        kyber_prekey_id: match c.kyber_prekey_id {
            Some(id) => Some(id),
            None => e.kyber_prekey_id,
        },
        kyber_prekey_public_b64: text_given_or(
            c.kyber_prekey_public_b64,
            e.kyber_prekey_public_b64,
        ),
        kyber_prekey_signature_b64: text_given_or(
            c.kyber_prekey_signature_b64,
            e.kyber_prekey_signature_b64,
        ),
        delivery_token: text_filled_or(c.delivery_token, e.delivery_token),
        delivery_token_epoch: epoch,
        peer_sender_mailbox_id: contacts::or_else_text(
            c.peer_sender_mailbox_id,
            e.peer_sender_mailbox_id,
        ),
        safety_number: text_filled_or(e.safety_number, c.safety_number),
        local_route_id,
        opk_id,
        opk_public_b64,
        id: e.id,
        trust_state: e.trust_state,
        verified_at_ms: e.verified_at_ms,
        created_at_ms: e.created_at_ms,
        last_read_at: e.last_read_at,
    };
    proof {
        assert(r@ =~= merged(e@, c@, route@));
    }
    r
}

/// Keeps what was learned of a sender.
pub fn keep_sender(store: &mut MessagingStore, contact: StoredContact, local_route: &LocalRoute)
    -> (r: StoredContact)
    ensures
        (final(store)@, r@) == kept_sender(old(store)@, contact@, local_route@),
{
    match known_index(store, &contact) {
        Some(i) => {
            let e = store.contacts[i].duplicate();
            let after = merge(e, contact, local_route);
            let copy = after.duplicate();
            proof {
                seqs::views_update(store.contacts@, i as int, copy);
            }
            store.contacts.set(i, copy);
            after
        },
        None => {
            let mut after = contact;
            let known = after.local_route_id.clone();
            after.local_route_id = adopt_route(local_route, after.id.as_str(), known);
            let copy = after.duplicate();
            proof {
                seqs::views_push(store.contacts@, copy);
            }
            store.contacts.push(copy);
            after
        },
    }
}

/// The store after a message was read and its sender kept; the session is saved under the mailbox
/// and device of the certificate.
pub open spec fn taken_in(
    st: StoreView,
    c: ContactView,
    d: DecryptedView,
    uuid: Seq<char>,
    device_id: u32,
    route: RouteView,
    my_public: Seq<u8>,
    session: Option<Seq<u8>>,
    now_ms: u64,
) -> (StoreView, Result<ContactView, Seq<char>>) {
    match profiled(st, c, d, uuid, my_public) {
        (s1, Err(e)) => (s1, Err(e)),
        (s1, Ok(c1)) => {
            let (s2, c2) = kept_sender(s1, c1, route);
            (
                match session {
                    None => s2,
                    Some(raw) => StoreView {
                        signal_sessions: keys::with_session(
                            s2.signal_sessions,
                            uuid,
                            device_id,
                            c2.identity_public_b64,
                            raw,
                            now_ms,
                        ),
                        ..s2
                    },
                },
                Ok(c2),
            )
        },
    }
}

/// Takes in what a decrypted message says of its sender, and saves the session.
pub fn take_in(
    store: &mut MessagingStore,
    contact: StoredContact,
    decoded: &DecryptedSignalText,
    uuid: &str,
    device_id: u32,
    local_route: &LocalRoute,
    my_public: &[u8],
    session: Option<Vec<u8>>,
    now_ms: u64,
) -> (r: Result<StoredContact, String>)
    ensures
        (final(store)@, seqs::outcome(r)) == taken_in(
            old(store)@,
            contact@,
            decoded@,
            uuid@,
            device_id,
            local_route@,
            my_public@,
            seqs::opt(session),
            now_ms,
        ),
{
    let c1 = match read_profile(store, contact, decoded, uuid, my_public) {
        Ok(c) => c,
        Err(e) => {
            return Err(e);
        },
    };
    let c2 = keep_sender(store, c1, local_route);
    if let Some(raw) = session {
        keys::persist_session(
            store,
            uuid,
            device_id,
            c2.identity_public_b64.as_str(),
            raw.as_slice(),
            now_ms,
        );
    }
    Ok(c2)
}

} // verus!
