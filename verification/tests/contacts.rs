use axeno::contacts;
use axeno::payloads::InvitePayload;
use axeno::routes::FreshRoute;
use axeno::routes::RouteKeys;
use axeno::safety;
use axeno::seqs::Duplicate;
use axeno::store::MessagingStore;
use axeno::store::SignalSessionBlob;
use axeno::store::StoredContact;

const NOW: u64 = 1_740_000_000_000;
const DAY: u64 = 86_400_000;

fn fresh(n: u32) -> FreshRoute {
    FreshRoute {
        id: format!("rt_{n}"),
        mailbox_id: format!("mbx_{n}"),
        receive_auth_token: format!("rx_{n}"),
        delivery_token: format!("dt_{n}"),
        keys: RouteKeys::from_raw(&[1, 2, 3], &[4, 5]),
    }
}

fn payload(identity: &str, mailbox: &str) -> InvitePayload {
    InvitePayload {
        v: 1,
        protocol: "axeno_signal_v1".to_string(),
        display_name: " Ann ".to_string(),
        mailbox_id: mailbox.to_string(),
        delivery_token: "dt_a".to_string(),
        server_url: "abc.onion".to_string(),
        device_id: 1,
        identity_public_b64: identity.to_string(),
        registration_id: 7,
        signed_prekey_id: 2,
        signed_prekey_public_b64: "BAU".to_string(),
        signed_prekey_signature_b64: "Bg".to_string(),
        opk_id: Some(9),
        opk_public_b64: Some("Bw".to_string()),
        kyber_prekey_id: Some(1),
        kyber_prekey_public_b64: Some("CA".to_string()),
        kyber_prekey_signature_b64: Some("CQ".to_string()),
        created_at_ms: NOW,
    }
}

fn contact(identity: &str, mailbox: &str) -> StoredContact {
    contacts::contact_from_payload(payload(identity, mailbox), &[9, 9], NOW).unwrap()
}

#[test]
fn codes_introduce_contacts() {
    let c = contact("AQID", "mbx_a");
    assert_eq!(c.id, "mbx_a");
    assert_eq!(c.recipient_id, "mbx_a");
    assert_eq!(c.display_name, Some(" Ann ".to_string()));
    assert_eq!(c.server_url, "ws://abc.onion/ws");
    assert_eq!(c.server_id, "srv_1334b91d65d85b36");
    assert_eq!(c.identity_public_b64, "AQID");
    assert_eq!(c.delivery_token, "dt_a");
    assert_eq!(c.delivery_token_epoch, 1);
    assert_eq!(c.safety_number, safety::pairwise_safety_number(&[9, 9], &[1, 2, 3]));
    assert_eq!(c.trust_state, "unverified");
    assert_eq!(c.opk_id, Some(9));
    assert_eq!(c.created_at_ms, NOW);
    assert_eq!(c.local_route_id, None);
    let mut p = payload("AQID", "mbx_a");
    p.display_name = "  ".to_string();
    assert_eq!(contacts::contact_from_payload(p, &[9], NOW).unwrap().display_name, None);
}

#[test]
fn stale_and_foreign_codes_are_refused() {
    let read = |p: InvitePayload, now: u64| contacts::contact_from_payload(p, &[9, 9], now).err();
    assert_eq!(read(payload("AQID", "m"), NOW + DAY), None);
    assert_eq!(
        read(payload("AQID", "m"), NOW + DAY + 1).unwrap(),
        "connection code has expired; ask for a fresh code"
    );
    assert_eq!(read(payload("AQID", "m"), NOW - 300_000), None);
    assert_eq!(
        read(payload("AQID", "m"), NOW - 300_001).unwrap(),
        "connection code claims to be from the future; check your clock or request a fresh code"
    );
    let mut p = payload("AQID", "m");
    p.protocol = "other".to_string();
    assert_eq!(read(p, NOW).unwrap(), "unsupported connection code protocol");
    let mut p = payload("AQID", "m");
    p.v = 2;
    assert_eq!(read(p, NOW).unwrap(), "unsupported connection code protocol");
    assert_eq!(read(payload("?", "m"), NOW).unwrap(), "bad identity public key in code");
    assert_eq!(
        contacts::contact_from_payload(payload("AQID", "m"), &[1, 2, 3], NOW).err().unwrap(),
        "this connection code belongs to your own identity"
    );
}

#[test]
fn contacts_are_added_with_a_route_of_their_own() {
    let mut store = MessagingStore::empty();
    let a = contacts::add_contact(&mut store, contact("AQID", "mbx_a"), fresh(1), NOW).unwrap();
    let b = contacts::add_contact(&mut store, contact("BAUG", "mbx_b"), fresh(2), NOW).unwrap();
    assert_eq!(a.local_route_id, Some("rt_1".to_string()));
    assert_eq!(b.local_route_id, Some("rt_2".to_string()));
    assert_eq!(store.contacts.len(), 2);
    assert_eq!(store.local_routes.len(), 2);
    assert_eq!(store.local_routes[0].scope, "contact:mbx_a");
    assert_eq!(store.local_routes[0].mailbox_id, "mbx_1");

    store.contacts[0].delivery_token_epoch = 4;
    let mut again = contact("AQID", "mbx_a");
    again.display_name = None;
    again.delivery_token = "dt_new".to_string();
    let a = contacts::add_contact(&mut store, again, fresh(3), NOW).unwrap();
    assert_eq!(store.contacts.len(), 2);
    assert_eq!(a.display_name, Some(" Ann ".to_string()));
    assert_eq!(a.delivery_token, "dt_new");
    assert_eq!(a.delivery_token_epoch, 4);
    assert_eq!(a.local_route_id, Some("rt_1".to_string()));
}

#[test]
fn a_changed_identity_blocks_the_contact() {
    let mut store = MessagingStore::empty();
    contacts::add_contact(&mut store, contact("AQID", "mbx_a"), fresh(1), NOW).unwrap();
    let e = contacts::add_contact(&mut store, contact("BAUG", "mbx_a"), fresh(2), NOW);
    assert_eq!(
        e.err().unwrap(),
        "contact identity key changed; refusing to replace it automatically. Verify out-of-band before re-adding."
    );
    assert_eq!(store.contacts[0].identity_public_b64, "AQID");
    assert_eq!(store.contacts[0].trust_state, "identity_changed_blocked");
    assert_eq!(
        contacts::mark_contact_verified(&mut store, "mbx_a", true, NOW).err().unwrap(),
        "contact identity changed; re-add using a fresh code before verifying"
    );
    assert_eq!(
        contacts::mark_contact_verified(&mut store, "mbx_a", false, NOW).unwrap().trust_state,
        "unverified"
    );
}

#[test]
fn contacts_move_with_a_fresh_code() {
    let mut store = MessagingStore::empty();
    contacts::add_contact(&mut store, contact("AQID", "mbx_a"), fresh(1), NOW).unwrap();
    contacts::mark_contact_verified(&mut store, "mbx_a", true, NOW).unwrap();
    store.signal_sessions.insert(
        contacts::session_name("mbx_a", 1),
        SignalSessionBlob {
            address_name: "mbx_a".to_string(),
            device_id: 1,
            session_b64: "AA".to_string(),
            remote_identity_b64: "AQID".to_string(),
            created_at_ms: 1,
            updated_at_ms: 2,
        },
    );
    let mut incoming = contact("AQID", "mbx_new");
    incoming.server_url = "ws://other.onion/ws".to_string();
    let (c, route) =
        contacts::migrate_contact(&mut store, "mbx_a", incoming, fresh(2), NOW).unwrap();
    assert_eq!(c.id, "mbx_a");
    assert_eq!(c.recipient_id, "mbx_new");
    assert_eq!(c.server_url, "ws://other.onion/ws");
    assert_eq!(c.trust_state, "verified");
    assert_eq!(c.verified_at_ms, Some(NOW));
    assert_eq!(c.local_route_id, Some("rt_2".to_string()));
    assert_eq!(route.id, "rt_2");
    assert_eq!(route.server_url, "ws://other.onion/ws");
    assert!(!store.signal_sessions.contains(&contacts::session_name("mbx_a", 1)));
    assert_eq!(store.pending_relay_retires.len(), 1);
    assert_eq!(store.pending_relay_retires[0].id, "rt_1");
}

#[test]
fn unsafe_moves_are_refused() {
    let mut store = MessagingStore::empty();
    contacts::add_contact(&mut store, contact("AQID", "mbx_a"), fresh(1), NOW).unwrap();
    assert_eq!(
        contacts::migrate_contact(&mut store, "nobody", contact("AQID", "m"), fresh(2), NOW).err().unwrap(),
        "contact not found"
    );
    let mut other = contact("AQID", "m");
    other.device_id = 2;
    assert_eq!(
        contacts::migrate_contact(&mut store, "mbx_a", other, fresh(2), NOW).err().unwrap(),
        "fresh code uses a different device id; create a new contact or verify out-of-band first"
    );
    assert_eq!(
        contacts::migrate_contact(&mut store, "mbx_a", contact("BAUG", "m"), fresh(2), NOW).err().unwrap(),
        "fresh code has a different identity key; refusing relay migration"
    );
    assert_eq!(store.contacts[0].trust_state, "identity_changed_blocked");
    assert_eq!(store.contacts[0].identity_public_b64, "AQID");
    store.contacts[0].identity_public_b64 = " ".to_string();
    assert_eq!(
        contacts::migrate_contact(&mut store, "mbx_a", contact("BAUG", "m"), fresh(2), NOW).err().unwrap(),
        "cannot migrate a contact without a pinned identity key"
    );
    assert!(!contacts::is_blocking("cannot migrate a contact without a pinned identity key"));
    assert!(contacts::is_blocking(
        "fresh code has a different identity key; refusing relay migration"
    ));
    assert!(contacts::is_blocking(contacts::OTHER_IDENTITY_ADDED));
    assert_eq!(contacts::migration_code("  ").err().unwrap(), "migration code is empty");
    assert_eq!(contacts::migration_code(" axn1_x ").unwrap(), "axn1_x");
    assert_eq!(
        contacts::update_contact_server().err().unwrap(),
        "changing a contact relay without a fresh connection code is unsafe; use relay migration with a fresh code"
    );
}

#[test]
fn reading_and_marking() {
    let mut store = MessagingStore::empty();
    contacts::add_contact(&mut store, contact("AQID", "mbx_a"), fresh(1), NOW).unwrap();
    assert_eq!(
        contacts::mark_contact_read(&mut store, "mbx_a", NOW + 5).unwrap().last_read_at,
        Some(NOW + 5)
    );
    assert_eq!(store.contacts[0].last_read_at, Some(NOW + 5));
    assert_eq!(
        contacts::mark_contact_read(&mut store, "x", NOW).err().unwrap(),
        "contact not found"
    );
    let c = contacts::mark_contact_verified(&mut store, "mbx_a", true, NOW + 7).unwrap();
    assert_eq!(c.trust_state, "verified");
    assert_eq!(c.verified_at_ms, Some(NOW + 7));
    store.contacts[0].safety_number = String::new();
    assert_eq!(
        contacts::mark_contact_verified(&mut store, "mbx_a", true, NOW).err().unwrap(),
        "contact does not have enough identity material to verify yet"
    );
}

#[test]
fn true_identities_verify_each_other() {
    let mine = [1u8, 2, 3];
    let theirs = [4u8, 5, 6];
    let mut my_store = MessagingStore::empty();
    let they = contacts::contact_from_payload(payload("BAUG", "mbx_they"), &mine, NOW).unwrap();
    contacts::add_contact(&mut my_store, they, fresh(1), NOW).unwrap();
    let mut their_store = MessagingStore::empty();
    let me = contacts::contact_from_payload(payload("AQID", "mbx_me"), &theirs, NOW).unwrap();
    contacts::add_contact(&mut their_store, me, fresh(2), NOW).unwrap();

    let p = contacts::verification_payload(&my_store, "mbx_they", &mine, NOW).unwrap();
    assert_eq!(p.v, 1);
    assert_eq!(p.kind, "axeno_verify_v1");
    assert_eq!(p.local_identity_public_b64, "AQID");
    assert_eq!(p.remote_identity_public_b64, "BAUG");
    let signed = contacts::with_signature(p.duplicate(), &[1, 2, 3]);
    assert_eq!(signed.signature_b64, "AQID");
    assert_eq!(signed.payload.created_at_ms, p.created_at_ms);
    assert!(contacts::check_verification(&p, NOW + 600_000).is_ok());
    assert_eq!(
        contacts::check_verification(&p, NOW + 600_001).err().unwrap(),
        "verification code has expired; ask them to generate a fresh one"
    );
    let c = contacts::verify_contact(&mut their_store, "mbx_me", &p, &theirs, NOW + 1).unwrap();
    assert_eq!(c.trust_state, "verified");
    assert_eq!(c.verified_at_ms, Some(NOW + 1));
    assert_eq!(their_store.contacts[0].trust_state, "verified");

    let verify = |store: &MessagingStore, change: fn(&mut axeno::payloads::VerificationPayload)| {
        let mut s = store.duplicate();
        let mut q = p.duplicate();
        change(&mut q);
        contacts::verify_contact(&mut s, "mbx_me", &q, &[4u8, 5, 6], NOW).err()
    };
    assert_eq!(
        verify(&their_store, |q| q.local_identity_public_b64 = "x".to_string()).unwrap(),
        "verification code was not generated by this contact identity"
    );
    assert_eq!(
        verify(&their_store, |q| q.remote_identity_public_b64 = "x".to_string()).unwrap(),
        "verification code was generated for a different recipient identity"
    );
    assert_eq!(
        verify(&their_store, |q| q.safety_number = "x".to_string()).unwrap(),
        "verification code safety number does not match this conversation"
    );
    let mut q = p.duplicate();
    q.kind = "other".to_string();
    assert_eq!(
        contacts::check_verification(&q, NOW).err().unwrap(),
        "unsupported verification code"
    );
    assert!(contacts::check_signature(true).is_ok());
    assert_eq!(
        contacts::check_signature(false).err().unwrap(),
        "verification code signature did not match the claimed identity"
    );
    assert_eq!(
        contacts::verification_code_text(" ").err().unwrap(),
        "verification code is empty"
    );
    assert_eq!(
        contacts::verification_payload(&my_store, "x", &mine, NOW).err().unwrap(),
        "contact not found"
    );
    my_store.contacts[0].identity_public_b64 = String::new();
    assert_eq!(
        contacts::verification_payload(&my_store, "mbx_they", &mine, NOW).err().unwrap(),
        "contact identity is not established yet; exchange at least one valid Signal message first"
    );
}

#[test]
fn a_blocked_contact_is_not_verified_by_a_code() {
    let mut store = MessagingStore::empty();
    contacts::add_contact(&mut store, contact("AQID", "mbx_a"), fresh(1), NOW).unwrap();
    let p = contacts::verification_payload(&store, "mbx_a", &[9, 9], NOW).unwrap();
    store.contacts[0].trust_state = "identity_changed_blocked".to_string();
    assert_eq!(
        contacts::verify_contact(&mut store, "mbx_a", &p, &[9, 9], NOW).err().unwrap(),
        "contact identity changed; re-add using a fresh code before verifying"
    );
    assert_eq!(store.contacts[0].trust_state, "identity_changed_blocked");
}
