use axeno::contacts;
use axeno::inbound;
use axeno::ledger::EnvelopeLedger;
use axeno::ledger::Review;
use axeno::padding;
use axeno::payloads::DecryptedSignalText;
use axeno::payloads::SealedSignalWireMessage;
use axeno::plaintext;
use axeno::routes;
use axeno::routes::FreshRoute;
use axeno::routes::RouteKeys;
use axeno::safety;
use axeno::senders;
use axeno::senders::CiphertextKind;
use axeno::seqs::Duplicate;
use axeno::store::LocalRoute;
use axeno::store::MessagingStore;
use axeno::store::PendingInvite;
use axeno::store::RetiredDeliveryToken;

const NOW: u64 = 1_740_000_000_000;
const ME: [u8; 2] = [9, 9];

fn fresh(n: u32) -> FreshRoute {
    FreshRoute {
        id: format!("rt_{n}"),
        mailbox_id: format!("mbx_{n}"),
        receive_auth_token: format!("rx_{n}"),
        delivery_token: format!("dt_{n}"),
        keys: RouteKeys::from_raw(&[1, 2, 3], &[4, 5]),
    }
}

fn route(n: u32, scope: &str) -> LocalRoute {
    routes::make_route(fresh(n), "ws://abc.onion/ws", scope.to_string(), None, NOW)
}

fn decoded() -> DecryptedSignalText {
    let mut d = plaintext::decode_signal_plaintext(
        None,
        b"hi".to_vec(),
        "msg".to_string(),
        NOW - 5,
    )
    .unwrap();
    d.sender_display_name = Some("Ann".to_string());
    d.sender_mailbox_id = Some("mbx_ann".to_string());
    d.sender_delivery_token = Some("dt_ann".to_string());
    d.sender_delivery_token_epoch = Some(2);
    d.sender_server_url = Some("peer.onion".to_string());
    d.sender_device_id = Some(1);
    d.sender_identity_public_b64 = Some("AQID".to_string());
    d.sender_registration_id = Some(5);
    d.sender_signed_prekey_id = Some(6);
    d.sender_signed_prekey_public_b64 = Some("BA".to_string());
    d.sender_signed_prekey_signature_b64 = Some("BQ".to_string());
    d.sender_kyber_prekey_id = Some(7);
    d.sender_kyber_prekey_public_b64 = Some("Bg".to_string());
    d.sender_kyber_prekey_signature_b64 = Some("Bw".to_string());
    d
}

fn learn(store: &mut MessagingStore, d: &DecryptedSignalText) -> Result<axeno::store::StoredContact, String> {
    let local = route(1, "contact:x");
    let c = senders::certified_sender(store, "mbx_ann", 1, &local, NOW);
    let c = senders::check_prekey_identity(store, c, "mbx_ann", &[1, 2, 3], &ME)?;
    senders::take_in(store, c, d, "mbx_ann", 1, &local, &ME, Some(vec![1]), NOW)
}

#[test]
fn strangers_become_contacts() {
    let mut store = MessagingStore::empty();
    let c = learn(&mut store, &decoded()).unwrap();
    assert_eq!(store.contacts.len(), 1);
    assert_eq!(c.id, "mbx_ann");
    assert_eq!(c.display_name, Some("Ann".to_string()));
    assert_eq!(c.identity_public_b64, "AQID");
    assert_eq!(c.safety_number, safety::pairwise_safety_number(&ME, &[1, 2, 3]));
    assert_eq!(c.delivery_token, "dt_ann");
    assert_eq!(c.delivery_token_epoch, 2);
    assert_eq!(c.server_url, "ws://peer.onion/ws");
    assert_eq!(c.peer_sender_mailbox_id, Some("mbx_ann".to_string()));
    assert_eq!(c.local_route_id, Some("rt_1".to_string()));
    assert_eq!(c.signed_prekey_public_b64, "BA");
    assert_eq!(c.kyber_prekey_id, Some(7));
    let session = store.signal_sessions.get("mbx_ann:1").unwrap();
    assert_eq!(session.session_b64, "AQ");
    assert_eq!(session.remote_identity_b64, "AQID");
}

#[test]
fn known_contacts_learn_their_return_route() {
    let mut store = MessagingStore::empty();
    learn(&mut store, &decoded()).unwrap();
    let mut d = decoded();
    d.return_mailbox_id = Some("mbx_back".to_string());
    d.return_delivery_token = Some("dt_back".to_string());
    d.return_delivery_token_epoch = Some(3);
    d.return_server_url = Some("back.onion".to_string());
    let c = learn(&mut store, &d).unwrap();
    assert_eq!(store.contacts.len(), 1);
    assert_eq!(c.id, "mbx_ann");
    assert_eq!(c.recipient_id, "mbx_back");
    assert_eq!(c.delivery_token, "dt_back");
    assert_eq!(c.delivery_token_epoch, 3);
    assert_eq!(c.server_url, "ws://back.onion/ws");
    assert_eq!(c.opk_id, None);
}

#[test]
fn one_identity_is_one_contact() {
    let mut store = MessagingStore::empty();
    learn(&mut store, &decoded()).unwrap();
    store.contacts[0].recipient_id = "mbx_old".to_string();
    let c = learn(&mut store, &decoded()).unwrap();
    assert_eq!(store.contacts.len(), 1);
    assert_eq!(c.recipient_id, "mbx_ann");
}

#[test]
fn older_tokens_are_not_taken() {
    let mut store = MessagingStore::empty();
    learn(&mut store, &decoded()).unwrap();
    let mut d = decoded();
    d.sender_delivery_token = Some("dt_older".to_string());
    d.sender_delivery_token_epoch = Some(1);
    let c = learn(&mut store, &d).unwrap();
    assert_eq!(c.delivery_token, "dt_ann");
    assert_eq!(c.delivery_token_epoch, 2);
}

#[test]
fn false_senders_are_refused() {
    let mut store = MessagingStore::empty();
    let mut d = decoded();
    d.sender_mailbox_id = Some("mbx_other".to_string());
    assert_eq!(
        learn(&mut store, &d).err().unwrap(),
        "encrypted sender profile did not match sealed sender certificate"
    );
    assert!(store.contacts.is_empty());
    learn(&mut store, &decoded()).unwrap();
    let mut d = decoded();
    d.sender_identity_public_b64 = Some("BAUG".to_string());
    assert_eq!(
        learn(&mut store, &d).err().unwrap(),
        "encrypted sender profile identity did not match the Signal session identity"
    );
    assert_eq!(store.contacts[0].trust_state, "identity_changed_blocked");
    assert_eq!(store.contacts[0].identity_public_b64, "AQID");
}

#[test]
fn changed_prekey_identities_block() {
    let mut store = MessagingStore::empty();
    learn(&mut store, &decoded()).unwrap();
    let local = route(1, "contact:x");
    let c = senders::certified_sender(&store, "mbx_ann", 4, &local, NOW);
    assert_eq!(c.device_id, 4);
    assert_eq!(
        senders::check_prekey_identity(&mut store, c, "mbx_ann", &[7], &ME).err().unwrap(),
        "Signal prekey identity did not match stored contact identity"
    );
    assert_eq!(store.contacts[0].trust_state, "identity_changed_blocked");
}

#[test]
fn identities_must_be_known() {
    let store = MessagingStore::empty();
    let local = route(1, "contact:x");
    let c = senders::certified_sender(&store, "mbx_ann", 1, &local, NOW);
    assert_eq!(
        senders::check_known_identity(&c).err().unwrap(),
        "received a normal Signal message from an unknown sealed-sender route; exchange a prekey message first"
    );
    let mut store = MessagingStore::empty();
    let mut d = decoded();
    d.sender_identity_public_b64 = None;
    let c = senders::certified_sender(&store, "mbx_ann", 1, &local, NOW);
    assert_eq!(
        senders::read_profile(&mut store, c, &d, "mbx_ann", &ME).err().unwrap(),
        "decrypted sender profile did not contain a stable Signal identity"
    );
    assert_eq!(senders::ciphertext_type_name(CiphertextKind::PreKey).unwrap(), "prekey_signal");
    assert_eq!(senders::ciphertext_type_name(CiphertextKind::Whisper).unwrap(), "signal");
    assert_eq!(
        senders::ciphertext_type_name(CiphertextKind::SenderKey).err().unwrap(),
        "group SenderKey messages are not enabled in the text MVP"
    );
    assert_eq!(
        senders::ciphertext_type_name(CiphertextKind::Plaintext).err().unwrap(),
        "plaintext libsignal messages are not allowed"
    );
    assert!(senders::check_certificate(true).is_ok());
    assert_eq!(
        senders::check_certificate(false).err().unwrap(),
        "sender certificate was not trusted by this server root"
    );
}

#[test]
fn texts_are_stored_once() {
    let mut store = MessagingStore::empty();
    let local = route(1, "contact:mbx_ann");
    store.local_routes.push(local.duplicate());
    let out = inbound::absorb(&mut store, &decoded(), "mbx_ann", &local, fresh(2), NOW).unwrap();
    let m = out.message.unwrap();
    assert_eq!((m.id.as_str(), m.text.as_str(), m.mine), ("msg", "hi", false));
    assert_eq!((m.timestamp, m.received_at_ms), (NOW - 5, Some(NOW)));
    assert_eq!(m.status, "received");
    assert!(out.connect.is_none());
    assert!(!out.sync);
    assert!(!out.sync_ack);
    assert_eq!(store.messages.len(), 1);
    assert!(inbound::has_message(&store, "msg"));
    assert!(inbound::absorb(&mut store, &decoded(), "mbx_ann", &local, fresh(3), NOW).is_none());
    assert_eq!(store.messages.len(), 1);
}

#[test]
fn invites_are_replaced_by_a_private_route() {
    let mut store = MessagingStore::empty();
    let local = route(1, "pending_invite");
    store.local_routes.push(local.duplicate());
    let mut ann = senders::certified_sender(&store, "mbx_ann", 1, &local, NOW);
    ann.local_route_id = None;
    store.contacts.push(ann);
    store.pending_invites.push(PendingInvite {
        id: "i".to_string(),
        code: "c".to_string(),
        mailbox_id: "mbx_1".to_string(),
        server_url: "u".to_string(),
        server_name: None,
        route_id: Some("rt_1".to_string()),
        created_at_ms: 0,
        expires_at_ms: NOW + 99,
        reusable: false,
    });
    let out = inbound::absorb(&mut store, &decoded(), "mbx_ann", &local, fresh(2), NOW).unwrap();
    assert_eq!(out.connect.unwrap().id, "rt_2");
    assert!(out.sync);
    assert!(store.pending_invites.is_empty());
    assert_eq!(store.contacts[0].local_route_id, Some("rt_2".to_string()));
    assert_eq!(store.local_routes[0].scope, "retiring_invite:mbx_ann");
    assert_eq!(store.local_routes[0].replacement_route_id, Some("rt_2".to_string()));
    assert_eq!(store.local_routes[1].scope, "contact:mbx_ann");

    let mut d = decoded();
    d.message_id = "two".to_string();
    d.kind = "route_sync".to_string();
    d.acked_peer_sender_mailbox_id = Some("mbx_2".to_string());
    let new_route = store.local_routes[1].duplicate();
    let out = inbound::absorb(&mut store, &d, "mbx_ann", &new_route, fresh(3), NOW).unwrap();
    assert!(out.message.is_none());
    assert!(out.sync_ack);
    assert_eq!(store.local_routes.len(), 1);
    assert_eq!(store.local_routes[0].id, "rt_2");
    assert_eq!(store.pending_relay_retires[0].id, "rt_1");
    assert_eq!(store.messages.len(), 1);
}

#[test]
fn acknowledged_tokens_are_withdrawn() {
    let mut store = MessagingStore::empty();
    let mut local = route(1, "contact:mbx_ann");
    local.delivery_token_epoch = 2;
    local.pending_token_retirements.push(RetiredDeliveryToken {
        token: "old".to_string(),
        epoch: 1,
        retire_after_ms: NOW + 1000,
    });
    store.local_routes.push(local.duplicate());
    let mut d = decoded();
    d.acked_peer_delivery_token_epoch = Some(2);
    let out = inbound::absorb(&mut store, &d, "mbx_ann", &local, fresh(2), NOW).unwrap();
    let update = out.allowlist.unwrap();
    assert_eq!(update.connection_id, routes::route_connection_id(&local));
    assert_eq!(update.tokens, vec!["dt_1"]);
    assert!(store.local_routes[0].pending_token_retirements.is_empty());
}

#[test]
fn envelopes_find_their_route() {
    let mut store = MessagingStore::empty();
    let keys = || RouteKeys::from_raw(&[1], &[2]);
    assert_eq!(
        inbound::route_for_envelope(&store, "mbx_1", "srv", keys()).err().unwrap(),
        "incoming envelope was not addressed to a known local mailbox"
    );
    store.local_routes.push(route(1, "contact:a"));
    assert_eq!(inbound::route_for_envelope(&store, "mbx_1", "srv", keys()).unwrap().id, "rt_1");
    routes::ensure_local_profile(&mut store, NOW).unwrap();
    let r = inbound::route_for_envelope(&store, "mbx_9", "srv", keys()).unwrap();
    assert_eq!(r.id, "legacy_local_profile");
    assert_eq!(r.server_url, "ws://127.0.0.1:8787/ws");
    assert!(inbound::is_signal_envelope("axeno_sealed_signal_v1"));
    assert!(inbound::is_signal_envelope("axeno_signal_v1"));
    assert!(!inbound::is_signal_envelope("other"));
}

#[test]
fn sealed_messages_are_unwrapped() {
    let padded = padding::pad_ciphertext(&[1, 2, 3]).unwrap();
    let wire = inbound::wrap_sealed(&padded);
    assert_eq!(wire.v, 1);
    assert_eq!(inbound::sealed_message(&wire).unwrap(), vec![1, 2, 3]);
    let bare = SealedSignalWireMessage { v: 1, sealed_sender_b64: "/////w".to_string() };
    assert_eq!(inbound::sealed_message(&bare).unwrap(), vec![255; 4]);
    let bad = SealedSignalWireMessage { v: 1, sealed_sender_b64: "?".to_string() };
    assert_eq!(
        inbound::sealed_message(&bad).err().unwrap(),
        "bad sealed sender ciphertext encoding"
    );
    let newer = SealedSignalWireMessage { v: 2, sealed_sender_b64: "AA".to_string() };
    assert_eq!(
        inbound::sealed_message(&newer).err().unwrap(),
        "unsupported sealed Signal envelope version"
    );
}

#[test]
fn handled_envelopes_are_recognised() {
    let mut l = EnvelopeLedger::new();
    assert!(matches!(l.review(7, NOW), Review::Fresh));
    l.note_seen(7, NOW);
    assert!(matches!(l.review(7, NOW + 86_400_000), Review::AlreadySeen));
    assert!(matches!(l.review(8, NOW), Review::Fresh));
    assert!(matches!(l.review(7, NOW + 86_400_001), Review::Fresh));
}

#[test]
fn failing_envelopes_are_dropped() {
    let mut l = EnvelopeLedger::new();
    for _ in 0..4 {
        assert!(!l.note_failure(7, NOW));
        assert!(matches!(l.review(7, NOW), Review::Fresh));
    }
    assert!(l.note_failure(7, NOW));
    assert!(matches!(l.review(7, NOW), Review::Poisoned));
    l.forgive(7);
    assert!(matches!(l.review(7, NOW), Review::Fresh));
    assert!(!l.note_failure(7, NOW));
    assert!(!l.note_failure(7, NOW + 3_600_001));
    assert_eq!(l.failed[0].count, 1);
}

#[test]
fn handled_envelopes_are_acknowledged_after_many_others() {
    let mut l = EnvelopeLedger::new();
    assert_eq!(l.arrive(7, NOW), None);
    l.note_seen(7, NOW);
    for i in 0..4095u64 {
        let other = 1000 + i as u128;
        if i % 500 == 0 {
            assert_eq!(l.arrive(other, NOW + i), None);
        }
        l.note_seen(other, NOW + i);
        l.forgive(other);
    }
    assert_eq!(l.arrive(7, NOW + 86_400_000), Some(vec![7]));
    l.note_seen(9000, NOW + 4095);
    assert_eq!(l.arrive(7, NOW + 86_400_000), None);
}

#[test]
fn the_fifth_failure_in_a_row_is_acknowledged() {
    let mut l = EnvelopeLedger::new();
    for n in 0..4u64 {
        let at = NOW + n * 3_600_000;
        assert_eq!(l.arrive(7, at), None);
        assert_eq!(l.fail(7, "unreadable".to_string(), at), Err("unreadable".to_string()));
        assert!(l.fail(8, "other".to_string(), at).is_err());
        l.note_seen(9, at);
    }
    let at = NOW + 4 * 3_600_000;
    assert_eq!(l.arrive(7, at), None);
    assert_eq!(l.fail(7, "unreadable".to_string(), at), Ok(vec![7]));
    assert_eq!(l.arrive(7, at), Some(vec![7]));
    l.forgive(7);
    assert_eq!(l.arrive(7, at), None);
}

#[test]
fn the_ledger_forgets_the_oldest() {
    let mut l = EnvelopeLedger::new();
    for i in 0..4098u64 {
        l.note_seen(i as u128, NOW + i);
    }
    l.review(0, NOW + 5000);
    assert_eq!(l.seen.len(), 4096);
    assert!(matches!(l.review(1, NOW + 5000), Review::Fresh));
    assert!(matches!(l.review(2, NOW + 5000), Review::AlreadySeen));
    assert_eq!(contacts::BLOCKED, "identity_changed_blocked");
}
