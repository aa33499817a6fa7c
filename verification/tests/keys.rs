use axeno::keys;
use axeno::keys::LocalBundle;
use axeno::keys::OpkPublic;
use axeno::keys::OpkSecret;
use axeno::keys::SignedPreKeyPublic;
use axeno::keys::SignedPreKeySecret;
use axeno::keys::VaultSecrets;
use axeno::plaintext;
use axeno::routes;
use axeno::routes::FreshRoute;
use axeno::routes::RouteKeys;
use axeno::seqs::Duplicate;
use axeno::store::KyberPreKeyBlob;
use axeno::store::LocalRoute;
use axeno::store::MessagingStore;

const NOW: u64 = 1_740_000_000_000;
const DAY: u64 = 86_400_000;

fn bundle() -> LocalBundle {
    LocalBundle {
        public_key: vec![1, 2, 3],
        registration_id: 77,
        signed_prekey_id: 3,
        signed_prekey_public: vec![4],
        signed_prekey_signature: vec![5],
        previous_signed_prekeys: vec![
            SignedPreKeyPublic { id: 1, public_key: vec![6], signature: vec![7], created_at_ms: 11 },
            SignedPreKeyPublic { id: 2, public_key: vec![8], signature: vec![9], created_at_ms: 12 },
        ],
        opks_public: vec![
            OpkPublic { id: 10, public_key: vec![1] },
            OpkPublic { id: 11, public_key: vec![2] },
        ],
    }
}

fn secrets() -> VaultSecrets {
    VaultSecrets {
        identity_priv: vec![1],
        spk_priv: vec![2],
        previous_spks_secret: vec![SignedPreKeySecret { id: 2, private_key: vec![3] }],
        opks_secret: vec![OpkSecret { id: 11, private_key: vec![4] }],
        display_name: " Me ".to_string(),
    }
}

fn route(n: u32) -> LocalRoute {
    routes::make_route(
        FreshRoute {
            id: format!("rt_{n}"),
            mailbox_id: format!("mbx_{n}"),
            receive_auth_token: format!("rx_{n}"),
            delivery_token: format!("dt_{n}"),
            keys: RouteKeys::from_raw(&[1, 2, 3], &[4, 5]),
        },
        "ws://abc.onion/ws",
        "contact:a".to_string(),
        None,
        NOW,
    )
}

fn kyber(id: u32, at: u64) -> KyberPreKeyBlob {
    KyberPreKeyBlob {
        id,
        public_b64: "Cg".to_string(),
        signature_b64: "Cw".to_string(),
        record_b64: "DA".to_string(),
        created_at_ms: at,
    }
}

#[test]
fn one_time_prekeys_are_offered_once() {
    let mut store = MessagingStore::empty();
    let me = bundle();
    assert_eq!(keys::take_opk(&mut store, &me.opks_public).unwrap().id, 10);
    assert_eq!(keys::take_opk(&mut store, &me.opks_public).unwrap().id, 11);
    assert_eq!(
        keys::take_opk(&mut store, &me.opks_public).err().unwrap(),
        "no fresh one-time prekeys are available; restart Axeno or unlock again to replenish the pool"
    );
    assert_eq!(store.used_opk_ids, vec![10, 11]);
    keys::note_used_opks(&mut store, &vec![11, 12, 12]);
    assert_eq!(store.used_opk_ids, vec![10, 11, 12]);
    assert!(keys::opk_pool_is_low(19, 100));
    assert!(keys::opk_pool_is_low(100, 19));
    assert!(!keys::opk_pool_is_low(20, 20));
}

#[test]
fn kyber_prekeys_rotate() {
    let mut store = MessagingStore::empty();
    assert!(keys::review_kyber_prekey(&mut store, NOW).is_none());
    assert_eq!(keys::next_kyber_prekey_id(&store), 1);
    let k = keys::install_kyber_prekey(&mut store, 1, &[10], &[11], &[12], NOW);
    assert_eq!((k.id, k.public_b64.as_str(), k.signature_b64.as_str(), k.record_b64.as_str()), (1, "Cg", "Cw", "DA"));
    assert_eq!(keys::review_kyber_prekey(&mut store, NOW + 30 * DAY - 1).unwrap().id, 1);
    assert!(keys::review_kyber_prekey(&mut store, NOW + 30 * DAY).is_none());
    assert_eq!(store.previous_kyber_prekeys.len(), 1);
    assert_eq!(keys::next_kyber_prekey_id(&store), 2);
    keys::install_kyber_prekey(&mut store, 2, &[1], &[2], &[3], NOW + 30 * DAY);
    let records = keys::kyber_prekey_records(&store).unwrap();
    assert_eq!(records.iter().map(|r| r.id).collect::<Vec<_>>(), vec![1, 2]);
    assert_eq!(records[0].record, vec![12]);
    assert!(keys::review_kyber_prekey(&mut store, NOW + 61 * DAY).is_none());
    assert_eq!(store.previous_kyber_prekeys.iter().map(|k| k.id).collect::<Vec<_>>(), vec![2]);
    store.previous_kyber_prekeys.push(kyber(9, NOW));
    assert_eq!(keys::next_kyber_prekey_id(&store), 10);
    store.previous_kyber_prekeys[0].record_b64 = "?".to_string();
    assert_eq!(
        keys::kyber_prekey_records(&store).err().unwrap(),
        "bad base64 for local Kyber prekey record"
    );
}

#[test]
fn halves_of_keys_are_paired() {
    let me = bundle();
    let s = secrets();
    let signed = keys::signed_prekey_records(&me, &s, NOW);
    assert_eq!(signed.len(), 2);
    assert_eq!((signed[0].id, signed[0].created_at_ms), (3, NOW));
    assert_eq!(signed[0].private_key, vec![2]);
    assert_eq!((signed[1].id, signed[1].created_at_ms), (2, 12));
    assert_eq!(signed[1].public_key, vec![8]);
    assert_eq!(signed[1].private_key, vec![3]);
    assert_eq!(signed[1].signature, vec![9]);
    let one_time = keys::one_time_prekey_records(&me, &s);
    assert_eq!(one_time.len(), 1);
    assert_eq!(one_time[0].id, 11);
    assert_eq!(one_time[0].public_key, vec![2]);
    assert_eq!(one_time[0].private_key, vec![4]);
}

#[test]
fn secrets_are_wiped() {
    let mut s = secrets();
    s.wipe();
    assert!(s.identity_priv.is_empty());
    assert!(s.spk_priv.is_empty());
    assert!(s.previous_spks_secret[0].private_key.is_empty());
    assert_eq!(s.previous_spks_secret[0].id, 2);
    assert!(s.opks_secret[0].private_key.is_empty());
    assert_eq!(s.display_name, " Me ");
}

#[test]
fn sessions_are_saved_and_restored() {
    let mut store = MessagingStore::empty();
    keys::persist_session(&mut store, "mbx_a", 1, "AQID", &[9, 8], NOW);
    keys::persist_session(&mut store, "mbx_a", 1, "AQID", &[7], NOW + 5);
    assert_eq!(store.signal_sessions.count(), 1);
    let blob = store.signal_sessions.get("mbx_a:1").unwrap();
    assert_eq!((blob.created_at_ms, blob.updated_at_ms), (NOW, NOW + 5));
    assert_eq!(blob.remote_identity_b64, "AQID");
    let records = keys::session_records(&store).unwrap();
    assert_eq!(records.len(), 1);
    assert_eq!(records[0].address_name, "mbx_a");
    assert_eq!(records[0].device_id, 1);
    assert_eq!(records[0].record, vec![7]);
    let mut bad = store.signal_sessions.get("mbx_a:1").unwrap().duplicate();
    bad.session_b64 = "?".to_string();
    store.signal_sessions.insert("x".to_string(), bad);
    assert_eq!(
        keys::session_records(&store).err().unwrap(),
        "bad base64 for stored Signal session"
    );
}

#[test]
fn route_keys_are_decoded() {
    let mut r = route(1);
    assert_eq!(
        keys::route_sealed_sender_identity(&r).unwrap(),
        (vec![1, 2, 3], vec![4, 5])
    );
    r.sealed_sender_cert_private_b64 = "?".to_string();
    assert_eq!(
        keys::route_sealed_sender_identity(&r).err().unwrap(),
        "bad base64 for route sealed-sender certificate private key"
    );
    r.sealed_sender_cert_public_b64 = "?".to_string();
    assert_eq!(
        keys::route_sealed_sender_identity(&r).err().unwrap(),
        "bad base64 for route sealed-sender certificate public key"
    );
    assert_eq!(keys::decode_b64("AQID", "x").unwrap(), vec![1, 2, 3]);
    assert_eq!(keys::decode_b64("AQI=", "x").err().unwrap(), "bad base64 for x");
    assert_eq!(keys::decode_b64("-_", "x").err().unwrap(), "bad base64 for x");
}

#[test]
fn payloads_carry_the_sender() {
    let p = plaintext::encode_signal_plaintext(
        "text",
        "hello",
        " Me ",
        "id",
        NOW,
        &route(1),
        &route(2),
        &bundle(),
        &kyber(4, 0),
        3,
        Some("mbx_peer".to_string()),
    );
    assert_eq!(p.v, 1);
    assert_eq!(p.sender_display_name, Some("Me".to_string()));
    assert_eq!(p.sender_mailbox_id, Some("mbx_1".to_string()));
    assert_eq!(p.return_mailbox_id, Some("mbx_2".to_string()));
    assert_eq!(p.sender_identity_public_b64, Some("AQID".to_string()));
    assert_eq!(p.sender_registration_id, Some(77));
    assert_eq!(p.sender_device_id, Some(1));
    assert_eq!(p.sender_kyber_prekey_id, Some(4));
    assert_eq!(p.acked_peer_delivery_token_epoch, Some(3));
    let d = plaintext::decode_signal_plaintext(Some(p), vec![], "fallback".to_string(), 0).unwrap();
    assert_eq!(d.kind, "text");
    assert_eq!(d.body, "hello");
    assert_eq!(d.message_id, "id");
    assert_eq!(d.sent_at_ms, NOW);
    assert_eq!(d.sender_mailbox_id, Some("mbx_1".to_string()));
    assert_eq!(d.sender_delivery_token, Some("dt_1".to_string()));
    assert_eq!(d.sender_server_url, Some("ws://abc.onion/ws".to_string()));
    assert_eq!(d.return_mailbox_id, Some("mbx_2".to_string()));
    assert_eq!(d.return_delivery_token, Some("dt_2".to_string()));
    assert_eq!(d.acked_peer_sender_mailbox_id, Some("mbx_peer".to_string()));
    assert_eq!(d.sender_display_name, Some("Me".to_string()));
    assert_eq!(d.sender_delivery_token_epoch, Some(1));
    assert_eq!(d.return_delivery_token_epoch, Some(1));
    assert_eq!(d.acked_peer_delivery_token_epoch, Some(3));
    assert_eq!(d.sender_device_id, Some(1));
    assert_eq!(d.sender_identity_public_b64, Some("AQID".to_string()));
    assert_eq!(d.sender_registration_id, Some(77));
    assert_eq!(d.sender_kyber_prekey_id, Some(4));
}

#[test]
fn payloads_are_tidied_and_checked() {
    let mut p = plaintext::encode_signal_plaintext(
        "route_sync", "", "", "id", NOW, &route(1), &route(2), &bundle(), &kyber(0, 0), 0, None,
    );
    assert_eq!(p.sender_display_name, None);
    p.sender_mailbox_id = Some("  ".to_string());
    p.return_mailbox_id = Some(" m ".to_string());
    p.sender_delivery_token_epoch = Some(0);
    let d = plaintext::decode_signal_plaintext(Some(p.duplicate()), vec![], String::new(), 0).unwrap();
    assert_eq!(d.sender_mailbox_id, None);
    assert_eq!(d.return_mailbox_id, Some("m".to_string()));
    assert_eq!(d.sender_delivery_token_epoch, None);
    assert_eq!(d.sender_kyber_prekey_id, None);
    assert_eq!(d.acked_peer_delivery_token_epoch, None);
    let mut q = p.duplicate();
    q.kind = "other".to_string();
    let refused = "unsupported encrypted Axeno message payload";
    assert_eq!(
        plaintext::decode_signal_plaintext(Some(q), b"x".to_vec(), String::new(), 0).err().unwrap(),
        refused
    );
    p.v = 2;
    assert_eq!(
        plaintext::decode_signal_plaintext(Some(p), vec![], String::new(), 0).err().unwrap(),
        refused
    );
}

#[test]
fn bare_texts_are_messages() {
    let d = plaintext::decode_signal_plaintext(None, "hé".as_bytes().to_vec(), "f".to_string(), 9).unwrap();
    assert_eq!((d.kind.as_str(), d.body.as_str(), d.message_id.as_str(), d.sent_at_ms), ("text", "hé", "f", 9));
    assert_eq!(d.sender_mailbox_id, None);
    assert_eq!(
        plaintext::decode_signal_plaintext(None, vec![0xff], "f".to_string(), 9).err().unwrap(),
        "decrypted Signal plaintext was not valid UTF-8"
    );
}
