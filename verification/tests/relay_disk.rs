use axeno::frames::ClientFrame;
use axeno::frames::StoredEnvelope;
use axeno::ids;
use axeno::relay::disk;
use axeno::relay::disk::DiskCrypto;
use axeno::relay::disk::DiskKeyError;
use axeno::relay::disk::DiskKeys;
use axeno::relay::disk::DiskState;
use axeno::relay::disk::EncryptedCryptoBlob;
use axeno::relay::disk::KeyPlan;
use axeno::relay::mailbox::EnvelopeQueue;
use axeno::relay::mailbox::HostedBundle;
use axeno::relay::mailbox::MailboxAuth;
use axeno::relay::socket::SocketState;
use axeno::relay::socket::Step;
use axeno::relay::state::Relay;
use std::collections::VecDeque;

const NOW: u64 = 1_740_000_000_000;

fn keys() -> DiskCrypto {
    DiskCrypto {
        trust_root_public: vec![1],
        trust_root_private: vec![2],
        server_signing_public: vec![3],
        server_signing_private: vec![4],
    }
}

fn blob() -> EncryptedCryptoBlob {
    EncryptedCryptoBlob {
        salt: "00".repeat(16),
        nonce: "00".repeat(12),
        ciphertext: "00".to_string(),
    }
}

fn state() -> DiskState {
    let rid = format!("mbx_{}", "a".repeat(32));
    DiskState {
        crypto: Some(keys()),
        encrypted_crypto: None,
        mailbox_auth: vec![(
            rid.clone(),
            MailboxAuth::new(ids::token_hash("rx_0123456789abcdef"), ids::token_hash("dt_0123456789abcdef")),
        )],
        queues: vec![(
            rid.clone(),
            EnvelopeQueue {
                items: VecDeque::from(vec![StoredEnvelope {
                    id: 3,
                    to: rid,
                    envelope_type: "t".to_string(),
                    ciphertext: "cipher".to_string(),
                }]),
            },
        )],
        bundles: vec![HostedBundle {
            id: "bun_0123456789abcdef".to_string(),
            ciphertext: "b".to_string(),
            created_at_ms: NOW,
            expires_at_ms: NOW + 10,
        }],
    }
}

#[test]
fn restarts_keep_everything() {
    let relay = Relay::from_disk(&state(), "root".to_string());
    assert_eq!(relay.mailbox_total(), 1);
    assert_eq!(relay.queued_total(), 6);
    assert_eq!(relay.bundle_total(), 1);
    assert_eq!(relay.trust_root(), "root");
    let out = relay.snapshot_disk_state(keys(), b"written", None, NOW).ok().unwrap();
    assert_eq!(out.mailbox_auth.len(), 1);
    assert_eq!(out.queues.len(), 1);
    assert_eq!(out.queues[0].1.items[0].id, 3);
    assert_eq!(out.bundles.len(), 1);
    assert_eq!(out.crypto.unwrap().trust_root_private, vec![2]);
    assert!(out.encrypted_crypto.is_none());

    let rid = format!("mbx_{}", "a".repeat(32));
    let mut again = Relay::from_disk(&state(), "root".to_string());
    let mut s = SocketState::new(1, NOW);
    let step = again.handle_frame(
        &mut s,
        ClientFrame::Hello {
            recipient_id: rid,
            auth_token: "rx_0123456789abcdef".to_string(),
            delivery_token: "dt_0123456789abcdef".to_string(),
            protocol_min: None,
            protocol_max: None,
            protocol_version: None,
            pow: None,
            cert_only: false,
        },
        NOW,
    );
    match step {
        Step::Welcome { backlog, .. } => assert_eq!(backlog[0].ciphertext, "cipher"),
        _ => panic!("expected a welcome"),
    }
}

#[test]
fn protected_keys_stay_off_the_disk() {
    let relay = Relay::from_disk(&state(), "root".to_string());
    let out = relay.snapshot_with(DiskKeys::Protected { blob: blob() }, NOW);
    assert!(out.crypto.is_none());
    assert_eq!(out.encrypted_crypto.unwrap().salt, blob().salt);
    let out = relay
        .snapshot_disk_state(keys(), b"written", Some("passphrase".to_string()), NOW)
        .ok()
        .unwrap();
    assert!(out.crypto.is_none());
    assert_eq!(out.queues.len(), 1);
    assert_eq!(
        disk::decrypt_disk_crypto(&out.encrypted_crypto.unwrap(), "passphrase").ok().unwrap(),
        b"written".to_vec()
    );
    let out = relay.snapshot_disk_state(keys(), b"written", Some(String::new()), NOW).ok().unwrap();
    assert_eq!(out.crypto.unwrap().server_signing_private, vec![4]);
    assert!(out.encrypted_crypto.is_none());
}

#[test]
fn restarts_keep_the_keys() {
    let other = DiskCrypto {
        trust_root_public: vec![9],
        trust_root_private: vec![9],
        server_signing_public: vec![9],
        server_signing_private: vec![9],
    };
    let mut d = state();
    assert_eq!(disk::settle_keys(&mut d, other), "AQ");
    assert_eq!(d.crypto.as_ref().unwrap().trust_root_private, vec![2]);
    assert_eq!(d.queues.len(), 1);
    d.crypto = None;
    assert_eq!(disk::settle_keys(&mut d, keys()), "AQ");
    assert_eq!(d.crypto.as_ref().unwrap().server_signing_private, vec![4]);
    let kept = disk::keys_for_disk(keys(), b"w", Some("p".to_string())).ok().unwrap();
    let placed = disk::place_keys(d, kept);
    assert!(placed.crypto.is_none());
    assert!(placed.encrypted_crypto.is_some());
    let kept = disk::keys_for_disk(keys(), b"w", None).ok().unwrap();
    let placed = disk::place_keys(placed, kept);
    assert!(placed.encrypted_crypto.is_none());
    assert_eq!(placed.crypto.unwrap().trust_root_public, vec![1]);
}

#[test]
fn every_listed_queue_is_counted() {
    let mut d = state();
    let twice = state().queues.remove(0);
    d.queues.push(twice);
    let relay = Relay::from_disk(&d, "root".to_string());
    assert_eq!(relay.queued_total(), 12);
    let out = relay.snapshot_disk_state(keys(), b"", None, NOW).ok().unwrap();
    assert_eq!(out.queues.len(), 1);
    assert_eq!(Relay::from_disk(&out, "root".to_string()).queued_total(), 6);
}

#[test]
fn expired_bundles_are_not_written() {
    let mut d = state();
    d.mailbox_auth[0].1.delivery_token_hashes = vec![];
    disk::prune_disk_state(&mut d, NOW + 10);
    assert!(d.bundles.is_empty());
    let auth = &d.mailbox_auth[0].1;
    assert_eq!(auth.delivery_token_hashes, vec![auth.delivery_token_hash.clone()]);
}

#[test]
fn keys_open_with_their_passphrase_only() {
    let sealed = disk::encrypt_disk_crypto(b"secret keys", "open sesame").ok().unwrap();
    assert_eq!(sealed.salt.len(), 32);
    assert_eq!(sealed.nonce.len(), 24);
    assert!(!sealed.ciphertext.contains("secret"));
    assert_eq!(
        disk::decrypt_disk_crypto(&sealed, "open sesame").ok().unwrap(),
        b"secret keys".to_vec()
    );
    let wrong = disk::decrypt_disk_crypto(&sealed, "close sesame").err().unwrap();
    assert!(matches!(wrong, DiskKeyError::WrongKey));
    assert_eq!(wrong.message(), "failed to decrypt relay keys — is AXENO_KEY correct?");
}

#[test]
fn damaged_keys_are_refused() {
    let mut b = blob();
    b.salt = "zz".to_string();
    let e = disk::decrypt_disk_crypto(&b, "k").err().unwrap();
    assert!(matches!(e, DiskKeyError::Encoding(_)));
    assert_eq!(e.message(), "Invalid character 'z' at position 0");
    let mut b = blob();
    b.nonce = "000".to_string();
    assert_eq!(
        disk::decrypt_disk_crypto(&b, "k").err().unwrap().message(),
        "Odd number of digits"
    );
    let mut b = blob();
    b.nonce = "00".to_string();
    let e = disk::decrypt_disk_crypto(&b, "k").err().unwrap();
    assert!(matches!(e, DiskKeyError::NonceLength));
    assert_eq!(e.message(), "invalid nonce length");
    let mut b = blob();
    b.salt = "00".to_string();
    assert!(matches!(
        disk::decrypt_disk_crypto(&b, "k").err().unwrap(),
        DiskKeyError::Derivation(why) if why == "salt is too short"
    ));
}

#[test]
fn disk_keys_are_those_of_argon2() {
    let salt = [7u8; 16];
    let mut expected = [0u8; 32];
    argon2::Argon2::default()
        .hash_password_into(b"passphrase", &salt, &mut expected)
        .unwrap();
    assert_eq!(disk::derive_key_from_env("passphrase", &salt).unwrap(), expected.to_vec());
}

#[test]
fn keys_are_planned() {
    let key = disk::relay_encryption_key(Some("k".to_string()));
    assert_eq!(key, Some("k".to_string()));
    assert_eq!(disk::relay_encryption_key(Some(String::new())), None);
    assert_eq!(disk::relay_encryption_key(None), None);
    let mut d = state();
    assert!(matches!(disk::plan_keys(&d, &None).ok().unwrap(), KeyPlan::Keep));
    assert!(matches!(disk::plan_keys(&d, &key).ok().unwrap(), KeyPlan::Migrate));
    d.encrypted_crypto = Some(blob());
    assert!(matches!(disk::plan_keys(&d, &key).ok().unwrap(), KeyPlan::Decrypt));
    assert_eq!(
        disk::plan_keys(&d, &None).err().unwrap(),
        "relay-state.json contains encrypted keys but AXENO_KEY is not set. Set AXENO_KEY to the same value used when the keys were encrypted."
    );
}
