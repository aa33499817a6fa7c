use axeno::identity;
use axeno::identity::DerivedKey;
use axeno::identity::EncryptedIdentity;
use axeno::identity::IdentityError;
use axeno::identity::IdentitySeed;
use axeno::identity::UnlockedSession;
use axeno::keys::VaultSecrets;
use axeno::safety;
use axeno::store::MessagingStore;
use axeno::vault;
use axeno::vault::UnifiedAppStateFile;

fn blob() -> EncryptedIdentity {
    EncryptedIdentity {
        kdf_salt: [0; 32],
        nonce: [0; 12],
        ciphertext: vec![1, 2, 3],
        public_key: vec![0x05, 0xab, 0x00],
        registration_id: 9,
    }
}

fn session() -> UnlockedSession {
    UnlockedSession {
        secrets: VaultSecrets {
            identity_priv: vec![1],
            spk_priv: vec![],
            previous_spks_secret: vec![],
            opks_secret: vec![],
            display_name: "Me".to_string(),
        },
        key: DerivedKey::from_bytes([7; 32]),
    }
}

#[test]
fn passphrases_open_their_identity_only() {
    let seed = IdentitySeed::draw();
    let created = identity::create_encrypted_identity(
        "correct horse",
        &seed,
        seed.seed.to_vec(),
        vec![5, 1, 2],
    )
    .ok()
    .unwrap();
    assert_eq!(created.kdf_salt, seed.salt);
    assert_eq!(created.nonce, seed.nonce);
    assert_eq!(created.public_key, vec![5, 1, 2]);
    assert_eq!(created.registration_id, seed.registration_id);
    assert_eq!(created.ciphertext.len(), 48);
    assert_eq!(
        identity::decrypt_identity(&created, "correct horse").ok().unwrap(),
        seed.seed.to_vec()
    );
    let e = identity::decrypt_identity(&created, "wrong horse").err().unwrap();
    assert!(matches!(e, IdentityError::Decrypt));
    assert_eq!(e.message(), "Decryption failed");
}

#[test]
fn keys_are_those_of_argon2() {
    let salt = [3u8; 32];
    let params = argon2::Params::new(65536, 3, 1, Some(32)).unwrap();
    let mut expected = [0u8; 32];
    argon2::Argon2::new(argon2::Algorithm::Argon2id, argon2::Version::V0x13, params)
        .hash_password_into(b"passphrase", &salt, &mut expected)
        .unwrap();
    let key = identity::derive_key("passphrase", &salt).ok().unwrap();
    assert_eq!(key.expose_for_rekey(), expected);
}

#[test]
fn seeds_are_private_keys() {
    let a = IdentitySeed::draw();
    let b = IdentitySeed::draw();
    assert_ne!(a.seed, b.seed);
    assert_ne!(a.salt, b.salt);
    assert_eq!(a.seed[0] & 7, 0);
    assert_eq!(a.seed[31] & 0xc0, 0x40);
    assert!((1..=16380).contains(&a.registration_id));
    assert_eq!(identity::registration_id_from(0), 1);
    assert_eq!(identity::registration_id_from(16379), 16380);
    assert_eq!(identity::registration_id_from(16380), 1);
    let mut s = [0xffu8; 32];
    identity::clamp(&mut s);
    assert_eq!((s[0], s[1], s[31]), (248, 255, 127));
    let mut a = a;
    a.wipe();
    assert_eq!(a.seed, [0; 32]);
    let mut k = DerivedKey::from_bytes([1; 32]);
    k.wipe();
    assert_eq!(k.expose_for_rekey(), [0; 32]);
}

#[test]
fn fingerprints_are_hex() {
    assert_eq!(identity::fingerprint(&blob()), "05ab00");
    assert_eq!(identity::legacy_identity_routing_id(&blob()), "05ab00");
    let p = identity::public_identity(&blob());
    assert_eq!((p.fingerprint.as_str(), p.public_key_hex.as_str(), p.registration_id), ("05ab00", "05ab00", 9));
    let u = identity::unlock_response(&blob(), &session());
    assert_eq!((u.fingerprint.as_str(), u.display_name.as_str()), ("05ab00", "Me"));
}

#[test]
fn errors_have_messages() {
    assert_eq!(IdentityError::Kdf("x".to_string()).message(), "KDF error: x");
    assert_eq!(IdentityError::Encrypt.message(), "Encryption failed");
    assert_eq!(IdentityError::Signal("x".to_string()).message(), "Signal error: x");
    assert!(identity::check_no_identity(false).is_ok());
    assert_eq!(identity::check_no_identity(true).err().unwrap(), "identity already exists");
}

#[test]
fn locked_sessions_have_no_keys() {
    assert_eq!(identity::store_keys(&None).err().unwrap(), "identity is locked");
    let (current, legacy) = identity::store_keys(&Some(session())).unwrap();
    assert_eq!(legacy, [7; 32]);
    assert_eq!(current, safety::derive_store_key_from_root(&[7; 32]));
    let mut s = Some(session());
    identity::rename(&mut s, "You".to_string()).unwrap();
    assert_eq!(s.unwrap().secrets.display_name, "You");
    assert_eq!(
        identity::rename(&mut None, "You".to_string()).err().unwrap(),
        "vault is locked"
    );
}

#[test]
fn stores_open_with_their_key() {
    let key = safety::derive_store_key_from_root(&[1; 32]);
    let file = vault::seal_store(b"{}".to_vec(), &key).unwrap();
    assert_eq!(file.version, 1);
    assert_eq!(vault::open_store(&file, &key).unwrap(), b"{}".to_vec());
    assert_eq!(
        vault::open_store(&file, &[9; 32]).err().unwrap(),
        "message store could not be decrypted with this key"
    );
    let other = vault::seal_store(b"{}".to_vec(), &key).unwrap();
    assert_ne!(file.nonce, other.nonce);
    let mut newer = file;
    newer.version = 2;
    assert_eq!(
        vault::open_store(&newer, &key).err().unwrap(),
        "message store was written by a newer Axeno client"
    );
}

#[test]
fn early_keys_are_tried() {
    let ok = || Ok(MessagingStore::empty());
    let loaded = vault::settle_load(ok(), None).ok().unwrap();
    assert!(!loaded.rewrite);
    let loaded = vault::settle_load(Err("e".to_string()), Some(ok())).ok().unwrap();
    assert!(loaded.rewrite);
    assert_eq!(
        vault::settle_load(Err("e".to_string()), None).err().unwrap(),
        "message store could not be decrypted; identity/password mismatch or corrupted store: e"
    );
    assert_eq!(
        vault::settle_load(Err("e".to_string()), Some(Err("f".to_string()))).err().unwrap(),
        "message store could not be decrypted; identity/password mismatch or corrupted store"
    );
}

#[test]
fn the_state_holds_both_files() {
    let failed = || Err("no".to_string());
    let s = vault::with_messages(failed(), vec![1]);
    assert_eq!(s.version, 1);
    assert!(s.identity.is_none());
    let s = vault::with_identity(Ok(s), blob());
    assert_eq!(s.messages_store_json, Some(vec![1]));
    let s: Result<UnifiedAppStateFile, String> = Ok(s);
    assert_eq!(vault::identity_of_state(&s).unwrap().registration_id, 9);
    assert!(vault::has_identity(false, &s));
    assert!(vault::has_identity(true, &failed()));
    assert!(!vault::has_identity(false, &failed()));
    assert!(!vault::has_identity(false, &Ok(vault::new_state())));
    let mut newer = vault::new_state();
    newer.version = 2;
    assert_eq!(
        vault::accept_state(newer).err().unwrap(),
        "unified state was written by a newer Axeno client"
    );
    assert!(vault::accept_state(vault::new_state()).is_ok());
    let name = vault::temporary_name("messages.store");
    assert!(name.starts_with("messages.store.") && name.ends_with(".tmp"));
    assert_eq!(name.len(), "messages.store".len() + 1 + 36 + 4);
    assert_ne!(name, vault::temporary_name("messages.store"));
    assert_eq!(vault::backup_name("messages.store", 42), "messages.store.corrupted.42.bak");
}
