use axeno::codes;
use axeno::codes::DecodedInviteCode;
use axeno::padding;
use axeno::payloads::HostedInviteCiphertext;
use axeno::payloads::HostedInviteCode;
use axeno::payloads::InvitePayload;
use axeno::safety;
use sha2::Digest;

fn payload() -> InvitePayload {
    InvitePayload {
        v: 1,
        protocol: "axeno_signal_v1".to_string(),
        display_name: "Ann".to_string(),
        mailbox_id: "mbx_a".to_string(),
        delivery_token: "dt_a".to_string(),
        server_url: "ws://abc.onion/ws".to_string(),
        device_id: 1,
        identity_public_b64: "AQID".to_string(),
        registration_id: 7,
        signed_prekey_id: 2,
        signed_prekey_public_b64: "BAU".to_string(),
        signed_prekey_signature_b64: "Bg".to_string(),
        opk_id: Some(9),
        opk_public_b64: Some("Bw".to_string()),
        kyber_prekey_id: Some(1),
        kyber_prekey_public_b64: Some("CA".to_string()),
        kyber_prekey_signature_b64: Some("CQ".to_string()),
        created_at_ms: 5,
    }
}

fn hosted(kind: &str, v: u16) -> HostedInviteCode {
    HostedInviteCode {
        v,
        kind: kind.to_string(),
        server_url: "ws://abc.onion/ws".to_string(),
        bundle_id: "bun_x".to_string(),
        bundle_key_b64: "AA".to_string(),
    }
}

#[test]
fn codes_read_back() {
    let bytes = vec![0u8, 255, 62, 63, 1];
    let code = codes::invite_code(&bytes);
    assert_eq!(code, "axn1_AP8-PwE");
    assert_eq!(codes::decode_invite_code(&code).unwrap(), bytes);
    assert_eq!(codes::decode_invite_code(&format!("  {code}\n")).unwrap(), bytes);
    let code = codes::verification_code(&bytes);
    assert_eq!(code, "axv1_AP8-PwE");
    assert_eq!(codes::decode_verification_code(&code).unwrap(), bytes);
    assert_eq!(codes::decode_invite_code("axn1_").unwrap(), Vec::<u8>::new());
}

#[test]
fn bad_codes_are_refused() {
    assert_eq!(
        codes::decode_invite_code("axv1_AA").err().unwrap(),
        "connection code must start with axn1_"
    );
    assert_eq!(
        codes::decode_invite_code("axn1_?").err().unwrap(),
        "connection code base64 is invalid"
    );
    assert_eq!(
        codes::decode_invite_code("axn1_AP8+PwE").err().unwrap(),
        "connection code base64 is invalid"
    );
    assert_eq!(
        codes::decode_verification_code("axn1_AA").err().unwrap(),
        "verification code must start with axv1_"
    );
    assert_eq!(
        codes::decode_verification_code("axv1_A").err().unwrap(),
        "verification code base64 is invalid"
    );
}

#[test]
fn hosted_and_whole_invites_are_told_apart() {
    let r = codes::tell_invite_apart(
        Some(hosted("axeno_hosted_invite_v1", 1)),
        Err("no".to_string()),
    );
    assert!(matches!(r, Ok(DecodedInviteCode::Hosted { hosted }) if hosted.bundle_id == "bun_x"));
    let r = codes::tell_invite_apart(Some(hosted("other", 1)), Ok(payload()));
    assert!(matches!(r, Ok(DecodedInviteCode::Direct { payload }) if payload.mailbox_id == "mbx_a"));
    let r = codes::tell_invite_apart(Some(hosted("axeno_hosted_invite_v1", 2)), Err("e".to_string()));
    assert_eq!(r.err().unwrap(), "connection code payload is invalid: e");
    let r = codes::tell_invite_apart(None, Err("e".to_string()));
    assert_eq!(r.err().unwrap(), "connection code payload is invalid: e");
}

#[test]
fn hosted_bundles_open_with_their_code() {
    let plain = b"a bundle".to_vec();
    let sealed = codes::seal_invite(plain.clone(), "abc.onion").unwrap();
    assert_eq!(sealed.hosted.v, 1);
    assert_eq!(sealed.hosted.kind, "axeno_hosted_invite_v1");
    assert_eq!(sealed.hosted.server_url, "ws://abc.onion/ws");
    assert!(axeno::ids::valid_bundle_id(&sealed.hosted.bundle_id));
    assert!(sealed.hosted.bundle_id.starts_with("bun_"));
    let key = codes::hosted_invite_key(&sealed.hosted).unwrap();
    assert_eq!(key.len(), 32);
    assert_eq!(codes::open_invite(&key, &sealed.bundle).unwrap(), plain);
    let other = codes::seal_invite(plain.clone(), "abc.onion").unwrap();
    assert_ne!(other.hosted.bundle_key_b64, sealed.hosted.bundle_key_b64);
    let wrong = codes::hosted_invite_key(&other.hosted).unwrap();
    assert_eq!(
        codes::open_invite(&wrong, &sealed.bundle).err().unwrap(),
        "hosted invite bundle could not be decrypted"
    );
}

#[test]
fn sealing_is_chacha20poly1305() {
    let key = [1u8; 32];
    let nonce = [2u8; 12];
    let sealed =
        codes::seal_invite_with(b"text", "ws://h/ws", &key, &nonce, "bun_x".to_string()).unwrap();
    assert_eq!(sealed.hosted.bundle_key_b64.len(), 43);
    assert_eq!(sealed.bundle.nonce_b64, "AgICAgICAgICAgIC");
    let cipher = <chacha20poly1305::ChaCha20Poly1305 as chacha20poly1305::KeyInit>::new(
        chacha20poly1305::Key::from_slice(&key),
    );
    let expected = chacha20poly1305::aead::Aead::encrypt(
        &cipher,
        chacha20poly1305::Nonce::from_slice(&nonce),
        b"text".as_ref(),
    )
    .unwrap();
    let got = base64::Engine::decode(
        &base64::engine::general_purpose::URL_SAFE_NO_PAD,
        sealed.bundle.ciphertext_b64.as_bytes(),
    )
    .unwrap();
    assert_eq!(got, expected);
    assert_eq!(got.len(), 4 + 16);
}

#[test]
fn bad_bundles_are_refused() {
    assert_eq!(
        codes::hosted_invite_key(&hosted("other", 1)).err().unwrap(),
        "unsupported hosted connection code"
    );
    let mut h = hosted("axeno_hosted_invite_v1", 1);
    h.bundle_key_b64 = "?".to_string();
    assert_eq!(codes::hosted_invite_key(&h).err().unwrap(), "hosted invite key is invalid");
    h.bundle_key_b64 = "AA".to_string();
    assert_eq!(codes::hosted_invite_key(&h).err().unwrap(), "hosted invite key has wrong length");
    let key = [0u8; 32];
    let bundle = |v: u16, nonce: &str, text: &str| HostedInviteCiphertext {
        v,
        nonce_b64: nonce.to_string(),
        ciphertext_b64: text.to_string(),
    };
    let good = "AAAAAAAAAAAAAAAA";
    for (b, why) in [
        (bundle(2, good, "AA"), "unsupported hosted invite bundle version"),
        (bundle(1, "?", "AA"), "hosted invite nonce is invalid"),
        (bundle(1, "AA", "AA"), "hosted invite nonce has wrong length"),
        (bundle(1, good, "?"), "hosted invite ciphertext is invalid"),
        (bundle(1, good, "AA"), "hosted invite bundle could not be decrypted"),
    ] {
        assert_eq!(codes::open_invite(&key, &b).err().unwrap(), why);
    }
    assert_eq!(codes::accept_bundle(1, payload()).unwrap().registration_id, 7);
    assert_eq!(
        codes::accept_bundle(2, payload()).err().unwrap(),
        "unsupported hosted invite plaintext version"
    );
}

#[test]
fn padding_hides_lengths_and_comes_off() {
    for (n, bucket) in [
        (0, 512),
        (508, 512),
        (509, 1024),
        (1020, 1024),
        (32764, 32768),
        (32765, 65536),
        (40000, 65536),
        (65532, 65536),
        (65533, 131072),
        (131069, 196608),
    ] {
        let raw = vec![7u8; n];
        let padded = padding::pad_ciphertext(&raw).unwrap();
        assert_eq!(padded.len(), bucket);
        assert_eq!(padding::unpad_ciphertext(&padded).unwrap(), raw);
        assert_eq!(&padded[..4], &(n as u32).to_be_bytes());
        let longer: Vec<u8> = padded.iter().copied().chain([1, 2, 3]).collect();
        assert_eq!(padding::unpad_ciphertext(&longer).unwrap(), raw);
    }
    assert_eq!(
        padding::unpad_ciphertext(&[0, 0]).err().unwrap(),
        "padded ciphertext too short"
    );
    assert_eq!(
        padding::unpad_ciphertext(&[0, 0, 0, 1]).err().unwrap(),
        "padded ciphertext length prefix exceeds data"
    );
    assert_eq!(padding::unpad_or_same(vec![1, 2, 3]), vec![1, 2, 3]);
    let padded = padding::pad_with(&[9], &[5u8; 507]);
    assert_eq!(padded.len(), 512);
    assert_eq!(&padded[..6], &[0, 0, 0, 1, 9, 5]);
}

#[test]
fn safety_numbers_are_mutual() {
    let a = [1u8, 2, 3];
    let b = [4u8, 5];
    assert_eq!(safety::pairwise_safety_number(&a, &b), "1124546d44fbaad40d40bc931fc1d21d");
    assert_eq!(
        safety::pairwise_safety_number(&b, &a),
        safety::pairwise_safety_number(&a, &b)
    );
    assert_ne!(safety::pairwise_safety_number(&a, &a), safety::pairwise_safety_number(&a, &b));
    let long = safety::pairwise_safety_number(&[7u8; 33], &[]);
    assert_eq!(long.len(), 32);
    assert!(long.chars().all(|c| c.is_ascii_digit() || ('a'..='f').contains(&c)));
}

#[test]
fn store_keys_are_separated_by_purpose() {
    let root = [3u8; 32];
    let mut h = sha2::Sha256::new();
    h.update(b"axeno-domain-separated-key-v1");
    h.update(b"message-store");
    h.update(root);
    assert_eq!(safety::derive_store_key_from_root(&root).to_vec(), h.finalize().to_vec());
    assert_ne!(safety::derive_domain_key(&root, "other"), safety::derive_domain_key(&root, "message-store"));
}
