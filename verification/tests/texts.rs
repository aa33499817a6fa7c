use axeno::ids;
use axeno::pow;
use axeno::text;
use axeno::urls;
use axeno::urls::Dial;

#[test]
fn white_space_is_that_of_the_standard_library() {
    let mut c: u32 = 0;
    while c <= 0x10ffff {
        if let Some(ch) = char::from_u32(c) {
            let s = ch.to_string();
            assert_eq!(text::is_blank(&s), s.trim().is_empty(), "{c:#x}");
        }
        c += 1;
    }
}

#[test]
fn trimming_takes_white_space_off_both_ends() {
    assert_eq!(text::trim(" \t a b \n"), "a b");
    assert_eq!(text::trim("\u{3000}x\u{a0}"), "x");
    assert_eq!(text::trim(""), "");
    assert_eq!(text::trim(&text::trim("  a ")), text::trim("  a "));
}

#[test]
fn decimals_read_back() {
    for n in [0u64, 1, 9, 10, 4096, 600_000, u64::MAX] {
        let s = text::decimal_text(n);
        assert_eq!(s, n.to_string());
        assert_eq!(text::parse_decimal(&s, u64::MAX), Some(n));
    }
    assert_eq!(text::parse_decimal("65536", 65535), None);
    assert_eq!(text::parse_decimal("", 65535), "".parse::<u16>().ok().map(|n| n as u64));
    assert_eq!(text::parse_decimal("+7", 65535), "+7".parse::<u16>().ok().map(|n| n as u64));
    assert_eq!(text::parse_decimal("-7", 65535), "-7".parse::<u16>().ok().map(|n| n as u64));
    assert_eq!(text::parse_decimal("007", 65535), "007".parse::<u16>().ok().map(|n| n as u64));
    assert_eq!(text::parse_decimal("7a", 65535), None);
    assert_eq!(text::parse_decimal("+", 65535), "+".parse::<u16>().ok().map(|n| n as u64));
}

#[test]
fn splitting_and_cutting() {
    assert_eq!(
        text::split_once("a:b:c", ':'),
        Some(("a".to_string(), "b:c".to_string()))
    );
    assert_eq!(
        text::rsplit_once("a:b:c", ':'),
        Some(("a:b".to_string(), "c".to_string()))
    );
    assert_eq!(text::split_once("abc", ':'), None);
    assert_eq!(text::until_char("host/ws", '/'), "host");
    assert_eq!(text::strip_prefix("axn1_x", "axn1_"), Some("x".to_string()));
    assert_eq!(text::strip_prefix("axv1_x", "axn1_"), None);
    assert!(text::ends_with("abc.onion", ".onion"));
    assert!(!text::starts_with("ws:/", "ws://"));
    assert_eq!(text::trim_end_char("ws://h///", '/'), "ws://h");
    assert_eq!(text::take_chars("äöü", 2), "äö");
    assert_eq!(text::lower_text("AbC.ONION"), "abc.onion");
    assert_eq!(text::remove_char("a:b:c", ':'), "abc");
    assert_eq!(text::len_in_bytes("äb"), 3);
    assert_eq!(text::char_len("äb"), 2);
}

#[test]
fn tokens_have_a_shape() {
    assert!(ids::valid_token("0123456789abcdef"));
    assert!(!ids::valid_token("0123456789abcde"));
    assert!(!ids::valid_token("0123456789abcde!"));
    assert!(ids::valid_token(&"a".repeat(128)));
    assert!(!ids::valid_token(&"a".repeat(129)));
    assert!(ids::valid_recipient_id(&format!("mbx_{}", "a".repeat(32))));
    assert!(!ids::valid_recipient_id(&format!("mbx_{}", "a".repeat(31))));
    assert!(!ids::valid_recipient_id(&"a".repeat(36)));
    assert!(ids::validate_recipient_id("mbx_012345678901").is_ok());
    assert_eq!(
        ids::validate_recipient_id("mbx_01234567890").err().unwrap(),
        "recipient id must start with mbx_ and be 16-128 URL-safe characters"
    );
    assert_eq!(
        ids::validate_token("short", "auth token").err().unwrap(),
        "auth token must be 16-128 URL-safe characters"
    );
    assert_eq!(
        ids::validate_bundle_id("bun").err().unwrap(),
        "invite bundle id must be 16-128 URL-safe characters"
    );
    assert!(ids::valid_bundle_id("bun_0123456789ab"));
}

#[test]
fn random_names_are_accepted_and_differ() {
    let a = ids::random_token("mbx_", 24).unwrap();
    let b = ids::random_token("mbx_", 24).unwrap();
    assert_ne!(a, b);
    assert_eq!(a.len(), 36);
    assert!(a.starts_with("mbx_"));
    assert!(ids::valid_recipient_id(&a));
    assert!(ids::valid_token(&ids::random_token("dt_", 32).unwrap()));
    assert!(ids::valid_bundle_id(&ids::random_token("bun_", 24).unwrap()));
    assert_eq!(ids::token_of("dt_", &[0xff, 0xef]), "dt__-8");
}

#[test]
fn fresh_ids_are_uuids() {
    let a = ids::fresh_id();
    assert_ne!(a, ids::fresh_id());
    let u = uuid::Uuid::parse_str(&a).unwrap();
    assert_eq!(u.get_version_num(), 4);
    assert_eq!(u.to_string(), a);
}

#[test]
fn token_digests_are_sha256_in_hex() {
    assert_eq!(
        ids::token_hash("abc"),
        "ba7816bf8f01cfea414140de5dae2223b00361a396177a9cb410ff61f20015ad"
    );
}

#[test]
fn urls_are_parsed() {
    let p = urls::parse_ws_url("ws://127.0.0.1:8787/ws").unwrap();
    assert_eq!((p.scheme.as_str(), p.host.as_str(), p.port), ("ws", "127.0.0.1", 8787));
    assert!(p.is_local_dev_host());
    let p = urls::parse_ws_url("wss://example.org").unwrap();
    assert_eq!((p.scheme.as_str(), p.host.as_str(), p.port), ("wss", "example.org", 443));
    assert!(!p.is_local_dev_host());
    let p = urls::parse_ws_url("ws://[::1]:9/ws").unwrap();
    assert_eq!((p.host.as_str(), p.port), ("[::1]", 9));
    assert!(p.is_local_dev_host());
    let p = urls::parse_ws_url("ws://[::1]x/ws").unwrap();
    assert_eq!(p.port, 80);
    assert_eq!(
        urls::parse_ws_url("http://h").err().unwrap(),
        "server URL must start with ws:// or wss://"
    );
    assert_eq!(urls::parse_ws_url("ws:///ws").err().unwrap(), "server URL is missing a host");
    assert_eq!(urls::parse_ws_url("ws://[::1/ws").err().unwrap(), "invalid IPv6 host");
    assert_eq!(urls::parse_ws_url("ws://h:99999").err().unwrap(), "invalid server port");
    assert!(urls::validate_ws_url("wss://x").is_ok());
    assert_eq!(
        urls::validate_ws_url("x").err().unwrap(),
        "server URL must start with ws:// or wss://"
    );
}

#[test]
fn urls_are_normalised_once() {
    for (from, to) in [
        ("", "ws://127.0.0.1:8787/ws"),
        ("  ", "ws://127.0.0.1:8787/ws"),
        ("ws://h//", "ws://h/ws"),
        (" ws://h/ws ", "ws://h/ws"),
        ("abc.onion", "ws://abc.onion/ws"),
        ("something", "something"),
        ("wss://h", "wss://h/ws"),
    ] {
        assert_eq!(urls::normalize_url(from), to);
        assert_eq!(urls::normalize_url(to), to);
        assert_eq!(urls::normalize_server_url(Some(from.to_string())), to);
    }
    assert_eq!(urls::normalize_server_url(None), "ws://127.0.0.1:8787/ws");
}

#[test]
fn onion_urls_are_recognised() {
    assert!(urls::is_private_onion_ws_url("ws://ABC.onion/ws"));
    assert!(urls::is_private_onion_ws_url("abc.onion"));
    assert!(urls::is_private_onion_ws_url("ws://abc.onion:8080"));
    assert!(!urls::is_private_onion_ws_url("wss://abc.onion/ws"));
    assert!(!urls::is_private_onion_ws_url("ws://user@abc.onion/ws"));
    assert!(!urls::is_private_onion_ws_url("ws://example.org/ws"));
    assert_eq!(urls::ws_url_host("ws://AbC.onion:80/x"), Some("abc.onion".to_string()));
    assert_eq!(urls::ws_url_host("ws://[::1]/ws"), None);
    assert_eq!(urls::ws_url_host("http://x"), None);
}

#[test]
fn relays_are_dialled_through_tor_or_on_this_machine() {
    assert!(matches!(
        urls::dial("ws://abc.onion/ws", true).unwrap(),
        Dial::Onion { host, port } if host == "abc.onion" && port == 80
    ));
    assert!(matches!(urls::dial("ws://localhost:1/ws", false).unwrap(), Dial::Direct));
    assert!(urls::dial("wss://abc.onion/ws", false).is_ok());
    assert_eq!(
        urls::dial("wss://abc.onion/ws", true).err().unwrap(),
        "onion WebSocket URLs must use ws:// because Tor already provides the transport privacy; wss:// onion TLS is not implemented yet"
    );
    assert_eq!(
        urls::dial("ws://example.org/ws", false).err().unwrap(),
        "direct WebSocket is only allowed for localhost development. Use a .onion server URL for real transport."
    );
}

#[test]
fn relays_have_ids() {
    assert_eq!(urls::server_id_for_url("ws://127.0.0.1:8787/ws"), "srv_8e4e8311e33258c6");
    assert_eq!(urls::server_id_for_url("ws://abc.onion/ws"), "srv_1334b91d65d85b36");
}

#[test]
fn proofs_of_work_are_accepted_in_two_windows() {
    let rid = format!("mbx_{}", "q".repeat(32));
    let proof = pow::generate_pow(&rid, 2_900_000).unwrap();
    assert!(proof.starts_with("2900000:"));
    assert!(pow::verify_pow(&rid, &proof, 2_900_000));
    assert!(pow::verify_pow(&rid, &proof, 2_900_001));
    assert!(!pow::verify_pow(&rid, &proof, 2_900_002));
    assert!(!pow::verify_pow(&rid, &proof, 2_899_999));
    assert!(!pow::verify_pow("mbx_other", &proof, 2_900_000));
    assert!(!pow::verify_pow(&rid, "no proof", 2_900_000));
    assert!(!pow::verify_pow(&rid, "x:1", 2_900_000));
}
