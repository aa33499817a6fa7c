use axeno::certificates;
use axeno::certificates::CertificateCache;
use axeno::events::SenderCertificateResponse;
use axeno::frames;
use axeno::frames::ClientFrame;
use axeno::frames::ServerFrame;
use axeno::frames::StoredEnvelope;
use axeno::link;
use axeno::link::Link;
use axeno::link::LinkAction;
use axeno::requests;
use axeno::strmap::StringMap;

const NOW: u64 = 1_740_000_000_000;

#[test]
fn requests_are_checked_before_they_are_frames() {
    let mailbox = format!("mbx_{}", "a".repeat(32));
    let token = "dt_0123456789abcdef".to_string();
    let url = "ws://abc.onion/ws";
    let send = |url: &str, to: &str, r: &str| {
        requests::ask_to_send_once(
            url,
            to.to_string(),
            token.clone(),
            "t".to_string(),
            "c".to_string(),
            r.to_string(),
        )
    };
    assert!(matches!(
        send(url, &mailbox, "ref").unwrap(),
        ClientFrame::SendEnvelope { client_ref: Some(r), .. } if r == "ref"
    ));
    assert!(send("http://abc.onion", &mailbox, "ref").is_err());
    assert!(send(url, "x", "ref").is_err());
    assert_eq!(requests::reference_or_fresh(Some("ref".to_string())), "ref");
    assert_eq!(requests::reference_or_fresh(None).len(), 36);
    assert!(matches!(
        requests::ask_for_tokens("q".to_string(), vec![token.clone()]).unwrap(),
        ClientFrame::SetDeliveryTokens { request_id, tokens }
            if request_id == "q" && tokens == vec![token.clone()]
    ));
    assert!(requests::ask_for_tokens("q".to_string(), vec![]).is_err());
    assert!(matches!(
        requests::ask_for_certificate("q".to_string(), mailbox.clone(), 1, "k".to_string()).unwrap(),
        ClientFrame::IssueSenderCertificate { sender_uuid, sender_device_id: 1, .. }
            if sender_uuid == mailbox
    ));
    assert!(requests::ask_for_certificate("q".to_string(), mailbox, 0, "k".to_string()).is_err());
    let bundle = "bun_0123456789abcdef".to_string();
    assert!(matches!(
        requests::ask_to_host(url, "q".to_string(), bundle.clone(), "c".to_string(), 9).unwrap(),
        ClientFrame::UploadBundle { bundle_id, expires_at_ms: 9, .. } if bundle_id == bundle
    ));
    assert!(
        requests::ask_to_host(url, "q".to_string(), bundle.clone(), "c".repeat(16_385), 9).is_err()
    );
    assert!(matches!(
        requests::ask_for_bundle(url, "q".to_string(), bundle.clone()).unwrap(),
        ClientFrame::FetchBundle { bundle_id, .. } if bundle_id == bundle
    ));
    assert!(requests::ask_for_bundle(url, "q".to_string(), "x".to_string()).is_err());
}

fn hello_ok(version: u16, root: &str, at: u64) -> ServerFrame {
    ServerFrame::HelloOk {
        protocol_version: version,
        min_supported: Some(4),
        current_protocol: Some(5),
        server_time_ms: at,
        trust_root_b64: root.to_string(),
    }
}

fn certificate(root: &str) -> ServerFrame {
    ServerFrame::SenderCertificate {
        request_id: "q".to_string(),
        certificate_b64: "c".to_string(),
        trust_root_b64: root.to_string(),
        expires_at_ms: 5,
    }
}

fn refusal() -> ServerFrame {
    frames::err("code", "message")
}

fn status(a: &LinkAction) -> (String, Option<String>) {
    match a {
        LinkAction::Status { event } => {
            assert_eq!(event.server_id, "srv");
            (event.status.clone(), event.reason.clone())
        }
        _ => panic!("expected a status"),
    }
}

#[test]
fn a_greeting_makes_the_connection_ready_once() {
    let mut l = Link::new("srv".to_string());
    let mut roots: StringMap<String> = StringMap::new();
    let step = l.receive(&mut roots, hello_ok(5, "root", NOW), NOW);
    assert!(step.end.is_none());
    assert_eq!(step.actions.len(), 2);
    assert!(matches!(step.actions[0], LinkAction::Ready));
    assert_eq!(status(&step.actions[1]), ("ready".to_string(), None));
    assert_eq!(roots.get("srv").unwrap(), "root");
    let step = l.receive(&mut roots, hello_ok(4, "root", NOW), NOW);
    assert_eq!(step.actions.len(), 1);
    assert!(l.closed().is_empty());
}

#[test]
fn clocks_that_differ_are_remarked() {
    let mut l = Link::new("srv".to_string());
    let mut roots: StringMap<String> = StringMap::new();
    let step = l.receive(&mut roots, hello_ok(5, "root", NOW + 300_001), NOW);
    assert_eq!(
        status(&step.actions[0]),
        (
            "clock_skew".to_string(),
            Some("local clock differs from relay by about 5 minutes".to_string())
        )
    );
    let mut l = Link::new("srv".to_string());
    let step = l.receive(&mut roots, hello_ok(5, "root", NOW - 300_000), NOW);
    assert!(matches!(step.actions[0], LinkAction::Ready));
}

#[test]
fn unsuitable_versions_end_the_connection() {
    let mut roots: StringMap<String> = StringMap::new();
    for v in [3, 6] {
        let mut l = Link::new("srv".to_string());
        let step = l.receive(&mut roots, hello_ok(v, "root", NOW), NOW);
        assert_eq!(
            step.end.unwrap(),
            format!("relay protocol mismatch: client supports 4-5, relay selected {v}")
        );
        assert!(roots.get("srv").is_none());
    }
    let mut l = Link::new("srv".to_string());
    let odd = ServerFrame::HelloOk {
        protocol_version: 4,
        min_supported: Some(5),
        current_protocol: None,
        server_time_ms: NOW,
        trust_root_b64: "root".to_string(),
    };
    assert!(l.receive(&mut roots, odd, NOW).end.is_some());
}

#[test]
fn changed_roots_end_the_connection() {
    let mut l = Link::new("srv".to_string());
    let mut roots: StringMap<String> = StringMap::new();
    l.receive(&mut roots, hello_ok(5, "root", NOW), NOW);
    assert_eq!(
        l.receive(&mut roots, hello_ok(5, "other", NOW), NOW).end.unwrap(),
        "relay trust root changed during this session"
    );
    assert_eq!(
        l.receive(&mut roots, certificate("other"), NOW).end.unwrap(),
        "relay trust root changed during sender-certificate issuance"
    );
    assert_eq!(roots.get("srv").unwrap(), "root");
    let step = l.receive(&mut roots, certificate("root"), NOW);
    assert!(step.end.is_none());
    assert!(matches!(
        &step.actions[0],
        LinkAction::Certificate { request_id, certificate }
            if request_id == "q" && certificate.certificate_b64 == "c" && certificate.expires_at_ms == 5
    ));
}

#[test]
fn frames_lead_to_actions() {
    let mut l = Link::new("srv".to_string());
    let mut roots: StringMap<String> = StringMap::new();
    let envelope = StoredEnvelope {
        id: 7,
        to: "mbx".to_string(),
        envelope_type: "t".to_string(),
        ciphertext: "c".to_string(),
    };
    let step = l.receive(&mut roots, ServerFrame::Envelope { envelope }, NOW);
    assert!(matches!(&step.actions[0], LinkAction::Envelope { envelope } if envelope.id == 7));
    let ok = |client_ref: Option<String>| ServerFrame::SendOk { id: 9, queued: true, client_ref };
    let step = l.receive(&mut roots, ok(Some("r".to_string())), NOW);
    assert!(matches!(
        &step.actions[0],
        LinkAction::Sent { client_ref, ack } if client_ref == "r" && ack.id == 9 && ack.queued
    ));
    assert!(matches!(
        &step.actions[1],
        LinkAction::Receipt { receipt } if receipt.id == 9 && receipt.server_id == "srv"
    ));
    assert_eq!(l.receive(&mut roots, ok(None), NOW).actions.len(), 1);
    let step = l.receive(&mut roots, frames::send_err(Some("r".to_string()), "c", "m"), NOW);
    assert!(matches!(
        &step.actions[0],
        LinkAction::NotSent { client_ref, reason } if client_ref == "r" && reason == "c: m"
    ));
    assert!(matches!(
        &step.actions[1],
        LinkAction::Failure { failure } if failure.code == "c" && failure.message == "m"
    ));
    assert_eq!(status(&step.actions[2]), ("send_error".to_string(), Some("c: m".to_string())));
    let step = l.receive(
        &mut roots,
        ServerFrame::DeliveryTokensSet { request_id: "q".to_string(), active_count: 1 },
        NOW,
    );
    assert!(matches!(&step.actions[0], LinkAction::TokensSet { request_id } if request_id == "q"));
    assert!(l.receive(&mut roots, ServerFrame::Pong { server_time_ms: 1 }, NOW).actions.is_empty());
    let step = l.receive(&mut roots, refusal(), NOW);
    assert!(matches!(&step.actions[0], LinkAction::NotReady { reason } if reason == "code: message"));
    assert_eq!(
        status(&step.actions[1]),
        ("server_error".to_string(), Some("code: message".to_string()))
    );
    assert_eq!(l.receive(&mut roots, refusal(), NOW).actions.len(), 1);
}

#[test]
fn closing_tells_whoever_waits() {
    let mut l = Link::new("srv".to_string());
    let actions = l.closed();
    assert!(matches!(
        &actions[0],
        LinkAction::NotReady { reason } if reason == "relay connection ended before registration completed"
    ));
    assert!(l.closed().is_empty());
    let frame = ClientFrame::SendEnvelope {
        client_ref: Some("r".to_string()),
        to: String::new(),
        delivery_token: String::new(),
        envelope_type: String::new(),
        ciphertext: String::new(),
    };
    let actions = link::write_failure("srv", &frame, "broken");
    assert!(matches!(
        &actions[0],
        LinkAction::Failure { failure }
            if failure.code == "websocket_write_failed" && failure.message == "broken"
    ));
    assert_eq!(status(&actions[1]), ("failed".to_string(), Some("broken".to_string())));
    assert_eq!(link::write_failure("srv", &ClientFrame::Ping, "broken").len(), 1);
    assert!(link::is_same_connection("u", "r", false, "u", "r"));
    assert!(!link::is_same_connection("u", "r", true, "u", "r"));
    assert!(!link::is_same_connection("u", "r", false, "v", "r"));
    assert!(!link::is_same_connection("u", "r", false, "u", "s"));
}

#[test]
fn requests_are_checked() {
    let url = "ws://abc.onion/ws";
    let rid = "mbx_0123456789ab";
    let token = "0123456789abcdef";
    assert!(requests::check_mailbox(url, rid, token, token).is_ok());
    assert_eq!(
        requests::check_mailbox("x", rid, token, token).err().unwrap(),
        "server URL must start with ws:// or wss://"
    );
    assert_eq!(
        requests::check_mailbox(url, "x", token, token).err().unwrap(),
        "recipient id must start with mbx_ and be 16-128 URL-safe characters"
    );
    assert_eq!(
        requests::check_mailbox(url, rid, "x", token).err().unwrap(),
        "auth token must be 16-128 URL-safe characters"
    );
    assert_eq!(
        requests::check_mailbox(url, rid, token, "x").err().unwrap(),
        "delivery token must be 16-128 URL-safe characters"
    );
    assert!(requests::check_single_envelope(url, rid, token, "t", "c").is_ok());
    assert_eq!(
        requests::check_envelope(rid, token, &"t".repeat(33), "c").err().unwrap(),
        "envelope_type is too long"
    );
    assert_eq!(
        requests::check_envelope(rid, token, "t", &"c".repeat(512 * 1024 + 1)).err().unwrap(),
        "ciphertext exceeds 512 KiB frame limit"
    );
    assert!(requests::check_delivery_tokens(&vec![token.to_string()]).is_ok());
    assert_eq!(
        requests::check_delivery_tokens(&vec![]).err().unwrap(),
        "delivery-token allowlist may not be empty"
    );
    assert_eq!(
        requests::check_delivery_tokens(&vec![token.to_string(), "x".to_string()]).err().unwrap(),
        "delivery token must be 16-128 URL-safe characters"
    );
    assert!(requests::check_certificate_request(rid, 127, "k").is_ok());
    for device in [0, 128] {
        assert_eq!(
            requests::check_certificate_request(rid, device, "k").err().unwrap(),
            "invalid sender device id"
        );
    }
    assert_eq!(
        requests::check_single_certificate_request(url, rid, token, token, 1, &"k".repeat(65)).err().unwrap(),
        "sender certificate public key is too large"
    );
    assert!(requests::check_upload(url, token, "c").is_ok());
    assert_eq!(
        requests::check_upload(url, token, &"c".repeat(16 * 1024 + 1)).err().unwrap(),
        "invite bundle exceeds relay limit"
    );
    assert_eq!(
        requests::check_fetch(url, "x").err().unwrap(),
        "invite bundle id must be 16-128 URL-safe characters"
    );
}

#[test]
fn greetings_offer_both_versions() {
    match requests::hello_frame("m".to_string(), "a".to_string(), "d".to_string(), "p".to_string()) {
        ClientFrame::Hello { recipient_id, protocol_min, protocol_max, pow, cert_only, .. } => {
            assert_eq!(recipient_id, "m");
            assert_eq!((protocol_min, protocol_max), (Some(4), Some(5)));
            assert_eq!(pow, Some("p".to_string()));
            assert!(!cert_only);
        }
        _ => panic!("expected hello frame"),
    }
}

#[test]
fn answers_are_read() {
    let ok = |r: Option<&str>| ServerFrame::SendOk { id: 3, queued: false, client_ref: r.map(|s| s.to_string()) };
    assert_eq!(requests::read_send_answer(ok(Some("r")), "r").unwrap().id, 3);
    for r in [Some("other"), None] {
        assert_eq!(
            requests::read_send_answer(ok(r), "r").err().unwrap(),
            "relay send acknowledgement did not match request"
        );
    }
    assert_eq!(requests::read_send_answer(refusal(), "r").err().unwrap(), "code: message");
    assert_eq!(
        requests::read_send_answer(frames::send_err(None, "c", "m"), "r").err().unwrap(),
        "c: m"
    );
    let pong = || ServerFrame::Pong { server_time_ms: 0 };
    assert_eq!(
        requests::read_send_answer(pong(), "r").err().unwrap(),
        "unexpected relay response to send"
    );
    assert!(requests::read_hello_answer(&hello_ok(5, "r", 0), "x").is_ok());
    assert_eq!(requests::read_hello_answer(&refusal(), "x").err().unwrap(), "code: message");
    assert_eq!(requests::read_hello_answer(&pong(), "x").err().unwrap(), "x");
    assert_eq!(
        requests::read_certificate_answer(certificate("root"), "q").unwrap().trust_root_b64,
        "root"
    );
    assert_eq!(
        requests::read_certificate_answer(certificate("root"), "p").err().unwrap(),
        "unexpected relay response to sender-certificate request"
    );
    let uploaded = ServerFrame::BundleUploaded {
        request_id: "q".to_string(),
        bundle_id: "b".to_string(),
        expires_at_ms: 0,
    };
    assert!(requests::read_upload_answer(&uploaded, "q", "b").is_ok());
    assert_eq!(
        requests::read_upload_answer(&uploaded, "q", "c").err().unwrap(),
        "unexpected relay response to invite bundle upload"
    );
    let bundle = |b: &str| ServerFrame::Bundle {
        request_id: "q".to_string(),
        bundle_id: b.to_string(),
        ciphertext: "text".to_string(),
        expires_at_ms: 0,
    };
    assert_eq!(requests::read_fetch_answer(bundle("b"), "q", "b").unwrap(), "text");
    assert_eq!(
        requests::read_fetch_answer(bundle("c"), "q", "b").err().unwrap(),
        "unexpected relay response to invite bundle fetch"
    );
    assert_eq!(requests::read_fetch_answer(refusal(), "q", "b").err().unwrap(), "code: message");
    assert!(requests::read_retire_answer(&ServerFrame::AckOk { removed: 0 }).is_ok());
    assert_eq!(
        requests::read_retire_answer(&pong()).err().unwrap(),
        "unexpected relay response to mailbox-retire"
    );
}

#[test]
fn certificates_are_cached_while_they_are_good() {
    let cert = |expires: u64| SenderCertificateResponse {
        certificate_b64: expires.to_string(),
        trust_root_b64: "root".to_string(),
        expires_at_ms: expires,
    };
    let key = certificates::cache_name("srv", "mbx", 1, "k");
    assert_eq!(key, "srv|mbx|1|k");
    let mut cache = CertificateCache::new();
    assert!(cache.lookup(&key, NOW).is_none());
    cache.keep(key.clone(), cert(NOW + 3_600_001), NOW);
    assert!(cache.lookup(&key, NOW).is_some());
    assert!(cache.lookup(&key, NOW + 1).is_none());
    cache.keep(key.clone(), cert(NOW + 9_000_000), NOW);
    assert_eq!(cache.entries.len(), 1);
    for i in 0..300u64 {
        cache.keep(format!("k{i}"), cert(NOW + 10_000_000 + i), NOW);
    }
    assert_eq!(cache.entries.len(), 256);
    assert!(cache.lookup(&key, NOW).is_none());
    assert!(cache.lookup("k44", NOW).is_some());
    assert!(cache.lookup("k43", NOW).is_none());
    cache.keep("late".to_string(), cert(NOW + 99_000_000), NOW + 20_000_000);
    assert_eq!(cache.entries.len(), 1);
}
