use axeno::frames::ClientFrame;
use axeno::frames::ServerFrame;
use axeno::frames::StoredEnvelope;
use axeno::pow;
use axeno::relay::mailbox::MailboxAuth;
use axeno::relay::onion;
use axeno::relay::onion::HostnameStep;
use axeno::relay::socket::SocketState;
use axeno::relay::socket::Step;
use axeno::relay::state::Relay;

const NOW: u64 = 1_740_000_000_000;

fn window() -> u64 {
    pow::window_at(NOW)
}

fn mailbox(c: char) -> String {
    format!("mbx_{}", c.to_string().repeat(32))
}

fn token(prefix: &str, c: char) -> String {
    format!("{prefix}{}", c.to_string().repeat(24))
}

fn hello(rid: &str, rx: &str, dt: &str, cert_only: bool) -> ClientFrame {
    ClientFrame::Hello {
        recipient_id: rid.to_string(),
        auth_token: rx.to_string(),
        delivery_token: dt.to_string(),
        protocol_min: Some(4),
        protocol_max: Some(5),
        protocol_version: None,
        pow: pow::generate_pow(rid, window()),
        cert_only,
    }
}

fn send(to: &str, dt: &str, body: &str) -> ClientFrame {
    ClientFrame::SendEnvelope {
        client_ref: Some("ref".to_string()),
        to: to.to_string(),
        delivery_token: dt.to_string(),
        envelope_type: "axeno_sealed_signal_v1".to_string(),
        ciphertext: body.to_string(),
    }
}

fn refusal(step: &Step) -> (String, String) {
    match step {
        Step::Reply { frame: ServerFrame::Error { code, message } } => (code.clone(), message.clone()),
        Step::Reply { frame: ServerFrame::SendError { code, message, .. } } => {
            (code.clone(), message.clone())
        }
        _ => panic!("expected a refusal"),
    }
}

fn code(step: &Step) -> String {
    refusal(step).0
}

fn backlog(step: Step) -> Vec<StoredEnvelope> {
    match step {
        Step::Welcome { backlog, .. } => backlog,
        _ => panic!("expected a welcome"),
    }
}

#[test]
fn a_relay_greets_and_keeps_the_first_owner() {
    let mut relay = Relay::new("root".to_string());
    let rid = mailbox('a');
    let (rx, dt) = (token("rx_", 'r'), token("dt_", 'd'));
    let mut s = SocketState::new(1, NOW);
    match relay.handle_frame(&mut s, hello(&rid, &rx, &dt, false), NOW) {
        Step::Welcome {
            frame:
                ServerFrame::HelloOk {
                    protocol_version,
                    min_supported,
                    current_protocol,
                    server_time_ms,
                    trust_root_b64,
                },
            backlog,
        } => {
            assert_eq!(protocol_version, 5);
            assert_eq!(min_supported, Some(4));
            assert_eq!(current_protocol, Some(5));
            assert_eq!(server_time_ms, NOW);
            assert_eq!(trust_root_b64, "root");
            assert!(backlog.is_empty());
        }
        _ => panic!("expected a welcome"),
    }
    assert_eq!(s.mailbox(), Some(rid.clone()));
    assert_eq!(relay.live_socket(&rid), Some(1));
    assert_eq!(relay.mailbox_total(), 1);
    assert!(relay.take_dirty());
    assert!(!relay.take_dirty());

    let mut other = SocketState::new(2, NOW);
    let step = relay.handle_frame(&mut other, hello(&rid, &token("rx_", 'x'), &dt, false), NOW);
    assert_eq!(
        refusal(&step),
        ("auth_failed".to_string(), "mailbox auth failed".to_string())
    );
    assert_eq!(other.mailbox(), None);
    assert_eq!(relay.live_socket(&rid), Some(1));
}

#[test]
fn bad_greetings_are_refused() {
    let mut relay = Relay::new("root".to_string());
    let mut s = SocketState::new(1, NOW);
    let (rx, dt) = (token("rx_", 'r'), token("dt_", 'd'));
    let step = relay.handle_frame(&mut s, hello("mbx_short", &rx, &dt, false), NOW);
    assert_eq!(code(&step), "bad_hello");
    let step = relay.handle_frame(&mut s, hello(&mailbox('a'), "rx", &dt, false), NOW);
    assert_eq!(code(&step), "bad_hello");
    let mut old = hello(&mailbox('a'), &rx, &dt, false);
    if let ClientFrame::Hello { protocol_max, protocol_min, .. } = &mut old {
        *protocol_min = Some(1);
        *protocol_max = Some(3);
    }
    let step = relay.handle_frame(&mut s, old, NOW);
    assert_eq!(
        refusal(&step),
        ("protocol_mismatch".to_string(), "no common relay protocol version".to_string())
    );
    let mut lazy = hello(&mailbox('a'), &rx, &dt, false);
    if let ClientFrame::Hello { pow, .. } = &mut lazy {
        *pow = None;
    }
    let step = relay.handle_frame(&mut s, lazy, NOW);
    assert_eq!(
        refusal(&step),
        ("bad_pow".to_string(), "invalid proof of work for new mailbox".to_string())
    );
    assert_eq!(relay.mailbox_total(), 0);
}

#[test]
fn envelopes_wait_are_handed_out_and_are_acknowledged() {
    let mut relay = Relay::new("root".to_string());
    let rid = mailbox('a');
    let (rx, dt) = (token("rx_", 'r'), token("dt_", 'd'));
    let mut owner = SocketState::new(1, NOW);
    relay.handle_frame(&mut owner, hello(&rid, &rx, &dt, false), NOW);
    relay.close_socket(&owner);
    assert_eq!(relay.live_socket(&rid), None);

    let mut sender = SocketState::new(2, NOW);
    match relay.handle_frame_with(&mut sender, send(&rid, &dt, "cipher"), NOW, 77) {
        Step::Reply { frame: ServerFrame::SendOk { id, queued, client_ref } } => {
            assert_eq!(id, 77);
            assert!(!queued);
            assert_eq!(client_ref, Some("ref".to_string()));
        }
        _ => panic!("expected a confirmation"),
    }
    assert_eq!(relay.queued_total(), 6);

    let mut again = SocketState::new(3, NOW);
    let waiting = backlog(relay.handle_frame(&mut again, hello(&rid, &rx, &dt, false), NOW));
    assert_eq!(waiting.len(), 1);
    assert_eq!(waiting[0].id, 77);
    assert_eq!(waiting[0].to, rid);
    assert_eq!(waiting[0].ciphertext, "cipher");
    assert_eq!(waiting[0].envelope_type, "axeno_sealed_signal_v1");

    match relay.handle_frame(&mut again, ClientFrame::Ack { ids: vec![77, 78] }, NOW) {
        Step::Reply { frame: ServerFrame::AckOk { removed } } => assert_eq!(removed, 1),
        _ => panic!("expected an acknowledgement"),
    }
    assert_eq!(relay.backlog(&rid).len(), 0);
    assert_eq!(relay.queued_total(), 0);
}

#[test]
fn live_delivery_is_confirmed_like_queued_delivery() {
    let mut relay = Relay::new("root".to_string());
    let rid = mailbox('a');
    let (rx, dt) = (token("rx_", 'r'), token("dt_", 'd'));
    let mut owner = SocketState::new(9, NOW);
    relay.handle_frame(&mut owner, hello(&rid, &rx, &dt, false), NOW);
    let mut sender = SocketState::new(2, NOW);
    match relay.handle_frame_with(&mut sender, send(&rid, &dt, "cipher"), NOW, 5) {
        Step::Offer { socket, envelope, frame: ServerFrame::SendOk { id, queued, client_ref } } => {
            assert_eq!(socket, 9);
            assert_eq!(envelope.id, 5);
            assert_eq!(id, 5);
            assert!(!queued);
            assert_eq!(client_ref, Some("ref".to_string()));
        }
        _ => panic!("expected an offer"),
    }
    assert_eq!(relay.backlog(&rid).len(), 1);
    relay.settle_offer(&rid, true);
    assert_eq!(relay.live_socket(&rid), Some(9));
    relay.settle_offer(&rid, false);
    assert_eq!(relay.live_socket(&rid), None);
}

#[test]
fn queues_are_gated_by_delivery_tokens() {
    let mut relay = Relay::new("root".to_string());
    let rid = mailbox('a');
    let (rx, dt) = (token("rx_", 'r'), token("dt_", 'd'));
    let mut owner = SocketState::new(1, NOW);
    relay.handle_frame(&mut owner, hello(&rid, &rx, &dt, false), NOW);
    let mut sender = SocketState::new(2, NOW);
    let denied = ("delivery_denied".to_string(), "delivery token rejected".to_string());
    let step = relay.handle_frame(&mut sender, send(&rid, &token("dt_", 'x'), "c"), NOW);
    assert_eq!(refusal(&step), denied);
    let step = relay.handle_frame(&mut sender, send(&mailbox('b'), &dt, "c"), NOW);
    assert_eq!(refusal(&step), denied);
    let step = relay.handle_frame(&mut sender, send("mbx_x", &dt, "c"), NOW);
    assert_eq!(code(&step), "bad_send");

    let new = token("dt_", 'n');
    match relay.handle_frame(
        &mut owner,
        ClientFrame::SetDeliveryTokens { request_id: "q".to_string(), tokens: vec![new.clone()] },
        NOW,
    ) {
        Step::Reply { frame: ServerFrame::DeliveryTokensSet { request_id, active_count } } => {
            assert_eq!(request_id, "q");
            assert_eq!(active_count, 1);
        }
        _ => panic!("expected a confirmation"),
    }
    let step = relay.handle_frame(&mut sender, send(&rid, &dt, "c"), NOW);
    assert_eq!(refusal(&step), denied);
    let step = relay.handle_frame(&mut sender, send(&rid, &new, "c"), NOW);
    assert!(matches!(step, Step::Offer { .. }));
    let step = relay.handle_frame(
        &mut owner,
        ClientFrame::SetDeliveryTokens { request_id: "q".to_string(), tokens: vec![] },
        NOW,
    );
    assert_eq!(code(&step), "bad_tokens");
}

#[test]
fn sends_to_one_destination_are_limited() {
    let mut relay = Relay::new("root".to_string());
    let rid = mailbox('a');
    let (rx, dt) = (token("rx_", 'r'), token("dt_", 'd'));
    let mut owner = SocketState::new(1, NOW);
    relay.handle_frame(&mut owner, hello(&rid, &rx, &dt, true), NOW);
    assert_eq!(relay.live_socket(&rid), None);
    let mut sender = SocketState::new(2, NOW);
    for _ in 0..30 {
        let step = relay.handle_frame(&mut sender, send(&rid, &dt, "c"), NOW);
        assert!(matches!(step, Step::Reply { frame: ServerFrame::SendOk { .. } }));
    }
    let step = relay.handle_frame(&mut sender, send(&rid, &dt, "c"), NOW);
    assert_eq!(
        refusal(&step),
        ("rate_limited".to_string(), "too many sends to this destination".to_string())
    );
    assert!(sender.count_frame(NOW + 60_001, 10).is_none());
    let step = relay.handle_frame(&mut sender, send(&rid, &dt, "c"), NOW);
    assert!(matches!(step, Step::Reply { frame: ServerFrame::SendOk { .. } }));
}

#[test]
fn queues_keep_the_newest_envelopes() {
    let mut relay = Relay::new("root".to_string());
    let rid = mailbox('a');
    let (rx, dt) = (token("rx_", 'r'), token("dt_", 'd'));
    let mut owner = SocketState::new(1, NOW);
    relay.handle_frame(&mut owner, hello(&rid, &rx, &dt, true), NOW);
    for i in 0..201u128 {
        let mut sender = SocketState::new(2 + i as u64, NOW);
        relay.handle_frame_with(&mut sender, send(&rid, &dt, "c"), NOW, i);
    }
    let waiting = relay.backlog(&rid);
    assert_eq!(waiting.len(), 200);
    assert_eq!(waiting[0].id, 1);
    assert_eq!(waiting[199].id, 200);
    assert_eq!(relay.queued_total(), 200);
}

#[test]
fn frames_are_counted() {
    let mut s = SocketState::new(1, NOW);
    for _ in 0..600 {
        assert!(s.count_frame(NOW, 10).is_none());
    }
    assert!(matches!(
        s.count_frame(NOW, 10),
        Some(ServerFrame::Error { code, message })
            if code == "rate_limited" && message == "too many frames on this socket"
    ));
    let mut t = SocketState::new(2, NOW);
    assert!(t.count_frame(NOW, 512 * 1024).is_none());
    assert!(matches!(
        t.count_frame(NOW, 512 * 1024 + 1),
        Some(ServerFrame::Error { code, message })
            if code == "too_large" && message == "frame too large"
    ));
}

#[test]
fn texts_that_are_no_frames_are_refused() {
    let mut relay = Relay::new("root".to_string());
    let mut s = SocketState::new(1, NOW);
    let step = relay.handle_text(&mut s, Err("expected value".to_string()), NOW);
    assert_eq!(refusal(&step), ("bad_json".to_string(), "expected value".to_string()));
    let step = relay.handle_text(&mut s, Ok(ClientFrame::Ping), NOW);
    assert!(matches!(step, Step::Reply { frame: ServerFrame::Pong { server_time_ms: NOW } }));
}

#[test]
fn certificates_are_for_the_owner_only() {
    let mut relay = Relay::new("root".to_string());
    let rid = mailbox('a');
    let (rx, dt) = (token("rx_", 'r'), token("dt_", 'd'));
    let ask = |uuid: &str, device: u32, key: &str| ClientFrame::IssueSenderCertificate {
        request_id: "q".to_string(),
        sender_uuid: uuid.to_string(),
        sender_device_id: device,
        sender_cert_public_b64: key.to_string(),
    };
    let mut s = SocketState::new(1, NOW);
    assert_eq!(code(&relay.handle_frame(&mut s, ask(&rid, 1, "AQID"), NOW)), "not_registered");
    relay.handle_frame(&mut s, hello(&rid, &rx, &dt, true), NOW);
    assert_eq!(code(&relay.handle_frame(&mut s, ask(&mailbox('b'), 1, "AQID"), NOW)), "cert_denied");
    assert_eq!(
        refusal(&relay.handle_frame(&mut s, ask(&rid, 128, "AQID"), NOW)),
        ("cert_failed".to_string(), "invalid sender certificate request".to_string())
    );
    assert_eq!(
        refusal(&relay.handle_frame(&mut s, ask(&rid, 1, &"A".repeat(65)), NOW)),
        ("cert_failed".to_string(), "sender certificate public key is too large".to_string())
    );
    assert_eq!(
        refusal(&relay.handle_frame(&mut s, ask(&rid, 1, "!!"), NOW)),
        ("cert_failed".to_string(), "bad sender certificate public key encoding".to_string())
    );
    let request = match relay.handle_frame(&mut s, ask(&rid, 1, "AQID"), NOW) {
        Step::Certify { request } => request,
        _ => panic!("expected a request"),
    };
    assert_eq!(request.sender_uuid, rid);
    assert_eq!(request.key, vec![1, 2, 3]);
    assert_eq!(request.expires_at_ms, NOW + 86_400_000);
    match relay.certificate_frame(request, Ok(vec![1, 2, 3])) {
        ServerFrame::SenderCertificate { request_id, certificate_b64, trust_root_b64, expires_at_ms } => {
            assert_eq!(request_id, "q");
            assert_eq!(certificate_b64, "AQID");
            assert_eq!(trust_root_b64, "root");
            assert_eq!(expires_at_ms, NOW + 86_400_000);
        }
        _ => panic!("expected a certificate"),
    }
}

#[test]
fn bundles_are_hosted_until_they_expire() {
    let mut relay = Relay::new("root".to_string());
    let mut s = SocketState::new(1, NOW);
    let upload = |expires: u64| ClientFrame::UploadBundle {
        request_id: "q".to_string(),
        bundle_id: "bun_0123456789abcdef".to_string(),
        ciphertext: "cipher".to_string(),
        expires_at_ms: expires,
    };
    let fetch = || ClientFrame::FetchBundle {
        request_id: "f".to_string(),
        bundle_id: "bun_0123456789abcdef".to_string(),
    };
    for (asked, given) in [
        (0, NOW + 60_000),
        (NOW + 100_000, NOW + 100_000),
        (u64::MAX, NOW + 48 * 60 * 60 * 1000),
    ] {
        match relay.handle_frame(&mut s, upload(asked), NOW) {
            Step::Reply { frame: ServerFrame::BundleUploaded { expires_at_ms, .. } } => {
                assert_eq!(expires_at_ms, given)
            }
            _ => panic!("expected a confirmation"),
        }
    }
    match relay.handle_frame(&mut s, fetch(), NOW + 1) {
        Step::Reply { frame: ServerFrame::Bundle { request_id, bundle_id, ciphertext, .. } } => {
            assert_eq!(request_id, "f");
            assert_eq!(bundle_id, "bun_0123456789abcdef");
            assert_eq!(ciphertext, "cipher");
        }
        _ => panic!("expected the bundle"),
    }
    let step = relay.handle_frame(&mut s, fetch(), NOW + 48 * 60 * 60 * 1000);
    assert_eq!(
        refusal(&step),
        (
            "bundle_not_found".to_string(),
            "invite bundle was not found or has expired".to_string()
        )
    );
    let step = relay.handle_frame(
        &mut s,
        ClientFrame::UploadBundle {
            request_id: "q".to_string(),
            bundle_id: "bun".to_string(),
            ciphertext: "c".to_string(),
            expires_at_ms: 0,
        },
        NOW,
    );
    assert_eq!(code(&step), "bad_bundle");
}

#[test]
fn retired_mailboxes_are_gone() {
    let mut relay = Relay::new("root".to_string());
    let rid = mailbox('a');
    let (rx, dt) = (token("rx_", 'r'), token("dt_", 'd'));
    let mut s = SocketState::new(1, NOW);
    assert_eq!(code(&relay.handle_frame(&mut s, ClientFrame::RetireMailbox, NOW)), "not_registered");
    relay.handle_frame(&mut s, hello(&rid, &rx, &dt, false), NOW);
    let mut sender = SocketState::new(2, NOW);
    relay.handle_frame(&mut sender, send(&rid, &dt, "cipher"), NOW);
    let step = relay.handle_frame(&mut s, ClientFrame::RetireMailbox, NOW);
    assert!(matches!(step, Step::Close { frame: ServerFrame::AckOk { removed: 0 } }));
    assert_eq!(relay.mailbox_total(), 0);
    assert_eq!(relay.queued_total(), 0);
    assert!(relay.find_mailbox(&rid).is_none());
    assert_eq!(code(&relay.handle_frame(&mut sender, send(&rid, &dt, "c"), NOW)), "delivery_denied");
}

#[test]
fn a_newer_socket_stays_live_when_the_older_one_closes() {
    let mut relay = Relay::new("root".to_string());
    let rid = mailbox('a');
    let (rx, dt) = (token("rx_", 'r'), token("dt_", 'd'));
    let mut first = SocketState::new(1, NOW);
    relay.handle_frame(&mut first, hello(&rid, &rx, &dt, false), NOW);
    let mut second = SocketState::new(2, NOW);
    relay.handle_frame(&mut second, hello(&rid, &rx, &dt, false), NOW);
    relay.close_socket(&first);
    assert_eq!(relay.live_socket(&rid), Some(2));
    relay.close_socket(&second);
    assert_eq!(relay.live_socket(&rid), None);
}

#[test]
fn pings_are_answered() {
    let mut relay = Relay::new("root".to_string());
    let mut s = SocketState::new(1, NOW);
    let step = relay.handle_frame(&mut s, ClientFrame::Ping, NOW);
    assert!(matches!(
        step,
        Step::Reply { frame: ServerFrame::Pong { server_time_ms } } if server_time_ms == NOW
    ));
}

#[test]
fn mailboxes_accept_their_tokens() {
    let mut m = MailboxAuth::new("r".to_string(), "a".to_string());
    assert!(m.accepts_delivery_hash("a"));
    assert!(!m.accepts_delivery_hash("b"));
    assert!(m.ensure_delivery_hash("b".to_string()));
    assert!(!m.ensure_delivery_hash("b".to_string()));
    assert!(m.accepts_delivery_hash("b"));
    m.replace_delivery_hashes(vec!["c".to_string(), "c".to_string()]);
    assert!(m.accepts_delivery_hash("c"));
    assert!(!m.accepts_delivery_hash("a"));
    assert!(!m.accepts_delivery_hash("b"));
}

#[test]
fn onion_services_are_announced_once() {
    assert!(onion::should_announce(false, "[notice] Bootstrapped 100% (done): Done"));
    assert!(!onion::should_announce(true, "[notice] Bootstrapped 100% (done): Done"));
    assert!(!onion::should_announce(false, "[notice] Bootstrapped 90%"));
    assert!(!onion::should_announce(false, ""));
    assert!(matches!(onion::hostname_step(28, None), HostnameStep::Again));
    assert!(matches!(onion::hostname_step(29, None), HostnameStep::GiveUp));
    assert!(matches!(
        onion::hostname_step(29, Some("abcdef.onion\n".to_string())),
        HostnameStep::Announce { address } if address == "ws://abcdef.onion/ws"
    ));
    let url = onion::onion_address("abcdef.onion\n");
    assert_eq!(url, "ws://abcdef.onion/ws");
    assert!(axeno::urls::is_private_onion_ws_url(&url));
    assert_eq!(
        onion::tor_configuration("/d/tor", "/d/tor/hs", 8787),
        "DataDirectory /d/tor\nHiddenServiceDir /d/tor/hs\nHiddenServiceVersion 3\nHiddenServicePort 80 127.0.0.1:8787\nSocksPort 0\nLog notice stdout\n"
    );
}

#[test]
fn envelopes_wait_whoever_sent_them_and_whatever_else_happens() {
    let mut relay = Relay::new("root".to_string());
    let (a, b) = (mailbox('a'), mailbox('b'));
    let (rx, dt) = (token("rx_", 'r'), token("dt_", 'd'));
    let mut owner = SocketState::new(1, NOW);
    relay.handle_frame(&mut owner, hello(&a, &rx, &dt, true), NOW);
    let mut other = SocketState::new(2, NOW);
    relay.handle_frame(&mut other, hello(&b, &rx, &dt, true), NOW);

    let mut nobody = SocketState::new(3, NOW);
    for s in [&mut nobody, &mut other] {
        match relay.handle_frame(s, send(&a, &dt, "body"), NOW) {
            Step::Reply { frame: ServerFrame::SendOk { client_ref, .. } } => {
                assert_eq!(client_ref, Some("ref".to_string()));
            }
            _ => panic!("expected a confirmation"),
        }
    }
    let waiting: Vec<u128> = relay.backlog(&a).iter().map(|e| e.id).collect();
    assert_eq!(waiting.len(), 2);

    relay.handle_frame(&mut other, ClientFrame::Ack { ids: waiting.clone() }, NOW);
    relay.handle_frame(&mut owner, ClientFrame::Ack { ids: vec![7] }, NOW);
    relay.handle_frame(&mut other, ClientFrame::RetireMailbox, NOW);
    relay.handle_frame(&mut owner, ClientFrame::Ping, NOW);
    let still: Vec<u128> = relay.backlog(&a).iter().map(|e| e.id).collect();
    assert_eq!(still, waiting);
    relay.handle_frame(&mut owner, ClientFrame::Ack { ids: vec![waiting[0]] }, NOW);
    let left: Vec<u128> = relay.backlog(&a).iter().map(|e| e.id).collect();
    assert_eq!(left, vec![waiting[1]]);
}
