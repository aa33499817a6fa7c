use axeno::contacts;
use axeno::events::SenderCertificateResponse;
use axeno::frames::ClientFrame;
use axeno::invites;
use axeno::keys::LocalBundle;
use axeno::keys::OpkPublic;
use axeno::outbound;
use axeno::outbound::CertificateSource;
use axeno::outbound::CertificateStep;
use axeno::routes::FreshRoute;
use axeno::routes::RouteKeys;
use axeno::seqs::Duplicate;
use axeno::settings;
use axeno::store::KyberPreKeyBlob;
use axeno::store::MessagingStore;
use axeno::store::PrivateServerSetting;
use axeno::store::PrivateServerSettings;
use axeno::store::StoredContact;

const NOW: u64 = 1_740_000_000_000;
const DAY: u64 = 86_400_000;

fn fresh(n: u32) -> FreshRoute {
    FreshRoute {
        id: format!("rt_{n}"),
        mailbox_id: format!("mbx_{n}"),
        receive_auth_token: format!("rx_{n}"),
        delivery_token: format!("dt_{n}"),
        keys: RouteKeys::from_raw(&[1, 2, 3], &[4, 5]),
    }
}

fn bundle() -> LocalBundle {
    LocalBundle {
        public_key: vec![1, 2, 3],
        registration_id: 77,
        signed_prekey_id: 3,
        signed_prekey_public: vec![4],
        signed_prekey_signature: vec![5],
        previous_signed_prekeys: vec![],
        opks_public: vec![OpkPublic { id: 10, public_key: vec![1] }],
    }
}

fn kyber() -> KyberPreKeyBlob {
    KyberPreKeyBlob {
        id: 4,
        public_b64: "Cg".to_string(),
        signature_b64: "Cw".to_string(),
        record_b64: "DA".to_string(),
        created_at_ms: 0,
    }
}

fn contact() -> StoredContact {
    let mut store = MessagingStore::empty();
    let draft = invites::draft_invite(
        &mut store,
        &bundle(),
        "Ann",
        &kyber(),
        Some("abc.onion".to_string()),
        false,
        fresh(50),
        NOW,
    )
    .unwrap();
    contacts::contact_from_payload(draft.payload, &[9, 9], NOW).unwrap()
}

fn store() -> MessagingStore {
    let mut store = MessagingStore::empty();
    contacts::add_contact(&mut store, contact(), fresh(1), NOW).unwrap();
    store
}

#[test]
fn texts_are_checked() {
    assert_eq!(outbound::outgoing_text("text", "  hi ").unwrap(), "hi");
    assert_eq!(outbound::outgoing_text("route_sync", "  ").unwrap(), "  ");
    assert_eq!(outbound::outgoing_text("text", " \n").err().unwrap(), "message is empty");
    assert!(outbound::outgoing_text("text", &"a".repeat(16384)).is_ok());
    assert_eq!(
        outbound::outgoing_text("text", &"ä".repeat(8193)).err().unwrap(),
        "message too large for text MVP"
    );
}

#[test]
fn sends_are_planned() {
    let mut s = store();
    let plan = outbound::prepare_send(&mut s, "mbx_50", fresh(2), NOW).unwrap();
    assert_eq!(plan.contact.id, "mbx_50");
    assert_eq!(plan.return_route.id, "rt_1");
    assert_eq!(plan.sender_route.id, "rt_1");
    let again = outbound::prepare_with_certificate(&mut s, &plan, "root", fresh(3), NOW).unwrap();
    assert_eq!(again.sender_route.id, "rt_1");
    assert_eq!(s.server_trust_roots.get(&plan.sender_route.server_id).unwrap(), "root");
    assert_eq!(
        outbound::prepare_with_certificate(&mut s, &plan, "other", fresh(3), NOW).err().unwrap(),
        "server trust root changed for this relay; refusing to continue until manually reviewed"
    );
    s.local_routes[0].active = false;
    assert_eq!(
        outbound::prepare_with_certificate(&mut s, &plan, "root", fresh(3), NOW).err().unwrap(),
        "sender route changed while preparing message; retry send"
    );
    assert_eq!(
        outbound::prepare_send(&mut s, "nobody", fresh(2), NOW).err().unwrap(),
        "contact not found"
    );
    assert_eq!(
        outbound::certificate_failure("a", "b"),
        "sender certificate failed (a); fallback also failed: b"
    );
}

#[test]
fn certificates_are_asked_for_twice_at_most() {
    let cert = || SenderCertificateResponse {
        certificate_b64: "c".to_string(),
        trust_root_b64: "r".to_string(),
        expires_at_ms: 5,
    };
    let alone = || CertificateSource::Alone { why: "a".to_string() };
    assert!(matches!(
        outbound::certificate_step(CertificateSource::Open, Ok(cert())),
        CertificateStep::Use { certificate, reconnect: false } if certificate.expires_at_ms == 5
    ));
    assert!(matches!(
        outbound::certificate_step(CertificateSource::Open, Err("a".to_string())),
        CertificateStep::AskAlone { why } if why == "a"
    ));
    assert!(matches!(
        outbound::certificate_step(alone(), Ok(cert())),
        CertificateStep::Use { reconnect: true, .. }
    ));
    assert!(matches!(
        outbound::certificate_step(alone(), Err("b".to_string())),
        CertificateStep::Fail { why }
            if why == "sender certificate failed (a); fallback also failed: b"
    ));
}

#[test]
fn messages_leave_in_one_frame() {
    let mut s = store();
    let mut plan = outbound::prepare_send(&mut s, "mbx_50", fresh(2), NOW).unwrap();
    plan.contact.recipient_id = format!("mbx_{}", "a".repeat(32));
    plan.contact.delivery_token = "dt_0123456789abcdef".to_string();
    let frame = outbound::envelope_frame(&plan, "wire".to_string(), "id".to_string()).unwrap();
    assert!(matches!(
        frame,
        ClientFrame::SendEnvelope { client_ref, to, delivery_token, envelope_type, ciphertext }
            if client_ref == Some("id".to_string())
                && to == plan.contact.recipient_id
                && delivery_token == "dt_0123456789abcdef"
                && envelope_type == "axeno_sealed_signal_v1"
                && ciphertext == "wire"
    ));
    assert_eq!(
        outbound::envelope_frame(&plan, "a".repeat(524_289), "id".to_string()).err().unwrap(),
        "ciphertext exceeds 512 KiB frame limit"
    );
    plan.contact.delivery_token = "short".to_string();
    assert!(outbound::envelope_frame(&plan, "wire".to_string(), "id".to_string()).is_err());
}

#[test]
fn blocked_contacts_get_nothing() {
    let mut s = store();
    s.contacts[0].trust_state = "identity_changed_blocked".to_string();
    assert_eq!(
        outbound::prepare_send(&mut s, "mbx_50", fresh(2), NOW).err().unwrap(),
        "contact identity changed; verify before sending"
    );
}

#[test]
fn sessions_start_from_prekeys() {
    let mut s = store();
    let c = s.contacts[0].duplicate();
    assert!(!outbound::has_session(&s, "mbx_50", 1));
    let b = outbound::bundle_for_first_message(&c).unwrap();
    assert_eq!(b.identity, vec![1, 2, 3]);
    assert_eq!(b.registration_id, 77);
    assert_eq!((b.signed_prekey_id, b.signed_prekey, b.signed_prekey_signature), (3, vec![4], vec![5]));
    let opk = b.opk.unwrap();
    assert_eq!((opk.id, opk.public_key), (10, vec![1]));
    assert_eq!((b.kyber_prekey_id, b.kyber_prekey, b.kyber_prekey_signature), (4, vec![10], vec![11]));
    outbound::spend_contact_opk(&mut s, "mbx_50");
    assert_eq!(s.contacts[0].opk_id, None);
    assert_eq!(s.contacts[0].opk_public_b64, None);

    axeno::keys::persist_session(&mut s, "mbx_50", 1, "AQID", &[1], NOW);
    assert!(outbound::has_session(&s, "mbx_50", 1));
    assert!(!outbound::has_session(&s, "mbx_50", 2));
    outbound::reset_session(&mut s, &c, false);
    assert!(outbound::has_session(&s, "mbx_50", 1));
    outbound::reset_session(&mut s, &c, true);
    assert!(!outbound::has_session(&s, "mbx_50", 1));
}

#[test]
fn incomplete_bundles_are_refused() {
    let refuse = |change: fn(&mut StoredContact)| {
        let mut c = contact();
        change(&mut c);
        outbound::bundle_for_first_message(&c).err().unwrap()
    };
    assert_eq!(
        refuse(|c| c.signed_prekey_public_b64 = String::new()),
        "contact does not have a usable Signal prekey bundle yet, and no established session exists; exchange connection codes first"
    );
    assert_eq!(
        refuse(|c| c.identity_public_b64 = "?".to_string()),
        "bad base64 for identity public key"
    );
    assert_eq!(
        refuse(|c| c.signed_prekey_public_b64 = "?".to_string()),
        "bad base64 for signed prekey public key"
    );
    assert_eq!(
        refuse(|c| c.signed_prekey_signature_b64 = "?".to_string()),
        "bad base64 for signed prekey signature"
    );
    assert_eq!(
        refuse(|c| c.opk_public_b64 = Some("?".to_string())),
        "bad base64 for one-time prekey public key"
    );
    assert_eq!(
        refuse(|c| c.kyber_prekey_id = None),
        "contact connection code is missing the required PQXDH Kyber prekey; generate/import a fresh code"
    );
    assert_eq!(
        refuse(|c| c.kyber_prekey_public_b64 = None),
        "contact connection code is missing the required PQXDH Kyber public key"
    );
    assert_eq!(
        refuse(|c| c.kyber_prekey_signature_b64 = None),
        "contact connection code is missing the required PQXDH Kyber signature"
    );
    assert_eq!(
        refuse(|c| c.kyber_prekey_public_b64 = Some("?".to_string())),
        "bad base64 for Kyber prekey public key"
    );
    assert_eq!(
        refuse(|c| c.kyber_prekey_signature_b64 = Some("?".to_string())),
        "bad base64 for Kyber prekey signature"
    );
}

#[test]
fn sent_messages_get_their_status() {
    let mut s = store();
    let m = outbound::record_outgoing(&mut s, "id", "mbx_50", "hi", NOW);
    assert_eq!(m.status, "relay_pending");
    assert!(m.mine);
    assert_eq!(s.messages.len(), 1);
    let done = outbound::finish_send(&mut s, m.duplicate(), Some(false));
    assert_eq!(done.status, "relay_received");
    assert_eq!(s.messages.len(), 1);
    assert_eq!(outbound::finish_send(&mut s, m.duplicate(), Some(true)).status, "relay_queued");
    assert_eq!(outbound::finish_send(&mut s, m.duplicate(), None).status, "send_failed");
    assert_eq!(
        outbound::mark_message_relay_received(&mut s, "id", true).unwrap().status,
        "relay_queued"
    );
    assert_eq!(outbound::mark_message_send_failed(&mut s, "id").unwrap().status, "send_failed");
    assert!(outbound::mark_message_send_failed(&mut s, "other").is_none());
    s.messages.clear();
    outbound::finish_send(&mut s, m, Some(false));
    assert_eq!(s.messages.len(), 1);
    s.messages[0].mine = false;
    assert!(outbound::mark_message_relay_received(&mut s, "id", false).is_none());
}

#[test]
fn invites_are_drafted_and_issued() {
    let mut s = MessagingStore::empty();
    let d = invites::draft_invite(&mut s, &bundle(), " Ann ", &kyber(), None, false, fresh(1), NOW).unwrap();
    assert_eq!(d.route.scope, "pending_invite");
    assert_eq!(d.route.expires_at_ms, Some(NOW + DAY));
    assert_eq!(d.route.server_url, "ws://127.0.0.1:8787/ws");
    assert_eq!(d.payload.display_name, "Ann");
    assert_eq!(d.payload.mailbox_id, "mbx_1");
    assert_eq!(d.payload.delivery_token, "dt_1");
    assert_eq!(d.payload.identity_public_b64, "AQID");
    assert_eq!(d.payload.opk_id, Some(10));
    assert_eq!(d.payload.kyber_prekey_public_b64, Some("Cg".to_string()));
    assert_eq!(d.payload.registration_id, 77);
    let r = invites::issue_invite(&mut s, d.route, "id".to_string(), "axn1_x".to_string(), None, false, NOW);
    assert_eq!(r.server_name, "Local dev relay");
    assert_eq!(r.code, "axn1_x");
    assert_eq!(s.pending_invites[0].server_name, Some("Local dev relay".to_string()));
    assert_eq!(s.pending_invites[0].expires_at_ms, NOW + DAY);
    assert_eq!(s.local_routes.len(), 1);

    assert!(invites::draft_invite(&mut s, &bundle(), "", &kyber(), None, false, fresh(2), NOW)
        .err()
        .unwrap()
        .starts_with("no fresh one-time prekeys are available"));
    let again = invites::draft_invite(&mut s, &bundle(), "", &kyber(), None, true, fresh(2), NOW).unwrap();
    assert_eq!(again.payload.opk_id, None);

    let list = invites::list_connection_codes(&mut s, NOW);
    assert_eq!(list.len(), 1);
    assert_eq!(list[0].id, "id");
    let connections = invites::delete_connection_code(&mut s, "id", NOW);
    assert_eq!(connections, vec![format!("{}__mbx_1", axeno::urls::server_id_for_url("ws://127.0.0.1:8787/ws"))]);
    assert!(s.pending_invites.is_empty());
    assert!(s.local_routes.is_empty());
    assert_eq!(s.pending_relay_retires[0].id, "rt_1");
    assert!(invites::delete_connection_code(&mut s, "id", NOW).is_empty());
}

#[test]
fn relays_have_names() {
    let mut s = MessagingStore::empty();
    assert_eq!(invites::relay_display_name_for_url(&s, "abc.onion"), "Unknown relay");
    s.private_servers.push(PrivateServerSetting {
        id: "1".to_string(),
        name: "Mine".to_string(),
        onion: "abc.onion".to_string(),
    });
    assert_eq!(invites::relay_display_name_for_url(&s, "ws://abc.onion/ws"), "Mine");
    assert_eq!(invites::clean_relay_display_name(Some("  x ".to_string())), Some("x".to_string()));
    assert_eq!(invites::clean_relay_display_name(Some("  ".to_string())), None);
    assert_eq!(invites::clean_relay_display_name(None), None);
    assert_eq!(
        invites::clean_relay_display_name(Some("é".repeat(90))),
        Some("é".repeat(80))
    );
    let d = invites::draft_invite(&mut s, &bundle(), "", &kyber(), Some("zzz.onion".to_string()), true, fresh(1), NOW).unwrap();
    let r = invites::issue_invite(&mut s, d.route, "i".to_string(), "c".to_string(), Some(" Z ".to_string()), true, NOW);
    assert_eq!(r.server_name, "Z");
    assert!(r.reusable);
}

#[test]
fn settings_are_kept_tidy() {
    let mut s = MessagingStore::empty();
    let server = |id: &str, name: &str, onion: &str| PrivateServerSetting {
        id: id.to_string(),
        name: name.to_string(),
        onion: onion.to_string(),
    };
    let given = PrivateServerSettings {
        private_servers: vec![
            server(" 1 ", " A ", " abc.onion "),
            server("1", "B", "def.onion"),
            server("", "C", "not checked"),
            server("2", "", "not checked"),
            server("3", "D", "ws://ghi.onion/ws"),
        ],
        default_server_url: Some("abc.onion".to_string()),
    };
    let kept = settings::save_private_server_settings(&mut s, given).unwrap();
    assert_eq!(kept.private_servers.len(), 2);
    assert_eq!(kept.private_servers[0].id, "1");
    assert_eq!(kept.private_servers[0].name, "A");
    assert_eq!(kept.private_servers[0].onion, "ws://abc.onion/ws");
    assert_eq!(kept.default_server_url, Some("ws://abc.onion/ws".to_string()));
    let loaded = settings::load_private_server_settings(&s);
    assert_eq!(loaded.private_servers.len(), 2);
    assert_eq!(loaded.default_server_url, kept.default_server_url);

    let bad = PrivateServerSettings {
        private_servers: vec![server("1", "A", "ws://example.org/ws")],
        default_server_url: None,
    };
    assert_eq!(
        settings::save_private_server_settings(&mut s, bad).err().unwrap(),
        "private servers must be ws:// .onion WebSocket URLs"
    );
    assert_eq!(s.private_servers.len(), 2);
    let many = PrivateServerSettings {
        private_servers: (0..40).map(|i| server(&i.to_string(), "n", "abc.onion")).collect(),
        default_server_url: Some("other.onion".to_string()),
    };
    let kept = settings::save_private_server_settings(&mut s, many).unwrap();
    assert_eq!(kept.private_servers.len(), 32);
    assert_eq!(kept.default_server_url, None);
}
