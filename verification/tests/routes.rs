use axeno::connections;
use axeno::contacts;
use axeno::messages;
use axeno::overview;
use axeno::routes;
use axeno::routes::FreshRoute;
use axeno::routes::RouteKeys;
use axeno::seqs::Duplicate;
use axeno::store::LocalRoute;
use axeno::store::MessagingStore;
use axeno::store::PendingInvite;
use axeno::store::RetiredDeliveryToken;
use axeno::store::StoredContact;
use axeno::store::StoredMessage;

const NOW: u64 = 1_740_000_000_000;
const WEEK: u64 = 604_800_000;

fn keys() -> RouteKeys {
    RouteKeys::from_raw(&[1, 2, 3], &[4, 5])
}

fn fresh(n: u32) -> FreshRoute {
    FreshRoute {
        id: format!("rt_{n}"),
        mailbox_id: format!("mbx_{n}"),
        receive_auth_token: format!("rx_{n}"),
        delivery_token: format!("dt_{n}"),
        keys: keys(),
    }
}

fn route(n: u32, scope: &str) -> LocalRoute {
    routes::make_route(fresh(n), "ws://abc.onion/ws", scope.to_string(), None, NOW)
}

fn contact(id: &str) -> StoredContact {
    StoredContact {
        id: id.to_string(),
        display_name: None,
        recipient_id: id.to_string(),
        server_url: "ws://abc.onion/ws".to_string(),
        server_id: "srv".to_string(),
        identity_public_b64: "AQID".to_string(),
        registration_id: 1,
        device_id: 1,
        signed_prekey_id: 1,
        signed_prekey_public_b64: "BA".to_string(),
        signed_prekey_signature_b64: "BQ".to_string(),
        opk_id: None,
        opk_public_b64: None,
        kyber_prekey_id: Some(1),
        kyber_prekey_public_b64: Some("Bg".to_string()),
        kyber_prekey_signature_b64: Some("Bw".to_string()),
        delivery_token: "dt".to_string(),
        delivery_token_epoch: 1,
        safety_number: "s".to_string(),
        trust_state: "unverified".to_string(),
        verified_at_ms: None,
        local_route_id: None,
        peer_sender_mailbox_id: None,
        created_at_ms: NOW,
        last_read_at: None,
    }
}

fn message(id: &str, contact_id: &str, at: u64) -> StoredMessage {
    StoredMessage {
        id: id.to_string(),
        contact_id: contact_id.to_string(),
        mine: false,
        text: id.to_string(),
        timestamp: at,
        received_at_ms: None,
        status: "received".to_string(),
    }
}

#[test]
fn new_routes_have_random_names() {
    let r = routes::new_local_route(
        "abc.onion".to_string(),
        "pending_invite".to_string(),
        Some(NOW + 5),
        keys(),
        NOW,
    )
    .unwrap();
    assert!(r.id.starts_with("rt_"));
    assert!(axeno::ids::valid_recipient_id(&r.mailbox_id));
    assert!(axeno::ids::valid_token(&r.receive_auth_token));
    assert!(axeno::ids::valid_token(&r.delivery_token));
    assert_eq!(r.server_url, "ws://abc.onion/ws");
    assert_eq!(r.server_id, "srv_1334b91d65d85b36");
    assert_eq!(r.delivery_token_epoch, 1);
    assert_eq!(r.sealed_sender_cert_public_b64, "AQID");
    assert_eq!(r.sealed_sender_cert_private_b64, "BAU");
    assert!(r.active);
    assert_eq!(r.expires_at_ms, Some(NOW + 5));
    assert_eq!(r.scope, "pending_invite");
    assert_eq!(routes::route_connection_id(&r), format!("{}__{}", r.server_id, r.mailbox_id));
}

#[test]
fn expired_routes_are_dropped_and_noted() {
    let mut store = MessagingStore::empty();
    let mut gone = route(1, "pending_invite");
    gone.expires_at_ms = Some(NOW);
    let mut inactive = route(2, "contact:a");
    inactive.active = false;
    store.local_routes.push(gone);
    store.local_routes.push(inactive);
    store.local_routes.push(route(3, "contact:b"));
    store.pending_invites.push(PendingInvite {
        id: "i".to_string(),
        code: "c".to_string(),
        mailbox_id: "mbx_1".to_string(),
        server_url: "u".to_string(),
        server_name: None,
        route_id: Some("rt_1".to_string()),
        created_at_ms: 0,
        expires_at_ms: NOW,
        reusable: false,
    });
    routes::cleanup_expired_routes(&mut store, NOW);
    assert_eq!(store.local_routes.len(), 1);
    assert_eq!(store.local_routes[0].id, "rt_3");
    assert!(store.pending_invites.is_empty());
    let retired: Vec<&str> = store.pending_relay_retires.iter().map(|r| r.id.as_str()).collect();
    assert_eq!(retired, vec!["rt_1", "rt_2"]);
    let before = store.duplicate();
    routes::cleanup_expired_routes(&mut store, NOW);
    assert_eq!(store.pending_relay_retires.len(), before.pending_relay_retires.len());
    assert_eq!(store.local_routes.len(), 1);
}

#[test]
fn retirements_are_queued_once() {
    let mut store = MessagingStore::empty();
    routes::queue_relay_retire(&mut store, route(1, "x"));
    routes::queue_relay_retire(&mut store, route(1, "y"));
    assert_eq!(store.pending_relay_retires.len(), 1);
    let mut odd = route(2, "x");
    odd.mailbox_id = "legacy".to_string();
    routes::queue_relay_retire(&mut store, odd);
    assert_eq!(store.pending_relay_retires.len(), 1);
}

#[test]
fn contacts_keep_their_route() {
    let mut store = MessagingStore::empty();
    store.contacts.push(contact("a"));
    let r = routes::ensure_route_for_contact(&mut store, "a", "abc.onion", fresh(1), NOW);
    assert_eq!(r.id, "rt_1");
    assert_eq!(r.scope, "contact:a");
    assert_eq!(store.contacts[0].local_route_id, Some("rt_1".to_string()));
    let again = routes::ensure_route_for_contact(&mut store, "a", "abc.onion", fresh(2), NOW);
    assert_eq!(again.id, "rt_1");
    assert_eq!(again.mailbox_id, r.mailbox_id);
    assert_eq!(again.sealed_sender_cert_private_b64, r.sealed_sender_cert_private_b64);
    assert!(!again.sealed_sender_cert_private_b64.is_empty());
    assert_eq!(store.local_routes.len(), 1);
    let moved = routes::ensure_route_for_contact(&mut store, "a", "other.onion", fresh(3), NOW);
    assert_eq!(moved.id, "rt_3");
    assert_eq!(store.contacts[0].local_route_id, Some("rt_3".to_string()));
    assert_eq!(store.pending_relay_retires.len(), 1);
}

#[test]
fn routes_serve_their_mailbox_while_active() {
    let mut store = MessagingStore::empty();
    store.local_routes.push(route(1, "contact:a"));
    assert_eq!(routes::route_for_mailbox(&store, "mbx_1").unwrap().id, "rt_1");
    assert!(routes::route_for_mailbox(&store, "mbx_2").is_none());
    store.local_routes[0].active = false;
    assert!(routes::route_for_mailbox(&store, "mbx_1").is_none());
}

#[test]
fn sender_routes_are_chosen() {
    let mut store = MessagingStore::empty();
    store.contacts.push(contact("a"));
    let own = routes::ensure_route_for_contact(&mut store, "a", "abc.onion", fresh(1), NOW);
    store.local_routes.push(route(2, "sender:a"));
    store.local_routes.push(route(3, "retiring_invite:a"));
    assert_eq!(routes::sender_route_for_contact(&store, "a", &own).id, "rt_1");
    store.contacts[0].signed_prekey_public_b64 = String::new();
    assert!(!routes::contact_has_reusable_prekey_material(&store.contacts[0]));
    assert_eq!(routes::sender_route_for_contact(&store, "a", &own).id, "rt_2");
    store.local_routes[1].active = false;
    assert_eq!(routes::sender_route_for_contact(&store, "a", &own).id, "rt_3");
    store.local_routes[2].active = false;
    assert_eq!(routes::sender_route_for_contact(&store, "a", &own).id, "rt_1");
    assert!(routes::route_is_retiring_invite(&store.local_routes[2]));
    assert!(!routes::route_is_retiring_invite_for_contact(&store.local_routes[2], "a"));
}

#[test]
fn trust_roots_are_pinned() {
    let mut store = MessagingStore::empty();
    assert_eq!(routes::pin_server_trust_root(&mut store, "s", "root"), Ok(true));
    assert_eq!(routes::pin_server_trust_root(&mut store, "s", "root"), Ok(false));
    assert_eq!(
        routes::pin_server_trust_root(&mut store, "s", "other").err().unwrap(),
        "server trust root changed for this relay; refusing to continue until manually reviewed"
    );
    assert_eq!(
        routes::pin_server_trust_root(&mut store, "t", " ").err().unwrap(),
        "relay trust root was empty"
    );
    assert_eq!(store.server_trust_roots.get("s").unwrap(), "root");
}

#[test]
fn delivery_tokens_rotate_with_overlap() {
    let mut r = route(1, "contact:a");
    r.retired_delivery_tokens = vec!["dt_old".to_string(), "dt_1".to_string()];
    assert_eq!(routes::route_delivery_allowlist(&r), vec!["dt_1", "dt_old"]);
    let announced = routes::allowlist_for_rotation(&mut r, "dt_new", NOW);
    assert_eq!(announced, vec!["dt_new", "dt_1", "dt_old"]);
    assert_eq!(r.pending_token_retirements.len(), 1);
    assert_eq!(r.pending_token_retirements[0].epoch, 1);
    assert_eq!(r.pending_token_retirements[0].retire_after_ms, NOW + WEEK);
    routes::rotate_delivery_token(&mut r, "dt_new".to_string(), NOW);
    assert_eq!(r.delivery_token, "dt_new");
    assert_eq!(r.delivery_token_epoch, 2);
    assert_eq!(routes::route_delivery_allowlist(&r), vec!["dt_new", "dt_old", "dt_1"]);

    let mut acked = r.duplicate();
    assert!(!routes::retire_acknowledged_tokens(&mut acked, Some(1), NOW));
    assert_eq!(routes::route_delivery_allowlist(&acked).len(), 3);
    assert!(routes::retire_acknowledged_tokens(&mut acked, Some(2), NOW));
    assert_eq!(routes::route_delivery_allowlist(&acked), vec!["dt_new"]);
    assert!(routes::prune_expired_token_retirements(&mut r, NOW + WEEK));
    assert_eq!(routes::route_delivery_allowlist(&r), vec!["dt_new"]);
    assert!(!routes::prune_expired_token_retirements(&mut r, NOW + WEEK));
}

#[test]
fn certificate_keys_are_filled_in() {
    let mut r = route(1, "x");
    r.sealed_sender_cert_private_b64 = String::new();
    routes::ensure_route_cert_key(&mut r, RouteKeys::from_raw(&[7], &[8]));
    assert_eq!(r.sealed_sender_cert_public_b64, "Bw");
    assert_eq!(r.sealed_sender_cert_private_b64, "CA");
    routes::ensure_route_cert_key(&mut r, keys());
    assert_eq!(r.sealed_sender_cert_public_b64, "Bw");
}

#[test]
fn profiles_are_made_once() {
    let mut store = MessagingStore::empty();
    let a = routes::ensure_local_profile(&mut store, NOW).unwrap();
    let b = routes::ensure_local_profile(&mut store, NOW + 1).unwrap();
    assert_eq!(a.mailbox_id, b.mailbox_id);
    assert_eq!(b.created_at_ms, NOW);
    let r = routes::legacy_route_from_profile(a, "srv".to_string(), "abc.onion".to_string(), keys());
    assert_eq!(r.id, "legacy_local_profile");
    assert_eq!(r.scope, "legacy");
    assert_eq!(r.server_url, "ws://abc.onion/ws");
    assert_eq!(r.mailbox_id, b.mailbox_id);
}

#[test]
fn connections_are_planned() {
    let mut store = MessagingStore::empty();
    store.contacts.push(contact("a"));
    store.contacts.push(contact("b"));
    let mut idle = route(9, "contact:z");
    idle.active = false;
    store.local_routes.push(idle);
    let plan = connections::plan_connections(&mut store, &vec![fresh(1), fresh(2)], NOW);
    let listening: Vec<&str> = plan.routes.iter().map(|r| r.id.as_str()).collect();
    assert_eq!(listening, vec!["rt_1", "rt_2"]);
    assert_eq!(plan.retires.len(), 1);
    assert_eq!(plan.retires[0].id, "rt_9");
    assert_eq!(store.contacts[1].local_route_id, Some("rt_2".to_string()));
    connections::keep_unconfirmed(&mut store, &plan.retires, &vec![false]);
    assert_eq!(store.pending_relay_retires.len(), 1);
    connections::keep_unconfirmed(&mut store, &plan.retires, &vec![true]);
    assert!(store.pending_relay_retires.is_empty());
    let mut r = route(5, "x");
    assert!(!connections::has_retiring_tokens(&r));
    r.pending_token_retirements.push(RetiredDeliveryToken {
        token: "old".to_string(),
        epoch: 1,
        retire_after_ms: NOW + 1,
    });
    assert!(connections::has_retiring_tokens(&r));
}

#[test]
fn histories_are_bounded() {
    let mut store = MessagingStore::empty();
    for i in 0..10_001u64 {
        store.messages.push(message(&format!("a{i}"), "a", 20_000 - i));
    }
    store.messages.push(message("b", "b", 1));
    messages::prune_old_messages(&mut store);
    assert_eq!(store.messages.len(), 10_001);
    assert_eq!(store.messages[0].id, "a9999");
    assert_eq!(store.messages[9_999].id, "a0");
    assert_eq!(store.messages[10_000].id, "b");
    messages::prune_old_messages(&mut store);
    assert_eq!(store.messages.len(), 10_001);
}

#[test]
fn short_histories_are_untouched() {
    let mut store = MessagingStore::empty();
    store.messages.push(message("2", "a", 2));
    store.messages.push(message("1", "a", 1));
    messages::prune_old_messages(&mut store);
    assert_eq!(store.messages[0].id, "2");
    assert!(messages::is_before(&message("x", "a", 1), &message("y", "a", 2)));
    assert!(messages::is_before(&message("x", "a", 9), &message("y", "b", 2)));
    let mut late = message("x", "a", 1);
    late.received_at_ms = Some(5);
    assert!(messages::is_before(&message("y", "a", 1), &late));
}

#[test]
fn snapshots_show_every_message_in_order() {
    let mut store = MessagingStore::empty();
    store.contacts.push(contact("a"));
    store.messages.push(message("2", "a", 2));
    store.messages.push(message("x", "b", 9));
    store.messages.push(message("1", "a", 1));
    store.local_routes.push(route(1, "contact:a"));
    let s = overview::snapshot(&mut store, NOW);
    assert_eq!(s.my_recipient_id, "mbx_1");
    assert_eq!(s.my_recipient_ids, vec!["mbx_1"]);
    assert_eq!(s.contacts.len(), 1);
    assert_eq!(s.messages.len(), 2);
    assert_eq!(s.messages[0].contact_id, "a");
    let order: Vec<&str> = s.messages[0].messages.iter().map(|m| m.id.as_str()).collect();
    assert_eq!(order, vec!["1", "2"]);
    assert_eq!(s.messages[1].messages[0].id, "x");
    store.local_routes.clear();
    let profile = routes::ensure_local_profile(&mut store, NOW).unwrap();
    let s = overview::snapshot(&mut store, NOW);
    assert_eq!(s.my_recipient_id, profile.mailbox_id);
    assert!(s.my_recipient_ids.is_empty());
    assert_eq!(contacts::session_name("mbx_1", 1), "mbx_1:1");
}
