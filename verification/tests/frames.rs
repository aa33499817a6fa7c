use axeno::frames;
use axeno::frames::ClientFrame;
use axeno::frames::ServerFrame;
use serde_json::Value;

fn text_field(v: &Value, name: &str) -> String {
    v[name].as_str().unwrap().to_string()
}

fn small(v: &Value, name: &str) -> Option<u16> {
    v[name].as_u64().map(|n| n as u16)
}

fn parse_hello(json: &str) -> ClientFrame {
    let v = serde_json::from_str::<Value>(json).unwrap();
    assert_eq!(v["type"], "hello");
    frames::hello_from_fields(
        text_field(&v, "recipient_id"),
        text_field(&v, "auth_token"),
        text_field(&v, "delivery_token"),
        small(&v, "protocol_min"),
        small(&v, "protocol_max"),
        small(&v, "protocol_version"),
        v["pow"].as_str().map(|s| s.to_string()),
        v["cert_only"].as_bool(),
    )
}

#[test]
fn hello_defaults_to_live_receive_socket() {
    let frame = parse_hello(
        r#"{
            "type":"hello",
            "recipient_id":"mbx_receiver_1234567890",
            "auth_token":"auth_token_123456",
            "delivery_token":"delivery_token_123456"
        }"#,
    );

    match frame {
        ClientFrame::Hello { cert_only, .. } => assert!(!cert_only),
        _ => panic!("expected hello frame"),
    }
}

#[test]
fn hello_can_be_certificate_only() {
    let frame = parse_hello(
        r#"{
            "type":"hello",
            "recipient_id":"mbx_receiver_1234567890",
            "auth_token":"auth_token_123456",
            "delivery_token":"delivery_token_123456",
            "cert_only":true
        }"#,
    );

    match frame {
        ClientFrame::Hello { cert_only, .. } => assert!(cert_only),
        _ => panic!("expected hello frame"),
    }
}

#[test]
fn hello_keeps_its_fields() {
    let frame = parse_hello(
        r#"{
            "type":"hello",
            "recipient_id":"mbx_receiver_1234567890",
            "auth_token":"auth_token_123456",
            "delivery_token":"delivery_token_123456",
            "protocol_min":4,
            "protocol_max":5,
            "pow":"1:2",
            "cert_only":false
        }"#,
    );
    match frame {
        ClientFrame::Hello {
            recipient_id,
            auth_token,
            delivery_token,
            protocol_min,
            protocol_max,
            protocol_version,
            pow,
            cert_only,
        } => {
            assert_eq!(recipient_id, "mbx_receiver_1234567890");
            assert_eq!(auth_token, "auth_token_123456");
            assert_eq!(delivery_token, "delivery_token_123456");
            assert_eq!(protocol_min, Some(4));
            assert_eq!(protocol_max, Some(5));
            assert_eq!(protocol_version, None);
            assert_eq!(pow, Some("1:2".to_string()));
            assert!(!cert_only);
        }
        _ => panic!("expected hello frame"),
    }
}

#[test]
fn refusals_name_code_and_message() {
    assert!(matches!(
        frames::err("bad_json", "what"),
        ServerFrame::Error { code, message } if code == "bad_json" && message == "what"
    ));
    assert!(matches!(
        frames::send_err(Some("r".to_string()), "bad_send", "no"),
        ServerFrame::SendError { client_ref, code, message }
            if client_ref == Some("r".to_string()) && code == "bad_send" && message == "no"
    ));
    assert_eq!(frames::refusal_text("relay_full", "later"), "relay_full: later");
}
