//! The encrypted payload: writing one, and reading one.
use crate::encoding;
use crate::keys::LocalBundle;
use crate::keys::LocalBundleView;
use crate::payloads::AxenoSignalPlaintext;
use crate::payloads::DecryptedSignalText;
use crate::payloads::DecryptedView;
use crate::payloads::PlaintextView;
use crate::seqs;
use crate::store::KyberPreKeyBlob;
use crate::store::KyberView;
use crate::store::LocalRoute;
use crate::store::RouteView;
use crate::text;
use vstd::prelude::*;

verus! {

/// The one device of an identity.
pub const DEVICE_ID: u32 = 1;

/// The text without white space around it, where that leaves any.
pub open spec fn filled(s: Option<Seq<char>>) -> Option<Seq<char>> {
    match s {
        Some(t) => if text::blank(t) {
            None
        } else {
            Some(text::trimmed(t))
        },
        None => None,
    }
}

/// The number, where it is not zero.
pub open spec fn positive(n: Option<u64>) -> Option<u64> {
    match n {
        Some(k) => if k > 0 {
            Some(k)
        } else {
            None
        },
        None => None,
    }
}

/// The id, where it is not zero.
pub open spec fn positive_id(n: Option<u32>) -> Option<u32> {
    match n {
        Some(k) => if k > 0 {
            Some(k)
        } else {
            None
        },
        None => None,
    }
}

fn fill(s: Option<String>) -> (r: Option<String>)
    ensures
        seqs::opt(r) == filled(seqs::opt(s)),
{
    match s {
        Some(t) => {
            let u = text::trim(t.as_str());
            if u.as_str().is_empty() {
                None
            } else {
                Some(u)
            }
        },
        None => None,
    }
}

fn keep_positive(n: Option<u64>) -> (r: Option<u64>)
    ensures
        r == positive(n),
{
    match n {
        Some(k) => if k > 0 {
            Some(k)
        } else {
            None
        },
        None => None,
    }
}

fn keep_positive_id(n: Option<u32>) -> (r: Option<u32>)
    ensures
        r == positive_id(n),
{
    match n {
        Some(k) => if k > 0 {
            Some(k)
        } else {
            None
        },
        None => None,
    }
}

/// What is encrypted for a contact: the message, the routes by which to answer, and the sender's
/// prekey bundle.
pub open spec fn written(
    kind: Seq<char>,
    body: Seq<char>,
    display_name: Seq<char>,
    message_id: Seq<char>,
    sent_at_ms: u64,
    sender_route: RouteView,
    return_route: RouteView,
    me: LocalBundleView,
    kyber: KyberView,
    acked_epoch: u64,
    acked_mailbox: Option<Seq<char>>,
) -> PlaintextView {
    PlaintextView {
        v: 1,
        kind,
        message_id,
        sent_at_ms,
        body,
        sender_display_name: filled(Some(display_name)),
        sender_mailbox_id: Some(sender_route.mailbox_id),
        sender_delivery_token: Some(sender_route.delivery_token),
        sender_delivery_token_epoch: Some(sender_route.delivery_token_epoch),
        return_mailbox_id: Some(return_route.mailbox_id),
        return_delivery_token: Some(return_route.delivery_token),
        return_delivery_token_epoch: Some(return_route.delivery_token_epoch),
        return_server_url: Some(return_route.server_url),
        acked_peer_delivery_token_epoch: Some(acked_epoch),
        acked_peer_sender_mailbox_id: acked_mailbox,
        sender_server_url: Some(sender_route.server_url),
        sender_device_id: Some(DEVICE_ID),
        sender_identity_public_b64: Some(encoding::b64_text(me.public_key, false)),
        sender_registration_id: Some(me.registration_id as u32),
        sender_signed_prekey_id: Some(me.signed_prekey_id),
        sender_signed_prekey_public_b64: Some(encoding::b64_text(me.signed_prekey_public, false)),
        sender_signed_prekey_signature_b64: Some(
            encoding::b64_text(me.signed_prekey_signature, false),
        ),
        sender_kyber_prekey_id: Some(kyber.id),
        sender_kyber_prekey_public_b64: Some(kyber.public_b64),
        sender_kyber_prekey_signature_b64: Some(kyber.signature_b64),
    }
}

/// Writes what is encrypted for a contact.
pub fn encode_signal_plaintext(
    kind: &str,
    body: &str,
    display_name: &str,
    message_id: &str,
    sent_at_ms: u64,
    sender_route: &LocalRoute,
    return_route: &LocalRoute,
    me: &LocalBundle,
    kyber: &KyberPreKeyBlob,
    acked_epoch: u64,
    acked_mailbox: Option<String>,
) -> (r: AxenoSignalPlaintext)
    ensures
        r@ == written(
            kind@,
            body@,
            display_name@,
            message_id@,
            sent_at_ms,
            sender_route@,
            return_route@,
            me@,
            kyber@,
            acked_epoch,
            seqs::opt(acked_mailbox),
        ),
{
    AxenoSignalPlaintext {
        v: 1,
        kind: kind.to_string(),
        message_id: message_id.to_string(),
        sent_at_ms,
        body: body.to_string(),
        sender_display_name: fill(Some(display_name.to_string())),
        sender_mailbox_id: Some(sender_route.mailbox_id.clone()),
        sender_delivery_token: Some(sender_route.delivery_token.clone()),
        sender_delivery_token_epoch: Some(sender_route.delivery_token_epoch),
        return_mailbox_id: Some(return_route.mailbox_id.clone()),
        return_delivery_token: Some(return_route.delivery_token.clone()),
        return_delivery_token_epoch: Some(return_route.delivery_token_epoch),
        return_server_url: Some(return_route.server_url.clone()),
        acked_peer_delivery_token_epoch: Some(acked_epoch),
        acked_peer_sender_mailbox_id: acked_mailbox,
        sender_server_url: Some(sender_route.server_url.clone()),
        sender_device_id: Some(DEVICE_ID),
        sender_identity_public_b64: Some(encoding::to_b64(me.public_key.as_slice())),
        sender_registration_id: Some(me.registration_id as u32),
        sender_signed_prekey_id: Some(me.signed_prekey_id),
        sender_signed_prekey_public_b64: Some(
            encoding::to_b64(me.signed_prekey_public.as_slice()),
        ),
        sender_signed_prekey_signature_b64: Some(
            encoding::to_b64(me.signed_prekey_signature.as_slice()),
        ),
        sender_kyber_prekey_id: Some(kyber.id),
        sender_kyber_prekey_public_b64: Some(kyber.public_b64.clone()),
        sender_kyber_prekey_signature_b64: Some(kyber.signature_b64.clone()),
    }
}

/// The kind of a payload that is known.
pub open spec fn known_kind(kind: Seq<char>) -> bool {
    kind == "text"@ || kind == "route_sync"@ || kind == "route_sync_ack"@
}

/// What a payload says, or why it is refused.
pub open spec fn read_payload(p: PlaintextView) -> Result<DecryptedView, Seq<char>> {
    if p.v != 1 || !known_kind(p.kind) {
        Err("unsupported encrypted Axeno message payload"@)
    } else {
        Ok(
            DecryptedView {
                kind: p.kind,
                message_id: p.message_id,
                sent_at_ms: p.sent_at_ms,
                body: p.body,
                sender_display_name: filled(p.sender_display_name),
                sender_mailbox_id: filled(p.sender_mailbox_id),
                sender_delivery_token: filled(p.sender_delivery_token),
                sender_delivery_token_epoch: positive(p.sender_delivery_token_epoch),
                return_mailbox_id: filled(p.return_mailbox_id),
                return_delivery_token: filled(p.return_delivery_token),
                return_delivery_token_epoch: positive(p.return_delivery_token_epoch),
                return_server_url: filled(p.return_server_url),
                acked_peer_delivery_token_epoch: positive(p.acked_peer_delivery_token_epoch),
                acked_peer_sender_mailbox_id: filled(p.acked_peer_sender_mailbox_id),
                sender_server_url: filled(p.sender_server_url),
                sender_device_id: p.sender_device_id,
                sender_identity_public_b64: filled(p.sender_identity_public_b64),
                sender_registration_id: positive_id(p.sender_registration_id),
                sender_signed_prekey_id: positive_id(p.sender_signed_prekey_id),
                sender_signed_prekey_public_b64: filled(p.sender_signed_prekey_public_b64),
                sender_signed_prekey_signature_b64: filled(p.sender_signed_prekey_signature_b64),
                sender_kyber_prekey_id: positive_id(p.sender_kyber_prekey_id),
                sender_kyber_prekey_public_b64: filled(p.sender_kyber_prekey_public_b64),
                sender_kyber_prekey_signature_b64: filled(p.sender_kyber_prekey_signature_b64),
            },
        )
    }
}

/// What a payload says that is nothing but a text.
pub open spec fn bare_text(body: Seq<char>, message_id: Seq<char>, now_ms: u64) -> DecryptedView {
    DecryptedView {
        kind: "text"@,
        message_id,
        sent_at_ms: now_ms,
        body,
        sender_display_name: None,
        sender_mailbox_id: None,
        sender_delivery_token: None,
        sender_delivery_token_epoch: None,
        return_mailbox_id: None,
        return_delivery_token: None,
        return_delivery_token_epoch: None,
        return_server_url: None,
        acked_peer_delivery_token_epoch: None,
        acked_peer_sender_mailbox_id: None,
        sender_server_url: None,
        sender_device_id: None,
        sender_identity_public_b64: None,
        sender_registration_id: None,
        sender_signed_prekey_id: None,
        sender_signed_prekey_public_b64: None,
        sender_signed_prekey_signature_b64: None,
        sender_kyber_prekey_id: None,
        sender_kyber_prekey_public_b64: None,
        sender_kyber_prekey_signature_b64: None,
    }
}

/// What decrypted bytes say, given how they read as a payload.
pub open spec fn read_plaintext(
    parsed: Option<PlaintextView>,
    raw: Seq<u8>,
    fallback_id: Seq<char>,
    now_ms: u64,
) -> Result<DecryptedView, Seq<char>> {
    match parsed {
        Some(p) => read_payload(p),
        None => match text::utf8_text(raw) {
            Some(body) => Ok(bare_text(body, fallback_id, now_ms)),
            None => Err("decrypted Signal plaintext was not valid UTF-8"@),
        },
    }
}

/// What decrypted bytes say: they are read as a payload, and as a text where they are none.
pub fn decode_signal_plaintext(
    parsed: Option<AxenoSignalPlaintext>,
    raw: Vec<u8>,
    fallback_id: String,
    now_ms: u64,
) -> (r: Result<DecryptedSignalText, String>)
    ensures
        seqs::outcome(r) == read_plaintext(
            seqs::opt(parsed),
            raw@,
            fallback_id@,
            now_ms,
        ),
{
    if let Some(p) = parsed {
        let known = text::same_text(p.kind.as_str(), "text") || text::same_text(
            p.kind.as_str(),
            "route_sync",
        ) || text::same_text(p.kind.as_str(), "route_sync_ack");
        if p.v != 1 || !known {
            return Err("unsupported encrypted Axeno message payload".to_string());
        }
        return Ok(
            DecryptedSignalText {
                kind: p.kind,
                message_id: p.message_id,
                sent_at_ms: p.sent_at_ms,
                body: p.body,
                sender_display_name: fill(p.sender_display_name),
                sender_mailbox_id: fill(p.sender_mailbox_id),
                sender_delivery_token: fill(p.sender_delivery_token),
                sender_delivery_token_epoch: keep_positive(p.sender_delivery_token_epoch),
                return_mailbox_id: fill(p.return_mailbox_id),
                return_delivery_token: fill(p.return_delivery_token),
                return_delivery_token_epoch: keep_positive(p.return_delivery_token_epoch),
                return_server_url: fill(p.return_server_url),
                acked_peer_delivery_token_epoch: keep_positive(p.acked_peer_delivery_token_epoch),
                acked_peer_sender_mailbox_id: fill(p.acked_peer_sender_mailbox_id),
                sender_server_url: fill(p.sender_server_url),
                sender_device_id: p.sender_device_id,
                sender_identity_public_b64: fill(p.sender_identity_public_b64),
                sender_registration_id: keep_positive_id(p.sender_registration_id),
                sender_signed_prekey_id: keep_positive_id(p.sender_signed_prekey_id),
                sender_signed_prekey_public_b64: fill(p.sender_signed_prekey_public_b64),
                sender_signed_prekey_signature_b64: fill(p.sender_signed_prekey_signature_b64),
                sender_kyber_prekey_id: keep_positive_id(p.sender_kyber_prekey_id),
                sender_kyber_prekey_public_b64: fill(p.sender_kyber_prekey_public_b64),
                sender_kyber_prekey_signature_b64: fill(p.sender_kyber_prekey_signature_b64),
            },
        );
    }
    match text::text_of(raw) {
        Some(body) => Ok(
            DecryptedSignalText {
                kind: "text".to_string(),
                message_id: fallback_id,
                sent_at_ms: now_ms,
                body,
                sender_display_name: None,
                sender_mailbox_id: None,
                sender_delivery_token: None,
                sender_delivery_token_epoch: None,
                return_mailbox_id: None,
                return_delivery_token: None,
                return_delivery_token_epoch: None,
                return_server_url: None,
                acked_peer_delivery_token_epoch: None,
                acked_peer_sender_mailbox_id: None,
                sender_server_url: None,
                sender_device_id: None,
                sender_identity_public_b64: None,
                sender_registration_id: None,
                sender_signed_prekey_id: None,
                sender_signed_prekey_public_b64: None,
                sender_signed_prekey_signature_b64: None,
                sender_kyber_prekey_id: None,
                sender_kyber_prekey_public_b64: None,
                sender_kyber_prekey_signature_b64: None,
            },
        ),
        None => Err("decrypted Signal plaintext was not valid UTF-8".to_string()),
    }
}

/// A name or token that survives trimming as it is.
pub open spec fn tidy(s: Seq<char>) -> bool {
    s.len() > 0 && text::trimmed(s) == s
}

proof fn filled_twice(s: Option<Seq<char>>)
    ensures
        filled(filled(s)) == filled(s),
{
    if let Some(t) = s {
        text::trim_twice(t);
    }
}

proof fn b64_is_filled(data: Seq<u8>)
    requires
        data.len() > 0,
    ensures
        filled(Some(encoding::b64_text(data, false))) == Some(encoding::b64_text(data, false)),
{
    let s = encoding::b64_text(data, false);
    encoding::b64_no_white(data);
    assert(text::trim_start(s) == s);
    assert(text::trim_end(s) == s);
}

/// What one side writes the other side reads: the message as it is, the routes by which to answer,
/// what is acknowledged, and the sender's name and prekey bundle. Names and texts lose white space
/// around them, and numbers that are zero count as none.
pub proof fn payloads_read_back(
    kind: Seq<char>,
    body: Seq<char>,
    display_name: Seq<char>,
    message_id: Seq<char>,
    sent_at_ms: u64,
    sender_route: RouteView,
    return_route: RouteView,
    me: LocalBundleView,
    kyber: KyberView,
    acked_epoch: u64,
    acked_mailbox: Option<Seq<char>>,
)
    requires
        known_kind(kind),
        tidy(sender_route.mailbox_id),
        tidy(sender_route.delivery_token),
        tidy(sender_route.server_url),
        tidy(return_route.mailbox_id),
        tidy(return_route.delivery_token),
        tidy(return_route.server_url),
        me.public_key.len() > 0,
        me.signed_prekey_public.len() > 0,
        me.signed_prekey_signature.len() > 0,
    ensures
        read_payload(
            written(
                kind,
                body,
                display_name,
                message_id,
                sent_at_ms,
                sender_route,
                return_route,
                me,
                kyber,
                acked_epoch,
                acked_mailbox,
            ),
        ) == Ok::<DecryptedView, Seq<char>>(
            DecryptedView {
                kind,
                message_id,
                sent_at_ms,
                body,
                sender_display_name: filled(Some(display_name)),
                sender_mailbox_id: Some(sender_route.mailbox_id),
                sender_delivery_token: Some(sender_route.delivery_token),
                sender_delivery_token_epoch: positive(Some(sender_route.delivery_token_epoch)),
                return_mailbox_id: Some(return_route.mailbox_id),
                return_delivery_token: Some(return_route.delivery_token),
                return_delivery_token_epoch: positive(Some(return_route.delivery_token_epoch)),
                return_server_url: Some(return_route.server_url),
                acked_peer_delivery_token_epoch: positive(Some(acked_epoch)),
                acked_peer_sender_mailbox_id: filled(acked_mailbox),
                sender_server_url: Some(sender_route.server_url),
                sender_device_id: Some(DEVICE_ID),
                sender_identity_public_b64: Some(encoding::b64_text(me.public_key, false)),
                sender_registration_id: positive_id(Some(me.registration_id as u32)),
                sender_signed_prekey_id: positive_id(Some(me.signed_prekey_id)),
                sender_signed_prekey_public_b64: Some(
                    encoding::b64_text(me.signed_prekey_public, false),
                ),
                sender_signed_prekey_signature_b64: Some(
                    encoding::b64_text(me.signed_prekey_signature, false),
                ),
                sender_kyber_prekey_id: positive_id(Some(kyber.id)),
                sender_kyber_prekey_public_b64: filled(Some(kyber.public_b64)),
                sender_kyber_prekey_signature_b64: filled(Some(kyber.signature_b64)),
            },
        ),
{
    filled_twice(Some(display_name));
    b64_is_filled(me.public_key);
    b64_is_filled(me.signed_prekey_public);
    b64_is_filled(me.signed_prekey_signature);
}

} // verus!
