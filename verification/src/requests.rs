//! Requests to relays: what is checked before one is sent, and how an answer is read.
use crate::events::AckView;
use crate::events::CertificateView;
use crate::events::SendEnvelopeAck;
use crate::events::SenderCertificateResponse;
use crate::frames;
use crate::frames::ClientFrame;
use crate::frames::ClientFrameView;
use crate::frames::ServerFrame;
use crate::frames::ServerFrameView;
use crate::ids;
use crate::seqs;
use crate::text;
use crate::urls;
use vstd::prelude::*;

verus! {

/// The longest envelope type, in bytes.
pub const MAX_ENVELOPE_TYPE_BYTES: usize = 32;

/// The largest ciphertext in an envelope, in bytes.
pub const MAX_CIPHERTEXT_BYTES: usize = 524_288;

/// The largest hosted bundle, in bytes.
pub const MAX_INVITE_BUNDLE_BYTES: usize = 16_384;

/// The longest certificate key, in bytes.
pub const MAX_CERTIFICATE_KEY_BYTES: usize = 64;

/// The largest device id.
pub const MAX_DEVICE_ID: u32 = 127;

// ---------------------------------------------------------------------------------------------
// Checks.
// ---------------------------------------------------------------------------------------------

/// The first verdict where it is a refusal, and else the second.
pub open spec fn both(a: Result<(), Seq<char>>, b: Result<(), Seq<char>>) -> Result<(), Seq<char>> {
    match a {
        Err(e) => Err(e),
        Ok(_) => b,
    }
}

/// What the check of a mailbox and its tokens at a relay says.
pub open spec fn checked_mailbox(
    url: Seq<char>,
    recipient_id: Seq<char>,
    auth_token: Seq<char>,
    delivery_token: Seq<char>,
) -> Result<(), Seq<char>> {
    both(
        urls::checked_ws_url(url),
        both(
            ids::checked_recipient(recipient_id),
            both(
                ids::checked_token(auth_token, "auth token"@),
                ids::checked_token(delivery_token, "delivery token"@),
            ),
        ),
    )
}

/// Checks a mailbox and its tokens before a relay is connected.
pub fn check_mailbox(url: &str, recipient_id: &str, auth_token: &str, delivery_token: &str)
    -> (r: Result<(), String>)
    ensures
        seqs::verdict(r) == checked_mailbox(url@, recipient_id@, auth_token@, delivery_token@),
{
    match urls::validate_ws_url(url) {
        Err(e) => {
            return Err(e);
        },
        Ok(_) => {},
    }
    match ids::validate_recipient_id(recipient_id) {
        Err(e) => {
            return Err(e);
        },
        Ok(_) => {},
    }
    match ids::validate_token(auth_token, "auth token") {
        Err(e) => {
            return Err(e);
        },
        Ok(_) => {},
    }
    ids::validate_token(delivery_token, "delivery token")
}

/// What the check of the sizes of an envelope says.
pub open spec fn checked_sizes(envelope_type: Seq<char>, ciphertext: Seq<char>) -> Result<
    (),
    Seq<char>,
> {
    if text::byte_len(envelope_type) > MAX_ENVELOPE_TYPE_BYTES {
        Err("envelope_type is too long"@)
    } else if text::byte_len(ciphertext) > MAX_CIPHERTEXT_BYTES {
        Err("ciphertext exceeds 512 KiB frame limit"@)
    } else {
        Ok(())
    }
}

/// What the check of an envelope says.
pub open spec fn checked_envelope(
    to: Seq<char>,
    delivery_token: Seq<char>,
    envelope_type: Seq<char>,
    ciphertext: Seq<char>,
) -> Result<(), Seq<char>> {
    both(
        ids::checked_recipient(to),
        both(
            ids::checked_token(delivery_token, "delivery token"@),
            checked_sizes(envelope_type, ciphertext),
        ),
    )
}

/// Checks an envelope before it is sent on an open connection.
pub fn check_envelope(to: &str, delivery_token: &str, envelope_type: &str, ciphertext: &str)
    -> (r: Result<(), String>)
    ensures
        seqs::verdict(r) == checked_envelope(
            to@,
            delivery_token@,
            envelope_type@,
            ciphertext@,
        ),
{
    match ids::validate_recipient_id(to) {
        Err(e) => {
            return Err(e);
        },
        Ok(_) => {},
    }
    match ids::validate_token(delivery_token, "delivery token") {
        Err(e) => {
            return Err(e);
        },
        Ok(_) => {},
    }
    if text::len_in_bytes(envelope_type) > MAX_ENVELOPE_TYPE_BYTES {
        return Err("envelope_type is too long".to_string());
    }
    if text::len_in_bytes(ciphertext) > MAX_CIPHERTEXT_BYTES {
        return Err("ciphertext exceeds 512 KiB frame limit".to_string());
    }
    Ok(())
}

/// Checks an envelope before it is sent on a connection of its own.
pub fn check_single_envelope(
    url: &str,
    to: &str,
    delivery_token: &str,
    envelope_type: &str,
    ciphertext: &str,
) -> (r: Result<(), String>)
    ensures
        seqs::verdict(r) == both(
            urls::checked_ws_url(url@),
            checked_envelope(to@, delivery_token@, envelope_type@, ciphertext@),
        ),
{
    match urls::validate_ws_url(url) {
        Err(e) => Err(e),
        Ok(_) => check_envelope(to, delivery_token, envelope_type, ciphertext),
    }
}

/// What the check of delivery tokens says: there must be one, and each must have the shape.
pub open spec fn checked_tokens(tokens: Seq<Seq<char>>) -> Result<(), Seq<char>> {
    if tokens.len() == 0 {
        Err("delivery-token allowlist may not be empty"@)
    } else if exists|i: int|
        0 <= i < tokens.len() && !(#[trigger] ids::token_shape(tokens[i], 16)) {
        Err("delivery token"@ + " must be 16-128 URL-safe characters"@)
    } else {
        Ok(())
    }
}

/// Checks delivery tokens before a relay is told of them.
pub fn check_delivery_tokens(tokens: &Vec<String>) -> (r: Result<(), String>)
    ensures
        seqs::verdict(r) == checked_tokens(seqs::views(tokens@)),
{
    if tokens.len() == 0 {
        return Err("delivery-token allowlist may not be empty".to_string());
    }
    let ghost all = seqs::views(tokens@);
    let mut i: usize = 0;
    while i < tokens.len()
        invariant
            i <= tokens@.len(),
            tokens@.len() > 0,
            all == seqs::views(tokens@),
            forall|j: int| 0 <= j < i ==> #[trigger] ids::token_shape(all[j], 16),
        decreases tokens@.len() - i,
    {
        match ids::validate_token(tokens[i].as_str(), "delivery token") {
            Err(e) => {
                proof {
                    assert(!ids::token_shape(all[i as int], 16));
                }
                return Err(e);
            },
            Ok(_) => {},
        }
        i = i + 1;
    }
    Ok(())
}

/// What the check of a certificate request says.
pub open spec fn checked_certificate(device_id: u32, key_b64: Seq<char>) -> Result<
    (),
    Seq<char>,
> {
    if device_id == 0 || device_id > MAX_DEVICE_ID {
        Err("invalid sender device id"@)
    } else if text::byte_len(key_b64) > MAX_CERTIFICATE_KEY_BYTES {
        Err("sender certificate public key is too large"@)
    } else {
        Ok(())
    }
}

fn check_certificate(device_id: u32, key_b64: &str) -> (r: Result<(), String>)
    ensures
        seqs::verdict(r) == checked_certificate(device_id, key_b64@),
{
    if device_id == 0 || device_id > MAX_DEVICE_ID {
        return Err("invalid sender device id".to_string());
    }
    if text::len_in_bytes(key_b64) > MAX_CERTIFICATE_KEY_BYTES {
        return Err("sender certificate public key is too large".to_string());
    }
    Ok(())
}

/// Checks a certificate request before it is sent on an open connection.
pub fn check_certificate_request(sender_uuid: &str, device_id: u32, key_b64: &str) -> (r: Result<
    (),
    String,
>)
    ensures
        seqs::verdict(r) == both(
            ids::checked_recipient(sender_uuid@),
            checked_certificate(device_id, key_b64@),
        ),
{
    match ids::validate_recipient_id(sender_uuid) {
        Err(e) => Err(e),
        Ok(_) => check_certificate(device_id, key_b64),
    }
}

/// Checks a certificate request before it is sent on a connection of its own.
pub fn check_single_certificate_request(
    url: &str,
    sender_uuid: &str,
    auth_token: &str,
    delivery_token: &str,
    device_id: u32,
    key_b64: &str,
) -> (r: Result<(), String>)
    ensures
        seqs::verdict(r) == both(
            checked_mailbox(url@, sender_uuid@, auth_token@, delivery_token@),
            checked_certificate(device_id, key_b64@),
        ),
{
    match check_mailbox(url, sender_uuid, auth_token, delivery_token) {
        Err(e) => Err(e),
        Ok(_) => check_certificate(device_id, key_b64),
    }
}

/// What the check of a bundle's handle at a relay says.
pub open spec fn checked_handle(url: Seq<char>, bundle_id: Seq<char>) -> Result<(), Seq<char>> {
    both(urls::checked_ws_url(url), ids::checked_bundle(bundle_id))
}

/// Checks a bundle's handle before the bundle is fetched.
pub fn check_fetch(url: &str, bundle_id: &str) -> (r: Result<(), String>)
    ensures
        seqs::verdict(r) == checked_handle(url@, bundle_id@),
{
    match urls::validate_ws_url(url) {
        Err(e) => Err(e),
        Ok(_) => ids::validate_bundle_id(bundle_id),
    }
}

/// What the check of a bundle before its upload says.
pub open spec fn checked_upload(url: Seq<char>, bundle_id: Seq<char>, ciphertext: Seq<char>)
    -> Result<(), Seq<char>> {
    both(
        checked_handle(url, bundle_id),
        if text::byte_len(ciphertext) > MAX_INVITE_BUNDLE_BYTES {
            Err("invite bundle exceeds relay limit"@)
        } else {
            Ok(())
        },
    )
}

/// Checks a bundle before it is uploaded.
pub fn check_upload(url: &str, bundle_id: &str, ciphertext: &str) -> (r: Result<(), String>)
    ensures
        seqs::verdict(r) == checked_upload(url@, bundle_id@, ciphertext@),
{
    match check_fetch(url, bundle_id) {
        Err(e) => {
            return Err(e);
        },
        Ok(_) => {},
    }
    if text::len_in_bytes(ciphertext) > MAX_INVITE_BUNDLE_BYTES {
        return Err("invite bundle exceeds relay limit".to_string());
    }
    Ok(())
}

// ---------------------------------------------------------------------------------------------
// Greeting a relay.
// ---------------------------------------------------------------------------------------------

/// The greeting with which a client shows that a mailbox is its own.
pub open spec fn hello(
    recipient_id: Seq<char>,
    auth_token: Seq<char>,
    delivery_token: Seq<char>,
    pow: Seq<char>,
) -> ClientFrameView {
    ClientFrameView::Hello {
        recipient_id,
        auth_token,
        delivery_token,
        protocol_min: Some(frames::PROTOCOL_MIN_SUPPORTED),
        protocol_max: Some(frames::PROTOCOL_VERSION),
        protocol_version: None,
        pow: Some(pow),
        cert_only: false,
    }
}

/// The greeting with which a client shows that a mailbox is its own.
pub fn hello_frame(recipient_id: String, auth_token: String, delivery_token: String, pow: String)
    -> (r: ClientFrame)
    ensures
        r@ == hello(recipient_id@, auth_token@, delivery_token@, pow@),
{
    ClientFrame::Hello {
        recipient_id,
        auth_token,
        delivery_token,
        protocol_min: Some(frames::PROTOCOL_MIN_SUPPORTED),
        protocol_max: Some(frames::PROTOCOL_VERSION),
        protocol_version: None,
        pow: Some(pow),
        cert_only: false,
    }
}

// ---------------------------------------------------------------------------------------------
// Asking.
// ---------------------------------------------------------------------------------------------

/// The frame that is written where the check before it allows it.
pub open spec fn asked(check: Result<(), Seq<char>>, frame: ClientFrameView) -> Result<
    ClientFrameView,
    Seq<char>,
> {
    match check {
        Ok(_) => Ok(frame),
        Err(e) => Err(e),
    }
}

/// The reference of an envelope: the given one, or a fresh one.
pub fn reference_or_fresh(client_ref: Option<String>) -> (r: String)
    ensures
        match client_ref {
            Some(given) => r@ == given@,
            None => ids::is_id_text(r@),
        },
{
    match client_ref {
        Some(given) => given,
        None => ids::fresh_id(),
    }
}

/// The frame that carries an envelope.
pub open spec fn envelope_asked(
    client_ref: Seq<char>,
    to: Seq<char>,
    delivery_token: Seq<char>,
    envelope_type: Seq<char>,
    ciphertext: Seq<char>,
) -> ClientFrameView {
    ClientFrameView::SendEnvelope {
        client_ref: Some(client_ref),
        to,
        delivery_token,
        envelope_type,
        ciphertext,
    }
}

/// The one frame that an envelope is on an open connection.
pub fn ask_to_send(
    to: String,
    delivery_token: String,
    envelope_type: String,
    ciphertext: String,
    client_ref: String,
) -> (r: Result<ClientFrame, String>)
    ensures
        seqs::outcome(r) == asked(
            checked_envelope(to@, delivery_token@, envelope_type@, ciphertext@),
            envelope_asked(client_ref@, to@, delivery_token@, envelope_type@, ciphertext@),
        ),
{
    match check_envelope(
        to.as_str(),
        delivery_token.as_str(),
        envelope_type.as_str(),
        ciphertext.as_str(),
    ) {
        Err(e) => Err(e),
        Ok(_) => Ok(
            ClientFrame::SendEnvelope {
                client_ref: Some(client_ref),
                to,
                delivery_token,
                envelope_type,
                ciphertext,
            },
        ),
    }
}

/// The one frame that an envelope is on a connection of its own, which greets nobody.
pub fn ask_to_send_once(
    url: &str,
    to: String,
    delivery_token: String,
    envelope_type: String,
    ciphertext: String,
    client_ref: String,
) -> (r: Result<ClientFrame, String>)
    ensures
        seqs::outcome(r) == asked(
            both(
                urls::checked_ws_url(url@),
                checked_envelope(to@, delivery_token@, envelope_type@, ciphertext@),
            ),
            envelope_asked(client_ref@, to@, delivery_token@, envelope_type@, ciphertext@),
        ),
{
    match check_single_envelope(
        url,
        to.as_str(),
        delivery_token.as_str(),
        envelope_type.as_str(),
        ciphertext.as_str(),
    ) {
        Err(e) => Err(e),
        Ok(_) => ask_to_send(to, delivery_token, envelope_type, ciphertext, client_ref),
    }
}

/// The frame that sets the delivery tokens of a mailbox.
pub fn ask_for_tokens(request_id: String, tokens: Vec<String>) -> (r: Result<ClientFrame, String>)
    ensures
        seqs::outcome(r) == asked(
            checked_tokens(seqs::views(tokens@)),
            (ClientFrameView::SetDeliveryTokens {
                request_id: request_id@,
                tokens: seqs::views(tokens@),
            }),
        ),
{
    match check_delivery_tokens(&tokens) {
        Err(e) => Err(e),
        Ok(_) => Ok(ClientFrame::SetDeliveryTokens { request_id, tokens }),
    }
}

/// The frame that asks for a sender certificate.
pub fn ask_for_certificate(
    request_id: String,
    sender_uuid: String,
    sender_device_id: u32,
    sender_cert_public_b64: String,
) -> (r: Result<ClientFrame, String>)
    ensures
        seqs::outcome(r) == asked(
            both(
                ids::checked_recipient(sender_uuid@),
                checked_certificate(sender_device_id, sender_cert_public_b64@),
            ),
            (ClientFrameView::IssueSenderCertificate {
                request_id: request_id@,
                sender_uuid: sender_uuid@,
                sender_device_id,
                sender_cert_public_b64: sender_cert_public_b64@,
            }),
        ),
{
    match check_certificate_request(
        sender_uuid.as_str(),
        sender_device_id,
        sender_cert_public_b64.as_str(),
    ) {
        Err(e) => Err(e),
        Ok(_) => Ok(
            ClientFrame::IssueSenderCertificate {
                request_id,
                sender_uuid,
                sender_device_id,
                sender_cert_public_b64,
            },
        ),
    }
}

/// The frame that hosts a bundle.
pub fn ask_to_host(
    url: &str,
    request_id: String,
    bundle_id: String,
    ciphertext: String,
    expires_at_ms: u64,
) -> (r: Result<ClientFrame, String>)
    ensures
        seqs::outcome(r) == asked(
            checked_upload(url@, bundle_id@, ciphertext@),
            (ClientFrameView::UploadBundle {
                request_id: request_id@,
                bundle_id: bundle_id@,
                ciphertext: ciphertext@,
                expires_at_ms,
            }),
        ),
{
    match check_upload(url, bundle_id.as_str(), ciphertext.as_str()) {
        Err(e) => Err(e),
        Ok(_) => Ok(ClientFrame::UploadBundle { request_id, bundle_id, ciphertext, expires_at_ms }),
    }
}

/// The frame that fetches a bundle.
pub fn ask_for_bundle(url: &str, request_id: String, bundle_id: String) -> (r: Result<
    ClientFrame,
    String,
>)
    ensures
        seqs::outcome(r) == asked(
            checked_handle(url@, bundle_id@),
            (ClientFrameView::FetchBundle { request_id: request_id@, bundle_id: bundle_id@ }),
        ),
{
    match check_fetch(url, bundle_id.as_str()) {
        Err(e) => Err(e),
        Ok(_) => Ok(ClientFrame::FetchBundle { request_id, bundle_id }),
    }
}

// ---------------------------------------------------------------------------------------------
// Reading answers.
// ---------------------------------------------------------------------------------------------

/// What the answer to an envelope says.
pub open spec fn send_answer(f: ServerFrameView, client_ref: Seq<char>) -> Result<
    AckView,
    Seq<char>,
> {
    match f {
        ServerFrameView::SendOk { id, queued, client_ref: got } => if got != Some(client_ref) {
            Err("relay send acknowledgement did not match request"@)
        } else {
            Ok(AckView { id, queued, client_ref: got })
        },
        ServerFrameView::SendError { client_ref: _, code, message } => Err(
            frames::refusal_line(code, message),
        ),
        ServerFrameView::Error { code, message } => Err(frames::refusal_line(code, message)),
        _ => Err("unexpected relay response to send"@),
    }
}

/// Reads the answer to an envelope.
pub fn read_send_answer(frame: ServerFrame, client_ref: &str) -> (r: Result<
    SendEnvelopeAck,
    String,
>)
    ensures
        seqs::outcome(r) == send_answer(frame@, client_ref@),
{
    match frame {
        ServerFrame::SendOk { id, queued, client_ref: got } => {
            let fits = match &got {
                Some(g) => text::same_text(g.as_str(), client_ref),
                None => false,
            };
            if !fits {
                return Err("relay send acknowledgement did not match request".to_string());
            }
            Ok(SendEnvelopeAck { id, queued, client_ref: got })
        },
        ServerFrame::SendError { client_ref: _, code, message } => Err(
            frames::refusal_text(code.as_str(), message.as_str()),
        ),
        ServerFrame::Error { code, message } => Err(
            frames::refusal_text(code.as_str(), message.as_str()),
        ),
        _ => Err("unexpected relay response to send".to_string()),
    }
}

/// What the answer to a greeting says.
pub open spec fn hello_answer(f: ServerFrameView, unexpected: Seq<char>) -> Result<
    (),
    Seq<char>,
> {
    match f {
        ServerFrameView::HelloOk { .. } => Ok(()),
        ServerFrameView::Error { code, message } => Err(frames::refusal_line(code, message)),
        _ => Err(unexpected),
    }
}

/// Reads the answer to a greeting.
pub fn read_hello_answer(frame: &ServerFrame, unexpected: &str) -> (r: Result<(), String>)
    ensures
        seqs::verdict(r) == hello_answer(frame@, unexpected@),
{
    match frame {
        ServerFrame::HelloOk { .. } => Ok(()),
        ServerFrame::Error { code, message } => Err(
            frames::refusal_text(code.as_str(), message.as_str()),
        ),
        _ => Err(unexpected.to_string()),
    }
}

/// What the answer to a certificate request says.
pub open spec fn certificate_answer(f: ServerFrameView, request_id: Seq<char>) -> Result<
    CertificateView,
    Seq<char>,
> {
    match f {
        ServerFrameView::SenderCertificate {
            request_id: got,
            certificate_b64,
            trust_root_b64,
            expires_at_ms,
        } => if got == request_id {
            Ok(CertificateView { certificate_b64, trust_root_b64, expires_at_ms })
        } else {
            Err("unexpected relay response to sender-certificate request"@)
        },
        ServerFrameView::Error { code, message } => Err(frames::refusal_line(code, message)),
        _ => Err("unexpected relay response to sender-certificate request"@),
    }
}

/// Reads the answer to a certificate request.
pub fn read_certificate_answer(frame: ServerFrame, request_id: &str) -> (r: Result<
    SenderCertificateResponse,
    String,
>)
    ensures
        seqs::outcome(r) == certificate_answer(frame@, request_id@),
{
    match frame {
        ServerFrame::SenderCertificate {
            request_id: got,
            certificate_b64,
            trust_root_b64,
            expires_at_ms,
        } => if text::same_text(got.as_str(), request_id) {
            Ok(SenderCertificateResponse { certificate_b64, trust_root_b64, expires_at_ms })
        } else {
            Err("unexpected relay response to sender-certificate request".to_string())
        },
        ServerFrame::Error { code, message } => Err(
            frames::refusal_text(code.as_str(), message.as_str()),
        ),
        _ => Err("unexpected relay response to sender-certificate request".to_string()),
    }
}

/// What the answer to an upload says.
pub open spec fn upload_answer(f: ServerFrameView, request_id: Seq<char>, bundle_id: Seq<char>)
    -> Result<(), Seq<char>> {
    match f {
        ServerFrameView::BundleUploaded { request_id: got, bundle_id: hosted, .. } => if got
            == request_id && hosted == bundle_id {
            Ok(())
        } else {
            Err("unexpected relay response to invite bundle upload"@)
        },
        ServerFrameView::Error { code, message } => Err(frames::refusal_line(code, message)),
        _ => Err("unexpected relay response to invite bundle upload"@),
    }
}

/// Reads the answer to an upload.
pub fn read_upload_answer(frame: &ServerFrame, request_id: &str, bundle_id: &str) -> (r: Result<
    (),
    String,
>)
    ensures
        seqs::verdict(r) == upload_answer(frame@, request_id@, bundle_id@),
{
    match frame {
        ServerFrame::BundleUploaded { request_id: got, bundle_id: hosted, .. } => {
            if text::same_text(got.as_str(), request_id) && text::same_text(
                hosted.as_str(),
                bundle_id,
            ) {
                Ok(())
            } else {
                Err("unexpected relay response to invite bundle upload".to_string())
            }
        },
        ServerFrame::Error { code, message } => Err(
            frames::refusal_text(code.as_str(), message.as_str()),
        ),
        _ => Err("unexpected relay response to invite bundle upload".to_string()),
    }
}

/// What the answer to a fetch says: the hosted ciphertext.
pub open spec fn fetch_answer(f: ServerFrameView, request_id: Seq<char>, bundle_id: Seq<char>)
    -> Result<Seq<char>, Seq<char>> {
    match f {
        ServerFrameView::Bundle { request_id: got, bundle_id: hosted, ciphertext, .. } => if got
            == request_id && hosted == bundle_id {
            Ok(ciphertext)
        } else {
            Err("unexpected relay response to invite bundle fetch"@)
        },
        ServerFrameView::Error { code, message } => Err(frames::refusal_line(code, message)),
        _ => Err("unexpected relay response to invite bundle fetch"@),
    }
}

/// Reads the answer to a fetch.
pub fn read_fetch_answer(frame: ServerFrame, request_id: &str, bundle_id: &str) -> (r: Result<
    String,
    String,
>)
    ensures
        seqs::outcome(r) == fetch_answer(frame@, request_id@, bundle_id@),
{
    match frame {
        ServerFrame::Bundle { request_id: got, bundle_id: hosted, ciphertext, .. } => {
            if text::same_text(got.as_str(), request_id) && text::same_text(
                hosted.as_str(),
                bundle_id,
            ) {
                Ok(ciphertext)
            } else {
                Err("unexpected relay response to invite bundle fetch".to_string())
            }
        },
        ServerFrame::Error { code, message } => Err(
            frames::refusal_text(code.as_str(), message.as_str()),
        ),
        _ => Err("unexpected relay response to invite bundle fetch".to_string()),
    }
}

/// What the answer to a mailbox's retirement says.
pub open spec fn retire_answer(f: ServerFrameView) -> Result<(), Seq<char>> {
    match f {
        ServerFrameView::AckOk { .. } => Ok(()),
        ServerFrameView::Error { code, message } => Err(frames::refusal_line(code, message)),
        _ => Err("unexpected relay response to mailbox-retire"@),
    }
}

/// Reads the answer to a mailbox's retirement.
pub fn read_retire_answer(frame: &ServerFrame) -> (r: Result<(), String>)
    ensures
        seqs::verdict(r) == retire_answer(frame@),
{
    match frame {
        ServerFrame::AckOk { .. } => Ok(()),
        ServerFrame::Error { code, message } => Err(
            frames::refusal_text(code.as_str(), message.as_str()),
        ),
        _ => Err("unexpected relay response to mailbox-retire".to_string()),
    }
}

} // verus!
