//! The frames that clients and relays exchange.
use crate::seqs;
use crate::seqs::Duplicate;
use crate::text;
use vstd::prelude::*;

verus! {

/// The oldest protocol version that is still spoken.
pub const PROTOCOL_MIN_SUPPORTED: u16 = 4;

/// The current protocol version.
pub const PROTOCOL_VERSION: u16 = 5;

/// An opaque message on its way to a mailbox.
pub struct StoredEnvelope {
    pub id: u128,
    pub to: String,
    pub envelope_type: String,
    pub ciphertext: String,
}

/// An opaque message on its way to a mailbox.
#[verifier::ext_equal]
pub struct EnvelopeView {
    pub id: u128,
    pub to: Seq<char>,
    pub envelope_type: Seq<char>,
    pub ciphertext: Seq<char>,
}

impl View for StoredEnvelope {
    type V = EnvelopeView;

    open spec fn view(&self) -> EnvelopeView {
        EnvelopeView {
            id: self.id,
            to: self.to@,
            envelope_type: self.envelope_type@,
            ciphertext: self.ciphertext@,
        }
    }
}

impl Duplicate for StoredEnvelope {
    fn duplicate(&self) -> (r: Self) {
        StoredEnvelope {
            id: self.id,
            to: self.to.clone(),
            envelope_type: self.envelope_type.clone(),
            ciphertext: self.ciphertext.clone(),
        }
    }
}

/// What a client says to a relay.
pub enum ClientFrame {
    Hello {
        recipient_id: String,
        auth_token: String,
        delivery_token: String,
        protocol_min: Option<u16>,
        protocol_max: Option<u16>,
        protocol_version: Option<u16>,
        pow: Option<String>,
        cert_only: bool,
    },
    SetDeliveryTokens { request_id: String, tokens: Vec<String> },
    IssueSenderCertificate {
        request_id: String,
        sender_uuid: String,
        sender_device_id: u32,
        sender_cert_public_b64: String,
    },
    SendEnvelope {
        client_ref: Option<String>,
        to: String,
        delivery_token: String,
        envelope_type: String,
        ciphertext: String,
    },
    UploadBundle {
        request_id: String,
        bundle_id: String,
        ciphertext: String,
        expires_at_ms: u64,
    },
    FetchBundle { request_id: String, bundle_id: String },
    Ack { ids: Vec<u128> },
    RetireMailbox,
    Ping,
}

/// What a client says to a relay.
pub enum ClientFrameView {
    Hello {
        recipient_id: Seq<char>,
        auth_token: Seq<char>,
        delivery_token: Seq<char>,
        protocol_min: Option<u16>,
        protocol_max: Option<u16>,
        protocol_version: Option<u16>,
        pow: Option<Seq<char>>,
        cert_only: bool,
    },
    SetDeliveryTokens { request_id: Seq<char>, tokens: Seq<Seq<char>> },
    IssueSenderCertificate {
        request_id: Seq<char>,
        sender_uuid: Seq<char>,
        sender_device_id: u32,
        sender_cert_public_b64: Seq<char>,
    },
    SendEnvelope {
        client_ref: Option<Seq<char>>,
        to: Seq<char>,
        delivery_token: Seq<char>,
        envelope_type: Seq<char>,
        ciphertext: Seq<char>,
    },
    UploadBundle {
        request_id: Seq<char>,
        bundle_id: Seq<char>,
        ciphertext: Seq<char>,
        expires_at_ms: u64,
    },
    FetchBundle { request_id: Seq<char>, bundle_id: Seq<char> },
    Ack { ids: Seq<u128> },
    RetireMailbox,
    Ping,
}

impl View for ClientFrame {
    type V = ClientFrameView;

    open spec fn view(&self) -> ClientFrameView {
        match self {
            ClientFrame::Hello {
                recipient_id,
                auth_token,
                delivery_token,
                protocol_min,
                protocol_max,
                protocol_version,
                pow,
                cert_only,
            } => ClientFrameView::Hello {
                recipient_id: recipient_id@,
                auth_token: auth_token@,
                delivery_token: delivery_token@,
                protocol_min: *protocol_min,
                protocol_max: *protocol_max,
                protocol_version: *protocol_version,
                pow: seqs::opt(*pow),
                cert_only: *cert_only,
            },
            ClientFrame::SetDeliveryTokens {
                request_id,
                tokens,
            } => ClientFrameView::SetDeliveryTokens {
                request_id: request_id@,
                tokens: seqs::views(tokens@),
            },
            ClientFrame::IssueSenderCertificate {
                request_id,
                sender_uuid,
                sender_device_id,
                sender_cert_public_b64,
            } => ClientFrameView::IssueSenderCertificate {
                request_id: request_id@,
                sender_uuid: sender_uuid@,
                sender_device_id: *sender_device_id,
                sender_cert_public_b64: sender_cert_public_b64@,
            },
            ClientFrame::SendEnvelope {
                client_ref,
                to,
                delivery_token,
                envelope_type,
                ciphertext,
            } => ClientFrameView::SendEnvelope {
                client_ref: seqs::opt(*client_ref),
                to: to@,
                delivery_token: delivery_token@,
                envelope_type: envelope_type@,
                ciphertext: ciphertext@,
            },
            ClientFrame::UploadBundle {
                request_id,
                bundle_id,
                ciphertext,
                expires_at_ms,
            } => ClientFrameView::UploadBundle {
                request_id: request_id@,
                bundle_id: bundle_id@,
                ciphertext: ciphertext@,
                expires_at_ms: *expires_at_ms,
            },
            ClientFrame::FetchBundle {
                request_id,
                bundle_id,
            } => ClientFrameView::FetchBundle { request_id: request_id@, bundle_id: bundle_id@ },
            ClientFrame::Ack { ids } => ClientFrameView::Ack { ids: ids@ },
            ClientFrame::RetireMailbox => ClientFrameView::RetireMailbox,
            ClientFrame::Ping => ClientFrameView::Ping,
        }
    }
}

/// A greeting from the fields that a client gave: without the flag it is one for receiving.
pub fn hello_from_fields(
    recipient_id: String,
    auth_token: String,
    delivery_token: String,
    protocol_min: Option<u16>,
    protocol_max: Option<u16>,
    protocol_version: Option<u16>,
    pow: Option<String>,
    cert_only: Option<bool>,
) -> (r: ClientFrame)
    ensures
        r@ == (ClientFrameView::Hello {
            recipient_id: recipient_id@,
            auth_token: auth_token@,
            delivery_token: delivery_token@,
            protocol_min,
            protocol_max,
            protocol_version,
            pow: seqs::opt(pow),
            cert_only: cert_only == Some(true),
        }),
{
    ClientFrame::Hello {
        recipient_id,
        auth_token,
        delivery_token,
        protocol_min,
        protocol_max,
        protocol_version,
        pow,
        cert_only: match cert_only {
            Some(flag) => flag,
            None => false,
        },
    }
}

/// What a relay says to a client.
pub enum ServerFrame {
    HelloOk {
        protocol_version: u16,
        min_supported: Option<u16>,
        current_protocol: Option<u16>,
        server_time_ms: u64,
        trust_root_b64: String,
    },
    SenderCertificate {
        request_id: String,
        certificate_b64: String,
        trust_root_b64: String,
        expires_at_ms: u64,
    },
    BundleUploaded { request_id: String, bundle_id: String, expires_at_ms: u64 },
    Bundle { request_id: String, bundle_id: String, ciphertext: String, expires_at_ms: u64 },
    Envelope { envelope: StoredEnvelope },
    SendOk { id: u128, queued: bool, client_ref: Option<String> },
    SendError { client_ref: Option<String>, code: String, message: String },
    DeliveryTokensSet { request_id: String, active_count: usize },
    AckOk { removed: usize },
    Pong { server_time_ms: u64 },
    Error { code: String, message: String },
}

/// What a relay says to a client.
pub enum ServerFrameView {
    HelloOk {
        protocol_version: u16,
        min_supported: Option<u16>,
        current_protocol: Option<u16>,
        server_time_ms: u64,
        trust_root_b64: Seq<char>,
    },
    SenderCertificate {
        request_id: Seq<char>,
        certificate_b64: Seq<char>,
        trust_root_b64: Seq<char>,
        expires_at_ms: u64,
    },
    BundleUploaded { request_id: Seq<char>, bundle_id: Seq<char>, expires_at_ms: u64 },
    Bundle {
        request_id: Seq<char>,
        bundle_id: Seq<char>,
        ciphertext: Seq<char>,
        expires_at_ms: u64,
    },
    Envelope { envelope: EnvelopeView },
    SendOk { id: u128, queued: bool, client_ref: Option<Seq<char>> },
    SendError { client_ref: Option<Seq<char>>, code: Seq<char>, message: Seq<char> },
    DeliveryTokensSet { request_id: Seq<char>, active_count: nat },
    AckOk { removed: nat },
    Pong { server_time_ms: u64 },
    Error { code: Seq<char>, message: Seq<char> },
}

impl View for ServerFrame {
    type V = ServerFrameView;

    open spec fn view(&self) -> ServerFrameView {
        match self {
            ServerFrame::HelloOk {
                protocol_version,
                min_supported,
                current_protocol,
                server_time_ms,
                trust_root_b64,
            } => ServerFrameView::HelloOk {
                protocol_version: *protocol_version,
                min_supported: *min_supported,
                current_protocol: *current_protocol,
                server_time_ms: *server_time_ms,
                trust_root_b64: trust_root_b64@,
            },
            ServerFrame::SenderCertificate {
                request_id,
                certificate_b64,
                trust_root_b64,
                expires_at_ms,
            } => ServerFrameView::SenderCertificate {
                request_id: request_id@,
                certificate_b64: certificate_b64@,
                trust_root_b64: trust_root_b64@,
                expires_at_ms: *expires_at_ms,
            },
            ServerFrame::BundleUploaded {
                request_id,
                bundle_id,
                expires_at_ms,
            } => ServerFrameView::BundleUploaded {
                request_id: request_id@,
                bundle_id: bundle_id@,
                expires_at_ms: *expires_at_ms,
            },
            ServerFrame::Bundle {
                request_id,
                bundle_id,
                ciphertext,
                expires_at_ms,
            } => ServerFrameView::Bundle {
                request_id: request_id@,
                bundle_id: bundle_id@,
                ciphertext: ciphertext@,
                expires_at_ms: *expires_at_ms,
            },
            ServerFrame::Envelope { envelope } => ServerFrameView::Envelope {
                envelope: envelope@,
            },
            ServerFrame::SendOk { id, queued, client_ref } => ServerFrameView::SendOk {
                id: *id,
                queued: *queued,
                client_ref: seqs::opt(*client_ref),
            },
            ServerFrame::SendError { client_ref, code, message } => ServerFrameView::SendError {
                client_ref: seqs::opt(*client_ref),
                code: code@,
                message: message@,
            },
            ServerFrame::DeliveryTokensSet {
                request_id,
                active_count,
            } => ServerFrameView::DeliveryTokensSet {
                request_id: request_id@,
                active_count: *active_count as nat,
            },
            ServerFrame::AckOk { removed } => ServerFrameView::AckOk { removed: *removed as nat },
            ServerFrame::Pong { server_time_ms } => ServerFrameView::Pong {
                server_time_ms: *server_time_ms,
            },
            ServerFrame::Error { code, message } => ServerFrameView::Error {
                code: code@,
                message: message@,
            },
        }
    }
}

/// A refusal.
pub open spec fn refusal(code: Seq<char>, message: Seq<char>) -> ServerFrameView {
    ServerFrameView::Error { code, message }
}

/// A refusal to send.
pub open spec fn send_refusal(
    client_ref: Option<Seq<char>>,
    code: Seq<char>,
    message: Seq<char>,
) -> ServerFrameView {
    ServerFrameView::SendError { client_ref, code, message }
}

/// A refusal.
pub fn err(code: &str, message: &str) -> (r: ServerFrame)
    ensures
        r@ == refusal(code@, message@),
{
    ServerFrame::Error { code: code.to_string(), message: message.to_string() }
}

/// A refusal to send.
pub fn send_err(client_ref: Option<String>, code: &str, message: &str) -> (r: ServerFrame)
    ensures
        r@ == send_refusal(seqs::opt(client_ref), code@, message@),
{
    ServerFrame::SendError { client_ref, code: code.to_string(), message: message.to_string() }
}

/// The answer to a text that is no frame, with the reason.
pub fn unreadable_frame(why: &str) -> (r: ServerFrame)
    ensures
        r@ == refusal("bad_json"@, why@),
{
    err("bad_json", why)
}

/// The code and the message of a refusal in one line.
pub open spec fn refusal_line(code: Seq<char>, message: Seq<char>) -> Seq<char> {
    code + ": "@ + message
}

/// The code and the message of a refusal in one line.
pub fn refusal_text(code: &str, message: &str) -> (r: String)
    ensures
        r@ == refusal_line(code@, message@),
{
    text::concat3(code, ": ", message)
}

} // verus!
