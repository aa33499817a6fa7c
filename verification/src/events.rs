//! What the transport tells: events for the user interface, and answers of relays.
use crate::frames::EnvelopeView;
use crate::frames::StoredEnvelope;
use crate::seqs;
use crate::seqs::Duplicate;
use vstd::prelude::*;

verus! {

/// The state of a connection.
pub struct TransportStatusEvent {
    pub server_id: String,
    pub status: String,
    pub reason: Option<String>,
}

/// The state of a connection.
#[verifier::ext_equal]
pub struct StatusView {
    pub server_id: Seq<char>,
    pub status: Seq<char>,
    pub reason: Option<Seq<char>>,
}

impl View for TransportStatusEvent {
    type V = StatusView;

    open spec fn view(&self) -> StatusView {
        StatusView {
            server_id: self.server_id@,
            status: self.status@,
            reason: seqs::opt(self.reason),
        }
    }
}

impl Duplicate for TransportStatusEvent {
    fn duplicate(&self) -> (r: Self) {
        TransportStatusEvent {
            server_id: self.server_id.clone(),
            status: self.status.clone(),
            reason: self.reason.clone(),
        }
    }
}

/// An envelope that came in on a connection.
pub struct IncomingEnvelopeEvent {
    pub server_id: String,
    pub envelope: StoredEnvelope,
}

/// An envelope that came in on a connection.
#[verifier::ext_equal]
pub struct IncomingEnvelopeView {
    pub server_id: Seq<char>,
    pub envelope: EnvelopeView,
}

impl View for IncomingEnvelopeEvent {
    type V = IncomingEnvelopeView;

    open spec fn view(&self) -> IncomingEnvelopeView {
        IncomingEnvelopeView {
            server_id: self.server_id@,
            envelope: self.envelope@,
        }
    }
}

impl Duplicate for IncomingEnvelopeEvent {
    fn duplicate(&self) -> (r: Self) {
        IncomingEnvelopeEvent {
            server_id: self.server_id.clone(),
            envelope: self.envelope.duplicate(),
        }
    }
}

/// A relay took an envelope.
pub struct SendReceipt {
    pub server_id: String,
    pub id: u128,
    pub queued: bool,
    pub client_ref: Option<String>,
}

/// A relay took an envelope.
#[verifier::ext_equal]
pub struct ReceiptView {
    pub server_id: Seq<char>,
    pub id: u128,
    pub queued: bool,
    pub client_ref: Option<Seq<char>>,
}

impl View for SendReceipt {
    type V = ReceiptView;

    open spec fn view(&self) -> ReceiptView {
        ReceiptView {
            server_id: self.server_id@,
            id: self.id,
            queued: self.queued,
            client_ref: seqs::opt(self.client_ref),
        }
    }
}

impl Duplicate for SendReceipt {
    fn duplicate(&self) -> (r: Self) {
        SendReceipt {
            server_id: self.server_id.clone(),
            id: self.id,
            queued: self.queued,
            client_ref: self.client_ref.clone(),
        }
    }
}

/// An envelope could not be sent, or was refused.
pub struct SendFailure {
    pub server_id: String,
    pub client_ref: Option<String>,
    pub code: String,
    pub message: String,
}

/// An envelope could not be sent, or was refused.
#[verifier::ext_equal]
pub struct FailureView {
    pub server_id: Seq<char>,
    pub client_ref: Option<Seq<char>>,
    pub code: Seq<char>,
    pub message: Seq<char>,
}

impl View for SendFailure {
    type V = FailureView;

    open spec fn view(&self) -> FailureView {
        FailureView {
            server_id: self.server_id@,
            client_ref: seqs::opt(self.client_ref),
            code: self.code@,
            message: self.message@,
        }
    }
}

impl Duplicate for SendFailure {
    fn duplicate(&self) -> (r: Self) {
        SendFailure {
            server_id: self.server_id.clone(),
            client_ref: self.client_ref.clone(),
            code: self.code.clone(),
            message: self.message.clone(),
        }
    }
}

/// A sender certificate, and the root that vouches for it.
pub struct SenderCertificateResponse {
    pub certificate_b64: String,
    pub trust_root_b64: String,
    pub expires_at_ms: u64,
}

/// A sender certificate, and the root that vouches for it.
#[verifier::ext_equal]
pub struct CertificateView {
    pub certificate_b64: Seq<char>,
    pub trust_root_b64: Seq<char>,
    pub expires_at_ms: u64,
}

impl View for SenderCertificateResponse {
    type V = CertificateView;

    open spec fn view(&self) -> CertificateView {
        CertificateView {
            certificate_b64: self.certificate_b64@,
            trust_root_b64: self.trust_root_b64@,
            expires_at_ms: self.expires_at_ms,
        }
    }
}

impl Duplicate for SenderCertificateResponse {
    fn duplicate(&self) -> (r: Self) {
        SenderCertificateResponse {
            certificate_b64: self.certificate_b64.clone(),
            trust_root_b64: self.trust_root_b64.clone(),
            expires_at_ms: self.expires_at_ms,
        }
    }
}

/// The answer of a relay that took an envelope.
pub struct SendEnvelopeAck {
    pub id: u128,
    pub queued: bool,
    pub client_ref: Option<String>,
}

/// The answer of a relay that took an envelope.
#[verifier::ext_equal]
pub struct AckView {
    pub id: u128,
    pub queued: bool,
    pub client_ref: Option<Seq<char>>,
}

impl View for SendEnvelopeAck {
    type V = AckView;

    open spec fn view(&self) -> AckView {
        AckView {
            id: self.id,
            queued: self.queued,
            client_ref: seqs::opt(self.client_ref),
        }
    }
}

impl Duplicate for SendEnvelopeAck {
    fn duplicate(&self) -> (r: Self) {
        SendEnvelopeAck {
            id: self.id,
            queued: self.queued,
            client_ref: self.client_ref.clone(),
        }
    }
}

} // verus!
