//! What travels inside codes, envelopes and files.
use crate::seqs;
use crate::seqs::Duplicate;
use crate::store::ContactView;
use crate::store::StoredContact;
use vstd::prelude::*;

verus! {

/// What someone needs to write to the maker of a connection code.
pub struct InvitePayload {
    pub v: u16,
    pub protocol: String,
    pub display_name: String,
    pub mailbox_id: String,
    pub delivery_token: String,
    pub server_url: String,
    pub device_id: u32,
    pub identity_public_b64: String,
    pub registration_id: u32,
    pub signed_prekey_id: u32,
    pub signed_prekey_public_b64: String,
    pub signed_prekey_signature_b64: String,
    pub opk_id: Option<u32>,
    pub opk_public_b64: Option<String>,
    pub kyber_prekey_id: Option<u32>,
    pub kyber_prekey_public_b64: Option<String>,
    pub kyber_prekey_signature_b64: Option<String>,
    pub created_at_ms: u64,
}

/// What someone needs to write to the maker of a connection code.
#[verifier::ext_equal]
pub struct InvitePayloadView {
    pub v: u16,
    pub protocol: Seq<char>,
    pub display_name: Seq<char>,
    pub mailbox_id: Seq<char>,
    pub delivery_token: Seq<char>,
    pub server_url: Seq<char>,
    pub device_id: u32,
    pub identity_public_b64: Seq<char>,
    pub registration_id: u32,
    pub signed_prekey_id: u32,
    pub signed_prekey_public_b64: Seq<char>,
    pub signed_prekey_signature_b64: Seq<char>,
    pub opk_id: Option<u32>,
    pub opk_public_b64: Option<Seq<char>>,
    pub kyber_prekey_id: Option<u32>,
    pub kyber_prekey_public_b64: Option<Seq<char>>,
    pub kyber_prekey_signature_b64: Option<Seq<char>>,
    pub created_at_ms: u64,
}

impl View for InvitePayload {
    type V = InvitePayloadView;

    open spec fn view(&self) -> InvitePayloadView {
        InvitePayloadView {
            v: self.v,
            protocol: self.protocol@,
            display_name: self.display_name@,
            mailbox_id: self.mailbox_id@,
            delivery_token: self.delivery_token@,
            server_url: self.server_url@,
            device_id: self.device_id,
            identity_public_b64: self.identity_public_b64@,
            registration_id: self.registration_id,
            signed_prekey_id: self.signed_prekey_id,
            signed_prekey_public_b64: self.signed_prekey_public_b64@,
            signed_prekey_signature_b64: self.signed_prekey_signature_b64@,
            opk_id: self.opk_id,
            opk_public_b64: seqs::opt(self.opk_public_b64),
            kyber_prekey_id: self.kyber_prekey_id,
            kyber_prekey_public_b64: seqs::opt(self.kyber_prekey_public_b64),
            kyber_prekey_signature_b64: seqs::opt(self.kyber_prekey_signature_b64),
            created_at_ms: self.created_at_ms,
        }
    }
}

impl Duplicate for InvitePayload {
    fn duplicate(&self) -> (r: Self) {
        InvitePayload {
            v: self.v,
            protocol: self.protocol.clone(),
            display_name: self.display_name.clone(),
            mailbox_id: self.mailbox_id.clone(),
            delivery_token: self.delivery_token.clone(),
            server_url: self.server_url.clone(),
            device_id: self.device_id,
            identity_public_b64: self.identity_public_b64.clone(),
            registration_id: self.registration_id,
            signed_prekey_id: self.signed_prekey_id,
            signed_prekey_public_b64: self.signed_prekey_public_b64.clone(),
            signed_prekey_signature_b64: self.signed_prekey_signature_b64.clone(),
            opk_id: self.opk_id,
            opk_public_b64: self.opk_public_b64.clone(),
            kyber_prekey_id: self.kyber_prekey_id,
            kyber_prekey_public_b64: self.kyber_prekey_public_b64.clone(),
            kyber_prekey_signature_b64: self.kyber_prekey_signature_b64.clone(),
            created_at_ms: self.created_at_ms,
        }
    }
}

/// What a connection code holds: where its encrypted bundle is hosted, and the key to it.
pub struct HostedInviteCode {
    pub v: u16,
    pub kind: String,
    pub server_url: String,
    pub bundle_id: String,
    pub bundle_key_b64: String,
}

/// What a connection code holds: where its encrypted bundle is hosted, and the key to it.
#[verifier::ext_equal]
pub struct HostedCodeView {
    pub v: u16,
    pub kind: Seq<char>,
    pub server_url: Seq<char>,
    pub bundle_id: Seq<char>,
    pub bundle_key_b64: Seq<char>,
}

impl View for HostedInviteCode {
    type V = HostedCodeView;

    open spec fn view(&self) -> HostedCodeView {
        HostedCodeView {
            v: self.v,
            kind: self.kind@,
            server_url: self.server_url@,
            bundle_id: self.bundle_id@,
            bundle_key_b64: self.bundle_key_b64@,
        }
    }
}

impl Duplicate for HostedInviteCode {
    fn duplicate(&self) -> (r: Self) {
        HostedInviteCode {
            v: self.v,
            kind: self.kind.clone(),
            server_url: self.server_url.clone(),
            bundle_id: self.bundle_id.clone(),
            bundle_key_b64: self.bundle_key_b64.clone(),
        }
    }
}

/// The encrypted bundle of a connection code as the relay hosts it.
pub struct HostedInviteCiphertext {
    pub v: u16,
    pub nonce_b64: String,
    pub ciphertext_b64: String,
}

/// The encrypted bundle of a connection code as the relay hosts it.
#[verifier::ext_equal]
pub struct HostedCiphertextView {
    pub v: u16,
    pub nonce_b64: Seq<char>,
    pub ciphertext_b64: Seq<char>,
}

impl View for HostedInviteCiphertext {
    type V = HostedCiphertextView;

    open spec fn view(&self) -> HostedCiphertextView {
        HostedCiphertextView {
            v: self.v,
            nonce_b64: self.nonce_b64@,
            ciphertext_b64: self.ciphertext_b64@,
        }
    }
}

impl Duplicate for HostedInviteCiphertext {
    fn duplicate(&self) -> (r: Self) {
        HostedInviteCiphertext {
            v: self.v,
            nonce_b64: self.nonce_b64.clone(),
            ciphertext_b64: self.ciphertext_b64.clone(),
        }
    }
}

/// What a verification code says.
pub struct VerificationPayload {
    pub v: u16,
    pub kind: String,
    pub local_identity_public_b64: String,
    pub remote_identity_public_b64: String,
    pub safety_number: String,
    pub created_at_ms: u64,
}

/// What a verification code says.
#[verifier::ext_equal]
pub struct VerificationView {
    pub v: u16,
    pub kind: Seq<char>,
    pub local_identity_public_b64: Seq<char>,
    pub remote_identity_public_b64: Seq<char>,
    pub safety_number: Seq<char>,
    pub created_at_ms: u64,
}

impl View for VerificationPayload {
    type V = VerificationView;

    open spec fn view(&self) -> VerificationView {
        VerificationView {
            v: self.v,
            kind: self.kind@,
            local_identity_public_b64: self.local_identity_public_b64@,
            remote_identity_public_b64: self.remote_identity_public_b64@,
            safety_number: self.safety_number@,
            created_at_ms: self.created_at_ms,
        }
    }
}

impl Duplicate for VerificationPayload {
    fn duplicate(&self) -> (r: Self) {
        VerificationPayload {
            v: self.v,
            kind: self.kind.clone(),
            local_identity_public_b64: self.local_identity_public_b64.clone(),
            remote_identity_public_b64: self.remote_identity_public_b64.clone(),
            safety_number: self.safety_number.clone(),
            created_at_ms: self.created_at_ms,
        }
    }
}

/// What a verification code says, signed with the identity key of its maker.
pub struct SignedVerificationPayload {
    pub payload: VerificationPayload,
    pub signature_b64: String,
}

/// What a verification code says, signed with the identity key of its maker.
#[verifier::ext_equal]
pub struct SignedVerificationView {
    pub payload: VerificationView,
    pub signature_b64: Seq<char>,
}

impl View for SignedVerificationPayload {
    type V = SignedVerificationView;

    open spec fn view(&self) -> SignedVerificationView {
        SignedVerificationView {
            payload: self.payload@,
            signature_b64: self.signature_b64@,
        }
    }
}

impl Duplicate for SignedVerificationPayload {
    fn duplicate(&self) -> (r: Self) {
        SignedVerificationPayload {
            payload: self.payload.duplicate(),
            signature_b64: self.signature_b64.clone(),
        }
    }
}

/// A sealed message in an envelope.
pub struct SealedSignalWireMessage {
    pub v: u16,
    pub sealed_sender_b64: String,
}

/// A sealed message in an envelope.
#[verifier::ext_equal]
pub struct WireView {
    pub v: u16,
    pub sealed_sender_b64: Seq<char>,
}

impl View for SealedSignalWireMessage {
    type V = WireView;

    open spec fn view(&self) -> WireView {
        WireView {
            v: self.v,
            sealed_sender_b64: self.sealed_sender_b64@,
        }
    }
}

impl Duplicate for SealedSignalWireMessage {
    fn duplicate(&self) -> (r: Self) {
        SealedSignalWireMessage {
            v: self.v,
            sealed_sender_b64: self.sealed_sender_b64.clone(),
        }
    }
}

/// The store as it stands on disk.
pub struct EncryptedStoreFile {
    pub version: u16,
    pub nonce: [u8; 12],
    pub ciphertext: Vec<u8>,
}

/// The store as it stands on disk.
#[verifier::ext_equal]
pub struct StoreFileView {
    pub version: u16,
    pub nonce: Seq<u8>,
    pub ciphertext: Seq<u8>,
}

impl View for EncryptedStoreFile {
    type V = StoreFileView;

    open spec fn view(&self) -> StoreFileView {
        StoreFileView {
            version: self.version,
            nonce: self.nonce@,
            ciphertext: self.ciphertext@,
        }
    }
}

impl Duplicate for EncryptedStoreFile {
    fn duplicate(&self) -> (r: Self) {
        EncryptedStoreFile {
            version: self.version,
            nonce: self.nonce,
            ciphertext: self.ciphertext.clone(),
        }
    }
}

/// What is encrypted end to end: a message or a route control, and the sender's profile.
pub struct AxenoSignalPlaintext {
    pub v: u16,
    pub kind: String,
    pub message_id: String,
    pub sent_at_ms: u64,
    pub body: String,
    pub sender_display_name: Option<String>,
    pub sender_mailbox_id: Option<String>,
    pub sender_delivery_token: Option<String>,
    pub sender_delivery_token_epoch: Option<u64>,
    pub return_mailbox_id: Option<String>,
    pub return_delivery_token: Option<String>,
    pub return_delivery_token_epoch: Option<u64>,
    pub return_server_url: Option<String>,
    pub acked_peer_delivery_token_epoch: Option<u64>,
    pub acked_peer_sender_mailbox_id: Option<String>,
    pub sender_server_url: Option<String>,
    pub sender_device_id: Option<u32>,
    pub sender_identity_public_b64: Option<String>,
    pub sender_registration_id: Option<u32>,
    pub sender_signed_prekey_id: Option<u32>,
    pub sender_signed_prekey_public_b64: Option<String>,
    pub sender_signed_prekey_signature_b64: Option<String>,
    pub sender_kyber_prekey_id: Option<u32>,
    pub sender_kyber_prekey_public_b64: Option<String>,
    pub sender_kyber_prekey_signature_b64: Option<String>,
}

/// What is encrypted end to end: a message or a route control, and the sender's profile.
#[verifier::ext_equal]
pub struct PlaintextView {
    pub v: u16,
    pub kind: Seq<char>,
    pub message_id: Seq<char>,
    pub sent_at_ms: u64,
    pub body: Seq<char>,
    pub sender_display_name: Option<Seq<char>>,
    pub sender_mailbox_id: Option<Seq<char>>,
    pub sender_delivery_token: Option<Seq<char>>,
    pub sender_delivery_token_epoch: Option<u64>,
    pub return_mailbox_id: Option<Seq<char>>,
    pub return_delivery_token: Option<Seq<char>>,
    pub return_delivery_token_epoch: Option<u64>,
    pub return_server_url: Option<Seq<char>>,
    pub acked_peer_delivery_token_epoch: Option<u64>,
    pub acked_peer_sender_mailbox_id: Option<Seq<char>>,
    pub sender_server_url: Option<Seq<char>>,
    pub sender_device_id: Option<u32>,
    pub sender_identity_public_b64: Option<Seq<char>>,
    pub sender_registration_id: Option<u32>,
    pub sender_signed_prekey_id: Option<u32>,
    pub sender_signed_prekey_public_b64: Option<Seq<char>>,
    pub sender_signed_prekey_signature_b64: Option<Seq<char>>,
    pub sender_kyber_prekey_id: Option<u32>,
    pub sender_kyber_prekey_public_b64: Option<Seq<char>>,
    pub sender_kyber_prekey_signature_b64: Option<Seq<char>>,
}

impl View for AxenoSignalPlaintext {
    type V = PlaintextView;

    open spec fn view(&self) -> PlaintextView {
        PlaintextView {
            v: self.v,
            kind: self.kind@,
            message_id: self.message_id@,
            sent_at_ms: self.sent_at_ms,
            body: self.body@,
            sender_display_name: seqs::opt(self.sender_display_name),
            sender_mailbox_id: seqs::opt(self.sender_mailbox_id),
            sender_delivery_token: seqs::opt(self.sender_delivery_token),
            sender_delivery_token_epoch: self.sender_delivery_token_epoch,
            return_mailbox_id: seqs::opt(self.return_mailbox_id),
            return_delivery_token: seqs::opt(self.return_delivery_token),
            return_delivery_token_epoch: self.return_delivery_token_epoch,
            return_server_url: seqs::opt(self.return_server_url),
            acked_peer_delivery_token_epoch: self.acked_peer_delivery_token_epoch,
            acked_peer_sender_mailbox_id: seqs::opt(self.acked_peer_sender_mailbox_id),
            sender_server_url: seqs::opt(self.sender_server_url),
            sender_device_id: self.sender_device_id,
            sender_identity_public_b64: seqs::opt(self.sender_identity_public_b64),
            sender_registration_id: self.sender_registration_id,
            sender_signed_prekey_id: self.sender_signed_prekey_id,
            sender_signed_prekey_public_b64: seqs::opt(self.sender_signed_prekey_public_b64),
            sender_signed_prekey_signature_b64: seqs::opt(self.sender_signed_prekey_signature_b64),
            sender_kyber_prekey_id: self.sender_kyber_prekey_id,
            sender_kyber_prekey_public_b64: seqs::opt(self.sender_kyber_prekey_public_b64),
            sender_kyber_prekey_signature_b64: seqs::opt(self.sender_kyber_prekey_signature_b64),
        }
    }
}

impl Duplicate for AxenoSignalPlaintext {
    fn duplicate(&self) -> (r: Self) {
        AxenoSignalPlaintext {
            v: self.v,
            kind: self.kind.clone(),
            message_id: self.message_id.clone(),
            sent_at_ms: self.sent_at_ms,
            body: self.body.clone(),
            sender_display_name: self.sender_display_name.clone(),
            sender_mailbox_id: self.sender_mailbox_id.clone(),
            sender_delivery_token: self.sender_delivery_token.clone(),
            sender_delivery_token_epoch: self.sender_delivery_token_epoch,
            return_mailbox_id: self.return_mailbox_id.clone(),
            return_delivery_token: self.return_delivery_token.clone(),
            return_delivery_token_epoch: self.return_delivery_token_epoch,
            return_server_url: self.return_server_url.clone(),
            acked_peer_delivery_token_epoch: self.acked_peer_delivery_token_epoch,
            acked_peer_sender_mailbox_id: self.acked_peer_sender_mailbox_id.clone(),
            sender_server_url: self.sender_server_url.clone(),
            sender_device_id: self.sender_device_id,
            sender_identity_public_b64: self.sender_identity_public_b64.clone(),
            sender_registration_id: self.sender_registration_id,
            sender_signed_prekey_id: self.sender_signed_prekey_id,
            sender_signed_prekey_public_b64: self.sender_signed_prekey_public_b64.clone(),
            sender_signed_prekey_signature_b64: self.sender_signed_prekey_signature_b64.clone(),
            sender_kyber_prekey_id: self.sender_kyber_prekey_id,
            sender_kyber_prekey_public_b64: self.sender_kyber_prekey_public_b64.clone(),
            sender_kyber_prekey_signature_b64: self.sender_kyber_prekey_signature_b64.clone(),
        }
    }
}

/// What an encrypted message said, once it was found acceptable.
pub struct DecryptedSignalText {
    pub kind: String,
    pub message_id: String,
    pub sent_at_ms: u64,
    pub body: String,
    pub sender_display_name: Option<String>,
    pub sender_mailbox_id: Option<String>,
    pub sender_delivery_token: Option<String>,
    pub sender_delivery_token_epoch: Option<u64>,
    pub return_mailbox_id: Option<String>,
    pub return_delivery_token: Option<String>,
    pub return_delivery_token_epoch: Option<u64>,
    pub return_server_url: Option<String>,
    pub acked_peer_delivery_token_epoch: Option<u64>,
    pub acked_peer_sender_mailbox_id: Option<String>,
    pub sender_server_url: Option<String>,
    pub sender_device_id: Option<u32>,
    pub sender_identity_public_b64: Option<String>,
    pub sender_registration_id: Option<u32>,
    pub sender_signed_prekey_id: Option<u32>,
    pub sender_signed_prekey_public_b64: Option<String>,
    pub sender_signed_prekey_signature_b64: Option<String>,
    pub sender_kyber_prekey_id: Option<u32>,
    pub sender_kyber_prekey_public_b64: Option<String>,
    pub sender_kyber_prekey_signature_b64: Option<String>,
}

/// What an encrypted message said, once it was found acceptable.
#[verifier::ext_equal]
pub struct DecryptedView {
    pub kind: Seq<char>,
    pub message_id: Seq<char>,
    pub sent_at_ms: u64,
    pub body: Seq<char>,
    pub sender_display_name: Option<Seq<char>>,
    pub sender_mailbox_id: Option<Seq<char>>,
    pub sender_delivery_token: Option<Seq<char>>,
    pub sender_delivery_token_epoch: Option<u64>,
    pub return_mailbox_id: Option<Seq<char>>,
    pub return_delivery_token: Option<Seq<char>>,
    pub return_delivery_token_epoch: Option<u64>,
    pub return_server_url: Option<Seq<char>>,
    pub acked_peer_delivery_token_epoch: Option<u64>,
    pub acked_peer_sender_mailbox_id: Option<Seq<char>>,
    pub sender_server_url: Option<Seq<char>>,
    pub sender_device_id: Option<u32>,
    pub sender_identity_public_b64: Option<Seq<char>>,
    pub sender_registration_id: Option<u32>,
    pub sender_signed_prekey_id: Option<u32>,
    pub sender_signed_prekey_public_b64: Option<Seq<char>>,
    pub sender_signed_prekey_signature_b64: Option<Seq<char>>,
    pub sender_kyber_prekey_id: Option<u32>,
    pub sender_kyber_prekey_public_b64: Option<Seq<char>>,
    pub sender_kyber_prekey_signature_b64: Option<Seq<char>>,
}

impl View for DecryptedSignalText {
    type V = DecryptedView;

    open spec fn view(&self) -> DecryptedView {
        DecryptedView {
            kind: self.kind@,
            message_id: self.message_id@,
            sent_at_ms: self.sent_at_ms,
            body: self.body@,
            sender_display_name: seqs::opt(self.sender_display_name),
            sender_mailbox_id: seqs::opt(self.sender_mailbox_id),
            sender_delivery_token: seqs::opt(self.sender_delivery_token),
            sender_delivery_token_epoch: self.sender_delivery_token_epoch,
            return_mailbox_id: seqs::opt(self.return_mailbox_id),
            return_delivery_token: seqs::opt(self.return_delivery_token),
            return_delivery_token_epoch: self.return_delivery_token_epoch,
            return_server_url: seqs::opt(self.return_server_url),
            acked_peer_delivery_token_epoch: self.acked_peer_delivery_token_epoch,
            acked_peer_sender_mailbox_id: seqs::opt(self.acked_peer_sender_mailbox_id),
            sender_server_url: seqs::opt(self.sender_server_url),
            sender_device_id: self.sender_device_id,
            sender_identity_public_b64: seqs::opt(self.sender_identity_public_b64),
            sender_registration_id: self.sender_registration_id,
            sender_signed_prekey_id: self.sender_signed_prekey_id,
            sender_signed_prekey_public_b64: seqs::opt(self.sender_signed_prekey_public_b64),
            sender_signed_prekey_signature_b64: seqs::opt(self.sender_signed_prekey_signature_b64),
            sender_kyber_prekey_id: self.sender_kyber_prekey_id,
            sender_kyber_prekey_public_b64: seqs::opt(self.sender_kyber_prekey_public_b64),
            sender_kyber_prekey_signature_b64: seqs::opt(self.sender_kyber_prekey_signature_b64),
        }
    }
}

impl Duplicate for DecryptedSignalText {
    fn duplicate(&self) -> (r: Self) {
        DecryptedSignalText {
            kind: self.kind.clone(),
            message_id: self.message_id.clone(),
            sent_at_ms: self.sent_at_ms,
            body: self.body.clone(),
            sender_display_name: self.sender_display_name.clone(),
            sender_mailbox_id: self.sender_mailbox_id.clone(),
            sender_delivery_token: self.sender_delivery_token.clone(),
            sender_delivery_token_epoch: self.sender_delivery_token_epoch,
            return_mailbox_id: self.return_mailbox_id.clone(),
            return_delivery_token: self.return_delivery_token.clone(),
            return_delivery_token_epoch: self.return_delivery_token_epoch,
            return_server_url: self.return_server_url.clone(),
            acked_peer_delivery_token_epoch: self.acked_peer_delivery_token_epoch,
            acked_peer_sender_mailbox_id: self.acked_peer_sender_mailbox_id.clone(),
            sender_server_url: self.sender_server_url.clone(),
            sender_device_id: self.sender_device_id,
            sender_identity_public_b64: self.sender_identity_public_b64.clone(),
            sender_registration_id: self.sender_registration_id,
            sender_signed_prekey_id: self.sender_signed_prekey_id,
            sender_signed_prekey_public_b64: self.sender_signed_prekey_public_b64.clone(),
            sender_signed_prekey_signature_b64: self.sender_signed_prekey_signature_b64.clone(),
            sender_kyber_prekey_id: self.sender_kyber_prekey_id,
            sender_kyber_prekey_public_b64: self.sender_kyber_prekey_public_b64.clone(),
            sender_kyber_prekey_signature_b64: self.sender_kyber_prekey_signature_b64.clone(),
        }
    }
}

/// A message that only its recipient can read.
pub struct EncryptedForRelay {
    pub sealed_sender: Vec<u8>,
}

/// A message that only its recipient can read.
#[verifier::ext_equal]
pub struct EncryptedView {
    pub sealed_sender: Seq<u8>,
}

impl View for EncryptedForRelay {
    type V = EncryptedView;

    open spec fn view(&self) -> EncryptedView {
        EncryptedView {
            sealed_sender: self.sealed_sender@,
        }
    }
}

impl Duplicate for EncryptedForRelay {
    fn duplicate(&self) -> (r: Self) {
        EncryptedForRelay {
            sealed_sender: self.sealed_sender.clone(),
        }
    }
}

/// A message that came in, whom it is from, and which one-time prekeys it used up.
pub struct DecryptedEnvelope {
    pub contact: StoredContact,
    pub message: DecryptedSignalText,
    pub consumed_opk_ids: Vec<u32>,
}

/// A message that came in, whom it is from, and which one-time prekeys it used up.
#[verifier::ext_equal]
pub struct DecryptedEnvelopeView {
    pub contact: ContactView,
    pub message: DecryptedView,
    pub consumed_opk_ids: Seq<u32>,
}

impl View for DecryptedEnvelope {
    type V = DecryptedEnvelopeView;

    open spec fn view(&self) -> DecryptedEnvelopeView {
        DecryptedEnvelopeView {
            contact: self.contact@,
            message: self.message@,
            consumed_opk_ids: self.consumed_opk_ids@,
        }
    }
}

impl Duplicate for DecryptedEnvelope {
    fn duplicate(&self) -> (r: Self) {
        DecryptedEnvelope {
            contact: self.contact.duplicate(),
            message: self.message.duplicate(),
            consumed_opk_ids: self.consumed_opk_ids.clone(),
        }
    }
}

} // verus!
