//! The local store of the client: contacts, messages, routes, invites, sessions and keys.
use crate::seqs;
use crate::seqs::Duplicate;
use crate::strmap::StringMap;
use vstd::prelude::*;

verus! {

/// Someone to write to.
pub struct StoredContact {
    pub id: String,
    /// The name learned from a connection code or an encrypted profile.
    pub display_name: Option<String>,
    /// The mailbox at the relay. It is random and is never shown as an identity.
    pub recipient_id: String,
    pub server_url: String,
    pub server_id: String,
    pub identity_public_b64: String,
    pub registration_id: u32,
    pub device_id: u32,
    pub signed_prekey_id: u32,
    pub signed_prekey_public_b64: String,
    pub signed_prekey_signature_b64: String,
    pub opk_id: Option<u32>,
    pub opk_public_b64: Option<String>,
    pub kyber_prekey_id: Option<u32>,
    pub kyber_prekey_public_b64: Option<String>,
    pub kyber_prekey_signature_b64: Option<String>,
    pub delivery_token: String,
    pub delivery_token_epoch: u64,
    pub safety_number: String,
    pub trust_state: String,
    pub verified_at_ms: Option<u64>,
    pub local_route_id: Option<String>,
    pub peer_sender_mailbox_id: Option<String>,
    pub created_at_ms: u64,
    pub last_read_at: Option<u64>,
}

/// Someone to write to.
#[verifier::ext_equal]
pub struct ContactView {
    pub id: Seq<char>,
    pub display_name: Option<Seq<char>>,
    pub recipient_id: Seq<char>,
    pub server_url: Seq<char>,
    pub server_id: Seq<char>,
    pub identity_public_b64: Seq<char>,
    pub registration_id: u32,
    pub device_id: u32,
    pub signed_prekey_id: u32,
    pub signed_prekey_public_b64: Seq<char>,
    pub signed_prekey_signature_b64: Seq<char>,
    pub opk_id: Option<u32>,
    pub opk_public_b64: Option<Seq<char>>,
    pub kyber_prekey_id: Option<u32>,
    pub kyber_prekey_public_b64: Option<Seq<char>>,
    pub kyber_prekey_signature_b64: Option<Seq<char>>,
    pub delivery_token: Seq<char>,
    pub delivery_token_epoch: u64,
    pub safety_number: Seq<char>,
    pub trust_state: Seq<char>,
    pub verified_at_ms: Option<u64>,
    pub local_route_id: Option<Seq<char>>,
    pub peer_sender_mailbox_id: Option<Seq<char>>,
    pub created_at_ms: u64,
    pub last_read_at: Option<u64>,
}

impl View for StoredContact {
    type V = ContactView;

    open spec fn view(&self) -> ContactView {
        ContactView {
            id: self.id@,
            display_name: seqs::opt(self.display_name),
            recipient_id: self.recipient_id@,
            server_url: self.server_url@,
            server_id: self.server_id@,
            identity_public_b64: self.identity_public_b64@,
            registration_id: self.registration_id,
            device_id: self.device_id,
            signed_prekey_id: self.signed_prekey_id,
            signed_prekey_public_b64: self.signed_prekey_public_b64@,
            signed_prekey_signature_b64: self.signed_prekey_signature_b64@,
            opk_id: self.opk_id,
            opk_public_b64: seqs::opt(self.opk_public_b64),
            kyber_prekey_id: self.kyber_prekey_id,
            kyber_prekey_public_b64: seqs::opt(self.kyber_prekey_public_b64),
            kyber_prekey_signature_b64: seqs::opt(self.kyber_prekey_signature_b64),
            delivery_token: self.delivery_token@,
            delivery_token_epoch: self.delivery_token_epoch,
            safety_number: self.safety_number@,
            trust_state: self.trust_state@,
            verified_at_ms: self.verified_at_ms,
            local_route_id: seqs::opt(self.local_route_id),
            peer_sender_mailbox_id: seqs::opt(self.peer_sender_mailbox_id),
            created_at_ms: self.created_at_ms,
            last_read_at: self.last_read_at,
        }
    }
}

impl Duplicate for StoredContact {
    fn duplicate(&self) -> (r: Self) {
        StoredContact {
            id: self.id.clone(),
            display_name: self.display_name.clone(),
            recipient_id: self.recipient_id.clone(),
            server_url: self.server_url.clone(),
            server_id: self.server_id.clone(),
            identity_public_b64: self.identity_public_b64.clone(),
            registration_id: self.registration_id,
            device_id: self.device_id,
            signed_prekey_id: self.signed_prekey_id,
            signed_prekey_public_b64: self.signed_prekey_public_b64.clone(),
            signed_prekey_signature_b64: self.signed_prekey_signature_b64.clone(),
            opk_id: self.opk_id,
            opk_public_b64: self.opk_public_b64.clone(),
            kyber_prekey_id: self.kyber_prekey_id,
            kyber_prekey_public_b64: self.kyber_prekey_public_b64.clone(),
            kyber_prekey_signature_b64: self.kyber_prekey_signature_b64.clone(),
            delivery_token: self.delivery_token.clone(),
            delivery_token_epoch: self.delivery_token_epoch,
            safety_number: self.safety_number.clone(),
            trust_state: self.trust_state.clone(),
            verified_at_ms: self.verified_at_ms,
            local_route_id: self.local_route_id.clone(),
            peer_sender_mailbox_id: self.peer_sender_mailbox_id.clone(),
            created_at_ms: self.created_at_ms,
            last_read_at: self.last_read_at,
        }
    }
}

/// A message of a conversation.
pub struct StoredMessage {
    pub id: String,
    pub contact_id: String,
    pub mine: bool,
    pub text: String,
    pub timestamp: u64,
    pub received_at_ms: Option<u64>,
    pub status: String,
}

/// A message of a conversation.
#[verifier::ext_equal]
pub struct MessageView {
    pub id: Seq<char>,
    pub contact_id: Seq<char>,
    pub mine: bool,
    pub text: Seq<char>,
    pub timestamp: u64,
    pub received_at_ms: Option<u64>,
    pub status: Seq<char>,
}

impl View for StoredMessage {
    type V = MessageView;

    open spec fn view(&self) -> MessageView {
        MessageView {
            id: self.id@,
            contact_id: self.contact_id@,
            mine: self.mine,
            text: self.text@,
            timestamp: self.timestamp,
            received_at_ms: self.received_at_ms,
            status: self.status@,
        }
    }
}

impl Duplicate for StoredMessage {
    fn duplicate(&self) -> (r: Self) {
        StoredMessage {
            id: self.id.clone(),
            contact_id: self.contact_id.clone(),
            mine: self.mine,
            text: self.text.clone(),
            timestamp: self.timestamp,
            received_at_ms: self.received_at_ms,
            status: self.status.clone(),
        }
    }
}

/// A relay of one's own.
pub struct PrivateServerSetting {
    pub id: String,
    pub name: String,
    pub onion: String,
}

/// A relay of one's own.
#[verifier::ext_equal]
pub struct ServerSettingView {
    pub id: Seq<char>,
    pub name: Seq<char>,
    pub onion: Seq<char>,
}

impl View for PrivateServerSetting {
    type V = ServerSettingView;

    open spec fn view(&self) -> ServerSettingView {
        ServerSettingView {
            id: self.id@,
            name: self.name@,
            onion: self.onion@,
        }
    }
}

impl Duplicate for PrivateServerSetting {
    fn duplicate(&self) -> (r: Self) {
        PrivateServerSetting {
            id: self.id.clone(),
            name: self.name.clone(),
            onion: self.onion.clone(),
        }
    }
}

/// The relays of one's own and which of them is the default.
pub struct PrivateServerSettings {
    pub private_servers: Vec<PrivateServerSetting>,
    pub default_server_url: Option<String>,
}

/// The relays of one's own and which of them is the default.
#[verifier::ext_equal]
pub struct ServerSettingsView {
    pub private_servers: Seq<ServerSettingView>,
    pub default_server_url: Option<Seq<char>>,
}

impl View for PrivateServerSettings {
    type V = ServerSettingsView;

    open spec fn view(&self) -> ServerSettingsView {
        ServerSettingsView {
            private_servers: seqs::views(self.private_servers@),
            default_server_url: seqs::opt(self.default_server_url),
        }
    }
}

impl Duplicate for PrivateServerSettings {
    fn duplicate(&self) -> (r: Self) {
        PrivateServerSettings {
            private_servers: seqs::duplicate_vec(&self.private_servers),
            default_server_url: self.default_server_url.clone(),
        }
    }
}

/// The one mailbox that early profiles had for everybody.
pub struct LocalProfile {
    pub mailbox_id: String,
    pub receive_auth_token: String,
    pub delivery_token: String,
    pub created_at_ms: u64,
}

/// The one mailbox that early profiles had for everybody.
#[verifier::ext_equal]
pub struct ProfileView {
    pub mailbox_id: Seq<char>,
    pub receive_auth_token: Seq<char>,
    pub delivery_token: Seq<char>,
    pub created_at_ms: u64,
}

impl View for LocalProfile {
    type V = ProfileView;

    open spec fn view(&self) -> ProfileView {
        ProfileView {
            mailbox_id: self.mailbox_id@,
            receive_auth_token: self.receive_auth_token@,
            delivery_token: self.delivery_token@,
            created_at_ms: self.created_at_ms,
        }
    }
}

impl Duplicate for LocalProfile {
    fn duplicate(&self) -> (r: Self) {
        LocalProfile {
            mailbox_id: self.mailbox_id.clone(),
            receive_auth_token: self.receive_auth_token.clone(),
            delivery_token: self.delivery_token.clone(),
            created_at_ms: self.created_at_ms,
        }
    }
}

/// A delivery token that is still accepted for a while.
pub struct RetiredDeliveryToken {
    pub token: String,
    pub epoch: u64,
    pub retire_after_ms: u64,
}

/// A delivery token that is still accepted for a while.
#[verifier::ext_equal]
pub struct RetiredTokenView {
    pub token: Seq<char>,
    pub epoch: u64,
    pub retire_after_ms: u64,
}

impl View for RetiredDeliveryToken {
    type V = RetiredTokenView;

    open spec fn view(&self) -> RetiredTokenView {
        RetiredTokenView {
            token: self.token@,
            epoch: self.epoch,
            retire_after_ms: self.retire_after_ms,
        }
    }
}

impl Duplicate for RetiredDeliveryToken {
    fn duplicate(&self) -> (r: Self) {
        RetiredDeliveryToken {
            token: self.token.clone(),
            epoch: self.epoch,
            retire_after_ms: self.retire_after_ms,
        }
    }
}

/// A mailbox of one's own at a relay.
pub struct LocalRoute {
    pub id: String,
    pub mailbox_id: String,
    pub receive_auth_token: String,
    pub delivery_token: String,
    pub delivery_token_epoch: u64,
    pub retired_delivery_tokens: Vec<String>,
    pub pending_token_retirements: Vec<RetiredDeliveryToken>,
    pub server_url: String,
    pub server_id: String,
    /// The public key that the relay certifies for this route. It is not the identity key and
    /// differs from route to route.
    pub sealed_sender_cert_public_b64: String,
    /// The private half of that key. It never leaves the encrypted store.
    pub sealed_sender_cert_private_b64: String,
    pub scope: String,
    pub replacement_route_id: Option<String>,
    pub active: bool,
    pub created_at_ms: u64,
    pub expires_at_ms: Option<u64>,
}

/// A mailbox of one's own at a relay.
#[verifier::ext_equal]
pub struct RouteView {
    pub id: Seq<char>,
    pub mailbox_id: Seq<char>,
    pub receive_auth_token: Seq<char>,
    pub delivery_token: Seq<char>,
    pub delivery_token_epoch: u64,
    pub retired_delivery_tokens: Seq<Seq<char>>,
    pub pending_token_retirements: Seq<RetiredTokenView>,
    pub server_url: Seq<char>,
    pub server_id: Seq<char>,
    pub sealed_sender_cert_public_b64: Seq<char>,
    pub sealed_sender_cert_private_b64: Seq<char>,
    pub scope: Seq<char>,
    pub replacement_route_id: Option<Seq<char>>,
    pub active: bool,
    pub created_at_ms: u64,
    pub expires_at_ms: Option<u64>,
}

impl View for LocalRoute {
    type V = RouteView;

    open spec fn view(&self) -> RouteView {
        RouteView {
            id: self.id@,
            mailbox_id: self.mailbox_id@,
            receive_auth_token: self.receive_auth_token@,
            delivery_token: self.delivery_token@,
            delivery_token_epoch: self.delivery_token_epoch,
            retired_delivery_tokens: seqs::views(self.retired_delivery_tokens@),
            pending_token_retirements: seqs::views(self.pending_token_retirements@),
            server_url: self.server_url@,
            server_id: self.server_id@,
            sealed_sender_cert_public_b64: self.sealed_sender_cert_public_b64@,
            sealed_sender_cert_private_b64: self.sealed_sender_cert_private_b64@,
            scope: self.scope@,
            replacement_route_id: seqs::opt(self.replacement_route_id),
            active: self.active,
            created_at_ms: self.created_at_ms,
            expires_at_ms: self.expires_at_ms,
        }
    }
}

impl Duplicate for LocalRoute {
    fn duplicate(&self) -> (r: Self) {
        LocalRoute {
            id: self.id.clone(),
            mailbox_id: self.mailbox_id.clone(),
            receive_auth_token: self.receive_auth_token.clone(),
            delivery_token: self.delivery_token.clone(),
            delivery_token_epoch: self.delivery_token_epoch,
            retired_delivery_tokens: seqs::duplicate_vec(&self.retired_delivery_tokens),
            pending_token_retirements: seqs::duplicate_vec(&self.pending_token_retirements),
            server_url: self.server_url.clone(),
            server_id: self.server_id.clone(),
            sealed_sender_cert_public_b64: self.sealed_sender_cert_public_b64.clone(),
            sealed_sender_cert_private_b64: self.sealed_sender_cert_private_b64.clone(),
            scope: self.scope.clone(),
            replacement_route_id: self.replacement_route_id.clone(),
            active: self.active,
            created_at_ms: self.created_at_ms,
            expires_at_ms: self.expires_at_ms,
        }
    }
}

/// The serialized ratchet session with a device.
pub struct SignalSessionBlob {
    pub address_name: String,
    pub device_id: u32,
    pub session_b64: String,
    pub remote_identity_b64: String,
    pub created_at_ms: u64,
    pub updated_at_ms: u64,
}

/// The serialized ratchet session with a device.
#[verifier::ext_equal]
pub struct SessionView {
    pub address_name: Seq<char>,
    pub device_id: u32,
    pub session_b64: Seq<char>,
    pub remote_identity_b64: Seq<char>,
    pub created_at_ms: u64,
    pub updated_at_ms: u64,
}

impl View for SignalSessionBlob {
    type V = SessionView;

    open spec fn view(&self) -> SessionView {
        SessionView {
            address_name: self.address_name@,
            device_id: self.device_id,
            session_b64: self.session_b64@,
            remote_identity_b64: self.remote_identity_b64@,
            created_at_ms: self.created_at_ms,
            updated_at_ms: self.updated_at_ms,
        }
    }
}

impl Duplicate for SignalSessionBlob {
    fn duplicate(&self) -> (r: Self) {
        SignalSessionBlob {
            address_name: self.address_name.clone(),
            device_id: self.device_id,
            session_b64: self.session_b64.clone(),
            remote_identity_b64: self.remote_identity_b64.clone(),
            created_at_ms: self.created_at_ms,
            updated_at_ms: self.updated_at_ms,
        }
    }
}

/// A post-quantum prekey of one's own.
pub struct KyberPreKeyBlob {
    pub id: u32,
    pub public_b64: String,
    pub signature_b64: String,
    pub record_b64: String,
    pub created_at_ms: u64,
}

/// A post-quantum prekey of one's own.
#[verifier::ext_equal]
pub struct KyberView {
    pub id: u32,
    pub public_b64: Seq<char>,
    pub signature_b64: Seq<char>,
    pub record_b64: Seq<char>,
    pub created_at_ms: u64,
}

impl View for KyberPreKeyBlob {
    type V = KyberView;

    open spec fn view(&self) -> KyberView {
        KyberView {
            id: self.id,
            public_b64: self.public_b64@,
            signature_b64: self.signature_b64@,
            record_b64: self.record_b64@,
            created_at_ms: self.created_at_ms,
        }
    }
}

impl Duplicate for KyberPreKeyBlob {
    fn duplicate(&self) -> (r: Self) {
        KyberPreKeyBlob {
            id: self.id,
            public_b64: self.public_b64.clone(),
            signature_b64: self.signature_b64.clone(),
            record_b64: self.record_b64.clone(),
            created_at_ms: self.created_at_ms,
        }
    }
}

/// A connection code that was given out.
pub struct PendingInvite {
    pub id: String,
    pub code: String,
    pub mailbox_id: String,
    pub server_url: String,
    pub server_name: Option<String>,
    pub route_id: Option<String>,
    pub created_at_ms: u64,
    pub expires_at_ms: u64,
    pub reusable: bool,
}

/// A connection code that was given out.
#[verifier::ext_equal]
pub struct InviteView {
    pub id: Seq<char>,
    pub code: Seq<char>,
    pub mailbox_id: Seq<char>,
    pub server_url: Seq<char>,
    pub server_name: Option<Seq<char>>,
    pub route_id: Option<Seq<char>>,
    pub created_at_ms: u64,
    pub expires_at_ms: u64,
    pub reusable: bool,
}

impl View for PendingInvite {
    type V = InviteView;

    open spec fn view(&self) -> InviteView {
        InviteView {
            id: self.id@,
            code: self.code@,
            mailbox_id: self.mailbox_id@,
            server_url: self.server_url@,
            server_name: seqs::opt(self.server_name),
            route_id: seqs::opt(self.route_id),
            created_at_ms: self.created_at_ms,
            expires_at_ms: self.expires_at_ms,
            reusable: self.reusable,
        }
    }
}

impl Duplicate for PendingInvite {
    fn duplicate(&self) -> (r: Self) {
        PendingInvite {
            id: self.id.clone(),
            code: self.code.clone(),
            mailbox_id: self.mailbox_id.clone(),
            server_url: self.server_url.clone(),
            server_name: self.server_name.clone(),
            route_id: self.route_id.clone(),
            created_at_ms: self.created_at_ms,
            expires_at_ms: self.expires_at_ms,
            reusable: self.reusable,
        }
    }
}

/// Everything that the client remembers.
pub struct MessagingStore {
    pub version: u16,
    pub contacts: Vec<StoredContact>,
    pub messages: Vec<StoredMessage>,
    pub pending_invites: Vec<PendingInvite>,
    pub signal_sessions: StringMap<SignalSessionBlob>,
    pub local_kyber_prekey: Option<KyberPreKeyBlob>,
    pub previous_kyber_prekeys: Vec<KyberPreKeyBlob>,
    pub local_profile: Option<LocalProfile>,
    pub local_routes: Vec<LocalRoute>,
    pub pending_relay_retires: Vec<LocalRoute>,
    pub used_opk_ids: Vec<u32>,
    pub server_trust_roots: StringMap<String>,
    pub private_servers: Vec<PrivateServerSetting>,
    pub default_server_url: Option<String>,
}

/// Everything that the client remembers.
#[verifier::ext_equal]
pub struct StoreView {
    pub version: u16,
    pub contacts: Seq<ContactView>,
    pub messages: Seq<MessageView>,
    pub pending_invites: Seq<InviteView>,
    pub signal_sessions: Map<Seq<char>, SessionView>,
    pub local_kyber_prekey: Option<KyberView>,
    pub previous_kyber_prekeys: Seq<KyberView>,
    pub local_profile: Option<ProfileView>,
    pub local_routes: Seq<RouteView>,
    pub pending_relay_retires: Seq<RouteView>,
    pub used_opk_ids: Seq<u32>,
    pub server_trust_roots: Map<Seq<char>, Seq<char>>,
    pub private_servers: Seq<ServerSettingView>,
    pub default_server_url: Option<Seq<char>>,
}

impl View for MessagingStore {
    type V = StoreView;

    open spec fn view(&self) -> StoreView {
        StoreView {
            version: self.version,
            contacts: seqs::views(self.contacts@),
            messages: seqs::views(self.messages@),
            pending_invites: seqs::views(self.pending_invites@),
            signal_sessions: self.signal_sessions@,
            local_kyber_prekey: seqs::opt(self.local_kyber_prekey),
            previous_kyber_prekeys: seqs::views(self.previous_kyber_prekeys@),
            local_profile: seqs::opt(self.local_profile),
            local_routes: seqs::views(self.local_routes@),
            pending_relay_retires: seqs::views(self.pending_relay_retires@),
            used_opk_ids: self.used_opk_ids@,
            server_trust_roots: self.server_trust_roots@,
            private_servers: seqs::views(self.private_servers@),
            default_server_url: seqs::opt(self.default_server_url),
        }
    }
}

impl Duplicate for MessagingStore {
    fn duplicate(&self) -> (r: Self) {
        MessagingStore {
            version: self.version,
            contacts: seqs::duplicate_vec(&self.contacts),
            messages: seqs::duplicate_vec(&self.messages),
            pending_invites: seqs::duplicate_vec(&self.pending_invites),
            signal_sessions: self.signal_sessions.duplicate(),
            local_kyber_prekey: seqs::duplicate_opt(&self.local_kyber_prekey),
            previous_kyber_prekeys: seqs::duplicate_vec(&self.previous_kyber_prekeys),
            local_profile: seqs::duplicate_opt(&self.local_profile),
            local_routes: seqs::duplicate_vec(&self.local_routes),
            pending_relay_retires: seqs::duplicate_vec(&self.pending_relay_retires),
            used_opk_ids: self.used_opk_ids.clone(),
            server_trust_roots: self.server_trust_roots.duplicate(),
            private_servers: seqs::duplicate_vec(&self.private_servers),
            default_server_url: self.default_server_url.clone(),
        }
    }
}

/// A connection code as it is shown.
pub struct ConnectionCodeResponse {
    pub id: String,
    pub code: String,
    pub created_at: u64,
    pub server_url: String,
    pub server_name: String,
    pub reusable: bool,
}

/// A connection code as it is shown.
#[verifier::ext_equal]
pub struct CodeView {
    pub id: Seq<char>,
    pub code: Seq<char>,
    pub created_at: u64,
    pub server_url: Seq<char>,
    pub server_name: Seq<char>,
    pub reusable: bool,
}

impl View for ConnectionCodeResponse {
    type V = CodeView;

    open spec fn view(&self) -> CodeView {
        CodeView {
            id: self.id@,
            code: self.code@,
            created_at: self.created_at,
            server_url: self.server_url@,
            server_name: self.server_name@,
            reusable: self.reusable,
        }
    }
}

impl Duplicate for ConnectionCodeResponse {
    fn duplicate(&self) -> (r: Self) {
        ConnectionCodeResponse {
            id: self.id.clone(),
            code: self.code.clone(),
            created_at: self.created_at,
            server_url: self.server_url.clone(),
            server_name: self.server_name.clone(),
            reusable: self.reusable,
        }
    }
}

/// A verification code as it is shown.
pub struct VerificationCodeResponse {
    pub code: String,
    pub safety_number: String,
    pub created_at: u64,
}

/// A verification code as it is shown.
#[verifier::ext_equal]
pub struct VerificationCodeView {
    pub code: Seq<char>,
    pub safety_number: Seq<char>,
    pub created_at: u64,
}

impl View for VerificationCodeResponse {
    type V = VerificationCodeView;

    open spec fn view(&self) -> VerificationCodeView {
        VerificationCodeView {
            code: self.code@,
            safety_number: self.safety_number@,
            created_at: self.created_at,
        }
    }
}

impl Duplicate for VerificationCodeResponse {
    fn duplicate(&self) -> (r: Self) {
        VerificationCodeResponse {
            code: self.code.clone(),
            safety_number: self.safety_number.clone(),
            created_at: self.created_at,
        }
    }
}

/// A message that was sent.
pub struct SendMessageResponse {
    pub message: StoredMessage,
}

/// A message that was sent.
#[verifier::ext_equal]
pub struct SendMessageView {
    pub message: MessageView,
}

impl View for SendMessageResponse {
    type V = SendMessageView;

    open spec fn view(&self) -> SendMessageView {
        SendMessageView {
            message: self.message@,
        }
    }
}

impl Duplicate for SendMessageResponse {
    fn duplicate(&self) -> (r: Self) {
        SendMessageResponse {
            message: self.message.duplicate(),
        }
    }
}

/// A message that came in.
pub struct IncomingMessageEvent {
    pub contact_id: String,
    pub message: StoredMessage,
}

/// A message that came in.
#[verifier::ext_equal]
pub struct IncomingMessageView {
    pub contact_id: Seq<char>,
    pub message: MessageView,
}

impl View for IncomingMessageEvent {
    type V = IncomingMessageView;

    open spec fn view(&self) -> IncomingMessageView {
        IncomingMessageView {
            contact_id: self.contact_id@,
            message: self.message@,
        }
    }
}

impl Duplicate for IncomingMessageEvent {
    fn duplicate(&self) -> (r: Self) {
        IncomingMessageEvent {
            contact_id: self.contact_id.clone(),
            message: self.message.duplicate(),
        }
    }
}

/// The version of a store that does not say.
pub fn default_store_version() -> (r: u16)
    ensures
        r == 1,
{
    1
}

/// Whether a route that does not say is active.
pub fn default_true() -> (r: bool)
    ensures
        r,
{
    true
}

/// The epoch of a delivery token that does not say.
pub fn default_token_epoch() -> (r: u64)
    ensures
        r == 1,
{
    1
}

/// The trust in a contact that does not say.
pub fn default_trust_state() -> (r: String)
    ensures
        r@ == "unverified"@,
{
    "unverified".to_string()
}

/// The store of a client that has none.
pub open spec fn empty_store() -> StoreView {
    StoreView {
        version: 0,
        contacts: Seq::empty(),
        messages: Seq::empty(),
        pending_invites: Seq::empty(),
        signal_sessions: Map::empty(),
        local_kyber_prekey: None,
        previous_kyber_prekeys: Seq::empty(),
        local_profile: None,
        local_routes: Seq::empty(),
        pending_relay_retires: Seq::empty(),
        used_opk_ids: Seq::empty(),
        server_trust_roots: Map::empty(),
        private_servers: Seq::empty(),
        default_server_url: None,
    }
}

impl MessagingStore {
    /// The store of a client that has none.
    pub fn empty() -> (r: Self)
        ensures
            r@ == empty_store(),
    {
        let r = MessagingStore {
            version: 0,
            contacts: Vec::new(),
            messages: Vec::new(),
            pending_invites: Vec::new(),
            signal_sessions: StringMap::new(),
            local_kyber_prekey: None,
            previous_kyber_prekeys: Vec::new(),
            local_profile: None,
            local_routes: Vec::new(),
            pending_relay_retires: Vec::new(),
            used_opk_ids: Vec::new(),
            server_trust_roots: StringMap::new(),
            private_servers: Vec::new(),
            default_server_url: None,
        };
        proof {
            assert(r@ =~= empty_store());
        }
        r
    }
}

} // verus!
