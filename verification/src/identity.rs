//! The identity of the user: its encrypted private key, its names, and the session that unlocks
//! it.
use crate::encoding;
use crate::keys::SecretsView;
use crate::keys::VaultSecrets;
use crate::primitives;
use crate::safety;
use crate::seqs;
use crate::seqs::Duplicate;
use crate::text;
use vstd::prelude::*;
use vstd::utf8::encode_utf8;

verus! {

/// The memory that deriving the key of the vault takes, in KiB.
pub const KDF_M_COST: u32 = 65536;

/// How often deriving the key of the vault goes over the memory.
pub const KDF_T_COST: u32 = 3;

/// How many lanes deriving the key of the vault has.
pub const KDF_P_COST: u32 = 1;

/// The largest registration id.
pub const MAX_REGISTRATION_ID: u16 = 16380;

/// The identity as it stands on disk: the private key is encrypted under a passphrase.
pub struct EncryptedIdentity {
    pub kdf_salt: [u8; 32],
    pub nonce: [u8; 12],
    pub ciphertext: Vec<u8>,
    pub public_key: Vec<u8>,
    pub registration_id: u16,
}

/// The identity as it stands on disk: the private key is encrypted under a passphrase.
#[verifier::ext_equal]
pub struct IdentityView {
    pub kdf_salt: Seq<u8>,
    pub nonce: Seq<u8>,
    pub ciphertext: Seq<u8>,
    pub public_key: Seq<u8>,
    pub registration_id: u16,
}

impl View for EncryptedIdentity {
    type V = IdentityView;

    open spec fn view(&self) -> IdentityView {
        IdentityView {
            kdf_salt: self.kdf_salt@,
            nonce: self.nonce@,
            ciphertext: self.ciphertext@,
            public_key: self.public_key@,
            registration_id: self.registration_id,
        }
    }
}

impl Duplicate for EncryptedIdentity {
    fn duplicate(&self) -> (r: Self) {
        EncryptedIdentity {
            kdf_salt: self.kdf_salt,
            nonce: self.nonce,
            ciphertext: self.ciphertext.clone(),
            public_key: self.public_key.clone(),
            registration_id: self.registration_id,
        }
    }
}

/// What the user sees after unlocking.
pub struct UnlockResponse {
    pub fingerprint: String,
    pub display_name: String,
}

/// What the user sees after unlocking.
#[verifier::ext_equal]
pub struct UnlockView {
    pub fingerprint: Seq<char>,
    pub display_name: Seq<char>,
}

impl View for UnlockResponse {
    type V = UnlockView;

    open spec fn view(&self) -> UnlockView {
        UnlockView {
            fingerprint: self.fingerprint@,
            display_name: self.display_name@,
        }
    }
}

impl Duplicate for UnlockResponse {
    fn duplicate(&self) -> (r: Self) {
        UnlockResponse {
            fingerprint: self.fingerprint.clone(),
            display_name: self.display_name.clone(),
        }
    }
}

/// What everyone may know of the identity.
pub struct PublicIdentityResponse {
    pub fingerprint: String,
    pub public_key_hex: String,
    pub registration_id: u16,
}

/// What everyone may know of the identity.
#[verifier::ext_equal]
pub struct PublicIdentityView {
    pub fingerprint: Seq<char>,
    pub public_key_hex: Seq<char>,
    pub registration_id: u16,
}

impl View for PublicIdentityResponse {
    type V = PublicIdentityView;

    open spec fn view(&self) -> PublicIdentityView {
        PublicIdentityView {
            fingerprint: self.fingerprint@,
            public_key_hex: self.public_key_hex@,
            registration_id: self.registration_id,
        }
    }
}

impl Duplicate for PublicIdentityResponse {
    fn duplicate(&self) -> (r: Self) {
        PublicIdentityResponse {
            fingerprint: self.fingerprint.clone(),
            public_key_hex: self.public_key_hex.clone(),
            registration_id: self.registration_id,
        }
    }
}

/// Why an identity could not be made or unlocked.
pub enum IdentityError {
    Kdf(String),
    Encrypt,
    Decrypt,
    Signal(String),
}

/// Why an identity could not be made or unlocked.
pub enum IdentityErrorView {
    Kdf(Seq<char>),
    Encrypt,
    Decrypt,
    Signal(Seq<char>),
}

impl View for IdentityError {
    type V = IdentityErrorView;

    open spec fn view(&self) -> IdentityErrorView {
        match self {
            IdentityError::Kdf(e) => IdentityErrorView::Kdf(e@),
            IdentityError::Encrypt => IdentityErrorView::Encrypt,
            IdentityError::Decrypt => IdentityErrorView::Decrypt,
            IdentityError::Signal(e) => IdentityErrorView::Signal(e@),
        }
    }
}

/// The message of an error.
pub open spec fn error_line(e: IdentityErrorView) -> Seq<char> {
    match e {
        IdentityErrorView::Kdf(why) => "KDF error: "@ + why,
        IdentityErrorView::Encrypt => "Encryption failed"@,
        IdentityErrorView::Decrypt => "Decryption failed"@,
        IdentityErrorView::Signal(why) => "Signal error: "@ + why,
    }
}

impl IdentityError {
    /// The message of the error.
    pub fn message(&self) -> (r: String)
        ensures
            r@ == error_line(self@),
    {
        match self {
            IdentityError::Kdf(why) => text::concat2("KDF error: ", why.as_str()),
            IdentityError::Encrypt => "Encryption failed".to_string(),
            IdentityError::Decrypt => "Decryption failed".to_string(),
            IdentityError::Signal(why) => text::concat2("Signal error: ", why.as_str()),
        }
    }
}

/// What a result says.
pub open spec fn identity_outcome<T: View>(r: Result<T, IdentityError>) -> Result<
    T::V,
    IdentityErrorView,
> {
    match r {
        Ok(v) => Ok(v@),
        Err(e) => Err(e@),
    }
}

/// The key that a passphrase gives.
pub struct DerivedKey {
    bytes: [u8; 32],
}

impl View for DerivedKey {
    type V = Seq<u8>;

    closed spec fn view(&self) -> Seq<u8> {
        self.bytes@
    }
}

impl DerivedKey {
    /// The key with the given bytes.
    pub fn from_bytes(bytes: [u8; 32]) -> (r: Self)
        ensures
            r@ == bytes@,
    {
        DerivedKey { bytes }
    }

    /// The bytes of the key, for encrypting anew what it protects.
    pub fn expose_for_rekey(&self) -> (r: [u8; 32])
        ensures
            r@ == self@,
    {
        self.bytes
    }

    /// Overwrites the key.
    pub fn wipe(&mut self)
        ensures
            final(self)@ == Seq::new(32, |i: int| 0u8),
    {
        self.bytes = [0u8; 32];
        proof {
            assert(self.bytes@ =~= Seq::new(32, |i: int| 0u8));
        }
    }
}

/// The key that a passphrase and a salt give.
pub open spec fn passphrase_key(passphrase: Seq<char>, salt: Seq<u8>) -> Result<
    Seq<u8>,
    IdentityErrorView,
> {
    match primitives::argon2id_refusal(encode_utf8(passphrase), salt) {
        Some(why) => Err(IdentityErrorView::Kdf(why)),
        None => Ok(
            primitives::argon2id(
                encode_utf8(passphrase),
                salt,
                KDF_M_COST,
                KDF_T_COST,
                KDF_P_COST,
            ),
        ),
    }
}

/// Derives the key that a passphrase and a salt give.
pub fn derive_key(passphrase: &str, salt: &[u8; 32]) -> (r: Result<DerivedKey, IdentityError>)
    ensures
        identity_outcome(r) == passphrase_key(passphrase@, salt@),
        r matches Ok(k) ==> k@.len() == 32,
{
    match primitives::derive_argon2id(
        passphrase.as_bytes(),
        salt.as_slice(),
        KDF_M_COST,
        KDF_T_COST,
        KDF_P_COST,
    ) {
        Ok(k) => Ok(DerivedKey { bytes: safety::to_array(k) }),
        Err(why) => Err(IdentityError::Kdf(why)),
    }
}

// ---------------------------------------------------------------------------------------------
// Making an identity.
// ---------------------------------------------------------------------------------------------

/// The registration id that a random number stands for.
pub fn registration_id_from(drawn: u16) -> (r: u16)
    ensures
        r == drawn % MAX_REGISTRATION_ID + 1,
        1 <= r <= MAX_REGISTRATION_ID,
{
    drawn % MAX_REGISTRATION_ID + 1
}

/// The bytes are those of a private key on Curve25519: the lowest three bits and the highest bit
/// are zero, and the second highest is one.
pub open spec fn is_clamped(s: Seq<u8>) -> bool {
    s.len() == 32 && s[0] % 8 == 0 && 64 <= s[31] < 128
}

/// Random bytes made into a private key on Curve25519.
pub open spec fn clamped(s: Seq<u8>) -> Seq<u8> {
    s.update(0, s[0] & 248).update(31, (s[31] & 127) | 64)
}

/// Makes random bytes into a private key on Curve25519.
pub fn clamp(seed: &mut [u8; 32])
    ensures
        final(seed)@ == clamped(old(seed)@),
        is_clamped(final(seed)@),
{
    let low: u8 = seed[0] & 248;
    let high: u8 = (seed[31] & 127) | 64;
    proof {
        let b: u8 = seed@[0];
        let t: u8 = seed@[31];
        assert((b & 248) % 8 == 0) by (bit_vector);
        assert(64 <= ((t & 127) | 64) < 128) by (bit_vector);
    }
    seed[0] = low;
    seed[31] = high;
    proof {
        assert(seed@ =~= clamped(old(seed)@));
    }
}

/// What a new identity takes from chance.
pub struct IdentitySeed {
    pub registration_id: u16,
    /// The private key.
    pub seed: [u8; 32],
    pub salt: [u8; 32],
    pub nonce: [u8; 12],
}

impl IdentitySeed {
    /// Draws what a new identity takes from chance.
    pub fn draw() -> (r: Self)
        ensures
            1 <= r.registration_id <= MAX_REGISTRATION_ID,
            is_clamped(r.seed@),
    {
        let registration_id = registration_id_from(primitives::os_random_u16());
        let mut seed = safety::to_array(primitives::os_random_bytes(32));
        clamp(&mut seed);
        let salt = safety::to_array(primitives::os_random_bytes(32));
        let nonce = safety::to_array12(primitives::os_random_bytes(12));
        IdentitySeed { registration_id, seed, salt, nonce }
    }

    /// Overwrites the private key.
    pub fn wipe(&mut self)
        ensures
            final(self).seed@ == Seq::new(32, |i: int| 0u8),
            final(self).registration_id == old(self).registration_id,
            final(self).salt == old(self).salt,
            final(self).nonce == old(self).nonce,
    {
        self.seed = [0u8; 32];
        proof {
            assert(self.seed@ =~= Seq::new(32, |i: int| 0u8));
        }
    }
}

/// The identity under a passphrase.
pub open spec fn encrypted_identity(
    passphrase: Seq<char>,
    registration_id: u16,
    salt: Seq<u8>,
    nonce: Seq<u8>,
    private_key: Seq<u8>,
    public_key: Seq<u8>,
) -> Result<IdentityView, IdentityErrorView> {
    match passphrase_key(passphrase, salt) {
        Err(e) => Err(e),
        Ok(key) => if !primitives::sealable(private_key.len()) {
            Err(IdentityErrorView::Encrypt)
        } else {
            Ok(
                IdentityView {
                    kdf_salt: salt,
                    nonce,
                    ciphertext: primitives::sealed(key, nonce, private_key),
                    public_key,
                    registration_id,
                },
            )
        },
    }
}

/// What the passphrase opens: the private key.
pub open spec fn decrypted_identity(b: IdentityView, passphrase: Seq<char>) -> Result<
    Seq<u8>,
    IdentityErrorView,
> {
    match passphrase_key(passphrase, b.kdf_salt) {
        Err(e) => Err(e),
        Ok(key) => match primitives::decrypted(key, b.nonce, b.ciphertext) {
            Some(private_key) => Ok(private_key),
            None => Err(IdentityErrorView::Decrypt),
        },
    }
}

/// The passphrase opens the identity, and gives the private key.
pub open spec fn opens_to(b: IdentityView, passphrase: Seq<char>, private_key: Seq<u8>) -> bool {
    decrypted_identity(b, passphrase) == Ok::<Seq<u8>, IdentityErrorView>(private_key)
}

/// Encrypts an identity under a passphrase, and wipes the private key. The passphrase opens what
/// comes out.
pub fn create_encrypted_identity(
    passphrase: &str,
    seed: &IdentitySeed,
    private_key: Vec<u8>,
    public_key: Vec<u8>,
) -> (r: Result<EncryptedIdentity, IdentityError>)
    ensures
        identity_outcome(r) == encrypted_identity(
            passphrase@,
            seed.registration_id,
            seed.salt@,
            seed.nonce@,
            private_key@,
            public_key@,
        ),
        r matches Ok(b) ==> opens_to(b@, passphrase@, private_key@),
{
    let mut plain = private_key;
    let sealed = match derive_key(passphrase, &seed.salt) {
        Err(e) => Err(e),
        Ok(key) => {
            let bytes = key.expose_for_rekey();
            match primitives::seal(bytes.as_slice(), seed.nonce.as_slice(), plain.as_slice()) {
                Some(c) => Ok(c),
                None => Err(IdentityError::Encrypt),
            }
        },
    };
    primitives::wipe(&mut plain);
    match sealed {
        Err(e) => Err(e),
        Ok(ciphertext) => Ok(
            EncryptedIdentity {
                kdf_salt: seed.salt,
                nonce: seed.nonce,
                ciphertext,
                public_key,
                registration_id: seed.registration_id,
            },
        ),
    }
}

/// Opens an identity with its passphrase: the private key.
pub fn decrypt_identity(blob: &EncryptedIdentity, passphrase: &str) -> (r: Result<
    Vec<u8>,
    IdentityError,
>)
    ensures
        identity_outcome(r) == decrypted_identity(blob@, passphrase@),
{
    match derive_key(passphrase, &blob.kdf_salt) {
        Err(e) => Err(e),
        Ok(key) => {
            let bytes = key.expose_for_rekey();
            match primitives::open_sealed(
                bytes.as_slice(),
                blob.nonce.as_slice(),
                blob.ciphertext.as_slice(),
            ) {
                Some(private_key) => Ok(private_key),
                None => Err(IdentityError::Decrypt),
            }
        },
    }
}

/// Refuses to make an identity where there is one already.
pub fn check_no_identity(present: bool) -> (r: Result<(), String>)
    ensures
        seqs::verdict(r) == if present {
            Err("identity already exists"@)
        } else {
            Ok(())
        },
{
    if present {
        return Err("identity already exists".to_string());
    }
    Ok(())
}

// ---------------------------------------------------------------------------------------------
// Names of an identity.
// ---------------------------------------------------------------------------------------------

/// The fingerprint of an identity: its public key in hexadecimal.
pub open spec fn fingerprint_of(b: IdentityView) -> Seq<char> {
    encoding::hex_text(b.public_key)
}

/// The fingerprint of an identity.
pub fn fingerprint(blob: &EncryptedIdentity) -> (r: String)
    ensures
        r@ == fingerprint_of(blob@),
{
    encoding::to_hex(blob.public_key.as_slice())
}

/// The name under which early versions routed messages to an identity: its fingerprint without
/// separators.
pub fn legacy_identity_routing_id(blob: &EncryptedIdentity) -> (r: String)
    ensures
        r@ == fingerprint_of(blob@),
{
    let f = fingerprint(blob);
    let g = text::remove_char(f.as_str(), ':');
    proof {
        encoding::hex_plain(blob@.public_key, ':');
        encoding::hex_plain(blob@.public_key, ' ');
    }
    text::remove_char(g.as_str(), ' ')
}

/// What everyone may know of an identity.
pub fn public_identity(blob: &EncryptedIdentity) -> (r: PublicIdentityResponse)
    ensures
        r@ == (PublicIdentityView {
            fingerprint: fingerprint_of(blob@),
            public_key_hex: encoding::hex_text(blob@.public_key),
            registration_id: blob@.registration_id,
        }),
{
    PublicIdentityResponse {
        fingerprint: fingerprint(blob),
        public_key_hex: encoding::to_hex(blob.public_key.as_slice()),
        registration_id: blob.registration_id,
    }
}

// ---------------------------------------------------------------------------------------------
// The unlocked session.
// ---------------------------------------------------------------------------------------------

/// What is in memory while the identity is unlocked.
pub struct UnlockedSession {
    pub secrets: VaultSecrets,
    pub key: DerivedKey,
}

/// What is in memory while the identity is unlocked.
#[verifier::ext_equal]
pub struct SessionStateView {
    pub secrets: SecretsView,
    pub key: Seq<u8>,
}

impl View for UnlockedSession {
    type V = SessionStateView;

    open spec fn view(&self) -> SessionStateView {
        SessionStateView { secrets: self.secrets@, key: self.key@ }
    }
}

/// What the user sees after unlocking.
pub fn unlock_response(blob: &EncryptedIdentity, session: &UnlockedSession) -> (r: UnlockResponse)
    ensures
        r@ == (UnlockView {
            fingerprint: fingerprint_of(blob@),
            display_name: session@.secrets.display_name,
        }),
{
    UnlockResponse {
        fingerprint: fingerprint(blob),
        display_name: session.secrets.display_name.clone(),
    }
}

/// The keys of the store: the current one, and the one of early versions.
pub open spec fn store_keys_of(session: Option<SessionStateView>) -> Result<
    (Seq<u8>, Seq<u8>),
    Seq<char>,
> {
    match session {
        Some(s) => Ok((safety::store_key(s.key), s.key)),
        None => Err("identity is locked"@),
    }
}

/// What a pair of keys says.
pub open spec fn keys_outcome(r: Result<([u8; 32], [u8; 32]), String>) -> Result<
    (Seq<u8>, Seq<u8>),
    Seq<char>,
> {
    match r {
        Ok((current, legacy)) => Ok((current@, legacy@)),
        Err(e) => Err(e@),
    }
}

/// The keys of the store, while the identity is unlocked.
pub fn store_keys(session: &Option<UnlockedSession>) -> (r: Result<([u8; 32], [u8; 32]), String>)
    ensures
        keys_outcome(r) == store_keys_of(seqs::opt(*session)),
{
    match session {
        Some(s) => {
            let legacy = s.key.expose_for_rekey();
            let current = safety::derive_store_key_from_root(&legacy);
            Ok((current, legacy))
        },
        None => Err("identity is locked".to_string()),
    }
}

/// The session after its owner took another name.
pub open spec fn renamed(s: SessionStateView, name: Seq<char>) -> SessionStateView {
    SessionStateView { secrets: SecretsView { display_name: name, ..s.secrets }, ..s }
}

/// Gives the owner of the session another name; refuses while the vault is locked.
pub fn rename(session: &mut Option<UnlockedSession>, name: String) -> (r: Result<(), String>)
    ensures
        match seqs::opt(*old(session)) {
            Some(s) => r is Ok && seqs::opt(*final(session)) == Some(renamed(s, name@)),
            None => r is Err && r->Err_0@ == "vault is locked"@ && *final(session) == *old(session),
        },
{
    match session.take() {
        Some(mut s) => {
            s.secrets.display_name = name;
            *session = Some(s);
            Ok(())
        },
        None => Err("vault is locked".to_string()),
    }
}

} // verus!
