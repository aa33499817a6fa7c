//! What a relay writes to disk and reads back.
use crate::encoding;
use crate::frames::EnvelopeView;
use crate::primitives;
use crate::relay::mailbox::BundleView;
use crate::relay::mailbox::EnvelopeQueue;
use crate::relay::mailbox::HostedBundle;
use crate::relay::mailbox::MailboxAuth;
use crate::relay::mailbox::MailboxAuthView;
use crate::relay::state;
use crate::relay::state::Relay;
use crate::relay::state::RelayView;
use crate::seqs;
use crate::seqs::Duplicate;
use crate::strmap;
use crate::text;
use vstd::prelude::*;

verus! {

/// The name of the file that holds the state of a relay.
pub const STATE_FILE: &'static str = "relay-state.json";

/// The costs of the key that protects the relay's private keys: memory in KiB, passes, lanes.
pub const DISK_KEY_M_COST: u32 = 19_456;

/// See `DISK_KEY_M_COST`.
pub const DISK_KEY_T_COST: u32 = 2;

/// See `DISK_KEY_M_COST`.
pub const DISK_KEY_P_COST: u32 = 1;

/// The private keys of a relay.
pub struct DiskCrypto {
    pub trust_root_public: Vec<u8>,
    pub trust_root_private: Vec<u8>,
    pub server_signing_public: Vec<u8>,
    pub server_signing_private: Vec<u8>,
}

/// The private keys of a relay.
#[verifier::ext_equal]
pub struct DiskCryptoView {
    pub trust_root_public: Seq<u8>,
    pub trust_root_private: Seq<u8>,
    pub server_signing_public: Seq<u8>,
    pub server_signing_private: Seq<u8>,
}

impl View for DiskCrypto {
    type V = DiskCryptoView;

    open spec fn view(&self) -> DiskCryptoView {
        DiskCryptoView {
            trust_root_public: self.trust_root_public@,
            trust_root_private: self.trust_root_private@,
            server_signing_public: self.server_signing_public@,
            server_signing_private: self.server_signing_private@,
        }
    }
}

/// The private keys of a relay under a passphrase: salt, nonce and ciphertext in hexadecimal.
pub struct EncryptedCryptoBlob {
    pub salt: String,
    pub nonce: String,
    pub ciphertext: String,
}

/// The private keys of a relay under a passphrase.
#[verifier::ext_equal]
pub struct EncryptedCryptoView {
    pub salt: Seq<char>,
    pub nonce: Seq<char>,
    pub ciphertext: Seq<char>,
}

impl View for EncryptedCryptoBlob {
    type V = EncryptedCryptoView;

    open spec fn view(&self) -> EncryptedCryptoView {
        EncryptedCryptoView {
            salt: self.salt@,
            nonce: self.nonce@,
            ciphertext: self.ciphertext@,
        }
    }
}

/// The private keys as they stand on disk: in the clear or under a passphrase, never both.
pub enum DiskKeys {
    Plain { crypto: DiskCrypto },
    Protected { blob: EncryptedCryptoBlob },
}

/// What a relay writes to disk.
pub struct DiskState {
    pub crypto: Option<DiskCrypto>,
    pub encrypted_crypto: Option<EncryptedCryptoBlob>,
    pub mailbox_auth: Vec<(String, MailboxAuth)>,
    pub queues: Vec<(String, EnvelopeQueue)>,
    pub bundles: Vec<HostedBundle>,
}

/// What a relay writes to disk.
#[verifier::ext_equal]
pub struct DiskView {
    pub crypto: Option<DiskCryptoView>,
    pub encrypted_crypto: Option<EncryptedCryptoView>,
    pub mailbox_auth: Seq<(Seq<char>, MailboxAuthView)>,
    pub queues: Seq<(Seq<char>, Seq<EnvelopeView>)>,
    pub bundles: Seq<BundleView>,
}

impl View for DiskState {
    type V = DiskView;

    open spec fn view(&self) -> DiskView {
        DiskView {
            crypto: seqs::opt(self.crypto),
            encrypted_crypto: seqs::opt(self.encrypted_crypto),
            mailbox_auth: seqs::views(self.mailbox_auth@),
            queues: seqs::views(self.queues@),
            bundles: seqs::views(self.bundles@),
        }
    }
}

// ---------------------------------------------------------------------------------------------
// Pruning, writing, reading.
// ---------------------------------------------------------------------------------------------

/// The bundle's time has not come.
pub open spec fn unexpired(now_ms: u64) -> spec_fn(BundleView) -> bool {
    |b: BundleView| b.expires_at_ms > now_ms
}

/// A mailbox written before there were lists of tokens gets a list with its one token.
pub open spec fn with_token_list(a: MailboxAuthView) -> MailboxAuthView {
    if a.delivery_token_hashes.len() == 0 && a.delivery_token_hash.len() > 0 {
        MailboxAuthView { delivery_token_hashes: seq![a.delivery_token_hash], ..a }
    } else {
        a
    }
}

/// The mailboxes with a list of tokens each.
pub open spec fn with_token_lists(s: Seq<(Seq<char>, MailboxAuthView)>) -> Seq<
    (Seq<char>, MailboxAuthView),
> {
    s.map_values(|e: (Seq<char>, MailboxAuthView)| (e.0, with_token_list(e.1)))
}

/// The state without bundles whose time has come, every mailbox with a list of tokens.
pub open spec fn pruned_disk(d: DiskView, now_ms: u64) -> DiskView {
    DiskView {
        bundles: d.bundles.filter(unexpired(now_ms)),
        mailbox_auth: with_token_lists(d.mailbox_auth),
        ..d
    }
}

/// Drops the bundles whose time has come and gives every mailbox a list of tokens.
pub fn prune_disk_state(disk: &mut DiskState, now_ms: u64)
    ensures
        final(disk)@ == pruned_disk(old(disk)@, now_ms),
{
    let ghost d = disk@;
    let ghost p = unexpired(now_ms);
    let mut kept: Vec<HostedBundle> = Vec::new();
    let mut i: usize = 0;
    proof {
        seqs::filter_empty(d.bundles.take(0), p);
        assert(seqs::views(kept@) =~= d.bundles.take(0).filter(p));
    }
    while i < disk.bundles.len()
        invariant
            i <= disk.bundles@.len(),
            d == disk@,
            p == unexpired(now_ms),
            seqs::views(kept@) == d.bundles.take(i as int).filter(p),
        decreases disk.bundles@.len() - i,
    {
        let b = disk.bundles[i].duplicate();
        proof {
            seqs::filter_take_step(d.bundles, i as int, p);
            seqs::views_push(kept@, b);
        }
        if b.expires_at_ms > now_ms {
            kept.push(b);
        }
        i = i + 1;
    }
    proof {
        assert(d.bundles.take(i as int) =~= d.bundles);
    }
    disk.bundles = kept;
    let ghost all = d.mailbox_auth;
    let mut listed: Vec<(String, MailboxAuth)> = Vec::new();
    let mut k: usize = 0;
    proof {
        assert(seqs::views(listed@) =~= with_token_lists(all).take(0));
    }
    while k < disk.mailbox_auth.len()
        invariant
            k <= disk.mailbox_auth@.len(),
            all == seqs::views(disk.mailbox_auth@),
            seqs::views(listed@) == with_token_lists(all).take(k as int),
        decreases disk.mailbox_auth@.len() - k,
    {
        let e = &disk.mailbox_auth[k];
        let rid = e.0.clone();
        let mut auth = e.1.duplicate();
        let ghost before = auth@;
        if auth.delivery_token_hashes.len() == 0 && !auth.delivery_token_hash.as_str().is_empty() {
            let only = auth.delivery_token_hash.clone();
            auth.delivery_token_hashes.push(only);
            proof {
                assert(auth@.delivery_token_hashes =~= seq![before.delivery_token_hash]);
            }
        }
        proof {
            assert(auth@ =~= with_token_list(before));
            seqs::take_step(with_token_lists(all), k as int);
            seqs::views_push(listed@, (rid, auth));
        }
        listed.push((rid, auth));
        k = k + 1;
    }
    proof {
        assert(with_token_lists(all).take(k as int) =~= with_token_lists(all));
    }
    disk.mailbox_auth = listed;
}

/// Whether the listed bundles are those of the relay, whose handles they carry.
pub open spec fn lists_bundles(list: Seq<BundleView>, m: Map<Seq<char>, BundleView>) -> bool {
    exists|keyed: Seq<(Seq<char>, BundleView)>|
        #![trigger strmap::assoc(keyed)]
        strmap::assoc(keyed) == m && strmap::distinct_keys(keyed) && list == keyed.map_values(
            |e: (Seq<char>, BundleView)| e.1,
        )
}

/// The state on disk says what the relay knows, before pruning.
pub open spec fn records(d: DiskView, v: RelayView) -> bool {
    &&& strmap::assoc(d.mailbox_auth) == v.mailboxes
    &&& strmap::distinct_keys(d.mailbox_auth)
    &&& strmap::assoc(d.queues) == v.queues
    &&& strmap::distinct_keys(d.queues)
    &&& lists_bundles(d.bundles, v.bundles)
}

/// The keys stand on disk as they were given, in the clear or protected.
pub open spec fn keys_written(d: DiskView, keys: DiskKeys) -> bool {
    match keys {
        DiskKeys::Plain { crypto } => d.crypto == Some(crypto@) && d.encrypted_crypto is None,
        DiskKeys::Protected { blob } => d.crypto is None && d.encrypted_crypto == Some(blob@),
    }
}

impl Relay {
    /// What the relay would write to disk now, apart from pruning.
    fn record(&self, keys: DiskKeys) -> (r: DiskState)
        ensures
            records(r@, self@),
            keys_written(r@, keys),
    {
        let mailbox_auth = self.mailbox_entries();
        let queues = self.queue_entries();
        let keyed = self.bundle_entries();
        let ghost ks = seqs::views(keyed@);
        let mut bundles: Vec<HostedBundle> = Vec::new();
        let ghost target = ks.map_values(|e: (Seq<char>, BundleView)| e.1);
        let mut i: usize = 0;
        proof {
            assert(seqs::views(bundles@) =~= target.take(0));
        }
        while i < keyed.len()
            invariant
                i <= keyed@.len(),
                ks == seqs::views(keyed@),
                target == ks.map_values(|e: (Seq<char>, BundleView)| e.1),
                seqs::views(bundles@) == target.take(i as int),
            decreases keyed@.len() - i,
        {
            let b = keyed[i].1.duplicate();
            proof {
                seqs::take_step(target, i as int);
                seqs::views_push(bundles@, b);
            }
            bundles.push(b);
            i = i + 1;
        }
        proof {
            assert(target.take(i as int) =~= target);
            assert(strmap::assoc(ks) == self@.bundles);
        }
        match keys {
            DiskKeys::Plain { crypto } => DiskState {
                crypto: Some(crypto),
                encrypted_crypto: None,
                mailbox_auth,
                queues,
                bundles,
            },
            DiskKeys::Protected { blob } => DiskState {
                crypto: None,
                encrypted_crypto: Some(blob),
                mailbox_auth,
                queues,
                bundles,
            },
        }
    }

    /// What the relay writes to disk, with the private keys in the given form.
    pub fn snapshot_with(&self, keys: DiskKeys, now_ms: u64) -> (r: DiskState)
        ensures
            exists|d: DiskView| #[trigger]
                records(d, self@) && keys_written(d, keys) && r@ == pruned_disk(d, now_ms),
    {
        let mut disk = self.record(keys);
        let ghost d = disk@;
        prune_disk_state(&mut disk, now_ms);
        proof {
            assert(records(d, self@));
        }
        disk
    }

    /// What the relay writes to disk: the private keys, of which `written` is the written form, are
    /// protected where a passphrase is set.
    pub fn snapshot_disk_state(
        &self,
        crypto: DiskCrypto,
        written: &[u8],
        key: Option<String>,
        now_ms: u64,
    ) -> (r: Result<DiskState, DiskKeyError>)
        ensures
            match r {
                Ok(disk) => {
                    &&& exists|d: DiskView| #[trigger]
                        records(d, self@) && disk@ == pruned_disk(d, now_ms)
                    &&& keys_settled(disk@, crypto@, written@, usable(seqs::opt(key)))
                },
                Err(e) => usable(seqs::opt(key)) matches Some(k) && protection_refused(
                    e@,
                    written@,
                    k,
                ),
            },
    {
        let keys = keys_for_disk(crypto, written, key)?;
        Ok(self.snapshot_with(keys, now_ms))
    }
}

/// The bytes of the listed queues.
pub open spec fn listed_bytes(s: Seq<(Seq<char>, Seq<EnvelopeView>)>) -> nat
    decreases s.len(),
{
    if s.len() == 0 {
        0
    } else {
        listed_bytes(s.drop_last()) + state::queue_bytes(s.last().1)
    }
}

/// The listed bundles by their handles.
pub open spec fn bundles_by_id(s: Seq<BundleView>) -> Map<Seq<char>, BundleView> {
    strmap::assoc(s.map_values(|b: BundleView| (b.id, b)))
}

/// The relay that a state on disk describes. Every listed queue counts, also one that a later one
/// of the same mailbox takes the place of.
pub open spec fn restored(d: DiskView, trust_root: Seq<char>) -> RelayView {
    RelayView {
        mailboxes: strmap::assoc(d.mailbox_auth),
        queues: strmap::assoc(d.queues),
        online: Map::empty(),
        bundles: bundles_by_id(d.bundles),
        mailbox_count: strmap::assoc(d.mailbox_auth).dom().len(),
        queued_bytes: listed_bytes(d.queues),
        trust_root,
        dirty: false,
    }
}

proof fn listed_prefix(s: Seq<(Seq<char>, Seq<EnvelopeView>)>, i: int)
    requires
        0 <= i <= s.len(),
    ensures
        listed_bytes(s.take(i)) <= listed_bytes(s),
    decreases s.len() - i,
{
    if i < s.len() {
        listed_prefix(s, i + 1);
        assert(s.take(i + 1).drop_last() =~= s.take(i));
    } else {
        assert(s.take(i) =~= s);
    }
}

impl Relay {
    /// The relay that a state on disk describes.
    pub fn from_disk(disk: &DiskState, trust_root_b64: String) -> (r: Self)
        requires
            listed_bytes(disk@.queues) <= usize::MAX,
        ensures
            r@ == restored(disk@, trust_root_b64@),
            state::relay_inv(r@),
    {
        let mut relay = Relay::new(trust_root_b64);
        let ghost root = trust_root_b64@;
        let ghost d = disk@;
        let mut i: usize = 0;
        proof {
            assert(d.mailbox_auth.take(0) =~= Seq::<(Seq<char>, MailboxAuthView)>::empty());
        }
        while i < disk.mailbox_auth.len()
            invariant
                i <= disk.mailbox_auth@.len(),
                d == disk@,
                relay@ == (RelayView {
                    mailboxes: strmap::assoc(d.mailbox_auth.take(i as int)),
                    ..state::empty_relay(root)
                }),
            decreases disk.mailbox_auth@.len() - i,
        {
            let e = &disk.mailbox_auth[i];
            proof {
                seqs::take_step(d.mailbox_auth, i as int);
                strmap::assoc_push(d.mailbox_auth.take(i as int), d.mailbox_auth[i as int]);
            }
            relay.update_mailbox(e.0.as_str(), e.1.duplicate());
            i = i + 1;
        }
        proof {
            assert(d.mailbox_auth.take(i as int) =~= d.mailbox_auth);
            strmap::assoc_keys(d.mailbox_auth);
            assert(d.queues.take(0) =~= Seq::<(Seq<char>, Seq<EnvelopeView>)>::empty());
        }
        relay.count_mailboxes();
        let ghost counted = relay@;
        let mut k: usize = 0;
        while k < disk.queues.len()
            invariant
                k <= disk.queues@.len(),
                d == disk@,
                listed_bytes(d.queues) <= usize::MAX,
                relay@ == (RelayView {
                    queues: strmap::assoc(d.queues.take(k as int)),
                    queued_bytes: listed_bytes(d.queues.take(k as int)),
                    ..counted
                }),
                relay@.queues.dom().finite(),
                relay@.queued_bytes >= state::total_bytes(relay@.queues),
            decreases disk.queues@.len() - k,
        {
            let e = &disk.queues[k];
            proof {
                seqs::take_step(d.queues, k as int);
                strmap::assoc_push(d.queues.take(k as int), d.queues[k as int]);
                assert(d.queues.take(k + 1).drop_last() =~= d.queues.take(k as int));
                listed_prefix(d.queues, k + 1);
                state::total_insert(relay@.queues, e.0@, e.1@);
            }
            relay.put_queue(e.0.as_str(), e.1.duplicate());
            k = k + 1;
        }
        proof {
            assert(d.queues.take(k as int) =~= d.queues);
        }
        let ghost queued = relay@;
        let ghost by_id = d.bundles.map_values(|b: BundleView| (b.id, b));
        let mut n: usize = 0;
        proof {
            assert(by_id.take(0) =~= Seq::<(Seq<char>, BundleView)>::empty());
        }
        while n < disk.bundles.len()
            invariant
                n <= disk.bundles@.len(),
                d == disk@,
                by_id == d.bundles.map_values(|b: BundleView| (b.id, b)),
                relay@ == (RelayView { bundles: strmap::assoc(by_id.take(n as int)), ..queued }),
            decreases disk.bundles@.len() - n,
        {
            let b = disk.bundles[n].duplicate();
            let id = b.id.clone();
            proof {
                seqs::take_step(by_id, n as int);
                strmap::assoc_push(by_id.take(n as int), by_id[n as int]);
            }
            relay.put_bundle(id.as_str(), b);
            n = n + 1;
        }
        proof {
            assert(by_id.take(n as int) =~= by_id);
            strmap::assoc_keys(by_id);
        }
        relay
    }
}

// ---------------------------------------------------------------------------------------------
// The private keys.
// ---------------------------------------------------------------------------------------------

/// Why the private keys of a relay cannot be read or written.
pub enum DiskKeyError {
    /// The salt, the nonce or the ciphertext is not hexadecimal, for a reason.
    Encoding(String),
    /// No key can be derived from the passphrase and the salt.
    Derivation(String),
    /// The nonce does not have twelve bytes.
    NonceLength,
    /// The passphrase is not the one that the keys were protected with.
    WrongKey,
    /// The keys are too long to be encrypted.
    TooLong,
    /// The operating system has no randomness to give.
    Randomness(String),
}

/// Why the private keys of a relay cannot be read or written.
pub enum DiskKeyErrorView {
    Encoding(Seq<char>),
    Derivation(Seq<char>),
    NonceLength,
    WrongKey,
    TooLong,
    Randomness(Seq<char>),
}

impl View for DiskKeyError {
    type V = DiskKeyErrorView;

    open spec fn view(&self) -> DiskKeyErrorView {
        match self {
            DiskKeyError::Encoding(why) => DiskKeyErrorView::Encoding(why@),
            DiskKeyError::Derivation(why) => DiskKeyErrorView::Derivation(why@),
            DiskKeyError::NonceLength => DiskKeyErrorView::NonceLength,
            DiskKeyError::WrongKey => DiskKeyErrorView::WrongKey,
            DiskKeyError::TooLong => DiskKeyErrorView::TooLong,
            DiskKeyError::Randomness(why) => DiskKeyErrorView::Randomness(why@),
        }
    }
}

/// What the error says.
pub open spec fn disk_key_message(e: DiskKeyErrorView) -> Seq<char> {
    match e {
        DiskKeyErrorView::Encoding(why) => why,
        DiskKeyErrorView::Derivation(why) => "Argon2id derivation failed: "@ + why,
        DiskKeyErrorView::NonceLength => "invalid nonce length"@,
        DiskKeyErrorView::WrongKey => "failed to decrypt relay keys — is AXENO_KEY correct?"@,
        DiskKeyErrorView::TooLong => "ChaCha20Poly1305 encrypt failed: aead::Error"@,
        DiskKeyErrorView::Randomness(why) => why,
    }
}

impl DiskKeyError {
    /// What the error says.
    pub fn message(&self) -> (r: String)
        ensures
            r@ == disk_key_message(self@),
    {
        match self {
            DiskKeyError::Encoding(why) => why.clone(),
            DiskKeyError::Derivation(why) => text::concat2(
                "Argon2id derivation failed: ",
                why.as_str(),
            ),
            DiskKeyError::NonceLength => "invalid nonce length".to_string(),
            DiskKeyError::WrongKey => {
                "failed to decrypt relay keys — is AXENO_KEY correct?".to_string()
            },
            DiskKeyError::TooLong => "ChaCha20Poly1305 encrypt failed: aead::Error".to_string(),
            DiskKeyError::Randomness(why) => why.clone(),
        }
    }
}

/// The key that a passphrase and a salt give, or why they give none.
pub open spec fn disk_key(env_key: Seq<char>, salt: Seq<u8>) -> Result<Seq<u8>, Seq<char>> {
    let password = vstd::utf8::encode_utf8(env_key);
    match primitives::argon2id_refusal(password, salt) {
        Some(why) => Err(why),
        None => Ok(
            primitives::argon2id(
                password,
                salt,
                DISK_KEY_M_COST,
                DISK_KEY_T_COST,
                DISK_KEY_P_COST,
            ),
        ),
    }
}

/// The key that a passphrase and a salt give.
pub fn derive_key_from_env(env_key: &str, salt: &[u8]) -> (r: Result<Vec<u8>, String>)
    ensures
        seqs::outcome(r) == disk_key(env_key@, salt@),
        r matches Ok(k) ==> k@.len() == 32,
{
    primitives::derive_argon2id(
        env_key.as_bytes(),
        salt,
        DISK_KEY_M_COST,
        DISK_KEY_T_COST,
        DISK_KEY_P_COST,
    )
}

/// The written private keys under a passphrase, for a given salt and nonce.
pub open spec fn protected(
    plain: Seq<u8>,
    env_key: Seq<char>,
    salt: Seq<u8>,
    nonce: Seq<u8>,
) -> Result<EncryptedCryptoView, DiskKeyErrorView> {
    match disk_key(env_key, salt) {
        Err(why) => Err(DiskKeyErrorView::Derivation(why)),
        Ok(key) => if !primitives::sealable(plain.len()) {
            Err(DiskKeyErrorView::TooLong)
        } else {
            Ok(
                EncryptedCryptoView {
                    salt: encoding::hex_text(salt),
                    nonce: encoding::hex_text(nonce),
                    ciphertext: encoding::hex_text(primitives::sealed(key, nonce, plain)),
                },
            )
        },
    }
}

/// What reading protected private keys gives.
pub open spec fn unprotected(blob: EncryptedCryptoView, env_key: Seq<char>) -> Result<
    Seq<u8>,
    DiskKeyErrorView,
> {
    match encoding::hex_read(blob.salt) {
        Err(why) => Err(DiskKeyErrorView::Encoding(why)),
        Ok(salt) => match disk_key(env_key, salt) {
            Err(why) => Err(DiskKeyErrorView::Derivation(why)),
            Ok(key) => match encoding::hex_read(blob.nonce) {
                Err(why) => Err(DiskKeyErrorView::Encoding(why)),
                Ok(nonce) => if nonce.len() != 12 {
                    Err(DiskKeyErrorView::NonceLength)
                } else {
                    match encoding::hex_read(blob.ciphertext) {
                        Err(why) => Err(DiskKeyErrorView::Encoding(why)),
                        Ok(c) => match primitives::decrypted(key, nonce, c) {
                            None => Err(DiskKeyErrorView::WrongKey),
                            Some(plain) => Ok(plain),
                        },
                    }
                },
            },
        },
    }
}

/// Protects the written private keys with a passphrase, for a given salt and nonce.
pub fn protect_disk_crypto(
    plain: &[u8],
    env_key: &str,
    salt: &[u8],
    nonce: &[u8],
) -> (r: Result<EncryptedCryptoBlob, DiskKeyError>)
    requires
        nonce@.len() == 12,
    ensures
        match r {
            Ok(blob) => protected(plain@, env_key@, salt@, nonce@) == Ok::<
                EncryptedCryptoView,
                DiskKeyErrorView,
            >(blob@) && unprotected(blob@, env_key@) == Ok::<Seq<u8>, DiskKeyErrorView>(plain@),
            Err(e) => protected(plain@, env_key@, salt@, nonce@) == Err::<
                EncryptedCryptoView,
                DiskKeyErrorView,
            >(e@),
        },
{
    let mut key = match derive_key_from_env(env_key, salt) {
        Ok(k) => k,
        Err(why) => {
            return Err(DiskKeyError::Derivation(why));
        },
    };
    let sealed = primitives::seal(key.as_slice(), nonce, plain);
    primitives::wipe(&mut key);
    match sealed {
        None => Err(DiskKeyError::TooLong),
        Some(c) => {
            proof {
                encoding::hex_round_trip(salt@);
                encoding::hex_round_trip(nonce@);
                encoding::hex_round_trip(c@);
            }
            Ok(
                EncryptedCryptoBlob {
                    salt: encoding::to_hex(salt),
                    nonce: encoding::to_hex(nonce),
                    ciphertext: encoding::to_hex(c.as_slice()),
                },
            )
        },
    }
}

/// The passphrase opens the protected keys, which were made with some salt and nonce.
pub open spec fn protects(blob: EncryptedCryptoView, plain: Seq<u8>, env_key: Seq<char>) -> bool {
    &&& unprotected(blob, env_key) == Ok::<Seq<u8>, DiskKeyErrorView>(plain)
    &&& exists|salt: Seq<u8>, nonce: Seq<u8>|
        salt.len() == 16 && nonce.len() == 12 && #[trigger] protected(plain, env_key, salt, nonce)
            == Ok::<EncryptedCryptoView, DiskKeyErrorView>(blob)
}

/// Why keys can fail to be protected with a fresh salt and nonce.
pub open spec fn protection_refused(
    e: DiskKeyErrorView,
    plain: Seq<u8>,
    env_key: Seq<char>,
) -> bool {
    let too_long = vstd::utf8::encode_utf8(env_key).len() > 0xffff_ffff;
    match e {
        DiskKeyErrorView::Randomness(_) => true,
        DiskKeyErrorView::Derivation(why) => too_long && why == "password is too long"@,
        DiskKeyErrorView::TooLong => !too_long && !primitives::sealable(plain.len()),
        _ => false,
    }
}

/// Protects the written private keys with a passphrase, a fresh salt and a fresh nonce. What is
/// said where there is no randomness is the operating system's.
pub fn encrypt_disk_crypto(plain: &[u8], env_key: &str) -> (r: Result<
    EncryptedCryptoBlob,
    DiskKeyError,
>)
    ensures
        match r {
            Ok(blob) => protects(blob@, plain@, env_key@),
            Err(e) => protection_refused(e@, plain@, env_key@),
        },
{
    let salt = match primitives::draw_bytes(16) {
        Ok(s) => s,
        Err(why) => {
            return Err(DiskKeyError::Randomness(why));
        },
    };
    let nonce = match primitives::draw_bytes(12) {
        Ok(n) => n,
        Err(why) => {
            return Err(DiskKeyError::Randomness(why));
        },
    };
    protect_disk_crypto(plain, env_key, salt.as_slice(), nonce.as_slice())
}

/// Reads protected private keys with a passphrase.
pub fn decrypt_disk_crypto(blob: &EncryptedCryptoBlob, env_key: &str) -> (r: Result<
    Vec<u8>,
    DiskKeyError,
>)
    ensures
        match r {
            Ok(plain) => unprotected(blob@, env_key@) == Ok::<Seq<u8>, DiskKeyErrorView>(plain@),
            Err(e) => unprotected(blob@, env_key@) == Err::<Seq<u8>, DiskKeyErrorView>(e@),
        },
{
    let salt = match encoding::from_hex(blob.salt.as_str()) {
        Ok(s) => s,
        Err(why) => {
            return Err(DiskKeyError::Encoding(why));
        },
    };
    let mut key = match derive_key_from_env(env_key, salt.as_slice()) {
        Ok(k) => k,
        Err(why) => {
            return Err(DiskKeyError::Derivation(why));
        },
    };
    let nonce = match encoding::from_hex(blob.nonce.as_str()) {
        Ok(n) => n,
        Err(why) => {
            return Err(DiskKeyError::Encoding(why));
        },
    };
    if nonce.len() != primitives::NONCE_BYTES {
        return Err(DiskKeyError::NonceLength);
    }
    let c = match encoding::from_hex(blob.ciphertext.as_str()) {
        Ok(c) => c,
        Err(why) => {
            return Err(DiskKeyError::Encoding(why));
        },
    };
    let opened = primitives::open_sealed(key.as_slice(), nonce.as_slice(), c.as_slice());
    primitives::wipe(&mut key);
    match opened {
        Some(plain) => Ok(plain),
        None => Err(DiskKeyError::WrongKey),
    }
}

/// A passphrase counts only where it is not empty.
pub open spec fn usable(key: Option<Seq<char>>) -> Option<Seq<char>> {
    match key {
        Some(k) if k.len() > 0 => Some(k),
        _ => None,
    }
}

/// The passphrase, where it is not empty.
pub fn relay_encryption_key(key: Option<String>) -> (r: Option<String>)
    ensures
        seqs::opt(r) == usable(seqs::opt(key)),
{
    match key {
        Some(k) => if k.as_str().is_empty() {
            None
        } else {
            Some(k)
        },
        None => None,
    }
}

/// The private keys stand on disk as they should: under the passphrase where there is one, and
/// then not in the clear; in the clear otherwise. `written` is their written form.
pub open spec fn keys_settled(
    d: DiskView,
    crypto: DiskCryptoView,
    written: Seq<u8>,
    key: Option<Seq<char>>,
) -> bool {
    match key {
        Some(k) => d.crypto is None && (d.encrypted_crypto matches Some(blob) && protects(
            blob,
            written,
            k,
        )),
        None => d.crypto == Some(crypto) && d.encrypted_crypto is None,
    }
}

/// The private keys as they go to disk: protected where a passphrase is set.
pub fn keys_for_disk(crypto: DiskCrypto, written: &[u8], key: Option<String>) -> (r: Result<
    DiskKeys,
    DiskKeyError,
>)
    ensures
        match usable(seqs::opt(key)) {
            Some(k) => match r {
                Ok(keys) => keys matches DiskKeys::Protected { blob } && protects(
                    blob@,
                    written@,
                    k,
                ),
                Err(e) => protection_refused(e@, written@, k),
            },
            None => r == Ok::<DiskKeys, DiskKeyError>(DiskKeys::Plain { crypto }),
        },
{
    match relay_encryption_key(key) {
        Some(k) => match encrypt_disk_crypto(written, k.as_str()) {
            Ok(blob) => Ok(DiskKeys::Protected { blob }),
            Err(e) => Err(e),
        },
        None => Ok(DiskKeys::Plain { crypto }),
    }
}

/// A state with the private keys in the form in which they are to stand on disk.
pub fn place_keys(disk: DiskState, keys: DiskKeys) -> (r: DiskState)
    ensures
        keys_written(r@, keys),
        r@ == (DiskView {
            crypto: r@.crypto,
            encrypted_crypto: r@.encrypted_crypto,
            ..disk@
        }),
{
    let mut placed = disk;
    match keys {
        DiskKeys::Plain { crypto } => {
            placed.crypto = Some(crypto);
            placed.encrypted_crypto = None;
        },
        DiskKeys::Protected { blob } => {
            placed.crypto = None;
            placed.encrypted_crypto = Some(blob);
        },
    }
    placed
}

/// The state with the private keys that it holds, or else with fresh ones, and the text of the
/// trust root.
pub open spec fn settled(d: DiskView, fresh: DiskCryptoView) -> (DiskView, Seq<char>) {
    let kept = match d.crypto {
        Some(crypto) => crypto,
        None => fresh,
    };
    (
        DiskView { crypto: Some(kept), ..d },
        encoding::b64_text(kept.trust_root_public, false),
    )
}

/// Keeps the private keys of a state that was read from disk, or takes fresh ones where it has
/// none. Gives the text of the trust root.
pub fn settle_keys(disk: &mut DiskState, fresh: DiskCrypto) -> (r: String)
    ensures
        (final(disk)@, r@) == settled(old(disk)@, fresh@),
{
    let root = match &disk.crypto {
        Some(crypto) => encoding::to_b64(crypto.trust_root_public.as_slice()),
        None => encoding::to_b64(fresh.trust_root_public.as_slice()),
    };
    if disk.crypto.is_none() {
        disk.crypto = Some(fresh);
    }
    root
}

/// What to do with the private keys of a state that was read from disk.
pub enum KeyPlan {
    /// Decrypt the protected keys with the passphrase.
    Decrypt,
    /// Take the keys as they stand; they will be protected at the next write.
    Migrate,
    /// Take the keys as they stand, where there are any.
    Keep,
}

/// What to do with the private keys, or why nothing can be done.
pub open spec fn planned_keys(d: DiskView, key: Option<Seq<char>>) -> Result<KeyPlan, Seq<char>> {
    match (d.encrypted_crypto, key) {
        (Some(_), Some(_)) => Ok(KeyPlan::Decrypt),
        (Some(_), None) => Err(
            "relay-state.json contains encrypted keys but AXENO_KEY is not set. Set AXENO_KEY to the same value used when the keys were encrypted."@,
        ),
        (None, Some(_)) => Ok(
            if d.crypto is Some {
                KeyPlan::Migrate
            } else {
                KeyPlan::Keep
            },
        ),
        (None, None) => Ok(KeyPlan::Keep),
    }
}

/// What to do with the private keys of a state that was read from disk.
pub fn plan_keys(disk: &DiskState, key: &Option<String>) -> (r: Result<KeyPlan, String>)
    ensures
        match r {
            Ok(plan) => planned_keys(disk@, seqs::opt(*key)) == Ok::<KeyPlan, Seq<char>>(plan),
            Err(e) => planned_keys(disk@, seqs::opt(*key)) == Err::<KeyPlan, Seq<char>>(e@),
        },
{
    match (&disk.encrypted_crypto, key) {
        (Some(_), Some(_)) => Ok(KeyPlan::Decrypt),
        (Some(_), None) => Err(
            "relay-state.json contains encrypted keys but AXENO_KEY is not set. Set AXENO_KEY to the same value used when the keys were encrypted.".to_string(),
        ),
        (None, Some(_)) => {
            if disk.crypto.is_some() {
                Ok(KeyPlan::Migrate)
            } else {
                Ok(KeyPlan::Keep)
            }
        },
        (None, None) => Ok(KeyPlan::Keep),
    }
}

// ---------------------------------------------------------------------------------------------
// Laws.
// ---------------------------------------------------------------------------------------------

proof fn token_lists_assoc(s: Seq<(Seq<char>, MailboxAuthView)>)
    ensures
        strmap::assoc(with_token_lists(s)) == strmap::assoc(s).map_values(
            |a: MailboxAuthView| with_token_list(a),
        ),
    decreases s.len(),
{
    let f = |a: MailboxAuthView| with_token_list(a);
    if s.len() == 0 {
        assert(with_token_lists(s) =~= Seq::<(Seq<char>, MailboxAuthView)>::empty());
        assert(strmap::assoc(s).map_values(f) =~= Map::<Seq<char>, MailboxAuthView>::empty());
    } else {
        let t = s.drop_last();
        token_lists_assoc(t);
        assert(with_token_lists(s).drop_last() =~= with_token_lists(t));
        assert(strmap::assoc(s).map_values(f) =~= strmap::assoc(t).map_values(f).insert(
            s.last().0,
            with_token_list(s.last().1),
        ));
    }
}

proof fn kept_bundles_assoc(keyed: Seq<(Seq<char>, BundleView)>, now_ms: u64)
    requires
        strmap::distinct_keys(keyed),
        forall|i: int| 0 <= i < keyed.len() ==> (#[trigger] keyed[i]).0 == keyed[i].1.id,
    ensures
        bundles_by_id(
            keyed.map_values(|e: (Seq<char>, BundleView)| e.1).filter(unexpired(now_ms)),
        ) == state::live_bundles(strmap::assoc(keyed), now_ms),
    decreases keyed.len(),
{
    let f = |e: (Seq<char>, BundleView)| e.1;
    let g = |b: BundleView| (b.id, b);
    let p = unexpired(now_ms);
    let list = keyed.map_values(f);
    if keyed.len() == 0 {
        seqs::filter_empty(list, p);
        assert(list.filter(p).map_values(g) =~= Seq::<(Seq<char>, BundleView)>::empty());
        assert(state::live_bundles(strmap::assoc(keyed), now_ms) =~= Map::<
            Seq<char>,
            BundleView,
        >::empty());
    } else {
        let t = keyed.drop_last();
        let e = keyed.last();
        assert forall|i: int| 0 <= i < t.len() implies (#[trigger] t[i]).0 == t[i].1.id by {
            assert(t[i] == keyed[i]);
        }
        kept_bundles_assoc(t, now_ms);
        let tl = t.map_values(f);
        assert(list =~= tl.push(e.1));
        seqs::filter_push(tl, e.1, p);
        assert(keyed[keyed.len() - 1].0 == e.1.id);
        strmap::assoc_keys(t);
        assert(!strmap::assoc(t).contains_key(e.0));
        let live = state::live_bundles(strmap::assoc(keyed), now_ms);
        let before = state::live_bundles(strmap::assoc(t), now_ms);
        if p(e.1) {
            assert(tl.filter(p).push(e.1).map_values(g) =~= tl.filter(p).map_values(g).push(
                (e.1.id, e.1),
            ));
            strmap::assoc_push(tl.filter(p).map_values(g), (e.1.id, e.1));
            assert(live =~= before.insert(e.0, e.1));
        } else {
            assert(live =~= before);
        }
    }
}

proof fn listed_once(s: Seq<(Seq<char>, Seq<EnvelopeView>)>)
    requires
        strmap::distinct_keys(s),
    ensures
        listed_bytes(s) == state::total_bytes(strmap::assoc(s)),
    decreases s.len(),
{
    if s.len() > 0 {
        let t = s.drop_last();
        let e = s.last();
        assert forall|i: int, j: int| 0 <= i < j < t.len() implies (#[trigger] t[i]).0 != (
        #[trigger] t[j]).0 by {
            assert(s[i].0 != s[j].0);
        }
        listed_once(t);
        strmap::assoc_keys(t);
        assert(!strmap::assoc(t).contains_key(e.0)) by {
            if strmap::assoc(t).contains_key(e.0) {
                let i = choose|i: int| 0 <= i < t.len() && (#[trigger] t[i]).0 == e.0;
                assert(s[i].0 != s[s.len() - 1].0);
            }
        }
        state::total_insert(strmap::assoc(t), e.0, e.1);
    }
}

/// A relay that is started from what it wrote knows what it knew: the same queues envelope by
/// envelope, the same mailboxes, and the bundles whose time had not come. No socket is live.
pub proof fn restarts_keep_everything(
    v: RelayView,
    d: DiskView,
    written_ms: u64,
    trust_root: Seq<char>,
)
    requires
        state::relay_inv(v),
        state::well_addressed(v),
        records(d, v),
    ensures
        ({
            let w = restored(pruned_disk(d, written_ms), trust_root);
            &&& w.queues == v.queues
            &&& w.queued_bytes == state::total_bytes(v.queues)
            &&& state::surplus(w) == 0
            &&& w.mailboxes == v.mailboxes.map_values(|a: MailboxAuthView| with_token_list(a))
            &&& w.mailbox_count == v.mailbox_count
            &&& w.bundles == state::live_bundles(v.bundles, written_ms)
            &&& w.online == Map::<Seq<char>, u64>::empty()
        }),
{
    token_lists_assoc(d.mailbox_auth);
    let f = |a: MailboxAuthView| with_token_list(a);
    assert(v.mailboxes.map_values(f).dom() =~= v.mailboxes.dom());
    let keyed = choose|keyed: Seq<(Seq<char>, BundleView)>|
        #![trigger strmap::assoc(keyed)]
        strmap::assoc(keyed) == v.bundles && strmap::distinct_keys(keyed) && d.bundles
            == keyed.map_values(|e: (Seq<char>, BundleView)| e.1);
    assert forall|i: int| 0 <= i < keyed.len() implies (#[trigger] keyed[i]).0
        == keyed[i].1.id by {
        strmap::assoc_at(keyed, i);
        assert(v.bundles.contains_key(keyed[i].0));
    }
    kept_bundles_assoc(keyed, written_ms);
    listed_once(d.queues);
}

/// A relay that is started from what it wrote has the private keys that it had, and the same trust
/// root: it finds them in the clear, or its passphrase opens their written form.
pub proof fn restarts_keep_the_keys(
    d: DiskView,
    crypto: DiskCryptoView,
    written: Seq<u8>,
    key: Option<Seq<char>>,
    fresh: DiskCryptoView,
)
    requires
        keys_settled(d, crypto, written, key),
    ensures
        ({
            let root = encoding::b64_text(crypto.trust_root_public, false);
            match key {
                None => planned_keys(d, key) == Ok::<KeyPlan, Seq<char>>(KeyPlan::Keep) && settled(
                    d,
                    fresh,
                ) == (d, root),
                Some(k) => {
                    let opened = DiskView { crypto: Some(crypto), ..d };
                    &&& planned_keys(d, key) == Ok::<KeyPlan, Seq<char>>(KeyPlan::Decrypt)
                    &&& unprotected(d.encrypted_crypto->0, k) == Ok::<
                        Seq<u8>,
                        DiskKeyErrorView,
                    >(written)
                    &&& settled(opened, fresh) == (opened, root)
                },
            }
        }),
{
}

/// With a passphrase, what is written holds no private key in the clear.
pub proof fn protected_keys_stay_off_the_disk(
    d: DiskView,
    blob: EncryptedCryptoBlob,
    written_ms: u64,
)
    requires
        keys_written(d, DiskKeys::Protected { blob }),
    ensures
        pruned_disk(d, written_ms).crypto is None,
        pruned_disk(d, written_ms).encrypted_crypto == Some(blob@),
{
}

} // verus!
