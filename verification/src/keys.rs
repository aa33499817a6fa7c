//! Key material: what the vault holds, and what is handed to the Signal engine.
use crate::contacts;
use crate::encoding;
use crate::primitives;
use crate::seqs;
use crate::seqs::Duplicate;
use crate::store::ContactView;
use crate::store::KyberPreKeyBlob;
use crate::store::KyberView;
use crate::store::LocalRoute;
use crate::store::MessagingStore;
use crate::store::RouteView;
use crate::store::SessionView;
use crate::store::SignalSessionBlob;
use crate::store::StoreView;
use crate::store::StoredContact;
use crate::text;
use vstd::prelude::*;

verus! {

/// How long a Kyber prekey is offered before it is replaced.
pub const KYBER_PREKEY_ROTATION_MS: u64 = 2_592_000_000;

/// How long a replaced Kyber prekey is kept for messages that still use it.
pub const KYBER_PREKEY_RETENTION_MS: u64 = 5_184_000_000;

/// The id of the first Kyber prekey.
pub const KYBER_PREKEY_ID: u32 = 1;

/// The public half of a one-time prekey.
pub struct OpkPublic {
    pub id: u32,
    pub public_key: Vec<u8>,
}

/// The public half of a one-time prekey.
#[verifier::ext_equal]
pub struct OpkPublicView {
    pub id: u32,
    pub public_key: Seq<u8>,
}

impl View for OpkPublic {
    type V = OpkPublicView;

    open spec fn view(&self) -> OpkPublicView {
        OpkPublicView {
            id: self.id,
            public_key: self.public_key@,
        }
    }
}

impl Duplicate for OpkPublic {
    fn duplicate(&self) -> (r: Self) {
        OpkPublic {
            id: self.id,
            public_key: self.public_key.clone(),
        }
    }
}

/// The private half of a one-time prekey.
pub struct OpkSecret {
    pub id: u32,
    pub private_key: Vec<u8>,
}

/// The private half of a one-time prekey.
#[verifier::ext_equal]
pub struct OpkSecretView {
    pub id: u32,
    pub private_key: Seq<u8>,
}

impl View for OpkSecret {
    type V = OpkSecretView;

    open spec fn view(&self) -> OpkSecretView {
        OpkSecretView {
            id: self.id,
            private_key: self.private_key@,
        }
    }
}

impl Duplicate for OpkSecret {
    fn duplicate(&self) -> (r: Self) {
        OpkSecret {
            id: self.id,
            private_key: self.private_key.clone(),
        }
    }
}

/// The public half of a signed prekey that was replaced.
pub struct SignedPreKeyPublic {
    pub id: u32,
    pub public_key: Vec<u8>,
    pub signature: Vec<u8>,
    pub created_at_ms: u64,
}

/// The public half of a signed prekey that was replaced.
#[verifier::ext_equal]
pub struct SignedPreKeyPublicView {
    pub id: u32,
    pub public_key: Seq<u8>,
    pub signature: Seq<u8>,
    pub created_at_ms: u64,
}

impl View for SignedPreKeyPublic {
    type V = SignedPreKeyPublicView;

    open spec fn view(&self) -> SignedPreKeyPublicView {
        SignedPreKeyPublicView {
            id: self.id,
            public_key: self.public_key@,
            signature: self.signature@,
            created_at_ms: self.created_at_ms,
        }
    }
}

impl Duplicate for SignedPreKeyPublic {
    fn duplicate(&self) -> (r: Self) {
        SignedPreKeyPublic {
            id: self.id,
            public_key: self.public_key.clone(),
            signature: self.signature.clone(),
            created_at_ms: self.created_at_ms,
        }
    }
}

/// The private half of a signed prekey that was replaced.
pub struct SignedPreKeySecret {
    pub id: u32,
    pub private_key: Vec<u8>,
}

/// The private half of a signed prekey that was replaced.
#[verifier::ext_equal]
pub struct SignedPreKeySecretView {
    pub id: u32,
    pub private_key: Seq<u8>,
}

impl View for SignedPreKeySecret {
    type V = SignedPreKeySecretView;

    open spec fn view(&self) -> SignedPreKeySecretView {
        SignedPreKeySecretView {
            id: self.id,
            private_key: self.private_key@,
        }
    }
}

impl Duplicate for SignedPreKeySecret {
    fn duplicate(&self) -> (r: Self) {
        SignedPreKeySecret {
            id: self.id,
            private_key: self.private_key.clone(),
        }
    }
}

/// The public half of the local identity.
pub struct LocalBundle {
    pub public_key: Vec<u8>,
    pub registration_id: u16,
    pub signed_prekey_id: u32,
    pub signed_prekey_public: Vec<u8>,
    pub signed_prekey_signature: Vec<u8>,
    pub previous_signed_prekeys: Vec<SignedPreKeyPublic>,
    pub opks_public: Vec<OpkPublic>,
}

/// The public half of the local identity.
#[verifier::ext_equal]
pub struct LocalBundleView {
    pub public_key: Seq<u8>,
    pub registration_id: u16,
    pub signed_prekey_id: u32,
    pub signed_prekey_public: Seq<u8>,
    pub signed_prekey_signature: Seq<u8>,
    pub previous_signed_prekeys: Seq<SignedPreKeyPublicView>,
    pub opks_public: Seq<OpkPublicView>,
}

impl View for LocalBundle {
    type V = LocalBundleView;

    open spec fn view(&self) -> LocalBundleView {
        LocalBundleView {
            public_key: self.public_key@,
            registration_id: self.registration_id,
            signed_prekey_id: self.signed_prekey_id,
            signed_prekey_public: self.signed_prekey_public@,
            signed_prekey_signature: self.signed_prekey_signature@,
            previous_signed_prekeys: seqs::views(self.previous_signed_prekeys@),
            opks_public: seqs::views(self.opks_public@),
        }
    }
}

impl Duplicate for LocalBundle {
    fn duplicate(&self) -> (r: Self) {
        LocalBundle {
            public_key: self.public_key.clone(),
            registration_id: self.registration_id,
            signed_prekey_id: self.signed_prekey_id,
            signed_prekey_public: self.signed_prekey_public.clone(),
            signed_prekey_signature: self.signed_prekey_signature.clone(),
            previous_signed_prekeys: seqs::duplicate_vec(&self.previous_signed_prekeys),
            opks_public: seqs::duplicate_vec(&self.opks_public),
        }
    }
}

/// The private half of the local identity, and the name its owner goes by.
pub struct VaultSecrets {
    pub identity_priv: Vec<u8>,
    pub spk_priv: Vec<u8>,
    pub previous_spks_secret: Vec<SignedPreKeySecret>,
    pub opks_secret: Vec<OpkSecret>,
    pub display_name: String,
}

/// The private half of the local identity, and the name its owner goes by.
#[verifier::ext_equal]
pub struct SecretsView {
    pub identity_priv: Seq<u8>,
    pub spk_priv: Seq<u8>,
    pub previous_spks_secret: Seq<SignedPreKeySecretView>,
    pub opks_secret: Seq<OpkSecretView>,
    pub display_name: Seq<char>,
}

impl View for VaultSecrets {
    type V = SecretsView;

    open spec fn view(&self) -> SecretsView {
        SecretsView {
            identity_priv: self.identity_priv@,
            spk_priv: self.spk_priv@,
            previous_spks_secret: seqs::views(self.previous_spks_secret@),
            opks_secret: seqs::views(self.opks_secret@),
            display_name: self.display_name@,
        }
    }
}

impl Duplicate for VaultSecrets {
    fn duplicate(&self) -> (r: Self) {
        VaultSecrets {
            identity_priv: self.identity_priv.clone(),
            spk_priv: self.spk_priv.clone(),
            previous_spks_secret: seqs::duplicate_vec(&self.previous_spks_secret),
            opks_secret: seqs::duplicate_vec(&self.opks_secret),
            display_name: self.display_name.clone(),
        }
    }
}

/// A signed prekey with both halves.
pub struct SignedPreKeyRecordParts {
    pub id: u32,
    pub created_at_ms: u64,
    pub public_key: Vec<u8>,
    pub private_key: Vec<u8>,
    pub signature: Vec<u8>,
}

/// A signed prekey with both halves.
#[verifier::ext_equal]
pub struct SignedRecordView {
    pub id: u32,
    pub created_at_ms: u64,
    pub public_key: Seq<u8>,
    pub private_key: Seq<u8>,
    pub signature: Seq<u8>,
}

impl View for SignedPreKeyRecordParts {
    type V = SignedRecordView;

    open spec fn view(&self) -> SignedRecordView {
        SignedRecordView {
            id: self.id,
            created_at_ms: self.created_at_ms,
            public_key: self.public_key@,
            private_key: self.private_key@,
            signature: self.signature@,
        }
    }
}

/// A one-time prekey with both halves.
pub struct PreKeyRecordParts {
    pub id: u32,
    pub public_key: Vec<u8>,
    pub private_key: Vec<u8>,
}

/// A one-time prekey with both halves.
#[verifier::ext_equal]
pub struct PreKeyRecordView {
    pub id: u32,
    pub public_key: Seq<u8>,
    pub private_key: Seq<u8>,
}

impl View for PreKeyRecordParts {
    type V = PreKeyRecordView;

    open spec fn view(&self) -> PreKeyRecordView {
        PreKeyRecordView {
            id: self.id,
            public_key: self.public_key@,
            private_key: self.private_key@,
        }
    }
}

/// A Kyber prekey, serialized.
pub struct KyberRecordParts {
    pub id: u32,
    pub record: Vec<u8>,
}

/// A Kyber prekey, serialized.
#[verifier::ext_equal]
pub struct KyberRecordView {
    pub id: u32,
    pub record: Seq<u8>,
}

impl View for KyberRecordParts {
    type V = KyberRecordView;

    open spec fn view(&self) -> KyberRecordView {
        KyberRecordView {
            id: self.id,
            record: self.record@,
        }
    }
}

/// A session, serialized, and whom it is with.
pub struct SessionRecordParts {
    pub address_name: String,
    pub device_id: u32,
    pub record: Vec<u8>,
}

/// A session, serialized, and whom it is with.
#[verifier::ext_equal]
pub struct SessionRecordView {
    pub address_name: Seq<char>,
    pub device_id: u32,
    pub record: Seq<u8>,
}

impl View for SessionRecordParts {
    type V = SessionRecordView;

    open spec fn view(&self) -> SessionRecordView {
        SessionRecordView {
            address_name: self.address_name@,
            device_id: self.device_id,
            record: self.record@,
        }
    }
}

/// The prekey bundle of a contact, decoded.
pub struct BundleParts {
    pub registration_id: u32,
    pub device_id: u32,
    pub identity: Vec<u8>,
    pub signed_prekey_id: u32,
    pub signed_prekey: Vec<u8>,
    pub signed_prekey_signature: Vec<u8>,
    pub opk: Option<OpkPublic>,
    pub kyber_prekey_id: u32,
    pub kyber_prekey: Vec<u8>,
    pub kyber_prekey_signature: Vec<u8>,
}

/// The prekey bundle of a contact, decoded.
#[verifier::ext_equal]
pub struct BundlePartsView {
    pub registration_id: u32,
    pub device_id: u32,
    pub identity: Seq<u8>,
    pub signed_prekey_id: u32,
    pub signed_prekey: Seq<u8>,
    pub signed_prekey_signature: Seq<u8>,
    pub opk: Option<OpkPublicView>,
    pub kyber_prekey_id: u32,
    pub kyber_prekey: Seq<u8>,
    pub kyber_prekey_signature: Seq<u8>,
}

impl View for BundleParts {
    type V = BundlePartsView;

    open spec fn view(&self) -> BundlePartsView {
        BundlePartsView {
            registration_id: self.registration_id,
            device_id: self.device_id,
            identity: self.identity@,
            signed_prekey_id: self.signed_prekey_id,
            signed_prekey: self.signed_prekey@,
            signed_prekey_signature: self.signed_prekey_signature@,
            opk: seqs::opt(self.opk),
            kyber_prekey_id: self.kyber_prekey_id,
            kyber_prekey: self.kyber_prekey@,
            kyber_prekey_signature: self.kyber_prekey_signature@,
        }
    }
}

/// The secrets with every private key overwritten and gone.
pub open spec fn without_keys(s: SecretsView) -> SecretsView {
    SecretsView {
        identity_priv: Seq::empty(),
        spk_priv: Seq::empty(),
        previous_spks_secret: Seq::new(
            s.previous_spks_secret.len(),
            |i: int|
                SignedPreKeySecretView {
                    private_key: Seq::empty(),
                    ..s.previous_spks_secret[i]
                },
        ),
        opks_secret: Seq::new(
            s.opks_secret.len(),
            |i: int| OpkSecretView { private_key: Seq::empty(), ..s.opks_secret[i] },
        ),
        ..s
    }
}

impl VaultSecrets {
    /// Overwrites the private keys.
    pub fn wipe(&mut self)
        ensures
            final(self)@ == without_keys(old(self)@),
    {
        let ghost before = self@;
        primitives::wipe(&mut self.identity_priv);
        primitives::wipe(&mut self.spk_priv);
        let n: usize = self.previous_spks_secret.len();
        let mut i: usize = 0;
        while i < n
            invariant
                i <= n,
                n == self.previous_spks_secret@.len(),
                n == before.previous_spks_secret.len(),
                self.identity_priv@ == Seq::<u8>::empty(),
                self.spk_priv@ == Seq::<u8>::empty(),
                self.display_name@ == before.display_name,
                seqs::views(self.opks_secret@) == before.opks_secret,
                forall|j: int|
                    0 <= j < n ==> (#[trigger] self.previous_spks_secret@[j])@ == if j < i {
                        without_keys(before).previous_spks_secret[j]
                    } else {
                        before.previous_spks_secret[j]
                    },
            decreases n - i,
        {
            primitives::wipe(&mut self.previous_spks_secret[i].private_key);
            i = i + 1;
        }
        let m: usize = self.opks_secret.len();
        let mut k: usize = 0;
        while k < m
            invariant
                k <= m,
                m == self.opks_secret@.len(),
                m == before.opks_secret.len(),
                n == self.previous_spks_secret@.len(),
                n == before.previous_spks_secret.len(),
                self.identity_priv@ == Seq::<u8>::empty(),
                self.spk_priv@ == Seq::<u8>::empty(),
                self.display_name@ == before.display_name,
                forall|j: int|
                    0 <= j < n ==> (#[trigger] self.previous_spks_secret@[j])@ == without_keys(
                        before,
                    ).previous_spks_secret[j],
                forall|j: int|
                    0 <= j < m ==> (#[trigger] self.opks_secret@[j])@ == if j < k {
                        without_keys(before).opks_secret[j]
                    } else {
                        before.opks_secret[j]
                    },
            decreases m - k,
        {
            primitives::wipe(&mut self.opks_secret[k].private_key);
            k = k + 1;
        }
        proof {
            assert(seqs::views(self.previous_spks_secret@) =~= without_keys(
                before,
            ).previous_spks_secret);
            assert(seqs::views(self.opks_secret@) =~= without_keys(before).opks_secret);
        }
    }
}

// ---------------------------------------------------------------------------------------------
// Labelled base64.
// ---------------------------------------------------------------------------------------------

/// What a base64 text holds, or an error that names what was to be read.
pub open spec fn labelled(s: Seq<char>, label: Seq<char>) -> Result<Seq<u8>, Seq<char>> {
    match encoding::b64_bytes(s, false) {
        Some(b) => Ok(b),
        None => Err("bad base64 for "@ + label),
    }
}

/// Reads a base64 text; the error names what was to be read.
pub fn decode_b64(s: &str, label: &str) -> (r: Result<Vec<u8>, String>)
    ensures
        seqs::outcome(r) == labelled(s@, label@),
{
    match encoding::from_b64(s) {
        Some(b) => Ok(b),
        None => Err(text::concat2("bad base64 for ", label)),
    }
}

/// The certificate key pair of a route, decoded: the public and the private half.
pub open spec fn route_identity(r: RouteView) -> Result<(Seq<u8>, Seq<u8>), Seq<char>> {
    match labelled(
        r.sealed_sender_cert_public_b64,
        "route sealed-sender certificate public key"@,
    ) {
        Err(e) => Err(e),
        Ok(public) => match labelled(
            r.sealed_sender_cert_private_b64,
            "route sealed-sender certificate private key"@,
        ) {
            Err(e) => Err(e),
            Ok(private) => Ok((public, private)),
        },
    }
}

/// The certificate key pair of a route, decoded.
pub fn route_sealed_sender_identity(route: &LocalRoute) -> (r: Result<(Vec<u8>, Vec<u8>), String>)
    ensures
        seqs::outcome(r) == route_identity(route@),
{
    let public = match decode_b64(
        route.sealed_sender_cert_public_b64.as_str(),
        "route sealed-sender certificate public key",
    ) {
        Ok(b) => b,
        Err(e) => {
            return Err(e);
        },
    };
    let private = match decode_b64(
        route.sealed_sender_cert_private_b64.as_str(),
        "route sealed-sender certificate private key",
    ) {
        Ok(b) => b,
        Err(e) => {
            return Err(e);
        },
    };
    Ok((public, private))
}

// ---------------------------------------------------------------------------------------------
// One-time prekeys.
// ---------------------------------------------------------------------------------------------

/// The one-time prekey was never offered.
pub open spec fn unused(used: Seq<u32>) -> spec_fn(OpkPublicView) -> bool {
    |o: OpkPublicView| !used.contains(o.id)
}

/// Whether the list holds the id.
pub fn holds_id(ids: &Vec<u32>, id: u32) -> (r: bool)
    ensures
        r == ids@.contains(id),
{
    let mut i: usize = 0;
    while i < ids.len()
        invariant
            i <= ids@.len(),
            forall|j: int| 0 <= j < i ==> ids@[j] != id,
        decreases ids@.len() - i,
    {
        if ids[i] == id {
            proof {
                assert(ids@[i as int] == id);
            }
            return true;
        }
        i = i + 1;
    }
    false
}

/// The store after a one-time prekey was set aside for an invite, and the prekey.
pub open spec fn opk_taken(st: StoreView, opks: Seq<OpkPublicView>) -> (
    StoreView,
    Result<OpkPublicView, Seq<char>>,
) {
    match seqs::first_where(opks, unused(st.used_opk_ids)) {
        Some(o) => (StoreView { used_opk_ids: st.used_opk_ids.push(o.id), ..st }, Ok(o)),
        None => (
            st,
            Err(
                "no fresh one-time prekeys are available; restart Axeno or unlock again to replenish the pool"@,
            ),
        ),
    }
}

/// Sets a one-time prekey aside that was never offered.
pub fn take_opk(store: &mut MessagingStore, opks: &Vec<OpkPublic>) -> (r: Result<OpkPublic, String>)
    ensures
        (final(store)@, seqs::outcome(r)) == opk_taken(old(store)@, seqs::views(opks@)),
{
    let ghost all = seqs::views(opks@);
    let ghost used = store@.used_opk_ids;
    let ghost before = store@;
    let mut i: usize = 0;
    while i < opks.len()
        invariant
            i <= opks@.len(),
            all == seqs::views(opks@),
            store@ == before,
            before == old(store)@,
            used == before.used_opk_ids,
            forall|j: int| 0 <= j < i ==> !unused(used)(#[trigger] all[j]),
        decreases opks@.len() - i,
    {
        if !holds_id(&store.used_opk_ids, opks[i].id) {
            proof {
                assert(all[i as int] == opks@[i as int]@);
                seqs::find_is(all, unused(used), i as int);
            }
            let opk = opks[i].duplicate();
            store.used_opk_ids.push(opk.id);
            return Ok(opk);
        }
        proof {
            assert(all[i as int] == opks@[i as int]@);
        }
        i = i + 1;
    }
    proof {
        seqs::find_none(all, unused(used));
    }
    Err(
        "no fresh one-time prekeys are available; restart Axeno or unlock again to replenish the pool".to_string(),
    )
}

/// The ids, and those of a list that are not among them yet.
pub open spec fn with_ids(ids: Seq<u32>, more: Seq<u32>) -> Seq<u32>
    decreases more.len(),
{
    if more.len() == 0 {
        ids
    } else {
        let before = with_ids(ids, more.drop_last());
        if before.contains(more.last()) {
            before
        } else {
            before.push(more.last())
        }
    }
}

/// Notes that one-time prekeys were used up.
pub fn note_used_opks(store: &mut MessagingStore, consumed: &Vec<u32>)
    ensures
        final(store)@ == (StoreView {
            used_opk_ids: with_ids(old(store)@.used_opk_ids, consumed@),
            ..old(store)@
        }),
{
    let ghost before = store@;
    let mut i: usize = 0;
    proof {
        assert(consumed@.take(0) =~= Seq::<u32>::empty());
    }
    while i < consumed.len()
        invariant
            i <= consumed@.len(),
            before == old(store)@,
            store@ == (StoreView {
                used_opk_ids: with_ids(before.used_opk_ids, consumed@.take(i as int)),
                ..before
            }),
        decreases consumed@.len() - i,
    {
        proof {
            seqs::take_step(consumed@, i as int);
        }
        if !holds_id(&store.used_opk_ids, consumed[i]) {
            store.used_opk_ids.push(consumed[i]);
        }
        i = i + 1;
    }
    proof {
        assert(consumed@.take(i as int) =~= consumed@);
    }
}

/// The pool of one-time prekeys is low and has to be filled up on disk too.
pub fn opk_pool_is_low(public_count: usize, secret_count: usize) -> (r: bool)
    ensures
        r == (public_count < 20 || secret_count < 20),
{
    public_count < 20 || secret_count < 20
}

// ---------------------------------------------------------------------------------------------
// Kyber prekeys.
// ---------------------------------------------------------------------------------------------

/// How long ago something was, at least zero.
pub open spec fn age(now_ms: u64, at_ms: u64) -> u64 {
    if now_ms >= at_ms {
        (now_ms - at_ms) as u64
    } else {
        0
    }
}

/// The prekey need not be replaced yet.
pub open spec fn kyber_is_fresh(k: KyberView, now_ms: u64) -> bool {
    age(now_ms, k.created_at_ms) < KYBER_PREKEY_ROTATION_MS
}

/// The replaced prekey is kept for messages that still use it.
pub open spec fn kyber_is_kept(now_ms: u64) -> spec_fn(KyberView) -> bool {
    |k: KyberView| age(now_ms, k.created_at_ms) <= KYBER_PREKEY_RETENTION_MS
}

/// The larger of two ids.
pub open spec fn larger_id(a: u32, b: u32) -> u32 {
    if a >= b {
        a
    } else {
        b
    }
}

/// The largest id of the prekeys, and not less than the floor.
pub open spec fn largest_id(ks: Seq<KyberView>, floor: u32) -> u32
    decreases ks.len(),
{
    if ks.len() == 0 {
        floor
    } else {
        larger_id(largest_id(ks.drop_last(), floor), ks.last().id)
    }
}

/// The id after another, as far as there is one.
pub open spec fn id_after(id: u32) -> u32 {
    if id == u32::MAX {
        u32::MAX
    } else {
        (id + 1) as u32
    }
}

/// The id of the next Kyber prekey.
pub open spec fn next_kyber_id(st: StoreView) -> u32 {
    id_after(
        largest_id(
            st.previous_kyber_prekeys,
            match st.local_kyber_prekey {
                Some(k) => k.id,
                None => (KYBER_PREKEY_ID - 1) as u32,
            },
        ),
    )
}

/// The store after the current Kyber prekey was looked at, and the prekey where it can stay; where
/// it cannot, it is among the previous ones, and those too old are gone.
pub open spec fn kyber_reviewed(st: StoreView, now_ms: u64) -> (StoreView, Option<KyberView>) {
    match st.local_kyber_prekey {
        Some(k) if kyber_is_fresh(k, now_ms) => (st, Some(k)),
        _ => {
            let previous = match st.local_kyber_prekey {
                Some(k) => st.previous_kyber_prekeys.push(k),
                None => st.previous_kyber_prekeys,
            };
            (
                StoreView {
                    previous_kyber_prekeys: previous.filter(kyber_is_kept(now_ms)),
                    ..st
                },
                None,
            )
        },
    }
}

fn keep_kyber(previous: &mut Vec<KyberPreKeyBlob>, now_ms: u64)
    ensures
        seqs::views(final(previous)@) == seqs::views(old(previous)@).filter(kyber_is_kept(now_ms)),
{
    let ghost all = seqs::views(previous@);
    let n: usize = previous.len();
    let mut out: Vec<KyberPreKeyBlob> = Vec::new();
    let mut i: usize = 0;
    proof {
        seqs::filter_empty(all.take(0), kyber_is_kept(now_ms));
        assert(seqs::views(out@) =~= Seq::<KyberView>::empty());
    }
    while i < n
        invariant
            i <= n,
            n == previous@.len(),
            all == seqs::views(previous@),
            seqs::views(out@) == all.take(i as int).filter(kyber_is_kept(now_ms)),
        decreases n - i,
    {
        proof {
            seqs::filter_take_step(all, i as int, kyber_is_kept(now_ms));
        }
        if now_ms.saturating_sub(previous[i].created_at_ms) <= KYBER_PREKEY_RETENTION_MS {
            let k = previous[i].duplicate();
            proof {
                seqs::views_push(out@, k);
            }
            out.push(k);
        }
        i = i + 1;
    }
    proof {
        assert(all.take(i as int) =~= all);
    }
    *previous = out;
}

/// Looks at the current Kyber prekey: hands it out where it can stay, and else makes room for a
/// new one.
pub fn review_kyber_prekey(store: &mut MessagingStore, now_ms: u64) -> (r: Option<KyberPreKeyBlob>)
    ensures
        (final(store)@, seqs::opt(r)) == kyber_reviewed(old(store)@, now_ms),
{
    let current = seqs::duplicate_opt(&store.local_kyber_prekey);
    if let Some(k) = current {
        if now_ms.saturating_sub(k.created_at_ms) < KYBER_PREKEY_ROTATION_MS {
            return Some(k);
        }
        proof {
            seqs::views_push(store.previous_kyber_prekeys@, k);
        }
        store.previous_kyber_prekeys.push(k);
    }
    keep_kyber(&mut store.previous_kyber_prekeys, now_ms);
    None
}

/// The id that a new Kyber prekey gets.
pub fn next_kyber_prekey_id(store: &MessagingStore) -> (r: u32)
    ensures
        r == next_kyber_id(store@),
{
    let ghost all = seqs::views(store.previous_kyber_prekeys@);
    let floor: u32 = match &store.local_kyber_prekey {
        Some(k) => k.id,
        None => KYBER_PREKEY_ID - 1,
    };
    let mut largest: u32 = floor;
    let mut i: usize = 0;
    proof {
        assert(all.take(0) =~= Seq::<KyberView>::empty());
    }
    while i < store.previous_kyber_prekeys.len()
        invariant
            i <= store.previous_kyber_prekeys@.len(),
            all == seqs::views(store.previous_kyber_prekeys@),
            largest == largest_id(all.take(i as int), floor),
        decreases store.previous_kyber_prekeys@.len() - i,
    {
        proof {
            seqs::take_step(all, i as int);
        }
        if store.previous_kyber_prekeys[i].id > largest {
            largest = store.previous_kyber_prekeys[i].id;
        }
        i = i + 1;
    }
    proof {
        assert(all.take(i as int) =~= all);
    }
    largest.saturating_add(1)
}

/// A Kyber prekey as it is stored.
pub open spec fn kyber_blob(
    id: u32,
    public: Seq<u8>,
    signature: Seq<u8>,
    record: Seq<u8>,
    now_ms: u64,
) -> KyberView {
    KyberView {
        id,
        public_b64: encoding::b64_text(public, false),
        signature_b64: encoding::b64_text(signature, false),
        record_b64: encoding::b64_text(record, false),
        created_at_ms: now_ms,
    }
}

/// Stores a new Kyber prekey as the current one.
pub fn install_kyber_prekey(
    store: &mut MessagingStore,
    id: u32,
    public: &[u8],
    signature: &[u8],
    record: &[u8],
    now_ms: u64,
) -> (r: KyberPreKeyBlob)
    ensures
        r@ == kyber_blob(id, public@, signature@, record@, now_ms),
        final(store)@ == (StoreView { local_kyber_prekey: Some(r@), ..old(store)@ }),
{
    let blob = KyberPreKeyBlob {
        id,
        public_b64: encoding::to_b64(public),
        signature_b64: encoding::to_b64(signature),
        record_b64: encoding::to_b64(record),
        created_at_ms: now_ms,
    };
    store.local_kyber_prekey = Some(blob.duplicate());
    blob
}

// ---------------------------------------------------------------------------------------------
// What the Signal engine is given.
// ---------------------------------------------------------------------------------------------

/// The secret has the id.
pub open spec fn spk_secret_is(id: u32) -> spec_fn(SignedPreKeySecretView) -> bool {
    |s: SignedPreKeySecretView| s.id == id
}

/// The secret has the id.
pub open spec fn opk_secret_is(id: u32) -> spec_fn(OpkSecretView) -> bool {
    |s: OpkSecretView| s.id == id
}

/// The replaced signed prekeys of which both halves are known.
pub open spec fn paired_spks(
    publics: Seq<SignedPreKeyPublicView>,
    secrets: Seq<SignedPreKeySecretView>,
) -> Seq<SignedRecordView>
    decreases publics.len(),
{
    if publics.len() == 0 {
        Seq::empty()
    } else {
        let before = paired_spks(publics.drop_last(), secrets);
        let p = publics.last();
        match seqs::first_where(secrets, spk_secret_is(p.id)) {
            Some(s) => before.push(
                SignedRecordView {
                    id: p.id,
                    created_at_ms: p.created_at_ms,
                    public_key: p.public_key,
                    private_key: s.private_key,
                    signature: p.signature,
                },
            ),
            None => before,
        }
    }
}

/// The signed prekeys that the engine needs: the current one, and those that were replaced.
pub open spec fn signed_records(me: LocalBundleView, secrets: SecretsView, now_ms: u64) -> Seq<
    SignedRecordView,
> {
    seq![
        SignedRecordView {
            id: me.signed_prekey_id,
            created_at_ms: now_ms,
            public_key: me.signed_prekey_public,
            private_key: secrets.spk_priv,
            signature: me.signed_prekey_signature,
        },
    ] + paired_spks(me.previous_signed_prekeys, secrets.previous_spks_secret)
}

fn find_spk_secret(secrets: &Vec<SignedPreKeySecret>, id: u32) -> (r: Option<usize>)
    ensures
        match r {
            Some(i) => i < secrets@.len() && seqs::find(
                seqs::views(secrets@),
                spk_secret_is(id),
            ) == Some(i as int),
            None => seqs::find(seqs::views(secrets@), spk_secret_is(id)) == None::<int>,
        },
{
    let ghost all = seqs::views(secrets@);
    let mut i: usize = 0;
    while i < secrets.len()
        invariant
            i <= secrets@.len(),
            all == seqs::views(secrets@),
            forall|j: int| 0 <= j < i ==> !spk_secret_is(id)(#[trigger] all[j]),
        decreases secrets@.len() - i,
    {
        if secrets[i].id == id {
            proof {
                seqs::find_is(all, spk_secret_is(id), i as int);
            }
            return Some(i);
        }
        i = i + 1;
    }
    proof {
        seqs::find_none(all, spk_secret_is(id));
    }
    None
}

fn find_opk_secret(secrets: &Vec<OpkSecret>, id: u32) -> (r: Option<usize>)
    ensures
        match r {
            Some(i) => i < secrets@.len() && seqs::find(
                seqs::views(secrets@),
                opk_secret_is(id),
            ) == Some(i as int),
            None => seqs::find(seqs::views(secrets@), opk_secret_is(id)) == None::<int>,
        },
{
    let ghost all = seqs::views(secrets@);
    let mut i: usize = 0;
    while i < secrets.len()
        invariant
            i <= secrets@.len(),
            all == seqs::views(secrets@),
            forall|j: int| 0 <= j < i ==> !opk_secret_is(id)(#[trigger] all[j]),
        decreases secrets@.len() - i,
    {
        if secrets[i].id == id {
            proof {
                seqs::find_is(all, opk_secret_is(id), i as int);
            }
            return Some(i);
        }
        i = i + 1;
    }
    proof {
        seqs::find_none(all, opk_secret_is(id));
    }
    None
}

/// The signed prekeys that the engine needs.
pub fn signed_prekey_records(me: &LocalBundle, secrets: &VaultSecrets, now_ms: u64) -> (r: Vec<
    SignedPreKeyRecordParts,
>)
    ensures
        seqs::views(r@) == signed_records(me@, secrets@, now_ms),
{
    let ghost publics = seqs::views(me.previous_signed_prekeys@);
    let ghost privates = seqs::views(secrets.previous_spks_secret@);
    let current = SignedPreKeyRecordParts {
        id: me.signed_prekey_id,
        created_at_ms: now_ms,
        public_key: me.signed_prekey_public.clone(),
        private_key: secrets.spk_priv.clone(),
        signature: me.signed_prekey_signature.clone(),
    };
    let ghost first = current@;
    let mut out: Vec<SignedPreKeyRecordParts> = Vec::new();
    out.push(current);
    let mut i: usize = 0;
    proof {
        assert(publics.take(0) =~= Seq::<SignedPreKeyPublicView>::empty());
        assert(seqs::views(out@) =~= seq![first] + paired_spks(publics.take(0), privates));
    }
    while i < me.previous_signed_prekeys.len()
        invariant
            i <= me.previous_signed_prekeys@.len(),
            publics == seqs::views(me.previous_signed_prekeys@),
            privates == seqs::views(secrets.previous_spks_secret@),
            seqs::views(out@) == seq![first] + paired_spks(publics.take(i as int), privates),
        decreases me.previous_signed_prekeys@.len() - i,
    {
        proof {
            seqs::take_step(publics, i as int);
        }
        let p = &me.previous_signed_prekeys[i];
        if let Some(k) = find_spk_secret(&secrets.previous_spks_secret, p.id) {
            let rec = SignedPreKeyRecordParts {
                id: p.id,
                created_at_ms: p.created_at_ms,
                public_key: p.public_key.clone(),
                private_key: secrets.previous_spks_secret[k].private_key.clone(),
                signature: p.signature.clone(),
            };
            proof {
                seqs::views_push(out@, rec);
            }
            out.push(rec);
            proof {
                assert(seqs::views(out@) =~= seq![first] + paired_spks(
                    publics.take(i + 1),
                    privates,
                ));
            }
        }
        i = i + 1;
    }
    proof {
        assert(publics.take(i as int) =~= publics);
    }
    out
}

/// The one-time prekeys of which both halves are known.
pub open spec fn paired_opks(publics: Seq<OpkPublicView>, secrets: Seq<OpkSecretView>) -> Seq<
    PreKeyRecordView,
>
    decreases publics.len(),
{
    if publics.len() == 0 {
        Seq::empty()
    } else {
        let before = paired_opks(publics.drop_last(), secrets);
        let p = publics.last();
        match seqs::first_where(secrets, opk_secret_is(p.id)) {
            Some(s) => before.push(
                PreKeyRecordView {
                    id: p.id,
                    public_key: p.public_key,
                    private_key: s.private_key,
                },
            ),
            None => before,
        }
    }
}

/// The one-time prekeys that the engine needs.
pub fn one_time_prekey_records(me: &LocalBundle, secrets: &VaultSecrets) -> (r: Vec<
    PreKeyRecordParts,
>)
    ensures
        seqs::views(r@) == paired_opks(me@.opks_public, secrets@.opks_secret),
{
    let ghost publics = seqs::views(me.opks_public@);
    let ghost privates = seqs::views(secrets.opks_secret@);
    let mut out: Vec<PreKeyRecordParts> = Vec::new();
    let mut i: usize = 0;
    proof {
        assert(publics.take(0) =~= Seq::<OpkPublicView>::empty());
        assert(seqs::views(out@) =~= Seq::<PreKeyRecordView>::empty());
    }
    while i < me.opks_public.len()
        invariant
            i <= me.opks_public@.len(),
            publics == seqs::views(me.opks_public@),
            privates == seqs::views(secrets.opks_secret@),
            seqs::views(out@) == paired_opks(publics.take(i as int), privates),
        decreases me.opks_public@.len() - i,
    {
        proof {
            seqs::take_step(publics, i as int);
        }
        let p = &me.opks_public[i];
        if let Some(k) = find_opk_secret(&secrets.opks_secret, p.id) {
            let rec = PreKeyRecordParts {
                id: p.id,
                public_key: p.public_key.clone(),
                private_key: secrets.opks_secret[k].private_key.clone(),
            };
            proof {
                seqs::views_push(out@, rec);
            }
            out.push(rec);
        }
        i = i + 1;
    }
    proof {
        assert(publics.take(i as int) =~= publics);
    }
    out
}

/// The Kyber prekeys: those that were replaced, and the current one.
pub open spec fn kyber_chain(st: StoreView) -> Seq<KyberView> {
    match st.local_kyber_prekey {
        Some(k) => st.previous_kyber_prekeys.push(k),
        None => st.previous_kyber_prekeys,
    }
}

/// The Kyber prekeys, decoded, or the error of the first that cannot be.
pub open spec fn decoded_kybers(ks: Seq<KyberView>) -> Result<Seq<KyberRecordView>, Seq<char>>
    decreases ks.len(),
{
    if ks.len() == 0 {
        Ok(Seq::empty())
    } else {
        match decoded_kybers(ks.drop_last()) {
            Err(e) => Err(e),
            Ok(before) => match labelled(ks.last().record_b64, "local Kyber prekey record"@) {
                Err(e) => Err(e),
                Ok(b) => Ok(before.push(KyberRecordView { id: ks.last().id, record: b })),
            },
        }
    }
}

proof fn decoded_kybers_fail(ks: Seq<KyberView>, i: int, e: Seq<char>)
    requires
        0 <= i <= ks.len(),
        decoded_kybers(ks.take(i)) == Err::<Seq<KyberRecordView>, Seq<char>>(e),
    ensures
        decoded_kybers(ks) == Err::<Seq<KyberRecordView>, Seq<char>>(e),
    decreases ks.len() - i,
{
    if i < ks.len() {
        seqs::take_step(ks, i);
        decoded_kybers_fail(ks, i + 1, e);
    } else {
        assert(ks.take(i) =~= ks);
    }
}

/// What a list of results gives.
pub open spec fn listed<T: View>(r: Result<Vec<T>, String>) -> Result<Seq<T::V>, Seq<char>> {
    match r {
        Ok(v) => Ok(seqs::views(v@)),
        Err(e) => Err(e@),
    }
}

/// The Kyber prekeys that the engine needs.
pub fn kyber_prekey_records(store: &MessagingStore) -> (r: Result<Vec<KyberRecordParts>, String>)
    ensures
        listed(r) == decoded_kybers(kyber_chain(store@)),
{
    let mut chain = seqs::duplicate_vec(&store.previous_kyber_prekeys);
    if let Some(k) = &store.local_kyber_prekey {
        let copy = k.duplicate();
        proof {
            seqs::views_push(chain@, copy);
        }
        chain.push(copy);
    }
    let ghost all = seqs::views(chain@);
    let ghost target = decoded_kybers(all);
    let mut out: Vec<KyberRecordParts> = Vec::new();
    let mut i: usize = 0;
    proof {
        assert(all.take(0) =~= Seq::<KyberView>::empty());
        assert(seqs::views(out@) =~= Seq::<KyberRecordView>::empty());
    }
    while i < chain.len()
        invariant
            i <= chain@.len(),
            all == seqs::views(chain@),
            target == decoded_kybers(all),
            target == decoded_kybers(kyber_chain(store@)),
            decoded_kybers(all.take(i as int)) == Ok::<Seq<KyberRecordView>, Seq<char>>(
                seqs::views(out@),
            ),
        decreases chain@.len() - i,
    {
        proof {
            seqs::take_step(all, i as int);
        }
        match decode_b64(chain[i].record_b64.as_str(), "local Kyber prekey record") {
            Err(e) => {
                proof {
                    decoded_kybers_fail(all, i + 1, e@);
                }
                return Err(e);
            },
            Ok(b) => {
                let rec = KyberRecordParts { id: chain[i].id, record: b };
                proof {
                    seqs::views_push(out@, rec);
                }
                out.push(rec);
            },
        }
        i = i + 1;
    }
    proof {
        assert(all.take(i as int) =~= all);
    }
    Ok(out)
}

/// The sessions, decoded, or the error of the first that cannot be.
pub open spec fn decoded_sessions(s: Seq<(Seq<char>, SessionView)>) -> Result<
    Seq<SessionRecordView>,
    Seq<char>,
>
    decreases s.len(),
{
    if s.len() == 0 {
        Ok(Seq::empty())
    } else {
        match decoded_sessions(s.drop_last()) {
            Err(e) => Err(e),
            Ok(before) => {
                let b = s.last().1;
                match labelled(b.session_b64, "stored Signal session"@) {
                    Err(e) => Err(e),
                    Ok(raw) => Ok(
                        before.push(
                            SessionRecordView {
                                address_name: b.address_name,
                                device_id: b.device_id,
                                record: raw,
                            },
                        ),
                    ),
                }
            },
        }
    }
}

proof fn decoded_sessions_fail(s: Seq<(Seq<char>, SessionView)>, i: int, e: Seq<char>)
    requires
        0 <= i <= s.len(),
        decoded_sessions(s.take(i)) == Err::<Seq<SessionRecordView>, Seq<char>>(e),
    ensures
        decoded_sessions(s) == Err::<Seq<SessionRecordView>, Seq<char>>(e),
    decreases s.len() - i,
{
    if i < s.len() {
        seqs::take_step(s, i);
        decoded_sessions_fail(s, i + 1, e);
    } else {
        assert(s.take(i) =~= s);
    }
}

/// The sessions that the engine needs.
pub fn session_records(store: &MessagingStore) -> (r: Result<Vec<SessionRecordParts>, String>)
    ensures
        listed(r) == decoded_sessions(store.signal_sessions.listing()),
{
    let ghost all = store.signal_sessions.listing();
    let ghost target = decoded_sessions(all);
    let n: usize = store.signal_sessions.count();
    let mut out: Vec<SessionRecordParts> = Vec::new();
    let mut i: usize = 0;
    proof {
        assert(all.take(0) =~= Seq::<(Seq<char>, SessionView)>::empty());
        assert(seqs::views(out@) =~= Seq::<SessionRecordView>::empty());
    }
    while i < n
        invariant
            i <= n,
            n == all.len(),
            all == store.signal_sessions.listing(),
            target == decoded_sessions(all),
            decoded_sessions(all.take(i as int)) == Ok::<Seq<SessionRecordView>, Seq<char>>(
                seqs::views(out@),
            ),
        decreases n - i,
    {
        proof {
            seqs::take_step(all, i as int);
        }
        let (_, blob) = store.signal_sessions.entry(i);
        match decode_b64(blob.session_b64.as_str(), "stored Signal session") {
            Err(e) => {
                proof {
                    decoded_sessions_fail(all, i + 1, e@);
                }
                return Err(e);
            },
            Ok(raw) => {
                let rec = SessionRecordParts {
                    address_name: blob.address_name.clone(),
                    device_id: blob.device_id,
                    record: raw,
                };
                proof {
                    seqs::views_push(out@, rec);
                }
                out.push(rec);
            },
        }
        i = i + 1;
    }
    proof {
        assert(all.take(i as int) =~= all);
    }
    Ok(out)
}

/// The sessions after the one with a device of a mailbox was saved.
pub open spec fn with_session(
    sessions: Map<Seq<char>, SessionView>,
    recipient_id: Seq<char>,
    device_id: u32,
    identity_b64: Seq<char>,
    raw: Seq<u8>,
    now_ms: u64,
) -> Map<Seq<char>, SessionView> {
    let key = contacts::session_key(recipient_id, device_id);
    sessions.insert(
        key,
        SessionView {
            address_name: recipient_id,
            device_id,
            session_b64: encoding::b64_text(raw, false),
            remote_identity_b64: identity_b64,
            created_at_ms: if sessions.contains_key(key) {
                sessions[key].created_at_ms
            } else {
                now_ms
            },
            updated_at_ms: now_ms,
        },
    )
}

/// Saves the session with a device of a mailbox.
pub fn persist_session(
    store: &mut MessagingStore,
    recipient_id: &str,
    device_id: u32,
    identity_b64: &str,
    raw: &[u8],
    now_ms: u64,
)
    ensures
        final(store)@ == (StoreView {
            signal_sessions: with_session(
                old(store)@.signal_sessions,
                recipient_id@,
                device_id,
                identity_b64@,
                raw@,
                now_ms,
            ),
            ..old(store)@
        }),
{
    let key = contacts::session_name(recipient_id, device_id);
    let created: u64 = match store.signal_sessions.get(key.as_str()) {
        Some(s) => s.created_at_ms,
        None => now_ms,
    };
    let blob = SignalSessionBlob {
        address_name: recipient_id.to_string(),
        device_id,
        session_b64: encoding::to_b64(raw),
        remote_identity_b64: identity_b64.to_string(),
        created_at_ms: created,
        updated_at_ms: now_ms,
    };
    store.signal_sessions.insert(key, blob);
}

// ---------------------------------------------------------------------------------------------
// The prekey bundle of a contact.
// ---------------------------------------------------------------------------------------------

/// The one-time prekey in the bundle of a contact, decoded.
pub open spec fn contact_opk(c: ContactView) -> Result<Option<OpkPublicView>, Seq<char>> {
    match (c.opk_id, c.opk_public_b64) {
        (Some(id), Some(b64)) => match labelled(b64, "one-time prekey public key"@) {
            Ok(b) => Ok(Some(OpkPublicView { id, public_key: b })),
            Err(e) => Err(e),
        },
        _ => Ok(None),
    }
}

/// The Kyber prekey in the bundle of a contact: its id, and its key and signature in base64.
pub open spec fn contact_kyber(c: ContactView) -> Result<(u32, Seq<char>, Seq<char>), Seq<char>> {
    match (c.kyber_prekey_id, c.kyber_prekey_public_b64, c.kyber_prekey_signature_b64) {
        (None, _, _) => Err(
            "contact connection code is missing the required PQXDH Kyber prekey; generate/import a fresh code"@,
        ),
        (_, None, _) => Err(
            "contact connection code is missing the required PQXDH Kyber public key"@,
        ),
        (_, _, None) => Err(
            "contact connection code is missing the required PQXDH Kyber signature"@,
        ),
        (Some(id), Some(p), Some(s)) => Ok((id, p, s)),
    }
}

/// The prekey bundle of a contact, decoded, or the first error on the way.
pub open spec fn contact_bundle(c: ContactView) -> Result<BundlePartsView, Seq<char>> {
    match labelled(c.identity_public_b64, "identity public key"@) {
        Err(e) => Err(e),
        Ok(identity) => match labelled(c.signed_prekey_public_b64, "signed prekey public key"@) {
            Err(e) => Err(e),
            Ok(signed_prekey) => match labelled(
                c.signed_prekey_signature_b64,
                "signed prekey signature"@,
            ) {
                Err(e) => Err(e),
                Ok(signed_prekey_signature) => match contact_opk(c) {
                    Err(e) => Err(e),
                    Ok(opk) => match contact_kyber(c) {
                        Err(e) => Err(e),
                        Ok((kyber_prekey_id, p, s)) => match labelled(
                            p,
                            "Kyber prekey public key"@,
                        ) {
                            Err(e) => Err(e),
                            Ok(kyber_prekey) => match labelled(s, "Kyber prekey signature"@) {
                                Err(e) => Err(e),
                                Ok(kyber_prekey_signature) => Ok(
                                    BundlePartsView {
                                        registration_id: c.registration_id,
                                        device_id: c.device_id,
                                        identity,
                                        signed_prekey_id: c.signed_prekey_id,
                                        signed_prekey,
                                        signed_prekey_signature,
                                        opk,
                                        kyber_prekey_id,
                                        kyber_prekey,
                                        kyber_prekey_signature,
                                    },
                                ),
                            },
                        },
                    },
                },
            },
        },
    }
}

/// The prekey bundle of a contact, decoded.
pub fn prekey_bundle_from_contact(contact: &StoredContact) -> (r: Result<BundleParts, String>)
    ensures
        seqs::outcome(r) == contact_bundle(contact@),
{
    let identity = match decode_b64(contact.identity_public_b64.as_str(), "identity public key") {
        Ok(b) => b,
        Err(e) => {
            return Err(e);
        },
    };
    let signed_prekey = match decode_b64(
        contact.signed_prekey_public_b64.as_str(),
        "signed prekey public key",
    ) {
        Ok(b) => b,
        Err(e) => {
            return Err(e);
        },
    };
    let signed_prekey_signature = match decode_b64(
        contact.signed_prekey_signature_b64.as_str(),
        "signed prekey signature",
    ) {
        Ok(b) => b,
        Err(e) => {
            return Err(e);
        },
    };
    let opk = match (contact.opk_id, &contact.opk_public_b64) {
        (Some(id), Some(b64)) => match decode_b64(b64.as_str(), "one-time prekey public key") {
            Ok(b) => Some(OpkPublic { id, public_key: b }),
            Err(e) => {
                return Err(e);
            },
        },
        _ => None,
    };
    let kyber_prekey_id: u32 = match contact.kyber_prekey_id {
        Some(id) => id,
        None => {
            return Err(
                "contact connection code is missing the required PQXDH Kyber prekey; generate/import a fresh code".to_string(),
            );
        },
    };
    let public_b64 = match &contact.kyber_prekey_public_b64 {
        Some(p) => p,
        None => {
            return Err(
                "contact connection code is missing the required PQXDH Kyber public key".to_string(),
            );
        },
    };
    let signature_b64 = match &contact.kyber_prekey_signature_b64 {
        Some(s) => s,
        None => {
            return Err(
                "contact connection code is missing the required PQXDH Kyber signature".to_string(),
            );
        },
    };
    let kyber_prekey = match decode_b64(public_b64.as_str(), "Kyber prekey public key") {
        Ok(b) => b,
        Err(e) => {
            return Err(e);
        },
    };
    let kyber_prekey_signature = match decode_b64(
        signature_b64.as_str(),
        "Kyber prekey signature",
    ) {
        Ok(b) => b,
        Err(e) => {
            return Err(e);
        },
    };
    Ok(
        BundleParts {
            registration_id: contact.registration_id,
            device_id: contact.device_id,
            identity,
            signed_prekey_id: contact.signed_prekey_id,
            signed_prekey,
            signed_prekey_signature,
            opk,
            kyber_prekey_id,
            kyber_prekey,
            kyber_prekey_signature,
        },
    )
}

// ---------------------------------------------------------------------------------------------
// Laws.
// ---------------------------------------------------------------------------------------------

/// A one-time prekey is offered once: the one that is set aside was not set aside before, it
/// counts as used from then on, and what counted as used still does.
pub proof fn prekeys_are_offered_once(st: StoreView, opks: Seq<OpkPublicView>)
    ensures
        ({
            let (after, r) = opk_taken(st, opks);
            &&& match r {
                Ok(o) => opks.contains(o) && !st.used_opk_ids.contains(o.id)
                    && after.used_opk_ids.contains(o.id),
                Err(_) => forall|i: int|
                    0 <= i < opks.len() ==> st.used_opk_ids.contains((#[trigger] opks[i]).id),
            }
            &&& forall|id: u32| st.used_opk_ids.contains(id) ==> after.used_opk_ids.contains(id)
        }),
{
    let (after, r) = opk_taken(st, opks);
    seqs::find_spec(opks, unused(st.used_opk_ids));
    assert forall|id: u32| st.used_opk_ids.contains(id) implies after.used_opk_ids.contains(
        id,
    ) by {
        let k = choose|k: int| 0 <= k < st.used_opk_ids.len() && st.used_opk_ids[k] == id;
        assert(after.used_opk_ids[k] == id);
    }
    if let Ok(o) = r {
        assert(after.used_opk_ids.last() == o.id);
    } else {
        assert forall|i: int| 0 <= i < opks.len() implies st.used_opk_ids.contains(
            (#[trigger] opks[i]).id,
        ) by {
            assert(!unused(st.used_opk_ids)(opks[i]));
        }
    }
}

/// One-time prekeys that a message used up count as used, and none stops counting.
pub proof fn consumed_prekeys_are_used(ids: Seq<u32>, more: Seq<u32>)
    ensures
        forall|id: u32|
            #[trigger] with_ids(ids, more).contains(id) <==> ids.contains(id) || more.contains(id),
    decreases more.len(),
{
    if more.len() > 0 {
        let before = with_ids(ids, more.drop_last());
        consumed_prekeys_are_used(ids, more.drop_last());
        let all = with_ids(ids, more);
        assert forall|id: u32| #[trigger]
            all.contains(id) <==> ids.contains(id) || more.contains(id) by {
            assert(before.contains(id) <==> ids.contains(id) || more.drop_last().contains(id));
            if more.contains(id) {
                let k = choose|k: int| 0 <= k < more.len() && more[k] == id;
                if k < more.len() - 1 {
                    assert(more.drop_last()[k] == id);
                }
            }
            if more.drop_last().contains(id) {
                let k = choose|k: int|
                    0 <= k < more.drop_last().len() && more.drop_last()[k] == id;
                assert(more[k] == id);
            }
            assert(more[more.len() - 1] == more.last());
            if !before.contains(more.last()) {
                assert(all == before.push(more.last()));
                assert(all[all.len() - 1] == more.last());
                if before.contains(id) {
                    let k = choose|k: int| 0 <= k < before.len() && before[k] == id;
                    assert(all[k] == id);
                }
            }
        }
    }
}

proof fn largest_id_bounds(ks: Seq<KyberView>, floor: u32)
    ensures
        largest_id(ks, floor) >= floor,
        forall|i: int| 0 <= i < ks.len() ==> (#[trigger] ks[i]).id <= largest_id(ks, floor),
    decreases ks.len(),
{
    if ks.len() > 0 {
        largest_id_bounds(ks.drop_last(), floor);
        assert forall|i: int| 0 <= i < ks.len() implies (#[trigger] ks[i]).id <= largest_id(
            ks,
            floor,
        ) by {
            if i < ks.len() - 1 {
                assert(ks.drop_last()[i] == ks[i]);
            }
        }
    }
}

/// A new Kyber prekey gets an id that no prekey in the store has, as long as ids are left.
pub proof fn kyber_ids_are_fresh(st: StoreView)
    requires
        next_kyber_id(st) < u32::MAX,
    ensures
        forall|i: int|
            0 <= i < kyber_chain(st).len() ==> (#[trigger] kyber_chain(st)[i]).id < next_kyber_id(
                st,
            ),
{
    let floor = match st.local_kyber_prekey {
        Some(k) => k.id,
        None => (KYBER_PREKEY_ID - 1) as u32,
    };
    largest_id_bounds(st.previous_kyber_prekeys, floor);
}

/// A Kyber prekey that is replaced stays readable for messages under way: it is among the
/// previous ones as long as they are kept.
pub proof fn replaced_kyber_is_kept(st: StoreView, now_ms: u64)
    requires
        st.local_kyber_prekey is Some,
        kyber_reviewed(st, now_ms).1 is None,
        age(now_ms, st.local_kyber_prekey->0.created_at_ms) <= KYBER_PREKEY_RETENTION_MS,
    ensures
        kyber_reviewed(st, now_ms).0.previous_kyber_prekeys.contains(st.local_kyber_prekey->0),
{
    let k = st.local_kyber_prekey->0;
    let all = st.previous_kyber_prekeys.push(k);
    seqs::filter_members(all, kyber_is_kept(now_ms));
    assert(all.last() == k);
    assert(all.contains(k));
    assert(kyber_is_kept(now_ms)(k));
}

} // verus!
