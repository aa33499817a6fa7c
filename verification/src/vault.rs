//! The files of the client: the encrypted store, and the state that holds everything.
use crate::identity::EncryptedIdentity;
use crate::identity::IdentityView;
use crate::payloads::EncryptedStoreFile;
use crate::payloads::StoreFileView;
use crate::primitives;
use crate::safety;
use crate::seqs;
use crate::store::MessagingStore;
use crate::store::StoreView;
use crate::text;
use vstd::prelude::*;

verus! {

/// The newest version of the files that is understood.
pub const FILE_VERSION: u16 = 1;

// ---------------------------------------------------------------------------------------------
// The encrypted store.
// ---------------------------------------------------------------------------------------------

/// The written store under a key.
pub open spec fn sealed_store(json: Seq<u8>, key: Seq<u8>, nonce: Seq<u8>) -> StoreFileView {
    StoreFileView {
        version: FILE_VERSION,
        nonce,
        ciphertext: primitives::sealed(key, nonce, json),
    }
}

/// What a key opens of the file, or why it does not.
pub open spec fn opened_store(f: StoreFileView, key: Seq<u8>) -> Result<Seq<u8>, Seq<char>> {
    if f.version > FILE_VERSION {
        Err("message store was written by a newer Axeno client"@)
    } else {
        match primitives::decrypted(key, f.nonce, f.ciphertext) {
            Some(json) => Ok(json),
            None => Err("message store could not be decrypted with this key"@),
        }
    }
}

/// The key opens the file, and gives the written store.
pub open spec fn store_opens_to(f: StoreFileView, key: Seq<u8>, json: Seq<u8>) -> bool {
    opened_store(f, key) == Ok::<Seq<u8>, Seq<char>>(json)
}

/// Encrypts the written store with a given nonce. The same key opens what comes out.
pub fn seal_store_with(json: &[u8], key: &[u8; 32], nonce: [u8; 12]) -> (r: Result<
    EncryptedStoreFile,
    String,
>)
    ensures
        r is Ok <==> primitives::sealable(json@.len()),
        match r {
            Ok(f) => f@ == sealed_store(json@, key@, nonce@) && store_opens_to(f@, key@, json@),
            Err(e) => e@ == "message store encryption failed"@,
        },
{
    match primitives::seal(key.as_slice(), nonce.as_slice(), json) {
        Some(ciphertext) => Ok(
            EncryptedStoreFile { version: FILE_VERSION, nonce, ciphertext },
        ),
        None => Err("message store encryption failed".to_string()),
    }
}

/// Encrypts the written store with a fresh nonce, and wipes the plaintext.
pub fn seal_store(json: Vec<u8>, key: &[u8; 32]) -> (r: Result<EncryptedStoreFile, String>)
    ensures
        match r {
            Ok(f) => store_opens_to(f@, key@, json@) && exists|nonce: Seq<u8>|
                nonce.len() == 12 && f@ == #[trigger] sealed_store(json@, key@, nonce),
            Err(e) => text::has_prefix(e@, "OS randomness unavailable: "@) || (
            !primitives::sealable(json@.len()) && e@ == "message store encryption failed"@),
        },
{
    let drawn = primitives::random_bytes(12)?;
    let nonce = safety::to_array12(drawn);
    let mut plain = json;
    let sealed = seal_store_with(plain.as_slice(), key, nonce);
    primitives::wipe(&mut plain);
    sealed
}

/// Opens the encrypted store with a key.
pub fn open_store(file: &EncryptedStoreFile, key: &[u8; 32]) -> (r: Result<Vec<u8>, String>)
    ensures
        seqs::outcome(r) == opened_store(file@, key@),
{
    if file.version > FILE_VERSION {
        return Err("message store was written by a newer Axeno client".to_string());
    }
    match primitives::open_sealed(
        key.as_slice(),
        file.nonce.as_slice(),
        file.ciphertext.as_slice(),
    ) {
        Some(json) => Ok(json),
        None => Err("message store could not be decrypted with this key".to_string()),
    }
}

/// A store that was read, and whether it has to be written anew under the current key.
pub struct LoadedStore {
    pub store: MessagingStore,
    pub rewrite: bool,
}

/// A store that was read, and whether it has to be written anew.
#[verifier::ext_equal]
pub struct LoadedStoreView {
    pub store: StoreView,
    pub rewrite: bool,
}

impl View for LoadedStore {
    type V = LoadedStoreView;

    open spec fn view(&self) -> LoadedStoreView {
        LoadedStoreView { store: self.store@, rewrite: self.rewrite }
    }
}

/// What reading the store comes to, given how it went with the current key and, where there is
/// another, with the key of early versions.
pub open spec fn loaded(
    current: Result<StoreView, Seq<char>>,
    legacy: Option<Result<StoreView, Seq<char>>>,
) -> Result<LoadedStoreView, Seq<char>> {
    match current {
        Ok(store) => Ok(LoadedStoreView { store, rewrite: false }),
        Err(why) => match legacy {
            None => Err(
                "message store could not be decrypted; identity/password mismatch or corrupted store: "@
                    + why,
            ),
            Some(Ok(store)) => Ok(LoadedStoreView { store, rewrite: true }),
            Some(Err(_)) => Err(
                "message store could not be decrypted; identity/password mismatch or corrupted store"@,
            ),
        },
    }
}

/// How it went with the key of early versions.
pub open spec fn legacy_outcome(legacy: Option<Result<MessagingStore, String>>) -> Option<
    Result<StoreView, Seq<char>>,
> {
    match legacy {
        None => None,
        Some(r) => Some(seqs::outcome(r)),
    }
}

/// What reading the store comes to. The key of early versions is tried where it is another than
/// the current one and that did not work.
pub fn settle_load(
    current: Result<MessagingStore, String>,
    legacy: Option<Result<MessagingStore, String>>,
) -> (r: Result<LoadedStore, String>)
    ensures
        seqs::outcome(r) == loaded(seqs::outcome(current), legacy_outcome(legacy)),
{
    match current {
        Ok(store) => Ok(LoadedStore { store, rewrite: false }),
        Err(why) => match legacy {
            None => Err(
                text::concat2(
                    "message store could not be decrypted; identity/password mismatch or corrupted store: ",
                    why.as_str(),
                ),
            ),
            Some(Ok(store)) => Ok(LoadedStore { store, rewrite: true }),
            Some(Err(_)) => Err(
                "message store could not be decrypted; identity/password mismatch or corrupted store".to_string(),
            ),
        },
    }
}

/// The name of a file while it is being written: no two writers have the same.
pub fn temporary_name(file_name: &str) -> (r: String)
    ensures
        exists|id: u128|
            primitives::is_random_id(id) && r@ == file_name@ + "."@ + (
            #[trigger] primitives::uuid_text(id)) + ".tmp"@,
{
    let id = primitives::fresh_uuid();
    let name = primitives::uuid_string(id);
    let a = text::concat3(file_name, ".", name.as_str());
    let r = text::concat2(a.as_str(), ".tmp");
    proof {
        assert(r@ == file_name@ + "."@ + primitives::uuid_text(id) + ".tmp"@);
    }
    r
}

/// The name under which a damaged file is kept.
pub fn backup_name(file_name: &str, now_ms: u64) -> (r: String)
    ensures
        r@ == file_name@ + ".corrupted."@ + text::decimal(now_ms as nat) + ".bak"@,
{
    let d = text::decimal_text(now_ms);
    let a = text::concat3(file_name, ".corrupted.", d.as_str());
    text::concat2(a.as_str(), ".bak")
}

// ---------------------------------------------------------------------------------------------
// The state that holds everything.
// ---------------------------------------------------------------------------------------------

/// The state of the client in one file.
pub struct UnifiedAppStateFile {
    pub version: u16,
    pub identity: Option<EncryptedIdentity>,
    pub messages_store_json: Option<Vec<u8>>,
}

/// The state of the client in one file.
#[verifier::ext_equal]
pub struct UnifiedView {
    pub version: u16,
    pub identity: Option<IdentityView>,
    pub messages_store_json: Option<Seq<u8>>,
}

impl View for UnifiedAppStateFile {
    type V = UnifiedView;

    open spec fn view(&self) -> UnifiedView {
        UnifiedView {
            version: self.version,
            identity: seqs::opt(self.identity),
            messages_store_json: seqs::opt(self.messages_store_json),
        }
    }
}

/// The state that holds nothing yet.
pub open spec fn empty_state() -> UnifiedView {
    UnifiedView { version: FILE_VERSION, identity: None, messages_store_json: None }
}

/// The state that was read, or an empty one where it could not be.
pub open spec fn state_or_empty(s: Result<UnifiedView, Seq<char>>) -> UnifiedView {
    match s {
        Ok(u) => u,
        Err(_) => empty_state(),
    }
}

/// The state that holds nothing yet.
pub fn new_state() -> (r: UnifiedAppStateFile)
    ensures
        r@ == empty_state(),
{
    UnifiedAppStateFile { version: FILE_VERSION, identity: None, messages_store_json: None }
}

/// Refuses a state that a newer client wrote.
pub fn accept_state(state: UnifiedAppStateFile) -> (r: Result<UnifiedAppStateFile, String>)
    ensures
        seqs::outcome(r) == if state@.version > FILE_VERSION {
            Err("unified state was written by a newer Axeno client"@)
        } else {
            Ok(state@)
        },
{
    if state.version > FILE_VERSION {
        return Err("unified state was written by a newer Axeno client".to_string());
    }
    Ok(state)
}

/// The state with the encrypted store in it.
pub fn with_messages(state: Result<UnifiedAppStateFile, String>, file: Vec<u8>)
    -> (r: UnifiedAppStateFile)
    ensures
        r@ == (UnifiedView {
            version: FILE_VERSION,
            messages_store_json: Some(file@),
            ..state_or_empty(seqs::outcome(state))
        }),
{
    let identity = match state {
        Ok(u) => u.identity,
        Err(_) => None,
    };
    UnifiedAppStateFile { version: FILE_VERSION, identity, messages_store_json: Some(file) }
}

/// The state with the encrypted identity in it.
pub fn with_identity(state: Result<UnifiedAppStateFile, String>, identity: EncryptedIdentity)
    -> (r: UnifiedAppStateFile)
    ensures
        r@ == (UnifiedView {
            version: FILE_VERSION,
            identity: Some(identity@),
            ..state_or_empty(seqs::outcome(state))
        }),
{
    let messages_store_json = match state {
        Ok(u) => u.messages_store_json,
        Err(_) => None,
    };
    UnifiedAppStateFile {
        version: FILE_VERSION,
        identity: Some(identity),
        messages_store_json,
    }
}

/// The identity in the state, where there is one.
pub open spec fn identity_in(s: Result<UnifiedView, Seq<char>>) -> Option<IdentityView> {
    match s {
        Ok(u) => u.identity,
        Err(_) => None,
    }
}

/// The identity in the state, where there is one; the file of its own is read where there is
/// none.
pub fn identity_of_state(state: &Result<UnifiedAppStateFile, String>) -> (r: Option<
    EncryptedIdentity,
>)
    ensures
        seqs::opt(r) == identity_in(seqs::outcome(*state)),
{
    match state {
        Ok(u) => seqs::duplicate_opt(&u.identity),
        Err(_) => None,
    }
}

/// Whether there is an identity: in a file of its own, or in the state.
pub fn has_identity(own_file: bool, state: &Result<UnifiedAppStateFile, String>) -> (r: bool)
    ensures
        r == (own_file || identity_in(seqs::outcome(*state)) is Some),
{
    if own_file {
        return true;
    }
    match state {
        Ok(u) => u.identity.is_some(),
        Err(_) => false,
    }
}

} // verus!
