//! Digests, authenticated encryption, password hashing, randomness and wiping.
use crate::seqs;
use crate::text;
use argon2::Algorithm;
use argon2::Argon2;
use argon2::Params;
use argon2::Version;
use chacha20poly1305::aead::Aead;
use chacha20poly1305::ChaCha20Poly1305;
use chacha20poly1305::Key;
use chacha20poly1305::KeyInit;
use chacha20poly1305::Nonce;
use rand::rngs::OsRng;
use rand::Rng;
use rand::RngCore;
use sha2::Digest;
use sha2::Sha256;
use vstd::prelude::*;
use zeroize::Zeroize;

verus! {

/// The number of bytes of a cipher nonce.
pub const NONCE_BYTES: usize = 12;

/// The number of bytes that a ciphertext is longer than its plaintext.
pub const TAG_BYTES: u64 = 16;

/// The longest plaintext that can be encrypted.
pub const MAX_PLAIN_BYTES: u64 = 274_877_906_816;

/// What `sha2::Sha256::digest` returns for the bytes.
pub uninterp spec fn sha256(data: Seq<u8>) -> Seq<u8>;

/// What encrypting with `ChaCha20Poly1305` returns for a key, a nonce and a plaintext, without
/// associated data.
pub uninterp spec fn sealed(key: Seq<u8>, nonce: Seq<u8>, plain: Seq<u8>) -> Seq<u8>;

/// What decrypting with `ChaCha20Poly1305` returns for a key, a nonce and a ciphertext, without
/// associated data; nothing where the ciphertext is not authentic.
pub uninterp spec fn opened(key: Seq<u8>, nonce: Seq<u8>, ciphertext: Seq<u8>) -> Option<Seq<u8>>;

/// The 32 bytes that Argon2id, version 0x13, derives from a password and a salt with the given
/// memory, time and lane costs.
pub uninterp spec fn argon2id(
    password: Seq<u8>,
    salt: Seq<u8>,
    m_cost: u32,
    t_cost: u32,
    p_cost: u32,
) -> Seq<u8>;

/// `sha2::Sha256::digest`: 32 bytes, the same for the same data.
#[verifier::external_body]
pub(crate) fn digest(data: &[u8]) -> (r: Vec<u8>)
    ensures
        r@ == sha256(data@),
        r@.len() == 32,
{
    Sha256::digest(data).to_vec()
}

/// Whether a plaintext of `n` bytes can be encrypted: the keystream goes on for 2^32 - 2 blocks of
/// 64 bytes.
pub open spec fn sealable(n: nat) -> bool {
    n <= MAX_PLAIN_BYTES
}

/// What decrypting a ciphertext gives; nothing where it is not authentic or longer than any that
/// encryption makes.
pub open spec fn decrypted(key: Seq<u8>, nonce: Seq<u8>, ciphertext: Seq<u8>) -> Option<Seq<u8>> {
    if ciphertext.len() <= MAX_PLAIN_BYTES + TAG_BYTES {
        opened(key, nonce, ciphertext)
    } else {
        None
    }
}

/// `Aead::encrypt` of `ChaCha20Poly1305` succeeds on a plaintext that its keystream is long enough
/// for; the ciphertext is 16 bytes longer than the plaintext and decrypts to it under the same key
/// and nonce.
#[verifier::external_body]
fn aead_encrypt(key: &[u8], nonce: &[u8], plain: &[u8]) -> (r: Option<Vec<u8>>)
    requires
        key@.len() == 32,
        nonce@.len() == 12,
        plain@.len() <= MAX_PLAIN_BYTES,
    ensures
        r is Some,
        r matches Some(c) ==> {
            &&& c@ == sealed(key@, nonce@, plain@)
            &&& c@.len() == plain@.len() + TAG_BYTES
            &&& opened(key@, nonce@, c@) == Some(plain@)
        },
{
    ChaCha20Poly1305::new(Key::from_slice(key)).encrypt(Nonce::from_slice(nonce), plain).ok()
}

/// `Aead::decrypt` of `ChaCha20Poly1305`: the same key, nonce and ciphertext always give the same
/// answer.
#[verifier::external_body]
fn aead_decrypt(key: &[u8], nonce: &[u8], ciphertext: &[u8]) -> (r: Option<Vec<u8>>)
    requires
        key@.len() == 32,
        nonce@.len() == 12,
        ciphertext@.len() <= MAX_PLAIN_BYTES + TAG_BYTES,
    ensures
        seqs::opt(r) == opened(key@, nonce@, ciphertext@),
{
    ChaCha20Poly1305::new(Key::from_slice(key)).decrypt(Nonce::from_slice(nonce), ciphertext).ok()
}

/// Encrypts a plaintext that is not too long; the same key and nonce decrypt it.
pub(crate) fn seal(key: &[u8], nonce: &[u8], plain: &[u8]) -> (r: Option<Vec<u8>>)
    requires
        key@.len() == 32,
        nonce@.len() == 12,
    ensures
        r is Some <==> sealable(plain@.len()),
        r matches Some(c) ==> c@ == sealed(key@, nonce@, plain@) && decrypted(key@, nonce@, c@)
            == Some(plain@),
{
    if plain.len() as u64 > MAX_PLAIN_BYTES {
        return None;
    }
    aead_encrypt(key, nonce, plain)
}

/// Decrypts a ciphertext.
pub(crate) fn open_sealed(key: &[u8], nonce: &[u8], ciphertext: &[u8]) -> (r: Option<Vec<u8>>)
    requires
        key@.len() == 32,
        nonce@.len() == 12,
    ensures
        seqs::opt(r) == decrypted(key@, nonce@, ciphertext@),
{
    if ciphertext.len() as u64 > MAX_PLAIN_BYTES + TAG_BYTES {
        return None;
    }
    aead_decrypt(key, nonce, ciphertext)
}

/// `Argon2::hash_password_into` with a 32-byte output and no secret: it fails on a password of
/// more than 2^32 - 1 bytes and on a salt of fewer than 8 or more than 2^32 - 1 bytes, and names
/// the reason; otherwise the same inputs always give the same 32 bytes.
#[verifier::external_body]
pub(crate) fn derive_argon2id(
    password: &[u8],
    salt: &[u8],
    m_cost: u32,
    t_cost: u32,
    p_cost: u32,
) -> (r: Result<Vec<u8>, String>)
    requires
        1 <= p_cost,
        8 * p_cost <= m_cost <= 65536,
        1 <= t_cost,
    ensures
        match r {
            Ok(k) => {
                &&& argon2id_refusal(password@, salt@) is None
                &&& k@ == argon2id(password@, salt@, m_cost, t_cost, p_cost)
                &&& k@.len() == 32
            },
            Err(e) => argon2id_refusal(password@, salt@) == Some(e@),
        },
{
    let params = Params::new(m_cost, t_cost, p_cost, Some(32)).map_err(|e| e.to_string())?;
    let mut out = vec![0u8; 32];
    Argon2::new(Algorithm::Argon2id, Version::V0x13, params)
        .hash_password_into(password, salt, &mut out)
        .map_err(|e| e.to_string())?;
    Ok(out)
}

/// `getrandom::getrandom` fills the whole buffer or fails; which bytes, nobody knows, and what the
/// error says is the operating system's.
#[verifier::external_body]
pub(crate) fn draw_bytes(n: usize) -> (r: Result<Vec<u8>, String>)
    requires
        n <= isize::MAX,
    ensures
        r matches Ok(v) ==> v@.len() == n,
{
    let mut raw = vec![0u8; n];
    match getrandom::getrandom(&mut raw) {
        Ok(()) => Ok(raw),
        Err(e) => Err(e.to_string()),
    }
}

/// Random bytes, or that there are none and why.
pub(crate) fn random_bytes(n: usize) -> (r: Result<Vec<u8>, String>)
    requires
        n <= isize::MAX,
    ensures
        match r {
            Ok(v) => v@.len() == n,
            Err(e) => text::has_prefix(e@, "OS randomness unavailable: "@),
        },
{
    match draw_bytes(n) {
        Ok(v) => Ok(v),
        Err(why) => {
            let e = text::concat2("OS randomness unavailable: ", why.as_str());
            proof {
                let p = "OS randomness unavailable: "@;
                assert(e@.take(p.len() as int) =~= p);
            }
            Err(e)
        },
    }
}

/// `RngCore::fill_bytes` of `rand::rngs::OsRng` fills the whole buffer; it panics where the
/// operating system has no randomness to give.
#[verifier::external_body]
pub(crate) fn os_random_bytes(n: usize) -> (r: Vec<u8>)
    requires
        n <= isize::MAX,
    ensures
        r@.len() == n,
{
    let mut raw = vec![0u8; n];
    OsRng.fill_bytes(&mut raw);
    raw
}

/// `Rng::gen` of `rand::rngs::OsRng` draws a number of 16 bits; it panics where the operating
/// system has no randomness to give.
#[verifier::external_body]
pub(crate) fn os_random_u16() -> (r: u16) {
    OsRng.gen::<u16>()
}

/// `uuid::Uuid::new_v4` draws a random identifier with the version 4 in its four version bits
/// and the RFC variant in its two variant bits.
#[verifier::external_body]
pub(crate) fn fresh_uuid() -> (r: u128)
    ensures
        is_random_id(r),
{
    uuid::Uuid::new_v4().as_u128()
}

/// `Uuid::to_string` writes an identifier as 36 characters, hexadecimal digits and hyphens.
#[verifier::external_body]
pub(crate) fn uuid_string(id: u128) -> (r: String)
    ensures
        r@ == uuid_text(id),
{
    uuid::Uuid::from_u128(id).to_string()
}

/// `Zeroize::zeroize` overwrites the bytes of a vector and leaves it empty.
#[verifier::external_body]
pub(crate) fn wipe(bytes: &mut Vec<u8>)
    ensures
        final(bytes)@ == Seq::<u8>::empty(),
{
    bytes.zeroize();
}

/// Why Argon2id refuses a password and a salt, where it does.
pub open spec fn argon2id_refusal(password: Seq<u8>, salt: Seq<u8>) -> Option<Seq<char>> {
    if password.len() > 0xffff_ffff {
        Some("password is too long"@)
    } else if salt.len() < 8 {
        Some("salt is too short"@)
    } else if salt.len() > 0xffff_ffff {
        Some("salt is too long"@)
    } else {
        None
    }
}

/// The four version bits of an identifier say 4 and its two variant bits name the RFC.
pub open spec fn is_random_id(id: u128) -> bool {
    id / 0x1000_0000_0000_0000_0000 % 16 == 4 && id / 0x4000_0000_0000_0000 % 4 == 2
}

/// The hexadecimal digit `k` of the 32 of an identifier, counted from the highest.
pub open spec fn uuid_digit(id: u128, k: int) -> char {
    crate::encoding::hex_char(
        (id as int / vstd::arithmetic::power::pow(16, (31 - k) as nat)) % 16,
    )
}

/// An identifier in its usual form: groups of 8, 4, 4, 4 and 12 lower-case hexadecimal digits
/// with hyphens between them.
pub open spec fn uuid_text(id: u128) -> Seq<char> {
    Seq::new(
        36,
        |i: int|
            if i == 8 || i == 13 || i == 18 || i == 23 {
                '-'
            } else if i < 8 {
                uuid_digit(id, i)
            } else if i < 13 {
                uuid_digit(id, i - 1)
            } else if i < 18 {
                uuid_digit(id, i - 2)
            } else if i < 23 {
                uuid_digit(id, i - 3)
            } else {
                uuid_digit(id, i - 4)
            },
    )
}

} // verus!
