//! Identifiers and tokens on the wire.
use crate::encoding;
use crate::primitives;
use crate::seqs;
use crate::text;
use vstd::prelude::*;

verus! {

/// Between `min` and 128 letters, digits, hyphens and underscores.
pub open spec fn token_shape(s: Seq<char>, min: nat) -> bool {
    min <= s.len() <= 128 && text::all_url_safe(s)
}

/// What the relay takes for a mailbox: `mbx_` and as many characters as a random one has.
pub open spec fn recipient_shape(id: Seq<char>) -> bool {
    text::has_prefix(id, "mbx_"@) && token_shape(id, 36)
}

/// Whether there are between `min` and 128 letters, digits, hyphens and underscores.
fn has_token_shape(s: &str, min: usize) -> (r: bool)
    ensures
        r == token_shape(s@, min as nat),
{
    let n: usize = text::char_len(s);
    min <= n && n <= 128 && text::is_all_url_safe(s)
}

/// Whether the relay takes the text for a mailbox.
pub fn valid_recipient_id(id: &str) -> (r: bool)
    ensures
        r == recipient_shape(id@),
{
    text::starts_with(id, "mbx_") && has_token_shape(id, 36)
}

/// Whether the relay takes the text for the handle of an invite bundle.
pub fn valid_bundle_id(id: &str) -> (r: bool)
    ensures
        r == token_shape(id@, 16),
{
    has_token_shape(id, 16)
}

/// Whether the relay takes the text for a token.
pub fn valid_token(token: &str) -> (r: bool)
    ensures
        r == token_shape(token@, 16),
{
    has_token_shape(token, 16)
}

/// Refuses what is no token; `label` says which token it should have been.
pub fn validate_token(token: &str, label: &str) -> (r: Result<(), String>)
    ensures
        seqs::verdict(r) == checked_token(token@, label@),
{
    if has_token_shape(token, 16) {
        Ok(())
    } else {
        Err(text::concat2(label, " must be 16-128 URL-safe characters"))
    }
}

/// What the check of a token says.
pub open spec fn checked_token(token: Seq<char>, label: Seq<char>) -> Result<(), Seq<char>> {
    if token_shape(token, 16) {
        Ok(())
    } else {
        Err(label + " must be 16-128 URL-safe characters"@)
    }
}

/// What the check of a mailbox on the client's side says.
pub open spec fn checked_recipient(id: Seq<char>) -> Result<(), Seq<char>> {
    if text::has_prefix(id, "mbx_"@) && token_shape(id, 16) {
        Ok(())
    } else {
        Err("recipient id must start with mbx_ and be 16-128 URL-safe characters"@)
    }
}

/// Refuses what is no mailbox.
pub fn validate_recipient_id(id: &str) -> (r: Result<(), String>)
    ensures
        seqs::verdict(r) == checked_recipient(id@),
{
    if text::starts_with(id, "mbx_") && has_token_shape(id, 16) {
        Ok(())
    } else {
        Err("recipient id must start with mbx_ and be 16-128 URL-safe characters".to_string())
    }
}

/// What the check of a bundle handle says.
pub open spec fn checked_bundle(id: Seq<char>) -> Result<(), Seq<char>> {
    if token_shape(id, 16) {
        Ok(())
    } else {
        Err("invite bundle id must be 16-128 URL-safe characters"@)
    }
}

/// Refuses what is no bundle handle.
pub fn validate_bundle_id(id: &str) -> (r: Result<(), String>)
    ensures
        seqs::verdict(r) == checked_bundle(id@),
{
    if has_token_shape(id, 16) {
        Ok(())
    } else {
        Err("invite bundle id must be 16-128 URL-safe characters".to_string())
    }
}

/// The text in which the relay keeps a token.
pub open spec fn token_digest(token: Seq<char>) -> Seq<char> {
    encoding::hex_text(primitives::sha256(vstd::utf8::encode_utf8(token)))
}

/// The text in which the relay keeps a token: its SHA-256 digest in hexadecimal.
pub fn token_hash(token: &str) -> (r: String)
    ensures
        r@ == token_digest(token@),
{
    let d = primitives::digest(token.as_bytes());
    encoding::to_hex(d.as_slice())
}

/// A random token is its prefix and the URL-safe base64 of some `n` bytes.
pub open spec fn random_shape(t: Seq<char>, prefix: Seq<char>, n: nat) -> bool {
    exists|raw: Seq<u8>| raw.len() == n && t == prefix + #[trigger] encoding::b64_text(raw, true)
}

/// The prefix and the random bytes as a token.
pub fn token_of(prefix: &str, raw: &[u8]) -> (r: String)
    ensures
        r@ == prefix@ + encoding::b64_text(raw@, true),
{
    let tail = encoding::to_b64_url(raw);
    text::concat2(prefix, tail.as_str())
}

/// A fresh random token.
pub fn random_token(prefix: &str, bytes: usize) -> (r: Result<String, String>)
    requires
        bytes <= isize::MAX,
    ensures
        match r {
            Ok(t) => random_shape(t@, prefix@, bytes as nat),
            Err(e) => text::has_prefix(e@, "OS randomness unavailable: "@),
        },
{
    let raw = primitives::random_bytes(bytes)?;
    Ok(token_of(prefix, raw.as_slice()))
}

/// The text is a random identifier in its usual form.
pub open spec fn is_id_text(t: Seq<char>) -> bool {
    exists|id: u128| primitives::is_random_id(id) && t == #[trigger] primitives::uuid_text(id)
}

/// A fresh random identifier in its usual form.
pub fn fresh_id() -> (r: String)
    ensures
        is_id_text(r@),
{
    let id: u128 = primitives::fresh_uuid();
    primitives::uuid_string(id)
}

/// The relay takes every random mailbox for a mailbox.
pub proof fn random_mailbox_is_valid(id: Seq<char>)
    requires
        random_shape(id, "mbx_"@, 24),
    ensures
        recipient_shape(id),
        checked_recipient(id) == Ok::<(), Seq<char>>(()),
{
    reveal_strlit("mbx_");
    let raw = choose|raw: Seq<u8>|
        raw.len() == 24 && id == "mbx_"@ + #[trigger] encoding::b64_text(raw, true);
    encoding::b64_url_safe(raw);
    let tail = encoding::b64_text(raw, true);
    assert(tail.len() == 32);
    assert(id.take(4) =~= "mbx_"@);
    assert forall|i: int| 0 <= i < id.len() implies text::url_safe(#[trigger] id[i]) by {
        if i >= 4 {
            assert(id[i] == tail[i - 4]);
        }
    }
}

/// The relay takes every random delivery or receive token for a token.
pub proof fn random_token_is_valid(t: Seq<char>, receive: bool)
    requires
        random_shape(
            t,
            if receive {
                "rx_"@
            } else {
                "dt_"@
            },
            32,
        ),
    ensures
        token_shape(t, 16),
{
    reveal_strlit("rx_");
    reveal_strlit("dt_");
    let prefix = if receive {
        "rx_"@
    } else {
        "dt_"@
    };
    let raw = choose|raw: Seq<u8>|
        raw.len() == 32 && t == prefix + #[trigger] encoding::b64_text(raw, true);
    encoding::b64_url_safe(raw);
    let tail = encoding::b64_text(raw, true);
    assert(tail.len() == 43);
    assert forall|i: int| 0 <= i < t.len() implies text::url_safe(#[trigger] t[i]) by {
        if i >= 3 {
            assert(t[i] == tail[i - 3]);
        }
    }
}

/// The relay takes every random bundle handle for one.
pub proof fn random_bundle_is_valid(id: Seq<char>)
    requires
        random_shape(id, "bun_"@, 24),
    ensures
        token_shape(id, 16),
        checked_bundle(id) == Ok::<(), Seq<char>>(()),
{
    reveal_strlit("bun_");
    let raw = choose|raw: Seq<u8>|
        raw.len() == 24 && id == "bun_"@ + #[trigger] encoding::b64_text(raw, true);
    encoding::b64_url_safe(raw);
    let tail = encoding::b64_text(raw, true);
    assert(tail.len() == 32);
    assert forall|i: int| 0 <= i < id.len() implies text::url_safe(#[trigger] id[i]) by {
        if i >= 4 {
            assert(id[i] == tail[i - 4]);
        }
    }
}

} // verus!
