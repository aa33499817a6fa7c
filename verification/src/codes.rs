//! Connection codes and verification codes.
use crate::encoding;
use crate::ids;
use crate::payloads::HostedCiphertextView;
use crate::payloads::HostedCodeView;
use crate::payloads::HostedInviteCiphertext;
use crate::payloads::HostedInviteCode;
use crate::payloads::InvitePayload;
use crate::payloads::InvitePayloadView;
use crate::primitives;
use crate::seqs;
use crate::text;
use crate::urls;
use vstd::prelude::*;

verus! {

/// How a connection code begins.
pub const INVITE_PREFIX: &'static str = "axn1_";

/// How a verification code begins.
pub const VERIFY_PREFIX: &'static str = "axv1_";

/// The kind of a hosted connection code.
pub const HOSTED_INVITE_KIND: &'static str = "axeno_hosted_invite_v1";

/// A code: its prefix and its contents in URL-safe base64.
pub open spec fn code_text(prefix: Seq<char>, contents: Seq<u8>) -> Seq<char> {
    prefix + encoding::b64_text(contents, true)
}

/// The contents of a code, or why it is none: white space around it does not count.
pub open spec fn code_contents(
    code: Seq<char>,
    prefix: Seq<char>,
    no_prefix: Seq<char>,
    no_base64: Seq<char>,
) -> Result<Seq<u8>, Seq<char>> {
    let t = text::trimmed(code);
    if !text::has_prefix(t, prefix) {
        Err(no_prefix)
    } else {
        match encoding::b64_bytes(t.skip(prefix.len() as int), true) {
            Some(b) => Ok(b),
            None => Err(no_base64),
        }
    }
}

/// The contents of a connection code.
pub open spec fn invite_contents(code: Seq<char>) -> Result<Seq<u8>, Seq<char>> {
    code_contents(
        code,
        INVITE_PREFIX@,
        "connection code must start with axn1_"@,
        "connection code base64 is invalid"@,
    )
}

/// The contents of a verification code.
pub open spec fn verification_contents(code: Seq<char>) -> Result<Seq<u8>, Seq<char>> {
    code_contents(
        code,
        VERIFY_PREFIX@,
        "verification code must start with axv1_"@,
        "verification code base64 is invalid"@,
    )
}

fn encode_code(prefix: &str, contents: &[u8]) -> (r: String)
    ensures
        r@ == code_text(prefix@, contents@),
{
    let tail = encoding::to_b64_url(contents);
    text::concat2(prefix, tail.as_str())
}

fn decode_code(code: &str, prefix: &str, no_prefix: &str, no_base64: &str) -> (r: Result<
    Vec<u8>,
    String,
>)
    ensures
        seqs::outcome(r) == code_contents(code@, prefix@, no_prefix@, no_base64@),
{
    let t = text::trim(code);
    match text::strip_prefix(t.as_str(), prefix) {
        None => Err(no_prefix.to_string()),
        Some(tail) => match encoding::from_b64_url(tail.as_str()) {
            Some(b) => Ok(b),
            None => Err(no_base64.to_string()),
        },
    }
}

/// A connection code with the given contents.
pub fn invite_code(contents: &[u8]) -> (r: String)
    ensures
        r@ == code_text(INVITE_PREFIX@, contents@),
{
    encode_code(INVITE_PREFIX, contents)
}

/// The contents of a connection code.
pub fn decode_invite_code(code: &str) -> (r: Result<Vec<u8>, String>)
    ensures
        seqs::outcome(r) == invite_contents(code@),
{
    decode_code(
        code,
        INVITE_PREFIX,
        "connection code must start with axn1_",
        "connection code base64 is invalid",
    )
}

/// A verification code with the given contents.
pub fn verification_code(contents: &[u8]) -> (r: String)
    ensures
        r@ == code_text(VERIFY_PREFIX@, contents@),
{
    encode_code(VERIFY_PREFIX, contents)
}

/// The contents of a verification code.
pub fn decode_verification_code(code: &str) -> (r: Result<Vec<u8>, String>)
    ensures
        seqs::outcome(r) == verification_contents(code@),
{
    decode_code(
        code,
        VERIFY_PREFIX,
        "verification code must start with axv1_",
        "verification code base64 is invalid",
    )
}

/// What a connection code turned out to be.
pub enum DecodedInviteCode {
    /// It holds everything itself.
    Direct { payload: InvitePayload },
    /// It says where its bundle is hosted.
    Hosted { hosted: HostedInviteCode },
}

/// What a connection code turned out to be.
pub enum DecodedInviteView {
    Direct { payload: InvitePayloadView },
    Hosted { hosted: HostedCodeView },
}

impl View for DecodedInviteCode {
    type V = DecodedInviteView;

    open spec fn view(&self) -> DecodedInviteView {
        match self {
            DecodedInviteCode::Direct { payload } => DecodedInviteView::Direct {
                payload: payload@,
            },
            DecodedInviteCode::Hosted { hosted } => DecodedInviteView::Hosted { hosted: hosted@ },
        }
    }
}

/// The contents are those of a hosted connection code.
pub open spec fn is_hosted(h: HostedCodeView) -> bool {
    h.v == 1 && h.kind == HOSTED_INVITE_KIND@
}

/// What a connection code is, given how its contents read in either way.
pub open spec fn told_apart(
    hosted: Option<HostedCodeView>,
    direct: Result<InvitePayloadView, Seq<char>>,
) -> Result<DecodedInviteView, Seq<char>> {
    match hosted {
        Some(h) if is_hosted(h) => Ok(DecodedInviteView::Hosted { hosted: h }),
        _ => match direct {
            Ok(p) => Ok(DecodedInviteView::Direct { payload: p }),
            Err(e) => Err("connection code payload is invalid: "@ + e),
        },
    }
}

/// Whether the contents are those of a hosted connection code.
fn hosted_fits(h: &HostedInviteCode) -> (r: bool)
    ensures
        r == is_hosted(h@),
{
    h.v == 1 && text::same_text(h.kind.as_str(), HOSTED_INVITE_KIND)
}

/// What a connection code is, given how its contents read as a hosted code and as a whole
/// invite.
pub fn tell_invite_apart(
    hosted: Option<HostedInviteCode>,
    direct: Result<InvitePayload, String>,
) -> (r: Result<DecodedInviteCode, String>)
    ensures
        seqs::outcome(r) == told_apart(seqs::opt(hosted), seqs::outcome(direct)),
{
    if let Some(h) = hosted {
        if hosted_fits(&h) {
            return Ok(DecodedInviteCode::Hosted { hosted: h });
        }
    }
    match direct {
        Ok(payload) => Ok(DecodedInviteCode::Direct { payload }),
        Err(e) => Err(text::concat2("connection code payload is invalid: ", e.as_str())),
    }
}

/// A bundle under encryption and the code that opens it.
pub struct SealedInvite {
    pub hosted: HostedInviteCode,
    pub bundle: HostedInviteCiphertext,
}

/// A bundle under encryption and the code that opens it.
#[verifier::ext_equal]
pub struct SealedInviteView {
    pub hosted: HostedCodeView,
    pub bundle: HostedCiphertextView,
}

impl View for SealedInvite {
    type V = SealedInviteView;

    open spec fn view(&self) -> SealedInviteView {
        SealedInviteView { hosted: self.hosted@, bundle: self.bundle@ }
    }
}

/// A bundle under encryption and the code that opens it, for a given key, nonce and handle.
pub open spec fn sealed_invite(
    plain: Seq<u8>,
    server_url: Seq<char>,
    key: Seq<u8>,
    nonce: Seq<u8>,
    bundle_id: Seq<char>,
) -> SealedInviteView {
    SealedInviteView {
        hosted: HostedCodeView {
            v: 1,
            kind: HOSTED_INVITE_KIND@,
            server_url: urls::normalized(server_url),
            bundle_id,
            bundle_key_b64: encoding::b64_text(key, true),
        },
        bundle: HostedCiphertextView {
            v: 1,
            nonce_b64: encoding::b64_text(nonce, true),
            ciphertext_b64: encoding::b64_text(primitives::sealed(key, nonce, plain), true),
        },
    }
}

/// The key in a hosted connection code, or why there is none.
pub open spec fn invite_key(h: HostedCodeView) -> Result<Seq<u8>, Seq<char>> {
    if !is_hosted(h) {
        Err("unsupported hosted connection code"@)
    } else {
        match encoding::b64_bytes(h.bundle_key_b64, true) {
            None => Err("hosted invite key is invalid"@),
            Some(k) => if k.len() != 32 {
                Err("hosted invite key has wrong length"@)
            } else {
                Ok(k)
            },
        }
    }
}

/// What a hosted bundle holds, or why it cannot be read.
pub open spec fn opened_invite(key: Seq<u8>, b: HostedCiphertextView) -> Result<
    Seq<u8>,
    Seq<char>,
> {
    if b.v != 1 {
        Err("unsupported hosted invite bundle version"@)
    } else {
        match encoding::b64_bytes(b.nonce_b64, true) {
            None => Err("hosted invite nonce is invalid"@),
            Some(nonce) => if nonce.len() != 12 {
                Err("hosted invite nonce has wrong length"@)
            } else {
                match encoding::b64_bytes(b.ciphertext_b64, true) {
                    None => Err("hosted invite ciphertext is invalid"@),
                    Some(c) => match primitives::decrypted(key, nonce, c) {
                        None => Err("hosted invite bundle could not be decrypted"@),
                        Some(plain) => Ok(plain),
                    },
                }
            },
        }
    }
}

/// Encrypts a bundle with a given key and nonce; the code opens exactly this bundle.
pub fn seal_invite_with(
    plain: &[u8],
    server_url: &str,
    key: &[u8],
    nonce: &[u8],
    bundle_id: String,
) -> (r: Result<SealedInvite, String>)
    requires
        key@.len() == 32,
        nonce@.len() == 12,
    ensures
        r is Ok <==> primitives::sealable(plain@.len()),
        match r {
            Ok(s) => {
                &&& s@ == sealed_invite(plain@, server_url@, key@, nonce@, bundle_id@)
                &&& invite_key(s@.hosted) == Ok::<Seq<u8>, Seq<char>>(key@)
                &&& opened_invite(key@, s@.bundle) == Ok::<Seq<u8>, Seq<char>>(plain@)
            },
            Err(e) => e@ == "hosted invite bundle encryption failed"@,
        },
{
    match primitives::seal(key, nonce, plain) {
        None => Err("hosted invite bundle encryption failed".to_string()),
        Some(c) => {
            proof {
                encoding::b64_round_trip(key@, true);
                encoding::b64_round_trip(nonce@, true);
                encoding::b64_round_trip(c@, true);
            }
            let hosted = HostedInviteCode {
                v: 1,
                kind: HOSTED_INVITE_KIND.to_string(),
                server_url: urls::normalize_url(server_url),
                bundle_id,
                bundle_key_b64: encoding::to_b64_url(key),
            };
            let bundle = HostedInviteCiphertext {
                v: 1,
                nonce_b64: encoding::to_b64_url(nonce),
                ciphertext_b64: encoding::to_b64_url(c.as_slice()),
            };
            Ok(SealedInvite { hosted, bundle })
        },
    }
}

/// Encrypts a bundle with a fresh key and nonce under a fresh handle, and wipes the plaintext.
pub fn seal_invite(plain: Vec<u8>, server_url: &str) -> (r: Result<SealedInvite, String>)
    ensures
        match r {
            Ok(s) => exists|key: Seq<u8>, nonce: Seq<u8>, id: Seq<char>|
                key.len() == 32 && nonce.len() == 12 && ids::random_shape(id, "bun_"@, 24) && s@
                    == #[trigger] sealed_invite(plain@, server_url@, key, nonce, id) && invite_key(
                    s@.hosted,
                ) == Ok::<Seq<u8>, Seq<char>>(key) && opened_invite(key, s@.bundle) == Ok::<
                    Seq<u8>,
                    Seq<char>,
                >(plain@),
            Err(e) => text::has_prefix(e@, "OS randomness unavailable: "@) || (
            !primitives::sealable(plain@.len()) && e@ == "hosted invite bundle encryption failed"@),
        },
{
    let key = primitives::random_bytes(32)?;
    let nonce = primitives::random_bytes(12)?;
    let bundle_id = ids::random_token("bun_", 24)?;
    let mut text_bytes = plain;
    let sealed = seal_invite_with(
        text_bytes.as_slice(),
        server_url,
        key.as_slice(),
        nonce.as_slice(),
        bundle_id,
    );
    primitives::wipe(&mut text_bytes);
    sealed
}

/// The key in a hosted connection code.
pub fn hosted_invite_key(hosted: &HostedInviteCode) -> (r: Result<Vec<u8>, String>)
    ensures
        seqs::outcome(r) == invite_key(hosted@),
        r matches Ok(k) ==> k@.len() == 32,
{
    if !hosted_fits(hosted) {
        return Err("unsupported hosted connection code".to_string());
    }
    match encoding::from_b64_url(hosted.bundle_key_b64.as_str()) {
        None => Err("hosted invite key is invalid".to_string()),
        Some(k) => if k.len() != 32 {
            Err("hosted invite key has wrong length".to_string())
        } else {
            Ok(k)
        },
    }
}

/// What a hosted bundle holds.
pub fn open_invite(key: &[u8], bundle: &HostedInviteCiphertext) -> (r: Result<Vec<u8>, String>)
    requires
        key@.len() == 32,
    ensures
        seqs::outcome(r) == opened_invite(key@, bundle@),
{
    if bundle.v != 1 {
        return Err("unsupported hosted invite bundle version".to_string());
    }
    let nonce = match encoding::from_b64_url(bundle.nonce_b64.as_str()) {
        None => {
            return Err("hosted invite nonce is invalid".to_string());
        },
        Some(n) => n,
    };
    if nonce.len() != 12 {
        return Err("hosted invite nonce has wrong length".to_string());
    }
    match encoding::from_b64_url(bundle.ciphertext_b64.as_str()) {
        None => Err("hosted invite ciphertext is invalid".to_string()),
        Some(c) => match primitives::open_sealed(key, nonce.as_slice(), c.as_slice()) {
            None => Err("hosted invite bundle could not be decrypted".to_string()),
            Some(plain) => Ok(plain),
        },
    }
}

/// The invite of an opened bundle, where its version is known.
pub fn accept_bundle(v: u16, payload: InvitePayload) -> (r: Result<InvitePayload, String>)
    ensures
        seqs::outcome(r) == if v == 1 {
            Ok(payload@)
        } else {
            Err("unsupported hosted invite plaintext version"@)
        },
{
    if v != 1 {
        return Err("unsupported hosted invite plaintext version".to_string());
    }
    Ok(payload)
}

/// The code of a hosted invite names the bundle and its relay and holds its key. A code of another
/// version or kind is refused, and so is a bundle of another version.
pub proof fn hosted_codes_hold_their_key(
    plain: Seq<u8>,
    server_url: Seq<char>,
    key: Seq<u8>,
    nonce: Seq<u8>,
    bundle_id: Seq<char>,
    v: u16,
    kind: Seq<char>,
)
    requires
        key.len() == 32,
    ensures
        ({
            let s = sealed_invite(plain, server_url, key, nonce, bundle_id);
            let changed = HostedCodeView { v, kind, ..s.hosted };
            &&& s.hosted.bundle_id == bundle_id
            &&& s.hosted.server_url == urls::normalized(server_url)
            &&& invite_key(s.hosted) == Ok::<Seq<u8>, Seq<char>>(key)
            &&& v != 1 || kind != HOSTED_INVITE_KIND@ ==> invite_key(changed) is Err
            &&& v != 1 ==> opened_invite(key, HostedCiphertextView { v, ..s.bundle }) is Err
        }),
{
    encoding::b64_round_trip(key, true);
}

proof fn code_round_trip(prefix: Seq<char>, contents: Seq<u8>, a: Seq<char>, b: Seq<char>)
    requires
        prefix.len() > 0,
        !text::is_white(prefix[0]),
        !text::is_white(prefix.last()),
    ensures
        code_contents(code_text(prefix, contents), prefix, a, b) == Ok::<Seq<u8>, Seq<char>>(
            contents,
        ),
{
    let tail = encoding::b64_text(contents, true);
    let code = code_text(prefix, contents);
    encoding::b64_url_safe(contents);
    encoding::b64_round_trip(contents, true);
    assert(!text::is_white(code.last())) by {
        if tail.len() > 0 {
            assert(code.last() == tail[tail.len() - 1]);
            assert(text::url_safe(tail[tail.len() - 1]));
        } else {
            assert(code.last() == prefix.last());
        }
    }
    assert(text::trimmed(code) == code);
    assert(code.take(prefix.len() as int) =~= prefix);
    assert(code.skip(prefix.len() as int) =~= tail);
}

/// Reading a connection code gives back what was written into it.
pub proof fn invite_codes_round_trip(contents: Seq<u8>)
    ensures
        invite_contents(code_text(INVITE_PREFIX@, contents)) == Ok::<Seq<u8>, Seq<char>>(contents),
{
    reveal_strlit("axn1_");
    code_round_trip(
        INVITE_PREFIX@,
        contents,
        "connection code must start with axn1_"@,
        "connection code base64 is invalid"@,
    );
}

/// Reading a verification code gives back what was written into it.
pub proof fn verification_codes_round_trip(contents: Seq<u8>)
    ensures
        verification_contents(code_text(VERIFY_PREFIX@, contents)) == Ok::<Seq<u8>, Seq<char>>(
            contents,
        ),
{
    reveal_strlit("axv1_");
    code_round_trip(
        VERIFY_PREFIX@,
        contents,
        "verification code must start with axv1_"@,
        "verification code base64 is invalid"@,
    );
}

} // verus!
