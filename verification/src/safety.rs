//! Safety numbers and keys for separate purposes.
use crate::encoding;
use crate::primitives;
use crate::seqs;
use vstd::prelude::*;

verus! {

/// Where the first difference decides: `a` comes before `b`, or they are the same.
pub open spec fn bytes_le(a: Seq<u8>, b: Seq<u8>) -> bool
    decreases a.len(),
{
    if a.len() == 0 {
        true
    } else if b.len() == 0 {
        false
    } else if a[0] != b[0] {
        a[0] < b[0]
    } else {
        bytes_le(a.drop_first(), b.drop_first())
    }
}

/// The bytes of the text in front of what a safety number is made of.
pub open spec fn safety_label() -> Seq<u8> {
    vstd::utf8::encode_utf8("axeno-safety-number-v1"@)
}

/// The safety number of two identity keys: 16 bytes of the digest of both, the smaller first.
pub open spec fn safety_number(local: Seq<u8>, remote: Seq<u8>) -> Seq<char> {
    let both = if bytes_le(local, remote) {
        safety_label() + local + remote
    } else {
        safety_label() + remote + local
    };
    encoding::hex_text(primitives::sha256(both).take(16))
}

/// Appends bytes to bytes.
pub fn extend(out: &mut Vec<u8>, more: &[u8])
    ensures
        final(out)@ == old(out)@ + more@,
{
    let mut i: usize = 0;
    let ghost head = out@;
    proof {
        assert(head + more@.take(0) =~= head);
    }
    while i < more.len()
        invariant
            i <= more@.len(),
            out@ == head + more@.take(i as int),
        decreases more@.len() - i,
    {
        proof {
            seqs::take_step(more@, i as int);
            assert((head + more@.take(i as int)).push(more@[i as int]) =~= head + more@.take(
                i as int,
            ).push(more@[i as int]));
        }
        out.push(more[i]);
        i = i + 1;
    }
    proof {
        assert(more@.take(i as int) =~= more@);
    }
}

fn is_le(a: &[u8], b: &[u8]) -> (r: bool)
    ensures
        r == bytes_le(a@, b@),
{
    let mut i: usize = 0;
    proof {
        assert(a@.skip(0) =~= a@);
        assert(b@.skip(0) =~= b@);
    }
    while i < a.len() && i < b.len()
        invariant
            i <= a@.len(),
            i <= b@.len(),
            bytes_le(a@, b@) == bytes_le(a@.skip(i as int), b@.skip(i as int)),
        decreases a@.len() - i,
    {
        proof {
            let p = a@.skip(i as int);
            let q = b@.skip(i as int);
            assert(p[0] == a@[i as int]);
            assert(q[0] == b@[i as int]);
            assert(p.drop_first() =~= a@.skip(i + 1));
            assert(q.drop_first() =~= b@.skip(i + 1));
        }
        if a[i] != b[i] {
            return a[i] < b[i];
        }
        i = i + 1;
    }
    i >= a.len()
}

/// The safety number of two identity keys.
pub fn pairwise_safety_number(
    local_identity_public: &[u8],
    remote_identity_public: &[u8],
) -> (r: String)
    ensures
        r@ == safety_number(local_identity_public@, remote_identity_public@),
        r@.len() == 32,
        forall|i: int| 0 <= i < 32 ==> encoding::is_lower_hex(#[trigger] r@[i]),
{
    let mut both: Vec<u8> = Vec::new();
    extend(&mut both, "axeno-safety-number-v1".as_bytes());
    proof {
        assert(both@ =~= safety_label());
    }
    if is_le(local_identity_public, remote_identity_public) {
        extend(&mut both, local_identity_public);
        extend(&mut both, remote_identity_public);
    } else {
        extend(&mut both, remote_identity_public);
        extend(&mut both, local_identity_public);
    }
    let mut d = primitives::digest(both.as_slice());
    let ghost whole = d@;
    d.truncate(16);
    proof {
        assert(d@ =~= whole.take(16));
        encoding::hex_is_lower(d@);
    }
    encoding::to_hex(d.as_slice())
}

proof fn order_of_bytes(a: Seq<u8>, b: Seq<u8>)
    ensures
        bytes_le(a, b) || bytes_le(b, a),
        bytes_le(a, b) && bytes_le(b, a) ==> a == b,
    decreases a.len(),
{
    if a.len() > 0 && b.len() > 0 && a[0] == b[0] {
        order_of_bytes(a.drop_first(), b.drop_first());
        if a.drop_first() == b.drop_first() {
            assert(a =~= seq![a[0]] + a.drop_first());
            assert(b =~= seq![b[0]] + b.drop_first());
        }
    } else if a.len() == 0 && b.len() == 0 {
        assert(a =~= b);
    }
}

/// Both sides of a conversation compute the same safety number.
pub proof fn safety_numbers_are_mutual(a: Seq<u8>, b: Seq<u8>)
    ensures
        safety_number(a, b) == safety_number(b, a),
{
    order_of_bytes(a, b);
}

/// A key for one purpose, made from a root key: the digest of a fixed text, the purpose and the
/// root key.
pub open spec fn domain_key(root: Seq<u8>, label: Seq<char>) -> Seq<u8> {
    primitives::sha256(
        vstd::utf8::encode_utf8("axeno-domain-separated-key-v1"@) + vstd::utf8::encode_utf8(label)
            + root,
    )
}

/// A key for one purpose, made from a root key.
pub fn derive_domain_key(root_key: &[u8], label: &str) -> (r: Vec<u8>)
    ensures
        r@ == domain_key(root_key@, label@),
        r@.len() == 32,
{
    let mut all: Vec<u8> = Vec::new();
    extend(&mut all, "axeno-domain-separated-key-v1".as_bytes());
    extend(&mut all, label.as_bytes());
    extend(&mut all, root_key);
    proof {
        assert(all@ =~= vstd::utf8::encode_utf8("axeno-domain-separated-key-v1"@)
            + vstd::utf8::encode_utf8(label@) + root_key@);
    }
    primitives::digest(all.as_slice())
}

/// The key under which the store is encrypted.
pub open spec fn store_key(root: Seq<u8>) -> Seq<u8> {
    domain_key(root, "message-store"@)
}

/// The key under which the store is encrypted, made from the key of the vault.
pub fn derive_store_key_from_root(root_key: &[u8; 32]) -> (r: [u8; 32])
    ensures
        r@ == store_key(root_key@),
{
    let k = derive_domain_key(root_key.as_slice(), "message-store");
    to_array(k)
}

/// Thirty-two bytes as an array.
pub fn to_array(k: Vec<u8>) -> (r: [u8; 32])
    requires
        k@.len() == 32,
    ensures
        r@ == k@,
{
    let mut out: [u8; 32] = [0u8; 32];
    let mut i: usize = 0;
    while i < 32
        invariant
            i <= 32,
            k@.len() == 32,
            forall|j: int| 0 <= j < i ==> out@[j] == k@[j],
        decreases 32 - i,
    {
        out[i] = k[i];
        i = i + 1;
    }
    proof {
        assert(out@ =~= k@);
    }
    out
}

/// Twelve bytes as an array.
pub fn to_array12(k: Vec<u8>) -> (r: [u8; 12])
    requires
        k@.len() == 12,
    ensures
        r@ == k@,
{
    let mut out: [u8; 12] = [0u8; 12];
    let mut i: usize = 0;
    while i < 12
        invariant
            i <= 12,
            k@.len() == 12,
            forall|j: int| 0 <= j < i ==> out@[j] == k@[j],
        decreases 12 - i,
    {
        out[i] = k[i];
        i = i + 1;
    }
    proof {
        assert(out@ =~= k@);
    }
    out
}

} // verus!
