//! What holds of a relay that is stopped and started again, of its keys on disk, and of how it is
//! announced.
use crate::encoding;
use crate::primitives;
use crate::relay::disk;
use crate::relay::disk::DiskCryptoView;
use crate::relay::disk::DiskKeyErrorView;
use crate::relay::disk::DiskView;
use crate::relay::disk::EncryptedCryptoView;
use crate::relay::disk::KeyPlan;
use crate::relay::onion;
use crate::relay::onion::HostnameStepView;
use crate::relay::state;
use crate::relay::state::RelayView;
use crate::text;
use vstd::prelude::*;
use vstd::utf8::*;

verus! {

// ---------------------------------------------------------------------------------------------
// Starting again.
// ---------------------------------------------------------------------------------------------

/// A mailbox is there after a start exactly where it was there before. It opens for the same
/// receive token and takes exactly the delivery tokens that it took.
pub proof fn mailboxes_survive_a_restart(
    v: RelayView,
    d: DiskView,
    written_ms: u64,
    root: Seq<char>,
    rid: Seq<char>,
    hash: Seq<char>,
)
    requires
        state::relay_inv(v),
        state::well_addressed(v),
        disk::records(d, v),
    ensures
        ({
            let w = disk::restored(disk::pruned_disk(d, written_ms), root);
            &&& w.mailboxes.contains_key(rid) <==> v.mailboxes.contains_key(rid)
            &&& v.mailboxes.contains_key(rid) ==> w.mailboxes[rid].receive_auth_hash
                == v.mailboxes[rid].receive_auth_hash
            &&& v.mailboxes.contains_key(rid) ==> ((w.mailboxes[rid].delivery_token_hash == hash
                || w.mailboxes[rid].delivery_token_hashes.contains(hash)) <==> (
            v.mailboxes[rid].delivery_token_hash == hash
                || v.mailboxes[rid].delivery_token_hashes.contains(hash)))
            &&& w.mailbox_count == v.mailbox_count
        }),
{
    disk::restarts_keep_everything(v, d, written_ms, root);
    if v.mailboxes.contains_key(rid) {
        let a = v.mailboxes[rid];
        let one = seq![a.delivery_token_hash];
        assert(one.contains(hash) ==> hash == a.delivery_token_hash);
    }
}

/// Every envelope that waited still waits after a start, in the same order. The bundles whose time
/// had not come when the relay was stopped are hosted as they were, and no others. No socket is
/// live.
pub proof fn envelopes_and_bundles_survive_a_restart(
    v: RelayView,
    d: DiskView,
    written_ms: u64,
    root: Seq<char>,
    k: Seq<char>,
)
    requires
        state::relay_inv(v),
        state::well_addressed(v),
        disk::records(d, v),
    ensures
        ({
            let w = disk::restored(disk::pruned_disk(d, written_ms), root);
            &&& w.queues == v.queues
            &&& w.bundles.contains_key(k) <==> v.bundles.contains_key(k)
                && v.bundles[k].expires_at_ms > written_ms
            &&& w.bundles.contains_key(k) ==> w.bundles[k] == v.bundles[k]
            &&& !w.online.contains_key(k)
            &&& w.trust_root == root
            &&& !w.dirty
        }),
{
    disk::restarts_keep_everything(v, d, written_ms, root);
}

/// Pruning what is written touches neither the keys nor the queues.
pub proof fn pruning_leaves_keys_and_queues(d: DiskView, now_ms: u64)
    ensures
        ({
            let w = disk::pruned_disk(d, now_ms);
            &&& w.crypto == d.crypto && w.encrypted_crypto == d.encrypted_crypto
            &&& w.queues == d.queues
            &&& w.mailbox_auth.len() == d.mailbox_auth.len()
        }),
{
}

// ---------------------------------------------------------------------------------------------
// Keys on disk.
// ---------------------------------------------------------------------------------------------

/// The key that protects the relay's keys is that of Argon2id over 19 MiB in two passes on one lane.
pub proof fn disk_keys_are_stretched(env_key: Seq<char>, salt: Seq<u8>)
    ensures
        ({
            let r = disk::disk_key(env_key, salt);
            let bytes = encode_utf8(env_key);
            &&& r is Ok <==> bytes.len() <= 0xffff_ffff && 8 <= salt.len() <= 0xffff_ffff
            &&& r is Ok ==> r->Ok_0 == primitives::argon2id(bytes, salt, 19_456, 2, 1)
        }),
{
}

/// The relay's keys are protected by sealing them under that key; salt, nonce and sealed bytes are
/// written in hex. They are read back where all three can be read, the nonce has 12 bytes and the
/// cipher accepts what was sealed.
pub proof fn relay_keys_are_sealed(
    plain: Seq<u8>,
    env_key: Seq<char>,
    salt: Seq<u8>,
    nonce: Seq<u8>,
    b: EncryptedCryptoView,
)
    ensures
        ({
            let r = disk::protected(plain, env_key, salt, nonce);
            let key = disk::disk_key(env_key, salt);
            &&& r is Ok <==> key is Ok && plain.len() <= 274_877_906_816
            &&& r matches Ok(blob) ==> encoding::unhexed(blob.salt) == Some(salt)
                && encoding::unhexed(blob.nonce) == Some(nonce) && encoding::unhexed(
                blob.ciphertext,
            ) == Some(primitives::sealed(key->Ok_0, nonce, plain))
        }),
        ({
            let r = disk::unprotected(b, env_key);
            let s = encoding::unhexed(b.salt);
            let n = encoding::unhexed(b.nonce);
            let c = encoding::unhexed(b.ciphertext);
            let key = disk::disk_key(env_key, s->0);
            &&& r is Ok <==> s is Some && key is Ok && n is Some && n->0.len() == 12 && c is Some
                && primitives::decrypted(key->Ok_0, n->0, c->0) is Some
            &&& r is Ok ==> Some(r->Ok_0) == primitives::decrypted(key->Ok_0, n->0, c->0)
        }),
{
    encoding::hex_round_trip(salt);
    encoding::hex_round_trip(nonce);
    if let Ok(key) = disk::disk_key(env_key, salt) {
        encoding::hex_round_trip(primitives::sealed(key, nonce, plain));
    }
}

/// Keys that are protected are decrypted with the passphrase, and without one the relay does not
/// start. Plain keys are taken as they stand, to be protected where there is a passphrase.
pub proof fn protected_keys_need_their_passphrase(d: DiskView, key: Option<Seq<char>>)
    ensures
        ({
            let r = disk::planned_keys(d, key);
            &&& d.encrypted_crypto is Some && key is Some ==> r == Ok::<KeyPlan, Seq<char>>(
                KeyPlan::Decrypt,
            )
            &&& d.encrypted_crypto is Some && key is None ==> r is Err
            &&& d.encrypted_crypto is None && d.crypto is Some && key is Some ==> r == Ok::<
                KeyPlan,
                Seq<char>,
            >(KeyPlan::Migrate)
            &&& d.encrypted_crypto is None && (d.crypto is None || key is None) ==> r == Ok::<
                KeyPlan,
                Seq<char>,
            >(KeyPlan::Keep)
            &&& disk::usable(key) == if key is Some && key->0.len() > 0 {
                key
            } else {
                None
            }
        }),
{
}

/// A relay keeps the keys that it has; only one without any takes the fresh ones. Its trust root is
/// the public key of these, in base64.
pub proof fn relays_keep_their_keys(d: DiskView, fresh: DiskCryptoView)
    ensures
        ({
            let (w, root) = disk::settled(d, fresh);
            let crypto = if d.crypto is Some {
                d.crypto->0
            } else {
                fresh
            };
            &&& w == (DiskView { crypto: Some(crypto), ..d })
            &&& root == encoding::b64_text(crypto.trust_root_public, false)
        }),
{
}

/// What is said of keys that cannot be read or protected.
pub proof fn key_errors_say_what_failed(why: Seq<char>)
    ensures
        disk::disk_key_message(DiskKeyErrorView::Encoding(why)) == why,
        disk::disk_key_message(DiskKeyErrorView::Randomness(why)) == why,
        disk::disk_key_message(DiskKeyErrorView::Derivation(why))
            == "Argon2id derivation failed: "@ + why,
        disk::disk_key_message(DiskKeyErrorView::NonceLength) == "invalid nonce length"@,
{
}

// ---------------------------------------------------------------------------------------------
// Announcing.
// ---------------------------------------------------------------------------------------------

/// The service is announced as soon as its name is there, under that name; it is looked for thirty
/// times.
pub proof fn services_are_looked_for_thirty_times(looks: u32, name: Seq<char>)
    ensures
        onion::after_look(looks, Some(name)) == (HostnameStepView::Announce {
            address: "ws://"@ + text::trimmed(name) + "/ws"@,
        }),
        onion::after_look(looks, None) is Again <==> looks < 29,
        onion::after_look(looks, None) is GiveUp <==> looks >= 29,
{
}

/// Tor is told to forward the service's port 80 to the relay on this machine and to take no
/// connections of its own.
pub proof fn tor_forwards_to_the_relay(tor_dir: Seq<char>, service_dir: Seq<char>, port: u16)
    ensures
        onion::configuration(tor_dir, service_dir, port) == "DataDirectory "@ + tor_dir
            + "\nHiddenServiceDir "@ + service_dir
            + "\nHiddenServiceVersion 3\nHiddenServicePort 80 127.0.0.1:"@ + text::decimal(
            port as nat,
        ) + "\nSocksPort 0\nLog notice stdout\n"@,
{
}

} // verus!
