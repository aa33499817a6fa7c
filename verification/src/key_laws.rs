//! What holds of keys, certificates and files, and of the memory of envelopes.
use crate::certificates;
use crate::certificates::CachedView;
use crate::encoding;
use crate::identity;
use crate::identity::IdentityErrorView;
use crate::identity::IdentityView;
use crate::identity::SessionStateView;
use crate::keys;
use crate::keys::LocalBundleView;
use crate::keys::OpkPublicView;
use crate::keys::OpkSecretView;
use crate::keys::PreKeyRecordView;
use crate::keys::SecretsView;
use crate::keys::SignedPreKeyPublicView;
use crate::keys::SignedPreKeySecretView;
use crate::keys::SignedRecordView;
use crate::ledger;
use crate::ledger::EnvelopeNote;
use crate::ledger::LedgerView;
use crate::payloads::StoreFileView;
use crate::primitives;
use crate::seqs;
use crate::store::KyberView;
use crate::store::RouteView;
use crate::store::SessionView;
use crate::store::StoreView;
use crate::text;
use crate::vault;
use crate::vault::LoadedStoreView;
use crate::vault::UnifiedView;
use vstd::prelude::*;
use vstd::utf8::*;

verus! {

// ---------------------------------------------------------------------------------------------
// One-time keys.
// ---------------------------------------------------------------------------------------------

/// The one-time key that is taken is the first that was not used. It is used from then on, and
/// nothing else changes.
pub proof fn the_first_unused_key_is_taken(st: StoreView, opks: Seq<OpkPublicView>, i: int)
    ensures
        ({
            let (w, r) = keys::opk_taken(st, opks);
            let first = 0 <= i < opks.len() && !st.used_opk_ids.contains(opks[i].id) && forall|
                j: int,
            |
                0 <= j < i ==> st.used_opk_ids.contains((#[trigger] opks[j]).id);
            let none = forall|j: int|
                0 <= j < opks.len() ==> st.used_opk_ids.contains((#[trigger] opks[j]).id);
            &&& first ==> r == Ok::<OpkPublicView, Seq<char>>(opks[i]) && w == (StoreView {
                used_opk_ids: st.used_opk_ids.push(opks[i].id),
                ..st
            })
            &&& none ==> r is Err && w == st
        }),
{
    let p = keys::unused(st.used_opk_ids);
    if 0 <= i < opks.len() && !st.used_opk_ids.contains(opks[i].id) && forall|j: int|
        0 <= j < i ==> st.used_opk_ids.contains((#[trigger] opks[j]).id) {
        seqs::find_is(opks, p, i);
    }
    if forall|j: int| 0 <= j < opks.len() ==> st.used_opk_ids.contains((#[trigger] opks[j]).id) {
        seqs::find_none(opks, p);
    }
}

/// Only the secret halves are wiped: no private byte is left, and all ids and the name stay.
pub proof fn wiping_leaves_no_private_byte(s: SecretsView, i: int)
    ensures
        ({
            let w = keys::without_keys(s);
            &&& w.identity_priv.len() == 0 && w.spk_priv.len() == 0
            &&& w.display_name == s.display_name
            &&& w.previous_spks_secret.len() == s.previous_spks_secret.len()
            &&& w.opks_secret.len() == s.opks_secret.len()
            &&& 0 <= i < s.previous_spks_secret.len() ==> w.previous_spks_secret[i] == (
            SignedPreKeySecretView { id: s.previous_spks_secret[i].id, private_key: Seq::empty() })
            &&& 0 <= i < s.opks_secret.len() ==> w.opks_secret[i] == (OpkSecretView {
                id: s.opks_secret[i].id,
                private_key: Seq::empty(),
            })
        }),
{
}

// ---------------------------------------------------------------------------------------------
// Kyber prekeys.
// ---------------------------------------------------------------------------------------------

/// A Kyber prekey is used for thirty days. Then it joins the former ones, of which each is kept
/// until sixty days after it was made, and a new one is asked for.
pub proof fn kyber_prekeys_last_for_thirty_days(st: StoreView, now_ms: u64, k: KyberView)
    ensures
        ({
            let (w, r) = keys::kyber_reviewed(st, now_ms);
            let current = st.local_kyber_prekey;
            let fresh = current is Some && now_ms < current->0.created_at_ms + 2_592_000_000;
            &&& fresh ==> r == current && w == st
            &&& !fresh ==> r is None
            &&& !fresh ==> (w.previous_kyber_prekeys.contains(k) <==> (
            st.previous_kyber_prekeys.contains(k) || current == Some(k)) && now_ms
                <= k.created_at_ms + 5_184_000_000)
            &&& (StoreView { previous_kyber_prekeys: st.previous_kyber_prekeys, ..w }) == st
        }),
{
    let previous = match st.local_kyber_prekey {
        Some(c) => st.previous_kyber_prekeys.push(c),
        None => st.previous_kyber_prekeys,
    };
    seqs::filter_members(previous, keys::kyber_is_kept(now_ms));
    if previous.contains(k) {
        let j = choose|j: int| 0 <= j < previous.len() && previous[j] == k;
        if j < st.previous_kyber_prekeys.len() {
            assert(st.previous_kyber_prekeys[j] == k);
        }
    }
    if st.previous_kyber_prekeys.contains(k) {
        let j = choose|j: int|
            0 <= j < st.previous_kyber_prekeys.len() && st.previous_kyber_prekeys[j] == k;
        assert(previous[j] == k);
    }
    if st.local_kyber_prekey == Some(k) {
        assert(previous[previous.len() - 1] == k);
    }
}

/// The next id is one more than the largest that is in use, and 1 where none is.
pub proof fn kyber_ids_count_up(st: StoreView)
    requires
        keys::next_kyber_id(st) < u32::MAX,
    ensures
        st.local_kyber_prekey is Some ==> keys::next_kyber_id(st) > st.local_kyber_prekey->0.id,
        forall|i: int|
            0 <= i < st.previous_kyber_prekeys.len() ==> keys::next_kyber_id(st) > (
            #[trigger] st.previous_kyber_prekeys[i]).id,
        keys::next_kyber_id(st) == 1 || st.local_kyber_prekey is Some && keys::next_kyber_id(st)
            == st.local_kyber_prekey->0.id + 1 || exists|i: int|
            0 <= i < st.previous_kyber_prekeys.len() && keys::next_kyber_id(st) == (
            #[trigger] st.previous_kyber_prekeys[i]).id + 1,
        st.local_kyber_prekey is None && st.previous_kyber_prekeys.len() == 0
            ==> keys::next_kyber_id(st) == 1,
{
    let floor = match st.local_kyber_prekey {
        Some(k) => k.id,
        None => 0,
    };
    largest(st.previous_kyber_prekeys, floor);
}

proof fn largest(ks: Seq<KyberView>, floor: u32)
    ensures
        keys::largest_id(ks, floor) >= floor,
        forall|i: int| 0 <= i < ks.len() ==> keys::largest_id(ks, floor) >= (#[trigger] ks[i]).id,
        keys::largest_id(ks, floor) == floor || exists|i: int|
            0 <= i < ks.len() && keys::largest_id(ks, floor) == (#[trigger] ks[i]).id,
    decreases ks.len(),
{
    if ks.len() > 0 {
        let front = ks.drop_last();
        largest(front, floor);
        assert forall|i: int| 0 <= i < ks.len() implies keys::largest_id(ks, floor) >= (
        #[trigger] ks[i]).id by {
            if i < front.len() {
                assert(front[i] == ks[i]);
            }
        }
        let m = keys::largest_id(front, floor);
        if m >= ks.last().id && m != floor {
            let i = choose|i: int| 0 <= i < front.len() && m == (#[trigger] front[i]).id;
            assert(ks[i].id == m);
        } else if m < ks.last().id {
            assert(ks[ks.len() - 1].id == keys::largest_id(ks, floor));
        }
    }
}

/// A Kyber prekey is stored as it was made, its bytes in base64.
pub proof fn kyber_prekeys_are_stored_as_made(
    id: u32,
    public: Seq<u8>,
    signature: Seq<u8>,
    record: Seq<u8>,
    now_ms: u64,
)
    ensures
        ({
            let k = keys::kyber_blob(id, public, signature, record, now_ms);
            &&& k.id == id && k.created_at_ms == now_ms
            &&& encoding::b64_bytes(k.public_b64, false) == Some(public)
            &&& encoding::b64_bytes(k.signature_b64, false) == Some(signature)
            &&& encoding::b64_bytes(k.record_b64, false) == Some(record)
        }),
{
    encoding::b64_round_trip(public, false);
    encoding::b64_round_trip(signature, false);
    encoding::b64_round_trip(record, false);
}

/// Every Kyber prekey that is in use or was, the current one last, is read back under its id, where
/// all of them can be read.
pub proof fn kyber_prekeys_are_all_read_back(ks: Seq<KyberView>, i: int)
    ensures
        keys::decoded_kybers(ks) is Ok <==> forall|j: int|
            0 <= j < ks.len() ==> encoding::b64_bytes((#[trigger] ks[j]).record_b64, false) is Some,
        keys::decoded_kybers(ks) matches Ok(all) ==> all.len() == ks.len() && (0 <= i < ks.len()
            ==> all[i].id == ks[i].id && Some(all[i].record) == encoding::b64_bytes(
            ks[i].record_b64,
            false,
        )),
    decreases ks.len(),
{
    if ks.len() > 0 {
        let front = ks.drop_last();
        kyber_prekeys_are_all_read_back(front, i);
        if keys::decoded_kybers(ks) is Ok {
            assert forall|j: int| 0 <= j < ks.len() implies encoding::b64_bytes(
                (#[trigger] ks[j]).record_b64,
                false,
            ) is Some by {
                if j < front.len() {
                    assert(front[j] == ks[j]);
                }
            }
        }
        if forall|j: int|
            0 <= j < ks.len() ==> encoding::b64_bytes(
                (#[trigger] ks[j]).record_b64,
                false,
            ) is Some {
            assert forall|j: int| 0 <= j < front.len() implies encoding::b64_bytes(
                (#[trigger] front[j]).record_b64,
                false,
            ) is Some by {
                assert(front[j] == ks[j]);
            }
            assert(ks[ks.len() - 1] == ks.last());
        }
    }
}

/// The keys to read with are the former ones and then the current one.
pub proof fn the_current_kyber_prekey_is_among_the_readable(st: StoreView)
    ensures
        keys::kyber_chain(st) == st.previous_kyber_prekeys + if st.local_kyber_prekey is Some {
            seq![st.local_kyber_prekey->0]
        } else {
            Seq::empty()
        },
{
    assert(keys::kyber_chain(st) =~= st.previous_kyber_prekeys + if st.local_kyber_prekey is Some {
        seq![st.local_kyber_prekey->0]
    } else {
        Seq::empty()
    });
}

// ---------------------------------------------------------------------------------------------
// Prekeys and their secret halves.
// ---------------------------------------------------------------------------------------------

/// The first secret half with the id.
pub open spec fn opk_half(s: Seq<OpkSecretView>, id: u32, k: int) -> bool {
    &&& 0 <= k < s.len()
    &&& s[k].id == id
    &&& forall|j: int| 0 <= j < k ==> (#[trigger] s[j]).id != id
}

/// A one-time key can be read with exactly where its secret half is there, and the two halves stay
/// together.
pub proof fn one_time_keys_find_their_half(
    publics: Seq<OpkPublicView>,
    secrets: Seq<OpkSecretView>,
    x: PreKeyRecordView,
)
    ensures
        keys::paired_opks(publics, secrets).contains(x) <==> exists|i: int, k: int|
            0 <= i < publics.len() && #[trigger] opk_half(secrets, (#[trigger] publics[i]).id, k)
                && x == (PreKeyRecordView {
                id: publics[i].id,
                public_key: publics[i].public_key,
                private_key: secrets[k].private_key,
            }),
    decreases publics.len(),
{
    let all = keys::paired_opks(publics, secrets);
    if publics.len() > 0 {
        let front = publics.drop_last();
        let n = publics.len() - 1;
        let p = publics.last();
        let before = keys::paired_opks(front, secrets);
        one_time_keys_find_their_half(front, secrets, x);
        let q = keys::opk_secret_is(p.id);
        seqs::find_spec(secrets, q);
        if all.contains(x) {
            let m = choose|m: int| 0 <= m < all.len() && all[m] == x;
            if m < before.len() {
                assert(before[m] == x);
                let (i, k) = choose|i: int, k: int|
                    0 <= i < front.len() && #[trigger] opk_half(
                        secrets,
                        (#[trigger] front[i]).id,
                        k,
                    ) && x == (PreKeyRecordView {
                        id: front[i].id,
                        public_key: front[i].public_key,
                        private_key: secrets[k].private_key,
                    });
                assert(publics[i] == front[i]);
                assert(opk_half(secrets, publics[i].id, k));
            } else {
                let k = seqs::find(secrets, q)->0;
                assert(opk_half(secrets, publics[n].id, k)) by {
                    assert forall|j: int| 0 <= j < k implies (#[trigger] secrets[j]).id != p.id by {
                        assert(!q(secrets[j]));
                    }
                }
            }
        }
        if exists|i: int, k: int|
            0 <= i < publics.len() && #[trigger] opk_half(secrets, (#[trigger] publics[i]).id, k)
                && x == (PreKeyRecordView {
                id: publics[i].id,
                public_key: publics[i].public_key,
                private_key: secrets[k].private_key,
            }) {
            let (i, k) = choose|i: int, k: int|
                0 <= i < publics.len() && #[trigger] opk_half(
                    secrets,
                    (#[trigger] publics[i]).id,
                    k,
                ) && x == (PreKeyRecordView {
                    id: publics[i].id,
                    public_key: publics[i].public_key,
                    private_key: secrets[k].private_key,
                });
            if i < n {
                assert(front[i] == publics[i]);
                assert(opk_half(secrets, front[i].id, k));
                let m = choose|m: int| 0 <= m < before.len() && before[m] == x;
                assert(all[m] == x);
            } else {
                seqs::find_is(secrets, q, k);
                assert(all[before.len() as int] == x);
            }
        }
    }
}

/// The first secret half with the id.
pub open spec fn spk_half(s: Seq<SignedPreKeySecretView>, id: u32, k: int) -> bool {
    &&& 0 <= k < s.len()
    &&& s[k].id == id
    &&& forall|j: int| 0 <= j < k ==> (#[trigger] s[j]).id != id
}

/// The record of a former signed prekey with its secret half.
pub open spec fn with_half(
    p: SignedPreKeyPublicView,
    s: SignedPreKeySecretView,
) -> SignedRecordView {
    SignedRecordView {
        id: p.id,
        created_at_ms: p.created_at_ms,
        public_key: p.public_key,
        private_key: s.private_key,
        signature: p.signature,
    }
}

/// A former signed prekey can be read with exactly where its secret half is there, and the two
/// halves stay together.
pub proof fn former_keys_find_their_half(
    publics: Seq<SignedPreKeyPublicView>,
    secrets: Seq<SignedPreKeySecretView>,
    x: SignedRecordView,
)
    ensures
        keys::paired_spks(publics, secrets).contains(x) <==> exists|i: int, k: int|
            0 <= i < publics.len() && #[trigger] spk_half(secrets, (#[trigger] publics[i]).id, k)
                && x == with_half(publics[i], secrets[k]),
    decreases publics.len(),
{
    let all = keys::paired_spks(publics, secrets);
    if publics.len() > 0 {
        let front = publics.drop_last();
        let n = publics.len() - 1;
        let p = publics.last();
        let before = keys::paired_spks(front, secrets);
        former_keys_find_their_half(front, secrets, x);
        let q = keys::spk_secret_is(p.id);
        seqs::find_spec(secrets, q);
        if all.contains(x) {
            let m = choose|m: int| 0 <= m < all.len() && all[m] == x;
            if m < before.len() {
                assert(before[m] == x);
                let (i, k) = choose|i: int, k: int|
                    0 <= i < front.len() && #[trigger] spk_half(
                        secrets,
                        (#[trigger] front[i]).id,
                        k,
                    ) && x == with_half(front[i], secrets[k]);
                assert(publics[i] == front[i]);
                assert(spk_half(secrets, publics[i].id, k));
            } else {
                let k = seqs::find(secrets, q)->0;
                assert(spk_half(secrets, publics[n].id, k)) by {
                    assert forall|j: int| 0 <= j < k implies (#[trigger] secrets[j]).id != p.id by {
                        assert(!q(secrets[j]));
                    }
                }
            }
        }
        if exists|i: int, k: int|
            0 <= i < publics.len() && #[trigger] spk_half(secrets, (#[trigger] publics[i]).id, k)
                && x == with_half(publics[i], secrets[k]) {
            let (i, k) = choose|i: int, k: int|
                0 <= i < publics.len() && #[trigger] spk_half(
                    secrets,
                    (#[trigger] publics[i]).id,
                    k,
                ) && x == with_half(publics[i], secrets[k]);
            if i < n {
                assert(front[i] == publics[i]);
                assert(spk_half(secrets, front[i].id, k));
                let m = choose|m: int| 0 <= m < before.len() && before[m] == x;
                assert(all[m] == x);
            } else {
                seqs::find_is(secrets, q, k);
                assert(all[before.len() as int] == x);
            }
        }
    }
}

/// Messages can be read with the current signed prekey, and with the former ones that have their
/// secret half; with no other.
pub proof fn signed_prekeys_stay_readable(
    me: LocalBundleView,
    secrets: SecretsView,
    now_ms: u64,
)
    ensures
        ({
            let all = keys::signed_records(me, secrets, now_ms);
            &&& all.len() >= 1
            &&& all[0] == (SignedRecordView {
                id: me.signed_prekey_id,
                created_at_ms: now_ms,
                public_key: me.signed_prekey_public,
                private_key: secrets.spk_priv,
                signature: me.signed_prekey_signature,
            })
            &&& all.drop_first() == keys::paired_spks(
                me.previous_signed_prekeys,
                secrets.previous_spks_secret,
            )
        }),
{
    let all = keys::signed_records(me, secrets, now_ms);
    assert(all.drop_first() =~= keys::paired_spks(
        me.previous_signed_prekeys,
        secrets.previous_spks_secret,
    ));
}

/// Every stored session is read back under its mailbox and device, where all of them can be read.
pub proof fn sessions_are_all_read_back(s: Seq<(Seq<char>, SessionView)>, i: int)
    ensures
        keys::decoded_sessions(s) matches Ok(all) ==> all.len() == s.len() && (0 <= i < s.len()
            ==> all[i].address_name == s[i].1.address_name && all[i].device_id == s[i].1.device_id
            && Some(all[i].record) == encoding::b64_bytes(s[i].1.session_b64, false)),
        keys::decoded_sessions(s) is Err ==> exists|j: int|
            0 <= j < s.len() && encoding::b64_bytes((#[trigger] s[j]).1.session_b64, false) is None,
    decreases s.len(),
{
    if s.len() > 0 {
        let front = s.drop_last();
        sessions_are_all_read_back(front, i);
        if keys::decoded_sessions(front) is Err {
            let j = choose|j: int|
                0 <= j < front.len() && encoding::b64_bytes(
                    (#[trigger] front[j]).1.session_b64,
                    false,
                ) is None;
            assert(s[j] == front[j]);
        } else if keys::decoded_sessions(s) is Err {
            assert(s[s.len() - 1] == s.last());
        }
    }
}

/// The certificate keys of a route are the bytes that were stored for it.
pub proof fn routes_have_their_certificate_keys(r: RouteView)
    ensures
        ({
            let public = encoding::b64_bytes(r.sealed_sender_cert_public_b64, false);
            let private = encoding::b64_bytes(r.sealed_sender_cert_private_b64, false);
            &&& keys::route_identity(r) is Ok <==> public is Some && private is Some
            &&& keys::route_identity(r) is Ok ==> keys::route_identity(r)->Ok_0 == (
                public->0,
                private->0,
            )
        }),
{
}

// ---------------------------------------------------------------------------------------------
// Certificates.
// ---------------------------------------------------------------------------------------------

/// A certificate is used again where it was kept under the same relay, mailbox, device and key and
/// is good for another hour at least.
pub proof fn certificates_are_used_again_while_good(
    s: Seq<CachedView>,
    key: Seq<char>,
    now_ms: u64,
    i: int,
)
    requires
        now_ms + 3_600_000 <= u64::MAX,
    ensures
        ({
            let r = certificates::usable(s, key, now_ms);
            let first = 0 <= i < s.len() && s[i].key == key && forall|j: int|
                0 <= j < i ==> (#[trigger] s[j]).key != key;
            &&& first && s[i].certificate.expires_at_ms > now_ms + 3_600_000 ==> r == Some(
                s[i].certificate,
            )
            &&& first && s[i].certificate.expires_at_ms <= now_ms + 3_600_000 ==> r is None
            &&& (forall|j: int| 0 <= j < s.len() ==> (#[trigger] s[j]).key != key) ==> r is None
        }),
{
    let p = certificates::kept_as(key);
    if 0 <= i < s.len() && s[i].key == key && forall|j: int|
        0 <= j < i ==> (#[trigger] s[j]).key != key {
        seqs::find_is(s, p, i);
    }
    if forall|j: int| 0 <= j < s.len() ==> (#[trigger] s[j]).key != key {
        seqs::find_none(s, p);
    }
}

/// Making room drops the certificates whose time has come and, where there would be 256 or more
/// left, one that ends no later than any other.
pub proof fn room_is_made_for_certificates(
    s: Seq<CachedView>,
    now_ms: u64,
    c: CachedView,
    d: CachedView,
)
    ensures
        ({
            let w = certificates::with_room(s, now_ms);
            let kept = s.filter(|x: CachedView| x.certificate.expires_at_ms > now_ms);
            &&& kept.len() < 256 ==> w == kept
            &&& kept.len() >= 256 ==> w.len() == kept.len() - 1
            &&& w.contains(c) ==> s.contains(c) && c.certificate.expires_at_ms > now_ms
            &&& s.contains(c) && c.certificate.expires_at_ms > now_ms && !w.contains(c)
                && w.contains(d) ==> c.certificate.expires_at_ms <= d.certificate.expires_at_ms
        }),
{
    let p = certificates::unexpired(now_ms);
    assert(p =~= |x: CachedView| x.certificate.expires_at_ms > now_ms);
    let kept = s.filter(p);
    seqs::filter_members(s, p);
    if kept.len() >= 256 {
        first_expires_first(kept);
        let k = certificates::first_to_expire(kept);
        let w = kept.remove(k);
        if w.contains(c) {
            let j = choose|j: int| 0 <= j < w.len() && w[j] == c;
            assert(kept[if j < k { j } else { j + 1 }] == c);
        }
        if w.contains(d) {
            let j = choose|j: int| 0 <= j < w.len() && w[j] == d;
            assert(kept[if j < k { j } else { j + 1 }] == d);
        }
        if kept.contains(c) && !w.contains(c) {
            let j = choose|j: int| 0 <= j < kept.len() && kept[j] == c;
            if j < k {
                assert(w[j] == c);
            } else if j > k {
                assert(w[j - 1] == c);
            }
        }
    }
}

proof fn first_expires_first(s: Seq<CachedView>)
    requires
        s.len() > 0,
    ensures
        0 <= certificates::first_to_expire(s) < s.len(),
        forall|j: int|
            0 <= j < s.len() ==> s[certificates::first_to_expire(s)].certificate.expires_at_ms <= (
            #[trigger] s[j]).certificate.expires_at_ms,
    decreases s.len(),
{
    if s.len() > 1 {
        let front = s.drop_last();
        first_expires_first(front);
        assert forall|j: int| 0 <= j < s.len() implies s[certificates::first_to_expire(
            s,
        )].certificate.expires_at_ms <= (#[trigger] s[j]).certificate.expires_at_ms by {
            if j < front.len() {
                assert(front[j] == s[j]);
            }
        }
    }
}

/// Keeping a certificate replaces the one under its key, or adds it.
pub proof fn kept_certificates_replace_their_own(s: Seq<CachedView>, c: CachedView, i: int)
    ensures
        ({
            let w = certificates::with_certificate(s, c);
            let first = 0 <= i < s.len() && s[i].key == c.key && forall|j: int|
                0 <= j < i ==> (#[trigger] s[j]).key != c.key;
            let none = forall|j: int| 0 <= j < s.len() ==> (#[trigger] s[j]).key != c.key;
            &&& first ==> w == s.update(i, c)
            &&& none ==> w == s.push(c)
        }),
{
    let p = certificates::kept_as(c.key);
    if 0 <= i < s.len() && s[i].key == c.key && forall|j: int|
        0 <= j < i ==> (#[trigger] s[j]).key != c.key {
        seqs::find_is(s, p, i);
    }
    if forall|j: int| 0 <= j < s.len() ==> (#[trigger] s[j]).key != c.key {
        seqs::find_none(s, p);
    }
}

/// A certificate is kept under relay, mailbox, device and key together.
pub proof fn certificates_are_kept_under_all_they_are_for(
    server_id: Seq<char>,
    uuid: Seq<char>,
    device_id: u32,
    key_b64: Seq<char>,
)
    ensures
        certificates::cache_key(server_id, uuid, device_id, key_b64) == server_id + "|"@ + uuid
            + "|"@ + text::decimal(device_id as nat) + "|"@ + key_b64,
{
}

// ---------------------------------------------------------------------------------------------
// Identity and files.
// ---------------------------------------------------------------------------------------------

/// The key for a passphrase is that of Argon2id over 64 MiB in three passes on one lane, where that
/// takes the passphrase and the salt.
pub proof fn passphrases_are_stretched(passphrase: Seq<char>, salt: Seq<u8>)
    ensures
        ({
            let r = identity::passphrase_key(passphrase, salt);
            let bytes = encode_utf8(passphrase);
            &&& r is Ok <==> bytes.len() <= 0xffff_ffff && 8 <= salt.len() <= 0xffff_ffff
            &&& r is Ok ==> r->Ok_0 == primitives::argon2id(bytes, salt, 65536, 3, 1)
        }),
{
}

/// An identity is stored with its private key sealed under the passphrase's key; salt, nonce,
/// public key and registration id stand beside it. It opens with the same passphrase to what the
/// cipher gives back.
pub proof fn identities_are_sealed_under_the_passphrase(
    passphrase: Seq<char>,
    registration_id: u16,
    salt: Seq<u8>,
    nonce: Seq<u8>,
    private_key: Seq<u8>,
    public_key: Seq<u8>,
)
    ensures
        ({
            let r = identity::encrypted_identity(
                passphrase,
                registration_id,
                salt,
                nonce,
                private_key,
                public_key,
            );
            let key = identity::passphrase_key(passphrase, salt);
            &&& r is Ok <==> key is Ok && private_key.len() <= 274_877_906_816
            &&& r matches Ok(b) ==> {
                &&& b.kdf_salt == salt && b.nonce == nonce
                &&& b.public_key == public_key && b.registration_id == registration_id
                &&& b.ciphertext == primitives::sealed(key->Ok_0, nonce, private_key)
                &&& identity::decrypted_identity(b, passphrase) == match primitives::decrypted(
                    key->Ok_0,
                    nonce,
                    b.ciphertext,
                ) {
                    Some(k) => Ok::<Seq<u8>, IdentityErrorView>(k),
                    None => Err::<Seq<u8>, IdentityErrorView>(IdentityErrorView::Decrypt),
                }
            }
        }),
{
}

/// A fingerprint is the public key in hex: two identities with the same fingerprint have the same
/// key.
pub proof fn fingerprints_tell_identities_apart(a: IdentityView, b: IdentityView)
    ensures
        identity::fingerprint_of(a).len() == 2 * a.public_key.len(),
        identity::fingerprint_of(a) == identity::fingerprint_of(b) <==> a.public_key
            == b.public_key,
{
    encoding::hex_is_lower(a.public_key);
    if identity::fingerprint_of(a) == identity::fingerprint_of(b) {
        encoding::hex_injective(a.public_key, b.public_key);
    }
}

/// The keys for the message store are there while the identity is unlocked: one derived for the
/// store alone, and the root key that former files were sealed under.
pub proof fn store_keys_need_an_unlocked_identity(session: Option<SessionStateView>)
    ensures
        ({
            let r = identity::store_keys_of(session);
            &&& r is Ok <==> session is Some
            &&& r is Ok ==> r->Ok_0 == (
                primitives::sha256(
                    encode_utf8("axeno-domain-separated-key-v1"@) + encode_utf8("message-store"@)
                        + session->0.key,
                ),
                session->0.key,
            )
        }),
{
}

/// Renaming changes the name alone.
pub proof fn renaming_changes_the_name_alone(s: SessionStateView, name: Seq<char>)
    ensures
        ({
            let w = identity::renamed(s, name);
            &&& w.secrets.display_name == name
            &&& w.key == s.key
            &&& w.secrets.identity_priv == s.secrets.identity_priv
            &&& w.secrets.spk_priv == s.secrets.spk_priv
            &&& w.secrets.previous_spks_secret == s.secrets.previous_spks_secret
            &&& w.secrets.opks_secret == s.secrets.opks_secret
        }),
{
}

/// What an error says.
pub proof fn errors_say_what_failed(why: Seq<char>)
    ensures
        identity::error_line(IdentityErrorView::Kdf(why)) == "KDF error: "@ + why,
        identity::error_line(IdentityErrorView::Signal(why)) == "Signal error: "@ + why,
        identity::error_line(IdentityErrorView::Encrypt) == "Encryption failed"@,
        identity::error_line(IdentityErrorView::Decrypt) == "Decryption failed"@,
{
}

/// The message store is written in the first version of its file, sealed under the key. A file of a
/// later version is refused, and any other opens exactly where the cipher accepts it.
pub proof fn stores_are_sealed_under_their_key(
    json: Seq<u8>,
    key: Seq<u8>,
    nonce: Seq<u8>,
    f: StoreFileView,
)
    ensures
        vault::sealed_store(json, key, nonce) == (StoreFileView {
            version: 1,
            nonce,
            ciphertext: primitives::sealed(key, nonce, json),
        }),
        vault::opened_store(f, key) is Ok <==> f.version <= 1 && primitives::decrypted(
            key,
            f.nonce,
            f.ciphertext,
        ) is Some,
        vault::opened_store(f, key) is Ok ==> Some(vault::opened_store(f, key)->Ok_0)
            == primitives::decrypted(key, f.nonce, f.ciphertext),
{
}

/// The store is the one that opens under the current key. Only where none does, the one under the
/// former key is taken, to be written anew.
pub proof fn former_stores_are_written_anew(
    current: Result<StoreView, Seq<char>>,
    legacy: Option<Result<StoreView, Seq<char>>>,
)
    ensures
        ({
            let r = vault::loaded(current, legacy);
            &&& current is Ok ==> r == Ok::<LoadedStoreView, Seq<char>>(
                LoadedStoreView { store: current->Ok_0, rewrite: false },
            )
            &&& current is Err && legacy is Some && legacy->0 is Ok ==> r == Ok::<
                LoadedStoreView,
                Seq<char>,
            >(LoadedStoreView { store: legacy->0->Ok_0, rewrite: true })
            &&& current is Err && (legacy is None || legacy->0 is Err) ==> r is Err
        }),
{
}

/// A file that cannot be read counts as an empty one, without an identity.
pub proof fn unreadable_files_count_as_empty(s: Result<UnifiedView, Seq<char>>)
    ensures
        vault::state_or_empty(s) == if s is Ok {
            s->Ok_0
        } else {
            UnifiedView { version: 1, identity: None, messages_store_json: None }
        },
        vault::identity_in(s) == if s is Ok {
            s->Ok_0.identity
        } else {
            None
        },
{
}

// ---------------------------------------------------------------------------------------------
// The memory of envelopes.
// ---------------------------------------------------------------------------------------------

/// A note on the envelope is there, and not older than the time.
pub open spec fn noted_within(s: Seq<EnvelopeNote>, id: u128, now_ms: u64, ttl_ms: u64) -> bool {
    exists|j: int|
        0 <= j < s.len() && (#[trigger] s[j]).id == id && now_ms <= s[j].at_ms + ttl_ms
}

proof fn pruning_a_small_memory(s: Seq<EnvelopeNote>, now_ms: u64, ttl_ms: u64, id: u128)
    requires
        s.len() <= 4096,
    ensures
        ({
            let w = ledger::pruned(s, now_ms, ttl_ms, 4096);
            &&& w == s.filter(ledger::recent(now_ms, ttl_ms))
            &&& forall|n: EnvelopeNote| #[trigger]
                w.contains(n) <==> s.contains(n) && now_ms <= n.at_ms + ttl_ms
            &&& noted_within(s, id, now_ms, ttl_ms) <==> seqs::find(w, ledger::note_of(id)) is Some
        }),
{
    let p = ledger::recent(now_ms, ttl_ms);
    let w = s.filter(p);
    seqs::filter_members(s, p);
    assert(ledger::pruned(s, now_ms, ttl_ms, 4096) == w);
    let q = ledger::note_of(id);
    seqs::find_spec(w, q);
    if noted_within(s, id, now_ms, ttl_ms) {
        let j = choose|j: int|
            0 <= j < s.len() && (#[trigger] s[j]).id == id && now_ms <= s[j].at_ms + ttl_ms;
        assert(s.contains(s[j]));
        assert(w.contains(s[j]));
        let k = choose|k: int| 0 <= k < w.len() && w[k] == s[j];
        assert(q(w[k]));
    }
    if let Some(k) = seqs::find(w, q) {
        assert(w.contains(w[k]));
        assert(s.contains(w[k]));
        let j = choose|j: int| 0 <= j < s.len() && s[j] == w[k];
        assert(s[j].id == id);
    }
}

/// An envelope that was handled within the last day is known. One that failed five times, the last
/// time within the hour, is given up. Any other is new.
pub proof fn envelopes_are_reviewed(l: LedgerView, id: u128, now_ms: u64)
    requires
        l.seen.len() <= 4096,
        l.failed.len() <= 4096,
        ledger::sound(l),
    ensures
        ({
            let (w, r) = ledger::reviewed(l, id, now_ms);
            let seen = noted_within(l.seen, id, now_ms, 86_400_000);
            let given_up = exists|j: int|
                0 <= j < l.failed.len() && (#[trigger] l.failed[j]).id == id && now_ms
                    <= l.failed[j].at_ms + 3_600_000 && l.failed[j].count >= 5;
            &&& r is AlreadySeen <==> seen
            &&& r is Poisoned <==> !seen && given_up
            &&& r is Fresh <==> !seen && !given_up
            &&& ledger::arrived(l, id, now_ms) == (
                w,
                if r is Fresh {
                    None
                } else {
                    Some(seq![id])
                },
            )
        }),
{
    pruning_a_small_memory(l.seen, now_ms, 86_400_000, id);
    failures_are_found(l, id, now_ms);
    let f = ledger::failures(ledger::still_failed(l, now_ms), id);
    if exists|j: int|
        0 <= j < l.failed.len() && (#[trigger] l.failed[j]).id == id && now_ms <= l.failed[j].at_ms
            + 3_600_000 && l.failed[j].count >= 5 {
        let j = choose|j: int|
            0 <= j < l.failed.len() && (#[trigger] l.failed[j]).id == id && now_ms
                <= l.failed[j].at_ms + 3_600_000 && l.failed[j].count >= 5;
        assert(f == l.failed[j].count);
    }
}

proof fn failures_are_found(l: LedgerView, id: u128, now_ms: u64)
    requires
        l.failed.len() <= 4096,
        ledger::sound(l),
    ensures
        ({
            let f = ledger::failures(ledger::still_failed(l, now_ms), id);
            &&& forall|j: int|
                0 <= j < l.failed.len() && (#[trigger] l.failed[j]).id == id && now_ms
                    <= l.failed[j].at_ms + 3_600_000 ==> f == l.failed[j].count
            &&& !noted_within(l.failed, id, now_ms, 3_600_000) ==> f == 0
            &&& f > 0 ==> exists|j: int|
                0 <= j < l.failed.len() && (#[trigger] l.failed[j]).id == id && now_ms
                    <= l.failed[j].at_ms + 3_600_000 && l.failed[j].count == f
        }),
{
    let w = ledger::still_failed(l, now_ms);
    let q = ledger::note_of(id);
    pruning_a_small_memory(l.failed, now_ms, 3_600_000, id);
    seqs::find_spec(w, q);
    if let Some(k) = seqs::find(w, q) {
        assert(w.contains(w[k]));
        assert(l.failed.contains(w[k]));
        let n = choose|n: int| 0 <= n < l.failed.len() && l.failed[n] == w[k];
        assert forall|j: int|
            0 <= j < l.failed.len() && (#[trigger] l.failed[j]).id == id && now_ms
                <= l.failed[j].at_ms + 3_600_000 implies w[k].count == l.failed[j].count by {
            if j != n {
                assert(l.failed[j].id != l.failed[n].id);
            }
        }
    } else {
        assert forall|j: int|
            0 <= j < l.failed.len() && (#[trigger] l.failed[j]).id == id implies !(now_ms
            <= l.failed[j].at_ms + 3_600_000) by {
            if now_ms <= l.failed[j].at_ms + 3_600_000 {
                assert(noted_within(l.failed, id, now_ms, 3_600_000));
            }
        }
    }
}

/// A failure counts one more than those before it within the hour, and an envelope is dropped at
/// the fifth.
pub proof fn failures_count_up_to_five(l: LedgerView, id: u128, why: Seq<char>, now_ms: u64, j: int)
    requires
        l.failed.len() <= 4096,
        ledger::sound(l),
    ensures
        ({
            let (w, r) = ledger::unreadable(l, id, why, now_ms);
            let before = 0 <= j < l.failed.len() && l.failed[j].id == id && now_ms
                <= l.failed[j].at_ms + 3_600_000;
            let dropped = Ok::<Seq<u128>, Seq<char>>(seq![id]);
            let kept = Err::<Seq<u128>, Seq<char>>(why);
            &&& before ==> r == if l.failed[j].count >= 4 {
                dropped
            } else {
                kept
            }
            &&& !noted_within(l.failed, id, now_ms, 3_600_000) ==> r == kept
            &&& before && l.failed[j].count < u32::MAX ==> w.failed.contains(
                EnvelopeNote { id, count: (l.failed[j].count + 1) as u32, at_ms: now_ms },
            )
            &&& !noted_within(l.failed, id, now_ms, 3_600_000) ==> w.failed.contains(
                EnvelopeNote { id, count: 1, at_ms: now_ms },
            )
            &&& w.seen == l.seen
        }),
{
    failures_are_found(l, id, now_ms);
    let kept = ledger::still_failed(l, now_ms);
    let count = ledger::one_more(ledger::failures(kept, id));
    let n = EnvelopeNote { id, count, at_ms: now_ms };
    let q = ledger::note_of(id);
    seqs::find_spec(kept, q);
    let after = ledger::noted(kept, n);
    match seqs::find(kept, q) {
        Some(k) => {
            assert(after[k] == n);
        },
        None => {
            assert(after[kept.len() as int] == n);
        },
    }
}

/// Handling an envelope notes it, once, with the time; its failures are forgotten when it is
/// forgiven. No other note changes.
pub proof fn handled_envelopes_are_noted(l: LedgerView, id: u128, now_ms: u64, other: EnvelopeNote)
    requires
        other.id != id,
    ensures
        ledger::handled_at(l, id, now_ms).seen.contains(EnvelopeNote { id, count: 0, at_ms: now_ms }),
        l.seen.contains(other) ==> ledger::handled_at(l, id, now_ms).seen.contains(other),
        ledger::handled_at(l, id, now_ms).failed == l.failed,
        ledger::forgiven(l, id).failed == l.failed.filter(|n: EnvelopeNote| n.id != id),
        ledger::forgiven(l, id).seen == l.seen,
{
    assert(ledger::note_not_of(id) =~= |n: EnvelopeNote| n.id != id);
    let n = EnvelopeNote { id, count: 0, at_ms: now_ms };
    let q = ledger::note_of(id);
    seqs::find_spec(l.seen, q);
    let after = ledger::noted(l.seen, n);
    match seqs::find(l.seen, q) {
        Some(k) => {
            assert(after[k] == n);
        },
        None => {
            assert(after[l.seen.len() as int] == n);
        },
    }
    if l.seen.contains(other) {
        let j = choose|j: int| 0 <= j < l.seen.len() && l.seen[j] == other;
        assert(after[j] == other);
    }
}

} // verus!
