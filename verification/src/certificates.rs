//! The sender certificates that are at hand.
use crate::events::CertificateView;
use crate::events::SenderCertificateResponse;
use crate::seqs;
use crate::seqs::Duplicate;
use crate::text;
use vstd::prelude::*;

verus! {

/// How many certificates are kept at hand.
pub const MAX_CERT_CACHE: usize = 256;

/// How long a certificate must still be good to be used.
pub const CERT_SPARE_MS: u64 = 3_600_000;

/// The certificate is for a route.
pub struct CachedCertificate {
    pub key: String,
    pub certificate: SenderCertificateResponse,
}

/// The certificate is for a route.
#[verifier::ext_equal]
pub struct CachedView {
    pub key: Seq<char>,
    pub certificate: CertificateView,
}

impl View for CachedCertificate {
    type V = CachedView;

    open spec fn view(&self) -> CachedView {
        CachedView { key: self.key@, certificate: self.certificate@ }
    }
}

impl Duplicate for CachedCertificate {
    fn duplicate(&self) -> (r: Self) {
        CachedCertificate {
            key: self.key.clone(),
            certificate: self.certificate.duplicate(),
        }
    }
}

/// The name under which a certificate is kept: relay, mailbox, device and certificate key.
pub open spec fn cache_key(
    server_id: Seq<char>,
    sender_uuid: Seq<char>,
    device_id: u32,
    key_b64: Seq<char>,
) -> Seq<char> {
    server_id + "|"@ + sender_uuid + "|"@ + text::decimal(device_id as nat) + "|"@ + key_b64
}

/// The name under which a certificate is kept.
pub fn cache_name(server_id: &str, sender_uuid: &str, device_id: u32, key_b64: &str) -> (r: String)
    ensures
        r@ == cache_key(server_id@, sender_uuid@, device_id, key_b64@),
{
    let a = text::concat3(server_id, "|", sender_uuid);
    let d = text::decimal_text(device_id as u64);
    let b = text::concat3(a.as_str(), "|", d.as_str());
    text::concat3(b.as_str(), "|", key_b64)
}

/// The certificate is kept under the name.
pub open spec fn kept_as(key: Seq<char>) -> spec_fn(CachedView) -> bool {
    |c: CachedView| c.key == key
}

/// The certificate has not expired.
pub open spec fn unexpired(now_ms: u64) -> spec_fn(CachedView) -> bool {
    |c: CachedView| c.certificate.expires_at_ms > now_ms
}

/// A time, and an hour more as far as times go.
pub open spec fn with_spare(now_ms: u64) -> u64 {
    if now_ms + CERT_SPARE_MS > u64::MAX {
        u64::MAX
    } else {
        (now_ms + CERT_SPARE_MS) as u64
    }
}

/// Where the certificate stands that expires first.
pub open spec fn first_to_expire(s: Seq<CachedView>) -> int
    decreases s.len(),
{
    if s.len() <= 1 {
        0
    } else {
        let k = first_to_expire(s.drop_last());
        if s.last().certificate.expires_at_ms < s[k].certificate.expires_at_ms {
            s.len() - 1
        } else {
            k
        }
    }
}

/// The certificate under a name that can be used.
pub open spec fn usable(s: Seq<CachedView>, key: Seq<char>, now_ms: u64) -> Option<
    CertificateView,
> {
    match seqs::first_where(s, kept_as(key)) {
        Some(c) if c.certificate.expires_at_ms > with_spare(now_ms) => Some(c.certificate),
        _ => None,
    }
}

/// The certificates with room for one more: expired ones are gone, and the one that expires
/// first where there are too many.
pub open spec fn with_room(s: Seq<CachedView>, now_ms: u64) -> Seq<CachedView> {
    let kept = s.filter(unexpired(now_ms));
    if kept.len() >= MAX_CERT_CACHE {
        kept.remove(first_to_expire(kept))
    } else {
        kept
    }
}

/// The certificates with one in place of that under the same name, or added.
pub open spec fn with_certificate(s: Seq<CachedView>, c: CachedView) -> Seq<CachedView> {
    match seqs::find(s, kept_as(c.key)) {
        Some(i) => s.update(i, c),
        None => s.push(c),
    }
}

/// The sender certificates that are at hand.
pub struct CertificateCache {
    pub entries: Vec<CachedCertificate>,
}

impl View for CertificateCache {
    type V = Seq<CachedView>;

    open spec fn view(&self) -> Seq<CachedView> {
        seqs::views(self.entries@)
    }
}

fn find_entry(entries: &Vec<CachedCertificate>, key: &str) -> (r: Option<usize>)
    ensures
        match r {
            Some(i) => i < entries@.len() && seqs::find(seqs::views(entries@), kept_as(key@))
                == Some(i as int),
            None => seqs::find(seqs::views(entries@), kept_as(key@)) == None::<int>,
        },
{
    let ghost all = seqs::views(entries@);
    let mut i: usize = 0;
    while i < entries.len()
        invariant
            i <= entries@.len(),
            all == seqs::views(entries@),
            forall|j: int| 0 <= j < i ==> !kept_as(key@)(#[trigger] all[j]),
        decreases entries@.len() - i,
    {
        if text::same_text(entries[i].key.as_str(), key) {
            proof {
                seqs::find_is(all, kept_as(key@), i as int);
            }
            return Some(i);
        }
        i = i + 1;
    }
    proof {
        seqs::find_none(all, kept_as(key@));
    }
    None
}

fn find_first_to_expire(entries: &Vec<CachedCertificate>) -> (r: usize)
    requires
        entries@.len() > 0,
    ensures
        r == first_to_expire(seqs::views(entries@)),
        r < entries@.len(),
{
    let ghost all = seqs::views(entries@);
    let mut k: usize = 0;
    let mut i: usize = 1;
    while i < entries.len()
        invariant
            1 <= i <= entries@.len(),
            k < i,
            all == seqs::views(entries@),
            k == first_to_expire(all.take(i as int)),
        decreases entries@.len() - i,
    {
        proof {
            seqs::take_step(all, i as int);
            assert(all.take(i as int)[k as int] == all[k as int]);
            assert(all.take(i + 1)[k as int] == all[k as int]);
        }
        if entries[i].certificate.expires_at_ms < entries[k].certificate.expires_at_ms {
            k = i;
        }
        i = i + 1;
    }
    proof {
        assert(all.take(i as int) =~= all);
    }
    k
}

fn drop_expired(entries: &mut Vec<CachedCertificate>, now_ms: u64)
    ensures
        seqs::views(final(entries)@) == seqs::views(old(entries)@).filter(unexpired(now_ms)),
{
    let ghost all = seqs::views(entries@);
    let n: usize = entries.len();
    let mut out: Vec<CachedCertificate> = Vec::new();
    let mut i: usize = 0;
    proof {
        seqs::filter_empty(all.take(0), unexpired(now_ms));
        assert(seqs::views(out@) =~= Seq::<CachedView>::empty());
    }
    while i < n
        invariant
            i <= n,
            n == entries@.len(),
            all == seqs::views(entries@),
            seqs::views(out@) == all.take(i as int).filter(unexpired(now_ms)),
        decreases n - i,
    {
        proof {
            seqs::filter_take_step(all, i as int, unexpired(now_ms));
        }
        if entries[i].certificate.expires_at_ms > now_ms {
            let c = entries[i].duplicate();
            proof {
                seqs::views_push(out@, c);
            }
            out.push(c);
        }
        i = i + 1;
    }
    proof {
        assert(all.take(i as int) =~= all);
    }
    *entries = out;
}

impl CertificateCache {
    /// No certificate is at hand.
    pub fn new() -> (r: Self)
        ensures
            r@ == Seq::<CachedView>::empty(),
    {
        let r = CertificateCache { entries: Vec::new() };
        proof {
            assert(r@ =~= Seq::<CachedView>::empty());
        }
        r
    }

    /// The certificate under a name, where it is good for a while yet.
    pub fn lookup(&self, key: &str, now_ms: u64) -> (r: Option<SenderCertificateResponse>)
        ensures
            seqs::opt(r) == usable(self@, key@, now_ms),
    {
        match find_entry(&self.entries, key) {
            Some(i) => {
                if self.entries[i].certificate.expires_at_ms > now_ms.saturating_add(
                    CERT_SPARE_MS,
                ) {
                    Some(self.entries[i].certificate.duplicate())
                } else {
                    None
                }
            },
            None => None,
        }
    }

    /// Keeps a certificate under a name.
    pub fn keep(&mut self, key: String, certificate: SenderCertificateResponse, now_ms: u64)
        ensures
            final(self)@ == with_certificate(
                with_room(old(self)@, now_ms),
                (CachedView { key: key@, certificate: certificate@ }),
            ),
    {
        drop_expired(&mut self.entries, now_ms);
        if self.entries.len() >= MAX_CERT_CACHE {
            let k = find_first_to_expire(&self.entries);
            proof {
                seqs::views_remove(self.entries@, k as int);
            }
            self.entries.remove(k);
        }
        let found = find_entry(&self.entries, key.as_str());
        let c = CachedCertificate { key, certificate };
        match found {
            Some(i) => {
                proof {
                    seqs::views_update(self.entries@, i as int, c);
                }
                self.entries.set(i, c);
            },
            None => {
                proof {
                    seqs::views_push(self.entries@, c);
                }
                self.entries.push(c);
            },
        }
    }
}

proof fn first_to_expire_is_there(s: Seq<CachedView>)
    requires
        s.len() > 0,
    ensures
        0 <= first_to_expire(s) < s.len(),
    decreases s.len(),
{
    if s.len() > 1 {
        first_to_expire_is_there(s.drop_last());
    }
}

/// The number of certificates at hand stays bounded.
pub proof fn cache_stays_bounded(s: Seq<CachedView>, c: CachedView, now_ms: u64)
    requires
        s.len() <= MAX_CERT_CACHE,
    ensures
        with_certificate(with_room(s, now_ms), c).len() <= MAX_CERT_CACHE,
{
    seqs::filter_members(s, unexpired(now_ms));
    let kept = s.filter(unexpired(now_ms));
    if kept.len() >= MAX_CERT_CACHE {
        first_to_expire_is_there(kept);
    }
}

/// A certificate that was kept is found again as long as it is good for a while.
pub proof fn kept_certificates_are_found(s: Seq<CachedView>, c: CachedView, then_ms: u64, now_ms: u64)
    requires
        c.certificate.expires_at_ms > with_spare(now_ms),
    ensures
        usable(with_certificate(with_room(s, then_ms), c), c.key, now_ms) == Some(c.certificate),
{
    let room = with_room(s, then_ms);
    let after = with_certificate(room, c);
    seqs::find_spec(room, kept_as(c.key));
    match seqs::find(room, kept_as(c.key)) {
        Some(i) => {
            assert forall|j: int| 0 <= j < i implies !kept_as(c.key)(#[trigger] after[j]) by {
                assert(after[j] == room[j]);
            }
            seqs::find_is(after, kept_as(c.key), i);
        },
        None => {
            assert forall|j: int| 0 <= j < after.len() - 1 implies !kept_as(c.key)(
                #[trigger] after[j],
            ) by {
                assert(after[j] == room[j]);
            }
            seqs::find_is(after, kept_as(c.key), after.len() - 1);
        },
    }
}

} // verus!
