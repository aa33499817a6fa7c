//! The state of a relay and its invariant.
use crate::frames::EnvelopeView;
use crate::frames::StoredEnvelope;
use crate::relay::mailbox::BundleView;
use crate::relay::mailbox::EnvelopeQueue;
use crate::relay::mailbox::HostedBundle;
use crate::relay::mailbox::MailboxAuth;
use crate::relay::mailbox::MailboxAuthView;
use crate::relay::shelves;
use crate::seqs;
use crate::seqs::Duplicate;
use crate::strmap;
use crate::text;
use dashmap::DashMap;
use std::collections::VecDeque;
use vstd::prelude::*;

verus! {

/// How many envelopes wait for one mailbox at most.
pub const MAX_QUEUE_PER_RECIPIENT: usize = 200;

/// How many bytes a frame has at most.
pub const MAX_FRAME_BYTES: usize = 524_288;

/// How many bytes of ciphertext wait in all queues together at most.
pub const MAX_TOTAL_QUEUED_BYTES: usize = 67_108_864;

/// How many mailboxes a relay has at most.
pub const MAX_MAILBOXES: usize = 50_000;

/// How many invite bundles a relay hosts at most.
pub const MAX_BUNDLES: usize = 50_000;

/// How many bytes an invite bundle has at most.
pub const MAX_BUNDLE_BYTES: usize = 16_384;

/// How long a relay hosts an invite bundle at most.
pub const MAX_BUNDLE_TTL_MS: u64 = 172_800_000;

/// How long a relay hosts an invite bundle at least.
pub const MIN_BUNDLE_TTL_MS: u64 = 60_000;

/// What a relay knows.
#[verifier::ext_equal]
pub struct RelayView {
    pub mailboxes: Map<Seq<char>, MailboxAuthView>,
    pub queues: Map<Seq<char>, Seq<EnvelopeView>>,
    pub online: Map<Seq<char>, u64>,
    pub bundles: Map<Seq<char>, BundleView>,
    pub mailbox_count: nat,
    pub queued_bytes: nat,
    pub trust_root: Seq<char>,
    pub dirty: bool,
}

/// A relay.
pub struct Relay {
    pub(crate) mailboxes: DashMap<String, MailboxAuth>,
    pub(crate) queues: DashMap<String, EnvelopeQueue>,
    pub(crate) online: DashMap<String, u64>,
    pub(crate) bundles: DashMap<String, HostedBundle>,
    pub(crate) mailbox_count: usize,
    pub(crate) total_queued_bytes: usize,
    pub(crate) trust_root_b64: String,
    pub(crate) dirty: bool,
}

impl View for Relay {
    type V = RelayView;

    closed spec fn view(&self) -> RelayView {
        RelayView {
            mailboxes: shelves::mailbox_shelf(self.mailboxes),
            queues: shelves::queue_shelf(self.queues),
            online: shelves::socket_shelf(self.online),
            bundles: shelves::bundle_shelf(self.bundles),
            mailbox_count: self.mailbox_count as nat,
            queued_bytes: self.total_queued_bytes as nat,
            trust_root: self.trust_root_b64@,
            dirty: self.dirty,
        }
    }
}

/// The bytes of ciphertext in a queue.
pub open spec fn queue_bytes(q: Seq<EnvelopeView>) -> nat
    decreases q.len(),
{
    if q.len() == 0 {
        0
    } else {
        queue_bytes(q.drop_last()) + text::byte_len(q.last().ciphertext)
    }
}

/// The bytes of ciphertext in all queues.
pub open spec fn total_bytes(m: Map<Seq<char>, Seq<EnvelopeView>>) -> nat
    decreases m.dom().len(),
    when m.dom().finite()
{
    if m.dom().len() == 0 {
        0
    } else {
        let k = m.dom().choose();
        queue_bytes(m[k]) + total_bytes(m.remove(k))
    }
}

/// How many bytes more than it holds in its queues the relay counts.
pub open spec fn surplus(v: RelayView) -> int {
    v.queued_bytes - total_bytes(v.queues)
}

/// The relay counts its mailboxes exactly, and every byte that it holds in its queues.
pub open spec fn relay_inv(v: RelayView) -> bool {
    &&& v.mailboxes.dom().finite()
    &&& v.mailbox_count == v.mailboxes.dom().len()
    &&& v.queues.dom().finite()
    &&& v.queued_bytes >= total_bytes(v.queues)
    &&& v.bundles.dom().finite()
}

/// Every queued envelope stands in the queue of the mailbox that it is addressed to, and every
/// bundle under its own handle.
pub open spec fn well_addressed(v: RelayView) -> bool {
    &&& forall|k: Seq<char>, i: int|
        v.queues.contains_key(k) && 0 <= i < v.queues[k].len() ==> (#[trigger] v.queues[k][i]).to
            == k
    &&& forall|k: Seq<char>| #[trigger] v.bundles.contains_key(k) ==> v.bundles[k].id == k
}

/// The limits that a relay keeps.
pub open spec fn relay_bounded(v: RelayView) -> bool {
    &&& v.mailbox_count <= MAX_MAILBOXES
    &&& v.queued_bytes <= MAX_TOTAL_QUEUED_BYTES
    &&& v.bundles.dom().len() <= MAX_BUNDLES
    &&& forall|k: Seq<char>|
        #[trigger] v.queues.contains_key(k) ==> v.queues[k].len() <= MAX_QUEUE_PER_RECIPIENT
}

/// The queue of a mailbox; none is an empty one.
pub open spec fn queue_of(v: RelayView, rid: Seq<char>) -> Seq<EnvelopeView> {
    if v.queues.contains_key(rid) {
        v.queues[rid]
    } else {
        Seq::empty()
    }
}

/// The value under a key.
pub open spec fn looked_up<W>(m: Map<Seq<char>, W>, k: Seq<char>) -> Option<W> {
    if m.contains_key(k) {
        Some(m[k])
    } else {
        None
    }
}

/// The relay without a mailbox, its queue and its live socket.
pub open spec fn forgotten(v: RelayView, rid: Seq<char>) -> RelayView {
    RelayView {
        mailboxes: v.mailboxes.remove(rid),
        mailbox_count: if v.mailboxes.contains_key(rid) {
            (v.mailbox_count - 1) as nat
        } else {
            v.mailbox_count
        },
        queues: v.queues.remove(rid),
        queued_bytes: (v.queued_bytes - queue_bytes(queue_of(v, rid))) as nat,
        online: v.online.remove(rid),
        ..v
    }
}

/// The end of a queue, short enough for one envelope more.
pub open spec fn room_made(q: Seq<EnvelopeView>) -> Seq<EnvelopeView> {
    if q.len() < MAX_QUEUE_PER_RECIPIENT {
        q
    } else {
        q.skip(q.len() - (MAX_QUEUE_PER_RECIPIENT - 1))
    }
}

/// The relay with one envelope more at the end of a queue.
pub open spec fn enqueued(v: RelayView, to: Seq<char>, e: EnvelopeView) -> RelayView {
    let q = queue_of(v, to);
    let after = room_made(q).push(e);
    RelayView {
        queues: v.queues.insert(to, after),
        queued_bytes: (v.queued_bytes - queue_bytes(q) + queue_bytes(after)) as nat,
        ..v
    }
}

/// The envelope is not among the acknowledged ones.
pub open spec fn not_acked(ids: Seq<u128>) -> spec_fn(EnvelopeView) -> bool {
    |e: EnvelopeView| !ids.contains(e.id)
}

/// The relay without the acknowledged envelopes of a mailbox.
pub open spec fn acked(v: RelayView, rid: Seq<char>, ids: Seq<u128>) -> RelayView {
    if v.queues.contains_key(rid) {
        let q = v.queues[rid];
        let after = q.filter(not_acked(ids));
        RelayView {
            queues: v.queues.insert(rid, after),
            queued_bytes: (v.queued_bytes - queue_bytes(q) + queue_bytes(after)) as nat,
            ..v
        }
    } else {
        v
    }
}

/// The bundles whose time has not come.
pub open spec fn live_bundles(m: Map<Seq<char>, BundleView>, now_ms: u64) -> Map<
    Seq<char>,
    BundleView,
> {
    m.restrict(Set::new(|k: Seq<char>| m.contains_key(k) && m[k].expires_at_ms > now_ms))
}

/// The time of some bundle has come.
pub open spec fn some_expired(m: Map<Seq<char>, BundleView>, now_ms: u64) -> bool {
    exists|k: Seq<char>| #[trigger] m.contains_key(k) && m[k].expires_at_ms <= now_ms
}

/// The relay without the bundles whose time has come.
pub open spec fn pruned(v: RelayView, now_ms: u64) -> RelayView {
    RelayView {
        bundles: live_bundles(v.bundles, now_ms),
        dirty: v.dirty || some_expired(v.bundles, now_ms),
        ..v
    }
}

/// The relay after an envelope was offered to the live socket of a mailbox, given whether the socket
/// took it.
pub open spec fn offer_settled(v: RelayView, to: Seq<char>, delivered: bool) -> RelayView {
    RelayView {
        online: if delivered {
            v.online
        } else {
            v.online.remove(to)
        },
        ..v
    }
}

/// A relay without mailboxes, queues, sockets and bundles.
pub open spec fn empty_relay(trust_root: Seq<char>) -> RelayView {
    RelayView {
        mailboxes: Map::empty(),
        queues: Map::empty(),
        online: Map::empty(),
        bundles: Map::empty(),
        mailbox_count: 0,
        queued_bytes: 0,
        trust_root,
        dirty: false,
    }
}

// ---------------------------------------------------------------------------------------------
// Sums.
// ---------------------------------------------------------------------------------------------

/// One queue's part of the sum.
pub proof fn total_split(m: Map<Seq<char>, Seq<EnvelopeView>>, k: Seq<char>)
    requires
        m.dom().finite(),
        m.contains_key(k),
    ensures
        total_bytes(m) == queue_bytes(m[k]) + total_bytes(m.remove(k)),
    decreases m.dom().len(),
{
    let c = m.dom().choose();
    assert(m.dom().len() != 0);
    assert(m.dom().contains(c));
    if c != k {
        total_split(m.remove(c), k);
        total_split(m.remove(k), c);
        assert(m.remove(c).remove(k) =~= m.remove(k).remove(c));
    }
}

/// The sum after one queue was written.
pub proof fn total_insert(
    m: Map<Seq<char>, Seq<EnvelopeView>>,
    k: Seq<char>,
    q: Seq<EnvelopeView>,
)
    requires
        m.dom().finite(),
    ensures
        m.insert(k, q).dom().finite(),
        total_bytes(m.insert(k, q)) == total_bytes(m.remove(k)) + queue_bytes(q),
        total_bytes(m) == total_bytes(m.remove(k)) + if m.contains_key(k) {
            queue_bytes(m[k])
        } else {
            0
        },
{
    total_split(m.insert(k, q), k);
    assert(m.insert(k, q).remove(k) =~= m.remove(k));
    if m.contains_key(k) {
        total_split(m, k);
    } else {
        assert(m.remove(k) =~= m);
    }
}

/// The bytes of two queues one behind the other.
pub proof fn queue_bytes_concat(a: Seq<EnvelopeView>, b: Seq<EnvelopeView>)
    ensures
        queue_bytes(a + b) == queue_bytes(a) + queue_bytes(b),
    decreases b.len(),
{
    if b.len() == 0 {
        assert(a + b =~= a);
    } else {
        queue_bytes_concat(a, b.drop_last());
        assert((a + b).drop_last() =~= a + b.drop_last());
    }
}

/// The bytes of a queue and of one envelope more.
pub proof fn queue_bytes_push(a: Seq<EnvelopeView>, e: EnvelopeView)
    ensures
        queue_bytes(a.push(e)) == queue_bytes(a) + text::byte_len(e.ciphertext),
{
    assert(a.push(e).drop_last() =~= a);
}

/// Filtering a queue never adds bytes.
pub proof fn queue_bytes_filter(q: Seq<EnvelopeView>, p: spec_fn(EnvelopeView) -> bool)
    ensures
        queue_bytes(q.filter(p)) <= queue_bytes(q),
    decreases q.len(),
{
    if q.len() == 0 {
        seqs::filter_empty(q, p);
    } else {
        let t = q.drop_last();
        queue_bytes_filter(t, p);
        assert(q =~= t.push(q.last()));
        seqs::filter_push(t, q.last(), p);
        queue_bytes_push(t.filter(p), q.last());
    }
}

/// The bytes of ciphertext in a queue.
pub fn count_bytes(q: &EnvelopeQueue) -> (r: usize)
    requires
        queue_bytes(q@) <= usize::MAX,
    ensures
        r == queue_bytes(q@),
{
    let mut sum: usize = 0;
    let mut i: usize = 0;
    let ghost s = q@;
    while i < q.items.len()
        invariant
            i <= q.items@.len(),
            s == seqs::views(q.items@),
            queue_bytes(s) <= usize::MAX,
            sum == queue_bytes(s.take(i as int)),
        decreases q.items@.len() - i,
    {
        let n: usize = text::len_in_bytes(q.items[i].ciphertext.as_str());
        proof {
            seqs::take_step(s, i as int);
            queue_bytes_push(s.take(i as int), s[i as int]);
            assert(s =~= s.take(i + 1) + s.skip(i + 1));
            queue_bytes_concat(s.take(i + 1), s.skip(i + 1));
        }
        sum = sum + n;
        i = i + 1;
    }
    proof {
        assert(s.take(i as int) =~= s);
    }
    sum
}

/// Whether an identifier is among the given ones.
pub fn contains_id(ids: &Vec<u128>, id: u128) -> (r: bool)
    ensures
        r == ids@.contains(id),
{
    let mut i: usize = 0;
    while i < ids.len()
        invariant
            i <= ids@.len(),
            forall|j: int| 0 <= j < i ==> ids@[j] != id,
        decreases ids@.len() - i,
    {
        if ids[i] == id {
            return true;
        }
        i = i + 1;
    }
    false
}

impl Relay {
    /// A relay without mailboxes, queues, sockets and bundles.
    pub fn new(trust_root_b64: String) -> (r: Self)
        ensures
            r@ == empty_relay(trust_root_b64@),
            relay_inv(r@),
            surplus(r@) == 0,
            relay_bounded(r@),
    {
        let r = Relay {
            mailboxes: shelves::new_mailbox_shelf(),
            queues: shelves::new_queue_shelf(),
            online: shelves::new_socket_shelf(),
            bundles: shelves::new_bundle_shelf(),
            mailbox_count: 0,
            total_queued_bytes: 0,
            trust_root_b64,
            dirty: false,
        };
        proof {
            assert(r@.mailboxes.dom() =~= Set::<Seq<char>>::empty());
            assert(r@.queues.dom() =~= Set::<Seq<char>>::empty());
            assert(r@.bundles.dom() =~= Set::<Seq<char>>::empty());
        }
        r
    }

    /// Tells whether anything changed since this was last asked, and forgets it.
    pub fn take_dirty(&mut self) -> (r: bool)
        ensures
            r == old(self)@.dirty,
            final(self)@ == (RelayView { dirty: false, ..old(self)@ }),
    {
        let was = self.dirty;
        self.dirty = false;
        was
    }

    /// Notes that something changed that belongs on disk.
    pub(crate) fn mark_dirty(&mut self)
        ensures
            final(self)@ == (RelayView { dirty: true, ..old(self)@ }),
    {
        self.dirty = true;
    }

    /// The tokens of a mailbox.
    pub fn find_mailbox(&self, rid: &str) -> (r: Option<MailboxAuth>)
        ensures
            seqs::opt(r) == looked_up(self@.mailboxes, rid@),
    {
        shelves::shelf_get(&self.mailboxes, rid)
    }

    /// The number of mailboxes.
    pub fn mailbox_total(&self) -> (r: usize)
        ensures
            r == self@.mailbox_count,
    {
        self.mailbox_count
    }

    /// Writes the tokens of a mailbox that there is.
    pub(crate) fn update_mailbox(&mut self, rid: &str, auth: MailboxAuth)
        ensures
            final(self)@ == (RelayView {
                mailboxes: old(self)@.mailboxes.insert(rid@, auth@),
                ..old(self)@
            }),
    {
        shelves::shelf_insert(&mut self.mailboxes, rid.to_string(), auth);
    }

    /// Writes the tokens of a new mailbox and counts it.
    pub(crate) fn add_mailbox(&mut self, rid: &str, auth: MailboxAuth)
        requires
            old(self)@.mailbox_count < MAX_MAILBOXES,
        ensures
            final(self)@ == (RelayView {
                mailboxes: old(self)@.mailboxes.insert(rid@, auth@),
                mailbox_count: old(self)@.mailbox_count + 1,
                ..old(self)@
            }),
    {
        shelves::shelf_insert(&mut self.mailboxes, rid.to_string(), auth);
        self.mailbox_count = self.mailbox_count + 1;
    }

    /// Forgets a mailbox, its queue and its live socket.
    pub(crate) fn forget(&mut self, rid: &str)
        requires
            relay_inv(old(self)@),
        ensures
            final(self)@ == forgotten(old(self)@, rid@),
    {
        let ghost v = self@;
        let gone = shelves::shelf_remove(&mut self.mailboxes, rid);
        if gone.is_some() {
            proof {
                assert(v.mailboxes.dom().contains(rid@));
                assert(v.mailboxes.dom().len() > 0);
            }
            self.mailbox_count = self.mailbox_count - 1;
        }
        let queue = shelves::shelf_remove(&mut self.queues, rid);
        if let Some(q) = queue {
            proof {
                total_split(v.queues, rid@);
            }
            let freed: usize = count_bytes(&q);
            self.total_queued_bytes = self.total_queued_bytes - freed;
        }
        let _ = shelves::shelf_remove(&mut self.online, rid);
    }

    /// A copy of the queue of a mailbox.
    pub fn backlog(&self, rid: &str) -> (r: Vec<StoredEnvelope>)
        ensures
            seqs::views(r@) == queue_of(self@, rid@),
    {
        match shelves::shelf_get(&self.queues, rid) {
            Some(q) => {
                let ghost all = q@;
                let mut out: Vec<StoredEnvelope> = Vec::new();
                let mut i: usize = 0;
                proof {
                    assert(seqs::views(out@) =~= all.take(0));
                }
                while i < q.items.len()
                    invariant
                        i <= q.items@.len(),
                        all == seqs::views(q.items@),
                        seqs::views(out@) == all.take(i as int),
                    decreases q.items@.len() - i,
                {
                    let e = q.items[i].duplicate();
                    proof {
                        seqs::views_push(out@, e);
                        seqs::take_step(all, i as int);
                    }
                    out.push(e);
                    i = i + 1;
                }
                proof {
                    assert(all.take(i as int) =~= all);
                }
                out
            },
            None => {
                let none: Vec<StoredEnvelope> = Vec::new();
                proof {
                    assert(seqs::views(none@) =~= Seq::<EnvelopeView>::empty());
                }
                none
            },
        }
    }

    /// The bytes of ciphertext in all queues.
    pub fn queued_total(&self) -> (r: usize)
        ensures
            r == self@.queued_bytes,
    {
        self.total_queued_bytes
    }

    /// Puts an envelope at the end of a queue; where there is no room, the oldest give way.
    pub(crate) fn enqueue(&mut self, to: &str, envelope: StoredEnvelope)
        requires
            relay_inv(old(self)@),
            old(self)@.queued_bytes + text::byte_len(envelope@.ciphertext) <= usize::MAX,
        ensures
            final(self)@ == enqueued(old(self)@, to@, envelope@),
    {
        let ghost v = self@;
        let ghost q0 = queue_of(v, to@);
        let taken = shelves::shelf_remove(&mut self.queues, to);
        let mut q = match taken {
            Some(q) => q,
            None => EnvelopeQueue { items: VecDeque::new() },
        };
        proof {
            assert(q@ =~= q0);
            if v.queues.contains_key(to@) {
                total_split(v.queues, to@);
            }
        }
        let before: usize = count_bytes(&q);
        proof {
            assert(q0.skip(0) =~= q0);
        }
        while q.items.len() >= MAX_QUEUE_PER_RECIPIENT
            invariant
                q@.len() <= q0.len(),
                q0.len() <= MAX_QUEUE_PER_RECIPIENT - 1 ==> q@ == q0,
                q0.len() >= MAX_QUEUE_PER_RECIPIENT ==> q@.len() >= MAX_QUEUE_PER_RECIPIENT - 1,
                q@ == q0.skip(q0.len() - q@.len()),
            decreases q@.len(),
        {
            let ghost m = q@;
            proof {
                seqs::views_remove(q.items@, 0);
            }
            let _ = q.items.pop_front();
            proof {
                assert(q@ =~= m.remove(0));
                assert(q@ =~= q0.skip(q0.len() - q@.len()));
            }
        }
        proof {
            assert(q@ == room_made(q0));
            let cut = q0.len() - q@.len();
            assert(q0 =~= q0.take(cut) + q0.skip(cut));
            queue_bytes_concat(q0.take(cut), q0.skip(cut));
        }
        let kept: usize = count_bytes(&q);
        let added: usize = text::len_in_bytes(envelope.ciphertext.as_str());
        proof {
            queue_bytes_push(q@, envelope@);
            seqs::views_push(q.items@, envelope);
        }
        self.total_queued_bytes = self.total_queued_bytes - (before - kept) + added;
        q.items.push_back(envelope);
        shelves::shelf_insert(&mut self.queues, to.to_string(), q);
        proof {
            assert(self@.queues =~= enqueued(v, to@, envelope@).queues);
        }
    }

    /// Takes the acknowledged envelopes out of a queue; tells how many there were.
    pub(crate) fn remove_acked(&mut self, rid: &str, ids: &Vec<u128>) -> (r: usize)
        requires
            relay_inv(old(self)@),
        ensures
            r == queue_of(old(self)@, rid@).len() - queue_of(
                old(self)@,
                rid@,
            ).filter(not_acked(ids@)).len(),
            final(self)@ == acked(old(self)@, rid@, ids@),
    {
        let ghost v = self@;
        let ghost q0 = queue_of(v, rid@);
        let ghost p = not_acked(ids@);
        let taken = shelves::shelf_remove(&mut self.queues, rid);
        match taken {
            None => {
                proof {
                    seqs::filter_empty(q0, p);
                    assert(v.queues.remove(rid@) =~= v.queues);
                }
                0
            },
            Some(q) => {
                proof {
                    assert(q@ == q0);
                    total_split(v.queues, rid@);
                    queue_bytes_filter(q0, p);
                    seqs::filter_members(q0, p);
                    seqs::filter_empty(q0.take(0), p);
                }
                let before: usize = count_bytes(&q);
                let n: usize = q.items.len();
                let mut kept = EnvelopeQueue { items: VecDeque::new() };
                let mut i: usize = 0;
                proof {
                    assert(kept@ =~= q0.take(0).filter(p));
                }
                while i < n
                    invariant
                        i <= n,
                        n == q.items@.len(),
                        q@ == q0,
                        p == not_acked(ids@),
                        kept@ == q0.take(i as int).filter(p),
                    decreases n - i,
                {
                    let e = q.items[i].duplicate();
                    let hit = contains_id(ids, e.id);
                    proof {
                        seqs::filter_take_step(q0, i as int, p);
                        seqs::views_push(kept.items@, e);
                    }
                    if !hit {
                        kept.items.push_back(e);
                    }
                    i = i + 1;
                }
                proof {
                    assert(q0.take(i as int) =~= q0);
                }
                let after: usize = count_bytes(&kept);
                let left: usize = kept.items.len();
                self.total_queued_bytes = self.total_queued_bytes - (before - after);
                shelves::shelf_insert(&mut self.queues, rid.to_string(), kept);
                proof {
                    assert(self@.queues =~= acked(v, rid@, ids@).queues);
                }
                n - left
            },
        }
    }

    /// The live socket of a mailbox.
    pub fn live_socket(&self, rid: &str) -> (r: Option<u64>)
        ensures
            r == looked_up(self@.online, rid@),
    {
        shelves::shelf_get(&self.online, rid)
    }

    /// Makes a socket the live one of a mailbox.
    pub(crate) fn set_live(&mut self, rid: &str, socket: u64)
        ensures
            final(self)@ == (RelayView {
                online: old(self)@.online.insert(rid@, socket),
                ..old(self)@
            }),
    {
        shelves::shelf_insert(&mut self.online, rid.to_string(), socket);
    }

    /// Forgets the live socket of a mailbox.
    pub fn drop_live(&mut self, rid: &str)
        ensures
            final(self)@ == (RelayView {
                online: old(self)@.online.remove(rid@),
                ..old(self)@
            }),
    {
        let _ = shelves::shelf_remove(&mut self.online, rid);
    }

    /// Notes whether the live socket of a mailbox took an envelope: where it did not, it is no
    /// longer the live one. The envelope stays in the queue either way.
    pub fn settle_offer(&mut self, to: &str, delivered: bool)
        ensures
            final(self)@ == (RelayView {
                online: if delivered {
                    old(self)@.online
                } else {
                    old(self)@.online.remove(to@)
                },
                ..old(self)@
            }),
            final(self)@ == offer_settled(old(self)@, to@, delivered),
    {
        if !delivered {
            self.drop_live(to);
        }
    }

    /// The number of bundles, expired ones included.
    pub fn bundle_total(&self) -> (r: usize)
        ensures
            self@.bundles.dom().finite(),
            r == self@.bundles.dom().len(),
    {
        shelves::shelf_len(&self.bundles)
    }

    /// A hosted bundle.
    pub fn find_bundle(&self, id: &str) -> (r: Option<HostedBundle>)
        ensures
            seqs::opt(r) == looked_up(self@.bundles, id@),
    {
        shelves::shelf_get(&self.bundles, id)
    }

    /// Hosts a bundle.
    pub(crate) fn put_bundle(&mut self, id: &str, bundle: HostedBundle)
        ensures
            final(self)@ == (RelayView {
                bundles: old(self)@.bundles.insert(id@, bundle@),
                ..old(self)@
            }),
    {
        shelves::shelf_insert(&mut self.bundles, id.to_string(), bundle);
    }

    /// Drops the bundles whose time has come.
    pub fn prune_expired_bundles(&mut self, now_ms: u64)
        ensures
            final(self)@ == pruned(old(self)@, now_ms),
    {
        let ghost v = self@;
        let ghost m = v.bundles;
        let keys = shelves::shelf_keys(&self.bundles);
        let ghost ks = seqs::views(keys@);
        let mut i: usize = 0;
        let mut any = false;
        while i < keys.len()
            invariant
                i <= keys@.len(),
                ks == seqs::views(keys@),
                ks.no_duplicates(),
                forall|k: Seq<char>| #[trigger] ks.contains(k) <==> m.contains_key(k),
                m == v.bundles,
                self@ == (RelayView { bundles: self@.bundles, ..v }),
                forall|k: Seq<char>| #[trigger]
                    self@.bundles.contains_key(k) <==> m.contains_key(k) && !(m[k].expires_at_ms
                        <= now_ms && ks.take(i as int).contains(k)),
                forall|k: Seq<char>| #[trigger]
                    self@.bundles.contains_key(k) ==> self@.bundles[k] == m[k],
                any == exists|j: int|
                    0 <= j < i && m[(#[trigger] ks[j])].expires_at_ms <= now_ms,
            decreases keys@.len() - i,
        {
            let ghost k0 = ks[i as int];
            proof {
                assert(ks.contains(k0));
                seqs::take_step(ks, i as int);
                assert forall|k: Seq<char>| #[trigger] ks.take(i + 1).contains(k) <==> ks.take(
                    i as int,
                ).contains(k) || k == k0 by {
                    let a = ks.take(i as int);
                    let b = ks.take(i + 1);
                    if b.contains(k) && k != k0 {
                        let x = choose|x: int| 0 <= x < b.len() && b[x] == k;
                        assert(a[x] == k);
                    }
                    if a.contains(k) {
                        let x = choose|x: int| 0 <= x < a.len() && a[x] == k;
                        assert(b[x] == k);
                    }
                    assert(b[i as int] == k0);
                }
                assert(!ks.take(i as int).contains(k0)) by {
                    if ks.take(i as int).contains(k0) {
                        let x = choose|x: int| 0 <= x < i && ks.take(i as int)[x] == k0;
                        assert(ks[x] == ks[i as int]);
                    }
                }
                assert(self@.bundles.contains_key(k0));
            }
            let found = shelves::shelf_get(&self.bundles, keys[i].as_str());
            if let Some(b) = found {
                if b.expires_at_ms <= now_ms {
                    let _ = shelves::shelf_remove(&mut self.bundles, keys[i].as_str());
                    any = true;
                    proof {
                        assert(m[ks[i as int]].expires_at_ms <= now_ms);
                    }
                }
            }
            i = i + 1;
        }
        proof {
            assert(ks.take(i as int) =~= ks);
            assert(self@.bundles =~= live_bundles(m, now_ms));
            if any {
                let j = choose|j: int|
                    0 <= j < i && m[(#[trigger] ks[j])].expires_at_ms <= now_ms;
                assert(ks.contains(ks[j]));
                assert(m.contains_key(ks[j]));
            }
            if some_expired(m, now_ms) {
                let k = choose|k: Seq<char>| #[trigger]
                    m.contains_key(k) && m[k].expires_at_ms <= now_ms;
                assert(ks.contains(k));
                let j = choose|j: int| 0 <= j < ks.len() && ks[j] == k;
                assert(m[ks[j]].expires_at_ms <= now_ms);
            }
        }
        if any {
            self.dirty = true;
        }
    }

    /// Counts the mailboxes anew.
    pub(crate) fn count_mailboxes(&mut self)
        ensures
            old(self)@.mailboxes.dom().finite(),
            final(self)@ == (RelayView {
                mailbox_count: old(self)@.mailboxes.dom().len(),
                ..old(self)@
            }),
    {
        self.mailbox_count = shelves::shelf_len(&self.mailboxes);
    }

    /// Writes a whole queue and counts its bytes.
    pub(crate) fn put_queue(&mut self, rid: &str, queue: EnvelopeQueue)
        requires
            old(self)@.queued_bytes + queue_bytes(queue@) <= usize::MAX,
        ensures
            final(self)@ == (RelayView {
                queues: old(self)@.queues.insert(rid@, queue@),
                queued_bytes: old(self)@.queued_bytes + queue_bytes(queue@),
                ..old(self)@
            }),
    {
        self.total_queued_bytes = self.total_queued_bytes + count_bytes(&queue);
        shelves::shelf_insert(&mut self.queues, rid.to_string(), queue);
    }

    /// Every mailbox with its tokens.
    pub(crate) fn mailbox_entries(&self) -> (r: Vec<(String, MailboxAuth)>)
        ensures
            strmap::assoc(seqs::views(r@)) == self@.mailboxes,
            strmap::distinct_keys(seqs::views(r@)),
    {
        shelves::shelf_entries(&self.mailboxes)
    }

    /// Every mailbox with its queue.
    pub(crate) fn queue_entries(&self) -> (r: Vec<(String, EnvelopeQueue)>)
        ensures
            strmap::assoc(seqs::views(r@)) == self@.queues,
            strmap::distinct_keys(seqs::views(r@)),
    {
        shelves::shelf_entries(&self.queues)
    }

    /// Every bundle with its handle.
    pub(crate) fn bundle_entries(&self) -> (r: Vec<(String, HostedBundle)>)
        ensures
            strmap::assoc(seqs::views(r@)) == self@.bundles,
            strmap::distinct_keys(seqs::views(r@)),
    {
        shelves::shelf_entries(&self.bundles)
    }

    /// The trust root of the relay's certificates.
    pub fn trust_root(&self) -> (r: String)
        ensures
            r@ == self@.trust_root,
    {
        self.trust_root_b64.clone()
    }
}

} // verus!
