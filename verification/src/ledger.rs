//! Which envelopes were handled already, and which keep failing.
use crate::seqs;
use vstd::prelude::*;

verus! {

/// How long a handled envelope is remembered.
pub const SEEN_ENVELOPE_TTL_MS: u64 = 86_400_000;

/// How many handled envelopes are remembered.
pub const MAX_SEEN_ENVELOPES: usize = 4096;

/// How long a failing envelope is remembered.
pub const FAILED_ENVELOPE_TTL_MS: u64 = 3_600_000;

/// How many failing envelopes are remembered.
pub const MAX_FAILED_ENVELOPES: usize = 4096;

/// How often an envelope may fail before it is dropped.
pub const MAX_FAILED_DECRYPTS_PER_ENVELOPE: u32 = 5;

/// What is remembered of an envelope: how often it failed, and when it was last met.
#[derive(Clone, Copy)]
pub struct EnvelopeNote {
    pub id: u128,
    pub count: u32,
    pub at_ms: u64,
}

/// The note is that of the envelope.
pub open spec fn note_of(id: u128) -> spec_fn(EnvelopeNote) -> bool {
    |n: EnvelopeNote| n.id == id
}

/// The note is that of another envelope.
pub open spec fn note_not_of(id: u128) -> spec_fn(EnvelopeNote) -> bool {
    |n: EnvelopeNote| n.id != id
}

/// How long ago a time was.
pub open spec fn elapsed(now_ms: u64, at_ms: u64) -> u64 {
    if now_ms >= at_ms {
        (now_ms - at_ms) as u64
    } else {
        0
    }
}

/// The note is not too old.
pub open spec fn recent(now_ms: u64, ttl_ms: u64) -> spec_fn(EnvelopeNote) -> bool {
    |n: EnvelopeNote| elapsed(now_ms, n.at_ms) <= ttl_ms
}

/// Where the oldest note stands, the first of them where several are equally old.
pub open spec fn oldest(s: Seq<EnvelopeNote>) -> int
    decreases s.len(),
{
    if s.len() <= 1 {
        0
    } else {
        let k = oldest(s.drop_last());
        if s.last().at_ms < s[k].at_ms {
            s.len() - 1
        } else {
            k
        }
    }
}

/// The notes without the oldest ones, down to a number of them.
pub open spec fn trimmed_to(s: Seq<EnvelopeNote>, max: nat) -> Seq<EnvelopeNote>
    decreases s.len(),
{
    if s.len() <= max {
        s
    } else if 0 <= oldest(s) < s.len() {
        trimmed_to(s.remove(oldest(s)), max)
    } else {
        s
    }
}

/// The notes without those too old, and without the oldest where there are too many.
pub open spec fn pruned(s: Seq<EnvelopeNote>, now_ms: u64, ttl_ms: u64, max: nat) -> Seq<
    EnvelopeNote,
> {
    trimmed_to(s.filter(recent(now_ms, ttl_ms)), max)
}

proof fn oldest_is_oldest(s: Seq<EnvelopeNote>)
    requires
        s.len() > 0,
    ensures
        0 <= oldest(s) < s.len(),
        forall|j: int| 0 <= j < s.len() ==> s[oldest(s)].at_ms <= (#[trigger] s[j]).at_ms,
    decreases s.len(),
{
    if s.len() > 1 {
        let t = s.drop_last();
        oldest_is_oldest(t);
        assert forall|j: int| 0 <= j < s.len() implies s[oldest(s)].at_ms <= (
        #[trigger] s[j]).at_ms by {
            if j < s.len() - 1 {
                assert(t[j] == s[j]);
            }
        }
    }
}

fn find_oldest(v: &Vec<EnvelopeNote>) -> (r: usize)
    requires
        v@.len() > 0,
    ensures
        r == oldest(v@),
        r < v@.len(),
{
    let mut k: usize = 0;
    let mut i: usize = 1;
    while i < v.len()
        invariant
            1 <= i <= v@.len(),
            k < i,
            k == oldest(v@.take(i as int)),
        decreases v@.len() - i,
    {
        proof {
            seqs::take_step(v@, i as int);
            assert(v@.take(i as int)[k as int] == v@[k as int]);
            assert(v@.take(i + 1)[k as int] == v@[k as int]);
        }
        if v[i].at_ms < v[k].at_ms {
            k = i;
        }
        i = i + 1;
    }
    proof {
        assert(v@.take(i as int) =~= v@);
    }
    k
}

fn prune(v: &mut Vec<EnvelopeNote>, now_ms: u64, ttl_ms: u64, max: usize)
    ensures
        final(v)@ == pruned(old(v)@, now_ms, ttl_ms, max as nat),
{
    let ghost all = v@;
    let n: usize = v.len();
    let mut out: Vec<EnvelopeNote> = Vec::new();
    let mut i: usize = 0;
    proof {
        seqs::filter_empty(all.take(0), recent(now_ms, ttl_ms));
        assert(out@ =~= Seq::<EnvelopeNote>::empty());
    }
    while i < n
        invariant
            i <= n,
            n == v@.len(),
            all == v@,
            out@ == all.take(i as int).filter(recent(now_ms, ttl_ms)),
        decreases n - i,
    {
        proof {
            seqs::filter_take_step(all, i as int, recent(now_ms, ttl_ms));
        }
        if now_ms.saturating_sub(v[i].at_ms) <= ttl_ms {
            out.push(v[i]);
        }
        i = i + 1;
    }
    proof {
        assert(all.take(i as int) =~= all);
    }
    let ghost target = trimmed_to(out@, max as nat);
    while out.len() > max
        invariant
            target == trimmed_to(out@, max as nat),
        decreases out@.len(),
    {
        let k = find_oldest(&out);
        out.remove(k);
    }
    *v = out;
}

fn position_of(v: &Vec<EnvelopeNote>, id: u128) -> (r: Option<usize>)
    ensures
        match r {
            Some(i) => i < v@.len() && seqs::find(v@, note_of(id)) == Some(i as int),
            None => seqs::find(v@, note_of(id)) == None::<int>,
        },
{
    let mut i: usize = 0;
    while i < v.len()
        invariant
            i <= v@.len(),
            forall|j: int| 0 <= j < i ==> !note_of(id)(#[trigger] v@[j]),
        decreases v@.len() - i,
    {
        if v[i].id == id {
            proof {
                seqs::find_is(v@, note_of(id), i as int);
            }
            return Some(i);
        }
        i = i + 1;
    }
    proof {
        seqs::find_none(v@, note_of(id));
    }
    None
}

/// The notes with one in place of that of the same envelope, or added.
pub open spec fn noted(s: Seq<EnvelopeNote>, n: EnvelopeNote) -> Seq<EnvelopeNote> {
    match seqs::find(s, note_of(n.id)) {
        Some(i) => s.update(i, n),
        None => s.push(n),
    }
}

/// How often an envelope failed.
pub open spec fn failures(s: Seq<EnvelopeNote>, id: u128) -> u32 {
    match seqs::first_where(s, note_of(id)) {
        Some(n) => n.count,
        None => 0,
    }
}

fn put(v: &mut Vec<EnvelopeNote>, n: EnvelopeNote)
    ensures
        final(v)@ == noted(old(v)@, n),
{
    match position_of(v, n.id) {
        Some(i) => {
            v.set(i, n);
        },
        None => {
            v.push(n);
        },
    }
}

fn forget(v: &mut Vec<EnvelopeNote>, id: u128)
    ensures
        final(v)@ == old(v)@.filter(note_not_of(id)),
{
    let ghost all = v@;
    let n: usize = v.len();
    let mut out: Vec<EnvelopeNote> = Vec::new();
    let mut i: usize = 0;
    proof {
        seqs::filter_empty(all.take(0), note_not_of(id));
        assert(out@ =~= Seq::<EnvelopeNote>::empty());
    }
    while i < n
        invariant
            i <= n,
            n == v@.len(),
            all == v@,
            out@ == all.take(i as int).filter(note_not_of(id)),
        decreases n - i,
    {
        proof {
            seqs::filter_take_step(all, i as int, note_not_of(id));
        }
        if v[i].id != id {
            out.push(v[i]);
        }
        i = i + 1;
    }
    proof {
        assert(all.take(i as int) =~= all);
    }
    *v = out;
}

/// What to do with an envelope that came in.
pub enum Review {
    /// It is new: handle it.
    Fresh,
    /// It was handled before: acknowledge it.
    AlreadySeen,
    /// It failed too often: acknowledge it, so that it does not come again.
    Poisoned,
}

/// The envelopes that were handled, and those that failed.
pub struct EnvelopeLedger {
    pub seen: Vec<EnvelopeNote>,
    pub failed: Vec<EnvelopeNote>,
}

/// The envelopes that were handled, and those that failed.
#[verifier::ext_equal]
pub struct LedgerView {
    pub seen: Seq<EnvelopeNote>,
    pub failed: Seq<EnvelopeNote>,
}

impl View for EnvelopeLedger {
    type V = LedgerView;

    open spec fn view(&self) -> LedgerView {
        LedgerView { seen: self.seen@, failed: self.failed@ }
    }
}

/// The handled envelopes that are still remembered.
pub open spec fn still_seen(l: LedgerView, now_ms: u64) -> Seq<EnvelopeNote> {
    pruned(l.seen, now_ms, SEEN_ENVELOPE_TTL_MS, MAX_SEEN_ENVELOPES as nat)
}

/// The failing envelopes that are still remembered.
pub open spec fn still_failed(l: LedgerView, now_ms: u64) -> Seq<EnvelopeNote> {
    pruned(l.failed, now_ms, FAILED_ENVELOPE_TTL_MS, MAX_FAILED_ENVELOPES as nat)
}

/// The count after one failure more, as far as it goes.
pub open spec fn one_more(count: u32) -> u32 {
    if count == u32::MAX {
        u32::MAX
    } else {
        (count + 1) as u32
    }
}

/// The ledger after it was asked about an envelope, and what to do with the envelope.
pub open spec fn reviewed(l: LedgerView, id: u128, now_ms: u64) -> (LedgerView, Review) {
    let l1 = LedgerView { seen: still_seen(l, now_ms), ..l };
    if seqs::find(l1.seen, note_of(id)) is Some {
        (l1, Review::AlreadySeen)
    } else {
        let l2 = LedgerView { failed: still_failed(l1, now_ms), ..l1 };
        if failures(l2.failed, id) >= MAX_FAILED_DECRYPTS_PER_ENVELOPE {
            (l2, Review::Poisoned)
        } else {
            (l2, Review::Fresh)
        }
    }
}

/// The ledger after an envelope failed, and whether it is to be dropped.
pub open spec fn failed_once_more(l: LedgerView, id: u128, now_ms: u64) -> (LedgerView, bool) {
    let kept = still_failed(l, now_ms);
    let count = one_more(failures(kept, id));
    (
        LedgerView { failed: noted(kept, EnvelopeNote { id, count, at_ms: now_ms }), ..l },
        count >= MAX_FAILED_DECRYPTS_PER_ENVELOPE,
    )
}

/// The ledger after an envelope came in, and what is acknowledged at once: an envelope that was
/// handled before or failed too often; nothing where it is to be handled.
pub open spec fn arrived(l: LedgerView, id: u128, now_ms: u64) -> (LedgerView, Option<Seq<u128>>) {
    let (after, review) = reviewed(l, id, now_ms);
    (
        after,
        match review {
            Review::Fresh => None,
            _ => Some(seq![id]),
        },
    )
}

/// The ledger after an envelope could not be read, and what follows: the failure is reported and
/// the relay keeps the envelope, or it is acknowledged, so that it does not come again.
pub open spec fn unreadable(l: LedgerView, id: u128, why: Seq<char>, now_ms: u64) -> (
    LedgerView,
    Result<Seq<u128>, Seq<char>>,
) {
    let (after, drop) = failed_once_more(l, id, now_ms);
    (
        after,
        if drop {
            Ok(seq![id])
        } else {
            Err(why)
        },
    )
}

/// The ledger after an envelope was handled.
pub open spec fn handled_at(l: LedgerView, id: u128, now_ms: u64) -> LedgerView {
    LedgerView { seen: noted(l.seen, EnvelopeNote { id, count: 0, at_ms: now_ms }), ..l }
}

/// The ledger after the failures of an envelope were forgotten.
pub open spec fn forgiven(l: LedgerView, id: u128) -> LedgerView {
    LedgerView { failed: l.failed.filter(note_not_of(id)), ..l }
}

impl EnvelopeLedger {
    /// A ledger that knows of no envelope.
    pub fn new() -> (r: Self)
        ensures
            r@ == (LedgerView { seen: Seq::empty(), failed: Seq::empty() }),
    {
        EnvelopeLedger { seen: Vec::new(), failed: Vec::new() }
    }

    /// What to do with an envelope that came in.
    pub fn review(&mut self, id: u128, now_ms: u64) -> (r: Review)
        ensures
            (final(self)@, r) == reviewed(old(self)@, id, now_ms),
    {
        prune(&mut self.seen, now_ms, SEEN_ENVELOPE_TTL_MS, MAX_SEEN_ENVELOPES);
        if position_of(&self.seen, id).is_some() {
            return Review::AlreadySeen;
        }
        prune(&mut self.failed, now_ms, FAILED_ENVELOPE_TTL_MS, MAX_FAILED_ENVELOPES);
        if self.failure_count(id) >= MAX_FAILED_DECRYPTS_PER_ENVELOPE {
            Review::Poisoned
        } else {
            Review::Fresh
        }
    }

    fn failure_count(&self, id: u128) -> (r: u32)
        ensures
            r == failures(self@.failed, id),
    {
        match position_of(&self.failed, id) {
            Some(i) => self.failed[i].count,
            None => 0,
        }
    }

    /// Notes that an envelope failed; tells whether it is to be dropped.
    pub fn note_failure(&mut self, id: u128, now_ms: u64) -> (r: bool)
        ensures
            (final(self)@, r) == failed_once_more(old(self)@, id, now_ms),
    {
        prune(&mut self.failed, now_ms, FAILED_ENVELOPE_TTL_MS, MAX_FAILED_ENVELOPES);
        let count: u32 = self.failure_count(id).saturating_add(1);
        put(&mut self.failed, EnvelopeNote { id, count, at_ms: now_ms });
        count >= MAX_FAILED_DECRYPTS_PER_ENVELOPE
    }

    /// Looks at an envelope that came in. Gives what to acknowledge at once, or nothing where the
    /// envelope is to be handled.
    pub fn arrive(&mut self, id: u128, now_ms: u64) -> (r: Option<Vec<u128>>)
        ensures
            (final(self)@, seqs::opt(r)) == arrived(old(self)@, id, now_ms),
    {
        match self.review(id, now_ms) {
            Review::Fresh => None,
            _ => {
                let ids = vec![id];
                assert(ids@ =~= seq![id]);
                Some(ids)
            },
        }
    }

    /// Notes that an envelope could not be read. Gives what to acknowledge where it failed too
    /// often, or else why it could not be read.
    pub fn fail(&mut self, id: u128, why: String, now_ms: u64) -> (r: Result<Vec<u128>, String>)
        ensures
            (final(self)@, seqs::outcome(r)) == unreadable(old(self)@, id, why@, now_ms),
    {
        if self.note_failure(id, now_ms) {
            let ids = vec![id];
            assert(ids@ =~= seq![id]);
            Ok(ids)
        } else {
            Err(why)
        }
    }

    /// Notes that an envelope was handled.
    pub fn note_seen(&mut self, id: u128, now_ms: u64)
        ensures
            final(self)@ == handled_at(old(self)@, id, now_ms),
    {
        put(&mut self.seen, EnvelopeNote { id, count: 0, at_ms: now_ms });
    }

    /// Forgets the failures of an envelope.
    pub fn forgive(&mut self, id: u128)
        ensures
            final(self)@ == forgiven(old(self)@, id),
    {
        forget(&mut self.failed, id);
    }
}

// ---------------------------------------------------------------------------------------------
// Laws.
// ---------------------------------------------------------------------------------------------

/// An element of what is left of a sequence was there before.
proof fn trimmed_members(s: Seq<EnvelopeNote>, max: nat)
    ensures
        trimmed_to(s, max).len() <= s.len(),
        trimmed_to(s, max).len() <= max,
        forall|n: EnvelopeNote| #[trigger] trimmed_to(s, max).contains(n) ==> s.contains(n),
    decreases s.len(),
{
    if s.len() > max {
        oldest_is_oldest(s);
        let k = oldest(s);
        let t = s.remove(k);
        trimmed_members(t, max);
        assert forall|n: EnvelopeNote| #[trigger] trimmed_to(s, max).contains(n) implies s.contains(
            n,
        ) by {
            assert(trimmed_to(t, max).contains(n));
            let j = choose|j: int| 0 <= j < t.len() && t[j] == n;
            if j < k {
                assert(s[j] == n);
            } else {
                assert(s[j + 1] == n);
            }
        }
    }
}

/// A note that was dropped for want of room is not newer than any that was kept.
proof fn trimmed_drops_oldest(s: Seq<EnvelopeNote>, max: nat, a: EnvelopeNote, b: EnvelopeNote)
    requires
        s.contains(a),
        !trimmed_to(s, max).contains(a),
        trimmed_to(s, max).contains(b),
    ensures
        a.at_ms <= b.at_ms,
    decreases s.len(),
{
    if s.len() > max {
        oldest_is_oldest(s);
        let k = oldest(s);
        let t = s.remove(k);
        trimmed_members(s, max);
        trimmed_members(t, max);
        if t.contains(a) {
            trimmed_drops_oldest(t, max, a, b);
        } else {
            let j = choose|j: int| 0 <= j < s.len() && s[j] == a;
            if j < k {
                assert(t[j] == a);
            } else if j > k {
                assert(t[j - 1] == a);
            }
            let m = choose|m: int| 0 <= m < s.len() && s[m] == b;
            assert(s[k] == a);
        }
    }
}

/// The ledger stays small, remembers nothing too old, and forgets the oldest first.
pub proof fn memory_is_bounded(
    s: Seq<EnvelopeNote>,
    now_ms: u64,
    ttl_ms: u64,
    max: nat,
    a: EnvelopeNote,
    b: EnvelopeNote,
)
    ensures
        pruned(s, now_ms, ttl_ms, max).len() <= max,
        pruned(s, now_ms, ttl_ms, max).contains(a) ==> s.contains(a) && elapsed(now_ms, a.at_ms)
            <= ttl_ms,
        s.contains(a) && elapsed(now_ms, a.at_ms) <= ttl_ms && !pruned(
            s,
            now_ms,
            ttl_ms,
            max,
        ).contains(a) && pruned(s, now_ms, ttl_ms, max).contains(b) ==> a.at_ms <= b.at_ms,
{
    let f = s.filter(recent(now_ms, ttl_ms));
    seqs::filter_members(s, recent(now_ms, ttl_ms));
    trimmed_members(f, max);
    assert(f.contains(a) <==> s.contains(a) && recent(now_ms, ttl_ms)(a));
    if f.contains(a) && !trimmed_to(f, max).contains(a) && trimmed_to(f, max).contains(b) {
        trimmed_drops_oldest(f, max, a, b);
    }
}

/// How many elements satisfy `p`.
pub open spec fn tally<A>(s: Seq<A>, p: spec_fn(A) -> bool) -> nat
    decreases s.len(),
{
    if s.len() == 0 {
        0
    } else {
        tally(s.drop_last(), p) + if p(s.last()) {
            1nat
        } else {
            0nat
        }
    }
}

proof fn tally_remove<A>(s: Seq<A>, p: spec_fn(A) -> bool, i: int)
    requires
        0 <= i < s.len(),
    ensures
        tally(s, p) == tally(s.remove(i), p) + if p(s[i]) {
            1nat
        } else {
            0nat
        },
    decreases s.len(),
{
    let t = s.drop_last();
    if i < t.len() {
        tally_remove(t, p, i);
        assert(s.remove(i).drop_last() =~= t.remove(i));
        assert(s.remove(i).last() == s.last());
    } else {
        assert(s.remove(i) =~= t);
    }
}

proof fn tally_update<A>(s: Seq<A>, p: spec_fn(A) -> bool, i: int, x: A)
    requires
        0 <= i < s.len(),
    ensures
        tally(s.update(i, x), p) <= tally(s, p) + if p(x) {
            1nat
        } else {
            0nat
        },
{
    tally_remove(s, p, i);
    tally_remove(s.update(i, x), p, i);
    assert(s.update(i, x).remove(i) =~= s.remove(i));
}

proof fn tally_all<A>(s: Seq<A>, p: spec_fn(A) -> bool)
    requires
        forall|i: int| 0 <= i < s.len() ==> p(#[trigger] s[i]),
    ensures
        tally(s, p) == s.len(),
    decreases s.len(),
{
    if s.len() > 0 {
        let t = s.drop_last();
        assert forall|i: int| 0 <= i < t.len() implies p(#[trigger] t[i]) by {
            assert(t[i] == s[i]);
        }
        tally_all(t, p);
    }
}

proof fn tally_filter<A>(s: Seq<A>, p: spec_fn(A) -> bool, q: spec_fn(A) -> bool)
    ensures
        tally(s.filter(q), p) <= tally(s, p),
    decreases s.len(),
{
    if s.len() == 0 {
        seqs::filter_empty(s, q);
    } else {
        let t = s.drop_last();
        tally_filter(t, p, q);
        assert(s =~= t.push(s.last()));
        seqs::filter_push(t, s.last(), q);
        assert(t.filter(q).push(s.last()).drop_last() =~= t.filter(q));
    }
}

/// There is one note of an envelope at most.
pub open spec fn distinct_notes(s: Seq<EnvelopeNote>) -> bool {
    forall|i: int, j: int|
        0 <= i < s.len() && 0 <= j < s.len() && i != j ==> (#[trigger] s[i]).id != (
        #[trigger] s[j]).id
}

/// There is one note of an envelope at most, of its handling and of its failures.
pub open spec fn sound(l: LedgerView) -> bool {
    distinct_notes(l.seen) && distinct_notes(l.failed)
}

proof fn distinct_filter(s: Seq<EnvelopeNote>, q: spec_fn(EnvelopeNote) -> bool)
    requires
        distinct_notes(s),
    ensures
        distinct_notes(s.filter(q)),
    decreases s.len(),
{
    if s.len() == 0 {
        seqs::filter_empty(s, q);
    } else {
        let t = s.drop_last();
        assert(distinct_notes(t)) by {
            assert forall|i: int, j: int|
                0 <= i < t.len() && 0 <= j < t.len() && i != j implies (#[trigger] t[i]).id != (
            #[trigger] t[j]).id by {
                assert(s[i].id != s[j].id);
            }
        }
        distinct_filter(t, q);
        assert(s =~= t.push(s.last()));
        seqs::filter_push(t, s.last(), q);
        seqs::filter_members(t, q);
        let f = t.filter(q);
        assert forall|i: int| 0 <= i < f.len() implies (#[trigger] f[i]).id != s.last().id by {
            assert(f.contains(f[i]));
            assert(t.contains(f[i]));
            let m = choose|m: int| 0 <= m < t.len() && t[m] == f[i];
            assert(s[m].id != s[s.len() - 1].id);
        }
    }
}

proof fn distinct_remove(s: Seq<EnvelopeNote>, k: int)
    requires
        distinct_notes(s),
        0 <= k < s.len(),
    ensures
        distinct_notes(s.remove(k)),
{
    let t = s.remove(k);
    assert forall|i: int, j: int|
        0 <= i < t.len() && 0 <= j < t.len() && i != j implies (#[trigger] t[i]).id != (
    #[trigger] t[j]).id by {
        let a = if i < k {
            i
        } else {
            i + 1
        };
        let b = if j < k {
            j
        } else {
            j + 1
        };
        assert(s[a].id != s[b].id);
    }
}

proof fn distinct_noted(s: Seq<EnvelopeNote>, n: EnvelopeNote)
    requires
        distinct_notes(s),
    ensures
        distinct_notes(noted(s, n)),
        noted(s, n).contains(n),
        forall|m: EnvelopeNote| s.contains(m) && m.id != n.id ==> #[trigger] noted(s, n).contains(m),
{
    seqs::find_spec(s, note_of(n.id));
    let t = noted(s, n);
    match seqs::find(s, note_of(n.id)) {
        Some(i) => {
            assert(t[i] == n);
            assert forall|a: int, b: int|
                0 <= a < t.len() && 0 <= b < t.len() && a != b implies (#[trigger] t[a]).id != (
            #[trigger] t[b]).id by {
                assert(s[a].id != s[b].id);
            }
            assert forall|m: EnvelopeNote| s.contains(m) && m.id != n.id implies #[trigger]
                t.contains(m) by {
                let k = choose|k: int| 0 <= k < s.len() && s[k] == m;
                assert(t[k] == m);
            }
        },
        None => {
            assert(t[t.len() - 1] == n);
            assert forall|a: int, b: int|
                0 <= a < t.len() && 0 <= b < t.len() && a != b implies (#[trigger] t[a]).id != (
            #[trigger] t[b]).id by {
                if a < s.len() && b < s.len() {
                    assert(s[a].id != s[b].id);
                } else if a < s.len() {
                    assert(!note_of(n.id)(s[a]));
                } else {
                    assert(!note_of(n.id)(s[b]));
                }
            }
            assert forall|m: EnvelopeNote| s.contains(m) && m.id != n.id implies #[trigger]
                t.contains(m) by {
                let k = choose|k: int| 0 <= k < s.len() && s[k] == m;
                assert(t[k] == m);
            }
        },
    }
}

/// The note is that of another envelope, met at a time or later.
pub open spec fn met_since(id: u128, since_ms: u64) -> spec_fn(EnvelopeNote) -> bool {
    |n: EnvelopeNote| n.id != id && n.at_ms >= since_ms
}

proof fn tally_noted(s: Seq<EnvelopeNote>, n: EnvelopeNote, p: spec_fn(EnvelopeNote) -> bool)
    ensures
        tally(noted(s, n), p) <= tally(s, p) + if p(n) {
            1nat
        } else {
            0nat
        },
{
    seqs::find_spec(s, note_of(n.id));
    match seqs::find(s, note_of(n.id)) {
        Some(i) => {
            tally_update(s, p, i, n);
        },
        None => {
            assert(s.push(n).drop_last() =~= s);
        },
    }
}

/// A note stays while there is room for it and those that are not older.
proof fn trimmed_keeps(s: Seq<EnvelopeNote>, max: nat, m: EnvelopeNote, since_ms: u64)
    requires
        distinct_notes(s),
        s.contains(m),
        m.at_ms >= since_ms,
        tally(s, met_since(m.id, since_ms)) < max,
    ensures
        trimmed_to(s, max).contains(m),
    decreases s.len(),
{
    if s.len() > max {
        let p = met_since(m.id, since_ms);
        oldest_is_oldest(s);
        let k = oldest(s);
        let t = s.remove(k);
        distinct_remove(s, k);
        tally_remove(s, p, k);
        let j = choose|j: int| 0 <= j < s.len() && s[j] == m;
        if j == k {
            assert forall|i: int| 0 <= i < t.len() implies p(#[trigger] t[i]) by {
                let a = if i < k {
                    i
                } else {
                    i + 1
                };
                assert(t[i] == s[a]);
                assert(s[a].id != s[k].id);
            }
            tally_all(t, p);
        } else {
            if j < k {
                assert(t[j] == m);
            } else {
                assert(t[j - 1] == m);
            }
            trimmed_keeps(t, max, m, since_ms);
        }
    }
}

proof fn trimmed_stays_sound(s: Seq<EnvelopeNote>, max: nat, p: spec_fn(EnvelopeNote) -> bool)
    requires
        distinct_notes(s),
    ensures
        distinct_notes(trimmed_to(s, max)),
        tally(trimmed_to(s, max), p) <= tally(s, p),
    decreases s.len(),
{
    if s.len() > max {
        oldest_is_oldest(s);
        let k = oldest(s);
        distinct_remove(s, k);
        tally_remove(s, p, k);
        trimmed_stays_sound(s.remove(k), max, p);
    }
}

proof fn pruned_stays_sound(
    s: Seq<EnvelopeNote>,
    now_ms: u64,
    ttl_ms: u64,
    max: nat,
    p: spec_fn(EnvelopeNote) -> bool,
)
    requires
        distinct_notes(s),
    ensures
        distinct_notes(pruned(s, now_ms, ttl_ms, max)),
        tally(pruned(s, now_ms, ttl_ms, max), p) <= tally(s, p),
{
    distinct_filter(s, recent(now_ms, ttl_ms));
    tally_filter(s, p, recent(now_ms, ttl_ms));
    trimmed_stays_sound(s.filter(recent(now_ms, ttl_ms)), max, p);
}

proof fn pruned_keeps(
    s: Seq<EnvelopeNote>,
    now_ms: u64,
    ttl_ms: u64,
    max: nat,
    m: EnvelopeNote,
    since_ms: u64,
)
    requires
        distinct_notes(s),
        s.contains(m),
        m.at_ms >= since_ms,
        elapsed(now_ms, since_ms) <= ttl_ms,
        tally(s, met_since(m.id, since_ms)) < max,
    ensures
        pruned(s, now_ms, ttl_ms, max).contains(m),
{
    let q = recent(now_ms, ttl_ms);
    seqs::filter_members(s, q);
    assert(q(m));
    assert(s.filter(q).contains(m));
    distinct_filter(s, q);
    tally_filter(s, met_since(m.id, since_ms), q);
    trimmed_keeps(s.filter(q), max, m, since_ms);
}

proof fn found_note(s: Seq<EnvelopeNote>, m: EnvelopeNote)
    requires
        distinct_notes(s),
        s.contains(m),
    ensures
        seqs::first_where(s, note_of(m.id)) == Some(m),
{
    let k = choose|k: int| 0 <= k < s.len() && s[k] == m;
    assert forall|j: int| 0 <= j < k implies !note_of(m.id)(#[trigger] s[j]) by {
        assert(s[j].id != s[k].id);
    }
    seqs::find_is(s, note_of(m.id), k);
}

/// What can happen to a ledger.
pub enum LedgerStep {
    Reviewed { id: u128, at_ms: u64 },
    Failed { id: u128, at_ms: u64 },
    Handled { id: u128, at_ms: u64 },
    Forgiven { id: u128 },
}

/// The ledger after a step.
pub open spec fn stepped(l: LedgerView, s: LedgerStep) -> LedgerView {
    match s {
        LedgerStep::Reviewed { id, at_ms } => reviewed(l, id, at_ms).0,
        LedgerStep::Failed { id, at_ms } => failed_once_more(l, id, at_ms).0,
        LedgerStep::Handled { id, at_ms } => handled_at(l, id, at_ms),
        LedgerStep::Forgiven { id } => forgiven(l, id),
    }
}

/// The ledger after a run of steps.
pub open spec fn after_steps(l: LedgerView, steps: Seq<LedgerStep>) -> LedgerView
    decreases steps.len(),
{
    if steps.len() == 0 {
        l
    } else {
        stepped(after_steps(l, steps.drop_last()), steps.last())
    }
}

/// Whatever happens to a ledger, there is one note of an envelope at most.
pub proof fn ledger_stays_sound(l: LedgerView, s: LedgerStep)
    requires
        sound(l),
    ensures
        sound(stepped(l, s)),
{
    let p = met_since(0, 0);
    match s {
        LedgerStep::Reviewed { id, at_ms } => {
            pruned_stays_sound(l.seen, at_ms, SEEN_ENVELOPE_TTL_MS, MAX_SEEN_ENVELOPES as nat, p);
            pruned_stays_sound(
                l.failed,
                at_ms,
                FAILED_ENVELOPE_TTL_MS,
                MAX_FAILED_ENVELOPES as nat,
                p,
            );
        },
        LedgerStep::Failed { id, at_ms } => {
            pruned_stays_sound(
                l.failed,
                at_ms,
                FAILED_ENVELOPE_TTL_MS,
                MAX_FAILED_ENVELOPES as nat,
                p,
            );
            let kept = still_failed(l, at_ms);
            distinct_noted(
                kept,
                EnvelopeNote { id, count: one_more(failures(kept, id)), at_ms },
            );
        },
        LedgerStep::Handled { id, at_ms } => {
            distinct_noted(l.seen, EnvelopeNote { id, count: 0, at_ms });
        },
        LedgerStep::Forgiven { id } => {
            distinct_filter(l.failed, note_not_of(id));
        },
    }
}

// ---------------------------------------------------------------------------------------------
// Handled envelopes.
// ---------------------------------------------------------------------------------------------

/// The step is that another envelope was handled, at a time or later.
pub open spec fn other_handled(id: u128, since_ms: u64) -> spec_fn(LedgerStep) -> bool {
    |s: LedgerStep|
        match s {
            LedgerStep::Handled { id: other, at_ms } => other != id && at_ms >= since_ms,
            _ => false,
        }
}

/// The step is taken while an envelope that was handled at a time is still remembered.
pub open spec fn while_seen(s: LedgerStep, id: u128, then_ms: u64) -> bool {
    match s {
        LedgerStep::Reviewed { at_ms, .. } => elapsed(at_ms, then_ms) <= SEEN_ENVELOPE_TTL_MS,
        LedgerStep::Handled { id: other, at_ms } => other == id ==> at_ms >= then_ms,
        _ => true,
    }
}

/// A note that an envelope was handled at a time or later.
pub open spec fn seen_since(s: Seq<EnvelopeNote>, id: u128, since_ms: u64) -> bool {
    exists|m: EnvelopeNote| #[trigger] s.contains(m) && m.id == id && m.at_ms >= since_ms
}

proof fn handled_stays_noted(
    l: LedgerView,
    id: u128,
    then_ms: u64,
    steps: Seq<LedgerStep>,
)
    requires
        sound(l),
        forall|i: int| 0 <= i < steps.len() ==> while_seen(#[trigger] steps[i], id, then_ms),
        tally(l.seen, met_since(id, then_ms)) + tally(steps, other_handled(id, then_ms))
            < MAX_SEEN_ENVELOPES,
    ensures
        ({
            let w = after_steps(handled_at(l, id, then_ms), steps);
            &&& sound(w)
            &&& seen_since(w.seen, id, then_ms)
            &&& tally(w.seen, met_since(id, then_ms)) <= tally(l.seen, met_since(id, then_ms))
                + tally(steps, other_handled(id, then_ms))
        }),
    decreases steps.len(),
{
    let p = met_since(id, then_ms);
    if steps.len() == 0 {
        let n = EnvelopeNote { id, count: 0, at_ms: then_ms };
        distinct_noted(l.seen, n);
        tally_noted(l.seen, n, p);
    } else {
        let front = steps.drop_last();
        assert forall|i: int| 0 <= i < front.len() implies while_seen(
            #[trigger] front[i],
            id,
            then_ms,
        ) by {
            assert(front[i] == steps[i]);
        }
        handled_stays_noted(l, id, then_ms, front);
        let w = after_steps(handled_at(l, id, then_ms), front);
        let s = steps[steps.len() - 1];
        ledger_stays_sound(w, s);
        let m = choose|m: EnvelopeNote| #[trigger]
            w.seen.contains(m) && m.id == id && m.at_ms >= then_ms;
        match s {
            LedgerStep::Reviewed { id: other, at_ms } => {
                pruned_keeps(
                    w.seen,
                    at_ms,
                    SEEN_ENVELOPE_TTL_MS,
                    MAX_SEEN_ENVELOPES as nat,
                    m,
                    then_ms,
                );
                pruned_stays_sound(
                    w.seen,
                    at_ms,
                    SEEN_ENVELOPE_TTL_MS,
                    MAX_SEEN_ENVELOPES as nat,
                    p,
                );
                assert(stepped(w, s).seen.contains(m));
            },
            LedgerStep::Handled { id: other, at_ms } => {
                let n = EnvelopeNote { id: other, count: 0, at_ms };
                distinct_noted(w.seen, n);
                tally_noted(w.seen, n, p);
                assert(stepped(w, s).seen.contains(n));
                if other != id {
                    assert(stepped(w, s).seen.contains(m));
                }
            },
            _ => {
                assert(stepped(w, s).seen.contains(m));
            },
        }
    }
}

/// An envelope that was handled is acknowledged, and not handled again, when it comes again within
/// a day, whatever happened meanwhile, as long as fewer other envelopes than the ledger has room
/// for were handled since.
pub proof fn handled_envelopes_are_recognised(
    l: LedgerView,
    id: u128,
    then_ms: u64,
    steps: Seq<LedgerStep>,
    now_ms: u64,
)
    requires
        sound(l),
        forall|i: int| 0 <= i < steps.len() ==> while_seen(#[trigger] steps[i], id, then_ms),
        tally(l.seen, met_since(id, then_ms)) + tally(steps, other_handled(id, then_ms))
            < MAX_SEEN_ENVELOPES,
        elapsed(now_ms, then_ms) <= SEEN_ENVELOPE_TTL_MS,
    ensures
        reviewed(after_steps(handled_at(l, id, then_ms), steps), id, now_ms).1 is AlreadySeen,
        arrived(after_steps(handled_at(l, id, then_ms), steps), id, now_ms).1 == Some(seq![id]),
{
    handled_stays_noted(l, id, then_ms, steps);
    let w = after_steps(handled_at(l, id, then_ms), steps);
    let m = choose|m: EnvelopeNote| #[trigger]
        w.seen.contains(m) && m.id == id && m.at_ms >= then_ms;
    let max = MAX_SEEN_ENVELOPES as nat;
    pruned_keeps(w.seen, now_ms, SEEN_ENVELOPE_TTL_MS, max, m, then_ms);
    pruned_stays_sound(w.seen, now_ms, SEEN_ENVELOPE_TTL_MS, max, met_since(id, then_ms));
    found_note(still_seen(w, now_ms), m);
}

// ---------------------------------------------------------------------------------------------
// Failing envelopes.
// ---------------------------------------------------------------------------------------------

/// A failure of an envelope, and what happened until its next one.
pub struct FailureRound {
    pub at_ms: u64,
    pub meanwhile: Seq<LedgerStep>,
}

/// The ledger after the failures of an envelope and what happened between them.
pub open spec fn after_rounds(l: LedgerView, id: u128, rounds: Seq<FailureRound>) -> LedgerView
    decreases rounds.len(),
{
    if rounds.len() == 0 {
        l
    } else {
        after_steps(
            failed_once_more(
                after_rounds(l, id, rounds.drop_last()),
                id,
                rounds.last().at_ms,
            ).0,
            rounds.last().meanwhile,
        )
    }
}

/// The step is that another envelope failed, at a time or later.
pub open spec fn other_failed(id: u128, since_ms: u64) -> spec_fn(LedgerStep) -> bool {
    |s: LedgerStep|
        match s {
            LedgerStep::Failed { id: other, at_ms } => other != id && at_ms >= since_ms,
            _ => false,
        }
}

/// The step leaves the failures of an envelope alone, and is taken while the one at a time is
/// still remembered.
pub open spec fn while_failing(s: LedgerStep, id: u128, then_ms: u64) -> bool {
    match s {
        LedgerStep::Reviewed { at_ms, .. } => elapsed(at_ms, then_ms) <= FAILED_ENVELOPE_TTL_MS,
        LedgerStep::Failed { id: other, at_ms } => other != id && elapsed(at_ms, then_ms)
            <= FAILED_ENVELOPE_TTL_MS,
        LedgerStep::Forgiven { id: other } => other != id,
        LedgerStep::Handled { .. } => true,
    }
}

/// The failures of an envelope that come before the one at `now_ms`: none is remembered from
/// before the first, each comes within an hour of the one before, and fewer other envelopes than
/// the ledger has room for fail meanwhile.
pub open spec fn in_a_row(l: LedgerView, id: u128, rounds: Seq<FailureRound>, now_ms: u64) -> bool
    decreases rounds.len(),
{
    if rounds.len() == 0 {
        failures(still_failed(l, now_ms), id) == 0
    } else {
        let last = rounds.last();
        let before = failed_once_more(after_rounds(l, id, rounds.drop_last()), id, last.at_ms).0;
        &&& in_a_row(l, id, rounds.drop_last(), last.at_ms)
        &&& elapsed(now_ms, last.at_ms) <= FAILED_ENVELOPE_TTL_MS
        &&& forall|i: int|
            0 <= i < last.meanwhile.len() ==> while_failing(
                #[trigger] last.meanwhile[i],
                id,
                last.at_ms,
            )
        &&& tally(before.failed, met_since(id, last.at_ms)) + tally(
            last.meanwhile,
            other_failed(id, last.at_ms),
        ) < MAX_FAILED_ENVELOPES
    }
}

proof fn failure_stays_noted(l: LedgerView, m: EnvelopeNote, steps: Seq<LedgerStep>)
    requires
        sound(l),
        l.failed.contains(m),
        forall|i: int| 0 <= i < steps.len() ==> while_failing(#[trigger] steps[i], m.id, m.at_ms),
        tally(l.failed, met_since(m.id, m.at_ms)) + tally(steps, other_failed(m.id, m.at_ms))
            < MAX_FAILED_ENVELOPES,
    ensures
        sound(after_steps(l, steps)),
        after_steps(l, steps).failed.contains(m),
        tally(after_steps(l, steps).failed, met_since(m.id, m.at_ms)) <= tally(
            l.failed,
            met_since(m.id, m.at_ms),
        ) + tally(steps, other_failed(m.id, m.at_ms)),
    decreases steps.len(),
{
    if steps.len() > 0 {
        let p = met_since(m.id, m.at_ms);
        let max = MAX_FAILED_ENVELOPES as nat;
        let front = steps.drop_last();
        assert forall|i: int| 0 <= i < front.len() implies while_failing(
            #[trigger] front[i],
            m.id,
            m.at_ms,
        ) by {
            assert(front[i] == steps[i]);
        }
        failure_stays_noted(l, m, front);
        let w = after_steps(l, front);
        let s = steps[steps.len() - 1];
        ledger_stays_sound(w, s);
        match s {
            LedgerStep::Reviewed { id, at_ms } => {
                pruned_keeps(w.failed, at_ms, FAILED_ENVELOPE_TTL_MS, max, m, m.at_ms);
                pruned_stays_sound(w.failed, at_ms, FAILED_ENVELOPE_TTL_MS, max, p);
            },
            LedgerStep::Failed { id, at_ms } => {
                pruned_keeps(w.failed, at_ms, FAILED_ENVELOPE_TTL_MS, max, m, m.at_ms);
                pruned_stays_sound(w.failed, at_ms, FAILED_ENVELOPE_TTL_MS, max, p);
                let kept = still_failed(w, at_ms);
                let n = EnvelopeNote { id, count: one_more(failures(kept, id)), at_ms };
                distinct_noted(kept, n);
                tally_noted(kept, n, p);
                assert(noted(kept, n).contains(m));
            },
            LedgerStep::Handled { id, at_ms } => {},
            LedgerStep::Forgiven { id } => {
                seqs::filter_members(w.failed, note_not_of(id));
                tally_filter(w.failed, p, note_not_of(id));
                assert(note_not_of(id)(m));
                assert(w.failed.filter(note_not_of(id)).contains(m));
            },
        }
    }
}

proof fn row_is_counted(l: LedgerView, id: u128, rounds: Seq<FailureRound>, now_ms: u64)
    requires
        sound(l),
        rounds.len() <= u32::MAX,
        in_a_row(l, id, rounds, now_ms),
    ensures
        sound(after_rounds(l, id, rounds)),
        failures(still_failed(after_rounds(l, id, rounds), now_ms), id) == rounds.len(),
    decreases rounds.len(),
{
    if rounds.len() > 0 {
        let front = rounds.drop_last();
        let last = rounds.last();
        let max = MAX_FAILED_ENVELOPES as nat;
        row_is_counted(l, id, front, last.at_ms);
        let b = after_rounds(l, id, front);
        let w = failed_once_more(b, id, last.at_ms).0;
        let kept = still_failed(b, last.at_ms);
        let m = EnvelopeNote { id, count: one_more(failures(kept, id)), at_ms: last.at_ms };
        pruned_stays_sound(
            b.failed,
            last.at_ms,
            FAILED_ENVELOPE_TTL_MS,
            max,
            met_since(id, last.at_ms),
        );
        distinct_noted(kept, m);
        ledger_stays_sound(b, LedgerStep::Failed { id, at_ms: last.at_ms });
        failure_stays_noted(w, m, last.meanwhile);
        let after = after_steps(w, last.meanwhile);
        pruned_keeps(after.failed, now_ms, FAILED_ENVELOPE_TTL_MS, max, m, m.at_ms);
        pruned_stays_sound(
            after.failed,
            now_ms,
            FAILED_ENVELOPE_TTL_MS,
            max,
            met_since(id, last.at_ms),
        );
        found_note(still_failed(after, now_ms), m);
    }
}

/// An envelope that fails again and again, each time within an hour of the last: the first four
/// failures are reported and the relay keeps the envelope, the fifth drops it by acknowledging it.
/// Until then it is not refused.
pub proof fn failing_envelopes_are_dropped(
    l: LedgerView,
    id: u128,
    rounds: Seq<FailureRound>,
    why: Seq<char>,
    now_ms: u64,
)
    requires
        sound(l),
        rounds.len() < MAX_FAILED_DECRYPTS_PER_ENVELOPE,
        in_a_row(l, id, rounds, now_ms),
    ensures
        unreadable(after_rounds(l, id, rounds), id, why, now_ms).1 == if rounds.len() + 1
            < MAX_FAILED_DECRYPTS_PER_ENVELOPE {
            Err::<Seq<u128>, Seq<char>>(why)
        } else {
            Ok::<Seq<u128>, Seq<char>>(seq![id])
        },
        !(reviewed(after_rounds(l, id, rounds), id, now_ms).1 is Poisoned),
{
    row_is_counted(l, id, rounds, now_ms);
}

} // verus!
