//! The order of messages and how many of them are kept.
use crate::seqs;
use crate::seqs::Duplicate;
use crate::store::MessageView;
use crate::store::MessagingStore;
use crate::store::StoreView;
use crate::store::StoredMessage;
use crate::strmap::StringMap;
use crate::text;
use std::cmp::Ordering;
use vstd::prelude::*;

verus! {

/// How many messages of one contact are kept.
pub const MAX_MESSAGES_PER_CONTACT: usize = 10_000;

/// Where the first difference decides: `a` comes before `b`.
pub open spec fn text_before(a: Seq<char>, b: Seq<char>) -> bool
    decreases a.len(),
{
    if b.len() == 0 {
        false
    } else if a.len() == 0 {
        true
    } else if a[0] != b[0] {
        a[0] < b[0]
    } else {
        text_before(a.drop_first(), b.drop_first())
    }
}

/// When a message came in; a message of one's own when it was written.
pub open spec fn arrival(m: MessageView) -> u64 {
    match m.received_at_ms {
        Some(t) => t,
        None => m.timestamp,
    }
}

/// By contact, then by the time of writing, then by the time of arrival.
pub open spec fn before(a: MessageView, b: MessageView) -> bool {
    if a.contact_id != b.contact_id {
        text_before(a.contact_id, b.contact_id)
    } else if a.timestamp != b.timestamp {
        a.timestamp < b.timestamp
    } else {
        arrival(a) < arrival(b)
    }
}

/// The messages with one more, behind every message that does not come after it.
pub open spec fn placed(s: Seq<MessageView>, m: MessageView) -> Seq<MessageView>
    decreases s.len(),
{
    if s.len() > 0 && before(m, s.last()) {
        placed(s.drop_last(), m).push(s.last())
    } else {
        s.push(m)
    }
}

/// The messages in order; messages of which neither comes before the other stay as they were.
pub open spec fn in_order(s: Seq<MessageView>) -> Seq<MessageView>
    decreases s.len(),
{
    if s.len() == 0 {
        s
    } else {
        placed(in_order(s.drop_last()), s.last())
    }
}

/// Whether the message belongs to the contact.
pub open spec fn of_contact(c: Seq<char>) -> spec_fn(MessageView) -> bool {
    |m: MessageView| m.contact_id == c
}

/// How many messages of a contact there are.
pub open spec fn count_of(s: Seq<MessageView>, c: Seq<char>) -> nat {
    s.filter(of_contact(c)).len()
}

/// Some contact has more messages than are kept.
pub open spec fn any_over(s: Seq<MessageView>) -> bool {
    exists|i: int|
        0 <= i < s.len() && count_of(s, (#[trigger] s[i]).contact_id) > MAX_MESSAGES_PER_CONTACT
}

/// The last messages of each contact, as many as are kept.
pub open spec fn newest(s: Seq<MessageView>) -> Seq<MessageView>
    decreases s.len(),
{
    if s.len() == 0 {
        s
    } else {
        let rest = s.drop_first();
        if count_of(rest, s[0].contact_id) < MAX_MESSAGES_PER_CONTACT {
            seq![s[0]] + newest(rest)
        } else {
            newest(rest)
        }
    }
}

/// The messages that are kept: all of them, or where a contact has too many, the newest of each
/// contact in order.
pub open spec fn kept(s: Seq<MessageView>) -> Seq<MessageView> {
    if any_over(s) {
        newest(in_order(s))
    } else {
        s
    }
}

/// Whether the first difference puts `a` before `b`.
fn text_is_before(a: &str, b: &str) -> (r: bool)
    ensures
        r == text_before(a@, b@),
{
    let x = text::chars_of(a);
    let y = text::chars_of(b);
    let mut i: usize = 0;
    proof {
        assert(x@.skip(0) =~= x@);
        assert(y@.skip(0) =~= y@);
    }
    while i < x.len() && i < y.len()
        invariant
            i <= x@.len(),
            i <= y@.len(),
            text_before(a@, b@) == text_before(x@.skip(i as int), y@.skip(i as int)),
        decreases x@.len() - i,
    {
        proof {
            let p = x@.skip(i as int);
            let q = y@.skip(i as int);
            assert(p[0] == x@[i as int]);
            assert(q[0] == y@[i as int]);
            assert(p.drop_first() =~= x@.skip(i + 1));
            assert(q.drop_first() =~= y@.skip(i + 1));
        }
        if x[i] != y[i] {
            return x[i] < y[i];
        }
        i = i + 1;
    }
    i < y.len()
}

fn arrival_of(m: &StoredMessage) -> (r: u64)
    ensures
        r == arrival(m@),
{
    match m.received_at_ms {
        Some(t) => t,
        None => m.timestamp,
    }
}

/// Whether a message comes before another.
pub fn is_before(a: &StoredMessage, b: &StoredMessage) -> (r: bool)
    ensures
        r == before(a@, b@),
{
    if a.contact_id != b.contact_id {
        text_is_before(a.contact_id.as_str(), b.contact_id.as_str())
    } else if a.timestamp != b.timestamp {
        a.timestamp < b.timestamp
    } else {
        arrival_of(a) < arrival_of(b)
    }
}

/// Which of two messages comes first.
pub fn message_order(a: &StoredMessage, b: &StoredMessage) -> (r: Ordering)
    ensures
        r == if before(a@, b@) {
            Ordering::Less
        } else if before(b@, a@) {
            Ordering::Greater
        } else {
            Ordering::Equal
        },
{
    if is_before(a, b) {
        Ordering::Less
    } else if is_before(b, a) {
        Ordering::Greater
    } else {
        Ordering::Equal
    }
}

/// `slice::sort_by` of the standard library sorts by a total order and keeps the order of equal
/// elements; here the order is `message_order`, which compares by contact, time of writing and
/// time of arrival.
#[verifier::external_body]
pub(crate) fn sort_messages(messages: &mut Vec<StoredMessage>)
    ensures
        seqs::views(final(messages)@) == in_order(seqs::views(old(messages)@)),
{
    messages.sort_by(|a, b| message_order(a, b));
}

/// The counts of messages by contact.
pub open spec fn tallies(s: Seq<MessageView>, m: Map<Seq<char>, usize>) -> bool {
    &&& forall|c: Seq<char>| #[trigger]
        m.contains_key(c) ==> m[c] == count_of(s, c) && m[c] > 0
    &&& forall|c: Seq<char>| count_of(s, c) > 0 ==> #[trigger] m.contains_key(c)
}

proof fn count_push(s: Seq<MessageView>, m: MessageView, c: Seq<char>)
    ensures
        count_of(s.push(m), c) == count_of(s, c) + if m.contact_id == c {
            1nat
        } else {
            0
        },
        count_of(s, c) <= s.len(),
{
    seqs::filter_push(s, m, of_contact(c));
    seqs::filter_members(s, of_contact(c));
}

proof fn count_front(m: MessageView, s: Seq<MessageView>, c: Seq<char>)
    ensures
        count_of(seq![m] + s, c) == count_of(s, c) + if m.contact_id == c {
            1nat
        } else {
            0
        },
{
    let p = of_contact(c);
    Seq::filter_distributes_over_add(seq![m], s, p);
    let e = Seq::<MessageView>::empty();
    assert(seq![m] =~= e.push(m));
    seqs::filter_empty(e, p);
    seqs::filter_push(e, m, p);
}

/// Whether some contact has more messages than are kept.
fn has_any_over(messages: &Vec<StoredMessage>) -> (r: bool)
    ensures
        r == any_over(seqs::views(messages@)),
{
    let ghost all = seqs::views(messages@);
    let mut counts: StringMap<usize> = StringMap::new();
    let mut over = false;
    let mut i: usize = 0;
    proof {
        assert forall|c: Seq<char>| count_of(all.take(0), c) == 0 by {
            seqs::filter_empty(all.take(0), of_contact(c));
        }
    }
    while i < messages.len()
        invariant
            i <= messages@.len(),
            all == seqs::views(messages@),
            tallies(all.take(i as int), counts@),
            over == exists|j: int|
                0 <= j < i && count_of(all.take(i as int), (#[trigger] all[j]).contact_id)
                    > MAX_MESSAGES_PER_CONTACT,
        decreases messages@.len() - i,
    {
        let ghost s = all.take(i as int);
        let ghost c0 = all[i as int].contact_id;
        let id = messages[i].contact_id.clone();
        let n: usize = match counts.get(id.as_str()) {
            Some(n) => *n,
            None => 0,
        };
        proof {
            seqs::take_step(all, i as int);
            count_push(s, all[i as int], c0);
            assert forall|c: Seq<char>| true implies #[trigger] count_of(s.push(all[i as int]), c)
                == count_of(s, c) + if c0 == c {
                1nat
            } else {
                0
            } by {
                count_push(s, all[i as int], c);
            }
            assert(n == count_of(s, c0));
        }
        if n >= MAX_MESSAGES_PER_CONTACT {
            proof {
                assert(count_of(all.take(i + 1), all[i as int].contact_id)
                    > MAX_MESSAGES_PER_CONTACT);
            }
            over = true;
        }
        proof {
            if over && n < MAX_MESSAGES_PER_CONTACT {
                let j = choose|j: int|
                    0 <= j < i && count_of(all.take(i as int), (#[trigger] all[j]).contact_id)
                        > MAX_MESSAGES_PER_CONTACT;
                assert(count_of(all.take(i + 1), all[j].contact_id) > MAX_MESSAGES_PER_CONTACT);
            }
            if exists|j: int|
                0 <= j < i + 1 && count_of(all.take(i + 1), (#[trigger] all[j]).contact_id)
                    > MAX_MESSAGES_PER_CONTACT {
                let j = choose|j: int|
                    0 <= j < i + 1 && count_of(all.take(i + 1), (#[trigger] all[j]).contact_id)
                        > MAX_MESSAGES_PER_CONTACT;
                if all[j].contact_id == c0 {
                    assert(n >= MAX_MESSAGES_PER_CONTACT);
                } else {
                    assert(j < i);
                    assert(count_of(s, all[j].contact_id) > MAX_MESSAGES_PER_CONTACT);
                }
            }
        }
        counts.insert(id, n + 1);
        i = i + 1;
    }
    proof {
        assert(all.take(i as int) =~= all);
    }
    over
}

/// The last messages of each contact, as many as are kept.
fn keep_newest(messages: Vec<StoredMessage>) -> (r: Vec<StoredMessage>)
    ensures
        seqs::views(r@) == newest(seqs::views(messages@)),
{
    let ghost all = seqs::views(messages@);
    let mut seen: StringMap<usize> = StringMap::new();
    let mut back: Vec<StoredMessage> = Vec::new();
    let total: usize = messages.len();
    let mut n: usize = total;
    proof {
        assert(all.skip(n as int) =~= Seq::<MessageView>::empty());
        assert forall|c: Seq<char>| count_of(all.skip(n as int), c) == 0 by {
            seqs::filter_empty(all.skip(n as int), of_contact(c));
        }
        assert(seqs::views(back@).reverse() =~= newest(all.skip(n as int)));
    }
    while n > 0
        invariant
            n <= total,
            total == messages@.len(),
            all == seqs::views(messages@),
            tallies(all.skip(n as int), seen@),
            seqs::views(back@).reverse() == newest(all.skip(n as int)),
        decreases n,
    {
        let ghost s = all.skip(n as int);
        let ghost m0 = all[n - 1];
        let m = messages[n - 1].duplicate();
        let id = m.contact_id.clone();
        let count: usize = match seen.get(id.as_str()) {
            Some(k) => *k,
            None => 0,
        };
        proof {
            assert(all.skip(n - 1) =~= seq![m0] + s);
            assert(all.skip(n - 1).drop_first() =~= s);
            assert forall|c: Seq<char>| true implies #[trigger] count_of(seq![m0] + s, c)
                == count_of(s, c) + if m0.contact_id == c {
                1nat
            } else {
                0
            } by {
                count_front(m0, s, c);
            }
            assert(count == count_of(s, m0.contact_id));
            seqs::filter_members(s, of_contact(m0.contact_id));
        }
        if count < MAX_MESSAGES_PER_CONTACT {
            proof {
                let b = seqs::views(back@);
                seqs::views_push(back@, m);
                assert(b.push(m0).reverse() =~= seq![m0] + b.reverse());
            }
            back.push(m);
        }
        seen.insert(id, count + 1);
        n = n - 1;
    }
    proof {
        assert(all.skip(0) =~= all);
    }
    let ghost rev = back@;
    let mut out: Vec<StoredMessage> = Vec::new();
    while back.len() > 0
        invariant
            back@ == rev.take(back@.len() as int),
            back@.len() <= rev.len(),
            out@ == rev.skip(back@.len() as int).reverse(),
        decreases back@.len(),
    {
        let ghost k = back@.len() - 1;
        let e = back.pop();
        if let Some(e) = e {
            proof {
                assert(e == rev[k]);
                assert(rev.skip(k).reverse() =~= rev.skip(k + 1).reverse().push(rev[k]));
            }
            out.push(e);
        }
        proof {
            assert(back@ =~= rev.take(k));
        }
    }
    proof {
        assert(rev.skip(0) =~= rev);
        assert(seqs::views(out@) =~= seqs::views(rev).reverse());
    }
    out
}

/// Drops the oldest messages of contacts that have too many.
pub fn prune_old_messages(store: &mut MessagingStore)
    ensures
        final(store)@ == (StoreView { messages: kept(old(store)@.messages), ..old(store)@ }),
{
    if !has_any_over(&store.messages) {
        return;
    }
    let mut all: Vec<StoredMessage> = Vec::new();
    std::mem::swap(&mut all, &mut store.messages);
    sort_messages(&mut all);
    store.messages = keep_newest(all);
}

// ---------------------------------------------------------------------------------------------
// Laws.
// ---------------------------------------------------------------------------------------------

proof fn text_order_is_total(a: Seq<char>, b: Seq<char>)
    ensures
        text_before(a, b) ==> a != b && !text_before(b, a),
        a != b ==> text_before(a, b) || text_before(b, a),
    decreases a.len(),
{
    if a.len() > 0 && b.len() > 0 && a[0] == b[0] {
        text_order_is_total(a.drop_first(), b.drop_first());
        if a.drop_first() == b.drop_first() {
            assert(a =~= seq![a[0]] + a.drop_first());
            assert(b =~= seq![b[0]] + b.drop_first());
        }
    } else if a.len() == 0 && b.len() == 0 {
        assert(a =~= b);
    }
}

proof fn text_order_is_transitive(a: Seq<char>, b: Seq<char>, c: Seq<char>)
    requires
        text_before(a, b),
        text_before(b, c),
    ensures
        text_before(a, c),
    decreases a.len(),
{
    if a.len() > 0 && a[0] == b[0] && b[0] == c[0] {
        text_order_is_transitive(a.drop_first(), b.drop_first(), c.drop_first());
    }
}

/// Not coming after is transitive.
proof fn order_is_transitive(a: MessageView, b: MessageView, c: MessageView)
    requires
        !before(b, a),
        !before(c, b),
    ensures
        !before(c, a),
{
    text_order_is_total(a.contact_id, b.contact_id);
    text_order_is_total(b.contact_id, c.contact_id);
    text_order_is_total(a.contact_id, c.contact_id);
    if a.contact_id != b.contact_id && b.contact_id != c.contact_id {
        text_order_is_transitive(a.contact_id, b.contact_id, c.contact_id);
    }
}

/// No message comes before an earlier one.
pub open spec fn ordered(s: Seq<MessageView>) -> bool {
    forall|i: int, j: int| 0 <= i < j < s.len() ==> !before(#[trigger] s[j], #[trigger] s[i])
}

proof fn placed_is_ordered(s: Seq<MessageView>, m: MessageView)
    requires
        ordered(s),
    ensures
        ordered(placed(s, m)),
        placed(s, m).to_multiset() == s.push(m).to_multiset(),
        forall|i: int|
            0 <= i < placed(s, m).len() ==> (#[trigger] placed(s, m)[i]) == m || s.contains(
                placed(s, m)[i],
            ),
    decreases s.len(),
{
    broadcast use vstd::seq_lib::group_to_multiset_ensures;

    let p = placed(s, m);
    if s.len() > 0 && before(m, s.last()) {
        let t = s.drop_last();
        placed_is_ordered(t, m);
        let q = placed(t, m);
        text_order_is_total(m.contact_id, s.last().contact_id);
        assert forall|i: int| 0 <= i < q.len() implies !before(s.last(), #[trigger] q[i]) by {
            if q[i] != m {
                assert(t.contains(q[i]));
                let k = choose|k: int| 0 <= k < t.len() && t[k] == q[i];
                assert(s[k] == q[i]);
            }
        }
        assert forall|i: int, j: int| 0 <= i < j < p.len() implies !before(
            #[trigger] p[j],
            #[trigger] p[i],
        ) by {
            if j < q.len() {
                assert(!before(q[j], q[i]));
            } else {
                assert(p[i] == q[i]);
            }
        }
        assert(s =~= t.push(s.last()));
        assert(p.to_multiset() =~= s.push(m).to_multiset());
        assert forall|i: int| 0 <= i < p.len() implies (#[trigger] p[i]) == m || s.contains(
            p[i],
        ) by {
            if i < q.len() {
                assert(p[i] == q[i]);
                if q[i] != m {
                    assert(t.contains(q[i]));
                    let k = choose|k: int| 0 <= k < t.len() && t[k] == q[i];
                    assert(s[k] == q[i]);
                }
            } else {
                assert(s[s.len() - 1] == p[i]);
            }
        }
    } else {
        assert forall|i: int, j: int| 0 <= i < j < p.len() implies !before(
            #[trigger] p[j],
            #[trigger] p[i],
        ) by {
            if j == s.len() && i < s.len() - 1 {
                assert(!before(s[s.len() - 1], s[i]));
                order_is_transitive(s[i], s.last(), m);
            }
        }
        assert forall|i: int| 0 <= i < p.len() implies (#[trigger] p[i]) == m || s.contains(
            p[i],
        ) by {
            if i < s.len() {
                assert(s[i] == p[i]);
            }
        }
    }
}

/// Putting messages in order keeps every message and leaves none before an earlier one.
pub proof fn in_order_is_ordered(s: Seq<MessageView>)
    ensures
        ordered(in_order(s)),
        in_order(s).to_multiset() == s.to_multiset(),
    decreases s.len(),
{
    broadcast use vstd::seq_lib::group_to_multiset_ensures;

    if s.len() > 0 {
        let t = s.drop_last();
        in_order_is_ordered(t);
        placed_is_ordered(in_order(t), s.last());
        assert(s =~= t.push(s.last()));
    }
}

/// At most 10000 messages of each contact are kept.
pub proof fn newest_is_bounded(s: Seq<MessageView>, c: Seq<char>)
    ensures
        count_of(newest(s), c) == if count_of(s, c) <= MAX_MESSAGES_PER_CONTACT {
            count_of(s, c)
        } else {
            MAX_MESSAGES_PER_CONTACT as nat
        },
    decreases s.len(),
{
    if s.len() > 0 {
        let rest = s.drop_first();
        newest_is_bounded(rest, c);
        assert(s =~= seq![s[0]] + rest);
        count_front(s[0], rest, c);
        count_front(s[0], newest(rest), c);
    }
}

/// After pruning no contact has more than 10000 messages.
pub proof fn kept_messages_are_bounded(s: Seq<MessageView>, c: Seq<char>)
    ensures
        count_of(kept(s), c) <= MAX_MESSAGES_PER_CONTACT,
{
    if any_over(s) {
        newest_is_bounded(in_order(s), c);
    } else if count_of(s, c) > 0 {
        seqs::filter_members(s, of_contact(c));
        let f = s.filter(of_contact(c));
        assert(f.contains(f[0]));
        assert(s.contains(f[0]));
        let i = choose|i: int| 0 <= i < s.len() && s[i] == f[0];
        assert(s[i].contact_id == c);
    }
}

/// Every message that was dropped has 10000 kept messages of its contact behind it, none of which
/// comes before it.
pub proof fn dropped_messages_are_the_oldest(s: Seq<MessageView>, i: int, j: int)
    requires
        ordered(s),
        0 <= i < s.len(),
        count_of(s.skip(i + 1), s[i].contact_id) >= MAX_MESSAGES_PER_CONTACT,
        i < j < s.len(),
    ensures
        count_of(newest(s.skip(i + 1)), s[i].contact_id) == MAX_MESSAGES_PER_CONTACT,
        newest(s.skip(i)) == newest(s.skip(i + 1)),
        !before(s[j], s[i]),
{
    let t = s.skip(i);
    assert(t.drop_first() =~= s.skip(i + 1));
    assert(t[0] == s[i]);
    newest_is_bounded(s.skip(i + 1), s[i].contact_id);
}

/// Where no contact has too many messages, nothing changes.
pub proof fn small_histories_are_untouched(s: Seq<MessageView>)
    requires
        forall|c: Seq<char>| #[trigger] count_of(s, c) <= MAX_MESSAGES_PER_CONTACT,
    ensures
        kept(s) == s,
{
}

} // verus!
