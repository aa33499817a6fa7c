//! The concurrent maps in which the relay keeps its state.
use crate::frames::EnvelopeView;
use crate::relay::mailbox::BundleView;
use crate::relay::mailbox::EnvelopeQueue;
use crate::relay::mailbox::HostedBundle;
use crate::relay::mailbox::MailboxAuth;
use crate::relay::mailbox::MailboxAuthView;
use crate::seqs;
use crate::seqs::Duplicate;
use crate::strmap;
use dashmap::DashMap;
use vstd::prelude::*;

verus! {

/// The map type of the crate `dashmap`.
#[verifier::external_type_specification]
#[verifier::external_body]
#[verifier::reject_recursive_types(K)]
#[verifier::reject_recursive_types(V)]
#[verifier::reject_recursive_types(S)]
pub struct ExDashMap<K, V, S>(dashmap::DashMap<K, V, S>);

/// What a map of mailboxes holds.
pub uninterp spec fn mailbox_shelf(m: DashMap<String, MailboxAuth>) -> Map<
    Seq<char>,
    MailboxAuthView,
>;

/// What a map of queues holds.
pub uninterp spec fn queue_shelf(m: DashMap<String, EnvelopeQueue>) -> Map<
    Seq<char>,
    Seq<EnvelopeView>,
>;

/// What a map of live sockets holds.
pub uninterp spec fn socket_shelf(m: DashMap<String, u64>) -> Map<Seq<char>, u64>;

/// What a map of hosted bundles holds.
pub uninterp spec fn bundle_shelf(m: DashMap<String, HostedBundle>) -> Map<Seq<char>, BundleView>;

/// The map holds nothing.
pub open spec fn no_entries<W>(m: Map<Seq<char>, W>) -> bool {
    m == Map::<Seq<char>, W>::empty()
}

/// The number of keys, of which there are finitely many.
pub open spec fn counts<W>(m: Map<Seq<char>, W>, n: usize) -> bool {
    m.dom().finite() && n == m.dom().len()
}

/// A value that the relay keeps in a map by text.
pub(crate) trait Shelved: Duplicate {
    /// What a map of such values holds.
    spec fn shelf(m: DashMap<String, Self>) -> Map<Seq<char>, Self::V>;
}

impl Shelved for MailboxAuth {
    open spec fn shelf(m: DashMap<String, Self>) -> Map<Seq<char>, MailboxAuthView> {
        mailbox_shelf(m)
    }
}

impl Shelved for EnvelopeQueue {
    open spec fn shelf(m: DashMap<String, Self>) -> Map<Seq<char>, Seq<EnvelopeView>> {
        queue_shelf(m)
    }
}

impl Shelved for u64 {
    open spec fn shelf(m: DashMap<String, Self>) -> Map<Seq<char>, u64> {
        socket_shelf(m)
    }
}

impl Shelved for HostedBundle {
    open spec fn shelf(m: DashMap<String, Self>) -> Map<Seq<char>, BundleView> {
        bundle_shelf(m)
    }
}

/// `DashMap::new` makes an empty map.
#[verifier::external_body]
pub(crate) fn new_mailbox_shelf() -> (r: DashMap<String, MailboxAuth>)
    ensures
        no_entries(mailbox_shelf(r)),
{
    DashMap::new()
}

/// `DashMap::new` makes an empty map.
#[verifier::external_body]
pub(crate) fn new_queue_shelf() -> (r: DashMap<String, EnvelopeQueue>)
    ensures
        no_entries(queue_shelf(r)),
{
    DashMap::new()
}

/// `DashMap::new` makes an empty map.
#[verifier::external_body]
pub(crate) fn new_socket_shelf() -> (r: DashMap<String, u64>)
    ensures
        no_entries(socket_shelf(r)),
{
    DashMap::new()
}

/// `DashMap::new` makes an empty map.
#[verifier::external_body]
pub(crate) fn new_bundle_shelf() -> (r: DashMap<String, HostedBundle>)
    ensures
        no_entries(bundle_shelf(r)),
{
    DashMap::new()
}

/// `DashMap::view` hands the value under a key to a function, here one that copies it; without
/// the key it gives nothing.
#[verifier::external_body]
pub(crate) fn shelf_get<T: Shelved>(m: &DashMap<String, T>, key: &str) -> (r: Option<T>)
    ensures
        seqs::opt(r) == if T::shelf(*m).contains_key(key@) {
            Some(T::shelf(*m)[key@])
        } else {
            None
        },
{
    m.view(key, |_, v| v.duplicate())
}

/// `DashMap::insert` writes the value under the key and leaves every other key alone.
#[verifier::external_body]
pub(crate) fn shelf_insert<T: Shelved>(m: &mut DashMap<String, T>, key: String, value: T)
    ensures
        T::shelf(*final(m)) == T::shelf(*old(m)).insert(key@, value@),
{
    m.insert(key, value);
}

/// `DashMap::remove` takes the key out, hands back its value where there was one, and leaves
/// every other key alone.
#[verifier::external_body]
pub(crate) fn shelf_remove<T: Shelved>(m: &mut DashMap<String, T>, key: &str) -> (r: Option<T>)
    ensures
        T::shelf(*final(m)) == T::shelf(*old(m)).remove(key@),
        seqs::opt(r) == if T::shelf(*old(m)).contains_key(key@) {
            Some(T::shelf(*old(m))[key@])
        } else {
            None
        },
{
    m.remove(key).map(|e| e.1)
}

/// `DashMap::len` counts the keys, of which there are finitely many.
#[verifier::external_body]
pub(crate) fn shelf_len<T: Shelved>(m: &DashMap<String, T>) -> (r: usize)
    ensures
        counts(T::shelf(*m), r),
{
    m.len()
}

/// `DashMap::iter` visits every key once, in no particular order.
#[verifier::external_body]
pub(crate) fn shelf_keys<T: Shelved>(m: &DashMap<String, T>) -> (r: Vec<String>)
    ensures
        seqs::views(r@).no_duplicates(),
        forall|k: Seq<char>| #[trigger]
            seqs::views(r@).contains(k) <==> T::shelf(*m).contains_key(k),
{
    m.iter().map(|e| e.key().clone()).collect()
}

/// Every entry of a map, in no particular order.
pub(crate) fn shelf_entries<T: Shelved>(m: &DashMap<String, T>) -> (r: Vec<(String, T)>)
    ensures
        strmap::assoc(seqs::views(r@)) == T::shelf(*m),
        strmap::distinct_keys(seqs::views(r@)),
{
    let ghost shelf = T::shelf(*m);
    let keys = shelf_keys(m);
    let ghost ks = seqs::views(keys@);
    let mut out: Vec<(String, T)> = Vec::new();
    let mut i: usize = 0;
    while i < keys.len()
        invariant
            i <= keys@.len(),
            ks == seqs::views(keys@),
            shelf == T::shelf(*m),
            forall|k: Seq<char>| #[trigger] ks.contains(k) <==> shelf.contains_key(k),
            out@.len() == i,
            forall|j: int|
                0 <= j < i ==> (#[trigger] out@[j]).0@ == ks[j] && out@[j].1@ == shelf[ks[j]],
        decreases keys@.len() - i,
    {
        proof {
            assert(ks.contains(ks[i as int]));
        }
        let found = shelf_get(m, keys[i].as_str());
        if let Some(v) = found {
            out.push((keys[i].clone(), v));
        }
        i = i + 1;
    }
    proof {
        let s = seqs::views(out@);
        assert forall|a: int, b: int| 0 <= a < b < s.len() implies (#[trigger] s[a]).0 != (
        #[trigger] s[b]).0 by {
            assert(ks[a] != ks[b]);
        }
        assert forall|a: int| 0 <= a < s.len() implies shelf.contains_key((#[trigger] s[a]).0)
            && shelf[s[a].0] == s[a].1 by {
            assert(ks.contains(ks[a]));
        }
        assert forall|k: Seq<char>| #[trigger] shelf.contains_key(k) implies exists|a: int|
            0 <= a < s.len() && (#[trigger] s[a]).0 == k by {
            assert(ks.contains(k));
            let a = choose|a: int| 0 <= a < ks.len() && ks[a] == k;
            assert(s[a].0 == k);
        }
        strmap::assoc_is(s, shelf);
    }
    out
}

} // verus!
