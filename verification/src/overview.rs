//! What the user sees: contacts and conversations.
use crate::connections;
use crate::messages;
use crate::routes;
use crate::seqs;
use crate::seqs::Duplicate;
use crate::store::ContactView;
use crate::store::MessageView;
use crate::store::MessagingStore;
use crate::store::RouteView;
use crate::store::StoreView;
use crate::store::StoredContact;
use crate::store::StoredMessage;
use crate::text;
use vstd::prelude::*;

verus! {

/// The messages exchanged with a contact, in order.
pub struct Conversation {
    pub contact_id: String,
    pub messages: Vec<StoredMessage>,
}

/// The messages exchanged with a contact, in order.
#[verifier::ext_equal]
pub struct ConversationView {
    pub contact_id: Seq<char>,
    pub messages: Seq<MessageView>,
}

impl View for Conversation {
    type V = ConversationView;

    open spec fn view(&self) -> ConversationView {
        ConversationView { contact_id: self.contact_id@, messages: seqs::views(self.messages@) }
    }
}

/// What the user sees.
pub struct MessagingSnapshot {
    pub my_recipient_id: String,
    pub my_recipient_ids: Vec<String>,
    pub contacts: Vec<StoredContact>,
    pub messages: Vec<Conversation>,
}

/// What the user sees.
#[verifier::ext_equal]
pub struct SnapshotView {
    pub my_recipient_id: Seq<char>,
    pub my_recipient_ids: Seq<Seq<char>>,
    pub contacts: Seq<ContactView>,
    pub messages: Seq<ConversationView>,
}

impl View for MessagingSnapshot {
    type V = SnapshotView;

    open spec fn view(&self) -> SnapshotView {
        SnapshotView {
            my_recipient_id: self.my_recipient_id@,
            my_recipient_ids: seqs::views(self.my_recipient_ids@),
            contacts: seqs::views(self.contacts@),
            messages: seqs::views(self.messages@),
        }
    }
}

/// Whom the messages were exchanged with.
pub open spec fn partners(s: Seq<MessageView>) -> Seq<Seq<char>> {
    s.map_values(|m: MessageView| m.contact_id)
}

/// The conversation with a contact.
pub open spec fn conversation(s: Seq<MessageView>, id: Seq<char>) -> ConversationView {
    ConversationView {
        contact_id: id,
        messages: messages::in_order(s.filter(messages::of_contact(id))),
    }
}

/// The conversations, one for each contact that messages were exchanged with.
pub open spec fn conversations(s: Seq<MessageView>) -> Seq<ConversationView> {
    text::distinct(partners(s)).map_values(|id: Seq<char>| conversation(s, id))
}

/// The mailboxes in use.
pub open spec fn mailboxes(s: Seq<RouteView>) -> Seq<Seq<char>> {
    s.filter(connections::in_use()).map_values(|r: RouteView| r.mailbox_id)
}

/// What the user sees of a store.
pub open spec fn seen(st: StoreView) -> SnapshotView {
    let ids = mailboxes(st.local_routes);
    SnapshotView {
        my_recipient_id: if ids.len() > 0 {
            ids[0]
        } else {
            match st.local_profile {
                Some(p) => p.mailbox_id,
                None => Seq::empty(),
            }
        },
        my_recipient_ids: ids,
        contacts: st.contacts,
        messages: conversations(st.messages),
    }
}

fn partner_ids(all: &Vec<StoredMessage>) -> (r: Vec<String>)
    ensures
        seqs::views(r@) == text::distinct(partners(seqs::views(all@))),
{
    let ghost ids = partners(seqs::views(all@));
    let mut out: Vec<String> = Vec::new();
    let mut i: usize = 0;
    proof {
        assert(ids.take(0) =~= Seq::<Seq<char>>::empty());
        assert(seqs::views(out@) =~= text::distinct(ids.take(0)));
    }
    while i < all.len()
        invariant
            i <= all@.len(),
            ids == partners(seqs::views(all@)),
            seqs::views(out@) == text::distinct(ids.take(i as int)),
        decreases all@.len() - i,
    {
        proof {
            seqs::take_step(ids, i as int);
            text::distinct_push(ids.take(i as int), ids[i as int]);
            assert(ids[i as int] == all@[i as int]@.contact_id);
        }
        text::push_distinct(&mut out, all[i].contact_id.as_str());
        i = i + 1;
    }
    proof {
        assert(ids.take(i as int) =~= ids);
    }
    out
}

fn conversation_with(all: &Vec<StoredMessage>, id: &str) -> (r: Conversation)
    ensures
        r@ == conversation(seqs::views(all@), id@),
{
    let ghost w = seqs::views(all@);
    let ghost p = messages::of_contact(id@);
    let mut out: Vec<StoredMessage> = Vec::new();
    let mut i: usize = 0;
    proof {
        seqs::filter_empty(w.take(0), p);
        assert(seqs::views(out@) =~= Seq::<MessageView>::empty());
    }
    while i < all.len()
        invariant
            i <= all@.len(),
            w == seqs::views(all@),
            p == messages::of_contact(id@),
            seqs::views(out@) == w.take(i as int).filter(p),
        decreases all@.len() - i,
    {
        proof {
            seqs::filter_take_step(w, i as int, p);
            assert(w[i as int] == all@[i as int]@);
        }
        if text::same_text(all[i].contact_id.as_str(), id) {
            let copy = all[i].duplicate();
            proof {
                seqs::views_push(out@, copy);
            }
            out.push(copy);
        }
        i = i + 1;
    }
    proof {
        assert(w.take(i as int) =~= w);
    }
    messages::sort_messages(&mut out);
    Conversation { contact_id: id.to_string(), messages: out }
}

fn all_conversations(all: &Vec<StoredMessage>) -> (r: Vec<Conversation>)
    ensures
        seqs::views(r@) == conversations(seqs::views(all@)),
{
    let ids = partner_ids(all);
    let ghost w = seqs::views(all@);
    let ghost target = conversations(w);
    let mut out: Vec<Conversation> = Vec::new();
    let mut i: usize = 0;
    proof {
        assert(seqs::views(out@) =~= target.take(0));
    }
    while i < ids.len()
        invariant
            i <= ids@.len(),
            w == seqs::views(all@),
            seqs::views(ids@) == text::distinct(partners(w)),
            target == conversations(w),
            seqs::views(out@) == target.take(i as int),
        decreases ids@.len() - i,
    {
        let c = conversation_with(all, ids[i].as_str());
        proof {
            seqs::take_step(target, i as int);
            assert(seqs::views(ids@)[i as int] == ids@[i as int]@);
            seqs::views_push(out@, c);
        }
        out.push(c);
        i = i + 1;
    }
    proof {
        assert(target.take(i as int) =~= target);
    }
    out
}

fn mailboxes_in_use(store: &MessagingStore) -> (r: Vec<String>)
    ensures
        seqs::views(r@) == mailboxes(store@.local_routes),
{
    let ghost w = seqs::views(store.local_routes@);
    let mut out: Vec<String> = Vec::new();
    let mut i: usize = 0;
    proof {
        seqs::filter_empty(w.take(0), connections::in_use());
        assert(seqs::views(out@) =~= mailboxes(w.take(0)));
    }
    while i < store.local_routes.len()
        invariant
            i <= store.local_routes@.len(),
            w == seqs::views(store.local_routes@),
            seqs::views(out@) == mailboxes(w.take(i as int)),
        decreases store.local_routes@.len() - i,
    {
        proof {
            seqs::filter_take_step(w, i as int, connections::in_use());
            assert(w[i as int] == store.local_routes@[i as int]@);
        }
        if store.local_routes[i].active {
            let id = store.local_routes[i].mailbox_id.clone();
            proof {
                seqs::views_push(out@, id);
                assert(mailboxes(w.take(i + 1)) =~= mailboxes(w.take(i as int)).push(id@));
            }
            out.push(id);
        }
        i = i + 1;
    }
    proof {
        assert(w.take(i as int) =~= w);
    }
    out
}

/// What the user sees, once expired routes are cleaned up.
pub fn snapshot(store: &mut MessagingStore, now_ms: u64) -> (r: MessagingSnapshot)
    ensures
        final(store)@ == routes::cleaned(old(store)@, now_ms),
        r@ == seen(final(store)@),
{
    routes::cleanup_expired_routes(store, now_ms);
    let messages = all_conversations(&store.messages);
    let ids = mailboxes_in_use(store);
    let first = if ids.len() > 0 {
        ids[0].clone()
    } else {
        match &store.local_profile {
            Some(p) => p.mailbox_id.clone(),
            None => String::new(),
        }
    };
    MessagingSnapshot {
        my_recipient_id: first,
        my_recipient_ids: ids,
        contacts: seqs::duplicate_vec(&store.contacts),
        messages,
    }
}

/// Every message is shown, in the conversation with its contact, and each contact has one
/// conversation only.
pub proof fn every_message_is_shown(s: Seq<MessageView>, i: int)
    requires
        0 <= i < s.len(),
    ensures
        exists|k: int|
            0 <= k < conversations(s).len() && (#[trigger] conversations(s)[k]).contact_id
                == s[i].contact_id && conversations(s)[k].messages.to_multiset().contains(s[i]),
        forall|a: int, b: int|
            0 <= a < b < conversations(s).len() ==> (#[trigger] conversations(s)[a]).contact_id != (
            #[trigger] conversations(s)[b]).contact_id,
{
    broadcast use vstd::seq_lib::group_to_multiset_ensures;

    let ids = partners(s);
    text::distinct_members(ids);
    let d = text::distinct(ids);
    assert(ids[i] == s[i].contact_id);
    assert(ids.contains(s[i].contact_id));
    assert(d.contains(s[i].contact_id));
    let k = choose|k: int| 0 <= k < d.len() && d[k] == s[i].contact_id;
    let p = messages::of_contact(s[i].contact_id);
    seqs::filter_members(s, p);
    messages::in_order_is_ordered(s.filter(p));
    assert(s.contains(s[i]) && p(s[i]));
    assert(s.filter(p).contains(s[i]));
    assert(conversations(s)[k].contact_id == s[i].contact_id);
    assert forall|a: int, b: int| 0 <= a < b < conversations(s).len() implies (
    #[trigger] conversations(s)[a]).contact_id != (#[trigger] conversations(s)[b]).contact_id by {
        assert(d[a] != d[b]);
    }
}

} // verus!
