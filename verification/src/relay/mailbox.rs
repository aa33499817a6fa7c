//! Who may collect from a mailbox and who may send to it.
use crate::frames::EnvelopeView;
use crate::frames::StoredEnvelope;
use crate::seqs;
use crate::seqs::Duplicate;
use crate::text;
use std::collections::VecDeque;
use vstd::prelude::*;

verus! {

/// How many delivery tokens a mailbox accepts at a time.
pub const MAX_DELIVERY_TOKENS_PER_MAILBOX: usize = 64;

/// The digests of the tokens of a mailbox.
pub struct MailboxAuth {
    pub receive_auth_hash: String,
    pub delivery_token_hash: String,
    pub delivery_token_hashes: Vec<String>,
}

/// The digests of the tokens of a mailbox.
#[verifier::ext_equal]
pub struct MailboxAuthView {
    pub receive_auth_hash: Seq<char>,
    pub delivery_token_hash: Seq<char>,
    pub delivery_token_hashes: Seq<Seq<char>>,
}

impl View for MailboxAuth {
    type V = MailboxAuthView;

    open spec fn view(&self) -> MailboxAuthView {
        MailboxAuthView {
            receive_auth_hash: self.receive_auth_hash@,
            delivery_token_hash: self.delivery_token_hash@,
            delivery_token_hashes: seqs::views(self.delivery_token_hashes@),
        }
    }
}

impl Duplicate for MailboxAuth {
    fn duplicate(&self) -> (r: Self) {
        MailboxAuth {
            receive_auth_hash: self.receive_auth_hash.clone(),
            delivery_token_hash: self.delivery_token_hash.clone(),
            delivery_token_hashes: seqs::duplicate_vec(&self.delivery_token_hashes),
        }
    }
}

/// A mailbox with one delivery token.
pub open spec fn new_mailbox(receive: Seq<char>, delivery: Seq<char>) -> MailboxAuthView {
    MailboxAuthView {
        receive_auth_hash: receive,
        delivery_token_hash: delivery,
        delivery_token_hashes: seq![delivery],
    }
}

/// Whether the mailbox takes envelopes sent with the token of this digest.
pub open spec fn accepts(auth: MailboxAuthView, hash: Seq<char>) -> bool {
    auth.delivery_token_hash == hash || auth.delivery_token_hashes.contains(hash)
}

/// The mailbox with one more delivery token; where there is no room, the oldest gives way.
pub open spec fn with_token(auth: MailboxAuthView, hash: Seq<char>) -> MailboxAuthView {
    let main = if auth.delivery_token_hash.len() == 0 {
        hash
    } else {
        auth.delivery_token_hash
    };
    let list = auth.delivery_token_hashes;
    MailboxAuthView {
        receive_auth_hash: auth.receive_auth_hash,
        delivery_token_hash: main,
        delivery_token_hashes: if list.contains(hash) {
            list
        } else if list.len() >= MAX_DELIVERY_TOKENS_PER_MAILBOX {
            list.drop_first().push(hash)
        } else {
            list.push(hash)
        },
    }
}

/// The first 64 of the digests, each once.
pub open spec fn admitted(hashes: Seq<Seq<char>>) -> Seq<Seq<char>> {
    text::distinct(
        if hashes.len() <= MAX_DELIVERY_TOKENS_PER_MAILBOX {
            hashes
        } else {
            hashes.take(MAX_DELIVERY_TOKENS_PER_MAILBOX as int)
        },
    )
}

/// The mailbox with exactly these delivery tokens.
pub open spec fn with_tokens(auth: MailboxAuthView, hashes: Seq<Seq<char>>) -> MailboxAuthView {
    let list = admitted(hashes);
    MailboxAuthView {
        receive_auth_hash: auth.receive_auth_hash,
        delivery_token_hash: if list.len() > 0 {
            list[0]
        } else {
            Seq::empty()
        },
        delivery_token_hashes: list,
    }
}

impl MailboxAuth {
    /// A mailbox with one delivery token.
    pub fn new(receive_auth_hash: String, delivery_hash: String) -> (r: Self)
        ensures
            r@ == new_mailbox(receive_auth_hash@, delivery_hash@),
    {
        let mut list: Vec<String> = Vec::new();
        list.push(delivery_hash.clone());
        let r = MailboxAuth {
            receive_auth_hash,
            delivery_token_hash: delivery_hash,
            delivery_token_hashes: list,
        };
        proof {
            assert(r@.delivery_token_hashes =~= seq![delivery_hash@]);
        }
        r
    }

    /// Whether the mailbox takes envelopes sent with the token of this digest.
    pub fn accepts_delivery_hash(&self, hash: &str) -> (r: bool)
        ensures
            r == accepts(self@, hash@),
    {
        text::same_text(self.delivery_token_hash.as_str(), hash) || text::contains_text(
            &self.delivery_token_hashes,
            hash,
        )
    }

    /// Takes one more delivery token; tells whether the list of tokens changed.
    pub fn ensure_delivery_hash(&mut self, hash: String) -> (r: bool)
        ensures
            final(self)@ == with_token(old(self)@, hash@),
            r == !old(self)@.delivery_token_hashes.contains(hash@),
    {
        if self.delivery_token_hash.as_str().is_empty() {
            self.delivery_token_hash = hash.clone();
        }
        if text::contains_text(&self.delivery_token_hashes, hash.as_str()) {
            return false;
        }
        let ghost list = self.delivery_token_hashes@;
        if self.delivery_token_hashes.len() >= MAX_DELIVERY_TOKENS_PER_MAILBOX {
            self.delivery_token_hashes.remove(0);
            proof {
                assert(seqs::views(self.delivery_token_hashes@) =~= seqs::views(
                    list,
                ).drop_first());
            }
        }
        proof {
            seqs::views_push(self.delivery_token_hashes@, hash);
        }
        self.delivery_token_hashes.push(hash);
        true
    }

    /// Takes exactly these delivery tokens from now on, at most 64 of them.
    pub fn replace_delivery_hashes(&mut self, hashes: Vec<String>)
        ensures
            final(self)@ == with_tokens(old(self)@, seqs::views(hashes@)),
    {
        let ghost all = seqs::views(hashes@);
        let mut out: Vec<String> = Vec::new();
        let n: usize = if hashes.len() <= MAX_DELIVERY_TOKENS_PER_MAILBOX {
            hashes.len()
        } else {
            MAX_DELIVERY_TOKENS_PER_MAILBOX
        };
        let mut i: usize = 0;
        proof {
            assert(seqs::views(out@) =~= text::distinct(all.take(0)));
        }
        while i < n
            invariant
                i <= n <= hashes@.len(),
                all == seqs::views(hashes@),
                seqs::views(out@) == text::distinct(all.take(i as int)),
            decreases n - i,
        {
            proof {
                seqs::take_step(all, i as int);
                text::distinct_push(all.take(i as int), all[i as int]);
            }
            text::push_distinct(&mut out, hashes[i].as_str());
            i = i + 1;
        }
        proof {
            assert(hashes@.len() == n ==> all.take(n as int) =~= all);
        }
        self.delivery_token_hash = if out.len() > 0 {
            out[0].clone()
        } else {
            String::new()
        };
        self.delivery_token_hashes = out;
    }
}

/// After a mailbox was given its tokens, it accepts those and no others.
pub proof fn replaced_tokens_decide(auth: MailboxAuthView, hashes: Seq<Seq<char>>, hash: Seq<char>)
    requires
        0 < hashes.len() <= MAX_DELIVERY_TOKENS_PER_MAILBOX,
    ensures
        accepts(with_tokens(auth, hashes), hash) <==> hashes.contains(hash),
{
    text::distinct_members(hashes);
    let list = admitted(hashes);
    assert(list.contains(list[0]));
    assert(hashes.contains(list[0]));
}

/// A mailbox accepts the token that it just took.
pub proof fn new_token_is_accepted(auth: MailboxAuthView, hash: Seq<char>)
    ensures
        accepts(with_token(auth, hash), hash),
        accepts(new_mailbox(auth.receive_auth_hash, hash), hash),
{
    let w = with_token(auth, hash);
    let list = w.delivery_token_hashes;
    if !auth.delivery_token_hashes.contains(hash) {
        assert(list[list.len() - 1] == hash);
    }
}

/// Taking one more token keeps a list of at most 64 within that bound, and a list without
/// repetition without one.
pub proof fn token_list_stays_bounded(auth: MailboxAuthView, hash: Seq<char>)
    requires
        auth.delivery_token_hashes.len() <= MAX_DELIVERY_TOKENS_PER_MAILBOX,
        auth.delivery_token_hashes.no_duplicates(),
    ensures
        with_token(auth, hash).delivery_token_hashes.len() <= MAX_DELIVERY_TOKENS_PER_MAILBOX,
        with_token(auth, hash).delivery_token_hashes.no_duplicates(),
{
    let list = auth.delivery_token_hashes;
    let after = with_token(auth, hash).delivery_token_hashes;
    if !list.contains(hash) {
        let kept = if list.len() >= MAX_DELIVERY_TOKENS_PER_MAILBOX {
            list.drop_first()
        } else {
            list
        };
        assert forall|i: int, j: int| 0 <= i < after.len() && 0 <= j < after.len() && i
            != j implies after[i] != after[j] by {
            assert forall|k: int| 0 <= k < kept.len() implies kept[k] != hash by {
                let m = if list.len() >= MAX_DELIVERY_TOKENS_PER_MAILBOX {
                    k + 1
                } else {
                    k
                };
                assert(list[m] == kept[k]);
            }
        }
    }
}

/// The envelopes that wait for a mailbox, the oldest first.
pub struct EnvelopeQueue {
    pub items: VecDeque<StoredEnvelope>,
}

impl View for EnvelopeQueue {
    type V = Seq<EnvelopeView>;

    open spec fn view(&self) -> Seq<EnvelopeView> {
        seqs::views(self.items@)
    }
}

impl Duplicate for EnvelopeQueue {
    fn duplicate(&self) -> (r: Self) {
        let ghost all = self@;
        let mut items: VecDeque<StoredEnvelope> = VecDeque::new();
        let mut i: usize = 0;
        proof {
            assert(seqs::views(items@) =~= all.take(0));
        }
        while i < self.items.len()
            invariant
                i <= self.items@.len(),
                all == seqs::views(self.items@),
                seqs::views(items@) == all.take(i as int),
            decreases self.items@.len() - i,
        {
            let e = self.items[i].duplicate();
            proof {
                seqs::views_push(items@, e);
                seqs::take_step(all, i as int);
            }
            items.push_back(e);
            i = i + 1;
        }
        proof {
            assert(all.take(i as int) =~= all);
        }
        EnvelopeQueue { items }
    }
}

/// An encrypted invite that the relay hosts.
pub struct HostedBundle {
    pub id: String,
    pub ciphertext: String,
    pub created_at_ms: u64,
    pub expires_at_ms: u64,
}

/// An encrypted invite that the relay hosts.
#[verifier::ext_equal]
pub struct BundleView {
    pub id: Seq<char>,
    pub ciphertext: Seq<char>,
    pub created_at_ms: u64,
    pub expires_at_ms: u64,
}

impl View for HostedBundle {
    type V = BundleView;

    open spec fn view(&self) -> BundleView {
        BundleView {
            id: self.id@,
            ciphertext: self.ciphertext@,
            created_at_ms: self.created_at_ms,
            expires_at_ms: self.expires_at_ms,
        }
    }
}

impl Duplicate for HostedBundle {
    fn duplicate(&self) -> (r: Self) {
        HostedBundle {
            id: self.id.clone(),
            ciphertext: self.ciphertext.clone(),
            created_at_ms: self.created_at_ms,
            expires_at_ms: self.expires_at_ms,
        }
    }
}

} // verus!
