//! Proof of work for new mailboxes.
use crate::primitives;
use crate::seqs;
use crate::text;
use vstd::prelude::*;

verus! {

/// How many milliseconds one window of a proof of work lasts.
pub const POW_WINDOW_MS: u64 = 600_000;

/// The window of a point in time.
pub open spec fn pow_window(now_ms: u64) -> u64 {
    now_ms / POW_WINDOW_MS
}

/// The window of a point in time.
pub fn window_at(now_ms: u64) -> (r: u64)
    ensures
        r == pow_window(now_ms),
{
    now_ms / POW_WINDOW_MS
}

/// The text whose digest has to be small.
pub open spec fn pow_input(recipient: Seq<char>, window: nat, nonce: Seq<char>) -> Seq<char> {
    recipient + ":"@ + text::decimal(window) + ":"@ + nonce
}

/// The digest of the text begins with two zero bytes.
pub open spec fn pow_hit(recipient: Seq<char>, window: nat, nonce: Seq<char>) -> bool {
    let d = primitives::sha256(vstd::utf8::encode_utf8(pow_input(recipient, window, nonce)));
    d[0] == 0 && d[1] == 0
}

/// A proof is `window:nonce`; the window must be the current one or the one before it.
pub open spec fn pow_accepted(recipient: Seq<char>, proof_text: Seq<char>, current: u64) -> bool {
    match text::first_pos(proof_text, ':') {
        None => false,
        Some(i) => match text::parsed(proof_text.take(i), u64::MAX as nat) {
            None => false,
            Some(w) => (w == current || w == if current == 0 {
                0
            } else {
                current - 1
            }) && pow_hit(recipient, w, proof_text.skip(i + 1)),
        },
    }
}

fn is_hit(recipient: &str, window: u64, nonce: &str) -> (r: bool)
    ensures
        r == pow_hit(recipient@, window as nat, nonce@),
{
    let w = text::decimal_text(window);
    let head = text::concat3(recipient, ":", w.as_str());
    let input = text::concat3(head.as_str(), ":", nonce);
    let d = primitives::digest(input.as_str().as_bytes());
    d[0] == 0 && d[1] == 0
}

/// Whether the relay accepts a proof of work for a mailbox in the current window.
pub fn verify_pow(recipient_id: &str, nonce: &str, current_window: u64) -> (r: bool)
    ensures
        r == pow_accepted(recipient_id@, nonce@, current_window),
{
    match text::split_once(nonce, ':') {
        None => false,
        Some((ts, rest)) => match text::parse_decimal(ts.as_str(), u64::MAX) {
            None => false,
            Some(w) => {
                if w != current_window && w != current_window.saturating_sub(1) {
                    return false;
                }
                is_hit(recipient_id, w, rest.as_str())
            },
        },
    }
}

/// The smallest number that is a proof of work for the mailbox in the window.
pub open spec fn smallest_hit(recipient: Seq<char>, window: u64, n: u64) -> bool {
    &&& pow_hit(recipient, window as nat, text::decimal(n as nat))
    &&& forall|k: u64|
        k < n ==> !#[trigger] pow_hit(recipient, window as nat, text::decimal(k as nat))
}

/// A proof of work for the mailbox in the window; nothing where no number of 64 bits below the
/// largest is one.
pub fn generate_pow(recipient_id: &str, window: u64) -> (r: Option<String>)
    ensures
        match r {
            Some(p) => exists|n: u64| #[trigger]
                smallest_hit(recipient_id@, window, n) && p@ == text::decimal(window as nat) + ":"@
                    + text::decimal(n as nat),
            None => forall|k: u64|
                k < u64::MAX ==> !#[trigger] pow_hit(
                    recipient_id@,
                    window as nat,
                    text::decimal(k as nat),
                ),
        },
{
    let mut n: u64 = 0;
    while n < u64::MAX
        invariant
            forall|k: u64|
                k < n ==> !#[trigger] pow_hit(
                    recipient_id@,
                    window as nat,
                    text::decimal(k as nat),
                ),
        decreases u64::MAX - n,
    {
        let d = text::decimal_text(n);
        if is_hit(recipient_id, window, d.as_str()) {
            proof {
                assert(smallest_hit(recipient_id@, window, n));
            }
            let w = text::decimal_text(window);
            return Some(text::concat3(w.as_str(), ":", d.as_str()));
        }
        n = n + 1;
    }
    None
}

/// The relay accepts a generated proof of work in its window and in the next one.
pub proof fn generated_pow_is_accepted(recipient: Seq<char>, window: u64, n: u64, current: u64)
    requires
        pow_hit(recipient, window as nat, text::decimal(n as nat)),
        current == window || current == window + 1,
    ensures
        pow_accepted(
            recipient,
            text::decimal(window as nat) + ":"@ + text::decimal(n as nat),
            current,
        ),
{
    reveal_strlit(":");
    let w = text::decimal(window as nat);
    let d = text::decimal(n as nat);
    let p = w + ":"@ + d;
    let i = w.len() as int;
    text::decimal_digits(window as nat);
    text::parse_of_decimal(window as nat, u64::MAX as nat);
    assert(p[i] == ':');
    assert forall|j: int| 0 <= j < i implies !text::is_char(':')(#[trigger] p[j]) by {
        assert(p[j] == w[j]);
        assert(w.contains(w[j]));
    }
    seqs::find_is(p, text::is_char(':'), i);
    assert(p.take(i) =~= w);
    assert(p.skip(i + 1) =~= d);
}

} // verus!
