//! Padding that hides the length of a message from the relay.
use crate::primitives;
use crate::seqs;
use crate::text;
use vstd::prelude::*;

verus! {

/// The number of bytes of the length in front of a padded message.
pub const LENGTH_BYTES: usize = 4;

/// The size that larger messages are padded to a multiple of.
pub const LARGE_BUCKET: usize = 65536;

/// The sizes that a padded message can have.
pub open spec fn fixed_size(n: nat) -> bool {
    ||| n == 512
    ||| n == 1024
    ||| n == 2048
    ||| n == 4096
    ||| n == 8192
    ||| n == 16384
    ||| n == 32768
    ||| n > 0 && n % 65536 == 0
}

/// The smallest bucket that has room for `n` bytes.
pub open spec fn bucket(n: nat) -> nat {
    if n <= 512 {
        512
    } else if n <= 1024 {
        1024
    } else if n <= 2048 {
        2048
    } else if n <= 4096 {
        4096
    } else if n <= 8192 {
        8192
    } else if n <= 16384 {
        16384
    } else if n <= 32768 {
        32768
    } else {
        (n + 65535) / 65536 * 65536
    }
}

/// The last 32 bits of a number as four bytes, the highest first.
pub open spec fn be_bytes(n: nat) -> Seq<u8> {
    seq![
        (n / 16777216 % 256) as u8,
        (n / 65536 % 256) as u8,
        (n / 256 % 256) as u8,
        (n % 256) as u8,
    ]
}

/// The number that four bytes stand for, the highest first.
pub open spec fn be_value(b: Seq<u8>) -> nat {
    (b[0] as nat) * 16777216 + (b[1] as nat) * 65536 + (b[2] as nat) * 256 + b[3] as nat
}

/// The message behind its length, and noise behind it.
pub open spec fn padded(raw: Seq<u8>, noise: Seq<u8>) -> Seq<u8> {
    be_bytes(raw.len()) + raw + noise
}

/// How many bytes of noise a message of `n` bytes gets.
pub open spec fn noise_len(n: nat) -> nat {
    (bucket(n + 4) - (n + 4)) as nat
}

/// The message in padded bytes, or why there is none.
pub open spec fn unpadded(b: Seq<u8>) -> Result<Seq<u8>, Seq<char>> {
    if b.len() < 4 {
        Err("padded ciphertext too short"@)
    } else if 4 + be_value(b) > b.len() {
        Err("padded ciphertext length prefix exceeds data"@)
    } else {
        Ok(b.subrange(4, 4 + be_value(b) as int))
    }
}

/// The smallest bucket that has room for `n` bytes.
fn bucket_for(n: usize) -> (r: usize)
    requires
        n + 65535 <= usize::MAX,
    ensures
        r == bucket(n as nat),
        n <= r < n + 65536,
{
    if n <= 512 {
        512
    } else if n <= 1024 {
        1024
    } else if n <= 2048 {
        2048
    } else if n <= 4096 {
        4096
    } else if n <= 8192 {
        8192
    } else if n <= 16384 {
        16384
    } else if n <= 32768 {
        32768
    } else {
        (n + (LARGE_BUCKET - 1)) / LARGE_BUCKET * LARGE_BUCKET
    }
}

/// Pads a message with given noise.
pub fn pad_with(raw: &[u8], noise: &[u8]) -> (r: Vec<u8>)
    ensures
        r@ == padded(raw@, noise@),
{
    let n: u64 = raw.len() as u64;
    let mut out: Vec<u8> = Vec::new();
    out.push((n / 16777216 % 256) as u8);
    out.push((n / 65536 % 256) as u8);
    out.push((n / 256 % 256) as u8);
    out.push((n % 256) as u8);
    proof {
        assert(out@ =~= be_bytes(raw@.len()));
    }
    let ghost head = out@;
    let mut i: usize = 0;
    while i < raw.len()
        invariant
            i <= raw@.len(),
            out@ == head + raw@.take(i as int),
        decreases raw@.len() - i,
    {
        proof {
            seqs::take_step(raw@, i as int);
            assert((head + raw@.take(i as int)).push(raw@[i as int]) =~= head + raw@.take(
                i as int,
            ).push(raw@[i as int]));
        }
        out.push(raw[i]);
        i = i + 1;
    }
    proof {
        assert(raw@.take(i as int) =~= raw@);
    }
    let ghost body = out@;
    let mut k: usize = 0;
    while k < noise.len()
        invariant
            k <= noise@.len(),
            out@ == body + noise@.take(k as int),
        decreases noise@.len() - k,
    {
        proof {
            seqs::take_step(noise@, k as int);
            assert((body + noise@.take(k as int)).push(noise@[k as int]) =~= body + noise@.take(
                k as int,
            ).push(noise@[k as int]));
        }
        out.push(noise[k]);
        k = k + 1;
    }
    proof {
        assert(noise@.take(k as int) =~= noise@);
        assert(out@ =~= padded(raw@, noise@));
    }
    out
}

/// Pads a message with random noise up to the size of a bucket. A slice holds at most
/// `isize::MAX` bytes.
pub fn pad_ciphertext(raw: &[u8]) -> (r: Result<Vec<u8>, String>)
    requires
        raw@.len() <= isize::MAX,
    ensures
        match r {
            Ok(b) => {
                &&& fixed_size(b@.len())
                &&& b@.len() == bucket(raw@.len() + 4)
                &&& exists|noise: Seq<u8>|
                    noise.len() == noise_len(raw@.len()) && b@ == #[trigger] padded(raw@, noise)
                &&& raw@.len() <= u32::MAX ==> unpadded(b@) == Ok::<Seq<u8>, Seq<char>>(raw@)
            },
            Err(e) => noise_len(raw@.len()) > 0 && text::has_prefix(
                e@,
                "OS randomness unavailable: "@,
            ),
        },
{
    let needed: usize = LENGTH_BYTES + raw.len();
    let size: usize = bucket_for(needed);
    let noise = if size > needed {
        primitives::random_bytes(size - needed)?
    } else {
        Vec::new()
    };
    let out = pad_with(raw, noise.as_slice());
    proof {
        assert(out@ == padded(raw@, noise@));
        padding_hides_the_length(raw@, noise@);
        if raw@.len() <= u32::MAX {
            padding_round_trip(raw@, noise@, Seq::empty());
            assert(out@ + Seq::<u8>::empty() =~= out@);
        }
    }
    Ok(out)
}

/// The message in padded bytes.
pub fn unpad_ciphertext(padded_bytes: &[u8]) -> (r: Result<Vec<u8>, String>)
    ensures
        seqs::outcome(r) == unpadded(padded_bytes@),
{
    if padded_bytes.len() < 4 {
        return Err("padded ciphertext too short".to_string());
    }
    let len: u64 = padded_bytes[0] as u64 * 16777216 + padded_bytes[1] as u64 * 65536
        + padded_bytes[2] as u64 * 256 + padded_bytes[3] as u64;
    if 4 + len > padded_bytes.len() as u64 {
        return Err("padded ciphertext length prefix exceeds data".to_string());
    }
    let end: usize = 4 + len as usize;
    let mut out: Vec<u8> = Vec::new();
    let mut i: usize = 4;
    while i < end
        invariant
            4 <= i <= end <= padded_bytes@.len(),
            out@ == padded_bytes@.subrange(4, i as int),
        decreases end - i,
    {
        proof {
            assert(padded_bytes@.subrange(4, i + 1) =~= padded_bytes@.subrange(4, i as int).push(
                padded_bytes@[i as int],
            ));
        }
        out.push(padded_bytes[i]);
        i = i + 1;
    }
    Ok(out)
}

/// The message in bytes that are padded, or the bytes themselves where they are not.
pub open spec fn unpadded_or_same(b: Seq<u8>) -> Seq<u8> {
    match unpadded(b) {
        Ok(raw) => raw,
        Err(_) => b,
    }
}

/// The message in bytes that are padded, or the bytes themselves where they are not: messages
/// were once sent without padding.
pub fn unpad_or_same(b: Vec<u8>) -> (r: Vec<u8>)
    ensures
        r@ == unpadded_or_same(b@),
{
    match unpad_ciphertext(b.as_slice()) {
        Ok(raw) => raw,
        Err(_) => b,
    }
}

/// Taking the padding off a padded message gives the message, whatever the noise and whatever
/// bytes follow.
pub proof fn padding_round_trip(raw: Seq<u8>, noise: Seq<u8>, more: Seq<u8>)
    requires
        raw.len() <= u32::MAX,
    ensures
        unpadded(padded(raw, noise) + more) == Ok::<Seq<u8>, Seq<char>>(raw),
{
    let n = raw.len();
    let b = padded(raw, noise) + more;
    assert(b[0] == be_bytes(n)[0]);
    assert(b[1] == be_bytes(n)[1]);
    assert(b[2] == be_bytes(n)[2]);
    assert(b[3] == be_bytes(n)[3]);
    assert(be_value(b) == n) by {
        assert(n / 16777216 % 256 == n / 16777216);
        assert(n == (n / 16777216) * 16777216 + (n / 65536 % 256) * 65536 + (n / 256 % 256) * 256
            + n % 256);
    }
    assert(b.subrange(4, 4 + n as int) =~= raw);
}

/// A padded message of any length has the size of its bucket, which is one of the fixed sizes:
/// messages of one bucket look alike to the relay.
pub proof fn padding_hides_the_length(raw: Seq<u8>, noise: Seq<u8>)
    requires
        noise.len() == noise_len(raw.len()),
    ensures
        padded(raw, noise).len() == bucket(raw.len() + 4),
        fixed_size(padded(raw, noise).len()),
{
    let n = raw.len() + 4;
    assert(bucket(n) >= n);
    assert(bucket(n) > 32768 ==> bucket(n) % 65536 == 0);
}

} // verus!
