//! Framing: each message travels as an 8-byte little-endian length followed by
//! exactly that many payload bytes.
use vstd::prelude::*;

verus! {

/// Bytes in the length prefix of a frame.
pub const PREFIX_LEN: usize = 8;

/// The little-endian bytes of `n`.
pub open spec fn le_bytes(n: u64) -> Seq<u8> {
    seq![
        (n & 0xff) as u8,
        ((n >> 8u64) & 0xff) as u8,
        ((n >> 16u64) & 0xff) as u8,
        ((n >> 24u64) & 0xff) as u8,
        ((n >> 32u64) & 0xff) as u8,
        ((n >> 40u64) & 0xff) as u8,
        ((n >> 48u64) & 0xff) as u8,
        ((n >> 56u64) & 0xff) as u8,
    ]
}

/// The number whose little-endian bytes are the first eight of `b`.
pub open spec fn le_value(b: Seq<u8>) -> u64
    recommends
        b.len() >= 8,
{
    (b[0] as u64) | ((b[1] as u64) << 8u64) | ((b[2] as u64) << 16u64) | ((b[3] as u64) << 24u64) | ((
    b[4] as u64) << 32u64) | ((b[5] as u64) << 40u64) | ((b[6] as u64) << 48u64) | ((b[7] as u64)
        << 56u64)
}

/// A frame carrying `payload`.
pub open spec fn framed(payload: Seq<u8>) -> Seq<u8> {
    le_bytes(payload.len() as u64) + payload
}

/// The length prefix announcing `n` payload bytes.
pub fn length_prefix(n: u64) -> (r: Vec<u8>)
    ensures
        r@ == le_bytes(n),
{
    let mut r: Vec<u8> = Vec::new();
    r.push((n & 0xff) as u8);
    r.push(((n >> 8u64) & 0xff) as u8);
    r.push(((n >> 16u64) & 0xff) as u8);
    r.push(((n >> 24u64) & 0xff) as u8);
    r.push(((n >> 32u64) & 0xff) as u8);
    r.push(((n >> 40u64) & 0xff) as u8);
    r.push(((n >> 48u64) & 0xff) as u8);
    r.push(((n >> 56u64) & 0xff) as u8);
    assert(r@ =~= le_bytes(n));
    r
}

/// The payload length that a prefix announces.
pub fn frame_length(prefix: &[u8]) -> (r: u64)
    requires
        prefix@.len() == PREFIX_LEN,
    ensures
        r == le_value(prefix@),
{
    (prefix[0] as u64) | ((prefix[1] as u64) << 8u64) | ((prefix[2] as u64) << 16u64) | ((
    prefix[3] as u64) << 24u64) | ((prefix[4] as u64) << 32u64) | ((prefix[5] as u64) << 40u64)
        | ((prefix[6] as u64) << 48u64) | ((prefix[7] as u64) << 56u64)
}

/// The frame that carries `payload`: its length prefix, then the payload.
pub fn encode_frame(payload: &[u8]) -> (r: Vec<u8>)
    ensures
        r@ == framed(payload@),
{
    let mut r = length_prefix(payload.len() as u64);
    let mut i: usize = 0;
    while i < payload.len()
        invariant
            i <= payload@.len(),
            r@ == le_bytes(payload@.len() as u64) + payload@.subrange(0, i as int),
        decreases payload@.len() - i,
    {
        r.push(payload[i]);
        i = i + 1;
        assert(r@ =~= le_bytes(payload@.len() as u64) + payload@.subrange(0, i as int));
    }
    assert(payload@.subrange(0, i as int) =~= payload@);
    r
}

/// The first frame of `buf`: its payload and the number of bytes it takes,
/// or `None` while `buf` holds less than a whole frame.
pub fn split_frame(buf: &[u8]) -> (r: Option<(Vec<u8>, usize)>)
    ensures
        r is Some <==> buf@.len() >= PREFIX_LEN && buf@.len() - PREFIX_LEN >= le_value(buf@),
        r matches Some((p, n)) ==> n == PREFIX_LEN + le_value(buf@) && p@ == buf@.subrange(
            PREFIX_LEN as int,
            n as int,
        ),
{
    if buf.len() < PREFIX_LEN {
        return None;
    }
    let len = (buf[0] as u64) | ((buf[1] as u64) << 8u64) | ((buf[2] as u64) << 16u64) | ((
    buf[3] as u64) << 24u64) | ((buf[4] as u64) << 32u64) | ((buf[5] as u64) << 40u64) | ((
    buf[6] as u64) << 48u64) | ((buf[7] as u64) << 56u64);
    let rest = buf.len() - PREFIX_LEN;
    if (rest as u64) < len {
        return None;
    }
    let n = PREFIX_LEN + len as usize;
    let mut p: Vec<u8> = Vec::new();
    let mut i: usize = PREFIX_LEN;
    while i < n
        invariant
            PREFIX_LEN <= i <= n <= buf@.len(),
            p@ == buf@.subrange(PREFIX_LEN as int, i as int),
        decreases n - i,
    {
        p.push(buf[i]);
        i = i + 1;
        assert(p@ =~= buf@.subrange(PREFIX_LEN as int, i as int));
    }
    Some((p, n))
}

/// Reading the prefix of a frame gives back the length it was written with.
pub proof fn lemma_prefix_round_trip(n: u64)
    ensures
        le_value(le_bytes(n)) == n,
{
    let b = le_bytes(n);
    assert(((n & 0xff) as u8 as u64) | ((((n >> 8u64) & 0xff) as u8 as u64) << 8u64) | ((((n
        >> 16u64) & 0xff) as u8 as u64) << 16u64) | ((((n >> 24u64) & 0xff) as u8 as u64)
        << 24u64) | ((((n >> 32u64) & 0xff) as u8 as u64) << 32u64) | ((((n >> 40u64) & 0xff)
        as u8 as u64) << 40u64) | ((((n >> 48u64) & 0xff) as u8 as u64) << 48u64) | ((((n
        >> 56u64) & 0xff) as u8 as u64) << 56u64) == n) by (bit_vector);
    assert(le_value(b) == n);
}

/// The first frame of a frame's bytes is the frame itself.
pub proof fn lemma_frame_round_trip(payload: Seq<u8>)
    requires
        payload.len() <= u64::MAX,
    ensures
        framed(payload).len() >= PREFIX_LEN,
        le_value(framed(payload)) == payload.len(),
        framed(payload).subrange(PREFIX_LEN as int, PREFIX_LEN + payload.len()) == payload,
{
    let f = framed(payload);
    lemma_prefix_round_trip(payload.len() as u64);
    assert(f.subrange(0, 8) =~= le_bytes(payload.len() as u64));
    assert(f.subrange(PREFIX_LEN as int, PREFIX_LEN + payload.len()) =~= payload);
}

} // verus!
