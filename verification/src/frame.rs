//! Length-delimited framing: the byte format under every codec.
//!
//! Each frame is a four-byte big-endian payload length followed by the
//! payload itself. Encoding and decoding are verified against the format's
//! specification, and decoding what encoding produced yields the original
//! payload back.

use vstd::prelude::*;

verus! {

/// The largest representable payload length: the header is four bytes.
pub open spec fn max_frame_len() -> int {
    0x100000000
}

/// The four header bytes spelling a payload length, most significant first.
pub open spec fn len_bytes(n: int) -> Seq<u8> {
    seq![
        ((n / 0x1000000) % 0x100) as u8,
        ((n / 0x10000) % 0x100) as u8,
        ((n / 0x100) % 0x100) as u8,
        (n % 0x100) as u8,
    ]
}

/// The length a four-byte big-endian header spells.
pub open spec fn be32(b: Seq<u8>) -> int {
    b[0] * 0x1000000 + b[1] * 0x10000 + b[2] * 0x100 + b[3]
}

/// A whole frame: header then payload.
pub open spec fn spec_frame(payload: Seq<u8>) -> Seq<u8> {
    len_bytes(payload.len() as int) + payload
}

/// The first frame of a buffer, with the number of bytes it occupies; `None`
/// while the buffer does not yet hold a complete frame.
pub open spec fn spec_decode(b: Seq<u8>) -> Option<(Seq<u8>, int)> {
    if b.len() < 4 {
        None
    } else {
        let n = be32(b.subrange(0, 4));
        if b.len() < 4 + n {
            None
        } else {
            Some((b.subrange(4, 4 + n), 4 + n))
        }
    }
}

/// The header round-trips: reading the four bytes spelling `n` yields `n`.
pub proof fn lemma_be32_len_bytes(n: int)
    requires
        0 <= n < max_frame_len(),
    ensures
        len_bytes(n).len() == 4,
        be32(len_bytes(n)) == n,
{
    assert(n == 0x1000000 * (n / 0x1000000) + n % 0x1000000) by (nonlinear_arith)
        requires 0 <= n;
    assert(n % 0x1000000 == 0x10000 * ((n % 0x1000000) / 0x10000) + (n % 0x1000000) % 0x10000)
        by (nonlinear_arith)
        requires 0 <= n;
    assert((n / 0x10000) % 0x100 == (n % 0x1000000) / 0x10000) by (nonlinear_arith)
        requires 0 <= n;
    assert((n / 0x100) % 0x100 == (n % 0x10000) / 0x100) by (nonlinear_arith)
        requires 0 <= n;
    assert((n % 0x1000000) % 0x10000 == n % 0x10000) by (nonlinear_arith)
        requires 0 <= n;
    assert(n % 0x10000 == 0x100 * ((n % 0x10000) / 0x100) + n % 0x100) by (nonlinear_arith)
        requires 0 <= n;
    assert(n / 0x1000000 < 0x100);
}

/// Encodes one frame: the payload's length as four big-endian bytes, then
/// the payload.
pub fn encode_frame(payload: &Vec<u8>) -> (r: Vec<u8>)
    requires
        payload@.len() < max_frame_len(),
    ensures
        r@ == spec_frame(payload@),
        r@.len() == payload@.len() + 4,
{
    let n: u64 = payload.len() as u64;
    let mut r: Vec<u8> = Vec::new();
    r.push(((n / 0x1000000) % 0x100) as u8);
    r.push(((n / 0x10000) % 0x100) as u8);
    r.push(((n / 0x100) % 0x100) as u8);
    r.push((n % 0x100) as u8);
    r.extend_from_slice(payload.as_slice());
    proof {
        assert(r@ =~= spec_frame(payload@));
    }
    r
}

/// Decodes the first frame of a buffer: the payload and the bytes consumed,
/// or `None` while the buffer does not yet hold a complete frame. Feeding
/// more bytes can only turn `None` into a frame, never change one already
/// decodable.
pub fn decode_frame(buf: &Vec<u8>) -> (r: Option<(Vec<u8>, usize)>)
    ensures
        match r {
            Some(pr) => spec_decode(buf@) == Some((pr.0@, pr.1 as int)),
            None => spec_decode(buf@) is None,
        },
{
    if buf.len() < 4 {
        return None;
    }
    let n: u64 = (buf[0] as u64) * 0x1000000 + (buf[1] as u64) * 0x10000 + (buf[2] as u64) * 0x100
        + (buf[3] as u64);
    if ((buf.len() - 4) as u64) < n {
        return None;
    }
    let len: usize = n as usize;
    let buf_len: usize = buf.len();
    let mut payload: Vec<u8> = Vec::new();
    let mut i: usize = 0;
    while i < len
        invariant
            i <= len,
            buf_len == buf@.len(),
            len + 4 <= buf_len,
            payload@ == buf@.subrange(4, 4 + i as int),
        decreases len - i,
    {
        payload.push(buf[4 + i]);
        proof {
            assert(payload@ =~= buf@.subrange(4, 4 + i as int + 1));
        }
        i = i + 1;
    }
    proof {
        assert(payload@ =~= buf@.subrange(4, 4 + len as int));
    }
    Some((payload, 4 + len))
}

/// Decoding is stable under buffering: once a buffer holds a complete
/// frame, bytes arriving behind it change neither the decoded payload nor
/// the bytes consumed.
pub proof fn lemma_decode_stable(b: Seq<u8>, more: Seq<u8>)
    requires
        spec_decode(b) is Some,
    ensures
        spec_decode(b + more) == spec_decode(b),
{
    let n = be32(b.subrange(0, 4));
    assert((b + more).subrange(0, 4) =~= b.subrange(0, 4));
    assert((b + more).subrange(4, 4 + n) =~= b.subrange(4, 4 + n));
}

/// The framing layer round-trips: however many further bytes follow it in
/// the buffer, a frame decodes back to exactly the payload it was built
/// from, consuming exactly its own bytes.
pub proof fn lemma_frame_round_trip(payload: Seq<u8>, rest: Seq<u8>)
    requires
        payload.len() < max_frame_len(),
    ensures
        spec_decode(spec_frame(payload) + rest) == Some((payload, 4 + payload.len() as int)),
{
    lemma_be32_len_bytes(payload.len() as int);
    let b = spec_frame(payload) + rest;
    assert(b.subrange(0, 4) =~= len_bytes(payload.len() as int));
    assert(b.subrange(4, 4 + payload.len() as int) =~= payload);
}

} // verus!
