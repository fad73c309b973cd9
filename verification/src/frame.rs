//! Length-prefixed framing: each message on the stream is a four-byte
//! big-endian payload length followed by exactly that many payload
//! bytes, so discrete JSON documents can share one connection.

use vstd::prelude::*;

verus! {

/// The four big-endian bytes of `n`.
pub open spec fn spec_be_bytes(n: u32) -> Seq<u8> {
    seq![
        ((n >> 24) & 0xff) as u8,
        ((n >> 16) & 0xff) as u8,
        ((n >> 8) & 0xff) as u8,
        (n & 0xff) as u8,
    ]
}

/// The value of four big-endian bytes.
pub open spec fn spec_be_val(b: Seq<u8>) -> u32
    recommends
        b.len() == 4,
{
    ((b[0] as u32) << 24) | ((b[1] as u32) << 16) | ((b[2] as u32) << 8) | (b[3] as u32)
}

/// Reading back the four big-endian bytes of `n` yields `n`.
pub proof fn lemma_be_round_trip(n: u32)
    ensures
        spec_be_val(spec_be_bytes(n)) == n,
{
    assert((((((n >> 24) & 0xff) as u8) as u32) << 24) | (((((n >> 16) & 0xff) as u8) as u32)
        << 16) | (((((n >> 8) & 0xff) as u8) as u32) << 8) | (((n & 0xff) as u8) as u32) == n)
        by (bit_vector);
}

/// The frame carrying `payload`.
pub open spec fn spec_frame(payload: Seq<u8>) -> Seq<u8>
    recommends
        payload.len() <= u32::MAX,
{
    spec_be_bytes(payload.len() as u32) + payload
}

/// What the front of `buf` decodes to: the first frame's payload and
/// the bytes it occupies, or nothing while the frame is incomplete.
pub open spec fn spec_decode_frame(buf: Seq<u8>) -> Option<(Seq<u8>, int)> {
    if buf.len() < 4 {
        None
    } else {
        let n = spec_be_val(buf.take(4)) as int;
        if buf.len() < 4 + n {
            None
        } else {
            Some((buf.subrange(4, 4 + n), 4 + n))
        }
    }
}

/// Frames `payload`.
pub fn encode_frame(payload: &Vec<u8>) -> (r: Vec<u8>)
    requires
        payload@.len() <= u32::MAX,
    ensures
        r@ == spec_frame(payload@),
{
    let n = payload.len() as u32;
    let mut out: Vec<u8> = Vec::new();
    out.push(((n >> 24) & 0xff) as u8);
    out.push(((n >> 16) & 0xff) as u8);
    out.push(((n >> 8) & 0xff) as u8);
    out.push((n & 0xff) as u8);
    let mut i: usize = 0;
    let len = payload.len();
    while i < len
        invariant
            len == payload@.len(),
            i <= len,
            out@ == spec_be_bytes(len as u32) + payload@.take(i as int),
        decreases len - i,
    {
        out.push(payload[i]);
        proof {
            assert(spec_be_bytes(len as u32) + payload@.take(i + 1) =~= (spec_be_bytes(len as u32)
                + payload@.take(i as int)).push(payload@[i as int]));
        }
        i = i + 1;
    }
    proof {
        assert(payload@.take(len as int) =~= payload@);
        assert(out@ =~= spec_frame(payload@));
    }
    out
}

/// Decodes the first frame at the front of `buf`: its payload and the
/// number of bytes it occupies.  None means more bytes are needed.
pub fn decode_frame(buf: &Vec<u8>) -> (r: Option<(Vec<u8>, usize)>)
    ensures
        match r {
            Some(p) => spec_decode_frame(buf@) == Some((p.0@, p.1 as int)),
            None => spec_decode_frame(buf@) is None,
        },
{
    if buf.len() < 4 {
        return None;
    }
    let n: u32 = (((buf[0] as u32) << 24) as u32) | (((buf[1] as u32) << 16) as u32) | (((buf[2]
        as u32) << 8) as u32) | (buf[3] as u32);
    proof {
        assert(buf@.take(4)[0] == buf@[0] && buf@.take(4)[1] == buf@[1] && buf@.take(4)[2]
            == buf@[2] && buf@.take(4)[3] == buf@[3]);
    }
    let total: u64 = 4u64 + (n as u64);
    if (buf.len() as u64) < total {
        return None;
    }
    let consumed: usize = total as usize;
    let mut payload: Vec<u8> = Vec::new();
    let mut i: usize = 4;
    while i < consumed
        invariant
            4 <= i <= consumed,
            consumed == 4 + n,
            consumed <= buf@.len(),
            payload@ == buf@.subrange(4, i as int),
        decreases consumed - i,
    {
        payload.push(buf[i]);
        proof {
            assert(buf@.subrange(4, i + 1) =~= buf@.subrange(4, i as int).push(buf@[i as int]));
        }
        i = i + 1;
    }
    proof {
        assert(payload@ =~= buf@.subrange(4, 4 + n as int));
    }
    Some((payload, consumed))
}

/// A frame decodes back to its payload, whatever follows it on the
/// stream.
pub proof fn lemma_frame_round_trip(payload: Seq<u8>, rest: Seq<u8>)
    requires
        payload.len() <= u32::MAX,
    ensures
        spec_decode_frame(spec_frame(payload) + rest) == Some(
            (payload, 4 + payload.len() as int),
        ),
{
    let buf = spec_frame(payload) + rest;
    lemma_be_round_trip(payload.len() as u32);
    assert(buf.take(4) =~= spec_be_bytes(payload.len() as u32));
    assert(buf.len() >= 4 + payload.len());
    assert(buf.subrange(4, 4 + payload.len() as int) =~= payload);
}

} // verus!
