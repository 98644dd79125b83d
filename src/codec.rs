//! Framing of MessagePack payloads on a byte stream: each payload is preceded
//! by its length as a 32-bit big-endian unsigned integer.
use vstd::prelude::*;
use crate::error::Error;

verus! {

/// The number that four bytes give, read big-endian.
pub open spec fn be32(b: Seq<u8>) -> int
    recommends
        b.len() >= 4,
{
    b[0] as int * 0x1000000 + b[1] as int * 0x10000 + b[2] as int * 0x100 + b[3] as int
}

/// The four bytes of `n`, most significant first.
pub open spec fn be32_bytes(n: u32) -> Seq<u8> {
    seq![(n >> 24u32) as u8, (n >> 16u32) as u8, (n >> 8u32) as u8, n as u8]
}

/// The frame that carries the payload `p`.
pub open spec fn frame(p: Seq<u8>) -> Seq<u8> {
    be32_bytes(p.len() as u32) + p
}

/// The frames of the payloads `ps`, one after another.
pub open spec fn frames(ps: Seq<Seq<u8>>) -> Seq<u8>
    decreases ps.len(),
{
    if ps.len() == 0 {
        Seq::empty()
    } else {
        frame(ps[0]) + frames(ps.drop_first())
    }
}

/// Whether `b` starts with a whole frame.
pub open spec fn has_frame(b: Seq<u8>) -> bool {
    b.len() >= 4 && b.len() >= 4 + be32(b)
}

/// The payload of the frame that starts `b`.
pub open spec fn frame_payload(b: Seq<u8>) -> Seq<u8> {
    b.subrange(4, 4 + be32(b))
}

/// What follows the frame that starts `b`.
pub open spec fn after_frame(b: Seq<u8>) -> Seq<u8> {
    b.subrange(4 + be32(b), b.len() as int)
}

/// The payloads of the whole frames at the start of `b`, in order.
pub open spec fn payloads(b: Seq<u8>) -> Seq<Seq<u8>>
    decreases b.len(),
{
    if has_frame(b) {
        seq![frame_payload(b)] + payloads(after_frame(b))
    } else {
        Seq::empty()
    }
}

/// Frames MessagePack payloads on a byte stream.
#[derive(Clone, Copy, Debug)]
pub struct Codec {}

impl Codec {
    pub fn new() -> (r: Codec) {
        Codec {  }
    }

    /// Takes the first whole frame off `src` and returns its payload; leaves
    /// `src` as it is and returns `None` while the frame is not whole.
    pub fn decode(&mut self, src: &mut Vec<u8>) -> (r: Option<Vec<u8>>)
        ensures
            match r {
                Some(p) => {
                    &&& has_frame(old(src)@)
                    &&& p@ == frame_payload(old(src)@)
                    &&& final(src)@ == after_frame(old(src)@)
                },
                None => !has_frame(old(src)@) && final(src)@ == old(src)@,
            },
    {
        if src.len() < 4 {
            return None;
        }
        let n: u64 = (src[0] as u64) * 0x1000000 + (src[1] as u64) * 0x10000 + (src[2] as u64)
            * 0x100 + (src[3] as u64);
        if (src.len() as u64) < 4 + n {
            return None;
        }
        let end: usize = (4 + n) as usize;
        let mut payload: Vec<u8> = Vec::new();
        let mut i: usize = 4;
        while i < end
            invariant
                4 <= i <= end <= src@.len(),
                end == 4 + be32(src@),
                payload@ == src@.subrange(4, i as int),
            decreases end - i,
        {
            payload.push(src[i]);
            i = i + 1;
            proof {
                assert(payload@ =~= src@.subrange(4, i as int));
            }
        }
        let mut rest: Vec<u8> = Vec::new();
        let mut j: usize = end;
        while j < src.len()
            invariant
                end <= j <= src@.len(),
                rest@ == src@.subrange(end as int, j as int),
            decreases src@.len() - j,
        {
            rest.push(src[j]);
            j = j + 1;
            proof {
                assert(rest@ =~= src@.subrange(end as int, j as int));
            }
        }
        *src = rest;
        Some(payload)
    }

    /// Appends the frame of `payload` to `buf`; fails with `InvalidData`, and
    /// leaves `buf` as it is, when the payload is too long for its length to
    /// fit in 32 bits.
    pub fn encode(&mut self, payload: &[u8], buf: &mut Vec<u8>) -> (r: Result<(), Error>)
        ensures
            match r {
                Ok(()) => payload@.len() <= u32::MAX && final(buf)@ == old(buf)@ + frame(payload@),
                Err(e) => payload@.len() > u32::MAX && e == Error::InvalidData && final(buf)@
                    == old(buf)@,
            },
    {
        if payload.len() as u64 > u32::MAX as u64 {
            return Err(Error::InvalidData);
        }
        let n: u32 = payload.len() as u32;
        buf.push((n >> 24u32) as u8);
        buf.push((n >> 16u32) as u8);
        buf.push((n >> 8u32) as u8);
        buf.push(n as u8);
        let ghost start = buf@;
        proof {
            assert(start =~= old(buf)@ + be32_bytes(n));
        }
        let mut i: usize = 0;
        while i < payload.len()
            invariant
                i <= payload@.len(),
                buf@ == start + payload@.subrange(0, i as int),
            decreases payload@.len() - i,
        {
            buf.push(payload[i]);
            i = i + 1;
            proof {
                assert(buf@ =~= start + payload@.subrange(0, i as int));
            }
        }
        proof {
            assert(payload@.subrange(0, i as int) =~= payload@);
            assert(start + payload@ =~= old(buf)@ + frame(payload@));
        }
        Ok(())
    }
}

impl Default for Codec {
    fn default() -> (r: Codec) {
        Codec::new()
    }
}

/// The length prefix of a frame reads back as the length it was written from.
pub proof fn lemma_be32_bytes(n: u32)
    ensures
        be32(be32_bytes(n)) == n,
{
    let b0 = (n >> 24u32) as u8;
    let b1 = (n >> 16u32) as u8;
    let b2 = (n >> 8u32) as u8;
    let b3 = n as u8;
    assert(n == (b0 as u32) * 0x1000000u32 + (b1 as u32) * 0x10000u32 + (b2 as u32) * 0x100u32
        + (b3 as u32)) by (bit_vector)
        requires
            b0 == (n >> 24u32) as u8,
            b1 == (n >> 16u32) as u8,
            b2 == (n >> 8u32) as u8,
            b3 == n as u8,
    ;
}

/// A frame followed by anything decodes to its payload, leaving what follows.
pub proof fn lemma_frame_then(p: Seq<u8>, rest: Seq<u8>)
    requires
        p.len() <= u32::MAX,
    ensures
        has_frame(frame(p) + rest),
        frame_payload(frame(p) + rest) == p,
        after_frame(frame(p) + rest) == rest,
{
    lemma_be32_bytes(p.len() as u32);
    let b = frame(p) + rest;
    assert(b.subrange(0, 4) =~= be32_bytes(p.len() as u32));
    assert(be32(b) == be32(be32_bytes(p.len() as u32)));
    assert(frame_payload(b) =~= p);
    assert(after_frame(b) =~= rest);
}

/// The frames of a sequence of payloads, each of which fits the length prefix,
/// decode to those payloads in the same order.
pub proof fn lemma_frames_round_trip(ps: Seq<Seq<u8>>)
    requires
        forall|i: int| 0 <= i < ps.len() ==> #[trigger] ps[i].len() <= u32::MAX,
    ensures
        payloads(frames(ps)) == ps,
    decreases ps.len(),
{
    if ps.len() == 0 {
        assert(!has_frame(frames(ps)));
        assert(payloads(frames(ps)) =~= ps);
    } else {
        let tail = ps.drop_first();
        assert(ps[0].len() <= u32::MAX);
        lemma_frame_then(ps[0], frames(tail));
        lemma_frames_round_trip(tail);
        assert(payloads(frames(ps)) =~= seq![ps[0]] + tail);
        assert(seq![ps[0]] + tail =~= ps);
    }
}

} // verus!
