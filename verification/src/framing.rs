//! Message framing, on bytes.
//!
//! Two framings live in the system.  Control connections use
//! record-delimited framing: every command and response frame is
//! followed by the single sentinel byte [`MSG_SPLITTER`].  The input
//! event wire uses length-prefixed framing: a four-byte big-endian
//! length, then that many payload bytes.  Both are defined here as
//! functions on byte sequences; the host only moves bytes.

use vstd::prelude::*;

verus! {

/// The sentinel byte that ends every control frame.
pub const MSG_SPLITTER: u8 = 0x1e;

/// Index of the first sentinel at or after `i`, or the length.
pub open spec fn spec_first_splitter(buf: Seq<u8>, i: int) -> int
    decreases buf.len() - i,
{
    if 0 <= i < buf.len() {
        if buf[i] == MSG_SPLITTER {
            i
        } else {
            spec_first_splitter(buf, i + 1)
        }
    } else {
        i
    }
}

/// The first complete control frame of `buf` and the bytes after its
/// sentinel, or `None` while no sentinel has arrived yet.
pub open spec fn spec_split_frame(buf: Seq<u8>) -> Option<(Seq<u8>, Seq<u8>)> {
    let k = spec_first_splitter(buf, 0);
    if k < buf.len() {
        Some((buf.take(k), buf.skip(k + 1)))
    } else {
        None
    }
}

fn first_splitter(buf: &Vec<u8>, i: usize) -> (r: usize)
    requires
        i <= buf@.len(),
    ensures
        r as int == spec_first_splitter(buf@, i as int),
        i <= r <= buf@.len(),
        r < buf@.len() ==> buf@[r as int] == MSG_SPLITTER,
    decreases buf@.len() - i,
{
    if i < buf.len() {
        if buf[i] == MSG_SPLITTER {
            i
        } else {
            first_splitter(buf, i + 1)
        }
    } else {
        i
    }
}

/// Take the first complete control frame out of `buf`: the bytes
/// before the first sentinel, and the bytes after it.  `None` while
/// the buffer holds no sentinel; the connection then needs more
/// input.  A connection may carry unboundedly many frames; the host
/// calls this until it answers `None`.
pub fn split_frame(buf: &Vec<u8>) -> (r: Option<(Vec<u8>, Vec<u8>)>)
    ensures
        match (r, spec_split_frame(buf@)) {
            (Some(p), Some(q)) => p.0@ == q.0 && p.1@ == q.1,
            (None, None) => true,
            _ => false,
        },
{
    let k = first_splitter(buf, 0);
    if k < buf.len() {
        let mut frame: Vec<u8> = Vec::new();
        let mut i: usize = 0;
        while i < k
            invariant
                i <= k,
                k < buf@.len(),
                frame@ == buf@.take(k as int).take(i as int),
            decreases k - i,
        {
            frame.push(buf[i]);
            proof {
                assert(buf@.take(k as int).take(i + 1) =~= buf@.take(k as int).take(
                    i as int,
                ).push(buf@[i as int]));
            }
            i += 1;
        }
        let mut rest: Vec<u8> = Vec::new();
        let mut j: usize = k + 1;
        while j < buf.len()
            invariant
                k + 1 <= j <= buf@.len(),
                rest@ == buf@.skip(k + 1).take(j - (k + 1)),
            decreases buf@.len() - j,
        {
            rest.push(buf[j]);
            proof {
                assert(buf@.skip(k + 1).take(j + 1 - (k + 1)) =~= buf@.skip(k + 1).take(
                    j - (k + 1),
                ).push(buf@[j as int]));
            }
            j += 1;
        }
        proof {
            assert(frame@ =~= buf@.take(k as int));
            assert(rest@ =~= buf@.skip(k + 1));
        }
        Some((frame, rest))
    } else {
        None
    }
}

/// Append `msg` and its closing sentinel to the output buffer.
pub fn push_framed(msg: &Vec<u8>, out: &mut Vec<u8>)
    ensures
        final(out)@ == old(out)@ + msg@ + seq![MSG_SPLITTER],
{
    let mut i: usize = 0;
    while i < msg.len()
        invariant
            i <= msg@.len(),
            out@ == old(out)@ + msg@.take(i as int),
        decreases msg@.len() - i,
    {
        out.push(msg[i]);
        proof {
            assert(old(out)@ + msg@.take(i + 1) =~= (old(out)@ + msg@.take(i as int)).push(
                msg@[i as int],
            ));
        }
        i += 1;
    }
    out.push(MSG_SPLITTER);
    proof {
        assert(msg@.take(msg@.len() as int) =~= msg@);
        assert(final(out)@ =~= old(out)@ + msg@ + seq![MSG_SPLITTER]);
    }
}

/// The value of a four-byte big-endian length header.
pub open spec fn spec_be_len(b0: u8, b1: u8, b2: u8, b3: u8) -> int {
    b0 as int * 0x1000000 + b1 as int * 0x10000 + b2 as int * 0x100 + b3 as int
}

/// Read a four-byte big-endian length header.
pub fn be_len(b0: u8, b1: u8, b2: u8, b3: u8) -> (r: u32)
    ensures
        r as int == spec_be_len(b0, b1, b2, b3),
{
    b0 as u32 * 0x1000000 + b1 as u32 * 0x10000 + b2 as u32 * 0x100 + b3 as u32
}

/// The four big-endian header bytes of a payload length.
pub fn be_bytes(n: u32) -> (r: (u8, u8, u8, u8))
    ensures
        spec_be_len(r.0, r.1, r.2, r.3) == n as int,
{
    let b0 = (n / 0x1000000) as u8;
    let b1 = ((n / 0x10000) % 0x100) as u8;
    let b2 = ((n / 0x100) % 0x100) as u8;
    let b3 = (n % 0x100) as u8;
    (b0, b1, b2, b3)
}

/// One length-prefixed event-wire frame: `None` while fewer bytes
/// than the header announces have arrived, otherwise the payload and
/// the bytes after it.
pub open spec fn spec_split_sized_frame(buf: Seq<u8>) -> Option<(Seq<u8>, Seq<u8>)> {
    if buf.len() < 4 {
        None
    } else {
        let n = spec_be_len(buf[0], buf[1], buf[2], buf[3]);
        if buf.len() < 4 + n {
            None
        } else {
            Some((buf.subrange(4, 4 + n), buf.skip(4 + n)))
        }
    }
}

/// Take the first complete length-prefixed frame out of `buf`.
pub fn split_sized_frame(buf: &Vec<u8>) -> (r: Option<(Vec<u8>, Vec<u8>)>)
    ensures
        match (r, spec_split_sized_frame(buf@)) {
            (Some(p), Some(q)) => p.0@ == q.0 && p.1@ == q.1,
            (None, None) => true,
            _ => false,
        },
{
    if buf.len() < 4 {
        return None;
    }
    let n = be_len(buf[0], buf[1], buf[2], buf[3]) as usize;
    if buf.len() - 4 < n {
        return None;
    }
    let end = 4 + n;
    let mut payload: Vec<u8> = Vec::new();
    let mut i: usize = 4;
    while i < end
        invariant
            4 <= i <= end,
            end <= buf@.len(),
            payload@ == buf@.subrange(4, i as int),
        decreases end - i,
    {
        payload.push(buf[i]);
        proof {
            assert(buf@.subrange(4, i + 1) =~= buf@.subrange(4, i as int).push(buf@[i as int]));
        }
        i += 1;
    }
    let mut rest: Vec<u8> = Vec::new();
    let mut j: usize = end;
    while j < buf.len()
        invariant
            end <= j <= buf@.len(),
            rest@ == buf@.skip(end as int).take(j - end),
        decreases buf@.len() - j,
    {
        rest.push(buf[j]);
        proof {
            assert(buf@.skip(end as int).take(j + 1 - end) =~= buf@.skip(end as int).take(
                j - end,
            ).push(buf@[j as int]));
        }
        j += 1;
    }
    proof {
        assert(rest@ =~= buf@.skip(end as int));
    }
    Some((payload, rest))
}

} // verus!
