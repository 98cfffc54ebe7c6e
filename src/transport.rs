//! Command framing: a 4-byte big-endian length, then that many body bytes.
use vstd::prelude::*;

verus! {

/// The largest body a frame can carry.
pub const MAX_BODY_LEN: u64 = 4294967295;

/// Why a byte sequence is not a frame.
#[derive(Debug, Clone, Copy, PartialEq, Eq, Structural)]
pub enum FrameError {
    /// The body does not fit a 32-bit length.
    TooLarge,
    /// The stream ended before any byte: a liveness probe, not a failure.
    Empty,
    /// The stream ended inside the 4-byte length.
    ShortHeader,
    /// The stream ended before the whole body arrived.
    Truncated,
}

/// The value of four bytes read as a big-endian unsigned integer.
pub open spec fn be_value(b0: u8, b1: u8, b2: u8, b3: u8) -> nat {
    (b0 as nat) * 16777216 + (b1 as nat) * 65536 + (b2 as nat) * 256 + (b3 as nat)
}

/// The four big-endian bytes of `n`.
pub open spec fn be_bytes(n: nat) -> Seq<u8> {
    seq![(n / 16777216 % 256) as u8, (n / 65536 % 256) as u8, (n / 256 % 256) as u8, (n % 256) as u8]
}

/// A frame around `body`.
pub open spec fn framed(body: Seq<u8>) -> Seq<u8> {
    be_bytes(body.len()) + body
}

/// What a receiver makes of `bytes`: the body announced by the length
/// prefix; bytes past it are never read.
pub open spec fn unframed(bytes: Seq<u8>) -> Result<Seq<u8>, FrameError> {
    if bytes.len() == 0 {
        Err(FrameError::Empty)
    } else if bytes.len() < 4 {
        Err(FrameError::ShortHeader)
    } else {
        let n = be_value(bytes[0], bytes[1], bytes[2], bytes[3]);
        if bytes.len() < 4 + n {
            Err(FrameError::Truncated)
        } else {
            Ok(bytes.subrange(4, 4 + n as int))
        }
    }
}

proof fn lemma_be_round_trip(n: nat)
    requires
        n <= MAX_BODY_LEN,
    ensures
        be_value(be_bytes(n)[0], be_bytes(n)[1], be_bytes(n)[2], be_bytes(n)[3]) == n,
{
    let x = n as u32;
    assert(((x / 16777216) % 256) * 16777216 + ((x / 65536) % 256) * 65536 + ((x / 256) % 256) * 256 + x % 256 == x) by (bit_vector);
}

/// Reads a 4-byte big-endian length prefix.
pub fn body_len(header: &[u8; 4]) -> (r: u32)
    ensures
        r as nat == be_value(header@[0], header@[1], header@[2], header@[3]),
{
    let b0 = header[0] as u32;
    let b1 = header[1] as u32;
    let b2 = header[2] as u32;
    let b3 = header[3] as u32;
    b0 * 16777216 + b1 * 65536 + b2 * 256 + b3
}

/// Wraps `body` in a frame; a body longer than a 32-bit length is refused.
pub fn frame(body: &[u8]) -> (r: Result<Vec<u8>, FrameError>)
    ensures
        body@.len() > MAX_BODY_LEN ==> r == Err::<Vec<u8>, FrameError>(FrameError::TooLarge),
        body@.len() <= MAX_BODY_LEN ==> r is Ok && r->Ok_0@ == framed(body@),
{
    if body.len() as u64 > MAX_BODY_LEN {
        return Err(FrameError::TooLarge);
    }
    let n = body.len() as u32;
    let mut out: Vec<u8> = Vec::new();
    out.push((n / 16777216 % 256) as u8);
    out.push((n / 65536 % 256) as u8);
    out.push((n / 256 % 256) as u8);
    out.push((n % 256) as u8);
    let ghost head = out@;
    assert(head == be_bytes(body@.len()));
    let mut i: usize = 0;
    while i < body.len()
        invariant
            i <= body@.len(),
            out@ == head + body@.subrange(0, i as int),
        decreases body@.len() - i,
    {
        out.push(body[i]);
        i = i + 1;
        assert(body@.subrange(0, i as int) == body@.subrange(0, i - 1 as int).push(body@[i - 1]));
    }
    assert(body@.subrange(0, body@.len() as int) == body@);
    Ok(out)
}

/// Takes the body out of a received frame.
pub fn unframe(bytes: &[u8]) -> (r: Result<Vec<u8>, FrameError>)
    ensures
        r matches Ok(v) ==> unframed(bytes@) == Ok::<Seq<u8>, FrameError>(v@),
        r matches Err(e) ==> unframed(bytes@) == Err::<Seq<u8>, FrameError>(e),
{
    if bytes.len() == 0 {
        return Err(FrameError::Empty);
    }
    if bytes.len() < 4 {
        return Err(FrameError::ShortHeader);
    }
    let header: [u8; 4] = [bytes[0], bytes[1], bytes[2], bytes[3]];
    let n = body_len(&header) as usize;
    if bytes.len() - 4 < n {
        return Err(FrameError::Truncated);
    }
    let mut out: Vec<u8> = Vec::with_capacity(n);
    let mut i: usize = 0;
    while i < n
        invariant
            i <= n,
            4 + n <= bytes@.len(),
            bytes@.len() <= usize::MAX,
            out@ == bytes@.subrange(4, 4 + i as int),
        decreases n - i,
    {
        out.push(bytes[4 + i]);
        i = i + 1;
        assert(bytes@.subrange(4, 4 + i as int) == bytes@.subrange(4, 4 + i - 1 as int).push(bytes@[4 + i - 1]));
    }
    Ok(out)
}

/// Framing round trip: whatever body fits a 32-bit length comes out of its
/// frame unchanged.
pub proof fn lemma_frame_round_trip(body: Seq<u8>)
    requires
        body.len() <= MAX_BODY_LEN,
    ensures
        unframed(framed(body)) == Ok::<Seq<u8>, FrameError>(body),
{
    lemma_be_round_trip(body.len());
    let f = framed(body);
    assert(f.subrange(4, 4 + body.len() as int) == body);
}

} // verus!
