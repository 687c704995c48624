//! The frame wire format shared by the audio track and the clock track:
//! a 4-byte big-endian length followed by exactly that many payload bytes.
use vstd::prelude::*;

verus! {

/// Largest coded audio packet the encoder can produce.
pub const MAX_PACKET_LEN: usize = 4000;

/// Size of the length prefix.
pub const PREFIX_LEN: usize = 4;

/// Size of a clock payload: one big-endian `u64`.
pub const CLOCK_PAYLOAD_LEN: usize = 8;

/// Why a received frame could not be unpacked.
#[derive(Clone, Copy, Debug, PartialEq, Eq, Structural)]
pub enum FrameError {
    /// Fewer than four bytes arrived, so there is no length prefix.
    TooShort { available: usize },
    /// The prefix declares more payload than arrived.
    Truncated { declared: u32, available: usize },
}

/// The four big-endian bytes of `n`.
pub open spec fn be32(n: u32) -> Seq<u8> {
    seq![
        ((n >> 24u32) & 0xffu32) as u8,
        ((n >> 16u32) & 0xffu32) as u8,
        ((n >> 8u32) & 0xffu32) as u8,
        (n & 0xffu32) as u8,
    ]
}

/// The `u32` that the first four bytes of `s` hold, big-endian.
pub open spec fn read_be32(s: Seq<u8>) -> u32
    recommends
        s.len() >= 4,
{
    ((s[0] as u32) << 24u32) | ((s[1] as u32) << 16u32) | ((s[2] as u32) << 8u32) | (s[3] as u32)
}

/// The eight big-endian bytes of `n`.
pub open spec fn be64(n: u64) -> Seq<u8> {
    seq![
        ((n >> 56u64) & 0xffu64) as u8,
        ((n >> 48u64) & 0xffu64) as u8,
        ((n >> 40u64) & 0xffu64) as u8,
        ((n >> 32u64) & 0xffu64) as u8,
        ((n >> 24u64) & 0xffu64) as u8,
        ((n >> 16u64) & 0xffu64) as u8,
        ((n >> 8u64) & 0xffu64) as u8,
        (n & 0xffu64) as u8,
    ]
}

/// The `u64` that the first eight bytes of `s` hold, big-endian.
pub open spec fn read_be64(s: Seq<u8>) -> u64
    recommends
        s.len() >= 8,
{
    ((s[0] as u64) << 56u64) | ((s[1] as u64) << 48u64) | ((s[2] as u64) << 40u64) | ((s[3]
        as u64) << 32u64) | ((s[4] as u64) << 24u64) | ((s[5] as u64) << 16u64) | ((s[6] as u64)
        << 8u64) | (s[7] as u64)
}

/// The frame that carries `payload`.
pub open spec fn frame_spec(payload: Seq<u8>) -> Seq<u8> {
    be32(payload.len() as u32) + payload
}

/// The length that a frame's prefix declares.
pub open spec fn length_prefix(frame: Seq<u8>) -> u32 {
    read_be32(frame)
}

/// What a receiver makes of the bytes of one frame.
pub open spec fn unframe_spec(bytes: Seq<u8>) -> Result<Seq<u8>, FrameError> {
    if bytes.len() < 4 {
        Err(FrameError::TooShort { available: bytes.len() as usize })
    } else if bytes.len() - 4 < length_prefix(bytes) {
        Err(FrameError::Truncated { declared: length_prefix(bytes), available: (bytes.len() - 4) as usize })
    } else {
        Ok(bytes.subrange(4, 4 + length_prefix(bytes)))
    }
}

/// The frame of the clock track that carries `elapsed_ms`.
pub open spec fn clock_frame_spec(elapsed_ms: u64) -> Seq<u8> {
    frame_spec(be64(elapsed_ms))
}

/// What a clock frame says: the value of an 8-byte payload, if it is one.
pub open spec fn clock_value_spec(bytes: Seq<u8>) -> Option<u64> {
    match unframe_spec(bytes) {
        Ok(p) => if p.len() == 8 {
            Some(read_be64(p))
        } else {
            None
        },
        Err(_) => None,
    }
}

pub proof fn lemma_be32_round_trip(n: u32)
    ensures
        read_be32(be32(n)) == n,
        be32(n).len() == 4,
{
    let b0 = ((n >> 24u32) & 0xffu32) as u8;
    let b1 = ((n >> 16u32) & 0xffu32) as u8;
    let b2 = ((n >> 8u32) & 0xffu32) as u8;
    let b3 = (n & 0xffu32) as u8;
    assert(((b0 as u32) << 24u32) | ((b1 as u32) << 16u32) | ((b2 as u32) << 8u32) | (b3 as u32)
        == n) by (bit_vector)
        requires
            b0 == ((n >> 24u32) & 0xffu32) as u8,
            b1 == ((n >> 16u32) & 0xffu32) as u8,
            b2 == ((n >> 8u32) & 0xffu32) as u8,
            b3 == (n & 0xffu32) as u8,
    ;
}

pub proof fn lemma_be64_round_trip(n: u64)
    ensures
        read_be64(be64(n)) == n,
        be64(n).len() == 8,
{
    let b0 = ((n >> 56u64) & 0xffu64) as u8;
    let b1 = ((n >> 48u64) & 0xffu64) as u8;
    let b2 = ((n >> 40u64) & 0xffu64) as u8;
    let b3 = ((n >> 32u64) & 0xffu64) as u8;
    let b4 = ((n >> 24u64) & 0xffu64) as u8;
    let b5 = ((n >> 16u64) & 0xffu64) as u8;
    let b6 = ((n >> 8u64) & 0xffu64) as u8;
    let b7 = (n & 0xffu64) as u8;
    assert(((b0 as u64) << 56u64) | ((b1 as u64) << 48u64) | ((b2 as u64) << 40u64) | ((b3
        as u64) << 32u64) | ((b4 as u64) << 24u64) | ((b5 as u64) << 16u64) | ((b6 as u64)
        << 8u64) | (b7 as u64) == n) by (bit_vector)
        requires
            b0 == ((n >> 56u64) & 0xffu64) as u8,
            b1 == ((n >> 48u64) & 0xffu64) as u8,
            b2 == ((n >> 40u64) & 0xffu64) as u8,
            b3 == ((n >> 32u64) & 0xffu64) as u8,
            b4 == ((n >> 24u64) & 0xffu64) as u8,
            b5 == ((n >> 16u64) & 0xffu64) as u8,
            b6 == ((n >> 8u64) & 0xffu64) as u8,
            b7 == (n & 0xffu64) as u8,
    ;
}

/// Unpacking a frame gives back the payload it was made from, for every
/// payload no longer than the largest coded packet.
pub proof fn lemma_unframe_frame(payload: Seq<u8>)
    requires
        payload.len() <= MAX_PACKET_LEN,
    ensures
        unframe_spec(frame_spec(payload)) == Ok::<Seq<u8>, FrameError>(payload),
{
    let n = payload.len() as u32;
    lemma_be32_round_trip(n);
    let f = frame_spec(payload);
    assert(f.subrange(0, 4) =~= be32(n));
    assert(length_prefix(f) == n);
    assert(f.subrange(4, 4 + n) =~= payload);
}

/// Every frame that `frame` builds holds exactly four bytes more than its
/// prefix declares.
pub proof fn lemma_frame_size(payload: Seq<u8>)
    requires
        payload.len() <= u32::MAX,
    ensures
        frame_spec(payload).len() == PREFIX_LEN + length_prefix(frame_spec(payload)),
{
    lemma_be32_round_trip(payload.len() as u32);
}

/// A frame shorter than its prefix declares is an error that says so, for
/// every such frame.
pub proof fn lemma_truncated_frame(bytes: Seq<u8>)
    requires
        4 <= bytes.len() < 4 + length_prefix(bytes),
    ensures
        unframe_spec(bytes) == Err::<Seq<u8>, FrameError>(
            FrameError::Truncated {
                declared: length_prefix(bytes),
                available: (bytes.len() - 4) as usize,
            },
        ),
{
}

/// Reading a clock frame gives back the value it was made from.
pub proof fn lemma_clock_round_trip(elapsed_ms: u64)
    ensures
        clock_value_spec(clock_frame_spec(elapsed_ms)) == Some(elapsed_ms),
{
    lemma_be64_round_trip(elapsed_ms);
    lemma_unframe_frame(be64(elapsed_ms));
}

fn push_be32(out: &mut Vec<u8>, n: u32)
    ensures
        final(out)@ == old(out)@ + be32(n),
{
    out.push(((n >> 24u32) & 0xffu32) as u8);
    out.push(((n >> 16u32) & 0xffu32) as u8);
    out.push(((n >> 8u32) & 0xffu32) as u8);
    out.push((n & 0xffu32) as u8);
    assert(final(out)@ =~= old(out)@ + be32(n));
}

fn push_all(out: &mut Vec<u8>, bytes: &[u8])
    ensures
        final(out)@ == old(out)@ + bytes@,
{
    let ghost start = out@;
    let mut i: usize = 0;
    while i < bytes.len()
        invariant
            i <= bytes@.len(),
            out@ == start + bytes@.subrange(0, i as int),
        decreases bytes.len() - i,
    {
        out.push(bytes[i]);
        i = i + 1;
        assert(out@ =~= start + bytes@.subrange(0, i as int));
    }
    assert(bytes@.subrange(0, i as int) =~= bytes@);
}

/// Prefixes `payload` with its length.
pub fn frame(payload: &[u8]) -> (r: Vec<u8>)
    requires
        payload@.len() <= u32::MAX,
    ensures
        r@ == frame_spec(payload@),
        r@.len() == PREFIX_LEN + length_prefix(r@),
        payload@.len() <= MAX_PACKET_LEN ==> length_prefix(r@) <= MAX_PACKET_LEN && unframe_spec(r@)
            == Ok::<Seq<u8>, FrameError>(payload@),
{
    let mut out: Vec<u8> = Vec::new();
    push_be32(&mut out, payload.len() as u32);
    push_all(&mut out, payload);
    proof {
        lemma_frame_size(payload@);
        if payload@.len() <= MAX_PACKET_LEN {
            lemma_unframe_frame(payload@);
        }
    }
    out
}

/// Reads the length prefix of `bytes`, which hold at least four bytes.
fn read_prefix(bytes: &[u8]) -> (r: u32)
    requires
        bytes@.len() >= 4,
    ensures
        r == length_prefix(bytes@),
{
    ((bytes[0] as u32) << 24u32) | ((bytes[1] as u32) << 16u32) | ((bytes[2] as u32) << 8u32) | (
    bytes[3] as u32)
}

/// Unpacks one received frame. A frame too short for its prefix, or shorter
/// than its prefix declares, is an error and never a panic. Bytes beyond the
/// declared payload are ignored.
pub fn unframe(bytes: &[u8]) -> (r: Result<Vec<u8>, FrameError>)
    ensures
        match (r, unframe_spec(bytes@)) {
            (Ok(p), Ok(q)) => p@ == q,
            (Err(e), Err(f)) => e == f,
            _ => false,
        },
{
    if bytes.len() < 4 {
        return Err(FrameError::TooShort { available: bytes.len() });
    }
    let declared = read_prefix(bytes);
    let available = bytes.len() - 4;
    if available < declared as usize {
        return Err(FrameError::Truncated { declared, available });
    }
    let mut out: Vec<u8> = Vec::new();
    let end = 4 + declared as usize;
    let mut i: usize = 4;
    while i < end
        invariant
            4 <= i <= end,
            end == 4 + length_prefix(bytes@),
            end <= bytes@.len(),
            out@ == bytes@.subrange(4, i as int),
        decreases end - i,
    {
        out.push(bytes[i]);
        i = i + 1;
        assert(out@ =~= bytes@.subrange(4, i as int));
    }
    Ok(out)
}

/// The frame of the clock track that carries `elapsed_ms`.
pub fn clock_frame(elapsed_ms: u64) -> (r: Vec<u8>)
    ensures
        r@ == clock_frame_spec(elapsed_ms),
        clock_value_spec(r@) == Some(elapsed_ms),
{
    let mut out: Vec<u8> = Vec::new();
    push_be32(&mut out, 8);
    out.push(((elapsed_ms >> 56u64) & 0xffu64) as u8);
    out.push(((elapsed_ms >> 48u64) & 0xffu64) as u8);
    out.push(((elapsed_ms >> 40u64) & 0xffu64) as u8);
    out.push(((elapsed_ms >> 32u64) & 0xffu64) as u8);
    out.push(((elapsed_ms >> 24u64) & 0xffu64) as u8);
    out.push(((elapsed_ms >> 16u64) & 0xffu64) as u8);
    out.push(((elapsed_ms >> 8u64) & 0xffu64) as u8);
    out.push((elapsed_ms & 0xffu64) as u8);
    proof {
        lemma_be64_round_trip(elapsed_ms);
        assert(be32(8) == be32(be64(elapsed_ms).len() as u32));
        assert(out@ =~= clock_frame_spec(elapsed_ms));
        lemma_clock_round_trip(elapsed_ms);
    }
    out
}

/// The elapsed milliseconds that a clock frame carries; `None` when the bytes
/// are not a frame with an 8-byte payload.
pub fn clock_value(bytes: &[u8]) -> (r: Option<u64>)
    ensures
        r == clock_value_spec(bytes@),
{
    match unframe(bytes) {
        Ok(p) => {
            if p.len() == 8 {
                Some(((p[0] as u64) << 56u64) | ((p[1] as u64) << 48u64) | ((p[2] as u64) << 40u64)
                    | ((p[3] as u64) << 32u64) | ((p[4] as u64) << 24u64) | ((p[5] as u64) << 16u64)
                    | ((p[6] as u64) << 8u64) | (p[7] as u64))
            } else {
                None
            }
        },
        Err(_) => None,
    }
}

} // verus!
