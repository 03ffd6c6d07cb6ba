//! Length-prefixed framing of TCP byte streams: an 8-byte big-endian length
//! followed by exactly that many payload bytes.
use vstd::prelude::*;

verus! {

/// Number of bytes in a frame's length prefix.
pub const HEADER_LEN: usize = 8;

/// The big-endian bytes of `n`, most significant first.
pub open spec fn be_bytes(n: u64) -> Seq<u8> {
    seq![
        (n >> 56u64) as u8, (n >> 48u64) as u8, (n >> 40u64) as u8, (n >> 32u64) as u8,
        (n >> 24u64) as u8, (n >> 16u64) as u8, (n >> 8u64) as u8, n as u8,
    ]
}

/// The number whose big-endian bytes are the first eight of `b`.
pub open spec fn be_value(b: Seq<u8>) -> u64
    recommends
        b.len() >= 8,
{
    ((b[0] as u64) << 56u64) | ((b[1] as u64) << 48u64) | ((b[2] as u64) << 40u64)
        | ((b[3] as u64) << 32u64) | ((b[4] as u64) << 24u64) | ((b[5] as u64) << 16u64)
        | ((b[6] as u64) << 8u64) | (b[7] as u64)
}

/// The frame that carries `payload`.
pub open spec fn frame_of(payload: Seq<u8>) -> Seq<u8> {
    be_bytes(payload.len() as u64) + payload
}

/// The first frame at the front of `b`, as its payload and the number of
/// bytes it spans, or `None` while `b` holds only part of a frame.
pub open spec fn parse_frame(b: Seq<u8>) -> Option<(Seq<u8>, nat)> {
    if b.len() < 8 {
        None
    } else {
        let n = be_value(b);
        if b.len() - 8 < n {
            None
        } else {
            Some((b.subrange(8, 8 + n), (8 + n) as nat))
        }
    }
}

proof fn lemma_be_inverse(n: u64)
    ensures
        be_value(be_bytes(n)) == n,
{
    let b = be_bytes(n);
    assert(b[0] == (n >> 56u64) as u8 && b[1] == (n >> 48u64) as u8 && b[2] == (n >> 40u64) as u8
        && b[3] == (n >> 32u64) as u8 && b[4] == (n >> 24u64) as u8 && b[5] == (n >> 16u64) as u8
        && b[6] == (n >> 8u64) as u8 && b[7] == n as u8);
    assert(((((n >> 56u64) as u8) as u64) << 56u64) | ((((n >> 48u64) as u8) as u64) << 48u64)
        | ((((n >> 40u64) as u8) as u64) << 40u64) | ((((n >> 32u64) as u8) as u64) << 32u64)
        | ((((n >> 24u64) as u8) as u64) << 24u64) | ((((n >> 16u64) as u8) as u64) << 16u64)
        | ((((n >> 8u64) as u8) as u64) << 8u64) | ((n as u8) as u64) == n) by (bit_vector);
}

/// A frame read back from the front of a stream yields the payload it was
/// made from, whatever bytes follow it.
pub proof fn lemma_frame_round_trip(payload: Seq<u8>, rest: Seq<u8>)
    requires
        payload.len() <= u64::MAX,
    ensures
        parse_frame(frame_of(payload) + rest) == Some((payload, (8 + payload.len()) as nat)),
{
    let b = frame_of(payload) + rest;
    lemma_be_inverse(payload.len() as u64);
    assert(b.subrange(0, 8) =~= be_bytes(payload.len() as u64));
    assert(be_value(b) == be_value(be_bytes(payload.len() as u64)));
    assert(b.subrange(8, 8 + payload.len() as int) =~= payload);
}

/// The length prefix announcing a payload of `n` bytes.
pub fn length_prefix(n: u64) -> (r: [u8; 8])
    ensures
        r@ == be_bytes(n),
{
    let r = [
        (n >> 56u64) as u8, (n >> 48u64) as u8, (n >> 40u64) as u8, (n >> 32u64) as u8,
        (n >> 24u64) as u8, (n >> 16u64) as u8, (n >> 8u64) as u8, n as u8,
    ];
    assert(r@ =~= be_bytes(n));
    r
}

/// The payload length announced by the first eight bytes of `header`.
pub fn read_length_prefix(header: &[u8]) -> (r: u64)
    requires
        header@.len() >= 8,
    ensures
        r == be_value(header@),
{
    ((header[0] as u64) << 56u64) | ((header[1] as u64) << 48u64) | ((header[2] as u64) << 40u64)
        | ((header[3] as u64) << 32u64) | ((header[4] as u64) << 24u64) | ((header[5] as u64) << 16u64)
        | ((header[6] as u64) << 8u64) | (header[7] as u64)
}

/// The frame carrying `payload`: its length prefix, then the payload itself.
pub fn encode_frame(payload: &[u8]) -> (r: Vec<u8>)
    requires
        payload@.len() <= u64::MAX,
    ensures
        r@ == frame_of(payload@),
{
    let header = length_prefix(payload.len() as u64);
    let mut out: Vec<u8> = Vec::new();
    let mut i: usize = 0;
    while i < HEADER_LEN
        invariant
            0 <= i <= 8,
            header@ == be_bytes(payload@.len() as u64),
            out@ == header@.subrange(0, i as int),
        decreases 8 - i,
    {
        out.push(header[i]);
        i = i + 1;
        assert(out@ =~= header@.subrange(0, i as int));
    }
    let mut j: usize = 0;
    while j < payload.len()
        invariant
            0 <= j <= payload@.len(),
            out@ == header@ + payload@.subrange(0, j as int),
            header@ == be_bytes(payload@.len() as u64),
        decreases payload@.len() - j,
    {
        out.push(payload[j]);
        j = j + 1;
        assert(out@ =~= header@ + payload@.subrange(0, j as int));
    }
    assert(payload@.subrange(0, payload@.len() as int) =~= payload@);
    out
}

/// Outcome of reading one frame from the front of a buffer.
#[derive(Debug, Clone, PartialEq, Eq)]
pub enum FrameDecode {
    /// The buffer ends inside the length prefix or inside the payload.
    Incomplete,
    /// A whole frame: its payload and the number of buffer bytes it spans.
    Complete { payload: Vec<u8>, consumed: usize },
}

/// Reads the first frame from the front of `buf`.
pub fn decode_frame(buf: &[u8]) -> (r: FrameDecode)
    ensures
        match parse_frame(buf@) {
            None => r is Incomplete,
            Some((p, n)) => r matches FrameDecode::Complete { payload, consumed }
                && payload@ == p && consumed == n,
        },
{
    if buf.len() < HEADER_LEN {
        return FrameDecode::Incomplete;
    }
    let n = read_length_prefix(buf);
    let available = buf.len() - HEADER_LEN;
    if (available as u64) < n {
        return FrameDecode::Incomplete;
    }
    let end = HEADER_LEN + n as usize;
    let mut payload: Vec<u8> = Vec::new();
    let mut i: usize = HEADER_LEN;
    while i < end
        invariant
            8 <= i <= end,
            end == 8 + n,
            end <= buf@.len(),
            payload@ == buf@.subrange(8, i as int),
        decreases end - i,
    {
        payload.push(buf[i]);
        i = i + 1;
        assert(payload@ =~= buf@.subrange(8, i as int));
    }
    FrameDecode::Complete { payload, consumed: end }
}

} // verus!
