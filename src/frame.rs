//! Audio frames and the big-endian decoding of raw capture buffers.

use vstd::prelude::*;

verus! {

/// One sampling instant: a single sample, or a (left, right) pair.
#[derive(Debug, Clone, Copy, PartialEq, Eq, Structural)]
pub enum Sample {
    Mono(i16),
    Stereo(i16, i16),
}

/// The value of a 16-bit two's-complement integer whose most significant
/// byte is `hi` and least significant byte is `lo`.
pub open spec fn be16_value(hi: u8, lo: u8) -> i16 {
    let u = hi as int * 256 + lo as int;
    (if u >= 0x8000 { u - 0x10000 } else { u }) as i16
}

/// The two bytes of `x` in big-endian order (two's complement).
pub open spec fn be16_bytes(x: i16) -> Seq<u8> {
    let u = if x < 0 { x as int + 0x10000 } else { x as int };
    seq![(u / 256) as u8, (u % 256) as u8]
}

/// Bytes taken by one frame in a capture buffer.
pub open spec fn frame_width(stereo: bool) -> nat {
    if stereo { 4 } else { 2 }
}

/// Frame `k` of buffer `b`.
pub open spec fn decode_frame(b: Seq<u8>, k: int, stereo: bool) -> Sample {
    if stereo {
        Sample::Stereo(be16_value(b[4 * k], b[4 * k + 1]), be16_value(b[4 * k + 2], b[4 * k + 3]))
    } else {
        Sample::Mono(be16_value(b[2 * k], b[2 * k + 1]))
    }
}

/// The frames that a buffer holds; a trailing partial frame is dropped.
pub open spec fn decode(b: Seq<u8>, stereo: bool) -> Seq<Sample> {
    Seq::new(b.len() / frame_width(stereo), |k: int| decode_frame(b, k, stereo))
}

/// Whether a frame has the shape of a recording with `channels` channels.
pub open spec fn has_channels(s: Sample, channels: nat) -> bool {
    match s {
        Sample::Mono(_) => channels == 1,
        Sample::Stereo(_, _) => channels == 2,
    }
}

/// Whether every frame of `fs` has the shape of a `channels`-channel recording.
pub open spec fn all_have_channels(fs: Seq<Sample>, channels: nat) -> bool {
    forall|k: int| 0 <= k < fs.len() ==> has_channels(#[trigger] fs[k], channels)
}

/// Reads a big-endian 16-bit signed sample from two bytes.
pub fn i16_from_be(hi: u8, lo: u8) -> (r: i16)
    ensures
        r == be16_value(hi, lo),
{
    let u: u32 = hi as u32 * 256 + lo as u32;
    if u >= 0x8000 {
        (u as i32 - 0x10000) as i16
    } else {
        u as i16
    }
}

/// Splits a 16-bit signed sample into its big-endian bytes.
pub fn i16_to_be(x: i16) -> (r: (u8, u8))
    ensures
        seq![r.0, r.1] == be16_bytes(x),
{
    let u: u32 = if x < 0 { (x as i32 + 0x10000) as u32 } else { x as u32 };
    ((u / 256) as u8, (u % 256) as u8)
}

/// Decodes `buffer` as interleaved big-endian 16-bit samples (two per frame
/// when `stereo`, one otherwise) and appends the frames to `data`. A trailing
/// partial frame is ignored. The bytes are read big-endian whatever byte order
/// the capture source was configured with.
pub fn append_buffer(data: &mut Vec<Sample>, buffer: &[u8], stereo: bool)
    ensures
        final(data)@ == old(data)@ + decode(buffer@, stereo),
        final(data)@.len() == old(data)@.len() + buffer@.len() / frame_width(stereo),
{
    let width: usize = if stereo { 4 } else { 2 };
    let len: usize = buffer.len();
    let n: usize = len / width;
    let mut k: usize = 0;
    while k < n
        invariant
            width == frame_width(stereo),
            len == buffer@.len(),
            n == buffer@.len() / frame_width(stereo),
            k <= n,
            data@ == old(data)@ + decode(buffer@, stereo).subrange(0, k as int),
        decreases n - k,
    {
        proof {
            assert(k * width + width <= n * width) by (nonlinear_arith)
                requires k < n;
            assert(n * width <= buffer@.len()) by (nonlinear_arith)
                requires n == buffer@.len() as int / (width as int), width > 0;
        }
        let i: usize = k * width;
        let s = if stereo {
            Sample::Stereo(i16_from_be(buffer[i], buffer[i + 1]), i16_from_be(buffer[i + 2], buffer[i + 3]))
        } else {
            Sample::Mono(i16_from_be(buffer[i], buffer[i + 1]))
        };
        data.push(s);
        k = k + 1;
        assert(decode(buffer@, stereo).subrange(0, k as int) =~= decode(buffer@, stereo).subrange(
            0,
            k - 1,
        ).push(s));
    }
    assert(decode(buffer@, stereo).subrange(0, n as int) =~= decode(buffer@, stereo));
}

/// Each frame of a decoded buffer has the shape of its channel mode.
pub proof fn lemma_decode_channels(b: Seq<u8>, stereo: bool)
    ensures
        all_have_channels(decode(b, stereo), if stereo { 2 } else { 1 }),
{
}

/// Re-encoding the decoded value of two bytes gives back those two bytes.
pub proof fn lemma_be16_round_trip(hi: u8, lo: u8)
    ensures
        be16_bytes(be16_value(hi, lo)) == seq![hi, lo],
{
    let u = hi as int * 256 + lo as int;
    vstd::arithmetic::div_mod::lemma_fundamental_div_mod_converse(u, 256, hi as int, lo as int);
    assert(be16_bytes(be16_value(hi, lo)) =~= seq![hi, lo]);
}

} // verus!
