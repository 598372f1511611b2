//! The canonical WAV container: a 44-byte RIFF/WAVE header followed by the
//! samples as big-endian 16-bit values.

use vstd::prelude::*;
use crate::frame::{Sample, be16_bytes, i16_to_be, has_channels, all_have_channels};
use crate::round_trip::lemma_wav_len;

verus! {

/// Bit depth of every sample written.
pub const BITS_PER_SAMPLE: u16 = 16;

/// Length of the header that precedes the sample data.
pub const HEADER_LEN: usize = 44;

/// The low two bytes of `v`, least significant first.
pub open spec fn le16(v: nat) -> Seq<u8> {
    seq![(v % 256) as u8, (v / 256 % 256) as u8]
}

/// The low four bytes of `v`, least significant first.
pub open spec fn le32(v: nat) -> Seq<u8> {
    seq![
        (v % 256) as u8,
        (v / 256 % 256) as u8,
        (v / 256 / 256 % 256) as u8,
        (v / 256 / 256 / 256 % 256) as u8,
    ]
}

/// The little-endian 16-bit value stored at `at`.
pub open spec fn read_le16(b: Seq<u8>, at: int) -> nat {
    (b[at] + 256 * b[at + 1]) as nat
}

/// The little-endian 32-bit value stored at `at`.
pub open spec fn read_le32(b: Seq<u8>, at: int) -> nat {
    (b[at] + 256 * (b[at + 1] + 256 * (b[at + 2] + 256 * b[at + 3]))) as nat
}

/// The four ASCII bytes of a chunk identifier.
pub open spec fn tag(a: char, b: char, c: char, d: char) -> Seq<u8> {
    seq![a as u8, b as u8, c as u8, d as u8]
}

/// Bytes of sample data for `frame_count` frames of `channels` channels.
pub open spec fn data_size(frame_count: nat, channels: nat) -> nat {
    frame_count * 2 * channels
}

/// Bytes of sample data per second.
pub open spec fn byte_rate(sample_rate: nat, channels: nat) -> nat {
    sample_rate * channels * BITS_PER_SAMPLE as nat / 8
}

/// Bytes per frame.
pub open spec fn block_align(channels: nat) -> nat {
    channels * BITS_PER_SAMPLE as nat / 8
}

/// Whether a header for these values can be written: the channel count is
/// one a frame can have, and the sizes fit their 32-bit fields.
pub open spec fn header_fits(frame_count: nat, sample_rate: nat, channels: nat) -> bool {
    &&& channels == 1 || channels == 2
    &&& 36 + data_size(frame_count, channels) <= u32::MAX
    &&& byte_rate(sample_rate, channels) <= u32::MAX
}

/// The 44-byte header of a file holding `frame_count` frames.
pub open spec fn header_bytes(sample_rate: nat, channels: nat, frame_count: nat) -> Seq<u8> {
    let ds = data_size(frame_count, channels);
    tag('R', 'I', 'F', 'F') + le32(36 + ds) + tag('W', 'A', 'V', 'E') + tag('f', 'm', 't', ' ')
        + le32(16) + le16(1) + le16(channels) + le32(sample_rate) + le32(
        byte_rate(sample_rate, channels),
    ) + le16(block_align(channels)) + le16(BITS_PER_SAMPLE as nat) + tag('d', 'a', 't', 'a')
        + le32(ds)
}

/// The data bytes of one frame: a stereo frame is written right channel first.
pub open spec fn sample_bytes(s: Sample) -> Seq<u8> {
    match s {
        Sample::Mono(x) => be16_bytes(x),
        Sample::Stereo(left, right) => be16_bytes(right) + be16_bytes(left),
    }
}

/// The data bytes of a frame sequence, frame after frame.
pub open spec fn samples_bytes(fs: Seq<Sample>) -> Seq<u8>
    decreases fs.len(),
{
    if fs.len() == 0 {
        seq![]
    } else {
        samples_bytes(fs.drop_last()) + sample_bytes(fs.last())
    }
}

/// The whole file for a frame sequence.
pub open spec fn wav_bytes(fs: Seq<Sample>, sample_rate: nat, channels: nat) -> Seq<u8> {
    header_bytes(sample_rate, channels, fs.len()) + samples_bytes(fs)
}

fn push_le16(out: &mut Vec<u8>, v: u16)
    ensures
        final(out)@ == old(out)@ + le16(v as nat),
{
    out.push((v % 256) as u8);
    out.push((v / 256 % 256) as u8);
    assert(final(out)@ =~= old(out)@ + le16(v as nat));
}

fn push_le32(out: &mut Vec<u8>, v: u32)
    ensures
        final(out)@ == old(out)@ + le32(v as nat),
{
    out.push((v % 256) as u8);
    out.push((v / 256 % 256) as u8);
    out.push((v / 256 / 256 % 256) as u8);
    out.push((v / 256 / 256 / 256 % 256) as u8);
    assert(final(out)@ =~= old(out)@ + le32(v as nat));
}

fn push_tag(out: &mut Vec<u8>, a: char, b: char, c: char, d: char)
    requires
        (a as u32) < 128,
        (b as u32) < 128,
        (c as u32) < 128,
        (d as u32) < 128,
    ensures
        final(out)@ == old(out)@ + tag(a, b, c, d),
{
    out.push(a as u8);
    out.push(b as u8);
    out.push(c as u8);
    out.push(d as u8);
    assert(final(out)@ =~= old(out)@ + tag(a, b, c, d));
}

proof fn lemma_header_arith(frame_count: nat, sample_rate: nat, channels: nat)
    requires
        header_fits(frame_count, sample_rate, channels),
    ensures
        frame_count <= u32::MAX,
        frame_count * 2 * channels == data_size(frame_count, channels),
        block_align(channels) == channels * 2,
        byte_rate(sample_rate, channels) == sample_rate * (channels * 2),
{
    assert(frame_count <= frame_count * 2 * channels) by (nonlinear_arith)
        requires channels >= 1;
    assert(sample_rate * channels * 16 / 8 == sample_rate * (channels * 2)) by (nonlinear_arith);
}

/// Writes the 44-byte header of a file holding `frame_count` frames.
pub fn encode_header(sample_rate: u32, num_channels: u16, frame_count: usize) -> (r: Vec<u8>)
    requires
        header_fits(frame_count as nat, sample_rate as nat, num_channels as nat),
    ensures
        r@ == header_bytes(sample_rate as nat, num_channels as nat, frame_count as nat),
        r@.len() == HEADER_LEN,
{
    proof {
        lemma_header_arith(frame_count as nat, sample_rate as nat, num_channels as nat);
    }
    let ds: u32 = (frame_count as u32) * 2 * (num_channels as u32);
    let align: u16 = num_channels * BITS_PER_SAMPLE / 8;
    let rate: u32 = sample_rate * (align as u32);
    let mut out: Vec<u8> = Vec::with_capacity(HEADER_LEN);
    push_tag(&mut out, 'R', 'I', 'F', 'F');
    push_le32(&mut out, 36 + ds);
    push_tag(&mut out, 'W', 'A', 'V', 'E');
    push_tag(&mut out, 'f', 'm', 't', ' ');
    push_le32(&mut out, 16);
    push_le16(&mut out, 1);
    push_le16(&mut out, num_channels);
    push_le32(&mut out, sample_rate);
    push_le32(&mut out, rate);
    push_le16(&mut out, align);
    push_le16(&mut out, BITS_PER_SAMPLE);
    push_tag(&mut out, 'd', 'a', 't', 'a');
    push_le32(&mut out, ds);
    assert(out@ =~= header_bytes(sample_rate as nat, num_channels as nat, frame_count as nat));
    out
}

} // verus!

verus! {

fn push_sample(out: &mut Vec<u8>, s: Sample)
    ensures
        final(out)@ == old(out)@ + sample_bytes(s),
{
    match s {
        Sample::Mono(x) => {
            let (hi, lo) = i16_to_be(x);
            out.push(hi);
            out.push(lo);
        },
        Sample::Stereo(left, right) => {
            let (hi, lo) = i16_to_be(right);
            out.push(hi);
            out.push(lo);
            let (hi, lo) = i16_to_be(left);
            out.push(hi);
            out.push(lo);
        },
    }
    assert(final(out)@ =~= old(out)@ + sample_bytes(s));
}

/// Encodes a whole WAV file: the header for `data.len()` frames of
/// `num_channels` channels at `sample_rate`, then each frame's samples as
/// big-endian 16-bit values (a stereo frame right channel first).
pub fn encode_wav(data: &Vec<Sample>, sample_rate: u32, num_channels: u16) -> (r: Vec<u8>)
    requires
        header_fits(data@.len(), sample_rate as nat, num_channels as nat),
        all_have_channels(data@, num_channels as nat),
    ensures
        r@ == wav_bytes(data@, sample_rate as nat, num_channels as nat),
        r@.len() == HEADER_LEN + data@.len() * 2 * num_channels,
{
    proof {
        lemma_wav_len(data@, sample_rate as nat, num_channels as nat);
    }
    let mut out = encode_header(sample_rate, num_channels, data.len());
    let mut i: usize = 0;
    while i < data.len()
        invariant
            i <= data@.len(),
            out@ == header_bytes(sample_rate as nat, num_channels as nat, data@.len())
                + samples_bytes(data@.subrange(0, i as int)),
        decreases data@.len() - i,
    {
        push_sample(&mut out, data[i]);
        proof {
            let pre = data@.subrange(0, i as int);
            let next = data@.subrange(0, i + 1);
            assert(next.drop_last() =~= pre);
            assert(samples_bytes(next) == samples_bytes(pre) + sample_bytes(data@[i as int]));
        }
        i = i + 1;
    }
    assert(data@.subrange(0, data@.len() as int) =~= data@);
    out
}

} // verus!

verus! {

/// Whether `encode_wav` accepts these arguments: the channel count is 1 or 2,
/// every frame has that shape, and the sizes fit the header's 32-bit fields.
pub fn can_encode(data: &Vec<Sample>, sample_rate: u32, num_channels: u16) -> (r: bool)
    ensures
        r == (header_fits(data@.len(), sample_rate as nat, num_channels as nat)
            && all_have_channels(data@, num_channels as nat)),
{
    if num_channels != 1 && num_channels != 2 {
        return false;
    }
    let fc = data.len() as u128;
    let ch = num_channels as u128;
    proof {
        assert(fc * 2 * ch <= 0x4_0000_0000_0000_0000) by (nonlinear_arith)
            requires fc <= 0xffff_ffff_ffff_ffff, ch <= 2;
        assert(sample_rate * num_channels * 16 / 8 == sample_rate * ch * 2) by (nonlinear_arith)
            requires ch == num_channels;
    }
    if !(36 + fc * 2 * ch <= u32::MAX as u128 && sample_rate as u128 * ch * 2 <= u32::MAX as u128) {
        return false;
    }
    let mut i: usize = 0;
    while i < data.len()
        invariant
            i <= data@.len(),
            num_channels == 1 || num_channels == 2,
            forall|k: int| 0 <= k < i ==> has_channels(#[trigger] data@[k], num_channels as nat),
        decreases data@.len() - i,
    {
        let ok = match data[i] {
            Sample::Mono(_) => num_channels == 1,
            Sample::Stereo(_, _) => num_channels == 2,
        };
        if !ok {
            return false;
        }
        i = i + 1;
    }
    true
}

} // verus!

verus! {

proof fn lemma_le16_read_back(v: nat)
    requires
        v <= u16::MAX,
    ensures
        read_le16(le16(v), 0) == v,
{
    vstd::arithmetic::div_mod::lemma_fundamental_div_mod(v as int, 256);
}

proof fn lemma_le32_read_back(v: nat)
    requires
        v <= u32::MAX,
    ensures
        read_le32(le32(v), 0) == v,
{
    let q1 = v / 256;
    let q2 = q1 / 256;
    let q3 = q2 / 256;
    vstd::arithmetic::div_mod::lemma_fundamental_div_mod(v as int, 256);
    vstd::arithmetic::div_mod::lemma_fundamental_div_mod(q1 as int, 256);
    vstd::arithmetic::div_mod::lemma_fundamental_div_mod(q2 as int, 256);
    let r0 = v % 256;
    let r1 = q1 % 256;
    let r2 = q2 % 256;
    assert(q3 < 256) by (nonlinear_arith)
        requires
            v == 256 * (256 * (256 * q3 + r2) + r1) + r0,
            v <= u32::MAX,
            r0 >= 0,
            r1 >= 0,
            r2 >= 0,
    ;
}

/// Reading the header's little-endian fields back gives the chunk size
/// `36 + frame_count * 2 * channels`, the channel count, the sample rate, the
/// byte rate `sample_rate * channels * 16 / 8`, the block alignment
/// `channels * 16 / 8`, the bit depth and the data size
/// `frame_count * 2 * channels`.
#[verifier::rlimit(50)]
pub proof fn lemma_header_fields(sample_rate: nat, channels: nat, frame_count: nat)
    requires
        header_fits(frame_count, sample_rate, channels),
        sample_rate <= u32::MAX,
    ensures
        ({
            let h = header_bytes(sample_rate, channels, frame_count);
            &&& h.len() == HEADER_LEN
            &&& h.subrange(0, 4) == tag('R', 'I', 'F', 'F')
            &&& read_le32(h, 4) == 36 + frame_count * 2 * channels
            &&& h.subrange(8, 16) == tag('W', 'A', 'V', 'E') + tag('f', 'm', 't', ' ')
            &&& read_le32(h, 16) == 16
            &&& read_le16(h, 20) == 1
            &&& read_le16(h, 22) == channels
            &&& read_le32(h, 24) == sample_rate
            &&& read_le32(h, 28) == sample_rate * channels * 16 / 8
            &&& read_le16(h, 32) == channels * 16 / 8
            &&& read_le16(h, 34) == 16
            &&& h.subrange(36, 40) == tag('d', 'a', 't', 'a')
            &&& read_le32(h, 40) == frame_count * 2 * channels
        }),
{
    let h = header_bytes(sample_rate, channels, frame_count);
    let ds = data_size(frame_count, channels);
    lemma_header_arith(frame_count, sample_rate, channels);
    lemma_le32_read_back(36 + ds);
    lemma_le32_read_back(16);
    lemma_le16_read_back(1);
    lemma_le16_read_back(channels);
    lemma_le32_read_back(sample_rate);
    lemma_le32_read_back(byte_rate(sample_rate, channels));
    lemma_le16_read_back(block_align(channels));
    lemma_le16_read_back(16);
    lemma_le32_read_back(ds);
    assert(h.subrange(0, 4) =~= tag('R', 'I', 'F', 'F'));
    assert(h.subrange(8, 16) =~= tag('W', 'A', 'V', 'E') + tag('f', 'm', 't', ' '));
    assert(h.subrange(36, 40) =~= tag('d', 'a', 't', 'a'));
}

} // verus!
