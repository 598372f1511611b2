//! How decoding a capture buffer and encoding its frames relate.

use vstd::prelude::*;
use crate::frame::{
    Sample, decode, has_channels, all_have_channels, lemma_be16_round_trip,
    lemma_decode_channels,
};
use crate::wav::{sample_bytes, samples_bytes, header_bytes, wav_bytes, HEADER_LEN};

verus! {

/// A buffer of stereo frames with the two 16-bit values of each frame swapped.
pub open spec fn swap_channels(b: Seq<u8>) -> Seq<u8> {
    Seq::new(b.len(), |i: int| if i % 4 < 2 { b[i + 2] } else { b[i - 2] })
}

/// The encoded samples of a sequence of `channels`-channel frames take
/// `2 * channels` bytes per frame, and byte `i` is byte `i % (2 * channels)`
/// of frame `i / (2 * channels)`.
pub proof fn lemma_samples_bytes_index(fs: Seq<Sample>, channels: nat)
    requires
        channels == 1 || channels == 2,
        all_have_channels(fs, channels),
    ensures
        samples_bytes(fs).len() == fs.len() * (2 * channels),
        forall|i: int|
            0 <= i < samples_bytes(fs).len() ==> #[trigger] samples_bytes(fs)[i] == sample_bytes(
                fs[i / (2 * channels) as int],
            )[i % (2 * channels) as int],
    decreases fs.len(),
{
    if fs.len() > 0 {
        let w = (2 * channels) as int;
        let pre = fs.drop_last();
        let n = pre.len() as int;
        lemma_samples_bytes_index(pre, channels);
        assert(has_channels(fs[n], channels));
        assert(sample_bytes(fs.last()).len() == w);
        assert(n * w + w == fs.len() * w) by (nonlinear_arith)
            requires n + 1 == fs.len();
        assert forall|i: int| 0 <= i < samples_bytes(fs).len() implies #[trigger] samples_bytes(
            fs,
        )[i] == sample_bytes(fs[i / w])[i % w] by {
            let q = i / w;
            let r = i % w;
            vstd::arithmetic::div_mod::lemma_fundamental_div_mod(i, w);
            vstd::arithmetic::div_mod::lemma_mod_bound(i, w);
            if i < n * w {
                assert(q < n) by (nonlinear_arith)
                    requires i == w * q + r, 0 <= r < w, i < n * w, w > 0;
                assert(fs[q] == pre[q]);
            } else {
                vstd::arithmetic::div_mod::lemma_fundamental_div_mod_converse(i, w, n, i - n * w);
            }
        }
    }
}

/// Encoding the frames decoded from a mono buffer of even length gives back
/// the buffer, and the file for them is the header followed by the buffer.
pub proof fn lemma_mono_round_trip(b: Seq<u8>, sample_rate: nat)
    requires
        b.len() % 2 == 0,
    ensures
        samples_bytes(decode(b, false)) == b,
        wav_bytes(decode(b, false), sample_rate, 1) == header_bytes(sample_rate, 1, b.len() / 2) + b,
{
    let fs = decode(b, false);
    lemma_decode_channels(b, false);
    lemma_samples_bytes_index(fs, 1);
    let e = samples_bytes(fs);
    vstd::arithmetic::div_mod::lemma_fundamental_div_mod(b.len() as int, 2);
    assert(fs.len() == b.len() / 2);
    assert(e.len() == b.len()) by (nonlinear_arith)
        requires
            e.len() == fs.len() * (2 * 1),
            fs.len() == b.len() / 2,
            b.len() == 2 * (b.len() / 2) + b.len() % 2,
            b.len() % 2 == 0,
    ;
    assert forall|i: int| 0 <= i < b.len() implies e[i] == b[i] by {
        let q = i / 2;
        vstd::arithmetic::div_mod::lemma_fundamental_div_mod(i, 2);
        lemma_be16_round_trip(b[2 * q], b[2 * q + 1]);
    }
    assert(e =~= b);
}

/// Encoding the frames decoded from a stereo buffer whose length is a
/// multiple of four gives back the buffer with the two values of each frame
/// swapped: the right channel is written first.
pub proof fn lemma_stereo_round_trip(b: Seq<u8>, sample_rate: nat)
    requires
        b.len() % 4 == 0,
    ensures
        samples_bytes(decode(b, true)) == swap_channels(b),
        wav_bytes(decode(b, true), sample_rate, 2) == header_bytes(sample_rate, 2, b.len() / 4)
            + swap_channels(b),
{
    let fs = decode(b, true);
    lemma_decode_channels(b, true);
    lemma_samples_bytes_index(fs, 2);
    let e = samples_bytes(fs);
    vstd::arithmetic::div_mod::lemma_fundamental_div_mod(b.len() as int, 4);
    assert(fs.len() == b.len() / 4);
    assert(e.len() == b.len()) by (nonlinear_arith)
        requires
            e.len() == fs.len() * (2 * 2),
            fs.len() == b.len() / 4,
            b.len() == 4 * (b.len() / 4) + b.len() % 4,
            b.len() % 4 == 0,
    ;
    assert forall|i: int| 0 <= i < b.len() implies e[i] == swap_channels(b)[i] by {
        let q = i / 4;
        vstd::arithmetic::div_mod::lemma_fundamental_div_mod(i, 4);
        lemma_be16_round_trip(b[4 * q], b[4 * q + 1]);
        lemma_be16_round_trip(b[4 * q + 2], b[4 * q + 3]);
    }
    assert(e =~= swap_channels(b));
}

} // verus!

verus! {

/// A file of `channels`-channel frames is the 44-byte header followed by
/// exactly `frame_count * 2 * channels` bytes of samples.
pub proof fn lemma_wav_len(fs: Seq<Sample>, sample_rate: nat, channels: nat)
    requires
        channels == 1 || channels == 2,
        all_have_channels(fs, channels),
    ensures
        wav_bytes(fs, sample_rate, channels).len() == HEADER_LEN + fs.len() * 2 * channels,
{
    lemma_samples_bytes_index(fs, channels);
    assert(fs.len() * (2 * channels) == fs.len() * 2 * channels) by (nonlinear_arith);
}

/// Serialising the same frame sequence twice with the same settings yields
/// byte-identical files.
pub proof fn lemma_encode_repeatable(a: Seq<Sample>, b: Seq<Sample>, sample_rate: nat, channels: nat)
    requires
        a == b,
    ensures
        wav_bytes(a, sample_rate, channels) == wav_bytes(b, sample_rate, channels),
{
}

} // verus!
