//! The settings of a recording and the decisions of the capture loop.

use vstd::prelude::*;
use crate::frame::{Sample, decode, append_buffer};

verus! {

/// Channel count, sample rate and length of a recording.
#[derive(Debug, Clone, Copy, PartialEq, Eq, Structural)]
pub struct CaptureConfig {
    pub channels: u8,
    pub sample_rate: u32,
    pub duration_secs: u32,
}

impl CaptureConfig {
    /// One or two channels, and a positive sample rate.
    pub open spec fn valid(&self) -> bool {
        &&& self.channels == 1 || self.channels == 2
        &&& self.sample_rate > 0
    }

    /// Frames the recording is to hold.
    pub open spec fn target(&self) -> nat {
        self.sample_rate as nat * self.duration_secs as nat
    }

    /// The settings, when they are valid.
    pub fn new(channels: u8, sample_rate: u32, duration_secs: u32) -> (r: Option<CaptureConfig>)
        ensures
            r == (if (CaptureConfig { channels, sample_rate, duration_secs }).valid() {
                Some(CaptureConfig { channels, sample_rate, duration_secs })
            } else {
                None::<CaptureConfig>
            }),
    {
        if (channels == 1 || channels == 2) && sample_rate > 0 {
            Some(CaptureConfig { channels, sample_rate, duration_secs })
        } else {
            None
        }
    }

    /// Whether frames hold two samples.
    pub fn is_stereo(&self) -> (r: bool)
        ensures
            r == (self.channels > 1),
    {
        self.channels > 1
    }

    /// Frames the recording is to hold: sample rate times duration.
    pub fn target_frames(&self) -> (r: u64)
        ensures
            r == self.target(),
    {
        proof {
            let a = self.sample_rate as nat;
            let b = self.duration_secs as nat;
            assert(a * b <= u32::MAX as nat * u32::MAX as nat) by (nonlinear_arith)
                requires a <= u32::MAX, b <= u32::MAX;
        }
        self.sample_rate as u64 * self.duration_secs as u64
    }

    /// Whether `frames` frames complete the recording.
    pub fn is_complete(&self, frames: usize) -> (r: bool)
        ensures
            r == (frames >= self.target()),
    {
        frames as u64 >= self.target_frames()
    }
}

/// Handles the outcome of one read from the capture source: the frames of a
/// filled buffer are appended, and a failed read (`None`) appends nothing.
pub fn on_read(data: &mut Vec<Sample>, read: Option<&[u8]>, config: &CaptureConfig)
    ensures
        final(data)@ == old(data)@ + match read {
            Some(buffer) => decode(buffer@, config.channels > 1),
            None => Seq::<Sample>::empty(),
        },
{
    match read {
        Some(buffer) => append_buffer(data, buffer, config.is_stereo()),
        None => {
            assert(data@ =~= old(data)@ + Seq::<Sample>::empty());
        },
    }
}

} // verus!
