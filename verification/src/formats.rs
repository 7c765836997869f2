//! Audio formats and the integer units used throughout the library.

use crate::error::ConfigError;
use crate::text::str_eq;
use vstd::prelude::*;

verus! {

/// A count of audio frames (one sample per channel).
pub type Frames = u64;

/// A sample rate.
pub type FramesPerSecond = u32;

/// An RTP payload type.
pub type PayloadType = u8;

/// An SDP session id.
pub type SessionId = u64;

/// An SDP session version.
pub type SessionVersion = u64;

/// The linear PCM sample encodings of AES67, named as in an SDP `rtpmap` attribute.
#[derive(Debug, Clone, Copy, PartialEq, Eq, Structural)]
pub enum SampleFormat {
    L16,
    L24,
}

impl SampleFormat {
    pub open spec fn spec_bytes_per_sample(self) -> nat {
        match self {
            SampleFormat::L16 => 2,
            SampleFormat::L24 => 3,
        }
    }

    /// The number of bytes one sample takes on the wire.
    pub fn bytes_per_sample(&self) -> (r: usize)
        ensures
            r == self.spec_bytes_per_sample(),
    {
        match self {
            SampleFormat::L16 => 2,
            SampleFormat::L24 => 3,
        }
    }

    /// The sample format an encoding name denotes, if any.
    pub open spec fn from_name(name: Seq<char>) -> Option<SampleFormat> {
        if name == seq!['L', '1', '6'] {
            Some(SampleFormat::L16)
        } else if name == seq!['L', '2', '4'] {
            Some(SampleFormat::L24)
        } else {
            None
        }
    }

    /// Reads an encoding name (`L16` or `L24`).
    pub fn parse(name: &str) -> (r: Result<SampleFormat, ConfigError>)
        ensures
            match SampleFormat::from_name(name@) {
                Some(f) => r == Ok::<SampleFormat, ConfigError>(f),
                None => r matches Err(ConfigError::UnsupportedSampleFormat(n)) && n@ == name@,
            },
    {
        let l16 = "L16";
        let l24 = "L24";
        proof {
            reveal_strlit("L16");
            reveal_strlit("L24");
            assert(l16@ =~= seq!['L', '1', '6']);
            assert(l24@ =~= seq!['L', '2', '4']);
        }
        if str_eq(name, l16) {
            Ok(SampleFormat::L16)
        } else if str_eq(name, l24) {
            Ok(SampleFormat::L24)
        } else {
            Err(ConfigError::UnsupportedSampleFormat(name.to_owned()))
        }
    }
}

/// The layout of one frame: how many channels, each with one sample of the given format.
#[derive(Debug, Clone, Copy, PartialEq, Eq, Structural)]
pub struct FrameFormat {
    pub channels: usize,
    pub sample_format: SampleFormat,
}

/// A frame layout at a sample rate.
#[derive(Debug, Clone, Copy, PartialEq, Eq, Structural)]
pub struct AudioFormat {
    pub sample_rate: FramesPerSecond,
    pub frame_format: FrameFormat,
}

pub open spec fn spec_bytes_per_frame(channels: nat, sample_format: SampleFormat) -> nat {
    channels * sample_format.spec_bytes_per_sample()
}

/// The number of bytes one frame takes on the wire.
pub fn bytes_per_frame(channels: usize, sample_format: SampleFormat) -> (r: usize)
    requires
        channels * sample_format.spec_bytes_per_sample() <= usize::MAX,
    ensures
        r == spec_bytes_per_frame(channels as nat, sample_format),
{
    channels * sample_format.bytes_per_sample()
}

impl AudioFormat {
    pub open spec fn spec_bytes_per_frame(self) -> nat {
        spec_bytes_per_frame(self.frame_format.channels as nat, self.frame_format.sample_format)
    }

    /// The number of bytes one frame of this format takes on the wire.
    pub fn bytes_per_frame(&self) -> (r: usize)
        requires
            self.spec_bytes_per_frame() <= usize::MAX,
        ensures
            r == self.spec_bytes_per_frame(),
    {
        bytes_per_frame(self.frame_format.channels, self.frame_format.sample_format)
    }
}

} // verus!
