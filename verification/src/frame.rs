//! Frames of audio, and what the mixer does to them.
//!
//! Levels are fixed-point numbers: [`UNITY`] leaves a sample as it is, half
//! of it halves the sample. A sample that would leave the range of `i32` is
//! held at the end of that range.

use vstd::prelude::*;

verus! {

/// The gain that leaves audio unchanged. As a panning, the far right.
pub const UNITY: i32 = 65_536;

/// The panning in the middle between left and right: half of [`UNITY`].
pub const CENTER: i32 = 32_768;

/// A number as a sample, which lies within the range of `i32`.
pub open spec fn clipped(number: int) -> i32 {
    if number > i32::MAX {
        i32::MAX
    } else if number < i32::MIN {
        i32::MIN
    } else {
        number as i32
    }
}

/// A gain as it is applied: a negative one counts as zero.
pub open spec fn effective_gain(gain: i32) -> int {
    if gain < 0 {
        0
    } else {
        gain as int
    }
}

/// A sample at a gain: their product over [`UNITY`], rounded towards zero
/// and clipped.
pub open spec fn scaled_sample(sample: i32, gain: i32) -> i32 {
    let product = sample * effective_gain(gain);
    if product >= 0 {
        clipped(product / (UNITY as int))
    } else {
        clipped(-((-product) / (UNITY as int)))
    }
}

/// The gain of the left channel at a panning. A panning of zero is the far
/// left, [`UNITY`] the far right, and what lies beyond counts as one of them.
/// From the middle to the far left the gain is [`UNITY`].
pub open spec fn left_gain(panning: i32) -> i32 {
    if panning <= UNITY / 2 {
        UNITY
    } else if panning >= UNITY {
        0
    } else {
        (2 * (UNITY - panning)) as i32
    }
}

/// The gain of the right channel at a panning. From the middle to the far
/// right it is [`UNITY`].
pub open spec fn right_gain(panning: i32) -> i32 {
    if panning >= UNITY / 2 {
        UNITY
    } else if panning <= 0 {
        0
    } else {
        (2 * panning) as i32
    }
}

/// Adds two samples. A sum that leaves the range of a sample is clipped.
pub fn add_samples(a: i32, b: i32) -> (sum: i32)
    ensures
        sum == clipped(a + b),
{
    let sum: i64 = a as i64 + b as i64;
    if sum > i32::MAX as i64 {
        i32::MAX
    } else if sum < i32::MIN as i64 {
        i32::MIN
    } else {
        sum as i32
    }
}

/// Applies a gain to a sample.
pub fn scale_sample(sample: i32, gain: i32) -> (scaled: i32)
    ensures
        scaled == scaled_sample(sample, gain),
{
    let gain: i64 = if gain < 0 {
        0
    } else {
        gain as i64
    };
    assert(-0x8000_0000 * 0x7fff_ffff <= sample * gain <= 0x7fff_ffff * 0x7fff_ffff)
        by (nonlinear_arith)
        requires
            -0x8000_0000 <= sample <= 0x7fff_ffff,
            0 <= gain <= 0x7fff_ffff,
    ;
    let product: i64 = sample as i64 * gain;
    if product >= 0 {
        let quotient: u64 = (product as u64) / (UNITY as u64);
        if quotient > i32::MAX as u64 {
            i32::MAX
        } else {
            quotient as i32
        }
    } else {
        let quotient: u64 = ((-product) as u64) / (UNITY as u64);
        if quotient > 0x8000_0000 {
            i32::MIN
        } else {
            (-(quotient as i64)) as i32
        }
    }
}

/// A stereo sample pair.
#[derive(Debug, Clone, Copy, PartialEq, Eq, Structural)]
pub struct Frame {
    /// The sample of the left channel.
    pub left: i32,
    /// The sample of the right channel.
    pub right: i32,
}

impl Frame {
    /// The frame that holds no sound.
    pub open spec fn zero() -> Frame {
        Frame { left: 0, right: 0 }
    }

    /// The sum of two frames, channel by channel, clipped.
    pub open spec fn mixed(self, other: Frame) -> Frame {
        Frame {
            left: clipped(self.left + other.left),
            right: clipped(self.right + other.right),
        }
    }

    /// The frame at a gain.
    pub open spec fn scaled(self, gain: i32) -> Frame {
        Frame { left: scaled_sample(self.left, gain), right: scaled_sample(self.right, gain) }
    }

    /// The frame at a panning.
    pub open spec fn panned(self, panning: i32) -> Frame {
        Frame {
            left: scaled_sample(self.left, left_gain(panning)),
            right: scaled_sample(self.right, right_gain(panning)),
        }
    }

    /// At a gain of zero, and at any negative one, nothing is left of a frame.
    pub proof fn lemma_silenced(self, gain: i32)
        requires
            gain <= 0,
        ensures
            self.scaled(gain) == Frame::zero(),
    {
        assert(self.left * 0 == 0 && self.right * 0 == 0) by (nonlinear_arith);
        assert(0int / (UNITY as int) == 0) by (nonlinear_arith);
    }

    /// Silence stays silence at every panning.
    pub proof fn lemma_silence_panned(panning: i32)
        ensures
            Frame::zero().panned(panning) == Frame::zero(),
    {
        assert(0 * effective_gain(left_gain(panning)) == 0) by (nonlinear_arith);
        assert(0 * effective_gain(right_gain(panning)) == 0) by (nonlinear_arith);
        assert(0int / (UNITY as int) == 0) by (nonlinear_arith);
    }

    /// Silence adds nothing to a frame.
    pub proof fn lemma_mixed_with_silence(self)
        ensures
            self.mixed(Frame::zero()) == self,
    {
    }

    /// A frame from its two samples.
    pub fn new(left: i32, right: i32) -> (frame: Self)
        ensures
            frame == (Frame { left, right }),
    {
        Frame { left, right }
    }

    /// The frame that holds no sound.
    pub fn silence() -> (frame: Self)
        ensures
            frame == Frame::zero(),
    {
        Frame { left: 0, right: 0 }
    }

    /// Adds another frame to this one, channel by channel. A sum that leaves
    /// the range of a sample is clipped.
    pub fn mix(self, other: Frame) -> (sum: Self)
        ensures
            sum == self.mixed(other),
    {
        Frame {
            left: add_samples(self.left, other.left),
            right: add_samples(self.right, other.right),
        }
    }

    /// Applies a gain to both channels.
    pub fn scale(self, gain: i32) -> (scaled: Self)
        ensures
            scaled == self.scaled(gain),
    {
        Frame { left: scale_sample(self.left, gain), right: scale_sample(self.right, gain) }
    }

    /// Moves the frame to the left or to the right: from the middle, which is
    /// half of [`UNITY`], towards zero the right channel fades, towards
    /// [`UNITY`] the left one.
    pub fn pan(self, panning: i32) -> (panned: Self)
        ensures
            panned == self.panned(panning),
    {
        let left: i32 = if panning <= UNITY / 2 {
            UNITY
        } else if panning >= UNITY {
            0
        } else {
            2 * (UNITY - panning)
        };
        let right: i32 = if panning >= UNITY / 2 {
            UNITY
        } else if panning <= 0 {
            0
        } else {
            2 * panning
        };
        Frame { left: scale_sample(self.left, left), right: scale_sample(self.right, right) }
    }
}

} // verus!
