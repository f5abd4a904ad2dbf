//! Interleaved audio buffers: sample-rate and channel metadata carried with
//! frame-major samples of any sample type.

use vstd::prelude::*;
use crate::error::{BufferIssue, ResampleError};

verus! {

/// Interleaved (frame-major) samples with their sample rate and channel
/// count. The sample rate and the channel count are non-zero and the samples
/// form whole frames.
#[derive(Debug, Clone, PartialEq)]
pub struct AudioBuffer<S> {
    sample_rate: u32,
    channels: u16,
    samples: Vec<S>,
}

/// What an [`AudioBuffer`] holds.
pub struct AudioView<S> {
    pub sample_rate: u32,
    pub channels: u16,
    pub samples: Seq<S>,
}

impl<S> View for AudioBuffer<S> {
    type V = AudioView<S>;

    closed spec fn view(&self) -> AudioView<S> {
        AudioView { sample_rate: self.sample_rate, channels: self.channels, samples: self.samples@ }
    }
}

impl<S> AudioBuffer<S> {
    /// Non-zero rate and channel count, whole frames.
    pub closed spec fn wf(&self) -> bool {
        &&& self.sample_rate > 0
        &&& self.channels > 0
        &&& self.samples@.len() % (self.channels as nat) == 0
    }

    /// Creates a buffer from interleaved samples. Fails with
    /// `InvalidSampleRate` for a zero rate, then `InvalidChannelCount` for
    /// zero channels, then `BufferError` when the samples are not a whole
    /// number of frames.
    pub fn new(sample_rate: u32, channels: u16, samples: Vec<S>) -> (r: Result<Self, ResampleError>)
        ensures
            match r {
                Ok(b) => {
                    &&& b.wf()
                    &&& b@.sample_rate == sample_rate
                    &&& b@.channels == channels
                    &&& b@.samples == samples@
                    &&& sample_rate > 0 && channels > 0
                    &&& samples@.len() % (channels as nat) == 0
                },
                Err(e) => e == if sample_rate == 0 {
                    ResampleError::InvalidSampleRate(0)
                } else if channels == 0 {
                    ResampleError::InvalidChannelCount(0)
                } else {
                    ResampleError::BufferError(BufferIssue::SamplesNotWholeFrames)
                } && (sample_rate == 0 || channels == 0 || samples@.len() % (channels as nat)
                    != 0),
            },
    {
        if sample_rate == 0 {
            return Err(ResampleError::InvalidSampleRate(0));
        }
        if channels == 0 {
            return Err(ResampleError::InvalidChannelCount(0));
        }
        if samples.len() % (channels as usize) != 0 {
            return Err(ResampleError::BufferError(BufferIssue::SamplesNotWholeFrames));
        }
        Ok(AudioBuffer { sample_rate, channels, samples })
    }

    /// Sample rate in Hz.
    pub fn sample_rate(&self) -> (r: u32)
        requires
            self.wf(),
        ensures
            r == self@.sample_rate,
            r > 0,
    {
        self.sample_rate
    }

    /// Number of channels.
    pub fn channels(&self) -> (r: u16)
        requires
            self.wf(),
        ensures
            r == self@.channels,
            r > 0,
    {
        self.channels
    }

    /// The interleaved samples.
    pub fn samples(&self) -> (r: &[S])
        requires
            self.wf(),
        ensures
            r@ == self@.samples,
            r@.len() % (self@.channels as nat) == 0,
    {
        self.samples.as_slice()
    }

    /// Consumes the buffer and returns its interleaved samples.
    pub fn into_samples(self) -> (r: Vec<S>)
        requires
            self.wf(),
        ensures
            r@ == self@.samples,
    {
        self.samples
    }

    /// Number of frames: samples divided by channels.
    pub fn frame_count(&self) -> (r: usize)
        requires
            self.wf(),
        ensures
            r == self@.samples.len() / (self@.channels as nat),
            r * (self@.channels as nat) == self@.samples.len(),
    {
        proof {
            let n = self.samples@.len();
            let c = self.channels as nat;
            assert((n / c) * c == n) by (nonlinear_arith)
                requires
                    n % c == 0,
                    c > 0,
            ;
        }
        self.samples.len() / (self.channels as usize)
    }

    /// Whether the buffer holds no samples.
    pub fn is_empty(&self) -> (r: bool)
        requires
            self.wf(),
        ensures
            r == (self@.samples.len() == 0),
    {
        self.samples.len() == 0
    }
}

/// Frames of an interleaved input of `len` samples with `channels` channels:
/// fails for zero channels, then for a length that is not a whole number of
/// frames (an empty input has zero frames).
pub fn interleaved_frames(len: usize, channels: usize) -> (r: Result<usize, ResampleError>)
    ensures
        match r {
            Ok(frames) => channels > 0 && len % channels == 0 && frames == len / channels,
            Err(e) => e == if channels == 0 {
                ResampleError::InvalidChannelCount(0)
            } else {
                ResampleError::BufferError(BufferIssue::InputNotWholeFrames)
            } && (channels == 0 || len % channels != 0),
        },
{
    if channels == 0 {
        return Err(ResampleError::InvalidChannelCount(channels));
    }
    if len % channels != 0 {
        return Err(ResampleError::BufferError(BufferIssue::InputNotWholeFrames));
    }
    Ok(len / channels)
}

} // verus!
