//! The audio contract of the recognizers and the decisions on it that need
//! no sample arithmetic: the target sample rate, the speech gate's verdicts,
//! and the shape checks of interleaved audio.
use vstd::prelude::*;

verus! {

/// The sample rate every recognizer receives, in hertz.
pub const TARGET_SAMPLE_RATE: u32 = 16000;

/// The speech gate's verdict on normalized audio.
#[derive(Clone, Copy, Debug, PartialEq, Eq, Structural)]
pub enum SpeechGateDecision {
    SpeechDetected,
    Silence,
    InsufficientSpeech,
    Unavailable,
}

impl SpeechGateDecision {
    /// Whether the verdict keeps the audio from the recognizer: everything
    /// but detected speech.
    pub open spec fn spec_should_skip(self) -> bool {
        self != SpeechGateDecision::SpeechDetected
    }

    /// Whether the recognizer is skipped for audio with this verdict.
    pub fn should_skip_transcription(self) -> (r: bool)
        ensures
            r == self.spec_should_skip(),
    {
        match self {
            SpeechGateDecision::SpeechDetected => false,
            _ => true,
        }
    }
}

/// What is wrong with the shape of interleaved audio.
#[derive(Clone, Copy, Debug, PartialEq, Eq, Structural)]
pub enum AudioShapeError {
    InvalidSampleRate,
    InvalidChannelCount,
    Empty,
    IncompleteFrame { channels: u16 },
}

/// The first shape problem of audio with the given sample rate, channel
/// count and number of interleaved samples, in the order they are checked.
pub open spec fn spec_shape_error(sample_rate: u32, channels: u16, samples: nat) -> Option<
    AudioShapeError,
> {
    if sample_rate == 0 {
        Some(AudioShapeError::InvalidSampleRate)
    } else if channels == 0 {
        Some(AudioShapeError::InvalidChannelCount)
    } else if samples == 0 {
        Some(AudioShapeError::Empty)
    } else if samples % (channels as nat) != 0 {
        Some(AudioShapeError::IncompleteFrame { channels })
    } else {
        None
    }
}

/// The first shape problem of interleaved audio, or `None` when the sample
/// rate and channel count are positive and the samples fill whole frames.
pub fn check_shape(sample_rate: u32, channels: u16, samples: usize) -> (r: Option<AudioShapeError>)
    ensures
        r == spec_shape_error(sample_rate, channels, samples as nat),
{
    if sample_rate == 0 {
        Some(AudioShapeError::InvalidSampleRate)
    } else if channels == 0 {
        Some(AudioShapeError::InvalidChannelCount)
    } else if samples == 0 {
        Some(AudioShapeError::Empty)
    } else if samples % (channels as usize) != 0 {
        Some(AudioShapeError::IncompleteFrame { channels })
    } else {
        None
    }
}

impl AudioShapeError {
    /// The error's message, without the channel count of an incomplete
    /// frame, which the caller prints after it.
    pub fn message(&self) -> (r: &'static str)
        ensures
            r@ == match *self {
                AudioShapeError::InvalidSampleRate => "sample rate must be greater than zero"@,
                AudioShapeError::InvalidChannelCount => "audio must contain at least one channel"@,
                AudioShapeError::Empty => "audio has no samples"@,
                AudioShapeError::IncompleteFrame { .. } => "audio samples are not interleaved correctly for"@,
            },
    {
        match self {
            AudioShapeError::InvalidSampleRate => "sample rate must be greater than zero",
            AudioShapeError::InvalidChannelCount => "audio must contain at least one channel",
            AudioShapeError::Empty => "audio has no samples",
            AudioShapeError::IncompleteFrame { .. } => "audio samples are not interleaved correctly for",
        }
    }
}

} // verus!
