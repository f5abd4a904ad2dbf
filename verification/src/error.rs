//! Errors of the library.

use vstd::prelude::*;
use crate::text::{decimal, decimal_string};

verus! {

/// `hound::Error`: a WAV decoding or I/O error, carried through unopened.
#[verifier::external_type_specification]
#[verifier::external_body]
pub struct ExWavError(hound::Error);

/// `claxon::Error`: a FLAC decoding or I/O error, carried through unopened.
#[verifier::external_type_specification]
#[verifier::external_body]
pub struct ExFlacError(claxon::Error);

/// Why a buffer or a byte stream could not be used.
#[derive(Debug, Clone, Copy, PartialEq, Eq, Structural)]
pub enum BufferIssue {
    /// Interleaved input whose length is not a whole number of frames.
    InputNotWholeFrames,
    /// An output buffer whose length is not a whole number of frames.
    OutputNotWholeFrames,
    /// A sample vector whose length is not a whole number of frames.
    SamplesNotWholeFrames,
    /// An output buffer with room for fewer frames than the call writes.
    OutputTooSmall { needed: usize, available: usize },
    /// `process_into` after `flush_into` without a `reset` in between.
    ProcessAfterFlush,
    /// A history lookup before any input arrived.
    NoHistory,
    /// A lookup past the newest input frame while more input may follow.
    ReadBeyondInput,
    /// A lookup of a frame that was already dropped from the history.
    HistoryTrimmed,
    /// A lookup that falls outside the retained history.
    HistoryLookupFailed,
    /// A WAV file without a `data` chunk.
    NoDataChunk,
}

/// Why a polyphase filter configuration was refused.
#[derive(Debug, Clone, Copy, PartialEq, Eq, Structural)]
pub enum FilterIssue {
    /// Zero phases.
    ZeroPhases,
    /// A tap count that is zero or even.
    EvenOrZeroTaps,
    /// A Kaiser beta that is negative or not finite.
    InvalidKaiserBeta,
}

/// Why an audio stream's layout is not supported.
#[derive(Debug, Clone, PartialEq, Eq)]
pub enum FormatIssue {
    /// A WAV sample format (float or integer) with a bit depth that is not
    /// read: float needs 32 bits, integer 8, 16, 24 or 32.
    WavLayout { float: bool, bits: u16 },
    /// A FLAC channel count that does not fit in `u16`.
    FlacChannels(u32),
    /// A FLAC stream that reports 0 bits per sample.
    FlacZeroBits,
    /// A FLAC bit depth that does not fit in `u16`.
    FlacBits(u32),
    /// A file extension with no decoder (only `wav` and `flac` have one):
    /// the extension found, if any.
    NoDecoder(Option<String>),
}

/// Errors returned by the library.
#[derive(Debug)]
pub enum ResampleError {
    /// A sample rate of zero.
    InvalidSampleRate(u32),
    /// A polyphase filter configuration that is refused.
    InvalidFilterConfig(FilterIssue),
    /// A channel count of zero.
    InvalidChannelCount(usize),
    /// A buffer or byte stream that cannot be used.
    BufferError(BufferIssue),
    /// An audio layout or file type that is not supported.
    UnsupportedWavFormat(FormatIssue),
    /// An error of the WAV decoder.
    Wav(hound::Error),
    /// An error of the FLAC decoder.
    Flac(claxon::Error),
}

impl BufferIssue {
    /// The text of the issue.
    pub open spec fn text(self) -> Seq<char> {
        match self {
            BufferIssue::InputNotWholeFrames => "interleaved input length must be divisible by channel count"@,
            BufferIssue::OutputNotWholeFrames => "output buffer length must be divisible by channel count"@,
            BufferIssue::SamplesNotWholeFrames => "interleaved sample count must be divisible by channel count"@,
            BufferIssue::OutputTooSmall { needed, available } => "output buffer is too small: need "@
                + decimal(needed as nat) + " frames, have "@ + decimal(available as nat),
            BufferIssue::ProcessAfterFlush => "cannot process after flush; call reset before reusing the streaming resampler"@,
            BufferIssue::NoHistory => "streaming resampler has no input history"@,
            BufferIssue::ReadBeyondInput => "streaming resampler read beyond the current input chunk"@,
            BufferIssue::HistoryTrimmed => "streaming resampler trimmed required history"@,
            BufferIssue::HistoryLookupFailed => "streaming resampler history lookup failed"@,
            BufferIssue::NoDataChunk => "no data chunk in WAV"@,
        }
    }

    /// The text of the issue.
    pub fn message(&self) -> (r: String)
        ensures
            r@ == self.text(),
    {
        match self {
            BufferIssue::InputNotWholeFrames => "interleaved input length must be divisible by channel count".to_owned(),
            BufferIssue::OutputNotWholeFrames => "output buffer length must be divisible by channel count".to_owned(),
            BufferIssue::SamplesNotWholeFrames => "interleaved sample count must be divisible by channel count".to_owned(),
            BufferIssue::OutputTooSmall { needed, available } => {
                let mut m = "output buffer is too small: need ".to_owned();
                let n = decimal_string(*needed as u64);
                m.append(n.as_str());
                m.append(" frames, have ");
                let a = decimal_string(*available as u64);
                m.append(a.as_str());
                m
            },
            BufferIssue::ProcessAfterFlush => "cannot process after flush; call reset before reusing the streaming resampler".to_owned(),
            BufferIssue::NoHistory => "streaming resampler has no input history".to_owned(),
            BufferIssue::ReadBeyondInput => "streaming resampler read beyond the current input chunk".to_owned(),
            BufferIssue::HistoryTrimmed => "streaming resampler trimmed required history".to_owned(),
            BufferIssue::HistoryLookupFailed => "streaming resampler history lookup failed".to_owned(),
            BufferIssue::NoDataChunk => "no data chunk in WAV".to_owned(),
        }
    }
}

impl FilterIssue {
    /// The text of the issue.
    pub open spec fn text(self) -> Seq<char> {
        match self {
            FilterIssue::ZeroPhases => "phase count must be non-zero"@,
            FilterIssue::EvenOrZeroTaps => "tap count must be odd and non-zero"@,
            FilterIssue::InvalidKaiserBeta => "kaiser beta must be non-negative and finite"@,
        }
    }

    /// The text of the issue.
    pub fn message(&self) -> (r: String)
        ensures
            r@ == self.text(),
    {
        match self {
            FilterIssue::ZeroPhases => "phase count must be non-zero".to_owned(),
            FilterIssue::EvenOrZeroTaps => "tap count must be odd and non-zero".to_owned(),
            FilterIssue::InvalidKaiserBeta => "kaiser beta must be non-negative and finite".to_owned(),
        }
    }
}

impl FormatIssue {
    /// The text of the issue.
    pub open spec fn text(self) -> Seq<char> {
        match self {
            FormatIssue::WavLayout { float, bits } => (if float {
                "Float"@
            } else {
                "Int"@
            }) + " with "@ + decimal(bits as nat) + " bits per sample"@,
            FormatIssue::FlacChannels(c) => "FLAC channel count "@ + decimal(c as nat)
                + " exceeds u16"@,
            FormatIssue::FlacZeroBits => "FLAC stream reports 0 bits per sample"@,
            FormatIssue::FlacBits(b) => "FLAC bit depth "@ + decimal(b as nat) + " exceeds u16"@,
            FormatIssue::NoDecoder(ext) => "no decoder for extension "@ + option_str_debug(
                opt_text(ext),
            ) + "; expected .wav or .flac"@,
        }
    }

    /// The text of the issue.
    pub fn message(&self) -> (r: String)
        ensures
            r@ == self.text(),
    {
        match self {
            FormatIssue::WavLayout { float, bits } => {
                let mut m = if *float {
                    "Float".to_owned()
                } else {
                    "Int".to_owned()
                };
                m.append(" with ");
                let b = decimal_string(*bits as u64);
                m.append(b.as_str());
                m.append(" bits per sample");
                m
            },
            FormatIssue::FlacChannels(c) => {
                let mut m = "FLAC channel count ".to_owned();
                let d = decimal_string(*c as u64);
                m.append(d.as_str());
                m.append(" exceeds u16");
                m
            },
            FormatIssue::FlacZeroBits => "FLAC stream reports 0 bits per sample".to_owned(),
            FormatIssue::FlacBits(b) => {
                let mut m = "FLAC bit depth ".to_owned();
                let d = decimal_string(*b as u64);
                m.append(d.as_str());
                m.append(" exceeds u16");
                m
            },
            FormatIssue::NoDecoder(ext) => {
                let mut m = "no decoder for extension ".to_owned();
                let d = debug_option_str(ext);
                m.append(d.as_str());
                m.append("; expected .wav or .flac");
                m
            },
        }
    }
}

/// The text of an optional string, `None` standing for no string.
pub open spec fn opt_text(s: Option<String>) -> Option<Seq<char>> {
    match s {
        Some(t) => Some(t@),
        None => None,
    }
}

/// What `{:?}` writes for an `Option<&str>` holding this text.
pub uninterp spec fn option_str_debug(s: Option<Seq<char>>) -> Seq<char>;

/// An ASCII letter or digit: left as is by `str`'s `Debug`.
pub open spec fn is_ascii_alphanumeric(c: char) -> bool {
    ('a' <= c && c <= 'z') || ('A' <= c && c <= 'Z') || ('0' <= c && c <= '9')
}

/// Formats an optional string with `Debug` (`{:?}`): `None`, or `Some`
/// around the quoted, escaped text; ASCII letters and digits are not
/// escaped.
#[verifier::external_body]
fn debug_option_str(s: &Option<String>) -> (r: String)
    ensures
        r@ == option_str_debug(opt_text(*s)),
        s is None ==> r@ == "None"@,
        match s {
            Some(t) => (forall|i: int| 0 <= i < t@.len() ==> is_ascii_alphanumeric(#[trigger] t@[i]))
                ==> r@ == "Some(\""@ + t@ + "\")"@,
            None => true,
        },
{
    format!("{:?}", s.as_deref())
}

/// The `Display` text of a WAV decoder error.
#[verifier::external_body]
fn wav_error_text(e: &hound::Error) -> String {
    e.to_string()
}

/// The `Display` text of a FLAC decoder error.
#[verifier::external_body]
fn flac_error_text(e: &claxon::Error) -> String {
    e.to_string()
}

/// The prefix of a decoder error's text.
pub open spec fn decoder_prefix(flac: bool) -> Seq<char> {
    if flac {
        "FLAC error: "@
    } else {
        "WAV error: "@
    }
}

/// The text of a decoder error: `FLAC error: ` (when `flac`) or
/// `WAV error: `, then the decoder's own text.
pub fn decoder_message(flac: bool, text: &str) -> (r: String)
    ensures
        r@ == decoder_prefix(flac) + text@,
        flac ==> r@.len() >= 12 && r@.take(12) == "FLAC error: "@,
        !flac ==> r@.len() >= 11 && r@.take(11) == "WAV error: "@,
{
    let mut m = if flac {
        "FLAC error: ".to_owned()
    } else {
        "WAV error: ".to_owned()
    };
    m.append(text);
    proof {
        reveal_strlit("FLAC error: ");
        reveal_strlit("WAV error: ");
        if flac {
            assert(m@.take(12) =~= "FLAC error: "@);
        } else {
            assert(m@.take(11) =~= "WAV error: "@);
        }
    }
    m
}

impl ResampleError {
    /// The text of an error that does not come from a decoder.
    pub open spec fn text(self) -> Seq<char> {
        match self {
            ResampleError::InvalidSampleRate(rate) => "Invalid sample rate: "@ + decimal(rate as nat),
            ResampleError::InvalidFilterConfig(i) => "Invalid filter configuration: "@ + i.text(),
            ResampleError::InvalidChannelCount(c) => "Invalid channel count: "@ + decimal(c as nat),
            ResampleError::BufferError(i) => "Buffer error: "@ + i.text(),
            ResampleError::UnsupportedWavFormat(i) => "Unsupported WAV format: "@ + i.text(),
            _ => seq![],
        }
    }

    /// The error's text; for decoder errors `WAV error: ` or `FLAC error: `
    /// followed by the decoder's own text.
    pub fn message(&self) -> (r: String)
        ensures
            !(self is Wav || self is Flac) ==> r@ == self.text(),
            self is Wav ==> r@.len() >= 11 && r@.take(11) == "WAV error: "@,
            self is Flac ==> r@.len() >= 12 && r@.take(12) == "FLAC error: "@,
    {
        match self {
            ResampleError::InvalidSampleRate(rate) => {
                let mut m = "Invalid sample rate: ".to_owned();
                let d = decimal_string(*rate as u64);
                m.append(d.as_str());
                m
            },
            ResampleError::InvalidFilterConfig(i) => {
                let mut m = "Invalid filter configuration: ".to_owned();
                let t = i.message();
                m.append(t.as_str());
                m
            },
            ResampleError::InvalidChannelCount(c) => {
                let mut m = "Invalid channel count: ".to_owned();
                let d = decimal_string(*c as u64);
                m.append(d.as_str());
                m
            },
            ResampleError::BufferError(i) => {
                let mut m = "Buffer error: ".to_owned();
                let t = i.message();
                m.append(t.as_str());
                m
            },
            ResampleError::UnsupportedWavFormat(i) => {
                let mut m = "Unsupported WAV format: ".to_owned();
                let t = i.message();
                m.append(t.as_str());
                m
            },
            ResampleError::Wav(e) => {
                let t = wav_error_text(e);
                decoder_message(false, t.as_str())
            },
            ResampleError::Flac(e) => {
                let t = flac_error_text(e);
                decoder_message(true, t.as_str())
            },
        }
    }
}

} // verus!
