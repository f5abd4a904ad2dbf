//! Audio file formats: decoder selection by extension, header probing, and
//! the sample layouts the decoders accept.

use vstd::prelude::*;
use std::path::PathBuf;
use crate::error::{opt_text, FormatIssue, ResampleError};
use crate::text::str_eq;

verus! {

/// `e` is an `UnsupportedWavFormat` error for `issue`.
pub open spec fn is_format_error(e: ResampleError, issue: FormatIssue) -> bool {
    e matches ResampleError::UnsupportedWavFormat(i) && i == issue
}

/// The audio containers the library reads.
#[derive(Debug, Clone, Copy, PartialEq, Eq, Structural)]
pub enum AudioFormat {
    Wav,
    Flac,
}

/// The container an extension selects: exactly `wav` or `flac`.
pub open spec fn format_for(extension: Option<Seq<char>>) -> Option<AudioFormat> {
    match extension {
        Some(e) => if e == "wav"@ {
            Some(AudioFormat::Wav)
        } else if e == "flac"@ {
            Some(AudioFormat::Flac)
        } else {
            None
        },
        None => None,
    }
}

/// The container a file extension selects: exactly `wav` or `flac`.
pub fn audio_format(extension: Option<&str>) -> (r: Option<AudioFormat>)
    ensures
        r == format_for(
            match extension {
                Some(e) => Some(e@),
                None => None,
            },
        ),
{
    match extension {
        Some(e) => {
            if str_eq(e, "wav") {
                Some(AudioFormat::Wav)
            } else if str_eq(e, "flac") {
                Some(AudioFormat::Flac)
            } else {
                None
            }
        },
        None => None,
    }
}

/// How WAV samples are stored.
#[derive(Debug, Clone, Copy, PartialEq, Eq, Structural)]
pub enum WavSampleFormat {
    /// 32-bit float.
    Float32,
    /// Integer PCM of the given bit depth (8, 16, 24 or 32).
    Int(u16),
}

/// The WAV sample layouts that are read: 32-bit float and 8/16/24/32-bit
/// integer PCM.
pub fn wav_sample_format(is_float: bool, bits_per_sample: u16) -> (r: Result<
    WavSampleFormat,
    ResampleError,
>)
    ensures
        match r {
            Ok(f) => (is_float && bits_per_sample == 32 && f == WavSampleFormat::Float32) || (
            !is_float && (bits_per_sample == 8 || bits_per_sample == 16 || bits_per_sample == 24
                || bits_per_sample == 32) && f == WavSampleFormat::Int(bits_per_sample)),
            Err(e) => !(is_float && bits_per_sample == 32) && !(!is_float && (bits_per_sample == 8
                || bits_per_sample == 16 || bits_per_sample == 24 || bits_per_sample == 32))
                && is_format_error(e, FormatIssue::WavLayout { float: is_float, bits: bits_per_sample }),
        },
{
    if is_float {
        if bits_per_sample == 32 {
            return Ok(WavSampleFormat::Float32);
        }
    } else if bits_per_sample == 8 || bits_per_sample == 16 || bits_per_sample == 24
        || bits_per_sample == 32 {
        return Ok(WavSampleFormat::Int(bits_per_sample));
    }
    Err(
        ResampleError::UnsupportedWavFormat(
            FormatIssue::WavLayout { float: is_float, bits: bits_per_sample },
        ),
    )
}

/// The channel count of a FLAC stream as `u16`; fails when it does not fit,
/// then when the stream reports 0 bits per sample.
pub fn flac_stream_channels(channels: u32, bits_per_sample: u32) -> (r: Result<u16, ResampleError>)
    ensures
        match r {
            Ok(c) => channels <= u16::MAX && bits_per_sample != 0 && c == channels,
            Err(e) => if channels > u16::MAX {
                is_format_error(e, FormatIssue::FlacChannels(channels))
            } else {
                bits_per_sample == 0 && is_format_error(e, FormatIssue::FlacZeroBits)
            },
        },
{
    if channels > u16::MAX as u32 {
        return Err(ResampleError::UnsupportedWavFormat(FormatIssue::FlacChannels(channels)));
    }
    if bits_per_sample == 0 {
        return Err(ResampleError::UnsupportedWavFormat(FormatIssue::FlacZeroBits));
    }
    Ok(channels as u16)
}

/// Header facts of an audio file, read without decoding samples.
#[derive(Debug, Clone, Copy, PartialEq, Eq)]
pub struct FileInfo {
    pub format: &'static str,
    pub sample_rate: u32,
    pub channels: u16,
    pub bits_per_sample: u16,
    pub frames: Option<u64>,
}

/// Header fields of a stream as its decoder reports them.
pub struct StreamHeader {
    pub sample_rate: u32,
    pub channels: u32,
    pub bits_per_sample: u32,
    pub frames: Option<u64>,
}

/// Opens a WAV file with `hound::WavReader::open` and returns its format
/// fields (`spec()`) and its length in frames (`duration()`). What comes back
/// depends on the file on disk; the channel count and bit depth come from
/// `u16` fields.
#[verifier::external_body]
fn read_wav_header(path: &PathBuf) -> (r: Result<StreamHeader, hound::Error>)
    ensures
        r matches Ok(h) ==> h.channels <= u16::MAX && h.bits_per_sample <= u16::MAX,
{
    let reader = hound::WavReader::open(path)?;
    let spec = reader.spec();
    Ok(
        StreamHeader {
            sample_rate: spec.sample_rate,
            channels: spec.channels as u32,
            bits_per_sample: spec.bits_per_sample as u32,
            frames: Some(reader.duration() as u64),
        },
    )
}

/// Opens a FLAC file with `claxon::FlacReader::open` and returns the fields
/// of its STREAMINFO block (`streaminfo()`). What comes back depends on the
/// file on disk; claimed are only the bounds claxon's STREAMINFO reader
/// enforces: a sample rate of 1 to 655350 Hz (checked), 1 to 8 channels
/// and 1 to 32 bits per sample (3- and 5-bit fields plus one).
#[verifier::external_body]
fn read_flac_header(path: &PathBuf) -> (r: Result<StreamHeader, claxon::Error>)
    ensures
        r matches Ok(h) ==> 1 <= h.sample_rate <= 655350 && 1 <= h.channels <= 8 && 1
            <= h.bits_per_sample <= 32,
{
    let reader = claxon::FlacReader::open(path)?;
    let info = reader.streaminfo();
    Ok(
        StreamHeader {
            sample_rate: info.sample_rate,
            channels: info.channels,
            bits_per_sample: info.bits_per_sample,
            frames: info.samples,
        },
    )
}

/// What `Path::extension` followed by `OsStr::to_str` gives for a path: the
/// text after the last `.` of the file name, when there is one and it is
/// valid UTF-8.
pub uninterp spec fn extension_of(path: PathBuf) -> Option<Seq<char>>;

/// Calls `Path::extension` and `OsStr::to_str` on the path (the extension
/// is an `OsStr`, a `std::ffi` type this library does not name, so the two
/// calls stay together).
#[verifier::external_body]
pub(crate) fn path_extension(path: &PathBuf) -> (r: Option<String>)
    ensures
        match r {
            Some(e) => extension_of(*path) == Some(e@),
            None => extension_of(*path) is None,
        },
{
    path.extension().and_then(|e| e.to_str()).map(|e| e.to_string())
}

/// What `Path::file_stem` followed by `OsStr::to_str` gives for a path: the
/// file name without its last extension, when there is one and it is valid
/// UTF-8.
pub uninterp spec fn stem_of(path: PathBuf) -> Option<Seq<char>>;

/// Calls `Path::file_stem` and `OsStr::to_str` on the path (the stem is an
/// `OsStr`, a `std::ffi` type this library does not name, so the two calls
/// stay together).
#[verifier::external_body]
pub(crate) fn path_stem(path: &PathBuf) -> (r: Option<String>)
    ensures
        match r {
            Some(s) => stem_of(*path) == Some(s@),
            None => stem_of(*path) is None,
        },
{
    path.file_stem().and_then(|s| s.to_str()).map(|s| s.to_string())
}

/// The header facts a decoder reported, as [`FileInfo`]: the channel count
/// and bit depth must fit in `u16`.
pub fn file_info(format: &'static str, header: StreamHeader) -> (r: Result<FileInfo, ResampleError>)
    ensures
        match r {
            Ok(info) => header.channels <= u16::MAX && header.bits_per_sample <= u16::MAX && info
                == (FileInfo {
                format,
                sample_rate: header.sample_rate,
                channels: header.channels as u16,
                bits_per_sample: header.bits_per_sample as u16,
                frames: header.frames,
            }),
            Err(e) => if header.channels > u16::MAX {
                is_format_error(e, FormatIssue::FlacChannels(header.channels))
            } else {
                header.bits_per_sample > u16::MAX && is_format_error(
                    e,
                    FormatIssue::FlacBits(header.bits_per_sample),
                )
            },
        },
{
    if header.channels > u16::MAX as u32 {
        return Err(
            ResampleError::UnsupportedWavFormat(FormatIssue::FlacChannels(header.channels)),
        );
    }
    if header.bits_per_sample > u16::MAX as u32 {
        return Err(
            ResampleError::UnsupportedWavFormat(FormatIssue::FlacBits(header.bits_per_sample)),
        );
    }
    Ok(
        FileInfo {
            format,
            sample_rate: header.sample_rate,
            channels: header.channels as u16,
            bits_per_sample: header.bits_per_sample as u16,
            frames: header.frames,
        },
    )
}

/// Reads the header of a `.wav` or `.flac` file without decoding samples:
/// format name, sample rate, channels, bit depth and length in frames.
/// Other extensions fail with `UnsupportedWavFormat(NoDecoder)` carrying the
/// extension found; decoder
/// errors come back as `Wav` or `Flac`.
pub fn probe_audio(path: &PathBuf) -> (r: Result<FileInfo, ResampleError>)
    ensures
        match format_for(extension_of(*path)) {
            Some(AudioFormat::Wav) => match r {
                Ok(info) => info.format == "wav",
                Err(e) => e is Wav,
            },
            Some(AudioFormat::Flac) => match r {
                Ok(info) => info.format == "flac" && 1 <= info.sample_rate <= 655350 && 1
                    <= info.channels <= 8 && 1 <= info.bits_per_sample <= 32,
                Err(e) => e is Flac || (e matches ResampleError::UnsupportedWavFormat(i) && (
                i is FlacChannels || i is FlacBits)),
            },
            None => r matches Err(e) && (e matches ResampleError::UnsupportedWavFormat(
                FormatIssue::NoDecoder(ext),
            ) && opt_text(ext) == extension_of(*path)),
        },
{
    let ext = path_extension(path);
    let format = match &ext {
        Some(e) => audio_format(Some(e.as_str())),
        None => audio_format(None),
    };
    match format {
        Some(AudioFormat::Wav) => match read_wav_header(path) {
            Ok(header) => file_info("wav", header),
            Err(e) => Err(ResampleError::Wav(e)),
        },
        Some(AudioFormat::Flac) => match read_flac_header(path) {
            Ok(header) => file_info("flac", header),
            Err(e) => Err(ResampleError::Flac(e)),
        },
        None => Err(ResampleError::UnsupportedWavFormat(FormatIssue::NoDecoder(ext))),
    }
}

} // verus!
