use br41ndmg::audio::{interleaved_frames, AudioBuffer};
use br41ndmg::error::{BufferIssue, FormatIssue, ResampleError};
use br41ndmg::io::{flac_stream_channels, probe_audio, wav_sample_format, WavSampleFormat};
use hound::{SampleFormat, WavSpec, WavWriter};
use std::path::PathBuf;

#[test]
fn probe_wav_reports_header_without_decoding() {
    let path = PathBuf::from("/tmp/br41ndmg_probe_wav.wav");
    let spec = WavSpec {
        channels: 2,
        sample_rate: 48_000,
        bits_per_sample: 16,
        sample_format: SampleFormat::Int,
    };
    {
        let mut writer = WavWriter::create(&path, spec).unwrap();
        for _ in 0..100 {
            writer.write_sample(0_i16).unwrap();
            writer.write_sample(0_i16).unwrap();
        }
        writer.finalize().unwrap();
    }

    let info = probe_audio(&path).unwrap();

    assert_eq!(info.format, "wav");
    assert_eq!(info.sample_rate, 48_000);
    assert_eq!(info.channels, 2);
    assert_eq!(info.bits_per_sample, 16);
    assert_eq!(info.frames, Some(100));
}

#[test]
fn probe_flac_reports_streaminfo() {
    let path = PathBuf::from("test_subjects/Hitsujibungaku - more than words.flac");
    if !path.exists() {
        return; // fixtures are optional; probe is covered by the WAV test
    }

    let info = probe_audio(&path).unwrap();

    assert_eq!(info.format, "flac");
    assert!(info.sample_rate > 0);
    assert!(info.channels > 0);
    assert!(info.bits_per_sample > 0);
    assert!(info.frames.is_some_and(|frames| frames > 0));
}

#[test]
fn probe_rejects_unknown_extension() {
    let error = probe_audio(&PathBuf::from("/nonexistent/whatever.mp3")).unwrap_err();
    assert!(matches!(
        &error,
        ResampleError::UnsupportedWavFormat(FormatIssue::NoDecoder(Some(ext))) if ext == "mp3"
    ));
    assert_eq!(
        error.message(),
        "Unsupported WAV format: no decoder for extension Some(\"mp3\"); expected .wav or .flac"
    );
    let error = probe_audio(&PathBuf::from("/nonexistent/README")).unwrap_err();
    assert_eq!(
        error.message(),
        "Unsupported WAV format: no decoder for extension None; expected .wav or .flac"
    );
}

#[test]
fn probe_reports_missing_wav_as_decoder_error() {
    let error = probe_audio(&PathBuf::from("/nonexistent/whatever.wav")).unwrap_err();
    assert!(matches!(error, ResampleError::Wav(_)));
    assert!(error.message().starts_with("WAV error: "));
}

#[test]
fn probe_reports_bad_flac_as_decoder_error() {
    let path = PathBuf::from("/tmp/br41ndmg_not_a_flac.flac");
    let spec = WavSpec {
        channels: 1,
        sample_rate: 8_000,
        bits_per_sample: 16,
        sample_format: SampleFormat::Int,
    };
    WavWriter::create(&path, spec).unwrap().finalize().unwrap();
    let error = probe_audio(&path).unwrap_err();
    assert!(matches!(error, ResampleError::Flac(_)));
    assert!(error.message().starts_with("FLAC error: "));
}

#[test]
fn audio_buffer_validates_layout() {
    let buffer = AudioBuffer::new(48_000, 2, vec![0.25_f32, -0.25, 0.5, -0.5]).unwrap();
    assert_eq!(buffer.sample_rate(), 48_000);
    assert_eq!(buffer.channels(), 2);
    assert_eq!(buffer.frame_count(), 2);
    assert!(!buffer.is_empty());
    assert_eq!(buffer.samples(), &[0.25_f32, -0.25, 0.5, -0.5]);
    assert_eq!(buffer.into_samples(), vec![0.25_f32, -0.25, 0.5, -0.5]);

    let error = AudioBuffer::new(0, 2, vec![0.0_f32; 2]).unwrap_err();
    assert!(matches!(error, ResampleError::InvalidSampleRate(0)));
    assert_eq!(error.message(), "Invalid sample rate: 0");
    let error = AudioBuffer::new(8000, 0, vec![0.0_f32; 2]).unwrap_err();
    assert!(matches!(error, ResampleError::InvalidChannelCount(0)));
    let error = AudioBuffer::new(8000, 2, vec![0.0_f32; 3]).unwrap_err();
    assert!(matches!(error, ResampleError::BufferError(BufferIssue::SamplesNotWholeFrames)));
    assert_eq!(
        error.message(),
        "Buffer error: interleaved sample count must be divisible by channel count"
    );

    let empty = AudioBuffer::new(8000, 3, Vec::<f32>::new()).unwrap();
    assert!(empty.is_empty());
    assert_eq!(empty.frame_count(), 0);
}

#[test]
fn interleaved_frame_count_checks_channels_first() {
    assert_eq!(interleaved_frames(8, 2).unwrap(), 4);
    assert_eq!(interleaved_frames(0, 3).unwrap(), 0);
    assert!(matches!(interleaved_frames(7, 0), Err(ResampleError::InvalidChannelCount(0))));
    assert!(matches!(
        interleaved_frames(7, 2),
        Err(ResampleError::BufferError(BufferIssue::InputNotWholeFrames))
    ));
}

#[test]
fn wav_layouts_that_are_read() {
    assert_eq!(wav_sample_format(true, 32).unwrap(), WavSampleFormat::Float32);
    assert_eq!(wav_sample_format(false, 24).unwrap(), WavSampleFormat::Int(24));
    let error = wav_sample_format(true, 64).unwrap_err();
    assert_eq!(error.message(), "Unsupported WAV format: Float with 64 bits per sample");
    let error = wav_sample_format(false, 12).unwrap_err();
    assert_eq!(error.message(), "Unsupported WAV format: Int with 12 bits per sample");
}

#[test]
fn flac_layout_checks_channels_then_bits() {
    assert_eq!(flac_stream_channels(2, 16).unwrap(), 2);
    let error = flac_stream_channels(70_000, 0).unwrap_err();
    assert_eq!(error.message(), "Unsupported WAV format: FLAC channel count 70000 exceeds u16");
    let error = flac_stream_channels(2, 0).unwrap_err();
    assert_eq!(error.message(), "Unsupported WAV format: FLAC stream reports 0 bits per sample");
}
