use br41ndmg::error::{BufferIssue, ResampleError};
use br41ndmg::io::{audio_format, AudioFormat};
use br41ndmg::tags::{attach_wav_info, read_tags, read_wav_info, vorbis_comment_tags, TagSource, Tags};
use hound::{SampleFormat, WavReader, WavSpec, WavWriter};
use std::io::Cursor;

fn tiny_wav() -> Vec<u8> {
    let spec = WavSpec {
        channels: 1,
        sample_rate: 8000,
        bits_per_sample: 32,
        sample_format: SampleFormat::Float,
    };
    let mut cursor = Cursor::new(Vec::new());
    {
        let mut writer = WavWriter::new(&mut cursor, spec).unwrap();
        for sample in [0.25_f32, -0.25, 0.5, -0.5] {
            writer.write_sample(sample).unwrap();
        }
        writer.finalize().unwrap();
    }
    cursor.into_inner()
}

fn sample_tags() -> Tags {
    vec![
        ("TITLE".into(), "more than words".into()),
        ("ARTIST".into(), "Hitsujibungaku".into()),
        // Odd-length value exercises subchunk zero-padding.
        ("ALBUM".into(), "abc".into()),
        // No INFO fourcc exists for this one; must be dropped on write.
        ("ALBUMARTIST".into(), "Dropped".into()),
    ]
}

#[test]
fn tagged_wav_round_trips() {
    let bytes = attach_wav_info(&tiny_wav(), &sample_tags()).unwrap();

    let tags = read_tags(&TagSource::Wav(bytes.clone()));
    assert_eq!(
        tags,
        vec![
            ("TITLE".to_string(), "more than words".to_string()),
            ("ARTIST".to_string(), "Hitsujibungaku".to_string()),
            ("ALBUM".to_string(), "abc".to_string()),
        ]
    );

    // The patched RIFF size must still satisfy a real WAV reader.
    let reader = WavReader::new(Cursor::new(bytes)).unwrap();
    assert_eq!(reader.duration(), 4);
}

#[test]
fn plain_wav_has_no_tags() {
    assert!(read_tags(&TagSource::Wav(tiny_wav())).is_empty());
}

#[test]
fn attach_then_read_matches() {
    let bytes = attach_wav_info(&tiny_wav(), &vec![("TITLE".into(), "une vie à peindre".into())]).unwrap();
    assert_eq!(
        read_tags(&TagSource::Wav(bytes)),
        vec![("TITLE".to_string(), "une vie à peindre".to_string())]
    );
}

#[test]
fn read_tags_unknown_or_missing_file_is_empty() {
    assert_eq!(audio_format(Some("mp3")), None);
    assert!(read_tags(&TagSource::Nothing).is_empty());
}

#[test]
fn extension_selects_container_exactly() {
    assert_eq!(audio_format(Some("wav")), Some(AudioFormat::Wav));
    assert_eq!(audio_format(Some("flac")), Some(AudioFormat::Flac));
    assert_eq!(audio_format(Some("WAV")), None);
    assert_eq!(audio_format(None), None);
}

#[test]
fn riff_size_is_patched_to_new_length() {
    let plain_bytes = tiny_wav();
    let bytes = attach_wav_info(&plain_bytes, &sample_tags()).unwrap();
    let riff = u32::from_le_bytes([bytes[4], bytes[5], bytes[6], bytes[7]]) as usize;
    assert_eq!(riff, bytes.len() - 8);
    // LIST chunk: "LIST" + size + "INFO" + 3 subchunks (8+16, 8+14, 8+3+1) = 12 + 58.
    assert_eq!(bytes.len(), plain_bytes.len() + 8 + 4 + 24 + 22 + 12);
    // The audio after the inserted chunk is untouched.
    assert_eq!(&bytes[bytes.len() - 16..], &plain_bytes[plain_bytes.len() - 16..]);
}

#[test]
fn attach_without_data_chunk_fails() {
    let mut bytes = b"RIFF\x04\x00\x00\x00WAVE".to_vec();
    bytes.extend_from_slice(b"fmt \x00\x00\x00\x00");
    let error = attach_wav_info(&bytes, &sample_tags()).unwrap_err();
    assert!(matches!(error, ResampleError::BufferError(BufferIssue::NoDataChunk)));
    assert_eq!(error.message(), "Buffer error: no data chunk in WAV");
}

#[test]
fn non_riff_bytes_have_no_info() {
    assert!(read_wav_info(b"not a wav file at all").is_none());
    assert!(read_wav_info(&[]).is_none());
}

#[test]
fn info_chunk_with_unknown_fourcc_is_skipped() {
    let mut bytes = b"RIFF\x00\x00\x00\x00WAVE".to_vec();
    let mut info = b"INFO".to_vec();
    info.extend_from_slice(b"IXYZ\x02\x00\x00\x00hi");
    info.extend_from_slice(b"IGNR\x03\x00\x00\x00pop\x00");
    bytes.extend_from_slice(b"LIST");
    bytes.extend_from_slice(&(info.len() as u32).to_le_bytes());
    bytes.extend_from_slice(&info);
    let tags = read_wav_info(&bytes).unwrap();
    assert_eq!(tags, vec![("GENRE".to_string(), "pop".to_string())]);
}

#[test]
fn invalid_utf8_value_is_decoded_lossily() {
    let mut bytes = b"RIFF\x00\x00\x00\x00WAVE".to_vec();
    let mut info = b"INFO".to_vec();
    info.extend_from_slice(b"ICMT\x02\x00\x00\x00\xff!");
    bytes.extend_from_slice(b"LIST");
    bytes.extend_from_slice(&(info.len() as u32).to_le_bytes());
    bytes.extend_from_slice(&info);
    let tags = read_wav_info(&bytes).unwrap();
    assert_eq!(tags, vec![("COMMENT".to_string(), "\u{FFFD}!".to_string())]);
}

#[test]
fn flac_comment_names_are_uppercased() {
    let comments = vec![
        ("title".to_string(), "Song".to_string()),
        ("Artist".to_string(), "Band".to_string()),
        ("albumartist".to_string(), "Other".to_string()),
    ];
    let tags = vorbis_comment_tags(&comments);
    assert_eq!(
        tags,
        vec![
            ("TITLE".to_string(), "Song".to_string()),
            ("ARTIST".to_string(), "Band".to_string()),
            ("ALBUMARTIST".to_string(), "Other".to_string()),
        ]
    );
    assert_eq!(read_tags(&TagSource::Flac(comments)), tags);
}

#[test]
fn existing_info_chunk_wins_over_a_second_one() {
    // A file that already carries LIST INFO keeps reading its first chunk.
    let first = attach_wav_info(&tiny_wav(), &vec![("TITLE".into(), "first".into())]).unwrap();
    let second = attach_wav_info(&first, &vec![("TITLE".into(), "second".into())]).unwrap();
    assert_eq!(read_tags(&TagSource::Wav(second)), vec![("TITLE".to_string(), "first".to_string())]);
}
