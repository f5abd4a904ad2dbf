use br41ndmg::error::{BufferIssue, ResampleError};
use br41ndmg::polyphase::{filter_radius, validate_filter_shape, DEFAULT_TAPS_PER_PHASE};
use br41ndmg::stream::{clamp_frame_index, StreamHistory};

#[test]
fn streaming_rejects_processing_after_flush_without_reset() {
    let mut stream: StreamHistory<f32> = StreamHistory::new(1, 31).unwrap();
    let input = [0.0_f32, 1.0, 0.5, -0.5];
    let output = [0.0_f32; 4];
    stream.check_process_buffers(&input, &output).unwrap();
    stream.push_input(&input);
    stream.finish();

    let error = stream.check_process_buffers(&[0.25, 0.75], &[0.0; 2]).unwrap_err();
    assert!(error.message().contains("cannot process after flush"));

    stream.reset();
    assert!(stream.check_process_buffers(&[0.25, 0.75], &[0.0; 2]).is_ok());
}

#[test]
fn history_lookup_reads_received_frames() {
    let mut stream: StreamHistory<i32> = StreamHistory::new(2, 1).unwrap();
    stream.push_input(&[10, 11, 20, 21]);
    stream.push_input(&[30, 31]);
    assert_eq!(stream.input_frames_received(), 3);
    assert_eq!(stream.history_frame(0, false).unwrap(), &[10, 11]);
    assert_eq!(stream.history_frame(2, false).unwrap(), &[30, 31]);
    // Before the start clamps to the first frame.
    assert_eq!(stream.history_frame(-5, false).unwrap(), &[10, 11]);
    // Past the newest frame: an error while streaming, the newest when flushing.
    assert!(matches!(
        stream.history_frame(3, false),
        Err(ResampleError::BufferError(BufferIssue::ReadBeyondInput))
    ));
    assert_eq!(stream.history_frame(7, true).unwrap(), &[30, 31]);
}

#[test]
fn trimming_drops_only_frames_out_of_reach() {
    let mut stream: StreamHistory<i32> = StreamHistory::new(1, 2).unwrap();
    stream.push_input(&[0, 1, 2, 3, 4, 5]);
    // The next output sits at frame 4: frames before 4 - 2 = 2 go.
    stream.trim_history(4);
    assert_eq!(stream.history_start_frame(), 2);
    assert!(matches!(
        stream.history_frame(1, false),
        Err(ResampleError::BufferError(BufferIssue::HistoryTrimmed))
    ));
    assert_eq!(stream.history_frame(2, false).unwrap(), &[2]);
    assert_eq!(stream.history_frame(5, false).unwrap(), &[5]);
    // Moving back never re-grows the history.
    stream.trim_history(1);
    assert_eq!(stream.history_start_frame(), 2);
}

#[test]
fn empty_history_has_nothing_to_read() {
    let stream: StreamHistory<f32> = StreamHistory::new(2, 31).unwrap();
    assert!(matches!(
        stream.history_frame(0, true),
        Err(ResampleError::BufferError(BufferIssue::NoHistory))
    ));
    assert_eq!(stream.flush_frames(10), 0);
}

#[test]
fn buffers_must_hold_whole_frames() {
    let stream: StreamHistory<f32> = StreamHistory::new(2, 31).unwrap();
    assert_eq!(stream.validate_interleaved_buffer(&[0.0; 6]).unwrap(), 3);
    let error = stream.validate_interleaved_buffer(&[0.0; 5]).unwrap_err();
    assert_eq!(
        error.message(),
        "Buffer error: interleaved input length must be divisible by channel count"
    );
    let error = stream.validate_output_buffer(&[0.0; 3]).unwrap_err();
    assert_eq!(
        error.message(),
        "Buffer error: output buffer length must be divisible by channel count"
    );
    assert!(matches!(
        StreamHistory::<f32>::new(0, 31),
        Err(ResampleError::InvalidChannelCount(0))
    ));
}

#[test]
fn flush_emits_the_frames_not_yet_emitted() {
    let mut stream: StreamHistory<f32> = StreamHistory::new(1, 31).unwrap();
    stream.push_input(&[0.0; 10]);
    stream.record_emitted();
    stream.record_emitted();
    assert_eq!(stream.flush_frames(11), 9);
    assert_eq!(stream.flush_frames(1), 0);
    stream.finish();
    assert_eq!(stream.flush_frames(11), 0);
}

#[test]
fn frame_index_clamps_at_both_edges() {
    assert_eq!(clamp_frame_index(-3, 10), 0);
    assert_eq!(clamp_frame_index(4, 10), 4);
    assert_eq!(clamp_frame_index(12, 10), 9);
    assert_eq!(clamp_frame_index(5, 1), 0);
    assert_eq!(clamp_frame_index(5, 0), 0);
}

#[test]
fn polyphase_params_reject_invalid_values() {
    let error = validate_filter_shape(0, DEFAULT_TAPS_PER_PHASE).unwrap_err();
    assert!(error.message().contains("phase count"));

    let error = validate_filter_shape(256, 32).unwrap_err();
    assert!(error.message().contains("tap count"));
}

#[test]
fn default_latency_is_half_the_taps() {
    assert_eq!(filter_radius(DEFAULT_TAPS_PER_PHASE), 31);
    assert!(validate_filter_shape(256, 63).is_ok());
}

#[test]
fn flush_reads_the_frames_the_offline_clamp_picks() {
    let samples = [5, 6, 7, 8, 9];
    let mut stream: StreamHistory<i32> = StreamHistory::new(1, 2).unwrap();
    stream.push_input(&samples[..2]);
    stream.push_input(&samples[2..]);
    for index in -4_isize..9 {
        let offline = samples[clamp_frame_index(index, samples.len())];
        assert_eq!(stream.history_frame(index, true).unwrap(), &[offline]);
    }
}
