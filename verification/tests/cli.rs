use br41ndmg::browser::{marker, phase_label, spinner, Browser, Entry, Phase};
use br41ndmg::keys::Key;
use br41ndmg::naming::{auto_output_name, has_wav_extension, is_audio_extension, is_audio_file, BatchOutcome};
use br41ndmg::spectrogram::{row_bins, stft_grid, BINS, MAX_COLUMNS};
use br41ndmg::viewer::{cell_columns, clock_label, fmt_size, tag_line, ViewAction, ViewerState};
use std::path::PathBuf;

#[test]
fn initial_step_fits_and_zoom_clamps() {
    // 16 000 frames of a mono file give the spectrogram its column count.
    let cols = stft_grid(16_000).1.max(1);
    let mut viewer = ViewerState::new();

    // zoom out beyond fit stays clamped
    viewer.handle_key(Key::Char('-'), Some(cols));
    assert_eq!(viewer.step(), cols);
    // zoom in halves
    viewer.handle_key(Key::Char('0'), Some(cols));
    viewer.handle_key(Key::Char('+'), Some(cols));
    assert!(viewer.step() <= cols / 2);
    // esc goes back
    assert!(matches!(viewer.handle_key(Key::Esc, Some(cols)), ViewAction::Back));
}

#[test]
fn scrolling_stays_inside_the_grid() {
    let mut viewer = ViewerState::new();
    assert!(matches!(viewer.handle_key(Key::Char('x'), None), ViewAction::Continue));
    assert!(matches!(viewer.handle_key(Key::Char('q'), None), ViewAction::Back));
    for _ in 0..10 {
        viewer.handle_key(Key::Right, Some(100));
    }
    assert_eq!(viewer.scroll(), 99);
    viewer.handle_key(Key::Left, Some(100));
    assert_eq!(viewer.scroll(), 74);
    viewer.handle_key(Key::Char('0'), Some(100));
    assert_eq!(viewer.scroll(), 0);
    assert_eq!(viewer.step(), usize::MAX);
    assert_eq!(viewer.effective_step(100, 30), 4);
    assert_eq!(viewer.page(100), 100);
}

#[test]
fn spectrogram_grid_caps_columns() {
    assert_eq!(stft_grid(0), (512, 1));
    assert_eq!(stft_grid(16_000), (512, 30));
    let (hop, columns) = stft_grid(300 * 44_100);
    assert!(columns <= MAX_COLUMNS);
    assert!(columns > 0);
    assert_eq!(hop, 1024);
    assert_eq!(row_bins(0, 4), (384, BINS));
    assert_eq!(row_bins(3, 4), (0, 128));
}

#[test]
fn fmt_size_labels() {
    assert_eq!(fmt_size(512), "512 B");
    assert_eq!(fmt_size(2 * 1024 * 1024), "2.0 MB");
    assert_eq!(fmt_size(0), "0 B");
    assert_eq!(fmt_size(1023), "1023 B");
    assert_eq!(fmt_size(1024), "1.0 KB");
}

fn float_label(bytes: u64) -> String {
    let units = ["B", "KB", "MB", "GB"];
    let mut value = bytes as f64;
    let mut unit = 0;
    while value >= 1024.0 && unit < units.len() - 1 {
        value /= 1024.0;
        unit += 1;
    }
    if unit == 0 {
        format!("{bytes} B")
    } else {
        let u = units[unit];
        format!("{value:.1} {u}")
    }
}

#[test]
fn fmt_size_matches_double_formatting() {
    let mut samples: Vec<u64> = vec![
        1280, 1331, 1382, 1433, 1536, 1587, 5 * 1024 * 1024 + 52428, 10_485_760 - 1,
        (1 << 30) - 1, 1 << 30, 3 * (1 << 30) + (1 << 29), u64::MAX, u64::MAX - 1,
        (1 << 53) + 1, (1 << 60) + 12345, 999_999_999_999,
    ];
    let mut x: u64 = 0x9E37_79B9_7F4A_7C15;
    for _ in 0..2000 {
        x ^= x << 13;
        x ^= x >> 7;
        x ^= x << 17;
        samples.push(x >> (x % 60));
    }
    for bytes in samples {
        assert_eq!(fmt_size(bytes), float_label(bytes), "bytes = {bytes}");
    }
}

#[test]
fn output_names_follow_the_stem() {
    assert_eq!(auto_output_name(&PathBuf::from("/in/song.flac"), 48_000), "song_48000Hz.wav");
    assert_eq!(auto_output_name(&PathBuf::from("/"), 44_100), "output_44100Hz.wav");
    assert_eq!(auto_output_name(&PathBuf::from("a.b.wav"), 0), "a.b_0Hz.wav");
}

#[test]
fn audio_extensions_ignore_ascii_case() {
    assert!(is_audio_extension("wav"));
    assert!(is_audio_extension("FLAC"));
    assert!(is_audio_extension("Wav"));
    assert!(!is_audio_extension("mp3"));
    assert!(!is_audio_extension("wave"));
    assert!(is_audio_file(&PathBuf::from("/m/a.WAV")));
    assert!(is_audio_file(&PathBuf::from("b.Flac")));
    assert!(!is_audio_file(&PathBuf::from("/m/README")));
    assert!(!is_audio_file(&PathBuf::from("/m/x.mp3")));
    assert!(has_wav_extension(&PathBuf::from("out.wAv")));
    assert!(!has_wav_extension(&PathBuf::from("out.flac")));
}

#[test]
fn batch_outcome_is_ok_without_failures() {
    let ok = BatchOutcome { ok: 3, failed: Vec::new() };
    assert!(ok.is_ok());
    let failed = BatchOutcome {
        ok: 1,
        failed: vec![(PathBuf::from("a.wav"), "boom".to_string())],
    };
    assert!(!failed.is_ok());
    let tallied = BatchOutcome::tally(4, vec![(PathBuf::from("a.wav"), "boom".to_string())]);
    assert_eq!(tallied.ok, 3);
    assert_eq!(tallied.failed.len(), 1);
}

#[test]
fn browser_cursor_stays_on_rows() {
    let entries = vec![
        Entry::Dir("..".to_string(), PathBuf::from("/")),
        Entry::Audio("a.wav".to_string(), PathBuf::from("/a.wav")),
        Entry::Audio("b.flac".to_string(), PathBuf::from("/b.flac")),
    ];
    let mut browser = Browser::open(PathBuf::from("/music"), entries);
    assert_eq!(browser.selected_index(), Some(0));
    browser.move_cursor(-1);
    assert_eq!(browser.selected_index(), Some(0));
    browser.move_cursor(1);
    assert_eq!(browser.selected().map(|e| e.name()), Some("a.wav"));
    browser.move_cursor(10);
    assert_eq!(browser.selected_index(), Some(2));
    browser.reload(PathBuf::from("/empty"), Vec::new());
    assert_eq!(browser.selected_index(), None);
    browser.move_cursor(1);
    assert_eq!(browser.selected_index(), None);
}

#[test]
fn progress_labels() {
    assert_eq!(marker(true), "▶");
    assert_eq!(marker(false), " ");
    assert_eq!(spinner(0), "⠋");
    assert_eq!(spinner(85), "⠙");
    assert_eq!(spinner(800), "⠋");
    assert_eq!(phase_label(Phase::Decode), "decoding");
    assert_eq!(phase_label(Phase::Resample), "resampling");
    assert_eq!(phase_label(Phase::Write), "writing");
}

#[test]
fn clock_labels_pad_minutes_and_seconds() {
    assert_eq!(clock_label(62), "1:02");
    assert_eq!(clock_label(3671), "1:01:11");
    assert_eq!(clock_label(0), "0:00");
    assert_eq!(clock_label(3600), "1:00:00");
    assert_eq!(clock_label(599), "9:59");
}

#[test]
fn tag_lines_cut_long_values() {
    assert_eq!(tag_line("TITLE", "more than words"), " TITLE: more than words");
    let long: String = "é".repeat(61);
    let expected = format!(" COMMENT: {}…", "é".repeat(60));
    assert_eq!(tag_line("COMMENT", &long), expected);
    let exact: String = "x".repeat(60);
    assert_eq!(tag_line("A", &exact), format!(" A: {exact}"));
}

#[test]
fn cell_columns_pool_and_stop_at_the_end() {
    assert_eq!(cell_columns(0, 4, 0, 10), Some((0, 4)));
    assert_eq!(cell_columns(0, 4, 2, 10), Some((8, 10)));
    assert_eq!(cell_columns(0, 4, 3, 10), None);
    assert_eq!(cell_columns(5, 1, 2, 10), Some((7, 8)));
    assert_eq!(cell_columns(usize::MAX - 1, 2, usize::MAX, usize::MAX), None);
}

#[test]
fn fmt_helpers() {
    assert_eq!(fmt_size(512), "512 B");
    assert_eq!(fmt_size(2 * 1024 * 1024), "2.0 MB");
    // durations are rounded to whole seconds before they are shown
    assert_eq!(clock_label(62.4_f64.round() as u64), "1:02");
    assert_eq!(clock_label(3671.0_f64.round() as u64), "1:01:11");
}

#[test]
fn columns_cap_on_long_input() {
    let (_, columns) = stft_grid((44_100.0_f32 * 300.0) as usize);
    assert!(columns <= MAX_COLUMNS);
    assert!(columns > 0);
}
