use br41ndmg::browser::{Entry, Phase};
use br41ndmg::naming::BatchOutcome;
use br41ndmg::keys::Key;
use br41ndmg::text::parse_u32;
use br41ndmg::tui::{preset_index, rate_preset, App, Command, InputError, Mode, PRESET_COUNT};
use std::path::PathBuf;

fn app_with(entries: Vec<Entry>) -> App {
    App::new(PathBuf::from("/music"), entries)
}

fn sample_entries() -> Vec<Entry> {
    vec![
        Entry::Dir("..".to_string(), PathBuf::from("/")),
        Entry::Dir("live".to_string(), PathBuf::from("/music/live")),
        Entry::Audio("a.wav".to_string(), PathBuf::from("/music/a.wav")),
    ]
}

#[test]
fn new_app_starts_in_browser_with_defaults() {
    let app = app_with(sample_entries());
    assert_eq!(app.mode(), Mode::Browse);
    assert_eq!(app.rate_input(), "48000");
    assert_eq!(app.dir_input(), "./resampled");
    assert_eq!(app.input_focus(), 0);
    assert_eq!(app.input_error(), None);
    assert_eq!(app.browser().selected_index(), Some(0));
    assert_eq!(app.browser().entries().len(), 3);
}

#[test]
fn browser_keys_move_and_issue_commands() {
    let mut app = app_with(sample_entries());
    assert_eq!(app.handle_key(Key::Down, 0), Command::Continue);
    assert_eq!(app.browser().selected_index(), Some(1));
    assert_eq!(app.handle_key(Key::Enter, 0), Command::Descend);
    assert_eq!(app.handle_key(Key::Char('j'), 0), Command::Continue);
    assert_eq!(app.handle_key(Key::Char('j'), 0), Command::Continue);
    assert_eq!(app.browser().selected_index(), Some(2));
    assert_eq!(app.handle_key(Key::Enter, 0), Command::ToggleCurrent);
    assert_eq!(app.handle_key(Key::Char(' '), 0), Command::ToggleCurrent);
    assert_eq!(app.handle_key(Key::Char('u'), 0), Command::GoUp);
    assert_eq!(app.handle_key(Key::Char('a'), 0), Command::SelectAll);
    assert_eq!(app.handle_key(Key::Char('c'), 0), Command::ClearSelection);
    assert_eq!(app.handle_key(Key::Up, 0), Command::Continue);
    assert_eq!(app.browser().selected_index(), Some(1));
    // nothing selected: `p` does nothing
    assert_eq!(app.handle_key(Key::Char('p'), 0), Command::Continue);
    assert_eq!(app.mode(), Mode::Browse);
    assert_eq!(app.handle_key(Key::Char('p'), 2), Command::Continue);
    assert_eq!(app.mode(), Mode::Input);
}

#[test]
fn browser_quits_on_q_and_esc() {
    let mut app = app_with(Vec::new());
    assert_eq!(app.handle_key(Key::Down, 0), Command::Continue);
    assert_eq!(app.browser().selected_index(), None);
    assert_eq!(app.handle_key(Key::Char('q'), 0), Command::Quit);
    assert_eq!(app.handle_key(Key::Esc, 0), Command::Quit);
}

#[test]
fn reload_browser_resets_cursor() {
    let mut app = app_with(sample_entries());
    app.handle_key(Key::Down, 0);
    app.reload_browser(PathBuf::from("/music/live"), vec![Entry::Audio("b.flac".to_string(), PathBuf::from("/music/live/b.flac"))]);
    assert_eq!(app.browser().selected_index(), Some(0));
    assert_eq!(app.browser().dir(), &PathBuf::from("/music/live"));
}

#[test]
fn settings_focus_cycles_through_three_rows() {
    let mut app = app_with(sample_entries());
    app.handle_key(Key::Char('p'), 2);
    app.handle_key(Key::Tab, 2);
    assert_eq!(app.input_focus(), 1);
    app.handle_key(Key::Down, 2);
    assert_eq!(app.input_focus(), 2);
    app.handle_key(Key::Down, 2);
    assert_eq!(app.input_focus(), 0);
    app.handle_key(Key::Up, 2);
    assert_eq!(app.input_focus(), 2);
    app.handle_key(Key::Esc, 2);
    assert_eq!(app.mode(), Mode::Browse);
}

#[test]
fn rate_picker_opens_on_current_preset_and_picks() {
    let mut app = app_with(sample_entries());
    app.handle_key(Key::Char('p'), 2);
    app.handle_key(Key::Enter, 2);
    assert_eq!(app.mode(), Mode::PickRate);
    // 48000 is the eighth preset
    assert_eq!(app.rate_cursor(), Some(7));
    assert_eq!(app.rate_custom(), "48000");
    app.handle_key(Key::Down, 2);
    app.handle_key(Key::Enter, 2);
    assert_eq!(app.mode(), Mode::Input);
    assert_eq!(app.rate_input(), "88200");
}

#[test]
fn rate_picker_wraps_around() {
    let mut app = app_with(sample_entries());
    app.handle_key(Key::Char('p'), 2);
    app.handle_key(Key::Enter, 2);
    for _ in 0..6 {
        app.handle_key(Key::Char('j'), 2);
    }
    // row 13 of 13 is "Custom…"; one more wraps to the first preset
    assert_eq!(app.rate_cursor(), Some(0));
    app.handle_key(Key::Char('k'), 2);
    assert_eq!(app.rate_cursor(), Some(12));
}

#[test]
fn custom_rate_is_typed_and_taken() {
    let mut app = app_with(sample_entries());
    app.handle_key(Key::Char('p'), 2);
    app.handle_key(Key::Enter, 2);
    for _ in 0..5 {
        app.handle_key(Key::Down, 2);
    }
    assert_eq!(app.rate_cursor(), Some(12));
    app.handle_key(Key::Enter, 2);
    assert!(app.rate_custom_focused());
    for _ in 0..5 {
        app.handle_key(Key::Backspace, 2);
    }
    assert_eq!(app.rate_custom(), "");
    app.handle_key(Key::Backspace, 2);
    app.handle_key(Key::Char('x'), 2);
    app.handle_key(Key::Char('0'), 2);
    // zero is not taken
    app.handle_key(Key::Enter, 2);
    assert_eq!(app.mode(), Mode::PickRate);
    app.handle_key(Key::Backspace, 2);
    for c in ['2', '2', '0', '5', '0'] {
        app.handle_key(Key::Char(c), 2);
    }
    assert_eq!(app.rate_custom(), "22050");
    app.handle_key(Key::Enter, 2);
    assert_eq!(app.mode(), Mode::Input);
    assert_eq!(app.rate_input(), "22050");
}

#[test]
fn custom_rate_that_matches_no_preset_opens_on_custom_row() {
    let mut app = app_with(sample_entries());
    app.handle_key(Key::Char('p'), 2);
    app.handle_key(Key::Enter, 2);
    for _ in 0..8 {
        app.handle_key(Key::Up, 2);
    }
    assert_eq!(app.rate_cursor(), Some(12));
    app.handle_key(Key::Enter, 2);
    for _ in 0..5 {
        app.handle_key(Key::Backspace, 2);
    }
    for c in ['1', '2', '3', '4', '5'] {
        app.handle_key(Key::Char(c), 2);
    }
    app.handle_key(Key::Enter, 2);
    assert_eq!(app.rate_input(), "12345");
    app.handle_key(Key::Enter, 2);
    assert_eq!(app.rate_cursor(), Some(PRESET_COUNT));
    // Esc leaves the picker
    app.handle_key(Key::Esc, 2);
    assert_eq!(app.mode(), Mode::Input);
}

#[test]
fn dir_picker_cycles_and_returns_commands() {
    let mut app = app_with(sample_entries());
    app.handle_key(Key::Char('p'), 2);
    app.handle_key(Key::Down, 2);
    assert_eq!(app.handle_key(Key::Enter, 2), Command::OpenDirPicker);
    assert!(!app.picker_starts_in_browser());
    app.open_dir_picker(3);
    assert_eq!(app.mode(), Mode::PickDir);
    assert_eq!(app.dir_cursor(), Some(0));
    app.handle_key(Key::Up, 2);
    assert_eq!(app.dir_cursor(), Some(2));
    app.handle_key(Key::Char('j'), 2);
    assert_eq!(app.dir_cursor(), Some(0));
    assert_eq!(app.handle_key(Key::Right, 2), Command::OpenPickedDir);
    assert_eq!(app.handle_key(Key::Char('h'), 2), Command::PickerUp);
    app.reload_dir_picker(0);
    assert_eq!(app.dir_cursor(), None);
    assert_eq!(app.handle_key(Key::Down, 2), Command::Continue);
    assert_eq!(app.dir_cursor(), None);
    assert_eq!(app.handle_key(Key::Char('m'), 2), Command::UsePickerDir);
    assert_eq!(app.mode(), Mode::Input);
    app.set_dir_input("/tmp/out".to_string());
    assert_eq!(app.dir_input(), "/tmp/out");
}

#[test]
fn confirm_refuses_bad_rate_and_blank_dir() {
    let mut app = app_with(sample_entries());
    app.handle_key(Key::Char('p'), 2);
    app.set_dir_input("   ".to_string());
    assert!(app.picker_starts_in_browser());
    app.handle_key(Key::Up, 2);
    assert_eq!(app.input_focus(), 2);
    assert_eq!(app.handle_key(Key::Enter, 2), Command::Continue);
    assert_eq!(app.input_error(), Some(InputError::NoOutputDir));
    assert_eq!(InputError::NoOutputDir.message(), "output directory is required");
    assert_eq!(InputError::BadRate.message(), "sample rate must be a positive integer");
    app.set_dir_input("out".to_string());
    assert_eq!(app.handle_key(Key::Enter, 2), Command::Start(48000));
    assert_eq!(app.mode(), Mode::Progress);
    assert_eq!(app.progress_total(), 2);
    assert_eq!(app.progress_index(), 0);
    assert_eq!(app.progress_phase(), Phase::Decode);
    assert!(app.outcome().is_none());
    assert_eq!(app.handle_key(Key::Enter, 2), Command::Continue);
    app.record_phase(1, 2, Phase::Write);
    assert_eq!(app.progress_index(), 1);
    assert_eq!(app.progress_phase(), Phase::Write);
    app.finish_batch(BatchOutcome {
        ok: 1,
        failed: vec![(PathBuf::from("/music/a.wav"), "WAV error: bad".to_string())],
    });
    assert_eq!(app.mode(), Mode::Done);
    let outcome = app.outcome().unwrap();
    assert_eq!(outcome.ok, 1);
    assert_eq!(outcome.failed.len(), 1);
    assert_eq!(app.handle_key(Key::Char('z'), 2), Command::Quit);
}

#[test]
fn presets_and_their_rows() {
    assert_eq!(rate_preset(0), 8000);
    assert_eq!(rate_preset(6), 44100);
    assert_eq!(rate_preset(11), 192000);
    assert_eq!(preset_index(44100), 6);
    assert_eq!(preset_index(192000), 11);
    assert_eq!(preset_index(12345), PRESET_COUNT);
}

#[test]
fn picked_rate_is_the_started_rate() {
    let mut app = app_with(sample_entries());
    app.handle_key(Key::Char('p'), 2);
    app.handle_key(Key::Enter, 2);
    app.handle_key(Key::Up, 2);
    app.handle_key(Key::Enter, 2);
    assert_eq!(app.rate_input(), "44100");
    app.handle_key(Key::Up, 2);
    assert_eq!(app.handle_key(Key::Enter, 2), Command::Start(44100));
}

#[test]
fn rates_parse_like_str_parse() {
    assert_eq!(parse_u32("48000"), Some(48000));
    assert_eq!(parse_u32("+42"), Some(42));
    assert_eq!(parse_u32("4294967295"), Some(u32::MAX));
    assert_eq!(parse_u32("4294967296"), None);
    assert_eq!(parse_u32(""), None);
    assert_eq!(parse_u32("+"), None);
    assert_eq!(parse_u32("12a"), None);
    assert_eq!(parse_u32(" 1"), None);
    assert_eq!(parse_u32(&96000u32.to_string()), Some(96000));
}

#[test]
fn unicode_whitespace_counts_as_blank_output_dir() {
    let mut app = app_with(sample_entries());
    app.handle_key(Key::Char('p'), 2);
    app.handle_key(Key::Up, 2);
    app.set_dir_input("\u{3000}\t\u{85} ".to_string());
    assert!(app.picker_starts_in_browser());
    assert_eq!(app.handle_key(Key::Enter, 2), Command::Continue);
    assert_eq!(app.input_error(), Some(InputError::NoOutputDir));
    // a zero-width space is no whitespace
    app.set_dir_input("\u{200B}".to_string());
    assert!(!app.picker_starts_in_browser());
    assert_eq!(app.handle_key(Key::Enter, 2), Command::Start(48000));
}
