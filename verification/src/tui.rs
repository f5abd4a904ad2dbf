//! Decisions of the interactive tool: which screen is shown, what each key
//! does on it, and what the caller has to do next (read a directory, start
//! a batch, quit). Reading directories and running the batch stay with the
//! caller.

use vstd::prelude::*;
use crate::browser::{moved_cursor, Browser, Entry, Phase};
use crate::naming::BatchOutcome;
use std::path::PathBuf;
use crate::keys::Key;
use crate::text::{decimal, decimal_string, is_blank, is_digit, is_white_space, lemma_decimal_parses, parse_u32, parsed_u32, pop_char, push_char};

verus! {

/// The screens of the interactive tool.
#[derive(Debug, Clone, Copy, PartialEq, Eq, Structural)]
pub enum Mode {
    Browse,
    Input,
    PickRate,
    PickDir,
    Progress,
    Done,
}

/// Why the settings screen refused to start.
#[derive(Debug, Clone, Copy, PartialEq, Eq, Structural)]
pub enum InputError {
    /// The rate is not a positive integer.
    BadRate,
    /// No output directory was given.
    NoOutputDir,
}

impl InputError {
    /// The text shown for the error.
    pub fn message(&self) -> (r: &'static str)
        ensures
            r@ == match self {
                InputError::BadRate => "sample rate must be a positive integer"@,
                InputError::NoOutputDir => "output directory is required"@,
            },
    {
        match self {
            InputError::BadRate => "sample rate must be a positive integer",
            InputError::NoOutputDir => "output directory is required",
        }
    }
}

/// What the caller does after a key.
#[derive(Debug, Clone, Copy, PartialEq, Eq, Structural)]
pub enum Command {
    /// Nothing more.
    Continue,
    /// Leave the tool.
    Quit,
    /// Show the directory under the browser cursor.
    Descend,
    /// Show the parent of the browsed directory.
    GoUp,
    /// Toggle the selection of the audio file under the browser cursor.
    ToggleCurrent,
    /// Select every audio file shown.
    SelectAll,
    /// Clear the selection.
    ClearSelection,
    /// Read the subdirectories where the directory picker starts, then call
    /// `open_dir_picker`.
    OpenDirPicker,
    /// Move the directory picker into the entry under its cursor.
    OpenPickedDir,
    /// Move the directory picker to its directory's parent.
    PickerUp,
    /// Use the picker's directory as the output directory (`set_dir_input`).
    UsePickerDir,
    /// Resample the selection at this rate into the output directory.
    Start(u32),
}

/// The key help shown at the bottom of each screen.
pub fn footer(mode: Mode) -> (r: &'static str)
    ensures
        r@ == match mode {
            Mode::Browse => "↑/↓ move  Enter open/toggle  Space toggle  u up  a all  c clear  p process  q quit"@,
            Mode::Input => "Tab/↑↓ move  Enter change  Esc back"@,
            Mode::PickRate => "↑/↓ choose  Enter select  Esc back"@,
            Mode::PickDir => "↑/↓ move  Enter/→ open  ←/u up  m/Space use  Esc cancel"@,
            Mode::Progress => "resampling..."@,
            Mode::Done => "press any key to exit"@,
        },
{
    match mode {
        Mode::Browse => "↑/↓ move  Enter open/toggle  Space toggle  u up  a all  c clear  p process  q quit",
        Mode::Input => "Tab/↑↓ move  Enter change  Esc back",
        Mode::PickRate => "↑/↓ choose  Enter select  Esc back",
        Mode::PickDir => "↑/↓ move  Enter/→ open  ←/u up  m/Space use  Esc cancel",
        Mode::Progress => "resampling...",
        Mode::Done => "press any key to exit",
    }
}

/// The sample-rate presets offered by the rate picker.
pub open spec fn preset(i: int) -> u32 {
    if i == 0 {
        8000
    } else if i == 1 {
        11025
    } else if i == 2 {
        16000
    } else if i == 3 {
        22050
    } else if i == 4 {
        24000
    } else if i == 5 {
        32000
    } else if i == 6 {
        44100
    } else if i == 7 {
        48000
    } else if i == 8 {
        88200
    } else if i == 9 {
        96000
    } else if i == 10 {
        176400
    } else {
        192000
    }
}

/// Number of presets; the rate list has one more row, "Custom…".
pub const PRESET_COUNT: usize = 12;

/// The `i`-th sample-rate preset.
pub fn rate_preset(i: usize) -> (r: u32)
    requires
        i < PRESET_COUNT,
    ensures
        r == preset(i as int),
        r == seq![
            8000u32,
            11025u32,
            16000u32,
            22050u32,
            24000u32,
            32000u32,
            44100u32,
            48000u32,
            88200u32,
            96000u32,
            176400u32,
            192000u32,
        ][i as int],
{
    proof {
        lemma_preset_table();
    }
    if i == 0 {
        8000
    } else if i == 1 {
        11025
    } else if i == 2 {
        16000
    } else if i == 3 {
        22050
    } else if i == 4 {
        24000
    } else if i == 5 {
        32000
    } else if i == 6 {
        44100
    } else if i == 7 {
        48000
    } else if i == 8 {
        88200
    } else if i == 9 {
        96000
    } else if i == 10 {
        176400
    } else {
        192000
    }
}

/// The row of the preset equal to `rate`, or `PRESET_COUNT` when no preset
/// is.
pub fn preset_index(rate: u32) -> (r: usize)
    ensures
        r <= PRESET_COUNT,
        r < PRESET_COUNT ==> preset(r as int) == rate,
        r == PRESET_COUNT ==> forall|j: int| 0 <= j < 12 ==> preset(j) != rate,
{
    let mut i: usize = 0;
    while i < PRESET_COUNT
        invariant
            i <= PRESET_COUNT,
            forall|j: int| 0 <= j < i ==> preset(j) != rate,
        decreases PRESET_COUNT - i,
    {
        if rate_preset(i) == rate {
            return i;
        }
        i = i + 1;
    }
    i
}

/// The rate-list row for a rate: its preset's row, or the "Custom…" row.
pub open spec fn preset_row(rate: Option<u32>) -> nat {
    match rate {
        Some(r) => if exists|i: int| 0 <= i < 12 && preset(i) == r {
            (choose|i: int| 0 <= i < 12 && preset(i) == r) as nat
        } else {
            12
        },
        None => 12,
    }
}

/// What the interactive tool shows and has typed in, and how far a running
/// batch has got, apart from the file browser and the selection.
pub struct AppView {
    pub mode: Mode,
    pub input_focus: nat,
    pub input_error: Option<InputError>,
    pub rate_input: Seq<char>,
    pub dir_input: Seq<char>,
    pub rate_cursor: Option<nat>,
    pub rate_custom: Seq<char>,
    pub rate_custom_focused: bool,
    pub dir_cursor: Option<nat>,
    pub dir_entries: nat,
    pub progress_index: nat,
    pub progress_total: nat,
    pub progress_phase: Phase,
    pub outcome: Option<BatchOutcome>,
}

/// State of the interactive tool: the file browser, the screen, the
/// settings being edited, the cursors of the pickers and the progress of a
/// batch.
pub struct App {
    browser: Browser,
    mode: Mode,
    input_focus: usize,
    input_error: Option<InputError>,
    rate_input: String,
    dir_input: String,
    rate_cursor: Option<usize>,
    rate_custom: String,
    rate_custom_focused: bool,
    dir_cursor: Option<usize>,
    dir_entries: usize,
    progress_index: usize,
    progress_total: usize,
    progress_phase: Phase,
    outcome: Option<BatchOutcome>,
}

impl View for App {
    type V = AppView;

    closed spec fn view(&self) -> AppView {
        AppView {
            mode: self.mode,
            input_focus: self.input_focus as nat,
            input_error: self.input_error,
            rate_input: self.rate_input@,
            dir_input: self.dir_input@,
            rate_cursor: match self.rate_cursor {
                Some(i) => Some(i as nat),
                None => None,
            },
            rate_custom: self.rate_custom@,
            rate_custom_focused: self.rate_custom_focused,
            dir_cursor: match self.dir_cursor {
                Some(i) => Some(i as nat),
                None => None,
            },
            dir_entries: self.dir_entries as nat,
            progress_index: self.progress_index as nat,
            progress_total: self.progress_total as nat,
            progress_phase: self.progress_phase,
            outcome: self.outcome,
        }
    }
}

/// Only ASCII digits.
pub open spec fn all_digits(s: Seq<char>) -> bool {
    forall|i: int| 0 <= i < s.len() ==> is_digit(#[trigger] s[i])
}

/// Whether the text holds nothing but whitespace.
pub open spec fn blank(s: Seq<char>) -> bool {
    forall|i: int| 0 <= i < s.len() ==> is_white_space(#[trigger] s[i])
}

/// The invariants of the tool's state: the focus is one of the three
/// settings rows, the cursors are on rows, and the rate fields hold only
/// digits (so trimming them changes nothing).
pub open spec fn app_wf(v: AppView) -> bool {
    &&& v.input_focus < 3
    &&& (v.rate_cursor matches Some(i) ==> i <= 12)
    &&& (v.dir_cursor matches Some(i) ==> i < v.dir_entries)
    &&& all_digits(v.rate_input)
    &&& all_digits(v.rate_custom)
}

/// The settings screen after `Enter` on the rate row: the rate picker, its
/// cursor on the current rate's preset (or "Custom…"), the custom field
/// holding the current rate.
pub open spec fn with_rate_picker(s: AppView) -> AppView {
    AppView {
        input_error: None,
        rate_custom: s.rate_input,
        rate_custom_focused: false,
        rate_cursor: Some(preset_row(parsed_u32(s.rate_input))),
        mode: Mode::PickRate,
        ..s
    }
}

/// What `Enter` on "Start resampling" does with `selected` files chosen:
/// refuses a rate that is not a positive integer, then a blank output
/// directory; otherwise shows the progress screen at the first file's
/// decoding, with `selected` files to go and no outcome yet, and starts the
/// batch.
pub open spec fn after_confirm(s: AppView, selected: nat) -> (AppView, Command) {
    match parsed_u32(s.rate_input) {
        Some(rate) => if rate == 0 {
            (AppView { input_error: Some(InputError::BadRate), ..s }, Command::Continue)
        } else if blank(s.dir_input) {
            (AppView { input_error: Some(InputError::NoOutputDir), ..s }, Command::Continue)
        } else {
            (
                AppView {
                    mode: Mode::Progress,
                    progress_index: 0,
                    progress_total: selected,
                    progress_phase: Phase::Decode,
                    outcome: None,
                    ..s
                },
                Command::Start(rate),
            )
        },
        None => (AppView { input_error: Some(InputError::BadRate), ..s }, Command::Continue),
    }
}

/// Keys on the settings screen: `Tab`/`Down` and `Up` cycle the three rows,
/// `Esc` returns to the browser, `Enter` opens the rate picker, the
/// directory picker, or starts.
pub open spec fn after_input_key(s: AppView, code: Key, selected: nat) -> (AppView, Command) {
    if code == Key::Tab || code == Key::Down {
        (AppView { input_focus: (s.input_focus + 1) % 3, ..s }, Command::Continue)
    } else if code == Key::Up {
        (AppView { input_focus: (s.input_focus + 2) % 3, ..s }, Command::Continue)
    } else if code == Key::Esc {
        (AppView { mode: Mode::Browse, ..s }, Command::Continue)
    } else if code == Key::Enter {
        if s.input_focus == 0 {
            (with_rate_picker(s), Command::Continue)
        } else if s.input_focus == 1 {
            (s, Command::OpenDirPicker)
        } else {
            after_confirm(s, selected)
        }
    } else {
        (s, Command::Continue)
    }
}

/// Keys on the rate picker. With the custom field focused: `Esc` leaves the
/// field, `Enter` takes a positive typed rate, `Backspace` deletes, digits
/// are typed. Otherwise `Down`/`j` and `Up`/`k` cycle the 13 rows, `Enter`
/// takes a preset (or focuses the custom field), `Esc` goes back.
pub open spec fn after_rate_key(s: AppView, code: Key) -> AppView {
    if s.rate_custom_focused {
        if code == Key::Esc {
            AppView { rate_custom_focused: false, ..s }
        } else if code == Key::Enter {
            match parsed_u32(s.rate_custom) {
                Some(rate) => if rate != 0 {
                    AppView { rate_input: decimal(rate as nat), mode: Mode::Input, ..s }
                } else {
                    s
                },
                None => s,
            }
        } else if code == Key::Backspace {
            AppView {
                rate_custom: if s.rate_custom.len() > 0 {
                    s.rate_custom.drop_last()
                } else {
                    s.rate_custom
                },
                ..s
            }
        } else {
            match code {
                Key::Char(c) => if is_digit(c) {
                    AppView { rate_custom: s.rate_custom.push(c), ..s }
                } else {
                    s
                },
                _ => s,
            }
        }
    } else {
        let i: nat = match s.rate_cursor {
            Some(i) => i,
            None => 0,
        };
        if code == Key::Down || code == Key::Char('j') {
            AppView { rate_cursor: Some((i + 1) % 13), ..s }
        } else if code == Key::Up || code == Key::Char('k') {
            AppView { rate_cursor: Some((i + 12) % 13), ..s }
        } else if code == Key::Enter {
            if i < 12 {
                AppView { rate_input: decimal(preset(i as int) as nat), mode: Mode::Input, ..s }
            } else {
                AppView { rate_custom_focused: true, ..s }
            }
        } else if code == Key::Esc {
            AppView { mode: Mode::Input, ..s }
        } else {
            s
        }
    }
}

/// Keys on the directory picker: `Down`/`j` and `Up`/`k` cycle the rows
/// (when there are any), `Enter`/`Right`/`l` open the row,
/// `Left`/`h`/`Backspace`/`u` go up, `Space`/`m` use the directory, `Esc`
/// goes back.
pub open spec fn after_dir_key(s: AppView, code: Key) -> (AppView, Command) {
    let i: nat = match s.dir_cursor {
        Some(i) => i,
        None => 0,
    };
    if (code == Key::Down || code == Key::Char('j')) && s.dir_entries > 0 {
        (AppView { dir_cursor: Some((i + 1) % s.dir_entries), ..s }, Command::Continue)
    } else if (code == Key::Up || code == Key::Char('k')) && s.dir_entries > 0 {
        (
            AppView { dir_cursor: Some((i + s.dir_entries - 1) as nat % s.dir_entries), ..s },
            Command::Continue,
        )
    } else if code == Key::Enter || code == Key::Right || code == Key::Char('l') {
        (s, Command::OpenPickedDir)
    } else if code == Key::Left || code == Key::Char('h') || code == Key::Backspace || code
        == Key::Char('u') {
        (s, Command::PickerUp)
    } else if code == Key::Char(' ') || code == Key::Char('m') {
        (AppView { mode: Mode::Input, ..s }, Command::UsePickerDir)
    } else if code == Key::Esc {
        (AppView { mode: Mode::Input, ..s }, Command::Continue)
    } else {
        (s, Command::Continue)
    }
}

/// Keys in the browser that do not move its cursor: open or toggle,
/// toggle, go up, select all, clear, proceed to the settings (once
/// something is selected), quit.
pub open spec fn after_browse_key(s: AppView, code: Key, has_selection: bool, on_dir: bool) -> (
    AppView,
    Command,
) {
    if code == Key::Enter {
        (s, if on_dir {
            Command::Descend
        } else {
            Command::ToggleCurrent
        })
    } else if code == Key::Char(' ') {
        (s, Command::ToggleCurrent)
    } else if code == Key::Char('u') {
        (s, Command::GoUp)
    } else if code == Key::Char('a') {
        (s, Command::SelectAll)
    } else if code == Key::Char('c') {
        (s, Command::ClearSelection)
    } else if code == Key::Char('p') && has_selection {
        (AppView { input_error: None, mode: Mode::Input, ..s }, Command::Continue)
    } else if code == Key::Esc || code == Key::Char('q') {
        (s, Command::Quit)
    } else {
        (s, Command::Continue)
    }
}

/// The browser's cursor after one row down (`down`) or up: it stays on the
/// rows, and stays put when there are none.
pub open spec fn moved_browser_cursor(b: Browser, down: bool) -> Option<usize> {
    if b.entries_view().len() == 0 {
        b.cursor()
    } else {
        Some(
            moved_cursor(
                match b.cursor() {
                    Some(i) => i as int,
                    None => 0,
                },
                if down {
                    1
                } else {
                    -1
                },
                b.entries_view().len(),
            ) as usize,
        )
    }
}

impl App {
    /// The state invariants hold, the browser's among them.
    pub open spec fn wf(&self) -> bool {
        app_wf(self@) && self.browser_state().wf()
    }

    /// The file browser.
    pub closed spec fn browser_state(&self) -> Browser {
        self.browser
    }

    /// The tool as it starts: the browser on `dir` showing `entries`, rate
    /// 48000, output directory `./resampled`, focus on the rate row, no
    /// pickers open.
    pub fn new(dir: PathBuf, entries: Vec<Entry>) -> (r: Self)
        ensures
            r.wf(),
            r.browser_state().dir_view() == dir,
            r.browser_state().entries_view() == entries@,
            r.browser_state().cursor() == if entries@.len() == 0 {
                None
            } else {
                Some(0usize)
            },
            r@.mode == Mode::Browse,
            r@.rate_input == "48000"@,
            r@.dir_input == "./resampled"@,
            r@.input_focus == 0,
            r@.input_error is None,
            r@.rate_cursor is None,
            r@.rate_custom == Seq::<char>::empty(),
            !r@.rate_custom_focused,
            r@.dir_cursor is None,
            r@.dir_entries == 0,
            r@.progress_index == 0,
            r@.progress_total == 0,
            r@.progress_phase == Phase::Decode,
            r@.outcome is None,
    {
        proof {
            reveal_strlit("48000");
        }
        let r = App {
            browser: Browser::open(dir, entries),
            mode: Mode::Browse,
            input_focus: 0,
            input_error: None,
            rate_input: "48000".to_owned(),
            dir_input: "./resampled".to_owned(),
            rate_cursor: None,
            rate_custom: String::new(),
            rate_custom_focused: false,
            dir_cursor: None,
            dir_entries: 0,
            progress_index: 0,
            progress_total: 0,
            progress_phase: Phase::Decode,
            outcome: None,
        };
        proof {
            assert(r@.rate_input =~= seq!['4', '8', '0', '0', '0']);
        }
        r
    }

    /// The screen shown.
    pub fn mode(&self) -> (r: Mode)
        ensures
            r == self@.mode,
    {
        self.mode
    }

    /// The file browser.
    pub fn browser(&self) -> (r: &Browser)
        ensures
            *r == self.browser_state(),
    {
        &self.browser
    }

    /// The browser now shows `entries` for `dir` (after `Descend` or
    /// `GoUp`), its cursor on the first row.
    pub fn reload_browser(&mut self, dir: PathBuf, entries: Vec<Entry>)
        requires
            old(self).wf(),
        ensures
            final(self).wf(),
            final(self)@ == old(self)@,
            final(self).browser_state().dir_view() == dir,
            final(self).browser_state().entries_view() == entries@,
            final(self).browser_state().cursor() == if entries@.len() == 0 {
                None
            } else {
                Some(0usize)
            },
    {
        self.browser.reload(dir, entries);
    }

    /// The focused settings row: 0 rate, 1 output directory, 2 start.
    pub fn input_focus(&self) -> (r: usize)
        ensures
            r == self@.input_focus,
    {
        self.input_focus
    }

    /// The error shown on the settings screen.
    pub fn input_error(&self) -> (r: Option<InputError>)
        ensures
            r == self@.input_error,
    {
        self.input_error
    }

    /// The target rate as typed.
    pub fn rate_input(&self) -> (r: &str)
        ensures
            r@ == self@.rate_input,
    {
        self.rate_input.as_str()
    }

    /// The output directory as typed.
    pub fn dir_input(&self) -> (r: &str)
        ensures
            r@ == self@.dir_input,
    {
        self.dir_input.as_str()
    }

    /// The rate-list row under the cursor.
    pub fn rate_cursor(&self) -> (r: Option<usize>)
        ensures
            r matches Some(i) ==> self@.rate_cursor == Some(i as nat),
            r is None ==> self@.rate_cursor is None,
    {
        self.rate_cursor
    }

    /// The custom rate being typed.
    pub fn rate_custom(&self) -> (r: &str)
        ensures
            r@ == self@.rate_custom,
    {
        self.rate_custom.as_str()
    }

    /// Whether the custom rate field has the focus.
    pub fn rate_custom_focused(&self) -> (r: bool)
        ensures
            r == self@.rate_custom_focused,
    {
        self.rate_custom_focused
    }

    /// The directory-picker row under the cursor.
    pub fn dir_cursor(&self) -> (r: Option<usize>)
        ensures
            r matches Some(i) ==> self@.dir_cursor == Some(i as nat),
            r is None ==> self@.dir_cursor is None,
    {
        self.dir_cursor
    }

    /// Sets the output directory (from the directory picker).
    pub fn set_dir_input(&mut self, dir: String)
        requires
            old(self).wf(),
        ensures
            final(self).wf(),
            final(self).browser_state() == old(self).browser_state(),
            final(self)@ == (AppView { dir_input: dir@, ..old(self)@ }),
    {
        self.dir_input = dir;
    }

    /// Whether the directory picker starts in the browsed directory (the
    /// output directory is blank) rather than in the output directory.
    pub fn picker_starts_in_browser(&self) -> (r: bool)
        ensures
            r == blank(self@.dir_input),
    {
        is_blank(self.dir_input.as_str())
    }

    /// Shows the directory picker over `entries` subdirectories, its cursor
    /// on the first.
    pub fn open_dir_picker(&mut self, entries: usize)
        requires
            old(self).wf(),
        ensures
            final(self).wf(),
            final(self).browser_state() == old(self).browser_state(),
            final(self)@ == (AppView {
                input_error: None,
                dir_cursor: if entries == 0 {
                    None
                } else {
                    Some(0nat)
                },
                dir_entries: entries as nat,
                mode: Mode::PickDir,
                ..old(self)@
            }),
    {
        self.input_error = None;
        self.reload_dir_picker(entries);
        self.mode = Mode::PickDir;
    }

    /// The picker now lists `entries` subdirectories; its cursor goes to the
    /// first.
    pub fn reload_dir_picker(&mut self, entries: usize)
        requires
            old(self).wf(),
        ensures
            final(self).wf(),
            final(self).browser_state() == old(self).browser_state(),
            final(self)@ == (AppView {
                dir_cursor: if entries == 0 {
                    None
                } else {
                    Some(0nat)
                },
                dir_entries: entries as nat,
                ..old(self)@
            }),
    {
        self.dir_cursor = if entries == 0 {
            None
        } else {
            Some(0)
        };
        self.dir_entries = entries;
    }

    /// The batch reached file `index` of `total`, in stage `phase`.
    pub fn record_phase(&mut self, index: usize, total: usize, phase: Phase)
        requires
            old(self).wf(),
        ensures
            final(self).wf(),
            final(self).browser_state() == old(self).browser_state(),
            final(self)@ == (AppView {
                progress_index: index as nat,
                progress_total: total as nat,
                progress_phase: phase,
                ..old(self)@
            }),
    {
        self.progress_index = index;
        self.progress_total = total;
        self.progress_phase = phase;
    }

    /// The batch finished with `outcome`: the summary screen.
    pub fn finish_batch(&mut self, outcome: BatchOutcome)
        requires
            old(self).wf(),
        ensures
            final(self).wf(),
            final(self).browser_state() == old(self).browser_state(),
            final(self)@ == (AppView { mode: Mode::Done, outcome: Some(outcome), ..old(self)@ }),
    {
        self.mode = Mode::Done;
        self.outcome = Some(outcome);
    }

    /// The file of the batch being worked on.
    pub fn progress_index(&self) -> (r: usize)
        ensures
            r == self@.progress_index,
    {
        self.progress_index
    }

    /// The number of files in the batch.
    pub fn progress_total(&self) -> (r: usize)
        ensures
            r == self@.progress_total,
    {
        self.progress_total
    }

    /// The stage of the file being worked on.
    pub fn progress_phase(&self) -> (r: Phase)
        ensures
            r == self@.progress_phase,
    {
        self.progress_phase
    }

    /// The outcome of the finished batch.
    pub fn outcome(&self) -> (r: Option<&BatchOutcome>)
        ensures
            match self@.outcome {
                Some(o) => r == Some(&o),
                None => r is None,
            },
    {
        match &self.outcome {
            Some(o) => Some(o),
            None => None,
        }
    }

    /// A key on the browser screen; the browser's cursor moves with
    /// `Down`/`j` and `Up`/`k`. `selected` is the number of files selected.
    pub fn handle_browse(&mut self, code: Key, selected: usize) -> (r: Command)
        requires
            old(self).wf(),
        ensures
            final(self).wf(),
            final(self).browser_state().dir_view() == old(self).browser_state().dir_view(),
            final(self).browser_state().entries_view() == old(self).browser_state().entries_view(),
            if code == Key::Down || code == Key::Char('j') || code == Key::Up || code == Key::Char(
                'k',
            ) {
                &&& final(self)@ == old(self)@
                &&& r == Command::Continue
                &&& final(self).browser_state().cursor() == moved_browser_cursor(
                    old(self).browser_state(),
                    code == Key::Down || code == Key::Char('j'),
                )
            } else {
                &&& final(self).browser_state().cursor() == old(self).browser_state().cursor()
                &&& (final(self)@, r) == after_browse_key(
                    old(self)@,
                    code,
                    selected > 0,
                    old(self).browser_state().cursor_on_dir(),
                )
            },
    {
        if code == Key::Down || code == Key::Char('j') || code == Key::Up || code == Key::Char('k') {
            let delta: i32 = if code == Key::Down || code == Key::Char('j') {
                1
            } else {
                -1
            };
            self.browser.move_cursor(delta);
            return Command::Continue;
        }
        if code == Key::Enter {
            if self.browser.selected_is_dir() {
                Command::Descend
            } else {
                Command::ToggleCurrent
            }
        } else if code == Key::Char(' ') {
            Command::ToggleCurrent
        } else if code == Key::Char('u') {
            Command::GoUp
        } else if code == Key::Char('a') {
            Command::SelectAll
        } else if code == Key::Char('c') {
            Command::ClearSelection
        } else if code == Key::Char('p') && selected > 0 {
            self.input_error = None;
            self.mode = Mode::Input;
            Command::Continue
        } else if code == Key::Esc || code == Key::Char('q') {
            Command::Quit
        } else {
            Command::Continue
        }
    }

    /// A key on the settings screen, `selected` files being selected.
    pub fn handle_input(&mut self, code: Key, selected: usize) -> (r: Command)
        requires
            old(self).wf(),
        ensures
            final(self).wf(),
            final(self).browser_state() == old(self).browser_state(),
            (final(self)@, r) == after_input_key(old(self)@, code, selected as nat),
    {
        match code {
            Key::Tab | Key::Down => {
                self.input_focus = (self.input_focus + 1) % 3;
                Command::Continue
            },
            Key::Up => {
                self.input_focus = (self.input_focus + 2) % 3;
                Command::Continue
            },
            Key::Esc => {
                self.mode = Mode::Browse;
                Command::Continue
            },
            Key::Enter => {
                if self.input_focus == 0 {
                    self.open_rate_picker();
                    Command::Continue
                } else if self.input_focus == 1 {
                    Command::OpenDirPicker
                } else {
                    self.confirm(selected)
                }
            },
            _ => Command::Continue,
        }
    }

    /// Opens the rate picker on the current rate.
    pub fn open_rate_picker(&mut self)
        requires
            old(self).wf(),
        ensures
            final(self).wf(),
            final(self).browser_state() == old(self).browser_state(),
            final(self)@ == with_rate_picker(old(self)@),
    {
        self.input_error = None;
        self.rate_custom = self.rate_input.clone();
        self.rate_custom_focused = false;
        let current = parse_u32(self.rate_input.as_str());
        let select = match current {
            Some(rate) => preset_index(rate),
            None => PRESET_COUNT,
        };
        proof {
            lemma_presets_distinct();
            if let Some(rate) = current {
                if select < PRESET_COUNT {
                    let k = choose|k: int| 0 <= k < 12 && preset(k) == rate;
                    assert(preset(k) == preset(select as int));
                    assert(k == select);
                }
            }
        }
        self.rate_cursor = Some(select);
        self.mode = Mode::PickRate;
    }

    /// A key on the rate picker.
    pub fn handle_pick_rate(&mut self, code: Key) -> (r: Command)
        requires
            old(self).wf(),
        ensures
            final(self).wf(),
            final(self).browser_state() == old(self).browser_state(),
            final(self)@ == after_rate_key(old(self)@, code),
            r == Command::Continue,
    {
        if self.rate_custom_focused {
            match code {
                Key::Esc => {
                    self.rate_custom_focused = false;
                },
                Key::Enter => {
                    if let Some(rate) = parse_u32(self.rate_custom.as_str()) {
                        if rate != 0 {
                            self.rate_input = decimal_string(rate as u64);
                            self.mode = Mode::Input;
                            proof {
                                lemma_decimal_digits(rate as nat);
                            }
                        }
                    }
                },
                Key::Backspace => {
                    let _ = pop_char(&mut self.rate_custom);
                },
                Key::Char(c) => {
                    if c >= '0' && c <= '9' {
                        push_char(&mut self.rate_custom, c);
                    }
                },
                _ => {},
            }
            return Command::Continue;
        }
        let i = match self.rate_cursor {
            Some(i) => i,
            None => 0,
        };
        match code {
            Key::Down | Key::Char('j') => {
                self.rate_cursor = Some((i + 1) % 13);
            },
            Key::Up | Key::Char('k') => {
                self.rate_cursor = Some((i + 12) % 13);
            },
            Key::Enter => {
                if i < PRESET_COUNT {
                    let rate = rate_preset(i);
                    self.rate_input = decimal_string(rate as u64);
                    self.mode = Mode::Input;
                    proof {
                        lemma_decimal_digits(rate as nat);
                    }
                } else {
                    self.rate_custom_focused = true;
                }
            },
            Key::Esc => {
                self.mode = Mode::Input;
            },
            _ => {},
        }
        Command::Continue
    }

    /// A key on the directory picker.
    pub fn handle_pick_dir(&mut self, code: Key) -> (r: Command)
        requires
            old(self).wf(),
        ensures
            final(self).wf(),
            final(self).browser_state() == old(self).browser_state(),
            (final(self)@, r) == after_dir_key(old(self)@, code),
            code == Key::Esc ==> r == Command::Continue && final(self)@ == (AppView {
                mode: Mode::Input,
                ..old(self)@
            }),
            r == Command::UsePickerDir <==> (code == Key::Char(' ') || code == Key::Char('m')),
    {
        proof {
            lemma_dir_picker_keys(self@, code);
        }
        let len = self.dir_entries;
        let i = match self.dir_cursor {
            Some(i) => i,
            None => 0,
        };
        if (code == Key::Down || code == Key::Char('j')) && len > 0 {
            proof {
                assert((i + 1) % (len as int) == if i + 1 >= len {
                    (i + 1) - len
                } else {
                    i + 1
                }) by (nonlinear_arith)
                    requires
                        i < len,
                        len > 0,
                ;
            }
            self.dir_cursor = Some(if i + 1 >= len {
                (i + 1) - len
            } else {
                i + 1
            });
            Command::Continue
        } else if (code == Key::Up || code == Key::Char('k')) && len > 0 {
            proof {
                let ii = i as int;
                let l = len as int;
                assert((ii + l - 1) % l == if ii == 0 {
                    l - 1
                } else {
                    ii - 1
                }) by (nonlinear_arith)
                    requires
                        l > 0,
                        0 <= ii < l,
                ;
            }
            self.dir_cursor = Some(if i == 0 {
                len - 1
            } else {
                i - 1
            });
            Command::Continue
        } else if code == Key::Enter || code == Key::Right || code == Key::Char('l') {
            Command::OpenPickedDir
        } else if code == Key::Left || code == Key::Char('h') || code == Key::Backspace || code
            == Key::Char('u') {
            Command::PickerUp
        } else if code == Key::Char(' ') || code == Key::Char('m') {
            self.mode = Mode::Input;
            Command::UsePickerDir
        } else if code == Key::Esc {
            self.mode = Mode::Input;
            Command::Continue
        } else {
            Command::Continue
        }
    }

    /// `Enter` on "Start resampling": checks the rate and the output
    /// directory, then shows the progress screen and asks for the batch.
    pub fn confirm(&mut self, selected: usize) -> (r: Command)
        requires
            old(self).wf(),
        ensures
            final(self).wf(),
            final(self).browser_state() == old(self).browser_state(),
            (final(self)@, r) == after_confirm(old(self)@, selected as nat),
    {
        let rate = match parse_u32(self.rate_input.as_str()) {
            Some(rate) => rate,
            None => {
                self.input_error = Some(InputError::BadRate);
                return Command::Continue;
            },
        };
        if rate == 0 {
            self.input_error = Some(InputError::BadRate);
            return Command::Continue;
        }
        if is_blank(self.dir_input.as_str()) {
            self.input_error = Some(InputError::NoOutputDir);
            return Command::Continue;
        }
        self.mode = Mode::Progress;
        self.progress_index = 0;
        self.progress_total = selected;
        self.progress_phase = Phase::Decode;
        self.outcome = None;
        Command::Start(rate)
    }

    /// A key on whatever screen is shown: the progress screen ignores keys,
    /// the summary screen quits on any key.
    pub fn handle_key(&mut self, code: Key, selected: usize) -> (r: Command)
        requires
            old(self).wf(),
        ensures
            final(self).wf(),
            old(self)@.mode == Mode::Input ==> (final(self)@, r) == after_input_key(
                old(self)@,
                code,
                selected as nat,
            ),
            old(self)@.mode == Mode::PickRate ==> final(self)@ == after_rate_key(old(self)@, code)
                && r == Command::Continue,
            old(self)@.mode == Mode::PickDir ==> (final(self)@, r) == after_dir_key(
                old(self)@,
                code,
            ),
            old(self)@.mode == Mode::Progress ==> final(self)@ == old(self)@ && r
                == Command::Continue,
            old(self)@.mode == Mode::Done ==> final(self)@ == old(self)@ && r == Command::Quit,
            old(self)@.mode != Mode::Browse ==> final(self).browser_state() == old(
                self,
            ).browser_state(),
            old(self)@.mode == Mode::Browse ==> {
                &&& final(self).browser_state().dir_view() == old(self).browser_state().dir_view()
                &&& final(self).browser_state().entries_view() == old(
                    self,
                ).browser_state().entries_view()
                &&& if code == Key::Down || code == Key::Char('j') || code == Key::Up || code
                    == Key::Char('k') {
                    &&& final(self)@ == old(self)@
                    &&& r == Command::Continue
                    &&& final(self).browser_state().cursor() == moved_browser_cursor(
                        old(self).browser_state(),
                        code == Key::Down || code == Key::Char('j'),
                    )
                } else {
                    &&& final(self).browser_state().cursor() == old(self).browser_state().cursor()
                    &&& (final(self)@, r) == after_browse_key(
                        old(self)@,
                        code,
                        selected > 0,
                        old(self).browser_state().cursor_on_dir(),
                    )
                }
            },
    {
        match self.mode {
            Mode::Browse => self.handle_browse(code, selected),
            Mode::Input => self.handle_input(code, selected),
            Mode::PickRate => self.handle_pick_rate(code),
            Mode::PickDir => self.handle_pick_dir(code),
            Mode::Progress => Command::Continue,
            Mode::Done => Command::Quit,
        }
    }
}

/// No preset occurs twice.
proof fn lemma_presets_distinct()
    ensures
        forall|i: int, j: int| 0 <= i < j < 12 ==> preset(i) != preset(j),
{
}

/// Decimal renderings hold only digits.
proof fn lemma_decimal_digits(n: nat)
    ensures
        all_digits(decimal(n)),
    decreases n,
{
    if n >= 10 {
        lemma_decimal_digits(n / 10);
    }
    assert forall|i: int| 0 <= i < decimal(n).len() implies is_digit(#[trigger] decimal(n)[i]) by {
        if n >= 10 && i < decimal(n / 10).len() {
            assert(decimal(n)[i] == decimal(n / 10)[i]);
        }
    }
}

/// The rate taken in the rate picker is the rate the batch starts with:
/// after `Enter` on a preset row, or on a typed positive rate, `Enter` on
/// "Start resampling" starts the batch at that rate (given an output
/// directory).
pub proof fn lemma_picked_rate_starts(s: AppView, selected: nat)
    requires
        app_wf(s),
        !blank(s.dir_input),
    ensures
        !s.rate_custom_focused && (match s.rate_cursor {
            Some(i) => i,
            None => 0,
        }) < 12 ==> after_confirm(after_rate_key(s, Key::Enter), selected).1 == Command::Start(
            preset(
                match s.rate_cursor {
                    Some(i) => i as int,
                    None => 0,
                },
            ),
        ),
        s.rate_custom_focused ==> match parsed_u32(s.rate_custom) {
            Some(r) => r != 0 ==> after_confirm(after_rate_key(s, Key::Enter), selected).1 == Command::Start(
                r,
            ),
            None => true,
        },
{
    let i: nat = match s.rate_cursor {
        Some(i) => i,
        None => 0,
    };
    if !s.rate_custom_focused && i < 12 {
        lemma_decimal_parses(preset(i as int) as nat);
    }
    if s.rate_custom_focused {
        if let Some(r) = parsed_u32(s.rate_custom) {
            lemma_decimal_parses(r as nat);
        }
    }
}

/// The rate picker offers, in order, 8000, 11025, 16000, 22050, 24000,
/// 32000, 44100, 48000, 88200, 96000, 176400 and 192000 Hz.
pub proof fn lemma_preset_table()
    ensures
        forall|i: int|
            0 <= i < 12 ==> #[trigger] preset(i) == seq![
                8000u32,
                11025u32,
                16000u32,
                22050u32,
                24000u32,
                32000u32,
                44100u32,
                48000u32,
                88200u32,
                96000u32,
                176400u32,
                192000u32,
            ][i],
{
    let t = seq![
        8000u32,
        11025u32,
        16000u32,
        22050u32,
        24000u32,
        32000u32,
        44100u32,
        48000u32,
        88200u32,
        96000u32,
        176400u32,
        192000u32,
    ];
    assert(t[0] == 8000u32 && t[1] == 11025u32 && t[2] == 16000u32 && t[3] == 22050u32);
    assert(t[4] == 24000u32 && t[5] == 32000u32 && t[6] == 44100u32 && t[7] == 48000u32);
    assert(t[8] == 88200u32 && t[9] == 96000u32 && t[10] == 176400u32 && t[11] == 192000u32);
}

/// In the directory picker, `Esc` cancels: back to the settings screen
/// with nothing else changed and no command; only `Space` and `m` take the
/// picker's directory.
pub proof fn lemma_dir_picker_keys(s: AppView, code: Key)
    ensures
        code == Key::Esc ==> after_dir_key(s, code) == (
            AppView { mode: Mode::Input, ..s },
            Command::Continue,
        ),
        after_dir_key(s, code).1 == Command::UsePickerDir <==> (code == Key::Char(' ') || code
            == Key::Char('m')),
{
}

} // verus!
