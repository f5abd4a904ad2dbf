//! The file browser of the interactive tool: directory entries, the cursor,
//! and the small labels of the progress screen.

use vstd::prelude::*;
use std::path::PathBuf;

verus! {

/// A browser row: a directory or an audio file, with its display name.
pub enum Entry {
    Dir(String, PathBuf),
    Audio(String, PathBuf),
}

impl Entry {
    /// The display name.
    pub open spec fn name_view(&self) -> Seq<char> {
        match self {
            Entry::Dir(n, _) => n@,
            Entry::Audio(n, _) => n@,
        }
    }

    /// The display name.
    pub fn name(&self) -> (r: &str)
        ensures
            r@ == self.name_view(),
    {
        match self {
            Entry::Dir(n, _) => n.as_str(),
            Entry::Audio(n, _) => n.as_str(),
        }
    }
}

/// The cursor glyph in front of the focused settings row, a blank otherwise.
pub fn marker(focused: bool) -> (r: &'static str)
    ensures
        r@ == if focused {
            "▶"@
        } else {
            " "@
        },
{
    if focused {
        "▶"
    } else {
        " "
    }
}

/// The spinner frame shown after `elapsed_millis` milliseconds: frames
/// advance every 80 ms and repeat every ten.
pub open spec fn spinner_slot(elapsed_millis: u128) -> nat {
    (((elapsed_millis / 80) as usize) as nat) % 10
}

/// The ten spinner glyphs.
pub open spec fn spinner_glyph(slot: nat) -> Seq<char> {
    if slot == 0 {
        "⠋"@
    } else if slot == 1 {
        "⠙"@
    } else if slot == 2 {
        "⠹"@
    } else if slot == 3 {
        "⠸"@
    } else if slot == 4 {
        "⠼"@
    } else if slot == 5 {
        "⠴"@
    } else if slot == 6 {
        "⠦"@
    } else if slot == 7 {
        "⠧"@
    } else if slot == 8 {
        "⠇"@
    } else {
        "⠏"@
    }
}

/// The spinner glyph for the time elapsed since a job started.
pub fn spinner(elapsed_millis: u128) -> (r: &'static str)
    ensures
        r@ == spinner_glyph(spinner_slot(elapsed_millis)),
{
    let slot = ((elapsed_millis / 80) as usize) % 10;
    if slot == 0 {
        "⠋"
    } else if slot == 1 {
        "⠙"
    } else if slot == 2 {
        "⠹"
    } else if slot == 3 {
        "⠸"
    } else if slot == 4 {
        "⠼"
    } else if slot == 5 {
        "⠴"
    } else if slot == 6 {
        "⠦"
    } else if slot == 7 {
        "⠧"
    } else if slot == 8 {
        "⠇"
    } else {
        "⠏"
    }
}

/// The stage a file of a batch is in.
#[derive(Debug, Clone, Copy, PartialEq, Eq, Structural)]
pub enum Phase {
    Decode,
    Resample,
    Write,
}

/// The progress label of a stage.
pub fn phase_label(phase: Phase) -> (r: &'static str)
    ensures
        r@ == match phase {
            Phase::Decode => "decoding"@,
            Phase::Resample => "resampling"@,
            Phase::Write => "writing"@,
        },
{
    match phase {
        Phase::Decode => "decoding",
        Phase::Resample => "resampling",
        Phase::Write => "writing",
    }
}

/// The entries of a directory and the cursor over them.
pub struct Browser {
    dir: PathBuf,
    entries: Vec<Entry>,
    selected: Option<usize>,
}

/// The cursor position after moving `delta` rows from `current` among `len`
/// rows: clamped to the first and last row.
pub open spec fn moved_cursor(current: int, delta: int, len: nat) -> int {
    let next = current + delta;
    if next < 0 {
        0
    } else if next >= len {
        len - 1
    } else {
        next
    }
}

impl Browser {
    /// The cursor, when on a row, is on one of the entries.
    pub closed spec fn wf(&self) -> bool {
        self.selected matches Some(i) ==> i < self.entries@.len()
    }

    /// The directory shown.
    pub closed spec fn dir_view(&self) -> PathBuf {
        self.dir
    }

    /// The rows shown.
    pub closed spec fn entries_view(&self) -> Seq<Entry> {
        self.entries@
    }

    /// The row under the cursor.
    pub closed spec fn cursor(&self) -> Option<usize> {
        self.selected
    }

    /// A browser on `dir` showing `entries`, the cursor on the first row
    /// (none when there are no rows).
    pub fn open(dir: PathBuf, entries: Vec<Entry>) -> (r: Self)
        ensures
            r.wf(),
            r.dir_view() == dir,
            r.entries_view() == entries@,
            r.cursor() == if entries@.len() == 0 {
                None
            } else {
                Some(0usize)
            },
    {
        let selected = if entries.len() == 0 {
            None
        } else {
            Some(0)
        };
        Browser { dir, entries, selected }
    }

    /// Shows `entries` for `dir`, the cursor back on the first row.
    pub fn reload(&mut self, dir: PathBuf, entries: Vec<Entry>)
        ensures
            final(self).wf(),
            final(self).dir_view() == dir,
            final(self).entries_view() == entries@,
            final(self).cursor() == if entries@.len() == 0 {
                None
            } else {
                Some(0usize)
            },
    {
        self.selected = if entries.len() == 0 {
            None
        } else {
            Some(0)
        };
        self.dir = dir;
        self.entries = entries;
    }

    /// The directory shown.
    pub fn dir(&self) -> (r: &PathBuf)
        ensures
            *r == self.dir_view(),
    {
        &self.dir
    }

    /// The rows shown.
    pub fn entries(&self) -> (r: &[Entry])
        ensures
            r@ == self.entries_view(),
    {
        self.entries.as_slice()
    }

    /// The index of the row under the cursor.
    pub fn selected_index(&self) -> (r: Option<usize>)
        ensures
            r == self.cursor(),
            self.wf() ==> (r matches Some(i) ==> i < self.entries_view().len()),
    {
        self.selected
    }

    /// The entry under the cursor.
    pub fn selected(&self) -> (r: Option<&Entry>)
        requires
            self.wf(),
        ensures
            match self.cursor() {
                Some(i) => r matches Some(e) && *e == self.entries_view()[i as int],
                None => r is None,
            },
    {
        match self.selected {
            Some(i) => Some(&self.entries[i]),
            None => None,
        }
    }

    /// Whether the cursor is on a directory row.
    pub open spec fn cursor_on_dir(&self) -> bool {
        match self.cursor() {
            Some(i) => self.entries_view()[i as int] is Dir,
            None => false,
        }
    }

    /// Whether the cursor is on a directory row.
    pub fn selected_is_dir(&self) -> (r: bool)
        requires
            self.wf(),
        ensures
            r == self.cursor_on_dir(),
    {
        match self.selected {
            Some(i) => match &self.entries[i] {
                Entry::Dir(_, _) => true,
                Entry::Audio(_, _) => false,
            },
            None => false,
        }
    }

    /// Moves the cursor `delta` rows (negative is up), staying on the rows;
    /// nothing happens when there are none. From no cursor, moves from the
    /// first row.
    pub fn move_cursor(&mut self, delta: i32)
        requires
            old(self).wf(),
        ensures
            final(self).wf(),
            final(self).dir_view() == old(self).dir_view(),
            final(self).entries_view() == old(self).entries_view(),
            final(self).cursor() == if old(self).entries_view().len() == 0 {
                old(self).cursor()
            } else {
                Some(
                    moved_cursor(
                        match old(self).cursor() {
                            Some(i) => i as int,
                            None => 0,
                        },
                        delta as int,
                        old(self).entries_view().len(),
                    ) as usize,
                )
            },
    {
        let len = self.entries.len();
        if len == 0 {
            return;
        }
        let current = match self.selected {
            Some(i) => i,
            None => 0,
        };
        let next = if delta >= 0 {
            let step = delta as usize;
            if current >= len - 1 || step >= len - 1 - current {
                len - 1
            } else {
                current + step
            }
        } else {
            let back = (0 - (delta as i64)) as usize;
            if back >= current {
                0
            } else {
                current - back
            }
        };
        self.selected = Some(next);
    }
}

} // verus!
