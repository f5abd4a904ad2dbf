//! File naming rules of the command-line tools.

use vstd::prelude::*;
use std::path::PathBuf;
use crate::io::{extension_of, path_extension, path_stem, stem_of};
use crate::text::{ascii_lower, decimal, decimal_string, str_eq, to_ascii_lowercase};

verus! {

/// Whether an extension names an audio file the tools read: `wav` or
/// `flac`, in any ASCII case.
pub fn is_audio_extension(ext: &str) -> (r: bool)
    ensures
        r == (ascii_lower(ext@) == "wav"@ || ascii_lower(ext@) == "flac"@),
{
    let lower = to_ascii_lowercase(ext);
    str_eq(lower.as_str(), "wav") || str_eq(lower.as_str(), "flac")
}

/// Whether an extension marks an audio file.
pub open spec fn audio_extension(extension: Option<Seq<char>>) -> bool {
    match extension {
        Some(e) => ascii_lower(e) == "wav"@ || ascii_lower(e) == "flac"@,
        None => false,
    }
}

/// Whether a path names an audio file the tools read: its extension is
/// `wav` or `flac`, in any ASCII case.
pub fn is_audio_file(path: &PathBuf) -> (r: bool)
    ensures
        r == audio_extension(extension_of(*path)),
{
    match path_extension(path) {
        Some(e) => is_audio_extension(e.as_str()),
        None => false,
    }
}

/// Whether a path's extension is `wav` in any ASCII case.
pub fn has_wav_extension(path: &PathBuf) -> (r: bool)
    ensures
        r == (match extension_of(*path) {
            Some(e) => ascii_lower(e) == "wav"@,
            None => false,
        }),
{
    match path_extension(path) {
        Some(e) => {
            let lower = to_ascii_lowercase(e.as_str());
            str_eq(lower.as_str(), "wav")
        },
        None => false,
    }
}

/// The output file name for `input` resampled to `rate`:
/// `<stem>_<rate>Hz.wav`, with `output` standing in for a missing stem.
pub fn auto_output_name(input: &PathBuf, rate: u32) -> (r: String)
    ensures
        r@ == (match stem_of(*input) {
            Some(s) => s,
            None => "output"@,
        }) + "_"@ + decimal(rate as nat) + "Hz.wav"@,
{
    let mut name = match path_stem(input) {
        Some(s) => s,
        None => "output".to_owned(),
    };
    name.append("_");
    let digits = decimal_string(rate as u64);
    name.append(digits.as_str());
    name.append("Hz.wav");
    name
}

/// `std::path::PathBuf`, carried through unopened.
#[verifier::external_type_specification]
#[verifier::external_body]
pub struct ExPathBuf(std::path::PathBuf);

/// Outcome of processing a batch of inputs: how many succeeded, and each
/// failed input with its error message.
pub struct BatchOutcome {
    pub ok: usize,
    pub failed: Vec<(PathBuf, String)>,
}

impl BatchOutcome {
    /// The outcome of a batch of `total` inputs of which `failed` failed:
    /// the others succeeded.
    pub fn tally(total: usize, failed: Vec<(PathBuf, String)>) -> (r: Self)
        requires
            failed@.len() <= total,
        ensures
            r.ok == total - failed@.len(),
            r.failed@ == failed@,
    {
        let ok = total - failed.len();
        BatchOutcome { ok, failed }
    }

    /// Whether no input failed.
    pub fn is_ok(&self) -> (r: bool)
        ensures
            r == (self.failed@.len() == 0),
    {
        self.failed.len() == 0
    }
}

} // verus!
