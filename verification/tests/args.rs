use br41ndmg::args::{invocation, Invocation};
use br41ndmg::tui::{footer, Mode};

fn args(list: &[&str]) -> Vec<String> {
    list.iter().map(|a| a.to_string()).collect()
}

#[test]
fn no_arguments_browse_the_working_directory() {
    assert_eq!(invocation(&Vec::new(), &Vec::new()), Invocation::Browse(None));
}

#[test]
fn a_single_directory_is_browsed() {
    assert_eq!(invocation(&args(&["music"]), &vec![true]), Invocation::Browse(Some(0)));
    assert_eq!(invocation(&args(&["song.wav"]), &vec![false]), Invocation::Usage);
}

#[test]
fn interactive_flag_starts_in_first_directory_argument() {
    assert_eq!(
        invocation(&args(&["-i", "-x", "notes.txt", "music"]), &vec![false, true, false, true]),
        Invocation::Browse(Some(3))
    );
    assert_eq!(
        invocation(&args(&["in.wav", "out", "48000", "--interactive"]), &vec![false, false, false, false]),
        Invocation::Browse(None)
    );
}

#[test]
fn three_arguments_resample_and_two_are_usage() {
    assert_eq!(invocation(&args(&["in.flac", "out", "48000"]), &vec![false, true, false]), Invocation::Resample);
    assert_eq!(invocation(&args(&["in.flac", "out"]), &vec![false, true]), Invocation::Usage);
    assert_eq!(invocation(&args(&["-I", "out", "1"]), &vec![false, false, false]), Invocation::Resample);
}

#[test]
fn footers_name_the_keys_of_each_screen() {
    assert_eq!(footer(Mode::Input), "Tab/↑↓ move  Enter change  Esc back");
    assert_eq!(footer(Mode::Progress), "resampling...");
    assert_eq!(footer(Mode::Done), "press any key to exit");
    assert!(footer(Mode::Browse).ends_with("q quit"));
}
