use br41ndmg::browser::Entry;
use br41ndmg::listing::{browser_rows, sort_by_name};
use std::path::PathBuf;

fn dir(name: &str) -> Entry {
    Entry::Dir(name.to_string(), PathBuf::from(format!("/m/{name}")))
}

fn audio(name: &str) -> Entry {
    Entry::Audio(name.to_string(), PathBuf::from(format!("/m/{name}")))
}

fn names(entries: &[Entry]) -> Vec<String> {
    entries.iter().map(|e| e.name().to_string()).collect()
}

#[test]
fn sorting_matches_str_order() {
    let input = ["b.wav", "B.wav", "a.flac", "é.wav", "z.wav", "ab.wav", "a.wav", "日本.flac", "10.wav", "9.wav"];
    let sorted = sort_by_name(input.iter().map(|n| audio(n)).collect());
    let mut expected: Vec<String> = input.iter().map(|n| n.to_string()).collect();
    expected.sort();
    assert_eq!(names(&sorted), expected);
}

#[test]
fn sorting_nothing_gives_nothing() {
    assert!(sort_by_name(Vec::new()).is_empty());
}

#[test]
fn rows_put_parent_then_dirs_then_files() {
    let rows = browser_rows(
        Some(PathBuf::from("/")),
        vec![dir("live"), dir("demos")],
        vec![audio("b.wav"), audio("a.flac")],
    );
    assert_eq!(names(&rows), vec!["..", "demos", "live", "a.flac", "b.wav"]);
    assert!(matches!(&rows[0], Entry::Dir(_, p) if p == &PathBuf::from("/")));
    assert!(matches!(&rows[1], Entry::Dir(_, _)));
    assert!(matches!(&rows[4], Entry::Audio(_, _)));
}

#[test]
fn rows_without_parent_start_with_dirs() {
    let rows = browser_rows(None, vec![dir("x")], vec![audio("y.wav")]);
    assert_eq!(names(&rows), vec!["x", "y.wav"]);
}

#[test]
fn equal_names_keep_their_order() {
    let input = vec![
        Entry::Audio("same".to_string(), PathBuf::from("/one/same")),
        Entry::Audio("first".to_string(), PathBuf::from("/first")),
        Entry::Audio("same".to_string(), PathBuf::from("/two/same")),
    ];
    let sorted = sort_by_name(input);
    assert_eq!(names(&sorted), vec!["first", "same", "same"]);
    assert!(matches!(&sorted[1], Entry::Audio(_, p) if p == &PathBuf::from("/one/same")));
    assert!(matches!(&sorted[2], Entry::Audio(_, p) if p == &PathBuf::from("/two/same")));
}
