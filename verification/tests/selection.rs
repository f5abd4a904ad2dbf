use br41ndmg::browser::{Browser, Entry};
use br41ndmg::selection::Selection;
use std::path::PathBuf;

fn key(path: &str) -> Vec<u8> {
    // the bytes of each component, each followed by a zero byte
    let mut k = Vec::new();
    for part in path.split('/') {
        let part = if part.is_empty() { "/" } else { part };
        k.extend_from_slice(part.as_bytes());
        k.push(0);
    }
    k
}

fn browser() -> (Browser, Vec<Vec<u8>>) {
    let rows = vec![
        Entry::Dir("..".to_string(), PathBuf::from("/")),
        Entry::Audio("b.wav".to_string(), PathBuf::from("/m/b.wav")),
        Entry::Audio("a.flac".to_string(), PathBuf::from("/m/a.flac")),
    ];
    let keys = vec![key("/"), key("/m/b.wav"), key("/m/a.flac")];
    (Browser::open(PathBuf::from("/m"), rows), keys)
}

#[test]
fn toggling_adds_then_removes() {
    let (mut browser, keys) = browser();
    let mut selection = Selection::new();
    // on the `..` row nothing happens
    selection.toggle_current(&browser, &keys);
    assert_eq!(selection.len(), 0);
    browser.move_cursor(1);
    selection.toggle_current(&browser, &keys);
    assert_eq!(selection.len(), 1);
    assert!(selection.contains(&key("/m/b.wav")));
    assert!(!selection.contains(&key("/m/a.flac")));
    selection.toggle_current(&browser, &keys);
    assert_eq!(selection.len(), 0);
}

#[test]
fn select_all_takes_audio_rows_in_path_order() {
    let (browser, keys) = browser();
    let mut selection = Selection::new();
    selection.toggle(key("/other/z.wav"), PathBuf::from("/other/z.wav"));
    selection.add(key("/m/a-b/x.wav"), PathBuf::from("/m/a-b/x.wav"));
    selection.add_audio(browser.entries(), &keys);
    // adding again changes nothing
    selection.add(key("/m/b.wav"), PathBuf::from("/m/b.wav"));
    assert_eq!(
        selection.paths(),
        vec![
            PathBuf::from("/m/a-b/x.wav"),
            PathBuf::from("/m/a.flac"),
            PathBuf::from("/m/b.wav"),
            PathBuf::from("/other/z.wav"),
        ]
    );
    let mut by_path = selection.paths();
    by_path.sort();
    assert_eq!(selection.paths(), by_path);
    selection.clear();
    assert_eq!(selection.len(), 0);
}
