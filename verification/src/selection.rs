//! The files chosen for a batch. Each chosen file is found again and
//! ordered by a key, the bytes of its path's components each followed by a
//! zero byte, which the caller computes; the files are kept in key order,
//! which is the order of the paths' components.

use vstd::prelude::*;
use crate::browser::{Browser, Entry};
use crate::listing::{bytes_le, bytes_le_exec, lemma_bytes_le_antisym, lemma_bytes_le_total, lemma_bytes_le_trans};
use crate::text::bytes_eq;
use std::path::PathBuf;

verus! {

/// `PathBuf::clone` gives an equal path.
pub assume_specification[ <PathBuf as Clone>::clone ](path: &PathBuf) -> (r: PathBuf)
    ensures
        r == *path,
;

/// `a` comes strictly before `b` in byte order.
pub open spec fn key_lt(a: Seq<u8>, b: Seq<u8>) -> bool {
    bytes_le(a, b) && a != b
}

/// Keys strictly increasing (so no key occurs twice).
pub open spec fn increasing(s: Seq<(Seq<u8>, PathBuf)>) -> bool {
    forall|i: int, j: int| 0 <= i < j < s.len() ==> key_lt((#[trigger] s[i]).0, (#[trigger] s[j]).0)
}

/// Some chosen file has this key.
pub open spec fn holds_key(c: Set<(Seq<u8>, PathBuf)>, key: Seq<u8>) -> bool {
    exists|x: (Seq<u8>, PathBuf)| #[trigger] c.contains(x) && x.0 == key
}

/// The chosen files after toggling the file with `key` at `path`: it goes
/// when a file with that key was chosen, it is added otherwise.
pub open spec fn with_toggled(c: Set<(Seq<u8>, PathBuf)>, key: Seq<u8>, path: PathBuf) -> Set<
    (Seq<u8>, PathBuf),
> {
    if holds_key(c, key) {
        c.filter(|x: (Seq<u8>, PathBuf)| x.0 != key)
    } else {
        c.insert((key, path))
    }
}

/// The chosen files after choosing the file with `key` at `path`: added
/// unless a file with that key is chosen already.
pub open spec fn with_added(c: Set<(Seq<u8>, PathBuf)>, key: Seq<u8>, path: PathBuf) -> Set<
    (Seq<u8>, PathBuf),
> {
    if holds_key(c, key) {
        c
    } else {
        c.insert((key, path))
    }
}

/// The chosen files after choosing, in order, the audio rows among the
/// first `n` of `entries`, `keys[i]` being the key of row `i`.
pub open spec fn with_audio(
    c: Set<(Seq<u8>, PathBuf)>,
    entries: Seq<Entry>,
    keys: Seq<Seq<u8>>,
    n: nat,
) -> Set<(Seq<u8>, PathBuf)>
    decreases n,
{
    if n == 0 {
        c
    } else {
        let before = with_audio(c, entries, keys, (n - 1) as nat);
        match entries[n - 1] {
            Entry::Audio(_, path) => with_added(before, keys[n - 1], path),
            Entry::Dir(_, _) => before,
        }
    }
}

/// The keys of a list of keys.
pub open spec fn key_texts(keys: Seq<Vec<u8>>) -> Seq<Seq<u8>> {
    keys.map_values(|k: Vec<u8>| k@)
}

/// The files chosen for a batch, in key order.
pub struct Selection {
    items: Vec<(Vec<u8>, PathBuf)>,
}

impl View for Selection {
    type V = Seq<(Seq<u8>, PathBuf)>;

    closed spec fn view(&self) -> Seq<(Seq<u8>, PathBuf)> {
        self.items@.map_values(|x: (Vec<u8>, PathBuf)| (x.0@, x.1))
    }
}

/// In an increasing sequence whose keys before `i` all come before `key`
/// and whose key at `i` (if any) does not, a file with `key` is chosen
/// exactly when the key at `i` is `key`.
proof fn lemma_key_at_position(s: Seq<(Seq<u8>, PathBuf)>, key: Seq<u8>, i: int)
    requires
        increasing(s),
        0 <= i <= s.len(),
        forall|j: int| 0 <= j < i ==> key_lt((#[trigger] s[j]).0, key),
        i < s.len() ==> !key_lt(s[i].0, key),
    ensures
        holds_key(s.to_set(), key) <==> (i < s.len() && s[i].0 == key),
        forall|j: int| 0 <= j < s.len() && j != i ==> (#[trigger] s[j]).0 != key,
{
    assert forall|j: int| 0 <= j < s.len() && j != i implies (#[trigger] s[j]).0 != key by {
        if j > i {
            assert(key_lt(s[i].0, s[j].0));
            if s[j].0 == key {
                assert(key_lt(s[i].0, key));
            }
        }
    }
    if holds_key(s.to_set(), key) {
        let x = choose|x: (Seq<u8>, PathBuf)| #[trigger] s.to_set().contains(x) && x.0 == key;
        assert(s.contains(x));
        let j = choose|j: int| 0 <= j < s.len() && s[j] == x;
        assert(s[j].0 == key);
    }
    if i < s.len() && s[i].0 == key {
        assert(s.to_set().contains(s[i]));
    }
}

impl Selection {
    /// The keys increase along the selection.
    pub closed spec fn wf(&self) -> bool {
        increasing(self@)
    }

    /// Nothing chosen.
    pub fn new() -> (r: Self)
        ensures
            r.wf(),
            r@ == Seq::<(Seq<u8>, PathBuf)>::empty(),
    {
        let r = Selection { items: Vec::new() };
        assert(r@ =~= Seq::<(Seq<u8>, PathBuf)>::empty());
        r
    }

    /// The number of chosen files.
    pub fn len(&self) -> (r: usize)
        ensures
            r == self@.len(),
    {
        self.items.len()
    }

    /// The first position whose key does not come before `key`.
    fn position(&self, key: &[u8]) -> (r: usize)
        requires
            self.wf(),
        ensures
            r <= self@.len(),
            forall|j: int| 0 <= j < r ==> key_lt((#[trigger] self@[j]).0, key@),
            r < self@.len() ==> !key_lt(self@[r as int].0, key@),
    {
        let n = self.items.len();
        let mut i: usize = 0;
        while i < n
            invariant_except_break
                i <= n,
                n == self@.len(),
                forall|j: int| 0 <= j < i ==> key_lt((#[trigger] self@[j]).0, key@),
            ensures
                i <= n,
                n == self@.len(),
                forall|j: int| 0 <= j < i ==> key_lt((#[trigger] self@[j]).0, key@),
                i < n ==> !key_lt(self@[i as int].0, key@),
            decreases n - i,
        {
            let k = self.items[i].0.as_slice();
            assert(k@ == self@[i as int].0);
            if !(bytes_le_exec(k, key) && !bytes_eq(k, key)) {
                break;
            }
            i = i + 1;
        }
        i
    }

    /// Whether a file with `key` is chosen.
    pub fn contains(&self, key: &[u8]) -> (r: bool)
        requires
            self.wf(),
        ensures
            r == holds_key(self@.to_set(), key@),
    {
        let i = self.position(key);
        proof {
            lemma_key_at_position(self@, key@, i as int);
        }
        if i < self.items.len() {
            let k = self.items[i].0.as_slice();
            assert(k@ == self@[i as int].0);
            bytes_eq(k, key)
        } else {
            false
        }
    }

    /// Puts `(key, path)` at position `i`, where the keys before come before
    /// `key` and the key at `i` (if any) comes after it.
    fn insert_at(&mut self, i: usize, key: Vec<u8>, path: PathBuf)
        requires
            old(self).wf(),
            i <= old(self)@.len(),
            forall|j: int| 0 <= j < i ==> key_lt((#[trigger] old(self)@[j]).0, key@),
            i < old(self)@.len() ==> key_lt(key@, old(self)@[i as int].0),
        ensures
            final(self).wf(),
            final(self)@ == old(self)@.insert(i as int, (key@, path)),
            final(self)@.to_set() == old(self)@.to_set().insert((key@, path)),
    {
        let ghost s = self@;
        let ghost x = (key@, path);
        self.items.insert(i, (key, path));
        proof {
            assert(self@ =~= s.insert(i as int, x));
            let t = self@;
            assert forall|a: int, b: int| 0 <= a < b < t.len() implies key_lt(
                (#[trigger] t[a]).0,
                (#[trigger] t[b]).0,
            ) by {
                if b < i {
                    assert(t[a] == s[a] && t[b] == s[b]);
                } else if b == i {
                    assert(t[a] == s[a] && t[b] == x);
                } else if a == i {
                    assert(t[b] == s[b - 1]);
                    if b - 1 > i {
                        assert(key_lt(s[i as int].0, s[b - 1].0));
                        lemma_bytes_le_trans(key@, s[i as int].0, s[b - 1].0);
                        if key@ == s[b - 1].0 {
                            lemma_bytes_le_antisym(key@, s[i as int].0);
                        }
                    }
                } else if a < i {
                    assert(t[a] == s[a] && t[b] == s[b - 1]);
                    if b - 1 >= i {
                        assert(key_lt(s[a].0, key@));
                        assert(key_lt(key@, s[i as int].0));
                        if b - 1 > i {
                            assert(key_lt(s[i as int].0, s[b - 1].0));
                            lemma_bytes_le_trans(key@, s[i as int].0, s[b - 1].0);
                        }
                        lemma_bytes_le_trans(s[a].0, key@, s[b - 1].0);
                        if s[a].0 == s[b - 1].0 {
                            lemma_bytes_le_antisym(s[a].0, key@);
                        }
                    }
                } else {
                    assert(t[a] == s[a - 1] && t[b] == s[b - 1]);
                }
            }
            assert forall|y: (Seq<u8>, PathBuf)| #[trigger] t.to_set().contains(y) <==> s.to_set().insert(
                x,
            ).contains(y) by {
                if t.contains(y) {
                    let k = choose|k: int| 0 <= k < t.len() && t[k] == y;
                    if k < i {
                        assert(s[k] == y);
                    } else if k > i {
                        assert(s[k - 1] == y);
                    }
                }
                if s.contains(y) {
                    let k = choose|k: int| 0 <= k < s.len() && s[k] == y;
                    if k < i {
                        assert(t[k] == y);
                    } else {
                        assert(t[k + 1] == y);
                    }
                }
                if y == x {
                    assert(t[i as int] == x);
                }
            }
            assert(t.to_set() =~= s.to_set().insert(x));
        }
    }

    /// Removes the file at position `i`, the only one with its key.
    fn remove_at(&mut self, i: usize)
        requires
            old(self).wf(),
            i < old(self)@.len(),
        ensures
            final(self).wf(),
            final(self)@.to_set() == old(self)@.to_set().filter(
                |x: (Seq<u8>, PathBuf)| x.0 != old(self)@[i as int].0,
            ),
    {
        let ghost s = self@;
        let ghost key = s[i as int].0;
        let _ = self.items.remove(i);
        proof {
            assert(self@ =~= s.remove(i as int));
            let t = self@;
            assert forall|a: int, b: int| 0 <= a < b < t.len() implies key_lt(
                (#[trigger] t[a]).0,
                (#[trigger] t[b]).0,
            ) by {
                let aa = if a < i { a } else { a + 1 };
                let bb = if b < i { b } else { b + 1 };
                assert(t[a] == s[aa] && t[b] == s[bb]);
            }
            assert forall|y: (Seq<u8>, PathBuf)| #[trigger] t.to_set().contains(y) <==> s.to_set().filter(
                |x: (Seq<u8>, PathBuf)| x.0 != key,
            ).contains(y) by {
                if t.contains(y) {
                    let k = choose|k: int| 0 <= k < t.len() && t[k] == y;
                    let kk = if k < i { k } else { k + 1 };
                    assert(s[kk] == y);
                    assert(key_lt(s[if kk < i { kk } else { i as int }].0, s[if kk < i { i as int } else { kk }].0));
                }
                if s.contains(y) && y.0 != key {
                    let k = choose|k: int| 0 <= k < s.len() && s[k] == y;
                    if k < i {
                        assert(t[k] == y);
                    } else {
                        assert(k != i);
                        assert(t[k - 1] == y);
                    }
                }
            }
            assert(t.to_set() =~= s.to_set().filter(|x: (Seq<u8>, PathBuf)| x.0 != key));
        }
    }

    /// Chooses the file with `key` at `path`, or unchooses the file with
    /// `key` when one is chosen.
    pub fn toggle(&mut self, key: Vec<u8>, path: PathBuf)
        requires
            old(self).wf(),
        ensures
            final(self).wf(),
            final(self)@.to_set() == with_toggled(old(self)@.to_set(), key@, path),
    {
        let i = self.position(key.as_slice());
        proof {
            lemma_key_at_position(self@, key@, i as int);
        }
        if i < self.items.len() && bytes_eq(self.items[i].0.as_slice(), key.as_slice()) {
            assert(self@[i as int].0 == key@);
            self.remove_at(i);
        } else {
            proof {
                if i < self@.len() {
                    let k = self@[i as int].0;
                    assert(self.items@[i as int].0@ == k);
                    lemma_bytes_le_total(k, key@);
                }
            }
            self.insert_at(i, key, path);
        }
    }

    /// Chooses the file with `key` at `path`, unless a file with `key` is
    /// chosen already.
    pub fn add(&mut self, key: Vec<u8>, path: PathBuf)
        requires
            old(self).wf(),
        ensures
            final(self).wf(),
            final(self)@.to_set() == with_added(old(self)@.to_set(), key@, path),
    {
        let i = self.position(key.as_slice());
        proof {
            lemma_key_at_position(self@, key@, i as int);
        }
        if i < self.items.len() && bytes_eq(self.items[i].0.as_slice(), key.as_slice()) {
            assert(self@[i as int].0 == key@);
        } else {
            proof {
                if i < self@.len() {
                    let k = self@[i as int].0;
                    assert(self.items@[i as int].0@ == k);
                    lemma_bytes_le_total(k, key@);
                }
            }
            self.insert_at(i, key, path);
        }
    }

    /// Toggles the audio file under the browser's cursor, `keys[i]` being
    /// the key of row `i`; nothing happens on a directory row or without a
    /// cursor.
    pub fn toggle_current(&mut self, browser: &Browser, keys: &Vec<Vec<u8>>)
        requires
            old(self).wf(),
            browser.wf(),
            keys@.len() == browser.entries_view().len(),
        ensures
            final(self).wf(),
            final(self)@.to_set() == match browser.cursor() {
                Some(i) => match browser.entries_view()[i as int] {
                    Entry::Audio(_, path) => with_toggled(old(self)@.to_set(), keys@[i as int]@, path),
                    Entry::Dir(_, _) => old(self)@.to_set(),
                },
                None => old(self)@.to_set(),
            },
    {
        match browser.selected_index() {
            Some(i) => match &browser.entries()[i] {
                Entry::Audio(_, path) => {
                    let key = keys[i].clone();
                    assert(key@ == keys@[i as int]@);
                    self.toggle(key, path.clone());
                },
                Entry::Dir(_, _) => {},
            },
            None => {},
        }
    }

    /// Chooses every audio row among `entries`, in order, `keys[i]` being
    /// the key of row `i`.
    pub fn add_audio(&mut self, entries: &[Entry], keys: &Vec<Vec<u8>>)
        requires
            old(self).wf(),
            keys@.len() == entries@.len(),
        ensures
            final(self).wf(),
            final(self)@.to_set() == with_audio(
                old(self)@.to_set(),
                entries@,
                key_texts(keys@),
                entries@.len() as nat,
            ),
    {
        let mut i: usize = 0;
        while i < entries.len()
            invariant
                i <= entries@.len(),
                keys@.len() == entries@.len(),
                self.wf(),
                self@.to_set() == with_audio(old(self)@.to_set(), entries@, key_texts(keys@), i as nat),
            decreases entries@.len() - i,
        {
            match &entries[i] {
                Entry::Audio(_, path) => {
                    let key = keys[i].clone();
                    assert(key@ == key_texts(keys@)[i as int]);
                    self.add(key, path.clone());
                },
                Entry::Dir(_, _) => {},
            }
            i = i + 1;
        }
    }

    /// Unchooses everything.
    pub fn clear(&mut self)
        ensures
            final(self).wf(),
            final(self)@ == Seq::<(Seq<u8>, PathBuf)>::empty(),
    {
        self.items.clear();
        assert(self@ =~= Seq::<(Seq<u8>, PathBuf)>::empty());
    }

    /// The chosen paths, in key order.
    pub fn paths(&self) -> (r: Vec<PathBuf>)
        ensures
            r@ == self@.map_values(|x: (Seq<u8>, PathBuf)| x.1),
    {
        let mut r: Vec<PathBuf> = Vec::new();
        let mut i: usize = 0;
        while i < self.items.len()
            invariant
                i <= self@.len(),
                r@ == self@.map_values(|x: (Seq<u8>, PathBuf)| x.1).take(i as int),
            decreases self@.len() - i,
        {
            let p = self.items[i].1.clone();
            r.push(p);
            assert(r@ =~= self@.map_values(|x: (Seq<u8>, PathBuf)| x.1).take(i + 1));
            i = i + 1;
        }
        assert(r@ =~= self@.map_values(|x: (Seq<u8>, PathBuf)| x.1));
        r
    }
}

} // verus!
