//! Ordering of browser rows: entries sorted by name in the order of `str`
//! (byte-lexicographic on UTF-8), and the rows of a directory listing.

use vstd::prelude::*;
use vstd::utf8::*;
use crate::browser::Entry;
use std::path::PathBuf;

verus! {

/// Byte-lexicographic order: the order `str` and `String` compare in.
pub open spec fn bytes_le(a: Seq<u8>, b: Seq<u8>) -> bool
    decreases a.len(),
{
    if a.len() == 0 {
        true
    } else if b.len() == 0 {
        false
    } else if a[0] != b[0] {
        a[0] < b[0]
    } else {
        bytes_le(a.drop_first(), b.drop_first())
    }
}

/// The UTF-8 bytes of an entry's name.
pub open spec fn name_bytes(e: Entry) -> Seq<u8> {
    encode_utf8(e.name_view())
}

/// Entries in ascending name order.
pub open spec fn sorted_by_name(s: Seq<Entry>) -> bool {
    forall|i: int, j: int|
        0 <= i < j < s.len() ==> bytes_le(name_bytes(#[trigger] s[i]), name_bytes(#[trigger] s[j]))
}

/// Any two byte strings are ordered one way or the other.
pub proof fn lemma_bytes_le_total(a: Seq<u8>, b: Seq<u8>)
    ensures
        bytes_le(a, b) || bytes_le(b, a),
    decreases a.len(),
{
    if a.len() > 0 && b.len() > 0 && a[0] == b[0] {
        lemma_bytes_le_total(a.drop_first(), b.drop_first());
    }
}

/// The order is transitive.
pub proof fn lemma_bytes_le_trans(a: Seq<u8>, b: Seq<u8>, c: Seq<u8>)
    requires
        bytes_le(a, b),
        bytes_le(b, c),
    ensures
        bytes_le(a, c),
    decreases a.len(),
{
    if a.len() > 0 && b.len() > 0 && c.len() > 0 && a[0] == b[0] && b[0] == c[0] {
        lemma_bytes_le_trans(a.drop_first(), b.drop_first(), c.drop_first());
    }
}

/// The order is antisymmetric.
pub proof fn lemma_bytes_le_antisym(a: Seq<u8>, b: Seq<u8>)
    requires
        bytes_le(a, b),
        bytes_le(b, a),
    ensures
        a == b,
    decreases a.len(),
{
    if a.len() > 0 && b.len() > 0 {
        lemma_bytes_le_antisym(a.drop_first(), b.drop_first());
        assert(a =~= seq![a[0]] + a.drop_first());
        assert(b =~= seq![b[0]] + b.drop_first());
    } else if a.len() == 0 && b.len() == 0 {
        assert(a =~= b);
    }
}

/// Compares two byte strings in byte-lexicographic order.
pub(crate) fn bytes_le_exec(a: &[u8], b: &[u8]) -> (r: bool)
    ensures
        r == bytes_le(a@, b@),
{
    let mut i: usize = 0;
    assert(a@.skip(0) =~= a@);
    assert(b@.skip(0) =~= b@);
    while i < a.len() && i < b.len()
        invariant
            i <= a@.len(),
            i <= b@.len(),
            bytes_le(a@, b@) == bytes_le(a@.skip(i as int), b@.skip(i as int)),
        decreases a@.len() - i,
    {
        if a[i] != b[i] {
            return a[i] < b[i];
        }
        assert(a@.skip(i as int).drop_first() =~= a@.skip(i + 1));
        assert(b@.skip(i as int).drop_first() =~= b@.skip(i + 1));
        i = i + 1;
    }
    i == a.len()
}

/// Whether `a`'s name sorts before or equal to `b`'s.
fn name_le(a: &Entry, b: &Entry) -> (r: bool)
    ensures
        r == bytes_le(name_bytes(*a), name_bytes(*b)),
{
    bytes_le_exec(a.name().as_bytes(), b.name().as_bytes())
}

/// `output` is `input` sorted by name with entries of equal names in their
/// input order; `origin[i]` is the input position of `output[i]`.
pub open spec fn stable_sort_by_name(input: Seq<Entry>, output: Seq<Entry>, origin: Seq<int>) -> bool {
    &&& output.len() == input.len()
    &&& origin.len() == input.len()
    &&& forall|i: int|
        0 <= i < origin.len() ==> 0 <= #[trigger] origin[i] < input.len() && output[i]
            == input[origin[i]]
    &&& forall|i: int, i2: int| 0 <= i < i2 < origin.len() ==> #[trigger] origin[i] != #[trigger] origin[i2]
    &&& sorted_by_name(output)
    &&& forall|i: int, i2: int|
        0 <= i < i2 < output.len() && name_bytes(#[trigger] output[i]) == name_bytes(#[trigger] output[i2])
            ==> origin[i] < origin[i2]
}

/// The state of a selection sort of `input`: `sorted` holds the entries at
/// positions `origin`, `remaining` those at the increasing positions `rest`;
/// `sorted` is a stable sort of what it holds, and nothing in `remaining`
/// sorts before it.
spec fn selection_state(
    input: Seq<Entry>,
    sorted: Seq<Entry>,
    origin: Seq<int>,
    remaining: Seq<Entry>,
    rest: Seq<int>,
) -> bool {
    &&& sorted.len() == origin.len()
    &&& remaining.len() == rest.len()
    &&& origin.len() + rest.len() == input.len()
    &&& forall|i: int|
        0 <= i < origin.len() ==> 0 <= #[trigger] origin[i] < input.len() && sorted[i]
            == input[origin[i]]
    &&& forall|j: int|
        0 <= j < rest.len() ==> 0 <= #[trigger] rest[j] < input.len() && remaining[j]
            == input[rest[j]]
    &&& forall|j: int, k: int| 0 <= j < k < rest.len() ==> #[trigger] rest[j] < #[trigger] rest[k]
    &&& forall|i: int, i2: int| 0 <= i < i2 < origin.len() ==> #[trigger] origin[i] != #[trigger] origin[i2]
    &&& forall|i: int, j: int|
        0 <= i < origin.len() && 0 <= j < rest.len() ==> #[trigger] origin[i] != #[trigger] rest[j]
    &&& sorted_by_name(sorted)
    &&& forall|i: int, j: int|
        0 <= i < sorted.len() && 0 <= j < remaining.len() ==> bytes_le(
            name_bytes(#[trigger] sorted[i]),
            name_bytes(#[trigger] remaining[j]),
        )
    &&& forall|i: int, i2: int|
        0 <= i < i2 < sorted.len() && name_bytes(#[trigger] sorted[i]) == name_bytes(#[trigger] sorted[i2])
            ==> origin[i] < origin[i2]
    &&& forall|i: int, j: int|
        0 <= i < sorted.len() && 0 <= j < remaining.len() && name_bytes(#[trigger] sorted[i])
            == name_bytes(#[trigger] remaining[j]) ==> origin[i] < rest[j]
}

/// Moving the first entry of least name from `remaining` to the end of
/// `sorted` keeps the selection state.
proof fn lemma_select_step(
    input: Seq<Entry>,
    sorted: Seq<Entry>,
    origin: Seq<int>,
    remaining: Seq<Entry>,
    rest: Seq<int>,
    best: int,
)
    requires
        selection_state(input, sorted, origin, remaining, rest),
        0 <= best < remaining.len(),
        forall|j: int|
            0 <= j < remaining.len() ==> bytes_le(
                name_bytes(remaining[best]),
                name_bytes(#[trigger] remaining[j]),
            ),
        forall|j: int|
            0 <= j < best ==> !bytes_le(
                name_bytes(#[trigger] remaining[j]),
                name_bytes(remaining[best]),
            ),
    ensures
        selection_state(
            input,
            sorted.push(remaining[best]),
            origin.push(rest[best]),
            remaining.remove(best),
            rest.remove(best),
        ),
{
    let e = remaining[best];
    let o = rest[best];
    let s2 = sorted.push(e);
    let o2 = origin.push(o);
    let r2 = remaining.remove(best);
    let t2 = rest.remove(best);
    let n = sorted.len();
    assert forall|i: int| 0 <= i < o2.len() implies 0 <= #[trigger] o2[i] < input.len() && s2[i]
        == input[o2[i]] by {
        if i < n {
            assert(o2[i] == origin[i]);
        }
    }
    assert forall|j: int| 0 <= j < t2.len() implies 0 <= #[trigger] t2[j] < input.len() && r2[j]
        == input[t2[j]] by {
        let jj = if j < best { j } else { j + 1 };
        assert(t2[j] == rest[jj]);
        assert(r2[j] == remaining[jj]);
    }
    assert forall|j: int, k: int| 0 <= j < k < t2.len() implies #[trigger] t2[j] < #[trigger] t2[k] by {
        let jj = if j < best { j } else { j + 1 };
        let kk = if k < best { k } else { k + 1 };
        assert(t2[j] == rest[jj]);
        assert(t2[k] == rest[kk]);
    }
    assert forall|i: int, i2: int| 0 <= i < i2 < o2.len() implies #[trigger] o2[i] != #[trigger] o2[i2] by {
        if i2 == n {
            assert(o2[i] == origin[i]);
            assert(origin[i] != rest[best]);
        } else {
            assert(o2[i] == origin[i]);
            assert(o2[i2] == origin[i2]);
        }
    }
    assert forall|i: int, j: int| 0 <= i < o2.len() && 0 <= j < t2.len() implies #[trigger] o2[i]
        != #[trigger] t2[j] by {
        let jj = if j < best { j } else { j + 1 };
        assert(t2[j] == rest[jj]);
        if i < n {
            assert(o2[i] == origin[i]);
            assert(origin[i] != rest[jj]);
        } else {
            assert(rest[best] != rest[jj]);
        }
    }
    assert forall|i: int, i2: int| 0 <= i < i2 < s2.len() implies bytes_le(
        name_bytes(#[trigger] s2[i]),
        name_bytes(#[trigger] s2[i2]),
    ) by {
        assert(s2[i] == sorted[i]);
        if i2 == n {
            assert(s2[i2] == remaining[best]);
        } else {
            assert(s2[i2] == sorted[i2]);
        }
    }
    assert forall|i: int, j: int| 0 <= i < s2.len() && 0 <= j < r2.len() implies bytes_le(
        name_bytes(#[trigger] s2[i]),
        name_bytes(#[trigger] r2[j]),
    ) by {
        let jj = if j < best { j } else { j + 1 };
        assert(r2[j] == remaining[jj]);
        if i < n {
            assert(s2[i] == sorted[i]);
        } else {
            assert(s2[i] == remaining[best]);
        }
    }
    assert forall|i: int, i2: int|
        0 <= i < i2 < s2.len() && name_bytes(#[trigger] s2[i]) == name_bytes(#[trigger] s2[i2])
            implies o2[i] < o2[i2] by {
        assert(s2[i] == sorted[i]);
        assert(o2[i] == origin[i]);
        if i2 == n {
            assert(s2[i2] == remaining[best]);
            assert(o2[i2] == rest[best]);
        } else {
            assert(s2[i2] == sorted[i2]);
            assert(o2[i2] == origin[i2]);
        }
    }
    assert forall|i: int, j: int|
        0 <= i < s2.len() && 0 <= j < r2.len() && name_bytes(#[trigger] s2[i]) == name_bytes(
            #[trigger] r2[j],
        ) implies o2[i] < t2[j] by {
        let jj = if j < best { j } else { j + 1 };
        assert(r2[j] == remaining[jj]);
        assert(t2[j] == rest[jj]);
        if i < n {
            assert(s2[i] == sorted[i]);
            assert(o2[i] == origin[i]);
        } else {
            assert(s2[i] == remaining[best]);
            assert(o2[i] == rest[best]);
            if jj < best {
                lemma_bytes_le_total(name_bytes(remaining[jj]), name_bytes(remaining[jj]));
                assert(!bytes_le(name_bytes(remaining[jj]), name_bytes(remaining[best])));
            }
        }
    }
}

/// The entries sorted by name; entries with equal names keep their order.
pub fn sort_by_name(entries: Vec<Entry>) -> (r: Vec<Entry>)
    ensures
        sorted_by_name(r@),
        r@.to_multiset() == entries@.to_multiset(),
        exists|origin: Seq<int>| stable_sort_by_name(entries@, r@, origin),
{
    broadcast use vstd::seq_lib::group_to_multiset_ensures;

    let ghost input = entries@;
    let mut remaining = entries;
    let mut sorted: Vec<Entry> = Vec::new();
    let ghost mut origin: Seq<int> = Seq::empty();
    let ghost mut rest: Seq<int> = Seq::new(input.len(), |j: int| j);
    proof {
        assert(selection_state(input, sorted@, origin, remaining@, rest));
    }
    while remaining.len() > 0
        invariant
            sorted@.to_multiset().add(remaining@.to_multiset()) == input.to_multiset(),
            selection_state(input, sorted@, origin, remaining@, rest),
        decreases remaining@.len(),
    {
        let mut best: usize = 0;
        let mut k: usize = 1;
        proof {
            lemma_bytes_le_total(name_bytes(remaining@[0]), name_bytes(remaining@[0]));
        }
        while k < remaining.len()
            invariant
                1 <= k <= remaining@.len(),
                best < k,
                forall|j: int|
                    0 <= j < k ==> bytes_le(
                        name_bytes(remaining@[best as int]),
                        name_bytes(#[trigger] remaining@[j]),
                    ),
                forall|j: int|
                    0 <= j < best ==> !bytes_le(
                        name_bytes(#[trigger] remaining@[j]),
                        name_bytes(remaining@[best as int]),
                    ),
            decreases remaining@.len() - k,
        {
            if !name_le(&remaining[best], &remaining[k]) {
                proof {
                    let nb = name_bytes(remaining@[best as int]);
                    let nk = name_bytes(remaining@[k as int]);
                    lemma_bytes_le_total(nb, nk);
                    assert forall|j: int| 0 <= j < k + 1 implies bytes_le(
                        nk,
                        name_bytes(#[trigger] remaining@[j]),
                    ) by {
                        if j < k {
                            lemma_bytes_le_trans(nk, nb, name_bytes(remaining@[j]));
                        } else {
                            lemma_bytes_le_total(nk, nk);
                        }
                    }
                    assert forall|j: int| 0 <= j < k implies !bytes_le(
                        name_bytes(#[trigger] remaining@[j]),
                        nk,
                    ) by {
                        if bytes_le(name_bytes(remaining@[j]), nk) {
                            lemma_bytes_le_trans(nb, name_bytes(remaining@[j]), nk);
                        }
                    }
                }
                best = k;
            }
            k = k + 1;
        }
        let ghost before_remaining = remaining@;
        let ghost before_sorted = sorted@;
        proof {
            lemma_select_step(input, before_sorted, origin, before_remaining, rest, best as int);
            origin = origin.push(rest[best as int]);
            rest = rest.remove(best as int);
        }
        let e = remaining.remove(best);
        proof {
            assert(e == before_remaining[best as int]);
            assert(remaining@ == before_remaining.remove(best as int));
            vstd::seq_lib::to_multiset_remove(before_remaining, best as int);
        }
        sorted.push(e);
        proof {
            assert(sorted@ == before_sorted.push(e));
            before_remaining.to_multiset_ensures();
            before_sorted.to_multiset_ensures();
            assert(before_remaining.contains(e)) by {
                assert(before_remaining[best as int] == e);
            }
            assert(before_remaining.to_multiset().count(e) > 0);
            assert(sorted@.to_multiset() == before_sorted.to_multiset().insert(e));
            assert(sorted@.to_multiset().add(remaining@.to_multiset()) =~= before_sorted.to_multiset().add(
                before_remaining.to_multiset(),
            ));
        }
    }
    proof {
        assert(remaining@.to_multiset() =~= vstd::multiset::Multiset::empty());
        assert(stable_sort_by_name(input, sorted@, origin));
    }
    sorted
}

/// Moves the entries of `src` to the end of `out`, in order.
fn append_entries(out: &mut Vec<Entry>, src: Vec<Entry>)
    ensures
        final(out)@ == old(out)@ + src@,
{
    let mut rest = src;
    let ghost whole = rest@;
    let ghost start = out@;
    let n = rest.len();
    let mut i: usize = 0;
    while rest.len() > 0
        invariant
            whole.len() == n,
            i <= whole.len(),
            rest@ == whole.skip(i as int),
            rest@.len() == whole.len() - i,
            out@ == start + whole.take(i as int),
        decreases rest@.len(),
    {
        let e = rest.remove(0);
        out.push(e);
        proof {
            assert(whole.take(i + 1) =~= whole.take(i as int).push(whole[i as int]));
            assert(whole.skip(i + 1) =~= whole.skip(i as int).remove(0));
        }
        i = i + 1;
    }
    proof {
        assert(whole.take(i as int) =~= whole);
    }
}

/// The number of `..` rows: one when there is a parent directory.
pub open spec fn parent_rows(parent: Option<PathBuf>) -> int {
    if parent is Some {
        1
    } else {
        0
    }
}

/// Rows of the browser for a directory: `..` leading to `parent` when the
/// directory has one, then its subdirectories, then its audio files, each
/// group sorted by name (entries of equal names in the order given).
pub fn browser_rows(parent: Option<PathBuf>, dirs: Vec<Entry>, files: Vec<Entry>) -> (r: Vec<Entry>)
    ensures
        ({
            let k = parent_rows(parent);
            let d = r@.subrange(k, k + dirs@.len());
            let f = r@.subrange(k + dirs@.len(), r@.len() as int);
            &&& r@.len() == k + dirs@.len() + files@.len()
            &&& exists|o: Seq<int>| stable_sort_by_name(dirs@, d, o)
            &&& exists|o: Seq<int>| stable_sort_by_name(files@, f, o)
            &&& match parent {
                Some(p) => r@[0] is Dir && r@[0]->Dir_0@ == ".."@ && r@[0]->Dir_1 == p,
                None => true,
            }
        }),
{
    let mut out: Vec<Entry> = Vec::new();
    let has_parent = parent.is_some();
    if let Some(p) = parent {
        out.push(Entry::Dir("..".to_owned(), p));
    }
    let ghost head = out@;
    let sorted_dirs = sort_by_name(dirs);
    let sorted_files = sort_by_name(files);
    let ghost sd = sorted_dirs@;
    let ghost sf = sorted_files@;
    append_entries(&mut out, sorted_dirs);
    append_entries(&mut out, sorted_files);
    proof {
        let k: int = if has_parent {
            1
        } else {
            0
        };
        assert(out@ == head + sd + sf);
        assert(out@.subrange(k, k + sd.len()) =~= sd);
        assert(out@.subrange(k + sd.len(), out@.len() as int) =~= sf);
        let od = choose|o: Seq<int>| stable_sort_by_name(dirs@, sd, o);
        let of = choose|o: Seq<int>| stable_sort_by_name(files@, sf, o);
        assert(stable_sort_by_name(dirs@, out@.subrange(k, k + dirs@.len()), od));
        assert(stable_sort_by_name(files@, out@.subrange(k + dirs@.len(), out@.len() as int), of));
    }
    out
}

} // verus!
