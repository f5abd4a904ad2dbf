//! Tag (metadata) handling: the Vorbis-name <-> RIFF `LIST INFO` fourcc table,
//! parsing of `LIST INFO` chunks out of WAV bytes, and insertion of a
//! `LIST INFO` chunk in front of a WAV file's `data` chunk.
//!
//! Tag names are uppercase Vorbis-style names (`TITLE`, `ARTIST`, ...). Only
//! names with an INFO fourcc survive a write; reading is best-effort and never
//! fails.

use vstd::prelude::*;
use vstd::utf8::*;
use crate::bytes::{
    append_bytes, id_at, lemma_le_u32_round_trip, le_u32_at, le_u32_bytes, push_le_u32, read_le_u32,
};
use crate::error::{BufferIssue, ResampleError};
use crate::text::{ascii_upper, str_eq, to_ascii_uppercase};

verus! {

/// Ordered `(NAME, value)` pairs. Names are uppercase; order is preserved.
pub type Tags = Vec<(String, String)>;

/// A tag as the contracts see it: the characters of its name and its value.
pub type TagView = (Seq<char>, Seq<char>);

/// The contents of a tag list.
pub open spec fn tag_view(tags: Seq<(String, String)>) -> Seq<TagView> {
    tags.map_values(|t: (String, String)| (t.0@, t.1@))
}

/// The Vorbis names of the table, in table order.
pub open spec fn info_names() -> Seq<Seq<char>> {
    seq![
        seq!['T', 'I', 'T', 'L', 'E'],
        seq!['A', 'R', 'T', 'I', 'S', 'T'],
        seq!['A', 'L', 'B', 'U', 'M'],
        seq!['D', 'A', 'T', 'E'],
        seq!['T', 'R', 'A', 'C', 'K', 'N', 'U', 'M', 'B', 'E', 'R'],
        seq!['G', 'E', 'N', 'R', 'E'],
        seq!['C', 'O', 'M', 'M', 'E', 'N', 'T'],
        seq!['C', 'O', 'P', 'Y', 'R', 'I', 'G', 'H', 'T'],
    ]
}

/// The RIFF INFO fourccs of the table (`INAM`, `IART`, `IPRD`, `ICRD`,
/// `ITRK`, `IGNR`, `ICMT`, `ICOP`), in table order.
pub open spec fn info_codes() -> Seq<Seq<u8>> {
    seq![
        seq![73u8, 78u8, 65u8, 77u8],
        seq![73u8, 65u8, 82u8, 84u8],
        seq![73u8, 80u8, 82u8, 68u8],
        seq![73u8, 67u8, 82u8, 68u8],
        seq![73u8, 84u8, 82u8, 75u8],
        seq![73u8, 71u8, 78u8, 82u8],
        seq![73u8, 67u8, 77u8, 84u8],
        seq![73u8, 67u8, 79u8, 80u8],
    ]
}

/// The table slot that holds the fourcc `code`, or -1.
pub open spec fn code_slot(code: Seq<u8>) -> int {
    if code == info_codes()[0] {
        0
    } else if code == info_codes()[1] {
        1
    } else if code == info_codes()[2] {
        2
    } else if code == info_codes()[3] {
        3
    } else if code == info_codes()[4] {
        4
    } else if code == info_codes()[5] {
        5
    } else if code == info_codes()[6] {
        6
    } else if code == info_codes()[7] {
        7
    } else {
        -1
    }
}

/// The table slot that holds the name `name`, or -1.
pub open spec fn name_slot(name: Seq<char>) -> int {
    if name == info_names()[0] {
        0
    } else if name == info_names()[1] {
        1
    } else if name == info_names()[2] {
        2
    } else if name == info_names()[3] {
        3
    } else if name == info_names()[4] {
        4
    } else if name == info_names()[5] {
        5
    } else if name == info_names()[6] {
        6
    } else if name == info_names()[7] {
        7
    } else {
        -1
    }
}

/// The Vorbis name of a fourcc, if the table has one.
pub open spec fn name_of_code(code: Seq<u8>) -> Option<Seq<char>> {
    if code_slot(code) >= 0 {
        Some(info_names()[code_slot(code)])
    } else {
        None
    }
}

/// The fourcc of a Vorbis name, if the table has one.
pub open spec fn code_of_name(name: Seq<char>) -> Option<Seq<u8>> {
    if name_slot(name) >= 0 {
        Some(info_codes()[name_slot(name)])
    } else {
        None
    }
}

/// No name and no fourcc occurs twice in the table.
pub proof fn lemma_table_distinct()
    ensures
        forall|i: int, j: int| 0 <= i < j < 8 ==> info_names()[i] != info_names()[j],
        forall|i: int, j: int| 0 <= i < j < 8 ==> info_codes()[i] != info_codes()[j],
        forall|i: int| 0 <= i < 8 ==> (#[trigger] info_codes()[i]).len() == 4,
{
    let names = info_names();
    let codes = info_codes();
    assert(names[0] != names[1] && names[0] != names[2] && names[0] != names[3] && names[0]
        != names[4] && names[0] != names[5] && names[0] != names[6] && names[0] != names[7]) by {
        assert(names[0][0] != names[1][0]);
        assert(names[0][0] != names[2][0]);
        assert(names[0].len() != names[3].len());
        assert(names[0].len() != names[4].len());
        assert(names[0][0] != names[5][0]);
        assert(names[0][0] != names[6][0]);
        assert(names[0][0] != names[7][0]);
    }
    assert(names[1] != names[2] && names[1] != names[3] && names[1] != names[4] && names[1]
        != names[5] && names[1] != names[6] && names[1] != names[7]) by {
        assert(names[1].len() != names[2].len());
        assert(names[1][0] != names[3][0]);
        assert(names[1][0] != names[4][0]);
        assert(names[1][0] != names[5][0]);
        assert(names[1][0] != names[6][0]);
        assert(names[1][0] != names[7][0]);
    }
    assert(names[2] != names[3] && names[2] != names[4] && names[2] != names[5] && names[2]
        != names[6] && names[2] != names[7]) by {
        assert(names[2][0] != names[3][0]);
        assert(names[2][0] != names[4][0]);
        assert(names[2][0] != names[5][0]);
        assert(names[2][0] != names[6][0]);
        assert(names[2][0] != names[7][0]);
    }
    assert(names[3] != names[4] && names[3] != names[5] && names[3] != names[6] && names[3]
        != names[7]) by {
        assert(names[3][0] != names[4][0]);
        assert(names[3][0] != names[5][0]);
        assert(names[3][0] != names[6][0]);
        assert(names[3][0] != names[7][0]);
    }
    assert(names[4] != names[5] && names[4] != names[6] && names[4] != names[7]) by {
        assert(names[4][0] != names[5][0]);
        assert(names[4][0] != names[6][0]);
        assert(names[4][0] != names[7][0]);
    }
    assert(names[5] != names[6] && names[5] != names[7]) by {
        assert(names[5][0] != names[6][0]);
        assert(names[5][0] != names[7][0]);
    }
    assert(names[6] != names[7]) by {
        assert(names[6][2] != names[7][2]);
    }
    assert(codes[0] != codes[1] && codes[0] != codes[2] && codes[0] != codes[3] && codes[0]
        != codes[4] && codes[0] != codes[5] && codes[0] != codes[6] && codes[0] != codes[7]) by {
        assert(codes[0][1] != codes[1][1]);
        assert(codes[0][1] != codes[2][1]);
        assert(codes[0][1] != codes[3][1]);
        assert(codes[0][1] != codes[4][1]);
        assert(codes[0][1] != codes[5][1]);
        assert(codes[0][1] != codes[6][1]);
        assert(codes[0][1] != codes[7][1]);
    }
    assert(codes[1] != codes[2] && codes[1] != codes[3] && codes[1] != codes[4] && codes[1]
        != codes[5] && codes[1] != codes[6] && codes[1] != codes[7]) by {
        assert(codes[1][1] != codes[2][1]);
        assert(codes[1][1] != codes[3][1]);
        assert(codes[1][1] != codes[4][1]);
        assert(codes[1][1] != codes[5][1]);
        assert(codes[1][1] != codes[6][1]);
        assert(codes[1][1] != codes[7][1]);
    }
    assert(codes[2] != codes[3] && codes[2] != codes[4] && codes[2] != codes[5] && codes[2]
        != codes[6] && codes[2] != codes[7]) by {
        assert(codes[2][1] != codes[3][1]);
        assert(codes[2][1] != codes[4][1]);
        assert(codes[2][1] != codes[5][1]);
        assert(codes[2][1] != codes[6][1]);
        assert(codes[2][1] != codes[7][1]);
    }
    assert(codes[3] != codes[4] && codes[3] != codes[5] && codes[3] != codes[6] && codes[3]
        != codes[7]) by {
        assert(codes[3][1] != codes[4][1]);
        assert(codes[3][1] != codes[5][1]);
        assert(codes[3][2] != codes[6][2]);
        assert(codes[3][2] != codes[7][2]);
    }
    assert(codes[4] != codes[5] && codes[4] != codes[6] && codes[4] != codes[7]) by {
        assert(codes[4][1] != codes[5][1]);
        assert(codes[4][1] != codes[6][1]);
        assert(codes[4][1] != codes[7][1]);
    }
    assert(codes[5] != codes[6] && codes[5] != codes[7]) by {
        assert(codes[5][1] != codes[6][1]);
        assert(codes[5][1] != codes[7][1]);
    }
    assert(codes[6] != codes[7]) by {
        assert(codes[6][2] != codes[7][2]);
    }
}


/// The table is a bijection: a name maps to a fourcc that maps back to it,
/// and a fourcc maps to a name that maps back to it.
pub proof fn lemma_table_round_trip(name: Seq<char>, code: Seq<u8>)
    ensures
        code_of_name(name) matches Some(c) ==> name_of_code(c) == Some(name),
        name_of_code(code) matches Some(n) ==> code_of_name(n) == Some(code),
        code_of_name(name) matches Some(c) ==> c.len() == 4,
{
    lemma_table_distinct();
}

/// The Vorbis name of a RIFF INFO fourcc, if the table has one.
pub(crate) fn fourcc_to_name(fourcc: &[u8; 4]) -> (r: Option<&'static str>)
    ensures
        match r {
            Some(s) => name_of_code(fourcc@) == Some(s@),
            None => name_of_code(fourcc@) is None,
        },
{
    let (a, b, c, d) = (fourcc[0], fourcc[1], fourcc[2], fourcc[3]);
    proof {
        lemma_table_distinct();
        assert(fourcc@ =~= seq![a, b, c, d]);
    }
    if a == 73 && b == 78 && c == 65 && d == 77 {
        proof {
            reveal_strlit("TITLE");
        }
        return Some("TITLE");
    }
    if a == 73 && b == 65 && c == 82 && d == 84 {
        proof {
            reveal_strlit("ARTIST");
        }
        return Some("ARTIST");
    }
    if a == 73 && b == 80 && c == 82 && d == 68 {
        proof {
            reveal_strlit("ALBUM");
        }
        return Some("ALBUM");
    }
    if a == 73 && b == 67 && c == 82 && d == 68 {
        proof {
            reveal_strlit("DATE");
        }
        return Some("DATE");
    }
    if a == 73 && b == 84 && c == 82 && d == 75 {
        proof {
            reveal_strlit("TRACKNUMBER");
        }
        return Some("TRACKNUMBER");
    }
    if a == 73 && b == 71 && c == 78 && d == 82 {
        proof {
            reveal_strlit("GENRE");
        }
        return Some("GENRE");
    }
    if a == 73 && b == 67 && c == 77 && d == 84 {
        proof {
            reveal_strlit("COMMENT");
        }
        return Some("COMMENT");
    }
    if a == 73 && b == 67 && c == 79 && d == 80 {
        proof {
            reveal_strlit("COPYRIGHT");
        }
        return Some("COPYRIGHT");
    }
    None
}

/// The RIFF INFO fourcc of a Vorbis name, if the table has one.
pub(crate) fn name_to_fourcc(name: &str) -> (r: Option<[u8; 4]>)
    ensures
        match r {
            Some(code) => code_of_name(name@) == Some(code@),
            None => code_of_name(name@) is None,
        },
{
    proof {
        lemma_table_distinct();
    }
    if str_eq(name, "TITLE") {
        proof {
            reveal_strlit("TITLE");
            assert(name@ =~= info_names()[0]);
            assert(name_slot(name@) == 0);
        }
        let code: [u8; 4] = [73, 78, 65, 77];
        assert(code@ =~= seq![73u8, 78u8, 65u8, 77u8]);
        return Some(code);
    }
    if str_eq(name, "ARTIST") {
        proof {
            reveal_strlit("ARTIST");
            assert(name@ =~= info_names()[1]);
            assert(name_slot(name@) == 1);
        }
        let code: [u8; 4] = [73, 65, 82, 84];
        assert(code@ =~= seq![73u8, 65u8, 82u8, 84u8]);
        return Some(code);
    }
    if str_eq(name, "ALBUM") {
        proof {
            reveal_strlit("ALBUM");
            assert(name@ =~= info_names()[2]);
            assert(name_slot(name@) == 2);
        }
        let code: [u8; 4] = [73, 80, 82, 68];
        assert(code@ =~= seq![73u8, 80u8, 82u8, 68u8]);
        return Some(code);
    }
    if str_eq(name, "DATE") {
        proof {
            reveal_strlit("DATE");
            assert(name@ =~= info_names()[3]);
            assert(name_slot(name@) == 3);
        }
        let code: [u8; 4] = [73, 67, 82, 68];
        assert(code@ =~= seq![73u8, 67u8, 82u8, 68u8]);
        return Some(code);
    }
    if str_eq(name, "TRACKNUMBER") {
        proof {
            reveal_strlit("TRACKNUMBER");
            assert(name@ =~= info_names()[4]);
            assert(name_slot(name@) == 4);
        }
        let code: [u8; 4] = [73, 84, 82, 75];
        assert(code@ =~= seq![73u8, 84u8, 82u8, 75u8]);
        return Some(code);
    }
    if str_eq(name, "GENRE") {
        proof {
            reveal_strlit("GENRE");
            assert(name@ =~= info_names()[5]);
            assert(name_slot(name@) == 5);
        }
        let code: [u8; 4] = [73, 71, 78, 82];
        assert(code@ =~= seq![73u8, 71u8, 78u8, 82u8]);
        return Some(code);
    }
    if str_eq(name, "COMMENT") {
        proof {
            reveal_strlit("COMMENT");
            assert(name@ =~= info_names()[6]);
            assert(name_slot(name@) == 6);
        }
        let code: [u8; 4] = [73, 67, 77, 84];
        assert(code@ =~= seq![73u8, 67u8, 77u8, 84u8]);
        return Some(code);
    }
    if str_eq(name, "COPYRIGHT") {
        proof {
            reveal_strlit("COPYRIGHT");
            assert(name@ =~= info_names()[7]);
            assert(name_slot(name@) == 7);
        }
        let code: [u8; 4] = [73, 67, 79, 80];
        assert(code@ =~= seq![73u8, 67u8, 79u8, 80u8]);
        return Some(code);
    }
    proof {
        reveal_strlit("TITLE");
        reveal_strlit("ARTIST");
        reveal_strlit("ALBUM");
        reveal_strlit("DATE");
        reveal_strlit("TRACKNUMBER");
        reveal_strlit("GENRE");
        reveal_strlit("COMMENT");
        reveal_strlit("COPYRIGHT");
    }
    proof {
        assert(info_names()[0] =~= "TITLE"@);
        assert(info_names()[1] =~= "ARTIST"@);
        assert(info_names()[2] =~= "ALBUM"@);
        assert(info_names()[3] =~= "DATE"@);
        assert(info_names()[4] =~= "TRACKNUMBER"@);
        assert(info_names()[5] =~= "GENRE"@);
        assert(info_names()[6] =~= "COMMENT"@);
        assert(info_names()[7] =~= "COPYRIGHT"@);
    }
    None
}

/// What `String::from_utf8_lossy` returns for bytes that are not valid UTF-8
/// (each invalid sequence replaced by U+FFFD).
pub uninterp spec fn utf8_lossy(bytes: Seq<u8>) -> Seq<char>;

/// The text a tag value's bytes stand for: their UTF-8 decoding when they are
/// valid UTF-8, otherwise the lossy decoding.
pub open spec fn decoded_text(bytes: Seq<u8>) -> Seq<char> {
    if valid_utf8(bytes) {
        decode_utf8(bytes)
    } else {
        utf8_lossy(bytes)
    }
}

/// Decodes tag value bytes with `String::from_utf8_lossy`. Valid UTF-8 comes
/// back unchanged (as std documents); for invalid input only the name
/// `utf8_lossy` is claimed.
#[verifier::external_body]
fn text_from_bytes(bytes: &[u8]) -> (s: String)
    ensures
        valid_utf8(bytes@) ==> s@ == decode_utf8(bytes@),
        !valid_utf8(bytes@) ==> s@ == utf8_lossy(bytes@),
{
    String::from_utf8_lossy(bytes).into_owned()
}

/// The tags held by a sequence of INFO subchunks (`fourcc`, little-endian
/// size, body, pad byte to even length). Subchunks whose fourcc is not in the
/// table are skipped; the walk stops at the first subchunk that does not fit.
pub open spec fn info_entries(info: Seq<u8>) -> Seq<TagView>
    decreases info.len(),
{
    if info.len() < 8 {
        seq![]
    } else {
        let size = le_u32_at(info, 4) as int;
        if 8 + size > info.len() {
            seq![]
        } else {
            let next = 8 + size + size % 2;
            let rest = if next >= info.len() {
                seq![]
            } else {
                info_entries(info.skip(next))
            };
            match name_of_code(info.take(4)) {
                Some(name) => seq![(name, decoded_text(info.subrange(8, 8 + size)))] + rest,
                None => rest,
            }
        }
    }
}

/// Parses the subchunks of a `LIST INFO` payload (after the `INFO` id).
/// Always returns `Some`.
pub(crate) fn parse_info_subchunks(info: &[u8]) -> (r: Option<Tags>)
    ensures
        r matches Some(tags) && tag_view(tags@) == info_entries(info@),
{
    let mut tags: Tags = Vec::new();
    let mut offset: usize = 0;
    proof {
        assert(info@.skip(0) =~= info@);
        assert(tag_view(tags@) + info_entries(info@) =~= info_entries(info@));
    }
    while offset < info.len() && info.len() - offset >= 8
        invariant
            offset <= info@.len(),
            info_entries(info@) == tag_view(tags@) + info_entries(info@.skip(offset as int)),
        ensures
            info_entries(info@) == tag_view(tags@),
        decreases info@.len() - offset,
    {
        let ghost rem = info@.skip(offset as int);
        let size = read_le_u32(info, offset + 4);
        let body = offset + 8;
        proof {
            assert(le_u32_at(rem, 4) == le_u32_at(info@, offset + 4));
        }
        if size > info.len() - body {
            proof {
                assert(info_entries(rem) =~= seq![]);
                assert(tag_view(tags@) + seq![] =~= tag_view(tags@));
            }
            break;
        }
        let end = body + size;
        let code: [u8; 4] = [info[offset], info[offset + 1], info[offset + 2], info[offset + 3]];
        proof {
            assert(code@ =~= rem.take(4));
        }
        let ghost before = tag_view(tags@);
        if let Some(name) = fourcc_to_name(&code) {
            let value = text_from_bytes(&info[body..end]);
            proof {
                assert(info@.subrange(body as int, end as int) =~= rem.subrange(8, 8 + size));
            }
            tags.push((name.to_owned(), value));
            proof {
                assert(tag_view(tags@) =~= before.push((name@, value@)));
            }
        }
        let next = if end == info.len() {
            end
        } else {
            end + size % 2
        };
        proof {
            let rel = 8 + size + size % 2;
            if rel < rem.len() {
                assert(rem.skip(rel) =~= info@.skip(next as int));
            } else {
                assert(info_entries(info@.skip(next as int)) =~= seq![]);
            }
            assert(info_entries(info@) =~= tag_view(tags@) + info_entries(info@.skip(next as int)));
        }
        offset = next;
    }
    proof {
        assert(tag_view(tags@) + seq![] =~= tag_view(tags@));
    }
    Some(tags)
}

/// `RIFF`
pub open spec fn riff_id() -> Seq<u8> {
    seq![82u8, 73u8, 70u8, 70u8]
}

/// `WAVE`
pub open spec fn wave_id() -> Seq<u8> {
    seq![87u8, 65u8, 86u8, 69u8]
}

/// `LIST`
pub open spec fn list_id() -> Seq<u8> {
    seq![76u8, 73u8, 83u8, 84u8]
}

/// `INFO`
pub open spec fn info_id() -> Seq<u8> {
    seq![73u8, 78u8, 70u8, 79u8]
}

/// `data`
pub open spec fn data_id() -> Seq<u8> {
    seq![100u8, 97u8, 116u8, 97u8]
}

/// A RIFF/WAVE header: `RIFF`, a size, `WAVE`.
pub open spec fn is_riff_wave(b: Seq<u8>) -> bool {
    &&& b.len() >= 12
    &&& b.subrange(0, 4) == riff_id()
    &&& b.subrange(8, 12) == wave_id()
}

/// The size field of the chunk whose header starts at `offset`.
pub open spec fn chunk_size(b: Seq<u8>, offset: int) -> int {
    le_u32_at(b, offset + 4) as int
}

/// Where the chunk after the one at `offset` starts (bodies are padded to an
/// even length).
pub open spec fn next_chunk(b: Seq<u8>, offset: int) -> int {
    offset + 8 + chunk_size(b, offset) + chunk_size(b, offset) % 2
}

/// The chunk at `offset` is a `LIST` chunk of type `INFO`.
pub open spec fn is_list_info(b: Seq<u8>, offset: int) -> bool {
    &&& b.subrange(offset, offset + 4) == list_id()
    &&& chunk_size(b, offset) >= 4
    &&& b.subrange(offset + 8, offset + 12) == info_id()
}

/// The byte range of the payload (after `INFO`) of the first `LIST INFO`
/// chunk met when walking the chunks from `offset`; `None` when the walk ends,
/// or meets a chunk that does not fit, before one is found.
pub open spec fn info_range(b: Seq<u8>, offset: int) -> Option<(int, int)>
    decreases b.len() - offset,
{
    if offset < 0 || offset + 8 > b.len() {
        None
    } else if offset + 8 + chunk_size(b, offset) > b.len() {
        None
    } else if is_list_info(b, offset) {
        Some((offset + 12, offset + 8 + chunk_size(b, offset)))
    } else if next_chunk(b, offset) + 8 > b.len() {
        None
    } else {
        info_range(b, next_chunk(b, offset))
    }
}

/// The tags of a WAV file: those of its first `LIST INFO` chunk, or `None`
/// when it is no RIFF/WAVE file or has no such chunk.
pub open spec fn wav_info(b: Seq<u8>) -> Option<Seq<TagView>> {
    if !is_riff_wave(b) {
        None
    } else {
        match info_range(b, 12) {
            Some(r) => Some(info_entries(b.subrange(r.0, r.1))),
            None => None,
        }
    }
}

/// Walks the RIFF chunk list of WAV bytes and parses the first `LIST INFO`.
pub fn read_wav_info(bytes: &[u8]) -> (r: Option<Tags>)
    ensures
        match r {
            Some(tags) => wav_info(bytes@) == Some(tag_view(tags@)),
            None => wav_info(bytes@) is None,
        },
{
    if bytes.len() < 12 || !id_at(bytes, 0, [82, 73, 70, 70]) || !id_at(bytes, 8, [87, 65, 86, 69]) {
        proof {
            assert([82u8, 73u8, 70u8, 70u8]@ =~= riff_id());
            assert([87u8, 65u8, 86u8, 69u8]@ =~= wave_id());
        }
        return None;
    }
    proof {
        assert([82u8, 73u8, 70u8, 70u8]@ =~= riff_id());
        assert([87u8, 65u8, 86u8, 69u8]@ =~= wave_id());
        assert([76u8, 73u8, 83u8, 84u8]@ =~= list_id());
        assert([73u8, 78u8, 70u8, 79u8]@ =~= info_id());
    }
    let mut offset: usize = 12;
    while offset < bytes.len() && bytes.len() - offset >= 8
        invariant
            12 <= offset <= bytes@.len(),
            is_riff_wave(bytes@),
            info_range(bytes@, 12) == info_range(bytes@, offset as int),
        ensures
            info_range(bytes@, 12) is None,
        decreases bytes@.len() - offset,
    {
        let size = read_le_u32(bytes, offset + 4);
        let body = offset + 8;
        if size > bytes.len() - body {
            return None;
        }
        if id_at(bytes, offset, [76, 73, 83, 84]) && size >= 4 && id_at(bytes, body, [73, 78, 70, 79]) {
            let r = parse_info_subchunks(&bytes[body + 4..body + size]);
            return r;
        }
        let end = body + size;
        if end == bytes.len() {
            return None;
        }
        offset = end + size % 2;
    }
    None
}

/// The offset of the `data` chunk met when walking the chunks from `offset`;
/// `None` when the walk runs off the end first.
pub open spec fn data_offset(b: Seq<u8>, offset: int) -> Option<int>
    decreases b.len() - offset,
{
    if offset < 0 || offset + 8 > b.len() {
        None
    } else if b.subrange(offset, offset + 4) == data_id() {
        Some(offset)
    } else if next_chunk(b, offset) + 8 > b.len() {
        None
    } else {
        data_offset(b, next_chunk(b, offset))
    }
}

/// The walk only moves forward: a `data` chunk found from `offset` lies at or
/// after `offset`, with its 8-byte header inside the bytes.
pub proof fn lemma_data_offset_bounds(b: Seq<u8>, offset: int)
    ensures
        data_offset(b, offset) matches Some(d) ==> offset <= d && d + 8 <= b.len(),
    decreases b.len() - offset,
{
    if offset >= 0 && offset + 8 <= b.len() && b.subrange(offset, offset + 4) != data_id()
        && next_chunk(b, offset) + 8 <= b.len() {
        lemma_data_offset_bounds(b, next_chunk(b, offset));
    }
}

/// One zero byte when `n` is odd: pads a body of length `n` to even length.
pub open spec fn pad_for(n: nat) -> Seq<u8> {
    if n % 2 == 1 {
        seq![0u8]
    } else {
        seq![]
    }
}

/// The INFO subchunk written for a tag: its fourcc, the little-endian length
/// of the UTF-8 value, the value, and a pad byte; nothing for a name without
/// a fourcc.
pub open spec fn tag_subchunk(tag: TagView) -> Seq<u8> {
    match code_of_name(tag.0) {
        Some(code) => {
            let v = encode_utf8(tag.1);
            code + le_u32_bytes(v.len()) + v + pad_for(v.len())
        },
        None => seq![],
    }
}

/// The subchunks written for a tag list, in order.
pub open spec fn info_payload(tags: Seq<TagView>) -> Seq<u8>
    decreases tags.len(),
{
    if tags.len() == 0 {
        seq![]
    } else {
        info_payload(tags.drop_last()) + tag_subchunk(tags.last())
    }
}

/// The `LIST INFO` chunk written for a tag list.
pub open spec fn list_info_chunk(tags: Seq<TagView>) -> Seq<u8> {
    let p = info_id() + info_payload(tags);
    list_id() + le_u32_bytes(p.len()) + p + pad_for(p.len())
}

/// WAV bytes with the `LIST INFO` chunk of `tags` inserted right before the
/// `data` chunk at `d`, and the RIFF size patched to the new length minus 8.
pub open spec fn with_list_info(b: Seq<u8>, d: int, tags: Seq<TagView>) -> Seq<u8> {
    let chunk = list_info_chunk(tags);
    b.subrange(0, 4) + le_u32_bytes((b.len() + chunk.len() - 8) as nat) + b.subrange(8, d) + chunk
        + b.subrange(d, b.len() as int)
}

/// Walks the chunks from offset 12 to the `data` chunk.
fn find_data_chunk(bytes: &[u8]) -> (r: Result<usize, ResampleError>)
    ensures
        match r {
            Ok(d) => data_offset(bytes@, 12) == Some(d as int) && 12 <= d && d + 8 <= bytes@.len(),
            Err(e) => data_offset(bytes@, 12) is None && e == ResampleError::BufferError(
                BufferIssue::NoDataChunk,
            ),
        },
{
    proof {
        assert([100u8, 97u8, 116u8, 97u8]@ =~= data_id());
    }
    let mut offset: usize = 12;
    loop
        invariant
            data_offset(bytes@, 12) == data_offset(bytes@, offset as int),
        ensures
            data_offset(bytes@, 12) == Some(offset as int),
            12 <= offset,
            offset + 8 <= bytes@.len(),
        decreases bytes@.len() + 8 - offset,
    {
        if offset > bytes.len() || bytes.len() - offset < 8 {
            return Err(ResampleError::BufferError(BufferIssue::NoDataChunk));
        }
        if id_at(bytes, offset, [100, 97, 116, 97]) {
            proof {
                lemma_data_offset_bounds(bytes@, 12);
            }
            break;
        }
        let size = read_le_u32(bytes, offset + 4);
        let body = offset + 8;
        if size > bytes.len() - body {
            return Err(ResampleError::BufferError(BufferIssue::NoDataChunk));
        }
        let end = body + size;
        if end == bytes.len() {
            return Err(ResampleError::BufferError(BufferIssue::NoDataChunk));
        }
        offset = end + size % 2;
    }
    Ok(offset)
}

/// The `LIST INFO` chunk for `tags`.
fn list_info_chunk_bytes(tags: &Tags) -> (chunk: Vec<u8>)
    ensures
        chunk@ == list_info_chunk(tag_view(tags@)),
{
    let ghost tv = tag_view(tags@);
    let mut payload: Vec<u8> = Vec::new();
    append_bytes(&mut payload, &[73, 78, 70, 79]);
    let mut i: usize = 0;
    proof {
        assert(tv.take(0) =~= seq![]);
        assert([73u8, 78u8, 70u8, 79u8]@ =~= info_id());
        assert(payload@ =~= info_id() + info_payload(tv.take(0)));
    }
    while i < tags.len()
        invariant
            i <= tags@.len(),
            tv == tag_view(tags@),
            payload@ == info_id() + info_payload(tv.take(i as int)),
        decreases tags@.len() - i,
    {
        let ghost before = payload@;
        if let Some(code) = name_to_fourcc(tags[i].0.as_str()) {
            let v = tags[i].1.as_str().as_bytes();
            append_bytes(&mut payload, &code);
            push_le_u32(&mut payload, v.len());
            append_bytes(&mut payload, v);
            if v.len() % 2 == 1 {
                payload.push(0);
            }
            proof {
                assert(tv[i as int] == (tags@[i as int].0@, tags@[i as int].1@));
                assert(payload@ =~= before + tag_subchunk(tv[i as int]));
            }
        } else {
            proof {
                assert(tv[i as int] == (tags@[i as int].0@, tags@[i as int].1@));
                assert(tag_subchunk(tv[i as int]) =~= seq![]);
                assert(payload@ =~= before + tag_subchunk(tv[i as int]));
            }
        }
        proof {
            assert(tv.take(i + 1).drop_last() =~= tv.take(i as int));
            assert(payload@ =~= info_id() + info_payload(tv.take(i + 1)));
        }
        i = i + 1;
    }
    proof {
        assert(tv.take(tags@.len() as int) =~= tv);
    }
    let mut chunk: Vec<u8> = Vec::new();
    append_bytes(&mut chunk, &[76, 73, 83, 84]);
    push_le_u32(&mut chunk, payload.len());
    append_bytes(&mut chunk, payload.as_slice());
    if payload.len() % 2 == 1 {
        chunk.push(0);
    }
    proof {
        assert([76u8, 73u8, 83u8, 84u8]@ =~= list_id());
        assert(chunk@ =~= list_info_chunk(tv));
    }
    chunk
}

/// Overwrites bytes 4..8 with the little-endian length minus 8 (the RIFF size).
fn patch_riff_size(out: &mut Vec<u8>)
    requires
        old(out)@.len() >= 8,
    ensures
        final(out)@ == old(out)@.subrange(0, 4) + le_u32_bytes((old(out)@.len() - 8) as nat) + old(
            out,
        )@.subrange(8, old(out)@.len() as int),
{
    let riff_size = out.len() - 8;
    out.set(4, (riff_size % 256) as u8);
    out.set(5, ((riff_size / 256) % 256) as u8);
    out.set(6, ((riff_size / 65536) % 256) as u8);
    out.set(7, ((riff_size / 16777216) % 256) as u8);
    assert(out@ =~= old(out)@.subrange(0, 4) + le_u32_bytes((old(out)@.len() - 8) as nat) + old(
        out,
    )@.subrange(8, old(out)@.len() as int));
}

/// Inserts a `LIST INFO` chunk holding `tags` before the `data` chunk of WAV
/// bytes and patches the RIFF size. Tags whose name has no INFO fourcc are
/// dropped. Fails when the chunk walk from offset 12 finds no `data` chunk.
pub fn attach_wav_info(bytes: &[u8], tags: &Tags) -> (r: Result<Vec<u8>, ResampleError>)
    ensures
        match r {
            Ok(out) => data_offset(bytes@, 12) matches Some(d) && out@ == with_list_info(
                bytes@,
                d,
                tag_view(tags@),
            ),
            Err(e) => data_offset(bytes@, 12) is None && e == ResampleError::BufferError(
                BufferIssue::NoDataChunk,
            ),
        },
{
    let insert_at = find_data_chunk(bytes)?;
    let chunk = list_info_chunk_bytes(tags);
    let mut out: Vec<u8> = Vec::new();
    append_bytes(&mut out, &bytes[0..insert_at]);
    append_bytes(&mut out, chunk.as_slice());
    append_bytes(&mut out, &bytes[insert_at..bytes.len()]);
    let ghost spliced = out@;
    patch_riff_size(&mut out);
    proof {
        let d = insert_at as int;
        let b = bytes@;
        assert(spliced =~= b.subrange(0, d) + chunk@ + b.subrange(d, b.len() as int));
        assert(spliced.subrange(0, 4) =~= b.subrange(0, 4));
        assert(spliced.subrange(8, spliced.len() as int) =~= b.subrange(8, d) + chunk@ + b.subrange(
            d,
            b.len() as int,
        ));
        assert(out@ =~= with_list_info(b, d, tag_view(tags@)));
    }
    Ok(out)
}
/// The tags that survive a write: those whose name has an INFO fourcc, in
/// the order given.
pub open spec fn tags_with_fourcc(tags: Seq<TagView>) -> Seq<TagView>
    decreases tags.len(),
{
    if tags.len() == 0 {
        seq![]
    } else if code_of_name(tags.last().0) is Some {
        tags_with_fourcc(tags.drop_last()).push(tags.last())
    } else {
        tags_with_fourcc(tags.drop_last())
    }
}

/// Parsing the subchunk written for one tag gives that tag back, followed by
/// whatever follows the subchunk.
proof fn lemma_subchunk_parses_back(tag: TagView, rest: Seq<u8>)
    requires
        tag_subchunk(tag).len() < 0x1_0000_0000,
    ensures
        info_entries(tag_subchunk(tag) + rest) == (if code_of_name(tag.0) is Some {
            seq![tag] + info_entries(rest)
        } else {
            info_entries(rest)
        }),
{
    broadcast use encode_utf8_decode_utf8, encode_utf8_valid_utf8;

    lemma_table_round_trip(tag.0, seq![]);
    match code_of_name(tag.0) {
        Some(code) => {
            let v = encode_utf8(tag.1);
            let sub = tag_subchunk(tag);
            let s = sub + rest;
            assert(s =~= code + le_u32_bytes(v.len()) + (v + pad_for(v.len()) + rest));
            lemma_le_u32_round_trip(v.len(), code, v + pad_for(v.len()) + rest);
            assert(le_u32_at(s, 4) == v.len());
            assert(s.take(4) =~= code);
            assert(s.subrange(8, 8 + v.len() as int) =~= v);
            assert(decoded_text(v) == tag.1);
            let next = 8 + v.len() + v.len() % 2;
            assert(next == sub.len());
            if next < s.len() {
                assert(s.skip(next as int) =~= rest);
            } else {
                assert(rest.len() == 0);
                assert(info_entries(rest) =~= seq![]);
            }
        },
        None => {
            assert(tag_subchunk(tag) + rest =~= rest);
        },
    }
}

/// Parsing the payload written for a tag list gives back the tags that have
/// an INFO fourcc, followed by whatever follows the payload.
proof fn lemma_payload_parses_back(tags: Seq<TagView>, rest: Seq<u8>)
    requires
        info_payload(tags).len() < 0x1_0000_0000,
    ensures
        info_entries(info_payload(tags) + rest) == tags_with_fourcc(tags) + info_entries(rest),
    decreases tags.len(),
{
    if tags.len() == 0 {
        assert(info_payload(tags) + rest =~= rest);
        assert(tags_with_fourcc(tags) + info_entries(rest) =~= info_entries(rest));
    } else {
        let init = tags.drop_last();
        let last = tags.last();
        let sub = tag_subchunk(last);
        lemma_payload_parses_back(init, sub + rest);
        assert(info_payload(tags) + rest =~= info_payload(init) + (sub + rest));
        lemma_subchunk_parses_back(last, rest);
        if code_of_name(last.0) is Some {
            assert(tags_with_fourcc(init) + (seq![last] + info_entries(rest)) =~= tags_with_fourcc(
                tags,
            ) + info_entries(rest));
        }
    }
}

/// The patched bytes agree with the input bytes from offset 8 up to the
/// `data` chunk, and are longer by the inserted chunk.
proof fn lemma_patched_prefix(b: Seq<u8>, d: int, tags: Seq<TagView>)
    requires
        12 <= d <= b.len(),
    ensures
        with_list_info(b, d, tags).len() == b.len() + list_info_chunk(tags).len(),
        forall|k: int| 8 <= k < d ==> #[trigger] with_list_info(b, d, tags)[k] == b[k],
{
    let n = with_list_info(b, d, tags);
    let chunk = list_info_chunk(tags);
    let head = b.subrange(0, 4) + le_u32_bytes((b.len() + chunk.len() - 8) as nat) + b.subrange(
        8,
        d,
    );
    assert(n =~= head + (chunk + b.subrange(d, b.len() as int)));
    assert forall|k: int| 8 <= k < d implies #[trigger] n[k] == b[k] by {
        assert(n[k] == head[k]);
    }
}

/// The walk over the patched bytes, arriving at the `data` offset, finds the
/// inserted `LIST INFO` chunk there.
proof fn lemma_inserted_chunk_found(b: Seq<u8>, d: int, tags: Seq<TagView>)
    requires
        12 <= d,
        d + 8 <= b.len(),
        (info_id() + info_payload(tags)).len() < 0x1_0000_0000,
    ensures
        info_range(with_list_info(b, d, tags), d) == Some(
            (d + 12, d + 8 + (info_id() + info_payload(tags)).len()),
        ),
{
    let n = with_list_info(b, d, tags);
    let chunk = list_info_chunk(tags);
    let p = info_id() + info_payload(tags);
    let head = b.subrange(0, 4) + le_u32_bytes((b.len() + chunk.len() - 8) as nat) + b.subrange(
        8,
        d,
    );
    assert(head.len() == d);
    assert(n =~= (head + list_id()) + le_u32_bytes(p.len()) + (p + pad_for(p.len())
        + b.subrange(d, b.len() as int)));
    lemma_le_u32_round_trip(
        p.len(),
        head + list_id(),
        p + pad_for(p.len()) + b.subrange(d, b.len() as int),
    );
    assert(chunk_size(n, d) == p.len());
    assert(n.subrange(d, d + 4) =~= list_id());
    assert(n.subrange(d + 8, d + 12) =~= info_id());
}

/// One step of the walk before the `data` chunk: the chunk at `o` reads the
/// same in the input, the truncated and the patched bytes, is no
/// `LIST INFO` chunk, and the next chunk starts at or before the `data` chunk.
proof fn lemma_walk_step(b: Seq<u8>, d: int, o: int, tags: Seq<TagView>)
    requires
        12 <= o < d,
        data_offset(b, o) == Some(d),
        info_range(b.take(d), o) is None,
    ensures
        next_chunk(b, o) <= d,
        data_offset(b, next_chunk(b, o)) == Some(d),
        info_range(b.take(d), next_chunk(b, o)) is None,
        chunk_size(with_list_info(b, d, tags), o) == chunk_size(b, o),
        !is_list_info(with_list_info(b, d, tags), o),
        o + 8 + chunk_size(b, o) <= d,
{
    let n = with_list_info(b, d, tags);
    let t = b.take(d);
    let next = next_chunk(b, o);
    lemma_data_offset_bounds(b, o);
    lemma_patched_prefix(b, d, tags);
    assert(b.subrange(o, o + 4) != data_id());
    assert(data_offset(b, next) == Some(d));
    lemma_data_offset_bounds(b, next);
    assert(n.subrange(o, o + 4) =~= b.subrange(o, o + 4));
    assert(t.subrange(o, o + 4) =~= b.subrange(o, o + 4));
    assert(n[o + 4] == b[o + 4] && n[o + 5] == b[o + 5] && n[o + 6] == b[o + 6] && n[o + 7] == b[o
        + 7]);
    assert(chunk_size(n, o) == chunk_size(b, o));
    assert(chunk_size(t, o) == chunk_size(b, o));
    if chunk_size(b, o) >= 4 {
        assert(n.subrange(o + 8, o + 12) =~= b.subrange(o + 8, o + 12));
        assert(t.subrange(o + 8, o + 12) =~= b.subrange(o + 8, o + 12));
    }
    if next < d {
        lemma_data_offset_bounds(b, next_chunk(b, next));
        assert(info_range(t, o) == info_range(t, next));
    }
}

/// The chunk walk over the patched bytes meets the same chunks as over the
/// input bytes up to the `data` chunk, and then the inserted `LIST INFO`.
proof fn lemma_walk_reaches_inserted_chunk(b: Seq<u8>, d: int, o: int, tags: Seq<TagView>)
    requires
        12 <= o <= d,
        data_offset(b, o) == Some(d),
        info_range(b.take(d), o) is None,
        (info_id() + info_payload(tags)).len() < 0x1_0000_0000,
    ensures
        info_range(with_list_info(b, d, tags), o) == Some(
            (d + 12, d + 8 + (info_id() + info_payload(tags)).len()),
        ),
    decreases d - o,
{
    lemma_data_offset_bounds(b, o);
    lemma_patched_prefix(b, d, tags);
    if o == d {
        lemma_inserted_chunk_found(b, d, tags);
    } else {
        lemma_walk_step(b, d, o, tags);
        lemma_walk_reaches_inserted_chunk(b, d, next_chunk(b, o), tags);
        let n = with_list_info(b, d, tags);
        assert(next_chunk(n, o) == next_chunk(b, o));
    }
}

/// The patched bytes keep the RIFF/WAVE header ids, and the inserted chunk's
/// payload (after `INFO`) is the subchunks of the tags.
proof fn lemma_patched_header_and_payload(b: Seq<u8>, d: int, tags: Seq<TagView>)
    requires
        is_riff_wave(b),
        12 <= d,
        d + 8 <= b.len(),
    ensures
        is_riff_wave(with_list_info(b, d, tags)),
        with_list_info(b, d, tags).subrange(
            d + 12,
            d + 8 + (info_id() + info_payload(tags)).len(),
        ) == info_payload(tags),
{
    let n = with_list_info(b, d, tags);
    let p = info_id() + info_payload(tags);
    let chunk = list_info_chunk(tags);
    let head = b.subrange(0, 4) + le_u32_bytes((b.len() + chunk.len() - 8) as nat) + b.subrange(
        8,
        d,
    );
    assert(head.len() == d);
    assert(n =~= head + list_id() + le_u32_bytes(p.len()) + info_id() + info_payload(tags) + (
    pad_for(p.len()) + b.subrange(d, b.len() as int)));
    assert(n.subrange(0, 4) =~= b.subrange(0, 4));
    assert(n.subrange(8, 12) =~= b.subrange(8, 12));
    assert(n.subrange(d + 12, d + 8 + p.len()) =~= info_payload(tags));
}

/// What a write gives back on a read: after `attach_wav_info` inserts the
/// `LIST INFO` chunk of `tags` into a WAV file that carries no `LIST INFO`
/// chunk ahead of its `data` chunk, `read_wav_info` of the result yields
/// exactly the tags whose names have an INFO fourcc, in order (RIFF sizes
/// being 32-bit, the chunk must fit in 4 GiB).
pub proof fn lemma_attach_then_read(b: Seq<u8>, tags: Seq<TagView>)
    requires
        is_riff_wave(b),
        data_offset(b, 12) is Some,
        info_range(b.take(data_offset(b, 12).unwrap()), 12) is None,
        (info_id() + info_payload(tags)).len() < 0x1_0000_0000,
    ensures
        wav_info(with_list_info(b, data_offset(b, 12).unwrap(), tags)) == Some(
            tags_with_fourcc(tags),
        ),
{
    let d = data_offset(b, 12).unwrap();
    lemma_data_offset_bounds(b, 12);
    lemma_walk_reaches_inserted_chunk(b, d, 12, tags);
    lemma_patched_header_and_payload(b, d, tags);
    lemma_payload_parses_back(tags, seq![]);
    assert(info_payload(tags) + seq![] =~= info_payload(tags));
    assert(info_entries(seq![]) =~= seq![]);
    assert(tags_with_fourcc(tags) + seq![] =~= tags_with_fourcc(tags));
}

/// What was read from a file for its tags: the bytes of a WAV file, the
/// Vorbis comments of a FLAC stream as `(name, value)` pairs, or nothing
/// (unknown extension, unreadable file, undecodable metadata).
pub enum TagSource {
    Wav(Vec<u8>),
    Flac(Vec<(String, String)>),
    Nothing,
}

/// Vorbis comments with their names uppercased.
pub open spec fn vorbis_tags(comments: Seq<TagView>) -> Seq<TagView> {
    comments.map_values(|t: TagView| (ascii_upper(t.0), t.1))
}

/// The tags of FLAC Vorbis comments: names uppercased (ASCII), values and
/// order kept.
pub fn vorbis_comment_tags(comments: &Vec<(String, String)>) -> (tags: Tags)
    ensures
        tag_view(tags@) == vorbis_tags(tag_view(comments@)),
{
    let mut tags: Tags = Vec::new();
    let mut i: usize = 0;
    while i < comments.len()
        invariant
            i <= comments@.len(),
            tag_view(tags@) == vorbis_tags(tag_view(comments@)).take(i as int),
        decreases comments@.len() - i,
    {
        let ghost before = tag_view(tags@);
        let name = to_ascii_uppercase(comments[i].0.as_str());
        let value = comments[i].1.clone();
        tags.push((name, value));
        proof {
            let c = comments@[i as int];
            assert(tag_view(comments@)[i as int] == (c.0@, c.1@));
            assert(vorbis_tags(tag_view(comments@))[i as int] == (ascii_upper(c.0@), c.1@));
            assert(tag_view(tags@) =~= before.push((ascii_upper(c.0@), c.1@)));
            assert(tag_view(tags@) =~= vorbis_tags(tag_view(comments@)).take(i + 1));
        }
        i = i + 1;
    }
    proof {
        assert(vorbis_tags(tag_view(comments@)).take(i as int) =~= vorbis_tags(tag_view(comments@)));
    }
    tags
}

/// The tags `read_tags` returns for what was read from a file.
pub open spec fn source_tags(source: TagSource) -> Seq<TagView> {
    match source {
        TagSource::Wav(bytes) => match wav_info(bytes@) {
            Some(tags) => tags,
            None => seq![],
        },
        TagSource::Flac(comments) => vorbis_tags(tag_view(comments@)),
        TagSource::Nothing => seq![],
    }
}

/// Tags of a file, best-effort: the first `LIST INFO` chunk of WAV bytes, the
/// Vorbis comments of a FLAC stream with uppercased names, and no tags when
/// nothing could be read or nothing parses. Never fails.
pub fn read_tags(source: &TagSource) -> (tags: Tags)
    ensures
        tag_view(tags@) == source_tags(*source),
{
    match source {
        TagSource::Wav(bytes) => match read_wav_info(bytes.as_slice()) {
            Some(tags) => tags,
            None => {
                let tags: Tags = Vec::new();
                assert(tag_view(tags@) =~= seq![]);
                tags
            },
        },
        TagSource::Flac(comments) => vorbis_comment_tags(comments),
        TagSource::Nothing => {
            let tags: Tags = Vec::new();
            assert(tag_view(tags@) =~= seq![]);
            tags
        },
    }
}

} // verus!
