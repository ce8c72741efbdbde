//! What is found in a bank file, told by the bytes that stand in it.

use vstd::prelude::*;

use crate::bytes::{le_u16, le_u32, le_u64, signed16, tag_at};
use crate::riff::{
    chunks_from, first_fsb5, first_magic, fsb5_bytes, fsb5_in_chunk, law_first_chunk_wins,
    law_scanned_is_a_piece, law_search_is_the_last_resort, list_of, riff_of,
    scanned_fsb5, ChunkModel, RiffError, RiffModel, FEV_FORMAT, FSB5_MAGIC, LIST_MAGIC, RIFF_MAGIC,
};

verus! {

/// Four bytes as a number, the lowest first.
pub open spec fn word(s: Seq<u8>, at: int) -> int {
    s[at] + 0x100 * s[at + 1] + 0x1_0000 * s[at + 2] + 0x100_0000 * s[at + 3]
}

/// Eight bytes as a number, the lowest first.
pub open spec fn long(s: Seq<u8>, at: int) -> int {
    word(s, at) + 0x1_0000_0000 * word(s, at + 4)
}

/// Four bytes stand at a place.
pub open spec fn tagged(s: Seq<u8>, at: int, a: u8, b: u8, c: u8, d: u8) -> bool {
    s[at] == a && s[at + 1] == b && s[at + 2] == c && s[at + 3] == d
}

/// A tag is made of four bytes.
pub open spec fn is_tag(id: [u8; 4], a: u8, b: u8, c: u8, d: u8) -> bool {
    id@[0] == a && id@[1] == b && id@[2] == c && id@[3] == d
}

/// The tag `FSB5`.
pub open spec fn is_fsb5(id: [u8; 4]) -> bool {
    is_tag(id, 0x46, 0x53, 0x42, 0x35)
}

/// The tag `LIST`.
pub open spec fn is_list(id: [u8; 4]) -> bool {
    is_tag(id, 0x4C, 0x49, 0x53, 0x54)
}

/// Two tags are the same where their bytes are.
pub(crate) proof fn lemma_tags(a: [u8; 4], b: [u8; 4])
    ensures
        a == b <==> is_tag(a, b@[0], b@[1], b@[2], b@[3]),
{
    if is_tag(a, b@[0], b@[1], b@[2], b@[3]) {
        assert(a@ =~= b@);
        assert(a =~= b);
    }
}

/// Numbers are read with the lowest byte first.
pub proof fn law_numbers(s: Seq<u8>, at: int)
    ensures
        le_u16(s, at) == s[at] + 0x100 * s[at + 1],
        le_u32(s, at) == word(s, at),
        le_u64(s, at) == long(s, at),
        signed16(le_u16(s, at)) == (if s[at + 1] < 0x80 {
            s[at] + 0x100 * s[at + 1]
        } else {
            s[at] + 0x100 * s[at + 1] - 0x1_0000
        }),
{
    reveal(le_u16);
    reveal(le_u32);
    reveal(le_u64);
}

/// A file is a container exactly where it has a header, begins with `RIFF`, its size fits,
/// its format is `FEV ` and its chunks can be walked; else the first of these that fails
/// is the error.
pub proof fn law_container(s: Seq<u8>)
    ensures
        s.len() < 12 ==> riff_of(s) == Err::<RiffModel, _>(
            RiffError::TooSmall { len: s.len() as usize },
        ),
        s.len() >= 12 && !tagged(s, 0, 0x52, 0x49, 0x46, 0x46) ==> riff_of(s) == Err::<
            RiffModel,
            _,
        >(RiffError::BadMagic { found: [s[0], s[1], s[2], s[3]] }),
        s.len() >= 12 && tagged(s, 0, 0x52, 0x49, 0x46, 0x46) ==> {
            &&& word(s, 4) + 8 > s.len() ==> riff_of(s) == Err::<RiffModel, _>(
                RiffError::SizeExceedsFile { size: word(s, 4) as u32, len: s.len() as usize },
            )
            &&& word(s, 4) + 8 <= s.len() && !tagged(s, 8, 0x46, 0x45, 0x56, 0x20) ==> riff_of(s)
                == Err::<RiffModel, _>(RiffError::NotFev { format: [s[8], s[9], s[10], s[11]] })
            &&& word(s, 4) + 8 <= s.len() && tagged(s, 8, 0x46, 0x45, 0x56, 0x20) ==> match chunks_from(
                s,
                12,
            ) {
                Ok(chunks) => riff_of(s) == Ok::<_, RiffError>(
                    RiffModel { format: [0x46u8, 0x45u8, 0x56u8, 0x20u8], chunks },
                ),
                Err((id, size)) => riff_of(s) == Err::<RiffModel, _>(
                    RiffError::ChunkOverrun { id, size },
                ),
            }
        },
{
    law_numbers(s, 4);
    lemma_tags(tag_at(s, 0), RIFF_MAGIC);
    lemma_tags(tag_at(s, 8), FEV_FORMAT);
    lemma_tags(FEV_FORMAT, [0x46u8, 0x45u8, 0x56u8, 0x20u8]);
}

/// The chunks from a place on: none where no chunk header is left; a chunk of the size in
/// its header, and the chunks behind it and its padding; or the first that does not fit.
pub proof fn law_chunk_walk(s: Seq<u8>, pos: int)
    requires
        0 <= pos,
    ensures
        pos + 8 > s.len() ==> chunks_from(s, pos) == Ok::<_, ([u8; 4], u32)>(
            Seq::<ChunkModel>::empty(),
        ),
        pos + 8 <= s.len() ==> {
            let id = [s[pos], s[pos + 1], s[pos + 2], s[pos + 3]];
            let size = word(s, pos + 4);
            &&& pos + 8 + size > s.len() ==> chunks_from(s, pos) == Err::<Seq<ChunkModel>, _>(
                (id, size as u32),
            )
            &&& pos + 8 + size <= s.len() ==> match chunks_from(s, pos + 8 + size + size % 2) {
                Ok(rest) => chunks_from(s, pos) == Ok::<_, ([u8; 4], u32)>(
                    seq![
                        ChunkModel {
                            id,
                            size: size as u32,
                            data: s.subrange(pos + 8, pos + 8 + size),
                        },
                    ] + rest,
                ),
                Err(e) => chunks_from(s, pos) == Err::<Seq<ChunkModel>, _>(e),
            }
        },
{
    law_numbers(s, pos + 4);
}

/// A `LIST` chunk with room for its type holds the chunks behind the type; no other chunk
/// holds any.
pub proof fn law_list(chunk: ChunkModel)
    ensures
        !is_list(chunk.id) ==> list_of(chunk) == Err::<Seq<ChunkModel>, _>(
            RiffError::NotList { id: chunk.id },
        ),
        is_list(chunk.id) && chunk.data.len() < 4 ==> list_of(chunk) == Err::<Seq<ChunkModel>, _>(
            RiffError::ListTooSmall,
        ),
        is_list(chunk.id) && chunk.data.len() >= 4 ==> match chunks_from(chunk.data, 4) {
            Ok(subs) => list_of(chunk) == Ok::<_, RiffError>(subs),
            Err((id, size)) => list_of(chunk) == Err::<Seq<ChunkModel>, _>(
                RiffError::SubChunkOverrun { id, size },
            ),
        },
{
    lemma_tags(chunk.id, LIST_MAGIC);
}

/// None of the chunks is tagged `FSB5`.
pub open spec fn none_tagged(chunks: Seq<ChunkModel>) -> bool {
    forall|j: int| 0 <= j < chunks.len() ==> !is_fsb5((#[trigger] chunks[j]).id)
}

/// A chunk neither is a sample bank nor holds one as a list.
pub open spec fn bankless(chunk: ChunkModel) -> bool {
    &&& !is_fsb5(chunk.id)
    &&& list_of(chunk) matches Ok(subs) ==> none_tagged(subs)
}

/// None of the chunks is a sample bank or holds one.
pub open spec fn all_bankless(chunks: Seq<ChunkModel>) -> bool {
    forall|k: int| 0 <= k < chunks.len() ==> bankless(#[trigger] chunks[k])
}

/// The first chunk tagged `FSB5` among chunks is found, and none where none is.
proof fn lemma_first_fsb5(chunks: Seq<ChunkModel>, j: int)
    requires
        0 <= j <= chunks.len(),
        none_tagged(chunks.take(j)),
    ensures
        j == chunks.len() ==> first_fsb5(chunks) is None,
        j < chunks.len() && is_fsb5(chunks[j].id) ==> first_fsb5(chunks) == Some(chunks[j].data),
    decreases chunks.len(),
{
    if chunks.len() > 0 {
        lemma_tags(chunks[0].id, FSB5_MAGIC);
        if j > 0 {
            let rest = chunks.drop_first();
            assert(chunks.take(j)[0] == chunks[0]);
            assert forall|k: int| 0 <= k < j - 1 implies !is_fsb5(
                (#[trigger] rest.take(j - 1)[k]).id,
            ) by {
                assert(rest.take(j - 1)[k] == chunks.take(j)[k + 1]);
            }
            lemma_first_fsb5(rest, j - 1);
        }
    }
}

/// A chunk that is no sample bank and holds none gives none.
proof fn lemma_bankless(chunk: ChunkModel)
    requires
        bankless(chunk),
    ensures
        fsb5_in_chunk(chunk) is None,
{
    lemma_tags(chunk.id, FSB5_MAGIC);
    if let Ok(subs) = list_of(chunk) {
        assert(subs.take(subs.len() as int) =~= subs);
        lemma_first_fsb5(subs, subs.len() as int);
    }
}

/// The first chunk tagged `FSB5` is the sample bank, where no list before it holds one.
pub proof fn law_tagged_chunk_is_found(s: Seq<u8>, chunks: Seq<ChunkModel>, i: int)
    requires
        0 <= i < chunks.len(),
        is_fsb5(chunks[i].id),
        all_bankless(chunks.take(i)),
    ensures
        fsb5_bytes(s, chunks) == Some(chunks[i].data),
{
    lemma_tags(chunks[i].id, FSB5_MAGIC);
    assert forall|k: int| 0 <= k < i implies fsb5_in_chunk(#[trigger] chunks[k]) is None by {
        assert(chunks.take(i)[k] == chunks[k]);
        lemma_bankless(chunks[k]);
    }
    law_first_chunk_wins(s, chunks, i);
}

/// The first chunk tagged `FSB5` in a list is the sample bank, where no chunk before the
/// list is one or holds one.
pub proof fn law_listed_chunk_is_found(
    s: Seq<u8>,
    chunks: Seq<ChunkModel>,
    i: int,
    subs: Seq<ChunkModel>,
    j: int,
)
    requires
        0 <= i < chunks.len(),
        all_bankless(chunks.take(i)),
        list_of(chunks[i]) == Ok::<_, RiffError>(subs),
        0 <= j < subs.len(),
        is_fsb5(subs[j].id),
        none_tagged(subs.take(j)),
    ensures
        fsb5_bytes(s, chunks) == Some(subs[j].data),
{
    lemma_tags(chunks[i].id, LIST_MAGIC);
    lemma_tags(chunks[i].id, FSB5_MAGIC);
    lemma_first_fsb5(subs, j);
    assert forall|k: int| 0 <= k < i implies fsb5_in_chunk(#[trigger] chunks[k]) is None by {
        assert(chunks.take(i)[k] == chunks[k]);
        lemma_bankless(chunks[k]);
    }
    law_first_chunk_wins(s, chunks, i);
}

/// The bytes `FSB5` stand at `o` and nowhere before.
pub open spec fn magic_first_at(s: Seq<u8>, o: int) -> bool {
    &&& 0 <= o
    &&& o + 4 <= s.len()
    &&& tagged(s, o, 0x46, 0x53, 0x42, 0x35)
    &&& forall|k: int| 0 <= k < o ==> !#[trigger] tagged(s, k, 0x46, 0x53, 0x42, 0x35)
}

/// The first magic is where its bytes stand first.
proof fn lemma_magic(s: Seq<u8>, o: int)
    ensures
        magic_first_at(s, o) <==> first_magic(s, o),
{
    lemma_tags(tag_at(s, o), FSB5_MAGIC);
    if magic_first_at(s, o) {
        assert forall|k: int| 0 <= k < o implies #[trigger] tag_at(s, k) != FSB5_MAGIC by {
            lemma_tags(tag_at(s, k), FSB5_MAGIC);
            assert(!tagged(s, k, 0x46, 0x53, 0x42, 0x35));
        }
    }
    if first_magic(s, o) {
        assert forall|k: int| 0 <= k < o implies !#[trigger] tagged(
            s,
            k,
            0x46,
            0x53,
            0x42,
            0x35,
        ) by {
            lemma_tags(tag_at(s, k), FSB5_MAGIC);
            assert(tag_at(s, k) != FSB5_MAGIC);
        }
    }
}

/// Where no chunk is or holds a sample bank, the bytes of the file are searched.
proof fn lemma_searched(s: Seq<u8>, chunks: Seq<ChunkModel>)
    requires
        all_bankless(chunks),
    ensures
        fsb5_bytes(s, chunks) == scanned_fsb5(s),
{
    assert forall|k: int| 0 <= k < chunks.len() implies fsb5_in_chunk(#[trigger] chunks[k]) is None by {
        lemma_bankless(chunks[k]);
    }
    law_search_is_the_last_resort(s, chunks);
}

/// Where no chunk is or holds a sample bank, the bank begins at the first `FSB5` in the
/// file. It has a header of 0x40 bytes and the three sizes in it, no byte less, unless the
/// file ends before. Sums past 32 bits lose what is past them.
pub proof fn law_bank_by_magic(s: Seq<u8>, chunks: Seq<ChunkModel>, o: int)
    requires
        all_bankless(chunks),
        magic_first_at(s, o),
        o + 0x40 <= s.len(),
    ensures
        ({
            let sum = 0x40 + word(s, o + 12) + word(s, o + 16) + word(s, o + 20);
            let total = if sum <= 0xFFFF_FFFF {
                sum
            } else {
                sum % 0x1_0000_0000
            };
            fsb5_bytes(s, chunks) matches Some(d) && {
                &&& o + total <= s.len() ==> d.len() == total
                &&& o + total > s.len() ==> d.len() == s.len() - o
                &&& d == s.subrange(o, o + d.len())
            }
        }),
{
    lemma_searched(s, chunks);
    lemma_magic(s, o);
    law_numbers(s, o + 12);
    law_numbers(s, o + 16);
    law_numbers(s, o + 20);
    law_scanned_is_a_piece(s, o);
}

/// Where no chunk is or holds a sample bank, there is none exactly where the bytes `FSB5`
/// stand nowhere, or the first time with fewer than 0x40 bytes left.
pub proof fn law_no_bank(s: Seq<u8>, chunks: Seq<ChunkModel>)
    requires
        all_bankless(chunks),
    ensures
        fsb5_bytes(s, chunks) is None <==> forall|o: int|
            #[trigger] magic_first_at(s, o) ==> o + 0x40 > s.len(),
{
    lemma_searched(s, chunks);
    if exists|o: int| first_magic(s, o) {
        let o = choose|o: int| first_magic(s, o);
        lemma_magic(s, o);
        if o + 0x40 <= s.len() {
            law_scanned_is_a_piece(s, o);
        }
        if fsb5_bytes(s, chunks) is None {
            assert forall|p: int| #[trigger] magic_first_at(s, p) implies p + 0x40 > s.len() by {
                lemma_magic(s, p);
                if p + 0x40 <= s.len() {
                    law_scanned_is_a_piece(s, p);
                }
            }
        }
    } else {
        assert forall|p: int| #[trigger] magic_first_at(s, p) implies p + 0x40 > s.len() by {
            lemma_magic(s, p);
        }
    }
}

} // verus!
