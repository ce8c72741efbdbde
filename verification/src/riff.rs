//! The RIFF container of a bank file.

use vstd::prelude::*;
use vstd::slice::slice_subrange;

use crate::bytes::{four_bytes, le_u32, same_tag, tag_at, u32_at};
use crate::text::{tag_str, tag_text};

verus! {

/// `RIFF`, the first four bytes of the container.
pub const RIFF_MAGIC: [u8; 4] = [0x52, 0x49, 0x46, 0x46];

/// `FEV `, the format tag of a bank.
pub const FEV_FORMAT: [u8; 4] = [0x46, 0x45, 0x56, 0x20];

/// `LIST`, the tag of a chunk that holds further chunks.
pub const LIST_MAGIC: [u8; 4] = [0x4C, 0x49, 0x53, 0x54];

/// `FSB5`, the tag of a sample bank and its first four bytes.
pub const FSB5_MAGIC: [u8; 4] = [0x46, 0x53, 0x42, 0x35];

/// The bytes that a sample bank found by its magic must have at least.
pub const FSB5_SCAN_HEADER: u32 = 0x40;

/// Why a container could not be read.
#[derive(Debug, Clone, Copy, PartialEq, Eq)]
pub enum RiffError {
    /// The file is shorter than a RIFF header.
    TooSmall { len: usize },
    /// The file does not begin with `RIFF`.
    BadMagic { found: [u8; 4] },
    /// The size in the header reaches past the end of the file.
    SizeExceedsFile { size: u32, len: usize },
    /// The format tag is not `FEV `.
    NotFev { format: [u8; 4] },
    /// A chunk reaches past the end of the file.
    ChunkOverrun { id: [u8; 4], size: u32 },
    /// The chunk to be taken apart is not a `LIST`.
    NotList { id: [u8; 4] },
    /// A `LIST` chunk has no room for its type.
    ListTooSmall,
    /// A chunk in a `LIST` reaches past the end of the list.
    SubChunkOverrun { id: [u8; 4], size: u32 },
    /// There is no sample bank in the file.
    NoFsb5,
}

/// A chunk: its tag, the size that its header gives, and its bytes.
#[derive(Debug)]
pub struct RiffChunk<'a> {
    pub id: [u8; 4],
    pub size: u32,
    pub data: &'a [u8],
}

/// A container: its format tag and its chunks in file order.
#[derive(Debug)]
pub struct RiffFile<'a> {
    pub format: [u8; 4],
    pub chunks: Vec<RiffChunk<'a>>,
}

/// What a chunk holds.
#[verifier::ext_equal]
pub struct ChunkModel {
    pub id: [u8; 4],
    pub size: u32,
    pub data: Seq<u8>,
}

/// What a container holds.
#[verifier::ext_equal]
pub struct RiffModel {
    pub format: [u8; 4],
    pub chunks: Seq<ChunkModel>,
}

impl<'a> View for RiffChunk<'a> {
    type V = ChunkModel;

    open spec fn view(&self) -> ChunkModel {
        ChunkModel { id: self.id, size: self.size, data: self.data@ }
    }
}

/// What each chunk of a list holds.
pub open spec fn chunk_models(chunks: Seq<RiffChunk<'_>>) -> Seq<ChunkModel> {
    Seq::new(chunks.len(), |i: int| chunks[i]@)
}

impl<'a> View for RiffFile<'a> {
    type V = RiffModel;

    open spec fn view(&self) -> RiffModel {
        RiffModel { format: self.format, chunks: chunk_models(self.chunks@) }
    }
}

impl<'a> RiffChunk<'a> {
    /// The tag as text; `???` where it is not UTF-8.
    pub fn id_str(&self) -> (r: &str)
        ensures
            r@ == tag_text(self.id),
    {
        tag_str(&self.id)
    }
}

impl<'a> RiffFile<'a> {
    /// The format tag as text; `???` where it is not UTF-8.
    pub fn format_str(&self) -> (r: &str)
        ensures
            r@ == tag_text(self.format),
    {
        tag_str(&self.format)
    }
}

/// The size in the chunk header at `pos`.
pub open spec fn chunk_size(s: Seq<u8>, pos: int) -> int {
    le_u32(s, pos + 4) as int
}

/// The chunk whose header stands at `pos`.
pub open spec fn chunk_at(s: Seq<u8>, pos: int) -> ChunkModel {
    ChunkModel {
        id: tag_at(s, pos),
        size: le_u32(s, pos + 4),
        data: s.subrange(pos + 8, pos + 8 + chunk_size(s, pos)),
    }
}

/// Where the chunk after the one at `pos` begins: chunks are padded to even sizes.
pub open spec fn next_chunk(s: Seq<u8>, pos: int) -> int {
    pos + 8 + chunk_size(s, pos) + chunk_size(s, pos) % 2
}

/// The chunks that follow one another from `pos` on, until fewer than the eight bytes
/// of a chunk header are left; or tag and size of the first that reaches past the end.
pub open spec fn chunks_from(s: Seq<u8>, pos: int) -> Result<Seq<ChunkModel>, ([u8; 4], u32)>
    decreases s.len() + 1 - pos,
{
    if pos + 8 > s.len() {
        Ok(Seq::empty())
    } else if pos + 8 + chunk_size(s, pos) > s.len() {
        Err((tag_at(s, pos), le_u32(s, pos + 4)))
    } else {
        match chunks_from(s, next_chunk(s, pos)) {
            Ok(rest) => Ok(seq![chunk_at(s, pos)] + rest),
            Err(e) => Err(e),
        }
    }
}

/// What a file holds as a container, or why it is none.
pub open spec fn riff_of(s: Seq<u8>) -> Result<RiffModel, RiffError> {
    if s.len() < 12 {
        Err(RiffError::TooSmall { len: s.len() as usize })
    } else if tag_at(s, 0) != RIFF_MAGIC {
        Err(RiffError::BadMagic { found: tag_at(s, 0) })
    } else if le_u32(s, 4) + 8 > s.len() {
        Err(RiffError::SizeExceedsFile { size: le_u32(s, 4), len: s.len() as usize })
    } else if tag_at(s, 8) != FEV_FORMAT {
        Err(RiffError::NotFev { format: tag_at(s, 8) })
    } else {
        match chunks_from(s, 12) {
            Ok(chunks) => Ok(RiffModel { format: tag_at(s, 8), chunks }),
            Err((id, size)) => Err(RiffError::ChunkOverrun { id, size }),
        }
    }
}

/// The chunks inside a `LIST` chunk, or why they cannot be had.
pub open spec fn list_of(chunk: ChunkModel) -> Result<Seq<ChunkModel>, RiffError> {
    if chunk.id != LIST_MAGIC {
        Err(RiffError::NotList { id: chunk.id })
    } else if chunk.data.len() < 4 {
        Err(RiffError::ListTooSmall)
    } else {
        match chunks_from(chunk.data, 4) {
            Ok(chunks) => Ok(chunks),
            Err((id, size)) => Err(RiffError::SubChunkOverrun { id, size }),
        }
    }
}

/// The outcome of `chunks_from` where the chunks of `done` come before those of `rest`.
spec fn after(
    done: Seq<ChunkModel>,
    rest: Result<Seq<ChunkModel>, ([u8; 4], u32)>,
) -> Result<Seq<ChunkModel>, ([u8; 4], u32)> {
    match rest {
        Ok(r) => Ok(done + r),
        Err(e) => Err(e),
    }
}

/// Reads the chunks from `start` to the end of `data`.
fn walk_chunks<'a>(data: &'a [u8], start: usize) -> (r: Result<
    Vec<RiffChunk<'a>>,
    ([u8; 4], u32),
>)
    requires
        start <= data@.len(),
    ensures
        match r {
            Ok(chunks) => chunks_from(data@, start as int) == Ok::<_, ([u8; 4], u32)>(
                chunk_models(chunks@),
            ),
            Err(e) => chunks_from(data@, start as int) == Err::<Seq<ChunkModel>, _>(e),
        },
{
    let mut chunks: Vec<RiffChunk<'a>> = Vec::new();
    let mut pos: usize = start;
    assert(chunk_models(chunks@) =~= Seq::empty());
    assert(after(chunk_models(chunks@), chunks_from(data@, pos as int)) == chunks_from(
        data@,
        start as int,
    )) by {
        match chunks_from(data@, pos as int) {
            Ok(rest) => {
                assert(Seq::<ChunkModel>::empty() + rest =~= rest);
            },
            Err(_) => {},
        }
    }
    while data.len() - pos >= 8
        invariant
            pos <= data@.len(),
            start <= data@.len(),
            after(chunk_models(chunks@), chunks_from(data@, pos as int)) == chunks_from(
                data@,
                start as int,
            ),
        decreases data@.len() - pos,
    {
        let id = four_bytes(data, pos);
        let size: u32 = u32_at(data, pos + 4).unwrap();
        let body: usize = pos + 8;
        if data.len() - body < size as usize {
            return Err((id, size));
        }
        let end: usize = body + size as usize;
        let ghost before = chunk_models(chunks@);
        let ghost at = pos as int;
        let chunk = RiffChunk { id, size, data: slice_subrange(data, body, end) };
        let ghost model = chunk@;
        chunks.push(chunk);
        // A pad byte that the file lacks is left out.
        pos = if size % 2 != 0 && end < data.len() {
            end + 1
        } else {
            end
        };
        proof {
            assert(model =~= chunk_at(data@, at));
            assert(chunk_models(chunks@) =~= before.push(model));
            assert(chunks_from(data@, pos as int) == chunks_from(data@, next_chunk(data@, at)));
            match chunks_from(data@, pos as int) {
                Ok(rest) => {
                    assert(before + (seq![model] + rest) =~= before.push(model) + rest);
                },
                Err(_) => {},
            }
        }
    }
    assert(chunk_models(chunks@) + Seq::empty() =~= chunk_models(chunks@));
    Ok(chunks)
}

/// Reads a bank file as a container.
pub fn parse_riff<'a>(data: &'a [u8]) -> (r: Result<RiffFile<'a>, RiffError>)
    ensures
        match r {
            Ok(file) => riff_of(data@) == Ok::<_, RiffError>(file@),
            Err(e) => riff_of(data@) == Err::<RiffModel, _>(e),
        },
{
    if data.len() < 12 {
        return Err(RiffError::TooSmall { len: data.len() });
    }
    let magic = four_bytes(data, 0);
    if !same_tag(&magic, &RIFF_MAGIC) {
        return Err(RiffError::BadMagic { found: magic });
    }
    let size: u32 = u32_at(data, 4).unwrap();
    if size as usize > data.len() - 8 {
        return Err(RiffError::SizeExceedsFile { size, len: data.len() });
    }
    let format = four_bytes(data, 8);
    if !same_tag(&format, &FEV_FORMAT) {
        return Err(RiffError::NotFev { format });
    }
    match walk_chunks(data, 12) {
        Ok(chunks) => Ok(RiffFile { format, chunks }),
        Err((id, size)) => Err(RiffError::ChunkOverrun { id, size }),
    }
}

/// Reads the chunks inside a `LIST` chunk.
pub fn parse_list_chunk<'a>(chunk: &RiffChunk<'a>) -> (r: Result<Vec<RiffChunk<'a>>, RiffError>)
    ensures
        match r {
            Ok(chunks) => list_of(chunk@) == Ok::<_, RiffError>(chunk_models(chunks@)),
            Err(e) => list_of(chunk@) == Err::<Seq<ChunkModel>, _>(e),
        },
{
    if !same_tag(&chunk.id, &LIST_MAGIC) {
        return Err(RiffError::NotList { id: chunk.id });
    }
    if chunk.data.len() < 4 {
        return Err(RiffError::ListTooSmall);
    }
    match walk_chunks(chunk.data, 4) {
        Ok(chunks) => Ok(chunks),
        Err((id, size)) => Err(RiffError::SubChunkOverrun { id, size }),
    }
}

/// The bytes of the first chunk tagged `FSB5`.
pub open spec fn first_fsb5(chunks: Seq<ChunkModel>) -> Option<Seq<u8>>
    decreases chunks.len(),
{
    if chunks.len() == 0 {
        None
    } else if chunks[0].id == FSB5_MAGIC {
        Some(chunks[0].data)
    } else {
        first_fsb5(chunks.drop_first())
    }
}

/// The sample bank that a chunk is, or that it holds as a well-formed `LIST`.
pub open spec fn fsb5_in_chunk(chunk: ChunkModel) -> Option<Seq<u8>> {
    if chunk.id == FSB5_MAGIC {
        Some(chunk.data)
    } else {
        match list_of(chunk) {
            Ok(subs) => first_fsb5(subs),
            Err(_) => None,
        }
    }
}

/// The first sample bank among the chunks of a file, lists included.
pub open spec fn fsb5_in_chunks(chunks: Seq<ChunkModel>) -> Option<Seq<u8>>
    decreases chunks.len(),
{
    if chunks.len() == 0 {
        None
    } else {
        match fsb5_in_chunk(chunks[0]) {
            Some(d) => Some(d),
            None => fsb5_in_chunks(chunks.drop_first()),
        }
    }
}

/// `o` is the first place where the bytes `FSB5` stand.
pub open spec fn first_magic(s: Seq<u8>, o: int) -> bool {
    &&& 0 <= o
    &&& o + 4 <= s.len()
    &&& tag_at(s, o) == FSB5_MAGIC
    &&& forall|k: int| 0 <= k < o ==> #[trigger] tag_at(s, k) != FSB5_MAGIC
}

/// The length of the sample bank whose magic stands at `o`: its header, its sample
/// headers, its name table and its data, counted modulo two to the thirty-second.
pub open spec fn scanned_len(s: Seq<u8>, o: int) -> int {
    (FSB5_SCAN_HEADER + le_u32(s, o + 12) + le_u32(s, o + 16) + le_u32(s, o + 20)) % 0x1_0000_0000
}

/// The sample bank that begins at the first `FSB5` in the file, cut at the end of the
/// file; none where fewer bytes follow than a header has.
pub open spec fn scanned_fsb5(s: Seq<u8>) -> Option<Seq<u8>> {
    if exists|o: int| first_magic(s, o) {
        let o = choose|o: int| first_magic(s, o);
        if o + FSB5_SCAN_HEADER > s.len() {
            None
        } else if o + scanned_len(s, o) < s.len() {
            Some(s.subrange(o, o + scanned_len(s, o)))
        } else {
            Some(s.subrange(o, s.len() as int))
        }
    } else {
        None
    }
}

/// The sample bank of a file with these chunks: that of the chunks, or else that found
/// by its magic.
pub open spec fn fsb5_bytes(s: Seq<u8>, chunks: Seq<ChunkModel>) -> Option<Seq<u8>> {
    match fsb5_in_chunks(chunks) {
        Some(d) => Some(d),
        None => scanned_fsb5(s),
    }
}

/// Finds the first chunk tagged `FSB5`.
fn find_tagged<'a>(chunks: &Vec<RiffChunk<'a>>) -> (r: Option<&'a [u8]>)
    ensures
        match r {
            Some(d) => first_fsb5(chunk_models(chunks@)) == Some(d@),
            None => first_fsb5(chunk_models(chunks@)) is None,
        },
{
    let ghost all = chunk_models(chunks@);
    let mut i: usize = 0;
    assert(all.skip(0) =~= all);
    while i < chunks.len()
        invariant
            i <= chunks@.len(),
            all == chunk_models(chunks@),
            first_fsb5(all) == first_fsb5(all.skip(i as int)),
        decreases chunks@.len() - i,
    {
        assert(all.skip(i as int)[0] == chunks@[i as int]@);
        if same_tag(&chunks[i].id, &FSB5_MAGIC) {
            return Some(chunks[i].data);
        }
        assert(all.skip(i as int).drop_first() =~= all.skip(i + 1));
        i = i + 1;
    }
    None
}

/// Finds the first place where the bytes `FSB5` stand.
fn find_magic(data: &[u8]) -> (r: Option<usize>)
    ensures
        match r {
            Some(o) => first_magic(data@, o as int),
            None => forall|o: int| !first_magic(data@, o),
        },
{
    let mut i: usize = 0;
    while data.len() - i >= 4
        invariant
            i <= data@.len(),
            forall|k: int| 0 <= k < i ==> #[trigger] tag_at(data@, k) != FSB5_MAGIC,
        decreases data@.len() - i,
    {
        let tag = four_bytes(data, i);
        if same_tag(&tag, &FSB5_MAGIC) {
            return Some(i);
        }
        i = i + 1;
    }
    None
}

/// Adds the four parts of a sample bank as 32-bit numbers.
fn sum_parts(a: u32, b: u32, c: u32, d: u32) -> (r: u32)
    ensures
        r == (a + b + c + d) % 0x1_0000_0000,
{
    a.wrapping_add(b).wrapping_add(c).wrapping_add(d)
}

/// Reads the length of the sample bank whose magic stands at `o`.
fn scan_len(data: &[u8], o: usize) -> (r: u32)
    requires
        o + FSB5_SCAN_HEADER <= data.len(),
    ensures
        r == scanned_len(data@, o as int),
{
    let sample_headers: u32 = u32_at(data, o + 12).unwrap();
    let names: u32 = u32_at(data, o + 16).unwrap();
    let samples: u32 = u32_at(data, o + 20).unwrap();
    sum_parts(FSB5_SCAN_HEADER, sample_headers, names, samples)
}

/// Cuts out the sample bank that begins at the first `FSB5`.
fn scan_fsb5<'a>(data: &'a [u8]) -> (r: Option<&'a [u8]>)
    ensures
        match r {
            Some(d) => scanned_fsb5(data@) == Some(d@),
            None => scanned_fsb5(data@) is None,
        },
{
    let o: usize = match find_magic(data) {
        Some(o) => o,
        None => {
            return None;
        },
    };
    proof {
        let c = choose|c: int| first_magic(data@, c);
        assert(first_magic(data@, c));
        assert(c == o) by {
            if c < o {
                assert(tag_at(data@, c) != FSB5_MAGIC);
            }
            if o < c {
                assert(tag_at(data@, o as int) != FSB5_MAGIC);
            }
        }
    }
    if data.len() - o < FSB5_SCAN_HEADER as usize {
        return None;
    }
    let total: u32 = scan_len(data, o);
    let end: usize = if (total as usize) < data.len() - o {
        o + total as usize
    } else {
        data.len()
    };
    Some(slice_subrange(data, o, end))
}

/// Finds the sample bank in a bank file whose container is `riff`.
pub fn find_fsb5_chunk<'a>(data: &'a [u8], riff: &RiffFile<'a>) -> (r: Result<
    &'a [u8],
    RiffError,
>)
    ensures
        match fsb5_bytes(data@, riff@.chunks) {
            Some(d) => r matches Ok(found) && found@ == d,
            None => r == Err::<&'a [u8], _>(RiffError::NoFsb5),
        },
{
    let ghost all = riff@.chunks;
    let mut i: usize = 0;
    assert(all.skip(0) =~= all);
    while i < riff.chunks.len()
        invariant
            i <= riff.chunks@.len(),
            all == riff@.chunks,
            fsb5_in_chunks(all) == fsb5_in_chunks(all.skip(i as int)),
        decreases riff.chunks@.len() - i,
    {
        let chunk = &riff.chunks[i];
        assert(all.skip(i as int)[0] == chunk@);
        if same_tag(&chunk.id, &FSB5_MAGIC) {
            return Ok(chunk.data);
        }
        if let Ok(subs) = parse_list_chunk(chunk) {
            if let Some(d) = find_tagged(&subs) {
                return Ok(d);
            }
        }
        assert(all.skip(i as int).drop_first() =~= all.skip(i + 1));
        i = i + 1;
    }
    match scan_fsb5(data) {
        Some(d) => Ok(d),
        None => Err(RiffError::NoFsb5),
    }
}

/// Where the `i`-th chunk from `pos` on begins.
pub open spec fn chunk_start(s: Seq<u8>, pos: int, i: nat) -> int
    decreases i,
{
    if i == 0 {
        pos
    } else {
        next_chunk(s, chunk_start(s, pos, (i - 1) as nat))
    }
}

/// Counting chunks from the second one on is counting one less.
proof fn lemma_chunk_start_shift(s: Seq<u8>, pos: int, i: nat)
    ensures
        chunk_start(s, next_chunk(s, pos), i) == chunk_start(s, pos, i + 1),
    decreases i,
{
    reveal_with_fuel(chunk_start, 2);
    if i > 0 {
        lemma_chunk_start_shift(s, pos, (i - 1) as nat);
    }
}

/// The `i`-th chunk from `pos` on lies within the bytes, as its header says.
pub open spec fn lies_inside(s: Seq<u8>, pos: int, chunk: ChunkModel, i: int) -> bool {
    let start = chunk_start(s, pos, i as nat);
    &&& pos <= start
    &&& start + 8 + chunk.size <= s.len()
    &&& chunk == chunk_at(s, start)
    &&& chunk.data.len() == chunk.size
}

/// Every chunk lies within the bytes that it was read from, as its header says, each
/// behind the padding of the one before; and behind the last there is no room for
/// another.
pub proof fn law_chunks_lie_inside(s: Seq<u8>, pos: int, chunks: Seq<ChunkModel>)
    requires
        0 <= pos,
        chunks_from(s, pos) == Ok::<_, ([u8; 4], u32)>(chunks),
    ensures
        forall|i: int| 0 <= i < chunks.len() ==> lies_inside(s, pos, #[trigger] chunks[i], i),
        chunk_start(s, pos, chunks.len()) + 8 > s.len(),
    decreases chunks.len(),
{
    if pos + 8 <= s.len() {
        let next = next_chunk(s, pos);
        let rest = chunks_from(s, next)->Ok_0;
        assert(chunks =~= seq![chunk_at(s, pos)] + rest);
        law_chunks_lie_inside(s, next, rest);
        lemma_chunk_start_shift(s, pos, rest.len());
        assert forall|i: int| 0 <= i < chunks.len() implies lies_inside(
            s,
            pos,
            #[trigger] chunks[i],
            i,
        ) by {
            if i > 0 {
                lemma_chunk_start_shift(s, pos, (i - 1) as nat);
                assert(chunks[i] == rest[i - 1]);
                assert(lies_inside(s, next, rest[i - 1], i - 1));
            }
        }
    } else {
        assert(chunks.len() == 0);
    }
}

/// The sample bank is that of the first chunk that is or holds one.
pub proof fn law_first_chunk_wins(s: Seq<u8>, chunks: Seq<ChunkModel>, i: int)
    requires
        0 <= i < chunks.len(),
        fsb5_in_chunk(chunks[i]) is Some,
        forall|k: int| 0 <= k < i ==> fsb5_in_chunk(#[trigger] chunks[k]) is None,
    ensures
        fsb5_bytes(s, chunks) == fsb5_in_chunk(chunks[i]),
    decreases chunks.len(),
{
    if i > 0 {
        let rest = chunks.drop_first();
        assert(fsb5_in_chunk(chunks[0]) is None);
        assert(rest[i - 1] == chunks[i]);
        assert forall|k: int| 0 <= k < i - 1 implies fsb5_in_chunk(#[trigger] rest[k]) is None by {
            assert(rest[k] == chunks[k + 1]);
        }
        law_first_chunk_wins(s, rest, i - 1);
    }
}

/// Where no chunk is or holds a sample bank, the bytes of the file are searched.
pub proof fn law_search_is_the_last_resort(s: Seq<u8>, chunks: Seq<ChunkModel>)
    requires
        forall|k: int| 0 <= k < chunks.len() ==> fsb5_in_chunk(#[trigger] chunks[k]) is None,
    ensures
        fsb5_bytes(s, chunks) == scanned_fsb5(s),
    decreases chunks.len(),
{
    if chunks.len() > 0 {
        let rest = chunks.drop_first();
        assert(fsb5_in_chunk(chunks[0]) is None);
        assert forall|k: int| 0 <= k < rest.len() implies fsb5_in_chunk(
            #[trigger] rest[k],
        ) is None by {
            assert(rest[k] == chunks[k + 1]);
        }
        law_search_is_the_last_resort(s, rest);
    }
}

/// A sample bank that is found by its magic is a piece of the file that begins at the
/// first `FSB5`; it ends with the file or has the length that its header gives.
pub proof fn law_scanned_is_a_piece(s: Seq<u8>, o: int)
    requires
        first_magic(s, o),
        o + FSB5_SCAN_HEADER <= s.len(),
    ensures
        ({
            let end = if o + scanned_len(s, o) < s.len() {
                o + scanned_len(s, o)
            } else {
                s.len() as int
            };
            scanned_fsb5(s) == Some(s.subrange(o, end))
        }),
{
    let c = choose|c: int| first_magic(s, c);
    assert(first_magic(s, c));
    if c < o {
        assert(tag_at(s, c) != FSB5_MAGIC);
    }
    if o < c {
        assert(tag_at(s, o) != FSB5_MAGIC);
    }
}

/// The bytes of `s` from `a` on are those of `t` from `b` on.
pub open spec fn same_from(s: Seq<u8>, a: int, t: Seq<u8>, b: int) -> bool {
    &&& 0 <= a
    &&& 0 <= b
    &&& s.len() - a == t.len() - b
    &&& forall|k: int| #![trigger s[k]] a <= k < s.len() ==> s[k] == t[k - a + b]
}

/// Chunks are read from the bytes from their beginning on, whatever stands before.
proof fn lemma_chunks_same(s: Seq<u8>, a: int, t: Seq<u8>, b: int)
    requires
        same_from(s, a, t, b),
    ensures
        chunks_from(s, a) == chunks_from(t, b),
    decreases s.len() + 1 - a,
{
    if a + 8 <= s.len() {
        assert(le_u32(s, a + 4) == le_u32(t, b + 4)) by {
            reveal(le_u32);
        }
        assert(tag_at(s, a) == tag_at(t, b));
        if a + 8 + chunk_size(s, a) <= s.len() {
            assert(chunk_at(s, a).data =~= chunk_at(t, b).data);
            lemma_chunks_same(s, next_chunk(s, a), t, next_chunk(t, b));
        }
    }
}

/// The size in the header of a file only has to fit: files that differ in nothing else
/// hold the same.
pub proof fn law_size_only_has_to_fit(s: Seq<u8>, t: Seq<u8>)
    requires
        12 <= s.len(),
        s.len() == t.len(),
        forall|k: int| #![trigger s[k]] 0 <= k < 4 || 8 <= k < s.len() ==> s[k] == t[k],
        le_u32(s, 4) + 8 <= s.len(),
        le_u32(t, 4) + 8 <= t.len(),
    ensures
        riff_of(s) == riff_of(t),
{
    assert(tag_at(s, 0) == tag_at(t, 0));
    assert(tag_at(s, 8) == tag_at(t, 8));
    lemma_chunks_same(s, 12, t, 12);
}

/// Lists and containers are walked alike: the same bytes behind the type of a list and
/// behind the header of a container hold the same chunks, or fail at the same one.
pub proof fn law_walked_alike(head: Seq<u8>, kind: Seq<u8>, size: u32, body: Seq<u8>)
    requires
        head.len() == 12,
        tag_at(head, 0) == RIFF_MAGIC,
        tag_at(head, 8) == FEV_FORMAT,
        le_u32(head, 4) + 8 <= head.len() + body.len(),
        kind.len() == 4,
    ensures
        match list_of(ChunkModel { id: LIST_MAGIC, size, data: kind + body }) {
            Ok(chunks) => riff_of(head + body) == Ok::<_, RiffError>(
                RiffModel { format: FEV_FORMAT, chunks },
            ),
            Err(RiffError::SubChunkOverrun { id, size }) => riff_of(head + body) == Err::<
                RiffModel,
                _,
            >(RiffError::ChunkOverrun { id, size }),
            Err(_) => false,
        },
{
    let s = head + body;
    assert(tag_at(s, 0) == tag_at(head, 0));
    assert(tag_at(s, 8) == tag_at(head, 8));
    assert(le_u32(s, 4) == le_u32(head, 4)) by {
        reveal(le_u32);
    }
    lemma_chunks_same(s, 12, kind + body, 4);
}

} // verus!
