//! How containers and sample banks stand in bytes, and that reading gives back what the
//! bytes were made of.

use vstd::prelude::*;

use crate::bytes::{le_u16, le_u32, le_u64, signed16, tag_at};
use crate::decoder::{
    clamped, pcm16_amplitude, samples_of, AudioModel, DecodeError, SamplesModel, CODEC_PCM16, CODEC_PCM8,
    CODEC_PCMFLOAT,
};
use crate::extract::{bank_of, law_pcm_is_written, step_of, BankError, BankModel, StepModel};
use crate::fsb5::{
    bytes16_at, bytes8_at, channel_number, channels_of, codec_of, data_of, extra_at,
    extra_continues, extra_end, extra_of, extra_size, extra_type, extras_from, fields_end, fsb5_of,
    header_at, header_of, header_size, name_of, names_of, packed_channels, packed_frames,
    packed_has_extra, packed_offset, packed_rate_index, rate_of, sample_at, sample_bytes,
    sample_of, sample_title, samples_upto, zero_from, ExtraModel, Fsb5Codec, Fsb5Error, Fsb5Header,
    Fsb5Model, NameModel, SampleModel,
};
use crate::riff::{
    chunk_at, chunks_from, fsb5_in_chunk, law_first_chunk_wins, list_of, next_chunk, riff_of,
    ChunkModel, RiffError, RiffModel, FEV_FORMAT, FSB5_MAGIC, LIST_MAGIC, RIFF_MAGIC,
};
use crate::text::text_of;
use crate::wav::safe;

verus! {

/// A 32-bit number as bytes, the lowest first.
pub open spec fn u32_bytes(v: u32) -> Seq<u8> {
    seq![
        (v % 0x100) as u8,
        (v / 0x100 % 0x100) as u8,
        (v / 0x1_0000 % 0x100) as u8,
        (v / 0x100_0000) as u8,
    ]
}

/// The bytes of a number read as that number.
proof fn lemma_u32_bytes(s: Seq<u8>, at: int, v: u32)
    requires
        0 <= at,
        at + 4 <= s.len(),
        s.subrange(at, at + 4) == u32_bytes(v),
    ensures
        le_u32(s, at) == v,
{
    reveal(le_u32);
    let b = s.subrange(at, at + 4);
    assert(s[at] == b[0] && s[at + 1] == b[1] && s[at + 2] == b[2] && s[at + 3] == b[3]);
}

/// The bytes of a tag read as that tag.
proof fn lemma_tag(s: Seq<u8>, at: int, tag: [u8; 4])
    requires
        0 <= at,
        at + 4 <= s.len(),
        s.subrange(at, at + 4) == tag@,
    ensures
        tag_at(s, at) == tag,
{
    let b = s.subrange(at, at + 4);
    assert(s[at] == b[0] && s[at + 1] == b[1] && s[at + 2] == b[2] && s[at + 3] == b[3]);
    assert(tag_at(s, at)@ =~= tag@);
    assert(tag_at(s, at) =~= tag);
}

/// The byte that pads a chunk of an odd size.
pub open spec fn padding(size: u32) -> Seq<u8> {
    if size % 2 == 1 {
        seq![0u8]
    } else {
        Seq::empty()
    }
}

/// A chunk in bytes: tag, size, data and padding.
pub open spec fn chunk_bytes(chunk: ChunkModel) -> Seq<u8> {
    chunk.id@ + u32_bytes(chunk.size) + chunk.data + padding(chunk.size)
}

/// Chunks in bytes, one after the other.
pub open spec fn chunks_bytes(chunks: Seq<ChunkModel>) -> Seq<u8>
    decreases chunks.len(),
{
    if chunks.len() == 0 {
        Seq::empty()
    } else {
        chunk_bytes(chunks[0]) + chunks_bytes(chunks.drop_first())
    }
}

/// The size of each chunk is the length of its data.
pub open spec fn sized(chunks: Seq<ChunkModel>) -> bool {
    forall|i: int|
        0 <= i < chunks.len() ==> (#[trigger] chunks[i]).size == chunks[i].data.len()
}

/// A chunk that stands at `at` is read as it is, and the next one is looked for behind
/// its padding.
proof fn lemma_chunk_at(s: Seq<u8>, at: int, chunk: ChunkModel)
    requires
        0 <= at,
        chunk.size == chunk.data.len(),
        at + chunk_bytes(chunk).len() <= s.len(),
        s.subrange(at, at + chunk_bytes(chunk).len()) == chunk_bytes(chunk),
    ensures
        at + 8 + chunk.size <= s.len(),
        chunk_at(s, at) == chunk,
        next_chunk(s, at) == at + chunk_bytes(chunk).len(),
{
    let b = chunk_bytes(chunk);
    let n = chunk.data.len() as int;
    let here = s.subrange(at, at + b.len());
    assert(here == b);
    assert(s.subrange(at, at + 4) =~= chunk.id@) by {
        assert(s.subrange(at, at + 4) =~= here.subrange(0, 4));
        assert(b.subrange(0, 4) =~= chunk.id@);
    }
    assert(s.subrange(at + 4, at + 8) =~= u32_bytes(chunk.size)) by {
        assert(s.subrange(at + 4, at + 8) =~= here.subrange(4, 8));
        assert(b.subrange(4, 8) =~= u32_bytes(chunk.size));
    }
    lemma_tag(s, at, chunk.id);
    lemma_u32_bytes(s, at + 4, chunk.size);
    assert(s.subrange(at + 8, at + 8 + n) =~= chunk.data) by {
        assert(s.subrange(at + 8, at + 8 + n) =~= here.subrange(8, 8 + n));
        assert(b.subrange(8, 8 + n) =~= chunk.data);
    }
    assert(chunk_at(s, at) =~= chunk);
}

/// Chunks that stand one after the other are read as they are, whatever comes before
/// them, where fewer bytes follow than a chunk header has.
pub proof fn law_chunks_read_back(before: Seq<u8>, chunks: Seq<ChunkModel>, tail: Seq<u8>)
    requires
        sized(chunks),
        tail.len() < 8,
    ensures
        chunks_from(before + chunks_bytes(chunks) + tail, before.len() as int) == Ok::<
            _,
            ([u8; 4], u32),
        >(chunks),
    decreases chunks.len(),
{
    let s = before + chunks_bytes(chunks) + tail;
    let at = before.len() as int;
    if chunks.len() == 0 {
        assert(chunks =~= Seq::empty());
    } else {
        let first = chunks[0];
        let rest = chunks.drop_first();
        let b = chunk_bytes(first);
        assert(s.subrange(at, at + b.len()) =~= b);
        lemma_chunk_at(s, at, first);
        assert forall|i: int| 0 <= i < rest.len() implies (#[trigger] rest[i]).size
            == rest[i].data.len() by {
            assert(rest[i] == chunks[i + 1]);
        }
        law_chunks_read_back(before + b, rest, tail);
        assert(s =~= (before + b) + chunks_bytes(rest) + tail);
        assert(seq![first] + rest =~= chunks);
    }
}

/// A container in bytes: header, chunks, and bytes that are too few to be a chunk.
pub open spec fn riff_bytes(size: u32, chunks: Seq<ChunkModel>, tail: Seq<u8>) -> Seq<u8> {
    RIFF_MAGIC@ + u32_bytes(size) + FEV_FORMAT@ + chunks_bytes(chunks) + tail
}

/// A bank file is read as the chunks that it was made of, where the size in its header
/// does not reach past its end.
pub proof fn law_riff_reads_back(size: u32, chunks: Seq<ChunkModel>, tail: Seq<u8>)
    requires
        sized(chunks),
        tail.len() < 8,
        size + 8 <= riff_bytes(size, chunks, tail).len(),
    ensures
        riff_of(riff_bytes(size, chunks, tail)) == Ok::<_, RiffError>(
            RiffModel { format: FEV_FORMAT, chunks },
        ),
{
    let s = riff_bytes(size, chunks, tail);
    let head = RIFF_MAGIC@ + u32_bytes(size) + FEV_FORMAT@;
    assert(s =~= head + chunks_bytes(chunks) + tail);
    assert(s.subrange(0, 4) =~= RIFF_MAGIC@);
    assert(s.subrange(4, 8) =~= u32_bytes(size));
    assert(s.subrange(8, 12) =~= FEV_FORMAT@);
    lemma_tag(s, 0, RIFF_MAGIC);
    lemma_u32_bytes(s, 4, size);
    lemma_tag(s, 8, FEV_FORMAT);
    law_chunks_read_back(head, chunks, tail);
}

/// A `LIST` chunk is taken apart into the chunks that it was made of.
pub proof fn law_list_reads_back(kind: [u8; 4], size: u32, subs: Seq<ChunkModel>, tail: Seq<u8>)
    requires
        sized(subs),
        tail.len() < 8,
    ensures
        list_of(
            ChunkModel { id: LIST_MAGIC, size, data: kind@ + chunks_bytes(subs) + tail },
        ) == Ok::<_, RiffError>(subs),
{
    law_chunks_read_back(kind@, subs, tail);
}

/// The type of a chunk of extra data.
pub open spec fn extra_kind(extra: ExtraModel) -> u8 {
    match extra {
        ExtraModel::Channels(_) => 0x01,
        ExtraModel::SampleRate(_) => 0x02,
        ExtraModel::LoopInfo { .. } => 0x03,
        ExtraModel::VorbisSetup { .. } => 0x0B,
        ExtraModel::Unknown { chunk_type, .. } => chunk_type,
    }
}

/// The body of a chunk of extra data.
pub open spec fn extra_body(extra: ExtraModel) -> Seq<u8> {
    match extra {
        ExtraModel::Channels(c) => seq![c],
        ExtraModel::SampleRate(r) => u32_bytes(r),
        ExtraModel::LoopInfo { loop_start, loop_end } => u32_bytes(loop_start) + u32_bytes(
            loop_end,
        ),
        ExtraModel::VorbisSetup { setup_id, seek_table } => u32_bytes(setup_id) + seek_table,
        ExtraModel::Unknown { data, .. } => data,
    }
}

/// A chunk of extra data that has a place in a sample header: its type takes seven bits,
/// its size 24, and a type that is known is not given as unknown.
pub open spec fn extra_ok(extra: ExtraModel) -> bool {
    &&& extra_body(extra).len() < 0x100_0000
    &&& extra matches ExtraModel::Unknown { chunk_type, data } ==> {
        &&& chunk_type < 0x80
        &&& chunk_type != 0x01
        &&& chunk_type != 0x02
        &&& chunk_type != 0x03
        &&& chunk_type != 0x0B
    }
}

/// The header of a chunk of extra data.
pub open spec fn extra_head(extra: ExtraModel, continues: bool) -> u32 {
    ((if continues {
        1int
    } else {
        0int
    }) + 2 * extra_body(extra).len() + 0x200_0000 * extra_kind(extra)) as u32
}

/// A chunk of extra data in bytes.
pub open spec fn extra_bytes(extra: ExtraModel, continues: bool) -> Seq<u8> {
    u32_bytes(extra_head(extra, continues)) + extra_body(extra)
}

/// Chunks of extra data in bytes, of which all but the last say that another follows.
pub open spec fn extras_bytes(extras: Seq<ExtraModel>) -> Seq<u8>
    decreases extras.len(),
{
    if extras.len() == 0 {
        Seq::empty()
    } else {
        extra_bytes(extras[0], extras.len() > 1) + extras_bytes(extras.drop_first())
    }
}

/// The header of a chunk of extra data says what the chunk is.
proof fn lemma_extra_head(extra: ExtraModel, continues: bool)
    requires
        extra_ok(extra),
    ensures
        extra_continues(extra_head(extra, continues)) == continues,
        extra_size(extra_head(extra, continues)) == extra_body(extra).len(),
        extra_type(extra_head(extra, continues)) == extra_kind(extra),
{
}

/// The body of a chunk of extra data says what it was made of.
proof fn lemma_extra_body(extra: ExtraModel)
    requires
        extra_ok(extra),
    ensures
        extra_of(extra_kind(extra), extra_body(extra)) == Some(extra),
{
    let b = extra_body(extra);
    match extra {
        ExtraModel::Channels(_) => {},
        ExtraModel::SampleRate(r) => {
            assert(b.subrange(0, 4) =~= u32_bytes(r));
            lemma_u32_bytes(b, 0, r);
        },
        ExtraModel::LoopInfo { loop_start, loop_end } => {
            assert(b.subrange(0, 4) =~= u32_bytes(loop_start));
            assert(b.subrange(4, 8) =~= u32_bytes(loop_end));
            lemma_u32_bytes(b, 0, loop_start);
            lemma_u32_bytes(b, 4, loop_end);
        },
        ExtraModel::VorbisSetup { setup_id, seek_table } => {
            assert(b.subrange(0, 4) =~= u32_bytes(setup_id));
            lemma_u32_bytes(b, 0, setup_id);
            assert(b.subrange(4, b.len() as int) =~= seek_table);
        },
        ExtraModel::Unknown { .. } => {},
    }
}

/// A chunk of extra data that stands at `at` is read as it is.
proof fn lemma_extra_at(s: Seq<u8>, at: int, extra: ExtraModel, continues: bool)
    requires
        0 <= at,
        extra_ok(extra),
        at + extra_bytes(extra, continues).len() <= s.len(),
        s.subrange(at, at + extra_bytes(extra, continues).len()) == extra_bytes(extra, continues),
    ensures
        at + 4 <= s.len(),
        extra_continues(le_u32(s, at)) == continues,
        extra_end(s, at) == at + extra_bytes(extra, continues).len(),
        extra_at(s, at) == seq![extra],
{
    let b = extra_bytes(extra, continues);
    let head = extra_head(extra, continues);
    let here = s.subrange(at, at + b.len());
    assert(here == b);
    assert(s.subrange(at, at + 4) =~= here.subrange(0, 4));
    assert(b.subrange(0, 4) =~= u32_bytes(head));
    lemma_u32_bytes(s, at, head);
    lemma_extra_head(extra, continues);
    assert(s.subrange(at + 4, at + b.len()) =~= here.subrange(4, b.len() as int));
    assert(b.subrange(4, b.len() as int) =~= extra_body(extra));
    lemma_extra_body(extra);
}

/// All of these have a place in a sample header.
pub open spec fn extras_ok(extras: Seq<ExtraModel>) -> bool {
    forall|i: int| 0 <= i < extras.len() ==> extra_ok(#[trigger] extras[i])
}

/// Extra data are read as they are, whatever stands before and behind them.
pub proof fn law_extras_read_back(before: Seq<u8>, extras: Seq<ExtraModel>, behind: Seq<u8>)
    requires
        extras.len() > 0,
        extras_ok(extras),
    ensures
        extras_from(before + extras_bytes(extras) + behind, before.len() as int) == Ok::<
            _,
            Fsb5Error,
        >((extras, (before.len() + extras_bytes(extras).len()) as int)),
    decreases extras.len(),
{
    let s = before + extras_bytes(extras) + behind;
    let at = before.len() as int;
    let first = extras[0];
    let rest = extras.drop_first();
    let continues = extras.len() > 1;
    let b = extra_bytes(first, continues);
    assert(s.subrange(at, at + b.len()) =~= b);
    lemma_extra_at(s, at, first, continues);
    if continues {
        assert forall|i: int| 0 <= i < rest.len() implies extra_ok(#[trigger] rest[i]) by {
            assert(rest[i] == extras[i + 1]);
        }
        law_extras_read_back(before + b, rest, behind);
        assert(s =~= (before + b) + extras_bytes(rest) + behind);
        assert(seq![first] + rest =~= extras);
    } else {
        assert(rest.len() == 0);
        assert(extras_bytes(rest) =~= Seq::empty());
        assert(seq![first] =~= extras);
    }
}

/// The fields of a sample header as they are packed.
pub struct RawSample {
    pub frames: u32,
    pub offset_units: u32,
    pub layout: u8,
    pub rate_index: u8,
    pub extras: Seq<ExtraModel>,
}

/// The fields have a place in a sample header.
pub open spec fn raw_ok(raw: RawSample) -> bool {
    &&& raw.frames < 0x4000_0000
    &&& raw.offset_units < 0x800_0000
    &&& raw.layout < 4
    &&& raw.rate_index < 16
    &&& extras_ok(raw.extras)
}

/// The packed word of a sample header.
pub open spec fn packed_word(raw: RawSample) -> u64 {
    ((if raw.extras.len() > 0 {
        1int
    } else {
        0int
    }) + 0x2 * raw.rate_index + 0x20 * raw.layout + 0x80 * raw.offset_units + 0x4_0000_0000
        * raw.frames) as u64
}

/// What a sample header with these fields holds.
pub open spec fn raw_model(raw: RawSample) -> SampleModel {
    SampleModel {
        num_samples: raw.frames,
        data_offset: (raw.offset_units * 32) as u32,
        channels: channels_of(raw.layout),
        sample_rate: rate_of(raw.rate_index as int),
        has_extra_data: raw.extras.len() > 0,
        extra_data: raw.extras,
    }
}

/// Numbers that are put side by side in a word come apart again.
proof fn lemma_fields_apart(flag: int, rate: int, layout: int, units: int, frames: int)
    requires
        0 <= flag < 0x2,
        0 <= rate < 0x10,
        0 <= layout < 0x4,
        0 <= units < 0x800_0000,
        0 <= frames < 0x4000_0000,
    ensures
        ({
            let p = flag + 0x2 * rate + 0x20 * layout + 0x80 * units + 0x4_0000_0000 * frames;
            &&& 0 <= p <= u64::MAX
            &&& p % 2 == flag
            &&& (p / 0x2) % 0x10 == rate
            &&& (p / 0x20) % 0x4 == layout
            &&& (p / 0x80) % 0x800_0000 == units
            &&& p / 0x4_0000_0000 == frames
        }),
{
    let p = flag + 0x2 * rate + 0x20 * layout + 0x80 * units + 0x4_0000_0000 * frames;
    assert(p / 0x2 == rate + 0x10 * layout + 0x40 * units + 0x2_0000_0000 * frames);
    assert(p / 0x20 == layout + 0x4 * units + 0x2000_0000 * frames);
    assert(p / 0x80 == units + 0x800_0000 * frames);
    assert(p / 0x4_0000_0000 == frames);
}

/// Every field of a sample header is unpacked as it was packed.
pub proof fn law_sample_unpacks(raw: RawSample)
    requires
        raw_ok(raw),
    ensures
        sample_of(packed_word(raw), raw.extras) == raw_model(raw),
        packed_has_extra(packed_word(raw)) == (raw.extras.len() > 0),
{
    let p = packed_word(raw);
    let flag: int = if raw.extras.len() > 0 {
        1
    } else {
        0
    };
    lemma_fields_apart(
        flag,
        raw.rate_index as int,
        raw.layout as int,
        raw.offset_units as int,
        raw.frames as int,
    );
    assert(packed_rate_index(p) == raw.rate_index);
    assert(packed_channels(p) == raw.layout);
    assert(packed_offset(p) == raw.offset_units * 32);
    assert(packed_frames(p) == raw.frames);
}

/// A 64-bit number as bytes, the lowest first.
pub open spec fn u64_bytes(v: u64) -> Seq<u8> {
    u32_bytes((v % 0x1_0000_0000) as u32) + u32_bytes((v / 0x1_0000_0000) as u32)
}

/// The bytes of a 64-bit number read as that number.
proof fn lemma_u64_bytes(s: Seq<u8>, at: int, v: u64)
    requires
        0 <= at,
        at + 8 <= s.len(),
        s.subrange(at, at + 8) == u64_bytes(v),
    ensures
        le_u64(s, at) == v,
{
    reveal(le_u64);
    let low = (v % 0x1_0000_0000) as u32;
    let high = (v / 0x1_0000_0000) as u32;
    let here = s.subrange(at, at + 8);
    assert(s.subrange(at, at + 4) =~= here.subrange(0, 4));
    assert(s.subrange(at + 4, at + 8) =~= here.subrange(4, 8));
    assert(u64_bytes(v).subrange(0, 4) =~= u32_bytes(low));
    assert(u64_bytes(v).subrange(4, 8) =~= u32_bytes(high));
    lemma_u32_bytes(s, at, low);
    lemma_u32_bytes(s, at + 4, high);
}

/// A sample header in bytes.
pub open spec fn sample_header_bytes(raw: RawSample) -> Seq<u8> {
    u64_bytes(packed_word(raw)) + extras_bytes(raw.extras)
}

/// Sample headers in bytes, one after the other.
pub open spec fn samples_bytes(raws: Seq<RawSample>) -> Seq<u8>
    decreases raws.len(),
{
    if raws.len() == 0 {
        Seq::empty()
    } else {
        samples_bytes(raws.drop_last()) + sample_header_bytes(raws.last())
    }
}

/// What sample headers with these fields hold.
pub open spec fn raw_models(raws: Seq<RawSample>) -> Seq<SampleModel> {
    Seq::new(raws.len(), |i: int| raw_model(raws[i]))
}

/// A sample header is read as it is, whatever stands before it and behind it.
proof fn lemma_sample_header(before: Seq<u8>, raw: RawSample, behind: Seq<u8>, index: u32)
    requires
        raw_ok(raw),
    ensures
        sample_at(before + sample_header_bytes(raw) + behind, before.len() as int, index) == Ok::<
            _,
            Fsb5Error,
        >((raw_model(raw), (before.len() + sample_header_bytes(raw).len()) as int)),
{
    let s = before + sample_header_bytes(raw) + behind;
    let at = before.len() as int;
    let word = u64_bytes(packed_word(raw));
    assert(s.subrange(at, at + 8) =~= word);
    lemma_u64_bytes(s, at, packed_word(raw));
    law_sample_unpacks(raw);
    if raw.extras.len() > 0 {
        law_extras_read_back(before + word, raw.extras, behind);
        assert(s =~= (before + word) + extras_bytes(raw.extras) + behind);
    } else {
        assert(raw.extras =~= Seq::empty());
        assert(extras_bytes(raw.extras) =~= Seq::empty());
    }
}

/// All of these have a place in a sample bank.
pub open spec fn raws_ok(raws: Seq<RawSample>) -> bool {
    &&& raws.len() <= u32::MAX
    &&& forall|i: int| 0 <= i < raws.len() ==> raw_ok(#[trigger] raws[i])
}

/// Sample headers are read as they are, whatever stands before and behind them.
pub proof fn law_samples_read_back(before: Seq<u8>, raws: Seq<RawSample>, behind: Seq<u8>)
    requires
        raws_ok(raws),
    ensures
        samples_upto(before + samples_bytes(raws) + behind, before.len() as int, raws.len())
            == Ok::<_, Fsb5Error>(
            (raw_models(raws), (before.len() + samples_bytes(raws).len()) as int),
        ),
    decreases raws.len(),
{
    let s = before + samples_bytes(raws) + behind;
    if raws.len() == 0 {
        assert(raw_models(raws) =~= Seq::empty());
    } else {
        let init = raws.drop_last();
        let last = raws.last();
        let b = sample_header_bytes(last);
        assert forall|i: int| 0 <= i < init.len() implies raw_ok(#[trigger] init[i]) by {
            assert(init[i] == raws[i]);
        }
        law_samples_read_back(before, init, b + behind);
        assert(s =~= before + samples_bytes(init) + (b + behind));
        lemma_sample_header(before + samples_bytes(init), last, behind, (raws.len() - 1) as u32);
        assert(s =~= (before + samples_bytes(init)) + b + behind);
        assert(raw_models(raws) =~= raw_models(init).push(raw_model(last)));
    }
}

/// Names in bytes, each with a zero behind it.
pub open spec fn strings_bytes(names: Seq<Seq<u8>>) -> Seq<u8>
    decreases names.len(),
{
    if names.len() == 0 {
        Seq::empty()
    } else {
        strings_bytes(names.drop_last()) + names.last() + seq![0u8]
    }
}

/// Where the `i`-th name begins in a name table.
pub open spec fn name_offset(names: Seq<Seq<u8>>, i: int) -> int {
    (4 * names.len() + strings_bytes(names.take(i)).len()) as int
}

/// The offsets of the names in bytes.
pub open spec fn offsets_bytes(names: Seq<Seq<u8>>) -> Seq<u8> {
    Seq::new(
        4 * names.len(),
        |k: int| u32_bytes(name_offset(names, k / 4) as u32)[k % 4],
    )
}

/// A name table in bytes: the offsets of the names, then the names.
pub open spec fn table_bytes(names: Seq<Seq<u8>>) -> Seq<u8> {
    offsets_bytes(names) + strings_bytes(names)
}

/// No name has a zero in it, and the table has a size of 32 bits.
pub open spec fn names_ok(names: Seq<Seq<u8>>) -> bool {
    &&& table_bytes(names).len() <= u32::MAX
    &&& forall|i: int, k: int|
        0 <= i < names.len() && 0 <= k < names[i].len() ==> #[trigger] names[i][k] != 0
}

/// The names of the samples that a table stands for.
pub open spec fn table_models(names: Seq<Seq<u8>>) -> Seq<NameModel> {
    Seq::new(
        names.len(),
        |i: int| NameModel { index: i as u32, name: text_of(names[i]) },
    )
}

/// The `i`-th name stands at its place among the names.
proof fn lemma_string_place(names: Seq<Seq<u8>>, i: int)
    requires
        0 <= i < names.len(),
    ensures
        ({
            let at = strings_bytes(names.take(i)).len() as int;
            let n = names[i].len() as int;
            &&& at + n + 1 <= strings_bytes(names).len()
            &&& strings_bytes(names).subrange(at, at + n) == names[i]
            &&& strings_bytes(names)[at + n] == 0
        }),
    decreases names.len(),
{
    let init = names.drop_last();
    let at = strings_bytes(names.take(i)).len() as int;
    let n = names[i].len() as int;
    if i == names.len() - 1 {
        assert(names.take(i) =~= init);
        assert(strings_bytes(names).subrange(at, at + n) =~= names[i]);
    } else {
        lemma_string_place(init, i);
        assert(init.take(i) =~= names.take(i));
        assert(strings_bytes(names).subrange(at, at + n) =~= strings_bytes(init).subrange(
            at,
            at + n,
        ));
    }
}

/// The first zero behind a run without zeros.
proof fn lemma_zero_after(s: Seq<u8>, at: int, end: int)
    requires
        0 <= at <= end < s.len(),
        s[end] == 0,
        forall|k: int| at <= k < end ==> #[trigger] s[k] != 0,
    ensures
        zero_from(s, at) == end,
    decreases end - at,
{
    if at < end {
        lemma_zero_after(s, at + 1, end);
    }
}

/// The name of a sample is found at its offset in the table.
proof fn lemma_name_in_table(names: Seq<Seq<u8>>, i: int)
    requires
        names_ok(names),
        0 <= i < names.len(),
    ensures
        0 <= name_offset(names, i) <= u32::MAX,
        name_of(table_bytes(names), name_offset(names, i), i) == text_of(names[i]),
{
    let table = table_bytes(names);
    let at = name_offset(names, i);
    let place = strings_bytes(names.take(i)).len() as int;
    let n = names[i].len() as int;
    lemma_string_place(names, i);
    assert(table.subrange(at, at + n) =~= strings_bytes(names).subrange(place, place + n));
    assert(table[at + n] == strings_bytes(names)[place + n]);
    assert forall|k: int| at <= k < at + n implies #[trigger] table[k] != 0 by {
        assert(table.subrange(at, at + n)[k - at] == names[i][k - at]);
    }
    lemma_zero_after(table, at, at + n);
}

/// The names of the samples are read from a name table as they are, whatever stands
/// before and behind it.
pub proof fn law_names_read_back(before: Seq<u8>, names: Seq<Seq<u8>>, behind: Seq<u8>)
    requires
        names_ok(names),
    ensures
        names_of(
            before + table_bytes(names) + behind,
            before.len() as int,
            table_bytes(names).len() as u32,
            names.len() as u32,
        ) == Ok::<_, Fsb5Error>(table_models(names)),
{
    let s = before + table_bytes(names) + behind;
    let start = before.len() as int;
    let size = table_bytes(names).len() as u32;
    let n = names.len() as u32;
    assert(names.len() <= u32::MAX);
    if names.len() == 0 {
        assert(table_models(names) =~= Seq::empty());
    } else {
        let table = s.subrange(start, start + size);
        assert(table =~= table_bytes(names));
        let read = names_of(s, start, size, n)->Ok_0;
        assert forall|i: int| 0 <= i < n implies #[trigger] read[i] == table_models(names)[i] by {
            let at = start + 4 * i;
            assert(s.subrange(at, at + 4) =~= u32_bytes(name_offset(names, i) as u32)) by {
                assert forall|j: int| 0 <= j < 4 implies #[trigger] s.subrange(at, at + 4)[j] == u32_bytes(
                    name_offset(names, i) as u32,
                )[j] by {
                    assert((4 * i + j) / 4 == i);
                    assert((4 * i + j) % 4 == j);
                    assert(s[at + j] == offsets_bytes(names)[4 * i + j]);
                }
            }
            lemma_u32_bytes(s, at, name_offset(names, i) as u32);
            lemma_name_in_table(names, i);
        }
        assert(read =~= table_models(names));
    }
}

/// The header of a sample bank in bytes. `reserved` is a word that is not read.
#[verifier::opaque]
pub open spec fn header_bytes(h: Fsb5Header, codec_id: u32, reserved: u32) -> Seq<u8> {
    FSB5_MAGIC@ + u32_bytes(h.version) + u32_bytes(h.num_samples) + u32_bytes(h.sample_header_size)
        + u32_bytes(h.name_table_size) + u32_bytes(h.data_size) + u32_bytes(codec_id) + u32_bytes(
        reserved,
    ) + (if h.version == 1 {
        u32_bytes(h.flags)
    } else {
        Seq::empty()
    }) + h.hash@ + h.unknown@
}

/// Sixteen bytes read as they are.
proof fn lemma_bytes16(s: Seq<u8>, at: int, b: [u8; 16])
    requires
        0 <= at,
        at + 16 <= s.len(),
        s.subrange(at, at + 16) == b@,
    ensures
        bytes16_at(s, at) == b,
{
    let here = s.subrange(at, at + 16);
    assert forall|k: int| 0 <= k < 16 implies bytes16_at(s, at)@[k] == #[trigger] b@[k] by {
        assert(here[k] == s[at + k]);
    }
    assert(bytes16_at(s, at)@ =~= b@);
    assert(bytes16_at(s, at) =~= b);
}

/// Eight bytes read as they are.
proof fn lemma_bytes8(s: Seq<u8>, at: int, b: [u8; 8])
    requires
        0 <= at,
        at + 8 <= s.len(),
        s.subrange(at, at + 8) == b@,
    ensures
        bytes8_at(s, at) == b,
{
    let here = s.subrange(at, at + 8);
    assert forall|k: int| 0 <= k < 8 implies bytes8_at(s, at)@[k] == #[trigger] b@[k] by {
        assert(here[k] == s[at + k]);
    }
    assert(bytes8_at(s, at)@ =~= b@);
    assert(bytes8_at(s, at) =~= b);
}

/// The codec of a header is that of its number, and only version 1 has flags.
pub open spec fn header_ok(h: Fsb5Header, codec_id: u32) -> bool {
    &&& h.codec == codec_of(codec_id)
    &&& h.version == 1 || h.flags == 0
}

/// The header of a sample bank is read as it is, where enough bytes follow it.
pub proof fn law_header_reads_back(h: Fsb5Header, codec_id: u32, reserved: u32, behind: Seq<u8>)
    requires
        header_ok(h, codec_id),
        header_bytes(h, codec_id, reserved).len() + behind.len() >= header_size(h.version),
    ensures
        header_of(header_bytes(h, codec_id, reserved) + behind) == Ok::<_, Fsb5Error>(h),
        header_bytes(h, codec_id, reserved).len() == fields_end(h.version),
{
    reveal(header_bytes);
    let s = header_bytes(h, codec_id, reserved) + behind;
    let end = fields_end(h.version);
    assert(s.subrange(0, 4) =~= FSB5_MAGIC@);
    assert(s.subrange(4, 8) =~= u32_bytes(h.version));
    assert(s.subrange(8, 12) =~= u32_bytes(h.num_samples));
    assert(s.subrange(12, 16) =~= u32_bytes(h.sample_header_size));
    assert(s.subrange(16, 20) =~= u32_bytes(h.name_table_size));
    assert(s.subrange(20, 24) =~= u32_bytes(h.data_size));
    assert(s.subrange(24, 28) =~= u32_bytes(codec_id));
    lemma_tag(s, 0, FSB5_MAGIC);
    lemma_u32_bytes(s, 4, h.version);
    lemma_u32_bytes(s, 8, h.num_samples);
    lemma_u32_bytes(s, 12, h.sample_header_size);
    lemma_u32_bytes(s, 16, h.name_table_size);
    lemma_u32_bytes(s, 20, h.data_size);
    lemma_u32_bytes(s, 24, codec_id);
    if h.version == 1 {
        assert(s.subrange(32, 36) =~= u32_bytes(h.flags));
        lemma_u32_bytes(s, 32, h.flags);
    }
    assert(s.subrange(end - 24, end - 24 + 16) =~= h.hash@);
    assert(s.subrange(end - 8, end - 8 + 8) =~= h.unknown@);
    lemma_bytes16(s, end - 24, h.hash);
    lemma_bytes8(s, end - 8, h.unknown);
    assert(header_at(s) == h);
}

/// A sample bank in bytes: header, sample headers, name table, a gap that fills the
/// header up to its nominal size, and the data.
#[verifier::opaque]
pub open spec fn bank_bytes(
    h: Fsb5Header,
    codec_id: u32,
    reserved: u32,
    raws: Seq<RawSample>,
    names: Seq<Seq<u8>>,
    gap: Seq<u8>,
    data: Seq<u8>,
) -> Seq<u8> {
    header_bytes(h, codec_id, reserved) + samples_bytes(raws) + table_bytes(names) + gap + data
}

/// Five runs of bytes in a row, taken apart in the ways in which they are read.
proof fn lemma_joined(a: Seq<u8>, b: Seq<u8>, c: Seq<u8>, d: Seq<u8>, e: Seq<u8>)
    ensures
        a + b + c + d + e == a + (b + c + d + e),
        a + b + c + d + e == a + b + (c + d + e),
        a + b + c + d + e == (a + b) + c + (d + e),
        (a + b + c + d + e).len() == a.len() + b.len() + c.len() + d.len() + e.len(),
        (a + b + c + d + e).subrange(
            (a.len() + b.len() + c.len() + d.len()) as int,
            (a + b + c + d + e).len() as int,
        ) == e,
{
    let s = a + b + c + d + e;
    assert(s =~= a + (b + c + d + e));
    assert(s =~= a + b + (c + d + e));
    assert(s =~= (a + b) + c + (d + e));
    assert(s.subrange((a.len() + b.len() + c.len() + d.len()) as int, s.len() as int) =~= e);
}

/// The fields of a header end where its version says.
pub(crate) proof fn lemma_header_len(h: Fsb5Header, codec_id: u32, reserved: u32)
    ensures
        header_bytes(h, codec_id, reserved).len() == fields_end(h.version),
{
    reveal(header_bytes);
}

/// The data of a bank whose tables end where its header says are what follows them.
proof fn lemma_data(s: Seq<u8>, h: Fsb5Header, start: int, data: Seq<u8>)
    requires
        start == header_size(h.version) + h.sample_header_size + h.name_table_size,
        start <= u32::MAX,
        s.len() == start + data.len(),
        s.subrange(start, s.len() as int) == data,
    ensures
        data_of(s, h) == data,
{
    assert(data.len() == 0 ==> data =~= Seq::empty());
}

/// A sample bank is read as what it was made of: its header, its samples with their
/// extra data, their names and the data.
pub proof fn law_bank_reads_back(
    h: Fsb5Header,
    codec_id: u32,
    reserved: u32,
    raws: Seq<RawSample>,
    names: Seq<Seq<u8>>,
    gap: Seq<u8>,
    data: Seq<u8>,
)
    requires
        header_ok(h, codec_id),
        raws_ok(raws),
        names_ok(names),
        names.len() == raws.len() || names.len() == 0,
        gap.len() == header_size(h.version) - fields_end(h.version),
        h.num_samples == raws.len(),
        h.sample_header_size == samples_bytes(raws).len(),
        h.name_table_size == table_bytes(names).len(),
        header_size(h.version) + h.sample_header_size + h.name_table_size <= u32::MAX,
    ensures
        fsb5_of(bank_bytes(h, codec_id, reserved, raws, names, gap, data)) == Ok::<_, Fsb5Error>(
            Fsb5Model {
                header: h,
                samples: raw_models(raws),
                names: table_models(names),
                data,
            },
        ),
{
    reveal(bank_bytes);
    let head = header_bytes(h, codec_id, reserved);
    let samples = samples_bytes(raws);
    let table = table_bytes(names);
    let s = bank_bytes(h, codec_id, reserved, raws, names, gap, data);
    lemma_joined(head, samples, table, gap, data);
    lemma_header_len(h, codec_id, reserved);
    law_header_reads_back(h, codec_id, reserved, samples + table + gap + data);
    law_samples_read_back(head, raws, table + gap + data);
    law_names_read_back(head + samples, names, gap + data);
    let end = (head.len() + samples.len()) as int;
    assert((head + samples).len() == end);
    assert(names_of(s, end, h.name_table_size, h.num_samples) == Ok::<_, Fsb5Error>(
        table_models(names),
    ));
    lemma_data(s, h, end + table.len() + gap.len(), data);
}

/// A bank file gives back the sample bank that it was made of, where that stands in the
/// first chunk that is or holds one: a chunk tagged `FSB5`, or one within a list.
pub proof fn law_bank_file_reads_back(
    size: u32,
    chunks: Seq<ChunkModel>,
    tail: Seq<u8>,
    i: int,
    fsb5_data: Seq<u8>,
    fsb5: Fsb5Model,
)
    requires
        sized(chunks),
        tail.len() < 8,
        size + 8 <= riff_bytes(size, chunks, tail).len(),
        0 <= i < chunks.len(),
        fsb5_in_chunk(chunks[i]) == Some(fsb5_data),
        forall|k: int| 0 <= k < i ==> fsb5_in_chunk(#[trigger] chunks[k]) is None,
        fsb5_of(fsb5_data) == Ok::<_, Fsb5Error>(fsb5),
    ensures
        bank_of(riff_bytes(size, chunks, tail)) == Ok::<_, BankError>(
            BankModel { format: FEV_FORMAT, fsb5_data, fsb5 },
        ),
{
    law_riff_reads_back(size, chunks, tail);
    law_first_chunk_wins(riff_bytes(size, chunks, tail), chunks, i);
}

/// A signed 16-bit number in two's complement.
pub open spec fn unsigned16(v: i16) -> u16 {
    if v >= 0 {
        v as u16
    } else {
        (v + 0x1_0000) as u16
    }
}

/// Samples of PCM16 in bytes, the low byte of each first.
pub open spec fn pcm16_bytes(samples: Seq<i16>) -> Seq<u8> {
    Seq::new(
        2 * samples.len(),
        |k: int|
            if k % 2 == 0 {
                (unsigned16(samples[k / 2]) % 0x100) as u8
            } else {
                (unsigned16(samples[k / 2]) / 0x100) as u8
            },
    )
}

/// Samples of PCMFLOAT in bytes, the lowest byte of each bit pattern first.
pub open spec fn pcm_float_bytes(samples: Seq<u32>) -> Seq<u8> {
    Seq::new(4 * samples.len(), |k: int| u32_bytes(samples[k / 4])[k % 4])
}

/// Samples in bytes are decoded to the samples that they were made of, the floating ones
/// clamped, where they split into whole frames.
pub proof fn law_pcm_reads_back(
    bytes: Seq<u8>,
    words: Seq<i16>,
    floats: Seq<u32>,
    channels: u16,
)
    requires
        channels > 0,
        bytes.len() as int % channels as int == 0,
        words.len() as int % channels as int == 0,
        floats.len() as int % channels as int == 0,
    ensures
        samples_of(CODEC_PCM8, bytes, channels) == Ok::<_, DecodeError>(SamplesModel::Pcm8(bytes)),
        samples_of(CODEC_PCM16, pcm16_bytes(words), channels) == Ok::<_, DecodeError>(
            SamplesModel::Pcm16(words),
        ),
        samples_of(CODEC_PCMFLOAT, pcm_float_bytes(floats), channels) == Ok::<_, DecodeError>(
            SamplesModel::PcmFloat(Seq::new(floats.len(), |i: int| clamped(floats[i]))),
        ),
{
    let data = pcm16_bytes(words);
    assert forall|i: int| 0 <= i < words.len() implies signed16(#[trigger] le_u16(data, 2 * i))
        == words[i] by {
        reveal(le_u16);
        assert((2 * i) / 2 == i && (2 * i + 1) / 2 == i);
    }
    assert(Seq::new(data.len() / 2, |i: int| signed16(le_u16(data, 2 * i))) =~= words);
    let data = pcm_float_bytes(floats);
    assert forall|i: int| 0 <= i < floats.len() implies #[trigger] le_u32(data, 4 * i)
        == floats[i] by {
        assert(data.subrange(4 * i, 4 * i + 4) =~= u32_bytes(floats[i]));
        lemma_u32_bytes(data, 4 * i, floats[i]);
    }
    assert(Seq::new(data.len() / 4, |i: int| clamped(le_u32(data, 4 * i))) =~= Seq::new(
        floats.len(),
        |i: int| clamped(floats[i]),
    ));
}

/// Samples of PCM16 are decoded to as many samples, whatever the number of channels. Before
/// rounding, their amplitudes are not clamped: they lie from -1 to 1 but for that of the
/// lowest sample, which lies below -1. They rise with the samples, and opposite samples have
/// opposite ones.
pub proof fn law_pcm16_amplitudes(words: Seq<i16>, channels: u16, i: int, j: int)
    requires
        channels > 0,
        words.len() as int % channels as int == 0,
        0 <= i < words.len(),
        0 <= j < words.len(),
    ensures
        samples_of(CODEC_PCM16, pcm16_bytes(words), channels) matches Ok(SamplesModel::Pcm16(v))
            && {
            &&& v.len() == words.len()
            &&& pcm16_amplitude(v[i]) <= 32767
            &&& pcm16_amplitude(v[i]) < -32767 <==> words[i] == -32768
            &&& pcm16_amplitude(v[i]) < pcm16_amplitude(v[j]) <==> words[i] < words[j]
            &&& words[j] == -words[i] ==> pcm16_amplitude(v[j]) == -pcm16_amplitude(v[i])
        },
{
    law_pcm_reads_back(Seq::empty(), words, Seq::empty(), channels);
}

/// A sample of 16-bit PCM comes out of a bank as it was put in: it is written to the file
/// of its name with its channels and its rate.
pub proof fn law_pcm16_comes_out(bank: Fsb5Model, i: int, words: Seq<i16>)
    requires
        bank.header.codec == Fsb5Codec::Pcm16,
        0 <= i < bank.samples.len(),
        sample_bytes(bank, i) == Ok::<_, Fsb5Error>(pcm16_bytes(words)),
        channel_number(bank.samples[i].channels) > 0,
        words.len() as int % channel_number(bank.samples[i].channels) as int == 0,
    ensures
        step_of(bank, i, None, false) == (StepModel::Write {
            wav: safe(sample_title(bank, i)) + ".wav"@,
            audio: AudioModel {
                samples: SamplesModel::Pcm16(words),
                channels: channel_number(bank.samples[i].channels) as u16,
                sample_rate: bank.samples[i].sample_rate,
            },
        }),
{
    let channels = channel_number(bank.samples[i].channels) as u16;
    law_pcm_reads_back(Seq::empty(), words, Seq::empty(), channels);
    law_pcm_is_written(
        bank,
        i,
        pcm16_bytes(words),
        AudioModel {
            samples: SamplesModel::Pcm16(words),
            channels,
            sample_rate: bank.samples[i].sample_rate,
        },
    );
}

} // verus!
