//! What opening a bank file gives back of the sample bank that was put into it.

use vstd::prelude::*;
use vstd::utf8::{encode_utf8, encode_utf8_decode_utf8, encode_utf8_valid_utf8};

use crate::bank_laws::{law_header, law_text, rate_named};
use crate::encoding::{
    bank_bytes, header_bytes, header_ok, law_bank_reads_back, law_header_reads_back,
    law_riff_reads_back, lemma_header_len, names_ok, raw_models, raw_ok, raws_ok, riff_bytes,
    samples_bytes, sized, table_bytes, table_models, RawSample,
};
use crate::extract::{bank_of, law_no_filter_lists_all, listing, BankError, BankModel};
use crate::fsb5::{
    channel_number, data_start, fsb5_of, header_of, law_appended_bytes_extend, sample_bytes,
    sample_title, Fsb5Error, Fsb5Header, Fsb5Model,
};
use crate::reading_laws::{
    all_bankless, law_bank_by_magic, law_no_bank, magic_first_at, tagged, word,
};
use crate::riff::{fsb5_bytes, riff_of, ChunkModel, RiffError, RiffModel};

verus! {

/// Opening a file is reading the container, finding the sample bank in its chunks and else
/// in the bytes of the file, and reading that; the first of these that fails is the error.
pub proof fn law_opening(s: Seq<u8>)
    ensures
        riff_of(s) matches Err(e) ==> bank_of(s) == Err::<BankModel, _>(BankError::Container(e)),
        riff_of(s) matches Ok(riff) ==> {
            &&& fsb5_bytes(s, riff.chunks) is None ==> bank_of(s) == Err::<BankModel, _>(
                BankError::Search(RiffError::NoFsb5),
            )
            &&& fsb5_bytes(s, riff.chunks) matches Some(d) ==> match fsb5_of(d) {
                Err(e) => bank_of(s) == Err::<BankModel, _>(BankError::SampleBank(e)),
                Ok(fsb5) => bank_of(s) == Ok::<_, BankError>(
                    BankModel { format: riff.format, fsb5_data: d, fsb5 },
                ),
            }
        },
{
}

/// A file whose sample bank stands in no chunk of its own tag is opened all the same: the
/// bank is the piece of the file from the first `FSB5` on.
pub proof fn law_hidden_bank_is_opened(
    s: Seq<u8>,
    riff: RiffModel,
    o: int,
    end: int,
    fsb5: Fsb5Model,
)
    requires
        riff_of(s) == Ok::<_, RiffError>(riff),
        all_bankless(riff.chunks),
        magic_first_at(s, o),
        o + 0x40 <= s.len(),
        0x40 + word(s, o + 12) + word(s, o + 16) + word(s, o + 20) <= 0xFFFF_FFFF,
        ({
            let total = 0x40 + word(s, o + 12) + word(s, o + 16) + word(s, o + 20);
            end == (if o + total <= s.len() {
                o + total
            } else {
                s.len() as int
            })
        }),
        fsb5_of(s.subrange(o, end)) == Ok::<_, Fsb5Error>(fsb5),
    ensures
        bank_of(s) == Ok::<_, BankError>(
            BankModel { format: riff.format, fsb5_data: s.subrange(o, end), fsb5 },
        ),
{
    law_bank_by_magic(s, riff.chunks, o);
}

/// A file in which nothing looks like a sample bank is refused for that.
pub proof fn law_bankless_file_is_refused(s: Seq<u8>, riff: RiffModel)
    requires
        riff_of(s) == Ok::<_, RiffError>(riff),
        all_bankless(riff.chunks),
        forall|o: int| !#[trigger] magic_first_at(s, o),
    ensures
        bank_of(s) == Err::<BankModel, _>(BankError::Search(RiffError::NoFsb5)),
{
    law_no_bank(s, riff.chunks);
}

/// The parts of a sample bank fit together: the sizes in its header are those of its
/// tables and its data, and all of it has a size of 32 bits.
pub open spec fn bank_fits(
    h: Fsb5Header,
    codec_id: u32,
    raws: Seq<RawSample>,
    names: Seq<Seq<u8>>,
    gap: Seq<u8>,
    data: Seq<u8>,
) -> bool {
    &&& header_ok(h, codec_id)
    &&& raws_ok(raws)
    &&& names_ok(names)
    &&& names.len() == raws.len() || names.len() == 0
    &&& gap.len() == (if h.version == 1 {
        0int
    } else {
        8
    })
    &&& h.num_samples == raws.len()
    &&& h.sample_header_size == samples_bytes(raws).len()
    &&& h.name_table_size == table_bytes(names).len()
    &&& h.data_size == data.len()
    &&& 0x40 + h.sample_header_size + h.name_table_size + h.data_size <= 0xFFFF_FFFF
}

/// The beginning of a sample bank in bytes: magic and sizes.
proof fn lemma_bank_words(
    h: Fsb5Header,
    codec_id: u32,
    reserved: u32,
    raws: Seq<RawSample>,
    names: Seq<Seq<u8>>,
    gap: Seq<u8>,
    data: Seq<u8>,
)
    requires
        bank_fits(h, codec_id, raws, names, gap, data),
    ensures
        ({
            let bank = bank_bytes(h, codec_id, reserved, raws, names, gap, data);
            &&& bank.len() == (if h.version == 1 {
                0x3Cint
            } else {
                0x40
            }) + h.sample_header_size + h.name_table_size + h.data_size
            &&& tagged(bank, 0, 0x46, 0x53, 0x42, 0x35)
            &&& word(bank, 12) == h.sample_header_size
            &&& word(bank, 16) == h.name_table_size
            &&& word(bank, 20) == h.data_size
        }),
{
    let head = header_bytes(h, codec_id, reserved);
    let rest = samples_bytes(raws) + table_bytes(names) + gap + data;
    lemma_header_len(h, codec_id, reserved);
    lemma_five(head, samples_bytes(raws), table_bytes(names), gap, data);
    assert(bank_bytes(h, codec_id, reserved, raws, names, gap, data) == head + rest) by {
        reveal(bank_bytes);
    }
    assert(head.len() + rest.len() == (if h.version == 1 {
        0x3Cint
    } else {
        0x40
    }) + h.sample_header_size + h.name_table_size + h.data_size);
    law_header_reads_back(h, codec_id, reserved, rest);
    lemma_header_words(bank_bytes(h, codec_id, reserved, raws, names, gap, data), h);
}

/// Where a header is read, magic and sizes stand in its words.
proof fn lemma_header_words(s: Seq<u8>, h: Fsb5Header)
    requires
        header_of(s) == Ok::<_, Fsb5Error>(h),
    ensures
        tagged(s, 0, 0x46, 0x53, 0x42, 0x35),
        word(s, 12) == h.sample_header_size,
        word(s, 16) == h.name_table_size,
        word(s, 20) == h.data_size,
{
    law_header(s);
}

/// Five runs of bytes in a row.
proof fn lemma_five(a: Seq<u8>, b: Seq<u8>, c: Seq<u8>, d: Seq<u8>, e: Seq<u8>)
    ensures
        a + b + c + d + e == a + (b + c + d + e),
        (a + b + c + d + e).len() == a.len() + b.len() + c.len() + d.len() + e.len(),
{
    assert(a + b + c + d + e =~= a + (b + c + d + e));
}

/// What stands in a run of bytes stands in the file around it.
proof fn lemma_inside(before: Seq<u8>, bank: Seq<u8>, behind: Seq<u8>)
    requires
        bank.len() >= 24,
    ensures
        ({
            let s = before + bank + behind;
            let o = before.len() as int;
            &&& tagged(s, o, bank[0], bank[1], bank[2], bank[3])
            &&& word(s, o + 12) == word(bank, 12)
            &&& word(s, o + 16) == word(bank, 16)
            &&& word(s, o + 20) == word(bank, 20)
            &&& s.subrange(o, o + bank.len()) == bank
        }),
{
    let s = before + bank + behind;
    let o = before.len() as int;
    assert(s.subrange(o, o + bank.len()) =~= bank);
}

/// A piece of a file that begins where a run of bytes does and is no shorter begins with it.
proof fn lemma_begins(s: Seq<u8>, o: int, bank: Seq<u8>, d: Seq<u8>)
    requires
        0 <= o,
        o + bank.len() <= o + d.len() <= s.len(),
        s.subrange(o, o + bank.len()) == bank,
        d == s.subrange(o, o + d.len()),
    ensures
        d.take(bank.len() as int) == bank,
        d == bank + d.skip(bank.len() as int),
{
    assert forall|k: int| 0 <= k < bank.len() implies #[trigger] d[k] == bank[k] by {
        assert(s.subrange(o, o + bank.len())[k] == s[o + k]);
    }
    assert(d.take(bank.len() as int) =~= bank);
    assert(d =~= bank + d.skip(bank.len() as int));
}

/// A run of bytes that looks like a sample bank of its own length is found in a file, and
/// what is found begins with it.
proof fn lemma_found(before: Seq<u8>, bank: Seq<u8>, behind: Seq<u8>, chunks: Seq<ChunkModel>)
    requires
        all_bankless(chunks),
        bank.len() >= 24,
        tagged(bank, 0, 0x46, 0x53, 0x42, 0x35),
        bank.len() <= 0x40 + word(bank, 12) + word(bank, 16) + word(bank, 20) <= 0xFFFF_FFFF,
        forall|k: int|
            0 <= k < before.len() ==> !#[trigger] tagged(
                before + bank + behind,
                k,
                0x46,
                0x53,
                0x42,
                0x35,
            ),
        0x40 <= bank.len() + behind.len(),
    ensures
        fsb5_bytes(before + bank + behind, chunks) matches Some(d) && d.len() >= bank.len() && d.take(
            bank.len() as int,
        ) == bank && d == bank + d.skip(bank.len() as int),
{
    let s = before + bank + behind;
    let o = before.len() as int;
    lemma_inside(before, bank, behind);
    assert(magic_first_at(s, o));
    law_bank_by_magic(s, chunks, o);
    lemma_begins(s, o, bank, fsb5_bytes(s, chunks)->Some_0);
}

/// A sample bank with bytes behind it is read as it is, the bytes behind its data.
proof fn lemma_extended(bank: Seq<u8>, extra: Seq<u8>, inner: Fsb5Model)
    requires
        fsb5_of(bank) == Ok::<_, Fsb5Error>(inner),
        data_start(inner.header) <= bank.len(),
    ensures
        fsb5_of(bank + extra) matches Ok(outer) && {
            &&& outer.header == inner.header
            &&& outer.samples == inner.samples
            &&& outer.names == inner.names
            &&& outer.data.len() >= inner.data.len()
            &&& outer.data.take(inner.data.len() as int) == inner.data
        },
{
    law_appended_bytes_extend(bank, extra, inner);
    assert((inner.data + extra).take(inner.data.len() as int) =~= inner.data);
}

/// A sample bank that stands anywhere in a file, in no chunk of its own tag, comes out
/// whole: what is found begins with its bytes, all of its data included, and the opened
/// bank has its header, its samples, its names and, at their beginning, its data.
pub proof fn law_bank_comes_out_whole(
    s: Seq<u8>,
    riff: RiffModel,
    before: Seq<u8>,
    h: Fsb5Header,
    codec_id: u32,
    reserved: u32,
    raws: Seq<RawSample>,
    names: Seq<Seq<u8>>,
    gap: Seq<u8>,
    data: Seq<u8>,
    behind: Seq<u8>,
)
    requires
        riff_of(s) == Ok::<_, RiffError>(riff),
        all_bankless(riff.chunks),
        bank_fits(h, codec_id, raws, names, gap, data),
        s == before + bank_bytes(h, codec_id, reserved, raws, names, gap, data) + behind,
        forall|k: int|
            0 <= k < before.len() ==> !#[trigger] tagged(s, k, 0x46, 0x53, 0x42, 0x35),
        before.len() + 0x40 <= s.len(),
    ensures
        ({
            let bank = bank_bytes(h, codec_id, reserved, raws, names, gap, data);
            bank_of(s) matches Ok(opened) && {
                &&& opened.fsb5_data.len() >= bank.len()
                &&& opened.fsb5_data.take(bank.len() as int) == bank
                &&& opened.fsb5.header == h
                &&& opened.fsb5.samples == raw_models(raws)
                &&& opened.fsb5.names == table_models(names)
                &&& opened.fsb5.data.len() >= data.len()
                &&& opened.fsb5.data.take(data.len() as int) == data
            }
        }),
{
    let bank = bank_bytes(h, codec_id, reserved, raws, names, gap, data);
    lemma_bank_words(h, codec_id, reserved, raws, names, gap, data);
    lemma_found(before, bank, behind, riff.chunks);
    let d = fsb5_bytes(s, riff.chunks)->Some_0;
    law_bank_reads_back(h, codec_id, reserved, raws, names, gap, data);
    lemma_extended(bank, d.skip(bank.len() as int), fsb5_of(bank)->Ok_0);
}

/// The same of a file that is made of chunks.
pub proof fn law_hidden_bank_comes_out_of_chunks(
    size: u32,
    chunks: Seq<ChunkModel>,
    tail: Seq<u8>,
    before: Seq<u8>,
    h: Fsb5Header,
    codec_id: u32,
    reserved: u32,
    raws: Seq<RawSample>,
    names: Seq<Seq<u8>>,
    gap: Seq<u8>,
    data: Seq<u8>,
    behind: Seq<u8>,
)
    requires
        sized(chunks),
        tail.len() < 8,
        size + 8 <= riff_bytes(size, chunks, tail).len(),
        all_bankless(chunks),
        bank_fits(h, codec_id, raws, names, gap, data),
        riff_bytes(size, chunks, tail) == before + bank_bytes(
            h,
            codec_id,
            reserved,
            raws,
            names,
            gap,
            data,
        ) + behind,
        forall|k: int|
            0 <= k < before.len() ==> !#[trigger] tagged(
                riff_bytes(size, chunks, tail),
                k,
                0x46,
                0x53,
                0x42,
                0x35,
            ),
        before.len() + 0x40 <= riff_bytes(size, chunks, tail).len(),
    ensures
        bank_of(riff_bytes(size, chunks, tail)) matches Ok(opened) && {
            &&& opened.fsb5.header == h
            &&& opened.fsb5.samples == raw_models(raws)
            &&& opened.fsb5.names == table_models(names)
            &&& opened.fsb5.data.len() >= data.len()
            &&& opened.fsb5.data.take(data.len() as int) == data
        },
{
    let s = riff_bytes(size, chunks, tail);
    law_riff_reads_back(size, chunks, tail);
    law_bank_comes_out_whole(
        s,
        riff_of(s)->Ok_0,
        before,
        h,
        codec_id,
        reserved,
        raws,
        names,
        gap,
        data,
        behind,
    );
}

/// A bank whose parts fit together gives back, for each sample, the number of frames, the
/// offset, the layout and the rate that were put in, and the name as text.
pub proof fn law_samples_come_out(
    h: Fsb5Header,
    codec_id: u32,
    reserved: u32,
    raws: Seq<RawSample>,
    titles: Seq<Seq<char>>,
    gap: Seq<u8>,
    data: Seq<u8>,
    i: int,
)
    requires
        ({
            let names = Seq::new(titles.len(), |k: int| encode_utf8(titles[k]));
            bank_fits(h, codec_id, raws, names, gap, data)
        }),
        titles.len() == raws.len(),
        0 <= i < raws.len(),
    ensures
        ({
            let names = Seq::new(titles.len(), |k: int| encode_utf8(titles[k]));
            fsb5_of(bank_bytes(h, codec_id, reserved, raws, names, gap, data)) matches Ok(bank) && {
                &&& bank.samples.len() == raws.len()
                &&& bank.samples[i].num_samples == raws[i].frames
                &&& bank.samples[i].data_offset == 32 * raws[i].offset_units
                &&& channel_number(bank.samples[i].channels) == (if raws[i].layout == 0 {
                    1int
                } else if raws[i].layout == 1 {
                    2
                } else if raws[i].layout == 2 {
                    6
                } else {
                    8
                })
                &&& bank.samples[i].sample_rate == rate_named(raws[i].rate_index as int)
                &&& bank.samples[i].extra_data == raws[i].extras
                &&& sample_title(bank, i) == titles[i]
                &&& 32 * raws[i].offset_units < data.len() ==> sample_bytes(bank, i) == Ok::<
                    _,
                    Fsb5Error,
                >(data.skip(32 * raws[i].offset_units))
                &&& listing(bank, None, raws.len() as int).len() == raws.len()
                &&& listing(bank, None, raws.len() as int)[i].num_samples == raws[i].frames
                &&& listing(bank, None, raws.len() as int)[i].sample_rate == rate_named(
                    raws[i].rate_index as int,
                )
                &&& listing(bank, None, raws.len() as int)[i].name == titles[i]
            }
        }),
{
    let names = Seq::new(titles.len(), |k: int| encode_utf8(titles[k]));
    law_bank_reads_back(h, codec_id, reserved, raws, names, gap, data);
    let bank = fsb5_of(bank_bytes(h, codec_id, reserved, raws, names, gap, data))->Ok_0;
    assert(raw_ok(raws[i]));
    assert(names[i] == encode_utf8(titles[i]));
    encode_utf8_valid_utf8(titles[i]);
    encode_utf8_decode_utf8(titles[i]);
    law_text(names[i]);
    law_no_filter_lists_all(bank, raws.len() as int);
    let at = 32 * raws[i].offset_units;
    if at < data.len() {
        assert(bank.data.subrange(at, bank.data.len() as int) =~= data.skip(at));
    }
}

} // verus!
