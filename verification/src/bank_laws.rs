//! What a sample bank holds, told by the bytes that stand in it.

use vstd::prelude::*;
use vstd::utf8::{decode_utf8, valid_utf8};

use crate::bytes::tag_at;
use crate::fsb5::{
    bytes16_at, bytes8_at, channel_number, channels_of, codec_of, extra_of, extras_from,
    fsb5_of, header_of, names_of, sample_at, sample_bytes, sample_title, samples_upto, zero_from,
    ExtraModel, Fsb5Channels, Fsb5Codec, Fsb5Error, Fsb5Header, Fsb5Model, NameModel, SampleModel,
};
use crate::reading_laws::{law_numbers, lemma_tags, long, tagged, word};
use crate::riff::FSB5_MAGIC;
use crate::text::{decimal, lossy_text, text_of};

verus! {

/// The codecs by their numbers.
pub proof fn law_codecs(v: u32)
    ensures
        codec_of(1) == Fsb5Codec::Pcm8,
        codec_of(2) == Fsb5Codec::Pcm16,
        codec_of(5) == Fsb5Codec::PcMFLOAT,
        codec_of(11) == Fsb5Codec::Mpeg,
        codec_of(15) == Fsb5Codec::Vorbis,
        v != 1 && v != 2 && v != 5 && v != 11 && v != 15 ==> codec_of(v) == Fsb5Codec::Unknown(v),
{
}

/// The layouts by their codes, and how many channels they have.
pub proof fn law_layouts(bits: u8)
    ensures
        channels_of(0) == Fsb5Channels::Mono,
        channels_of(1) == Fsb5Channels::Stereo,
        channels_of(2) == Fsb5Channels::Surround5_1,
        channels_of(3) == Fsb5Channels::Surround7_1,
        bits > 3 ==> channels_of(bits) == Fsb5Channels::Unknown(bits),
        channel_number(channels_of(0)) == 1,
        channel_number(channels_of(1)) == 2,
        channel_number(channels_of(2)) == 6,
        channel_number(channels_of(3)) == 8,
        channel_number(Fsb5Channels::Unknown(bits)) == 0,
{
}

/// The rate that an index stands for; 0 where it stands for none.
pub open spec fn rate_named(index: int) -> int {
    if index == 0 {
        4000
    } else if index == 1 {
        8000
    } else if index == 2 {
        11000
    } else if index == 3 {
        11025
    } else if index == 4 {
        16000
    } else if index == 5 {
        22050
    } else if index == 6 {
        24000
    } else if index == 7 {
        32000
    } else if index == 8 {
        44100
    } else if index == 9 {
        48000
    } else if index == 10 {
        96000
    } else {
        0
    }
}

/// The number of bytes that a bank of a version has at least.
pub open spec fn least(version: int) -> int {
    if version == 1 {
        0x3C
    } else {
        0x40
    }
}

/// The header is read where the input is long enough for its version and begins with
/// `FSB5`; else the first of these that fails is the error. Its fields are the words from
/// the fifth byte on; only version 1 has flags; hash and eight more bytes follow.
pub proof fn law_header(s: Seq<u8>)
    ensures
        s.len() < 8 ==> header_of(s) == Err::<Fsb5Header, _>(
            Fsb5Error::TooSmall { len: s.len() as usize },
        ),
        s.len() >= 8 && !tagged(s, 0, 0x46, 0x53, 0x42, 0x35) ==> header_of(s) == Err::<
            Fsb5Header,
            _,
        >(Fsb5Error::BadMagic { found: [s[0], s[1], s[2], s[3]] }),
        s.len() >= 8 && tagged(s, 0, 0x46, 0x53, 0x42, 0x35) && s.len() < least(word(s, 4))
            ==> header_of(s) == Err::<Fsb5Header, _>(
            Fsb5Error::HeaderTooSmall {
                version: word(s, 4) as u32,
                len: s.len() as usize,
                needed: least(word(s, 4)) as u32,
            },
        ),
        s.len() >= 8 && tagged(s, 0, 0x46, 0x53, 0x42, 0x35) && s.len() >= least(word(s, 4)) ==> {
            let tail = if word(s, 4) == 1 {
                36
            } else {
                32int
            };
            header_of(s) matches Ok(h) && {
                &&& h.version == word(s, 4)
                &&& h.num_samples == word(s, 8)
                &&& h.sample_header_size == word(s, 12)
                &&& h.name_table_size == word(s, 16)
                &&& h.data_size == word(s, 20)
                &&& h.codec == codec_of(word(s, 24) as u32)
                &&& h.flags == (if word(s, 4) == 1 {
                    word(s, 32)
                } else {
                    0
                })
                &&& h.hash@ == s.subrange(tail, tail + 16)
                &&& h.unknown@ == s.subrange(tail + 16, tail + 24)
            }
        },
{
    lemma_tags(tag_at(s, 0), FSB5_MAGIC);
    law_numbers(s, 4);
    law_numbers(s, 8);
    law_numbers(s, 12);
    law_numbers(s, 16);
    law_numbers(s, 20);
    law_numbers(s, 24);
    law_numbers(s, 32);
    let tail = if word(s, 4) == 1 {
        36
    } else {
        32int
    };
    if tail + 24 <= s.len() {
        assert(bytes16_at(s, tail)@ =~= s.subrange(tail, tail + 16));
        assert(bytes8_at(s, tail + 16)@ =~= s.subrange(tail + 16, tail + 24));
    }
}

/// A sample bank is its header, as many sample headers as it says from the end of its
/// fields on, the names behind them, and as data all bytes from the place on that lies
/// behind header and tables by the sizes in the header. The first of these that cannot be
/// read is the error.
pub proof fn law_sample_bank(s: Seq<u8>)
    ensures
        match header_of(s) {
            Err(e) => fsb5_of(s) == Err::<Fsb5Model, _>(e),
            Ok(h) => match samples_upto(
                s,
                if word(s, 4) == 1 {
                    0x3C
                } else {
                    0x38
                },
                word(s, 8) as nat,
            ) {
                Err(e) => fsb5_of(s) == Err::<Fsb5Model, _>(e),
                Ok((samples, end)) => match names_of(s, end, word(s, 16) as u32, word(s, 8) as u32) {
                    Err(e) => fsb5_of(s) == Err::<Fsb5Model, _>(e),
                    Ok(names) => fsb5_of(s) matches Ok(bank) && {
                        let sum = least(word(s, 4)) + word(s, 12) + word(s, 16);
                        let start = if sum <= 0xFFFF_FFFF {
                            sum
                        } else {
                            sum % 0x1_0000_0000
                        };
                        &&& bank.header == h
                        &&& bank.samples == samples
                        &&& bank.names == names
                        &&& start < s.len() ==> bank.data == s.subrange(start, s.len() as int)
                        &&& start >= s.len() ==> bank.data.len() == 0
                    },
                },
            },
        },
{
    law_header(s);
}

/// A sample header is a word of 64 bits: a bit that says whether extra data follow, 4 bits
/// for the rate, 2 for the layout, 27 for the offset in units of 32 bytes and 30 for the
/// length. It ends behind the word or behind the extra data.
pub proof fn law_sample_header(s: Seq<u8>, pos: int, index: u32)
    requires
        0 <= pos,
    ensures
        pos + 8 > s.len() ==> sample_at(s, pos, index) == Err::<(SampleModel, int), _>(
            Fsb5Error::SampleHeader { sample: index },
        ),
        pos + 8 <= s.len() && long(s, pos) % 2 == 1 && extras_from(s, pos + 8) is Err
            ==> sample_at(s, pos, index) == Err::<(SampleModel, int), _>(
            extras_from(s, pos + 8)->Err_0,
        ),
        pos + 8 <= s.len() && (long(s, pos) % 2 == 0 || extras_from(s, pos + 8) is Ok) ==> {
            let w = long(s, pos);
            sample_at(s, pos, index) matches Ok((sample, end)) && {
                &&& sample.num_samples == w / 0x4_0000_0000
                &&& sample.data_offset == 32 * ((w / 0x80) % 0x800_0000)
                &&& sample.channels == channels_of(((w / 0x20) % 4) as u8)
                &&& sample.sample_rate == rate_named((w / 2) % 16)
                &&& sample.has_extra_data == (w % 2 == 1)
                &&& w % 2 == 0 ==> sample.extra_data.len() == 0 && end == pos + 8
                &&& w % 2 == 1 ==> extras_from(s, pos + 8) == Ok::<_, Fsb5Error>(
                    (sample.extra_data, end),
                )
            }
        },
{
    law_numbers(s, pos);
}

/// Sample headers follow one another, each where the one before ends; the first that
/// cannot be read is the error.
pub proof fn law_samples_in_order(s: Seq<u8>, start: int, n: nat)
    requires
        n < u32::MAX,
    ensures
        samples_upto(s, start, 0) == Ok::<_, Fsb5Error>((Seq::<SampleModel>::empty(), start)),
        samples_upto(s, start, n) is Err ==> samples_upto(s, start, n + 1) == samples_upto(
            s,
            start,
            n,
        ),
        samples_upto(s, start, n) matches Ok((samples, pos)) ==> match sample_at(s, pos, n as u32) {
            Ok((sample, end)) => samples_upto(s, start, n + 1) == Ok::<_, Fsb5Error>(
                (samples.push(sample), end),
            ),
            Err(e) => samples_upto(s, start, n + 1) == Err::<(Seq<SampleModel>, int), _>(e),
        },
{
    reveal_with_fuel(samples_upto, 2);
}

/// What a chunk of extra data says by its type. A body of a known type that is too short
/// says nothing.
pub proof fn law_extra(kind: u8, body: Seq<u8>)
    ensures
        kind == 1 && body.len() >= 1 ==> extra_of(kind, body) == Some(
            ExtraModel::Channels(body[0]),
        ),
        kind == 2 && body.len() >= 4 ==> extra_of(kind, body) == Some(
            ExtraModel::SampleRate(word(body, 0) as u32),
        ),
        kind == 3 && body.len() >= 8 ==> extra_of(kind, body) == Some(
            ExtraModel::LoopInfo {
                loop_start: word(body, 0) as u32,
                loop_end: word(body, 4) as u32,
            },
        ),
        kind == 11 && body.len() >= 4 ==> extra_of(kind, body) == Some(
            ExtraModel::VorbisSetup { setup_id: word(body, 0) as u32, seek_table: body.skip(4) },
        ),
        kind != 1 && kind != 2 && kind != 3 && kind != 11 ==> extra_of(kind, body) == Some(
            ExtraModel::Unknown { chunk_type: kind, data: body },
        ),
        extra_of(kind, body) is None <==> kind == 1 && body.len() < 1 || kind == 2 && body.len() < 4
            || kind == 3 && body.len() < 8 || kind == 11 && body.len() < 4,
{
    law_numbers(body, 0);
    law_numbers(body, 4);
    if body.len() >= 4 {
        assert(body.subrange(4, body.len() as int) =~= body.skip(4));
    }
}

/// A chunk of extra data has a word of 32 bits before its body: a bit that says whether
/// another follows, 24 bits for the size of the body and 7 for the type. The extra data
/// end behind the first chunk that no other follows.
pub proof fn law_extras(s: Seq<u8>, pos: int)
    requires
        0 <= pos,
    ensures
        pos + 4 > s.len() ==> extras_from(s, pos) == Err::<(Seq<ExtraModel>, int), _>(
            Fsb5Error::ExtraHeader,
        ),
        pos + 4 <= s.len() ==> {
            let w = word(s, pos);
            let size = (w / 2) % 0x100_0000;
            let kind = (w / 0x200_0000) as u8;
            let end = pos + 4 + size;
            &&& end > s.len() ==> extras_from(s, pos) == Err::<(Seq<ExtraModel>, int), _>(
                Fsb5Error::ExtraBody { chunk_type: kind },
            )
            &&& end <= s.len() ==> {
                let said = match extra_of(kind, s.subrange(pos + 4, end)) {
                    Some(x) => seq![x],
                    None => Seq::empty(),
                };
                &&& w % 2 == 0 ==> extras_from(s, pos) == Ok::<_, Fsb5Error>((said, end))
                &&& w % 2 == 1 ==> match extras_from(s, end) {
                    Ok((rest, last)) => extras_from(s, pos) == Ok::<_, Fsb5Error>(
                        (said + rest, last),
                    ),
                    Err(e) => extras_from(s, pos) == Err::<(Seq<ExtraModel>, int), _>(e),
                }
            }
        },
{
    law_numbers(s, pos);
}

/// The place of a zero is that of the first, or the end.
proof fn lemma_zero(s: Seq<u8>, at: int)
    requires
        0 <= at <= s.len(),
    ensures
        at <= zero_from(s, at) <= s.len(),
        zero_from(s, at) == s.len() || s[zero_from(s, at)] == 0,
        forall|k: int| at <= k < zero_from(s, at) ==> #[trigger] s[k] != 0,
    decreases s.len() - at,
{
    if at < s.len() && s[at] != 0 {
        lemma_zero(s, at + 1);
    }
}

/// A name ends at a place of a table: there is the first zero, or the end of the table.
pub open spec fn name_ends(table: Seq<u8>, offset: int, end: int) -> bool {
    &&& offset <= end <= table.len()
    &&& end == table.len() || table[end] == 0
    &&& forall|k: int| offset <= k < end ==> #[trigger] table[k] != 0
}

/// A name table begins with a word for each sample, the offset of its name in the table.
/// A name is the text up to the first zero or the end of the table; where the offset is
/// past the table, the sample is called by its number. A bank without a table has no names.
pub proof fn law_names(s: Seq<u8>, start: int, size: u32, n: u32)
    requires
        0 <= start,
    ensures
        size == 0 ==> names_of(s, start, size, n) == Ok::<_, Fsb5Error>(Seq::<NameModel>::empty()),
        size > 0 && start + size > s.len() ==> names_of(s, start, size, n) == Err::<
            Seq<NameModel>,
            _,
        >(Fsb5Error::NameTablePastEnd { start: start as usize, size, len: s.len() as usize }),
        size > 0 && start + size <= s.len() && start + 4 * n > s.len() ==> names_of(
            s,
            start,
            size,
            n,
        ) == Err::<Seq<NameModel>, _>(Fsb5Error::NameOffsets),
        size > 0 && start + size <= s.len() && start + 4 * n <= s.len() ==> {
            let table = s.subrange(start, start + size);
            names_of(s, start, size, n) matches Ok(names) && {
                &&& names.len() == n
                &&& forall|i: int| 0 <= i < n ==> (#[trigger] names[i]).index == i
                &&& forall|i: int|
                    0 <= i < n && word(s, start + 4 * i) >= size ==> (#[trigger] names[i]).name
                        == "sample_"@ + decimal(i as nat)
                &&& forall|i: int, end: int|
                    0 <= i < n && #[trigger] name_ends(table, word(s, start + 4 * i), end)
                        && word(s, start + 4 * i) < size ==> (#[trigger] names[i]).name == text_of(
                        table.subrange(word(s, start + 4 * i), end),
                    )
            }
        },
{
    if size > 0 && start + size <= s.len() && start + 4 * n <= s.len() {
        let table = s.subrange(start, start + size);
        let names = names_of(s, start, size, n)->Ok_0;
        assert forall|i: int| 0 <= i < n && word(s, start + 4 * i) >= size implies (
        #[trigger] names[i]).name == "sample_"@ + decimal(i as nat) by {
            law_numbers(s, start + 4 * i);
        }
        assert forall|i: int, end: int|
            0 <= i < n && #[trigger] name_ends(table, word(s, start + 4 * i), end) && word(
                s,
                start + 4 * i,
            ) < size implies (#[trigger] names[i]).name == text_of(
            table.subrange(word(s, start + 4 * i), end),
        ) by {
            let offset = word(s, start + 4 * i);
            law_numbers(s, start + 4 * i);
            lemma_zero(table, offset);
            let zero = zero_from(table, offset);
            if zero < end {
                assert(table[zero] != 0);
            }
            if end < zero {
                assert(table[end] != 0);
            }
        }
    }
}

/// Bytes that are UTF-8 are the text that they encode; others are what the lossy reading
/// makes of them.
pub proof fn law_text(bytes: Seq<u8>)
    ensures
        valid_utf8(bytes) ==> text_of(bytes) == decode_utf8(bytes),
        !valid_utf8(bytes) ==> text_of(bytes) == lossy_text(bytes),
{
}

/// The data of a sample are those of the bank from its offset on; it is an error to ask
/// for a sample that is not there, or whose offset is past the data.
pub proof fn law_sample_data(bank: Fsb5Model, i: int)
    requires
        0 <= i,
    ensures
        i >= bank.samples.len() ==> sample_bytes(bank, i) == Err::<Seq<u8>, _>(
            Fsb5Error::NoSample { index: i as usize },
        ),
        i < bank.samples.len() && bank.samples[i].data_offset >= bank.data.len() ==> sample_bytes(
            bank,
            i,
        ) == Err::<Seq<u8>, _>(
            Fsb5Error::SampleOffset {
                offset: bank.samples[i].data_offset,
                len: bank.data.len() as usize,
            },
        ),
        i < bank.samples.len() && bank.samples[i].data_offset < bank.data.len() ==> sample_bytes(
            bank,
            i,
        ) == Ok::<_, Fsb5Error>(bank.data.skip(bank.samples[i].data_offset as int)),
{
    if i < bank.samples.len() && bank.samples[i].data_offset < bank.data.len() {
        let at = bank.samples[i].data_offset as int;
        assert(bank.data.subrange(at, bank.data.len() as int) =~= bank.data.skip(at));
    }
}

/// A sample has the name of its place, and is called `unknown` where there is none.
pub proof fn law_sample_name(bank: Fsb5Model, i: int)
    requires
        0 <= i,
    ensures
        i < bank.names.len() ==> sample_title(bank, i) == bank.names[i].name,
        i >= bank.names.len() ==> sample_title(bank, i) == seq![
            'u',
            'n',
            'k',
            'n',
            'o',
            'w',
            'n',
        ],
{
    reveal_strlit("unknown");
    assert("unknown"@ =~= seq!['u', 'n', 'k', 'n', 'o', 'w', 'n']);
}

} // verus!
