//! What is decoded, listed and written of the samples of a bank.

use vstd::prelude::*;
use vstd::utf8::{decode_utf8, is_ascii_chars, valid_utf8};

use crate::benchmark::{audio_at, pcm_number, rate_at};
use crate::decoder::{
    audio_of, clamped, frames_of, samples_len, samples_of, AudioModel, DecodeError, Decoder,
    Pcm16Decoder, Pcm8Decoder, PcmFloatDecoder, SamplesModel,
};
use crate::encoding::{law_pcm_reads_back, pcm16_bytes, pcm_float_bytes};
use crate::extract::{
    codec_number, codec_text, info_of, law_no_filter_lists_all, listing, lower_bytes, opt_text,
    passes, step_of, StepModel,
};
use crate::fsb5::{channel_number, sample_bytes, sample_title, Fsb5Codec, Fsb5Model};
use crate::reading_laws::{law_numbers, word};
use crate::run::{
    advanced, begun, is_stopped, stopped, times, DecodeResult, JobOutcome, ProgressModel, RunModel,
};
use crate::session::{
    empty_session, job_of, outcome_of, row_shown, session_wf, temporary_name, with_bank,
    JobModel, RowModel, SessionModel,
};
use crate::text::{
    decimal, has_part, has_part_any_case, lowercase, part_at, tag_text,
    unicode_alphanumeric, unicode_lowercase,
};
use crate::wav::{law_sanitize_settles, safe, sanitized, wav_name};

verus! {

/// Data in PCM8 that split into frames are decoded to their bytes.
pub proof fn law_pcm8_audio(data: Seq<u8>, channels: u16, rate: u32)
    requires
        channels > 0,
        data.len() as int % channels as int == 0,
    ensures
        audio_of(1, data, channels, rate) == Ok::<_, DecodeError>(
            AudioModel { samples: SamplesModel::Pcm8(data), channels, sample_rate: rate },
        ),
{
}

/// Data in PCM16 that split into frames are decoded to a sample for each two bytes, the low
/// one first, in two's complement.
pub proof fn law_pcm16_audio(data: Seq<u8>, channels: u16, rate: u32)
    requires
        channels > 0,
        data.len() % 2 == 0,
        (data.len() as int / 2) % channels as int == 0,
    ensures
        audio_of(2, data, channels, rate) matches Ok(audio) && {
            &&& audio.channels == channels
            &&& audio.sample_rate == rate
            &&& audio.samples matches SamplesModel::Pcm16(v) && {
                &&& 2 * v.len() == data.len()
                &&& forall|i: int|
                    0 <= i < v.len() ==> #[trigger] v[i] == (if data[2 * i + 1] < 0x80 {
                        data[2 * i] + 0x100 * data[2 * i + 1]
                    } else {
                        data[2 * i] + 0x100 * data[2 * i + 1] - 0x1_0000
                    })
            }
        },
{
    let v = audio_of(2, data, channels, rate)->Ok_0.samples->Pcm16_0;
    assert forall|i: int| 0 <= i < v.len() implies #[trigger] v[i] == (if data[2 * i + 1] < 0x80 {
        data[2 * i] + 0x100 * data[2 * i + 1]
    } else {
        data[2 * i] + 0x100 * data[2 * i + 1] - 0x1_0000
    }) by {
        law_numbers(data, 2 * i);
    }
}

/// A bit pattern held to the range from -1 to 1: up to the magnitude of 1 it stays, and so
/// does what is no number; above, it becomes 1 with the same sign.
pub open spec fn held(bits: int, out: int) -> bool {
    let magnitude = bits % 0x8000_0000;
    &&& magnitude <= 0x3F80_0000 ==> out == bits
    &&& 0x3F80_0000 < magnitude <= 0x7F80_0000 ==> out == bits - magnitude + 0x3F80_0000
    &&& magnitude > 0x7F80_0000 ==> out == bits
}

/// What clamping makes of every bit pattern.
pub proof fn law_clamp_exactly(bits: u32)
    ensures
        held(bits as int, clamped(bits) as int),
{
}

/// Data in PCMFLOAT that split into frames are decoded to a sample for each four bytes, the
/// lowest first, held to the range from -1 to 1.
pub proof fn law_float_audio(data: Seq<u8>, channels: u16, rate: u32)
    requires
        channels > 0,
        data.len() % 4 == 0,
        (data.len() as int / 4) % channels as int == 0,
    ensures
        audio_of(5, data, channels, rate) matches Ok(audio) && {
            &&& audio.channels == channels
            &&& audio.sample_rate == rate
            &&& audio.samples matches SamplesModel::PcmFloat(v) && {
                &&& 4 * v.len() == data.len()
                &&& forall|i: int|
                    0 <= i < v.len() ==> held(word(data, 4 * i), (#[trigger] v[i]) as int)
            }
        },
{
    let v = audio_of(5, data, channels, rate)->Ok_0.samples->PcmFloat_0;
    assert forall|i: int| 0 <= i < v.len() implies held(
        word(data, 4 * i),
        (#[trigger] v[i]) as int,
    ) by {
        law_numbers(data, 4 * i);
    }
}

/// Decoded audio holds the samples that the bytes were made of, in all three codecs, with
/// the channels and the rate that were given. Floating samples within -1 and 1 come back as
/// they were.
pub proof fn law_audio_reads_back(
    bytes: Seq<u8>,
    words: Seq<i16>,
    floats: Seq<u32>,
    channels: u16,
    rate: u32,
)
    requires
        channels > 0,
        bytes.len() as int % channels as int == 0,
        words.len() as int % channels as int == 0,
        floats.len() as int % channels as int == 0,
    ensures
        audio_of(1, bytes, channels, rate) == Ok::<_, DecodeError>(
            AudioModel { samples: SamplesModel::Pcm8(bytes), channels, sample_rate: rate },
        ),
        audio_of(2, pcm16_bytes(words), channels, rate) == Ok::<_, DecodeError>(
            AudioModel { samples: SamplesModel::Pcm16(words), channels, sample_rate: rate },
        ),
        audio_of(5, pcm_float_bytes(floats), channels, rate) matches Ok(audio) && {
            &&& audio.channels == channels
            &&& audio.sample_rate == rate
            &&& audio.samples matches SamplesModel::PcmFloat(v) && {
                &&& v.len() == floats.len()
                &&& forall|i: int| 0 <= i < v.len() ==> held(floats[i] as int, #[trigger] v[i] as int)
                &&& forall|i: int|
                    0 <= i < v.len() && floats[i] % 0x8000_0000 <= 0x3F80_0000 ==> #[trigger] v[i]
                        == floats[i]
            }
        },
{
    law_pcm_reads_back(bytes, words, floats, channels);
}

/// Where nothing can be decoded: the codec is not one of the three, there are no channels,
/// the data do not split into samples, or the samples not into frames, in this order.
pub proof fn law_refusals(codec_id: u32, data: Seq<u8>, channels: u16, rate: u32)
    ensures
        codec_id != 1 && codec_id != 2 && codec_id != 5 ==> audio_of(
            codec_id,
            data,
            channels,
            rate,
        ) == Err::<AudioModel, _>(DecodeError::UnsupportedCodec { codec_id }),
        (codec_id == 1 || codec_id == 2 || codec_id == 5) && channels == 0 ==> audio_of(
            codec_id,
            data,
            channels,
            rate,
        ) == Err::<AudioModel, _>(DecodeError::NoChannels),
        channels > 0 && data.len() as int % channels as int != 0 ==> audio_of(
            1,
            data,
            channels,
            rate,
        ) == Err::<AudioModel, _>(
            DecodeError::Pcm8Length { len: data.len() as usize, channels },
        ),
        channels > 0 && data.len() % 2 != 0 ==> audio_of(2, data, channels, rate) == Err::<
            AudioModel,
            _,
        >(DecodeError::Pcm16Length { len: data.len() as usize }),
        channels > 0 && data.len() % 2 == 0 && (data.len() as int / 2) % channels as int != 0
            ==> audio_of(2, data, channels, rate) == Err::<AudioModel, _>(
            DecodeError::SampleCount { count: (data.len() / 2) as usize, channels },
        ),
        channels > 0 && data.len() % 4 != 0 ==> audio_of(5, data, channels, rate) == Err::<
            AudioModel,
            _,
        >(DecodeError::PcmFloatLength { len: data.len() as usize }),
        channels > 0 && data.len() % 4 == 0 && (data.len() as int / 4) % channels as int != 0
            ==> audio_of(5, data, channels, rate) == Err::<AudioModel, _>(
            DecodeError::SampleCount { count: (data.len() / 4) as usize, channels },
        ),
{
}

/// A decoder of a codec gives the samples that the audio of the codec has, or the same
/// error; and each decoder is that of its codec.
pub proof fn law_decoders(codec_id: u32, data: Seq<u8>, channels: u16, rate: u32)
    ensures
        match samples_of(codec_id, data, channels) {
            Ok(samples) => audio_of(codec_id, data, channels, rate) matches Ok(audio)
                && audio.samples == samples,
            Err(e) => audio_of(codec_id, data, channels, rate) == Err::<AudioModel, _>(e),
        },
        Pcm8Decoder.codec() == 1,
        Pcm16Decoder.codec() == 2,
        PcmFloatDecoder.codec() == 5,
{
}

/// Audio has as many frames as go into its samples, one sample per channel.
pub proof fn law_frames(audio: AudioModel)
    ensures
        audio.channels == 0 ==> frames_of(audio) == 0,
        audio.channels > 0 ==> frames_of(audio) * audio.channels <= samples_len(audio.samples) < (
        frames_of(audio) + 1) * audio.channels,
        samples_len(audio.samples) == (match audio.samples {
            SamplesModel::Pcm8(v) => v.len(),
            SamplesModel::Pcm16(v) => v.len(),
            SamplesModel::PcmFloat(v) => v.len(),
        }),
{
    if audio.channels > 0 {
        let n = samples_len(audio.samples) as int;
        let c = audio.channels as int;
        assert((n / c) * c <= n < (n / c + 1) * c) by (nonlinear_arith)
            requires
                c > 0,
                n >= 0,
        ;
    }
}

/// The number that decimal digits stand for.
pub open spec fn value(digits: Seq<char>) -> int
    decreases digits.len(),
{
    if digits.len() == 0 {
        0
    } else {
        10 * value(digits.drop_last()) + (digits.last() as int - 0x30)
    }
}

/// A number in decimal is made of digits that stand for it, without leading zeros.
pub proof fn law_decimal(n: nat)
    ensures
        value(decimal(n)) == n,
        decimal(n).len() > 0,
        n > 0 ==> decimal(n)[0] != '0',
        forall|k: int| 0 <= k < decimal(n).len() ==> '0' <= #[trigger] decimal(n)[k] <= '9',
    decreases n,
{
    reveal_with_fuel(value, 2);
    if n >= 10 {
        law_decimal(n / 10);
        let d = decimal(n);
        assert(d.drop_last() =~= decimal(n / 10));
        assert(d[0] == decimal(n / 10)[0]);
    } else {
        assert(decimal(n).drop_last() =~= Seq::empty());
    }
}

/// A text stands in another exactly where that is made of something before it, the text,
/// and something behind it.
pub proof fn law_has_part(before: Seq<char>, part: Seq<char>, behind: Seq<char>, text: Seq<char>)
    ensures
        has_part(before + part + behind, part),
        has_part(text, part) <==> exists|k: int|
            #![trigger text.skip(k)]
            0 <= k <= text.len() - part.len() && text.skip(k).take(part.len() as int) == part,
{
    let whole = before + part + behind;
    let at = before.len() as int;
    assert(whole.subrange(at, at + part.len()) =~= part);
    assert(part_at(whole, part, at));
    if has_part(text, part) {
        let k = choose|k: int| part_at(text, part, k);
        assert(text.skip(k).take(part.len() as int) =~= text.subrange(k, k + part.len()));
    }
    if exists|k: int|
        #![trigger text.skip(k)]
        0 <= k <= text.len() - part.len() && text.skip(k).take(part.len() as int) == part {
        let k = choose|k: int|
            #![trigger text.skip(k)]
            0 <= k <= text.len() - part.len() && text.skip(k).take(part.len() as int) == part;
        assert(text.skip(k).take(part.len() as int) =~= text.subrange(k, k + part.len()));
        assert(part_at(text, part, k));
    }
}

/// In ASCII text lower case changes the letters from `A` to `Z` and nothing else. Search
/// that does not mind case is search in lower case.
pub proof fn law_any_case(text: Seq<char>, part: Seq<char>)
    ensures
        is_ascii_chars(text) ==> lowercase(text).len() == text.len() && forall|k: int|
            0 <= k < text.len() ==> (#[trigger] lowercase(text)[k]) as int == (if 0x41 <= text[k]
                as int <= 0x5A {
                text[k] as int + 0x20
            } else {
                text[k] as int
            }),
        !is_ascii_chars(text) ==> lowercase(text) == unicode_lowercase(text),
        has_part_any_case(text, part) <==> has_part(lowercase(text), lowercase(part)),
{
}

/// What a filter lets through: everything where there is none, and else the names in which
/// it stands, whatever the case.
pub proof fn law_filter(name: Seq<char>, pattern: Seq<char>, text: String)
    ensures
        passes(name, None),
        passes(name, Some(pattern)) <==> has_part(lowercase(name), lowercase(pattern)),
        opt_text(None) is None,
        opt_text(Some(text)) == Some(text@),
{
}

/// A tag is the text that its bytes encode, or three question marks.
pub proof fn law_tag_text(tag: [u8; 4])
    ensures
        valid_utf8(tag@) ==> tag_text(tag) == decode_utf8(tag@),
        !valid_utf8(tag@) ==> tag_text(tag) == seq!['?', '?', '?'],
{
    reveal_strlit("???");
    assert("???"@ =~= seq!['?', '?', '?']);
}

/// A letter or digit: in ASCII by its code, and else after Unicode.
pub open spec fn counts_as_alphanumeric(c: char) -> bool {
    if (c as u32) < 0x80 {
        '0' <= c <= '9' || 'A' <= c <= 'Z' || 'a' <= c <= 'z'
    } else {
        unicode_alphanumeric(c)
    }
}

/// In names for files each letter, digit, `-` and `_` stays, a `.` only where that is
/// allowed, and anything else becomes `_`.
pub proof fn law_file_names(name: Seq<char>, i: int)
    requires
        0 <= i < name.len(),
    ensures
        safe(name).len() == name.len(),
        sanitized(name).len() == name.len(),
        safe(name)[i] == (if counts_as_alphanumeric(name[i]) || name[i] == '-' || name[i] == '_' {
            name[i]
        } else {
            '_'
        }),
        sanitized(name)[i] == (if counts_as_alphanumeric(name[i]) || name[i] == '-' || name[i]
            == '_' || name[i] == '.' {
            name[i]
        } else {
            '_'
        }),
        wav_name(name) == sanitized(name) + ".wav"@,
{
}

/// The numbers and the texts of the codecs.
pub proof fn law_codec_names(v: u32)
    ensures
        codec_number(Fsb5Codec::Pcm8) == 1,
        codec_number(Fsb5Codec::Pcm16) == 2,
        codec_number(Fsb5Codec::PcMFLOAT) == 5,
        codec_number(Fsb5Codec::Mpeg) == 11,
        codec_number(Fsb5Codec::Vorbis) == 15,
        codec_number(Fsb5Codec::Unknown(v)) == v,
        codec_text(Fsb5Codec::Pcm8) == "Pcm8"@,
        codec_text(Fsb5Codec::Pcm16) == "Pcm16"@,
        codec_text(Fsb5Codec::PcMFLOAT) == "PcMFLOAT"@,
        codec_text(Fsb5Codec::Mpeg) == "Mpeg"@,
        codec_text(Fsb5Codec::Vorbis) == "Vorbis"@,
        codec_text(Fsb5Codec::Unknown(v)) == "Unknown("@ + decimal(v as nat) + ")"@,
{
}

/// An entry of a listing says of a sample what its own header says, with the name of the
/// sample and the codec of the bank. Without a filter, entry `i` is that of sample `i`.
pub proof fn law_entries(bank: Fsb5Model, n: int, i: int)
    requires
        0 <= i < n <= bank.samples.len(),
    ensures
        ({
            let info = info_of(bank, i);
            &&& info.name == sample_title(bank, i)
            &&& info.codec == codec_text(bank.header.codec)
            &&& info.channels == channel_number(bank.samples[i].channels)
            &&& info.sample_rate == bank.samples[i].sample_rate
            &&& info.num_samples == bank.samples[i].num_samples
        }),
        ({
            let entries = listing(bank, None, n);
            &&& entries.len() == n
            &&& entries[i].name == sample_title(bank, i)
            &&& entries[i].codec == codec_text(bank.header.codec)
            &&& entries[i].channels == channel_number(bank.samples[i].channels)
            &&& entries[i].sample_rate == bank.samples[i].sample_rate
            &&& entries[i].num_samples == bank.samples[i].num_samples
        }),
{
    law_no_filter_lists_all(bank, n);
}

/// With a filter, the listing of one sample more has an entry more exactly where the name
/// of that sample stands the filter, and it is the entry of that sample.
pub proof fn law_listing_grows(bank: Fsb5Model, pattern: Seq<char>, n: int)
    requires
        0 <= n < bank.samples.len(),
    ensures
        listing(bank, Some(pattern), 0).len() == 0,
        has_part(lowercase(sample_title(bank, n)), lowercase(pattern)) ==> listing(
            bank,
            Some(pattern),
            n + 1,
        ) == listing(bank, Some(pattern), n).push(info_of(bank, n)),
        !has_part(lowercase(sample_title(bank, n)), lowercase(pattern)) ==> listing(
            bank,
            Some(pattern),
            n + 1,
        ) == listing(bank, Some(pattern), n),
{
}

/// The number that a bank is decoded by where its samples are written out.
pub open spec fn number_of(codec: Fsb5Codec) -> u32 {
    match codec {
        Fsb5Codec::Pcm8 => 1,
        Fsb5Codec::Pcm16 => 2,
        Fsb5Codec::PcMFLOAT => 5,
        Fsb5Codec::Mpeg => 11,
        Fsb5Codec::Vorbis => 15,
        Fsb5Codec::Unknown(v) => v,
    }
}

/// What is done with a sample: nothing where the filter does not let its name through or
/// it has no data; Vorbis is exported, or left to the outside program, under the name of
/// the sample; anything else is decoded from the data of the sample, with its channels and
/// its rate, and written under its name, or cannot be.
pub proof fn law_steps(bank: Fsb5Model, i: int, filter: Option<Seq<char>>, export: bool)
    requires
        0 <= i < bank.samples.len(),
    ensures
        ({
            let step = step_of(bank, i, filter, export);
            let file = safe(sample_title(bank, i));
            let out = match filter {
                Some(p) => !has_part(lowercase(sample_title(bank, i)), lowercase(p)),
                None => false,
            };
            let codec = number_of(bank.header.codec);
            &&& out ==> step == StepModel::Filtered
            &&& !out && sample_bytes(bank, i) is Err ==> step == StepModel::NoData
            &&& !out ==> (sample_bytes(bank, i) matches Ok(data) ==> {
                &&& codec == 15 && export ==> step == (StepModel::ExportFsb5 {
                    file: file + ".fsb"@,
                })
                &&& codec == 15 && !export ==> step == (StepModel::Vgmstream {
                    temporary: file + ".fsb"@,
                    wav: file + ".wav"@,
                })
                &&& codec != 15 ==> match audio_of(
                    codec,
                    data,
                    channel_number(bank.samples[i].channels) as u16,
                    bank.samples[i].sample_rate,
                ) {
                    Ok(audio) => step == (StepModel::Write { wav: file + ".wav"@, audio }),
                    Err(error) => step == (StepModel::Undecodable { error }),
                }
            })
        }),
{
    law_sanitize_settles(sample_title(bank, i));
}

/// Texts with the same ending are the same only where what is before it is.
proof fn lemma_endings(a: Seq<char>, b: Seq<char>, ending: Seq<char>)
    requires
        a + ending == b + ending,
    ensures
        a == b,
{
    assert((a + ending).len() == (b + ending).len());
    assert(a =~= (a + ending).take(a.len() as int));
    assert(b =~= (b + ending).take(b.len() as int));
}

/// The files of two samples are different where their names are, as they stand in files:
/// no sample that is exported, decoded or written takes the place of another.
pub proof fn law_files_apart(
    bank: Fsb5Model,
    i: int,
    j: int,
    filter: Option<Seq<char>>,
    export: bool,
)
    requires
        0 <= i < bank.samples.len(),
        0 <= j < bank.samples.len(),
        safe(sample_title(bank, i)) != safe(sample_title(bank, j)),
    ensures
        match (step_of(bank, i, filter, export), step_of(bank, j, filter, export)) {
            (
                StepModel::ExportFsb5 { file: a },
                StepModel::ExportFsb5 { file: b },
            ) => a != b,
            (
                StepModel::Vgmstream { temporary: a, wav: c },
                StepModel::Vgmstream { temporary: b, wav: d },
            ) => a != b && c != d,
            (StepModel::Write { wav: a, audio: _ }, StepModel::Write { wav: b, audio: _ }) => a
                != b,
            _ => true,
        },
{
    law_steps(bank, i, filter, export);
    law_steps(bank, j, filter, export);
    let a = safe(sample_title(bank, i));
    let b = safe(sample_title(bank, j));
    if a + ".fsb"@ == b + ".fsb"@ {
        lemma_endings(a, b, ".fsb"@);
    }
    if a + ".wav"@ == b + ".wav"@ {
        lemma_endings(a, b, ".wav"@);
    }
}

/// What is done with a selected sample: nothing where it is not there or has no data;
/// Vorbis is left to the outside program by the number of the sample; PCM is decoded from
/// the data of the sample, with its channels and its rate, and written under its name.
pub proof fn law_jobs(bank: Fsb5Model, bank_name: Seq<char>, i: int)
    requires
        0 <= i,
    ensures
        ({
            let job = job_of(bank, bank_name, i);
            let file = safe(sample_title(bank, i));
            let codec = match bank.header.codec {
                Fsb5Codec::Pcm8 => 1u32,
                Fsb5Codec::Pcm16 => 2u32,
                Fsb5Codec::PcMFLOAT => 5u32,
                _ => 0u32,
            };
            &&& sample_bytes(bank, i) is Err ==> job == JobModel::Skip
            &&& sample_bytes(bank, i) matches Ok(data) ==> {
                &&& bank.header.codec == Fsb5Codec::Vorbis ==> job == (JobModel::Vgmstream {
                    temporary: bank_name + "_"@ + decimal(i as nat) + "_"@ + file + ".fsb"@,
                    subsong: i + 1,
                    wav: file + ".wav"@,
                })
                &&& bank.header.codec != Fsb5Codec::Vorbis ==> match audio_of(
                    codec,
                    data,
                    channel_number(bank.samples[i].channels) as u16,
                    bank.samples[i].sample_rate,
                ) {
                    Ok(audio) => job == (JobModel::Write { wav: file + ".wav"@, audio }),
                    Err(_) => job == JobModel::Skip,
                }
            }
        }),
{
    law_sanitize_settles(sample_title(bank, i));
}

/// Two samples of a bank never share a temporary file, so that jobs on them can run at
/// once.
pub proof fn law_temporaries_apart(
    bank_name: Seq<char>,
    i: int,
    a: Seq<char>,
    j: int,
    b: Seq<char>,
)
    requires
        0 <= i,
        0 <= j,
        i != j,
    ensures
        temporary_name(bank_name, i, a) != temporary_name(bank_name, j, b),
{
    reveal_strlit("_");
    let x = decimal(i as nat);
    let y = decimal(j as nat);
    let at = (bank_name.len() + 1) as int;
    let s = temporary_name(bank_name, i, a);
    let t = temporary_name(bank_name, j, b);
    law_decimal(i as nat);
    law_decimal(j as nat);
    assert(s.subrange(at, at + x.len()) =~= x);
    assert(t.subrange(at, at + y.len()) =~= y);
    assert(s[at + x.len()] == '_');
    assert(t[at + y.len()] == '_');
    if s == t {
        if x.len() < y.len() {
            assert(y[x.len() as int] == t[at + x.len()]);
        }
        if y.len() < x.len() {
            assert(x[y.len() as int] == s[at + y.len()]);
        }
        assert(x == y);
    }
}

/// Opening a bank adds a row for each of its samples, which says of the sample what its own
/// header says, and leaves the rows and the selection before as they are.
pub proof fn law_rows(session: SessionModel, bank_name: Seq<char>, bank: Fsb5Model, i: int)
    requires
        session_wf(session),
        0 <= i < bank.samples.len(),
    ensures
        ({
            let opened = with_bank(session, bank_name, bank);
            let row = opened.rows[session.rows.len() + i];
            &&& opened.bank_count == session.bank_count + 1
            &&& opened.rows.len() == session.rows.len() + bank.samples.len()
            &&& opened.selected.len() == session.selected.len() + bank.samples.len()
            &&& opened.rows.take(session.rows.len() as int) == session.rows
            &&& opened.selected.take(session.rows.len() as int) == session.selected
            &&& opened.selected[session.rows.len() + i]
            &&& row.bank_index == session.bank_count
            &&& row.sample_index == i
            &&& row.bank_name == bank_name
            &&& row.name == sample_title(bank, i)
            &&& row.codec == codec_text(bank.header.codec)
            &&& row.channels == channel_number(bank.samples[i].channels)
            &&& row.sample_rate == bank.samples[i].sample_rate
            &&& row.num_samples == bank.samples[i].num_samples
        }),
{
    let opened = with_bank(session, bank_name, bank);
    assert(opened.rows.take(session.rows.len() as int) =~= session.rows);
    assert(opened.selected.take(session.rows.len() as int) =~= session.selected);
    law_entries(bank, bank.samples.len() as int, i);
}

/// A session begins without banks, rows or selection.
pub proof fn law_empty_session()
    ensures
        empty_session().bank_count == 0,
        empty_session().rows.len() == 0,
        empty_session().selected.len() == 0,
        session_wf(empty_session()),
{
}

/// A search shows a row where nothing is searched for, or it stands in the name, the codec
/// or the bank of the row, whatever the case.
pub proof fn law_search(row: RowModel, search: Seq<char>)
    ensures
        row_shown(row, search) <==> search.len() == 0 || has_part(
            lowercase(row.name),
            lowercase(search),
        ) || has_part(lowercase(row.codec), lowercase(search)) || has_part(
            lowercase(row.bank_name),
            lowercase(search),
        ),
{
}

/// How jobs count: work for the outside program and for the writer counts as decoded where
/// it was done; undone, the first counts as skipped and the second not at all.
pub proof fn law_outcomes(
    temporary: Seq<char>,
    subsong: int,
    wav: Seq<char>,
    audio: AudioModel,
    done: bool,
)
    ensures
        outcome_of(JobModel::Skip, done) == JobOutcome::Skipped,
        outcome_of(JobModel::Vgmstream { temporary, subsong, wav }, true) == JobOutcome::Decoded,
        outcome_of(JobModel::Vgmstream { temporary, subsong, wav }, false) == JobOutcome::Skipped,
        outcome_of(JobModel::Write { wav, audio }, true) == JobOutcome::Decoded,
        outcome_of(JobModel::Write { wav, audio }, false) == JobOutcome::Uncounted,
{
}

/// One job more counts once for its own outcome and not for any other.
pub proof fn law_counting(outcomes: Seq<JobOutcome>, outcome: JobOutcome, n: int)
    requires
        0 <= n < outcomes.len(),
    ensures
        times(outcomes, outcome, 0) == 0,
        times(outcomes, outcome, n + 1) == times(outcomes, outcome, n) + (if outcomes[n]
            == outcome {
            1int
        } else {
            0
        }),
{
}

/// A run begins with nothing done. At every thirty-second job and at the last the count
/// and the name are shown, and at no other; that and nothing else changes. A run that is
/// told to stop goes on as it was otherwise.
pub proof fn law_progress(
    total: int,
    p: ProgressModel,
    result: Option<DecodeResult>,
    done: int,
    file: Seq<char>,
)
    ensures
        begun(total).result is None,
        begun(total).progress matches Some(q) && q.total == total && q.completed == 0
            && q.current_file.len() == 0 && !q.cancelled,
        ({
            let run = RunModel { progress: Some(p), result };
            let none = RunModel { progress: None, result };
            &&& advanced(none, done, file) == none
            &&& stopped(none) == none
            &&& !is_stopped(none)
            &&& is_stopped(run) == p.cancelled
            &&& stopped(run).result == result
            &&& stopped(run).progress matches Some(q) && q.cancelled && q.total == p.total
                && q.completed == p.completed && q.current_file == p.current_file
            &&& advanced(run, done, file).result == result
            &&& advanced(run, done, file).progress matches Some(q) && q.total == p.total
                && q.cancelled == p.cancelled && (if done % 32 == 0 || done == p.total {
                q.completed == done && q.current_file == file
            } else {
                q.completed == p.completed && q.current_file == p.current_file
            })
        }),
{
}

/// A benchmark measures the three PCM codecs, and decodes the data of a sample with its
/// channels and its rate.
pub proof fn law_benchmark(bank: Fsb5Model, codec_id: u32, i: int, v: u32)
    requires
        0 <= i,
    ensures
        pcm_number(Fsb5Codec::Pcm8) == Some(1u32),
        pcm_number(Fsb5Codec::Pcm16) == Some(2u32),
        pcm_number(Fsb5Codec::PcMFLOAT) == Some(5u32),
        pcm_number(Fsb5Codec::Mpeg) is None,
        pcm_number(Fsb5Codec::Vorbis) is None,
        pcm_number(Fsb5Codec::Unknown(v)) is None,
        i < bank.samples.len() ==> rate_at(bank, i) == bank.samples[i].sample_rate,
        i >= bank.samples.len() ==> rate_at(bank, i) == 0,
        sample_bytes(bank, i) is Err ==> audio_at(bank, codec_id, i) is None,
        i < bank.samples.len() && sample_bytes(bank, i) is Ok ==> match audio_of(
            codec_id,
            sample_bytes(bank, i)->Ok_0,
            channel_number(bank.samples[i].channels) as u16,
            bank.samples[i].sample_rate,
        ) {
            Ok(audio) => audio_at(bank, codec_id, i) == Some(audio),
            Err(_) => audio_at(bank, codec_id, i) is None,
        },
{
}

/// Of file extensions, those of the four letters of `bank` in either case, and no others,
/// are `bank` in lower case.
pub proof fn law_extension(e: Seq<u8>)
    ensures
        lower_bytes(e) == seq![0x62u8, 0x61u8, 0x6Eu8, 0x6Bu8] <==> e.len() == 4 && (e[0] == 0x62
            || e[0] == 0x42) && (e[1] == 0x61 || e[1] == 0x41) && (e[2] == 0x6E || e[2] == 0x4E)
            && (e[3] == 0x6B || e[3] == 0x4B),
{
    let lower = lower_bytes(e);
    assert(lower.len() == e.len());
    assert(seq![0x62u8, 0x61u8, 0x6Eu8, 0x6Bu8].len() == 4);
    if e.len() == 4 {
        assert(lower[0] == seq![0x62u8, 0x61u8, 0x6Eu8, 0x6Bu8][0] <==> e[0] == 0x62 || e[0]
            == 0x42);
        assert(lower[1] == seq![0x62u8, 0x61u8, 0x6Eu8, 0x6Bu8][1] <==> e[1] == 0x61 || e[1]
            == 0x41);
        assert(lower[2] == seq![0x62u8, 0x61u8, 0x6Eu8, 0x6Bu8][2] <==> e[2] == 0x6E || e[2]
            == 0x4E);
        assert(lower[3] == seq![0x62u8, 0x61u8, 0x6Eu8, 0x6Bu8][3] <==> e[3] == 0x6B || e[3]
            == 0x4B);
        if (e[0] == 0x62 || e[0] == 0x42) && (e[1] == 0x61 || e[1] == 0x41) && (e[2] == 0x6E || e[2]
            == 0x4E) && (e[3] == 0x6B || e[3] == 0x4B) {
            assert(lower =~= seq![0x62u8, 0x61u8, 0x6Eu8, 0x6Bu8]);
        }
    }
}

} // verus!
