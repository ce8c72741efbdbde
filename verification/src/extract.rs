//! What is done with the samples of a bank: listing them and writing them out.

use vstd::prelude::*;

use crate::decoder::{
    audio_of, decode_audio, AudioModel, DecodeError, DecodedAudio, CODEC_PCM16, CODEC_PCM8,
    CODEC_PCMFLOAT,
};
use crate::fsb5::{
    channel_number, codec_of, fsb5_of, parse_fsb5, sample_bytes, sample_title, Fsb5, Fsb5Channels,
    Fsb5Codec, Fsb5Error, Fsb5Model,
};
use crate::riff::{find_fsb5_chunk, fsb5_bytes, parse_riff, riff_of, RiffError};
use crate::text::{contains_any_case, decimal, has_part_any_case, push_decimal};
use crate::wav::{
    fit_for_file, law_sanitize_settles, law_sanitized_is_fit, safe, safe_name, wav_file_name,
    wav_name,
};

verus! {

/// The number of the codec Vorbis, which an outside program decodes.
pub const CODEC_VORBIS: u32 = 0x0F;

/// The number of the codec MPEG.
pub const CODEC_MPEG: u32 = 0x0B;

/// Why the samples of a bank file cannot be had.
#[derive(Debug, Clone, Copy, PartialEq, Eq)]
pub enum BankError {
    /// The file is not a container.
    Container(RiffError),
    /// The container holds no sample bank.
    Search(RiffError),
    /// The sample bank cannot be read.
    SampleBank(Fsb5Error),
}

/// A bank file taken apart: the format of the container, the bytes of the sample bank,
/// and the sample bank.
pub struct Bank<'a> {
    pub format: [u8; 4],
    pub fsb5_data: &'a [u8],
    pub fsb5: Fsb5,
}

/// What a bank file holds.
#[verifier::ext_equal]
pub struct BankModel {
    pub format: [u8; 4],
    pub fsb5_data: Seq<u8>,
    pub fsb5: Fsb5Model,
}

impl<'a> View for Bank<'a> {
    type V = BankModel;

    open spec fn view(&self) -> BankModel {
        BankModel { format: self.format, fsb5_data: self.fsb5_data@, fsb5: self.fsb5@ }
    }
}

/// What a file holds as a bank file, or why it is none.
pub open spec fn bank_of(s: Seq<u8>) -> Result<BankModel, BankError> {
    match riff_of(s) {
        Err(e) => Err(BankError::Container(e)),
        Ok(riff) => match fsb5_bytes(s, riff.chunks) {
            None => Err(BankError::Search(RiffError::NoFsb5)),
            Some(fsb5_data) => match fsb5_of(fsb5_data) {
                Err(e) => Err(BankError::SampleBank(e)),
                Ok(fsb5) => Ok(BankModel { format: riff.format, fsb5_data, fsb5 }),
            },
        },
    }
}

/// Takes a bank file apart.
pub fn read_bank<'a>(data: &'a [u8]) -> (r: Result<Bank<'a>, BankError>)
    ensures
        match r {
            Ok(bank) => bank_of(data@) == Ok::<_, BankError>(bank@),
            Err(e) => bank_of(data@) == Err::<BankModel, _>(e),
        },
{
    let riff = match parse_riff(data) {
        Ok(riff) => riff,
        Err(e) => {
            return Err(BankError::Container(e));
        },
    };
    let fsb5_data = match find_fsb5_chunk(data, &riff) {
        Ok(d) => d,
        Err(e) => {
            return Err(BankError::Search(e));
        },
    };
    match parse_fsb5(fsb5_data) {
        Ok(fsb5) => Ok(Bank { format: riff.format, fsb5_data, fsb5 }),
        Err(e) => Err(BankError::SampleBank(e)),
    }
}

/// The number of a codec.
pub open spec fn codec_number(codec: Fsb5Codec) -> u32 {
    match codec {
        Fsb5Codec::Pcm8 => CODEC_PCM8,
        Fsb5Codec::Pcm16 => CODEC_PCM16,
        Fsb5Codec::PcMFLOAT => CODEC_PCMFLOAT,
        Fsb5Codec::Mpeg => CODEC_MPEG,
        Fsb5Codec::Vorbis => CODEC_VORBIS,
        Fsb5Codec::Unknown(v) => v,
    }
}

/// The number of a codec.
pub fn codec_to_u32(codec: &Fsb5Codec) -> (r: u32)
    ensures
        r == codec_number(*codec),
{
    match codec {
        Fsb5Codec::Pcm8 => CODEC_PCM8,
        Fsb5Codec::Pcm16 => CODEC_PCM16,
        Fsb5Codec::PcMFLOAT => CODEC_PCMFLOAT,
        Fsb5Codec::Vorbis => CODEC_VORBIS,
        Fsb5Codec::Mpeg => CODEC_MPEG,
        Fsb5Codec::Unknown(v) => *v,
    }
}

/// A codec read from its number has that number.
pub proof fn law_codec_number(v: u32)
    ensures
        codec_number(codec_of(v)) == v,
{
}

/// The text of a codec in listings.
pub open spec fn codec_text(codec: Fsb5Codec) -> Seq<char> {
    match codec {
        Fsb5Codec::Pcm8 => "Pcm8"@,
        Fsb5Codec::Pcm16 => "Pcm16"@,
        Fsb5Codec::PcMFLOAT => "PcMFLOAT"@,
        Fsb5Codec::Mpeg => "Mpeg"@,
        Fsb5Codec::Vorbis => "Vorbis"@,
        Fsb5Codec::Unknown(v) => "Unknown("@ + decimal(v as nat) + ")"@,
    }
}

/// The text of a codec in listings.
pub fn codec_label(codec: &Fsb5Codec) -> (r: String)
    ensures
        r@ == codec_text(*codec),
{
    let mut out = String::new();
    match codec {
        Fsb5Codec::Pcm8 => out.push_str("Pcm8"),
        Fsb5Codec::Pcm16 => out.push_str("Pcm16"),
        Fsb5Codec::PcMFLOAT => out.push_str("PcMFLOAT"),
        Fsb5Codec::Mpeg => out.push_str("Mpeg"),
        Fsb5Codec::Vorbis => out.push_str("Vorbis"),
        Fsb5Codec::Unknown(v) => {
            out.push_str("Unknown(");
            push_decimal(&mut out, *v as u64);
            out.push_str(")");
        },
    }
    assert(out@ =~= codec_text(*codec));
    out
}

/// How many channels a layout has.
pub fn channel_count(channels: &Fsb5Channels) -> (r: u16)
    ensures
        r == channel_number(*channels),
{
    channels.count() as u16
}

/// A text that may be missing.
pub open spec fn opt_text(text: Option<String>) -> Option<Seq<char>> {
    match text {
        Some(t) => Some(t@),
        None => None,
    }
}

/// Whether a filter lets a name through: any name where there is no filter, and else a
/// name in which the filter stands, whatever the case of the letters.
pub open spec fn passes(name: Seq<char>, filter: Option<Seq<char>>) -> bool {
    match filter {
        Some(pattern) => has_part_any_case(name, pattern),
        None => true,
    }
}

/// Whether a filter lets a name through.
pub fn matches_filter(name: &str, filter: &Option<String>) -> (r: bool)
    ensures
        r == passes(name@, opt_text(*filter)),
{
    match filter {
        Some(pattern) => contains_any_case(name, pattern.as_str()),
        None => true,
    }
}

/// What a listing says of a sample.
#[derive(Debug, Clone, PartialEq, Eq)]
pub struct SampleInfo {
    pub name: String,
    pub codec: String,
    pub channels: u16,
    pub sample_rate: u32,
    pub num_samples: u32,
}

/// What an entry of a listing holds.
#[verifier::ext_equal]
pub struct InfoModel {
    pub name: Seq<char>,
    pub codec: Seq<char>,
    pub channels: u16,
    pub sample_rate: u32,
    pub num_samples: u32,
}

impl View for SampleInfo {
    type V = InfoModel;

    open spec fn view(&self) -> InfoModel {
        InfoModel {
            name: self.name@,
            codec: self.codec@,
            channels: self.channels,
            sample_rate: self.sample_rate,
            num_samples: self.num_samples,
        }
    }
}

/// What a listing says of sample `i`.
pub open spec fn info_of(bank: Fsb5Model, i: int) -> InfoModel {
    InfoModel {
        name: sample_title(bank, i),
        codec: codec_text(bank.header.codec),
        channels: channel_number(bank.samples[i].channels) as u16,
        sample_rate: bank.samples[i].sample_rate,
        num_samples: bank.samples[i].num_samples,
    }
}

/// What a listing says of a sample.
pub fn sample_info(fsb5: &Fsb5, index: usize) -> (r: SampleInfo)
    requires
        index < fsb5.samples.len(),
    ensures
        r@ == info_of(fsb5@, index as int),
        r.channels == channel_number(fsb5.samples@[index as int].channels),
        r.sample_rate == fsb5.samples@[index as int].sample_rate,
        r.num_samples == fsb5.samples@[index as int].num_samples,
{
    let sample = &fsb5.samples[index];
    SampleInfo {
        name: fsb5.sample_name(index).to_owned(),
        codec: codec_label(&fsb5.header.codec),
        channels: channel_count(&sample.channels),
        sample_rate: sample.sample_rate,
        num_samples: sample.num_samples,
    }
}

/// The entries for those of the first `n` samples that a filter lets through.
pub open spec fn listing(bank: Fsb5Model, filter: Option<Seq<char>>, n: int) -> Seq<InfoModel>
    decreases n,
{
    if n <= 0 {
        Seq::empty()
    } else if passes(sample_title(bank, n - 1), filter) {
        listing(bank, filter, n - 1).push(info_of(bank, n - 1))
    } else {
        listing(bank, filter, n - 1)
    }
}

/// What each entry of a listing holds.
pub open spec fn info_models(infos: Seq<SampleInfo>) -> Seq<InfoModel> {
    Seq::new(infos.len(), |i: int| infos[i]@)
}

/// Lists the samples of a bank that a filter lets through, in their order.
pub fn list_samples(fsb5: &Fsb5, filter: &Option<String>) -> (r: Vec<SampleInfo>)
    ensures
        info_models(r@) == listing(fsb5@, opt_text(*filter), fsb5@.samples.len() as int),
{
    let mut infos: Vec<SampleInfo> = Vec::new();
    let mut i: usize = 0;
    assert(info_models(infos@) =~= Seq::empty());
    while i < fsb5.samples.len()
        invariant
            i <= fsb5.samples@.len(),
            info_models(infos@) == listing(fsb5@, opt_text(*filter), i as int),
        decreases fsb5.samples@.len() - i,
    {
        if matches_filter(fsb5.sample_name(i), filter) {
            let ghost before = info_models(infos@);
            let info = sample_info(fsb5, i);
            let ghost model = info@;
            infos.push(info);
            assert(info_models(infos@) =~= before.push(model));
        }
        i = i + 1;
    }
    infos
}

/// Without a filter every sample is listed, in its place.
pub proof fn law_no_filter_lists_all(bank: Fsb5Model, n: int)
    requires
        0 <= n <= bank.samples.len(),
    ensures
        listing(bank, None, n) == Seq::new(n as nat, |i: int| info_of(bank, i)),
    decreases n,
{
    if n > 0 {
        law_no_filter_lists_all(bank, n - 1);
    }
    assert(listing(bank, None, n) =~= Seq::new(n as nat, |i: int| info_of(bank, i)));
}

/// The places among the first `n` of the samples that a filter lets through.
pub open spec fn kept(bank: Fsb5Model, filter: Option<Seq<char>>, n: int) -> Seq<int> {
    Seq::new(n as nat, |i: int| i).filter(|i: int| passes(sample_title(bank, i), filter))
}

/// A listing has an entry for each sample that the filter lets through, and for no
/// other, in the order of the samples.
pub proof fn law_listing_is_the_kept(bank: Fsb5Model, filter: Option<Seq<char>>, n: int)
    requires
        0 <= n <= bank.samples.len(),
    ensures
        listing(bank, filter, n) == kept(bank, filter, n).map_values(|i: int| info_of(bank, i)),
    decreases n,
{
    let keep = |i: int| passes(sample_title(bank, i), filter);
    let info = |i: int| info_of(bank, i);
    let all = Seq::new(n as nat, |i: int| i);
    reveal(Seq::filter);
    if n > 0 {
        law_listing_is_the_kept(bank, filter, n - 1);
        assert(all.drop_last() =~= Seq::new((n - 1) as nat, |i: int| i));
        assert(all.last() == n - 1);
        let before = kept(bank, filter, n - 1);
        if keep(n - 1) {
            assert(kept(bank, filter, n) =~= before.push(n - 1));
            assert(before.push(n - 1).map_values(info) =~= before.map_values(info).push(
                info(n - 1),
            ));
        } else {
            assert(kept(bank, filter, n) =~= before);
        }
    } else {
        assert(kept(bank, filter, n).map_values(info) =~= Seq::empty());
    }
}

/// What is done with a sample.
#[derive(Debug, Clone, PartialEq, Eq)]
pub enum SampleStep {
    /// Nothing: the filter does not let it through.
    Filtered,
    /// Nothing: it has no data.
    NoData,
    /// The bytes of the sample bank are written to a file.
    ExportFsb5 { file: String },
    /// The bytes of the sample bank are written to a temporary file, which an outside
    /// program decodes to a WAV file.
    Vgmstream { temporary: String, wav: String },
    /// The audio is written to a WAV file.
    Write { wav: String, audio: DecodedAudio },
    /// Nothing: it cannot be decoded.
    Undecodable { error: DecodeError },
}

/// What is done with a sample.
#[verifier::ext_equal]
pub enum StepModel {
    Filtered,
    NoData,
    ExportFsb5 { file: Seq<char> },
    Vgmstream { temporary: Seq<char>, wav: Seq<char> },
    Write { wav: Seq<char>, audio: AudioModel },
    Undecodable { error: DecodeError },
}

impl View for SampleStep {
    type V = StepModel;

    open spec fn view(&self) -> StepModel {
        match *self {
            SampleStep::Filtered => StepModel::Filtered,
            SampleStep::NoData => StepModel::NoData,
            SampleStep::ExportFsb5 { file } => StepModel::ExportFsb5 { file: file@ },
            SampleStep::Vgmstream { temporary, wav } => StepModel::Vgmstream {
                temporary: temporary@,
                wav: wav@,
            },
            SampleStep::Write { wav, audio } => StepModel::Write { wav: wav@, audio: audio@ },
            SampleStep::Undecodable { error } => StepModel::Undecodable { error },
        }
    }
}

/// What is done with sample `i` of a bank.
pub open spec fn step_of(
    bank: Fsb5Model,
    i: int,
    filter: Option<Seq<char>>,
    export_fsb5: bool,
) -> StepModel {
    let name = safe(sample_title(bank, i));
    let codec = codec_number(bank.header.codec);
    let channels = channel_number(bank.samples[i].channels) as u16;
    if !passes(sample_title(bank, i), filter) {
        StepModel::Filtered
    } else {
        match sample_bytes(bank, i) {
            Err(_) => StepModel::NoData,
            Ok(data) => if codec == CODEC_VORBIS && export_fsb5 {
                StepModel::ExportFsb5 { file: name + ".fsb"@ }
            } else if codec == CODEC_VORBIS {
                StepModel::Vgmstream { temporary: name + ".fsb"@, wav: name + ".wav"@ }
            } else {
                match audio_of(codec, data, channels, bank.samples[i].sample_rate) {
                    Ok(audio) => StepModel::Write { wav: wav_name(name), audio },
                    Err(error) => StepModel::Undecodable { error },
                }
            },
        }
    }
}

/// The files that a step names stand in the directory that they are put in: their names
/// hold no separator of directories.
pub open spec fn step_stays_inside(step: StepModel) -> bool {
    match step {
        StepModel::ExportFsb5 { file } => fit_for_file(file),
        StepModel::Vgmstream { temporary, wav } => fit_for_file(temporary) && fit_for_file(wav),
        StepModel::Write { wav, audio } => fit_for_file(wav),
        _ => true,
    }
}

/// Whatever a sample is called, the files that are made for it stay in the directory
/// that they are put in.
pub proof fn law_step_stays_inside(
    bank: Fsb5Model,
    i: int,
    filter: Option<Seq<char>>,
    export_fsb5: bool,
)
    ensures
        step_stays_inside(step_of(bank, i, filter, export_fsb5)),
{
    reveal_strlit(".fsb");
    reveal_strlit(".wav");
    law_sanitized_is_fit(sample_title(bank, i));
    law_sanitized_is_fit(safe(sample_title(bank, i)));
}

/// A name with an ending.
pub(crate) fn with_ending(name: &String, ending: &str) -> (r: String)
    ensures
        r@ == name@ + ending@,
{
    let mut out = name.clone();
    out.push_str(ending);
    out
}

/// Decides what is done with a sample of a bank.
pub fn sample_step(fsb5: &Fsb5, index: usize, filter: &Option<String>, export_fsb5: bool) -> (r:
    SampleStep)
    requires
        index < fsb5.samples.len(),
    ensures
        r@ == step_of(fsb5@, index as int, opt_text(*filter), export_fsb5),
{
    let title = fsb5.sample_name(index);
    if !matches_filter(title, filter) {
        return SampleStep::Filtered;
    }
    let codec_id: u32 = codec_to_u32(&fsb5.header.codec);
    let channels: u16 = channel_count(&fsb5.samples[index].channels);
    let sample_rate: u32 = fsb5.samples[index].sample_rate;
    let data = match fsb5.sample_data(index) {
        Ok(d) => d,
        Err(_) => {
            return SampleStep::NoData;
        },
    };
    let name = safe_name(title);
    if codec_id == CODEC_VORBIS {
        if export_fsb5 {
            return SampleStep::ExportFsb5 { file: with_ending(&name, ".fsb") };
        }
        return SampleStep::Vgmstream {
            temporary: with_ending(&name, ".fsb"),
            wav: with_ending(&name, ".wav"),
        };
    }
    match decode_audio(codec_id, data, channels, sample_rate) {
        Ok(audio) => SampleStep::Write { wav: wav_file_name(name.as_str()), audio },
        Err(error) => SampleStep::Undecodable { error },
    }
}

/// A sample is passed over exactly where the filter does not let it through, that is,
/// where it is not listed either.
pub proof fn law_filter_rules_steps(
    bank: Fsb5Model,
    i: int,
    filter: Option<Seq<char>>,
    export_fsb5: bool,
)
    ensures
        step_of(bank, i, filter, export_fsb5) is Filtered <==> !passes(
            sample_title(bank, i),
            filter,
        ),
        passes(sample_title(bank, i), filter) ==> step_of(bank, i, filter, export_fsb5) == step_of(
            bank,
            i,
            None,
            export_fsb5,
        ),
{
}

/// Samples in Vorbis, and no others, are left to the outside program or exported; what
/// is asked for exports makes no difference to the rest.
pub proof fn law_only_vorbis_leaves(
    bank: Fsb5Model,
    i: int,
    filter: Option<Seq<char>>,
    export_fsb5: bool,
)
    ensures
        codec_number(bank.header.codec) == CODEC_VORBIS ==> {
            let step = step_of(bank, i, filter, export_fsb5);
            step is Filtered || step is NoData || (if export_fsb5 {
                step is ExportFsb5
            } else {
                step is Vgmstream
            })
        },
        codec_number(bank.header.codec) != CODEC_VORBIS ==> {
            let step = step_of(bank, i, filter, export_fsb5);
            &&& step is Filtered || step is NoData || step is Write || step is Undecodable
            &&& step == step_of(bank, i, filter, !export_fsb5)
        },
{
}

/// A sample in PCM whose data divide evenly is written, with its channels and its rate.
pub proof fn law_pcm_is_written(bank: Fsb5Model, i: int, data: Seq<u8>, audio: AudioModel)
    requires
        sample_bytes(bank, i) == Ok::<_, Fsb5Error>(data),
        codec_number(bank.header.codec) != CODEC_VORBIS,
        audio_of(
            codec_number(bank.header.codec),
            data,
            channel_number(bank.samples[i].channels) as u16,
            bank.samples[i].sample_rate,
        ) == Ok::<_, DecodeError>(audio),
    ensures
        step_of(bank, i, None, false) == (StepModel::Write {
            wav: safe(sample_title(bank, i)) + ".wav"@,
            audio,
        }),
{
    law_sanitize_settles(sample_title(bank, i));
}

/// The name of the directory that a bank is written to where none is given.
pub fn default_output_dir(stem: &str) -> (r: String)
    ensures
        r@ == stem@ + "_decoded"@,
{
    let mut out = stem.to_owned();
    out.push_str("_decoded");
    out
}

/// A byte with ASCII letters in lower case.
pub open spec fn lower_byte(b: u8) -> u8 {
    if 0x41 <= b <= 0x5A {
        (b + 0x20) as u8
    } else {
        b
    }
}

/// Bytes with ASCII letters in lower case.
pub open spec fn lower_bytes(s: Seq<u8>) -> Seq<u8> {
    Seq::new(s.len(), |i: int| lower_byte(s[i]))
}

/// Whether a file extension, in bytes, is `bank`, whatever the case of its letters.
pub fn is_bank_extension(extension: &[u8]) -> (r: bool)
    ensures
        r == (lower_bytes(extension@) == seq![0x62u8, 0x61u8, 0x6Eu8, 0x6Bu8]),
{
    let ghost lower = lower_bytes(extension@);
    if extension.len() != 4 {
        assert(lower.len() != 4);
        return false;
    }
    let r: bool = (extension[0] == 0x62 || extension[0] == 0x42) && (extension[1] == 0x61
        || extension[1] == 0x41) && (extension[2] == 0x6E || extension[2] == 0x4E) && (extension[3]
        == 0x6B || extension[3] == 0x4B);
    proof {
        if r {
            assert(lower =~= seq![0x62u8, 0x61u8, 0x6Eu8, 0x6Bu8]);
        } else {
            assert(lower[0] != 0x62 || lower[1] != 0x61 || lower[2] != 0x6E || lower[3] != 0x6B);
        }
    }
    r
}

} // verus!
