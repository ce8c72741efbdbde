//! The FSB5 sample bank: header, sample headers, names and sample data.

use vstd::prelude::*;
use vstd::slice::{slice_subrange, slice_to_vec};

use crate::bytes::{four_bytes, le_u32, le_u64, same_tag, tag_at, u32_at, u64_at};
use crate::riff::FSB5_MAGIC;
use crate::text::{decimal, from_utf8_lossy, push_decimal, text_of};

verus! {

/// The nominal header size of a bank whose version is not 1.
pub const FSB5_HEADER_SIZE_V0: u32 = 0x40;

/// The header size of a bank of version 1.
pub const FSB5_HEADER_SIZE_V1: u32 = 0x3C;

/// The sample rates that a sample header names by index.
pub const SAMPLE_RATE_TABLE: [u32; 11] = [
    4000,
    8000,
    11000,
    11025,
    16000,
    22050,
    24000,
    32000,
    44100,
    48000,
    96000,
];

/// Why a sample bank could not be read.
#[derive(Debug, Clone, Copy, PartialEq, Eq)]
pub enum Fsb5Error {
    /// The input has no room for magic and version.
    TooSmall { len: usize },
    /// The input does not begin with `FSB5`.
    BadMagic { found: [u8; 4] },
    /// The input has no room for the header of its version.
    HeaderTooSmall { version: u32, len: usize, needed: u32 },
    /// The input ends in the fixed part of a sample header.
    SampleHeader { sample: u32 },
    /// The input ends in the header of an extra data chunk.
    ExtraHeader,
    /// The input ends in the body of an extra data chunk.
    ExtraBody { chunk_type: u8 },
    /// The name table reaches past the end of the input.
    NameTablePastEnd { start: usize, size: u32, len: usize },
    /// The input ends among the offsets of the name table.
    NameOffsets,
    /// There is no sample of this index.
    NoSample { index: usize },
    /// The data of a sample begin past the end of the data.
    SampleOffset { offset: u32, len: usize },
}

/// How the samples of a bank are encoded.
#[derive(Debug, Clone, Copy, PartialEq, Eq)]
pub enum Fsb5Codec {
    Pcm8,
    Pcm16,
    PcMFLOAT,
    Mpeg,
    Vorbis,
    Unknown(u32),
}

/// The codec with a number.
pub open spec fn codec_of(v: u32) -> Fsb5Codec {
    if v == 1 {
        Fsb5Codec::Pcm8
    } else if v == 2 {
        Fsb5Codec::Pcm16
    } else if v == 5 {
        Fsb5Codec::PcMFLOAT
    } else if v == 11 {
        Fsb5Codec::Mpeg
    } else if v == 15 {
        Fsb5Codec::Vorbis
    } else {
        Fsb5Codec::Unknown(v)
    }
}

impl Fsb5Codec {
    /// The codec with a number.
    pub fn from_u32(v: u32) -> (r: Self)
        ensures
            r == codec_of(v),
    {
        match v {
            1 => Self::Pcm8,
            2 => Self::Pcm16,
            5 => Self::PcMFLOAT,
            11 => Self::Mpeg,
            15 => Self::Vorbis,
            other => Self::Unknown(other),
        }
    }
}

/// The speaker layout of a sample.
#[derive(Debug, Clone, Copy, PartialEq, Eq)]
pub enum Fsb5Channels {
    Mono,
    Stereo,
    Surround5_1,
    Surround7_1,
    Unknown(u8),
}

/// The layout with a code.
pub open spec fn channels_of(bits: u8) -> Fsb5Channels {
    if bits == 0 {
        Fsb5Channels::Mono
    } else if bits == 1 {
        Fsb5Channels::Stereo
    } else if bits == 2 {
        Fsb5Channels::Surround5_1
    } else if bits == 3 {
        Fsb5Channels::Surround7_1
    } else {
        Fsb5Channels::Unknown(bits)
    }
}

/// How many channels a layout has; none where it is unknown.
pub open spec fn channel_number(channels: Fsb5Channels) -> u32 {
    match channels {
        Fsb5Channels::Mono => 1,
        Fsb5Channels::Stereo => 2,
        Fsb5Channels::Surround5_1 => 6,
        Fsb5Channels::Surround7_1 => 8,
        Fsb5Channels::Unknown(_) => 0,
    }
}

impl Fsb5Channels {
    /// The layout with a code.
    pub fn from_bits(bits: u8) -> (r: Self)
        ensures
            r == channels_of(bits),
    {
        match bits {
            0 => Self::Mono,
            1 => Self::Stereo,
            2 => Self::Surround5_1,
            3 => Self::Surround7_1,
            other => Self::Unknown(other),
        }
    }

    /// How many channels the layout has; 0 where it is unknown.
    pub fn count(&self) -> (r: u32)
        ensures
            r == channel_number(*self),
    {
        match self {
            Self::Mono => 1,
            Self::Stereo => 2,
            Self::Surround5_1 => 6,
            Self::Surround7_1 => 8,
            Self::Unknown(_) => 0,
        }
    }
}

/// The first and the last frame of a loop.
#[derive(Debug, Clone)]
pub struct Fsb5LoopInfo {
    pub loop_start: u32,
    pub loop_end: u32,
}

/// The Vorbis setup of a sample.
#[derive(Debug, Clone)]
pub struct Fsb5VorbisInfo {
    pub setup_id: u32,
    pub seek_table: Vec<u8>,
}

/// One chunk of extra data of a sample.
#[derive(Debug, Clone)]
pub enum Fsb5ExtraData {
    Channels(u8),
    SampleRate(u32),
    LoopInfo(Fsb5LoopInfo),
    VorbisSetup(Fsb5VorbisInfo),
    Unknown { chunk_type: u8, data: Vec<u8> },
}

/// What is said of one sample.
#[derive(Debug, Clone)]
pub struct Fsb5SampleHeader {
    pub num_samples: u32,
    pub data_offset: u32,
    pub channels: Fsb5Channels,
    pub sample_rate: u32,
    pub has_extra_data: bool,
    pub extra_data: Vec<Fsb5ExtraData>,
}

/// The name of one sample.
#[derive(Debug, Clone)]
pub struct Fsb5NameEntry {
    pub index: u32,
    pub name: String,
}

/// The header of a sample bank.
#[derive(Debug, Clone)]
pub struct Fsb5Header {
    pub version: u32,
    pub num_samples: u32,
    pub sample_header_size: u32,
    pub name_table_size: u32,
    pub data_size: u32,
    pub codec: Fsb5Codec,
    pub flags: u32,
    pub hash: [u8; 16],
    pub unknown: [u8; 8],
}

/// A sample bank.
#[derive(Debug, Clone)]
pub struct Fsb5 {
    pub header: Fsb5Header,
    pub samples: Vec<Fsb5SampleHeader>,
    pub names: Vec<Fsb5NameEntry>,
    pub data: Vec<u8>,
}

/// What a chunk of extra data holds.
#[verifier::ext_equal]
pub enum ExtraModel {
    Channels(u8),
    SampleRate(u32),
    LoopInfo { loop_start: u32, loop_end: u32 },
    VorbisSetup { setup_id: u32, seek_table: Seq<u8> },
    Unknown { chunk_type: u8, data: Seq<u8> },
}

/// What a sample header holds.
#[verifier::ext_equal]
pub struct SampleModel {
    pub num_samples: u32,
    pub data_offset: u32,
    pub channels: Fsb5Channels,
    pub sample_rate: u32,
    pub has_extra_data: bool,
    pub extra_data: Seq<ExtraModel>,
}

/// What a name entry holds.
#[verifier::ext_equal]
pub struct NameModel {
    pub index: u32,
    pub name: Seq<char>,
}

/// What a sample bank holds.
#[verifier::ext_equal]
pub struct Fsb5Model {
    pub header: Fsb5Header,
    pub samples: Seq<SampleModel>,
    pub names: Seq<NameModel>,
    pub data: Seq<u8>,
}

impl View for Fsb5ExtraData {
    type V = ExtraModel;

    open spec fn view(&self) -> ExtraModel {
        match *self {
            Fsb5ExtraData::Channels(c) => ExtraModel::Channels(c),
            Fsb5ExtraData::SampleRate(r) => ExtraModel::SampleRate(r),
            Fsb5ExtraData::LoopInfo(l) => ExtraModel::LoopInfo {
                loop_start: l.loop_start,
                loop_end: l.loop_end,
            },
            Fsb5ExtraData::VorbisSetup(v) => ExtraModel::VorbisSetup {
                setup_id: v.setup_id,
                seek_table: v.seek_table@,
            },
            Fsb5ExtraData::Unknown { chunk_type, data } => ExtraModel::Unknown {
                chunk_type,
                data: data@,
            },
        }
    }
}

/// What each chunk of extra data holds.
pub open spec fn extra_models(items: Seq<Fsb5ExtraData>) -> Seq<ExtraModel> {
    Seq::new(items.len(), |i: int| items[i]@)
}

impl View for Fsb5SampleHeader {
    type V = SampleModel;

    open spec fn view(&self) -> SampleModel {
        SampleModel {
            num_samples: self.num_samples,
            data_offset: self.data_offset,
            channels: self.channels,
            sample_rate: self.sample_rate,
            has_extra_data: self.has_extra_data,
            extra_data: extra_models(self.extra_data@),
        }
    }
}

impl View for Fsb5NameEntry {
    type V = NameModel;

    open spec fn view(&self) -> NameModel {
        NameModel { index: self.index, name: self.name@ }
    }
}

/// What each sample header holds.
pub open spec fn sample_models(samples: Seq<Fsb5SampleHeader>) -> Seq<SampleModel> {
    Seq::new(samples.len(), |i: int| samples[i]@)
}

/// What each name entry holds.
pub open spec fn name_models(names: Seq<Fsb5NameEntry>) -> Seq<NameModel> {
    Seq::new(names.len(), |i: int| names[i]@)
}

impl View for Fsb5 {
    type V = Fsb5Model;

    open spec fn view(&self) -> Fsb5Model {
        Fsb5Model {
            header: self.header,
            samples: sample_models(self.samples@),
            names: name_models(self.names@),
            data: self.data@,
        }
    }
}

/// The nominal header size of a version, which the data offset counts.
pub open spec fn header_size(version: u32) -> u32 {
    if version == 1 {
        FSB5_HEADER_SIZE_V1
    } else {
        FSB5_HEADER_SIZE_V0
    }
}

/// Where the fields of the header end and the sample headers begin. A bank of version 1
/// has a word of flags more than others.
pub open spec fn fields_end(version: u32) -> int {
    if version == 1 {
        0x3C
    } else {
        0x38
    }
}

/// The sixteen bytes at `at`.
pub open spec fn bytes16_at(s: Seq<u8>, at: int) -> [u8; 16] {
    [
        s[at],
        s[at + 1],
        s[at + 2],
        s[at + 3],
        s[at + 4],
        s[at + 5],
        s[at + 6],
        s[at + 7],
        s[at + 8],
        s[at + 9],
        s[at + 10],
        s[at + 11],
        s[at + 12],
        s[at + 13],
        s[at + 14],
        s[at + 15],
    ]
}

/// The eight bytes at `at`.
pub open spec fn bytes8_at(s: Seq<u8>, at: int) -> [u8; 8] {
    [
        s[at],
        s[at + 1],
        s[at + 2],
        s[at + 3],
        s[at + 4],
        s[at + 5],
        s[at + 6],
        s[at + 7],
    ]
}

/// The header of a bank long enough to have one.
pub open spec fn header_at(s: Seq<u8>) -> Fsb5Header {
    let version = le_u32(s, 4);
    Fsb5Header {
        version,
        num_samples: le_u32(s, 8),
        sample_header_size: le_u32(s, 12),
        name_table_size: le_u32(s, 16),
        data_size: le_u32(s, 20),
        codec: codec_of(le_u32(s, 24)),
        flags: if version == 1 {
            le_u32(s, 32)
        } else {
            0
        },
        hash: bytes16_at(s, fields_end(version) - 24),
        unknown: bytes8_at(s, fields_end(version) - 8),
    }
}

/// The header of a bank, or why there is none.
pub open spec fn header_of(s: Seq<u8>) -> Result<Fsb5Header, Fsb5Error> {
    if s.len() < 8 {
        Err(Fsb5Error::TooSmall { len: s.len() as usize })
    } else if tag_at(s, 0) != FSB5_MAGIC {
        Err(Fsb5Error::BadMagic { found: tag_at(s, 0) })
    } else if s.len() < header_size(le_u32(s, 4)) {
        Err(
            Fsb5Error::HeaderTooSmall {
                version: le_u32(s, 4),
                len: s.len() as usize,
                needed: header_size(le_u32(s, 4)),
            },
        )
    } else {
        Ok(header_at(s))
    }
}

/// Whether another chunk of extra data follows: bit 0 of the chunk header.
pub open spec fn extra_continues(h: u32) -> bool {
    h % 2 == 1
}

/// The size of the body of a chunk of extra data: bits 1 to 24 of the chunk header.
pub open spec fn extra_size(h: u32) -> int {
    (h as int / 2) % 0x100_0000
}

/// The type of a chunk of extra data: bits 25 to 31 of the chunk header.
pub open spec fn extra_type(h: u32) -> u8 {
    (h as int / 0x200_0000) as u8
}

/// What a chunk of extra data says; nothing where a body of a known type is too short.
pub open spec fn extra_of(chunk_type: u8, body: Seq<u8>) -> Option<ExtraModel> {
    if chunk_type == 0x01 {
        if body.len() >= 1 {
            Some(ExtraModel::Channels(body[0]))
        } else {
            None
        }
    } else if chunk_type == 0x02 {
        if body.len() >= 4 {
            Some(ExtraModel::SampleRate(le_u32(body, 0)))
        } else {
            None
        }
    } else if chunk_type == 0x03 {
        if body.len() >= 8 {
            Some(ExtraModel::LoopInfo { loop_start: le_u32(body, 0), loop_end: le_u32(body, 4) })
        } else {
            None
        }
    } else if chunk_type == 0x0B {
        if body.len() >= 4 {
            Some(
                ExtraModel::VorbisSetup {
                    setup_id: le_u32(body, 0),
                    seek_table: body.subrange(4, body.len() as int),
                },
            )
        } else {
            None
        }
    } else {
        Some(ExtraModel::Unknown { chunk_type, data: body })
    }
}

/// An item as a list of none or one.
pub open spec fn as_list(item: Option<ExtraModel>) -> Seq<ExtraModel> {
    match item {
        Some(x) => seq![x],
        None => Seq::empty(),
    }
}

/// Where the body of the extra data chunk at `pos` ends.
pub open spec fn extra_end(s: Seq<u8>, pos: int) -> int {
    pos + 4 + extra_size(le_u32(s, pos))
}

/// What the extra data chunk at `pos` says.
pub open spec fn extra_at(s: Seq<u8>, pos: int) -> Seq<ExtraModel> {
    as_list(extra_of(extra_type(le_u32(s, pos)), s.subrange(pos + 4, extra_end(s, pos))))
}

/// The extra data from `pos` to the end of the first chunk that says that none follows,
/// and where that is; or how the input ends before.
pub open spec fn extras_from(s: Seq<u8>, pos: int) -> Result<(Seq<ExtraModel>, int), Fsb5Error>
    decreases s.len() - pos,
{
    if pos + 4 > s.len() {
        Err(Fsb5Error::ExtraHeader)
    } else if extra_end(s, pos) > s.len() {
        Err(Fsb5Error::ExtraBody { chunk_type: extra_type(le_u32(s, pos)) })
    } else if !extra_continues(le_u32(s, pos)) {
        Ok((extra_at(s, pos), extra_end(s, pos)))
    } else {
        match extras_from(s, extra_end(s, pos)) {
            Ok((rest, end)) => Ok((extra_at(s, pos) + rest, end)),
            Err(e) => Err(e),
        }
    }
}

/// Whether extra data follow a sample header: bit 0.
pub open spec fn packed_has_extra(p: u64) -> bool {
    p % 2 == 1
}

/// The index of the sample rate: bits 1 to 4.
pub open spec fn packed_rate_index(p: u64) -> int {
    (p as int / 0x2) % 0x10
}

/// The code of the layout: bits 5 and 6.
pub open spec fn packed_channels(p: u64) -> u8 {
    ((p as int / 0x20) % 0x4) as u8
}

/// The offset of the data, which is kept in units of 32 bytes: bits 7 to 33.
pub open spec fn packed_offset(p: u64) -> u32 {
    (((p as int / 0x80) % 0x800_0000) * 32) as u32
}

/// The length in frames: bits 34 to 63.
pub open spec fn packed_frames(p: u64) -> u32 {
    (p as int / 0x4_0000_0000) as u32
}

/// The sample rate with an index; 0 where the table has none.
pub open spec fn rate_of(index: int) -> u32 {
    if index < 11 {
        SAMPLE_RATE_TABLE[index]
    } else {
        0
    }
}

/// The sample header that a packed word and its extra data make up.
pub open spec fn sample_of(p: u64, extra_data: Seq<ExtraModel>) -> SampleModel {
    SampleModel {
        num_samples: packed_frames(p),
        data_offset: packed_offset(p),
        channels: channels_of(packed_channels(p)),
        sample_rate: rate_of(packed_rate_index(p)),
        has_extra_data: packed_has_extra(p),
        extra_data,
    }
}

/// The header of sample `index`, which begins at `pos`, and where it ends.
pub open spec fn sample_at(s: Seq<u8>, pos: int, index: u32) -> Result<
    (SampleModel, int),
    Fsb5Error,
> {
    if pos + 8 > s.len() {
        Err(Fsb5Error::SampleHeader { sample: index })
    } else if !packed_has_extra(le_u64(s, pos)) {
        Ok((sample_of(le_u64(s, pos), Seq::empty()), pos + 8))
    } else {
        match extras_from(s, pos + 8) {
            Ok((extra_data, end)) => Ok((sample_of(le_u64(s, pos), extra_data), end)),
            Err(e) => Err(e),
        }
    }
}

/// The first `n` sample headers, which begin at `start`, and where they end.
pub open spec fn samples_upto(s: Seq<u8>, start: int, n: nat) -> Result<
    (Seq<SampleModel>, int),
    Fsb5Error,
>
    decreases n,
{
    if n == 0 {
        Ok((Seq::empty(), start))
    } else {
        match samples_upto(s, start, (n - 1) as nat) {
            Ok((samples, pos)) => match sample_at(s, pos, (n - 1) as u32) {
                Ok((sample, end)) => Ok((samples.push(sample), end)),
                Err(e) => Err(e),
            },
            Err(e) => Err(e),
        }
    }
}

/// The first place from `at` on where a zero stands, or the end.
pub open spec fn zero_from(s: Seq<u8>, at: int) -> int
    decreases s.len() - at,
{
    if at >= s.len() || s[at] == 0 {
        at
    } else {
        zero_from(s, at + 1)
    }
}

/// The name of sample `index`: the text from `offset` in the name table to the next
/// zero; a made-up one where the offset is past the table.
pub open spec fn name_of(table: Seq<u8>, offset: int, index: int) -> Seq<char> {
    if offset >= table.len() {
        "sample_"@ + decimal(index as nat)
    } else {
        text_of(table.subrange(offset, zero_from(table, offset)))
    }
}

/// The names of `n` samples in a table of `size` bytes that begins at `start` with the
/// offset of each name; none where there is no table.
pub open spec fn names_of(s: Seq<u8>, start: int, size: u32, n: u32) -> Result<
    Seq<NameModel>,
    Fsb5Error,
> {
    if size == 0 {
        Ok(Seq::empty())
    } else if start + size > s.len() {
        Err(
            Fsb5Error::NameTablePastEnd { start: start as usize, size, len: s.len() as usize },
        )
    } else if start + 4 * n > s.len() {
        Err(Fsb5Error::NameOffsets)
    } else {
        let table = s.subrange(start, start + size);
        Ok(
            Seq::new(
                n as nat,
                |i: int|
                    NameModel {
                        index: i as u32,
                        name: name_of(table, le_u32(s, start + 4 * i) as int, i),
                    },
            ),
        )
    }
}

/// Where the sample data begin: after header, sample headers and name table, counted
/// modulo two to the thirty-second.
pub open spec fn data_start(h: Fsb5Header) -> int {
    (header_size(h.version) + h.sample_header_size + h.name_table_size) % 0x1_0000_0000
}

/// The sample data of a bank: all that follows its tables.
pub open spec fn data_of(s: Seq<u8>, h: Fsb5Header) -> Seq<u8> {
    if data_start(h) < s.len() {
        s.subrange(data_start(h), s.len() as int)
    } else {
        Seq::empty()
    }
}

/// What a run of bytes holds as a sample bank, or why it is none.
pub open spec fn fsb5_of(s: Seq<u8>) -> Result<Fsb5Model, Fsb5Error> {
    match header_of(s) {
        Err(e) => Err(e),
        Ok(header) => match samples_upto(s, fields_end(header.version), header.num_samples as nat) {
            Err(e) => Err(e),
            Ok((samples, end)) => match names_of(
                s,
                end,
                header.name_table_size,
                header.num_samples,
            ) {
                Err(e) => Err(e),
                Ok(names) => Ok(Fsb5Model { header, samples, names, data: data_of(s, header) }),
            },
        },
    }
}

/// Reads the body of a chunk of extra data.
fn read_extra(chunk_type: u8, body: &[u8]) -> (r: Option<Fsb5ExtraData>)
    ensures
        match r {
            Some(x) => extra_of(chunk_type, body@) == Some(x@),
            None => extra_of(chunk_type, body@) is None,
        },
{
    match chunk_type {
        0x01 => if body.len() >= 1 {
            Some(Fsb5ExtraData::Channels(body[0]))
        } else {
            None
        },
        0x02 => match u32_at(body, 0) {
            Some(rate) => Some(Fsb5ExtraData::SampleRate(rate)),
            None => None,
        },
        0x03 => if body.len() >= 8 {
            let loop_start: u32 = u32_at(body, 0).unwrap();
            let loop_end: u32 = u32_at(body, 4).unwrap();
            Some(Fsb5ExtraData::LoopInfo(Fsb5LoopInfo { loop_start, loop_end }))
        } else {
            None
        },
        0x0B => match u32_at(body, 0) {
            Some(setup_id) => {
                let seek_table = slice_to_vec(slice_subrange(body, 4, body.len()));
                Some(Fsb5ExtraData::VorbisSetup(Fsb5VorbisInfo { setup_id, seek_table }))
            },
            None => None,
        },
        _ => Some(Fsb5ExtraData::Unknown { chunk_type, data: slice_to_vec(body) }),
    }
}

/// The fields of the header of an extra data chunk are its bits.
proof fn lemma_extra_bits(h: u32)
    ensures
        (h & 0x1 == 1) == extra_continues(h),
        (h >> 1) & 0x00FF_FFFF == extra_size(h),
        (h >> 25) & 0x7F == extra_type(h),
{
    assert((h & 0x1 == 1) == (h % 2 == 1)) by (bit_vector);
    assert((h >> 1) & 0x00FF_FFFF == (h / 2) % 0x100_0000) by (bit_vector);
    assert((h >> 25) & 0x7F == h / 0x200_0000) by (bit_vector);
}

/// Takes the header of an extra data chunk apart: whether another chunk follows, the
/// size of the body, and the type.
fn split_extra_head(h: u32) -> (r: (bool, usize, u8))
    ensures
        r.0 == extra_continues(h),
        r.1 == extra_size(h),
        r.2 == extra_type(h),
{
    proof {
        lemma_extra_bits(h);
    }
    ((h & 0x1) == 1, ((h >> 1) & 0x00FF_FFFF) as usize, ((h >> 25) & 0x7F) as u8)
}

/// The outcome of `extras_from` where the items of `done` come before those of `rest`.
spec fn extras_after(
    done: Seq<ExtraModel>,
    rest: Result<(Seq<ExtraModel>, int), Fsb5Error>,
) -> Result<(Seq<ExtraModel>, int), Fsb5Error> {
    match rest {
        Ok((items, end)) => Ok((done + items, end)),
        Err(e) => Err(e),
    }
}

/// Reads the extra data that begin at `start`.
fn read_extras(input: &[u8], start: usize) -> (r: Result<
    (Vec<Fsb5ExtraData>, usize),
    Fsb5Error,
>)
    requires
        start <= input@.len(),
    ensures
        match r {
            Ok((items, end)) => end <= input@.len() && extras_from(input@, start as int) == Ok::<
                _,
                Fsb5Error,
            >((extra_models(items@), end as int)),
            Err(e) => extras_from(input@, start as int) == Err::<(Seq<ExtraModel>, int), _>(e),
        },
{
    let mut items: Vec<Fsb5ExtraData> = Vec::new();
    let mut pos: usize = start;
    assert(extra_models(items@) =~= Seq::empty());
    assert(extras_after(extra_models(items@), extras_from(input@, pos as int)) == extras_from(
        input@,
        start as int,
    )) by {
        match extras_from(input@, pos as int) {
            Ok((rest, _)) => {
                assert(Seq::<ExtraModel>::empty() + rest =~= rest);
            },
            Err(_) => {},
        }
    }
    loop
        invariant
            pos <= input@.len(),
            start <= input@.len(),
            extras_after(extra_models(items@), extras_from(input@, pos as int)) == extras_from(
                input@,
                start as int,
            ),
        decreases input@.len() - pos,
    {
        let head: u32 = match u32_at(input, pos) {
            Some(v) => v,
            None => {
                return Err(Fsb5Error::ExtraHeader);
            },
        };
        let (continues, size, chunk_type) = split_extra_head(head);
        let body: usize = pos + 4;
        if input.len() - body < size {
            return Err(Fsb5Error::ExtraBody { chunk_type });
        }
        let end: usize = body + size;
        let ghost before = extra_models(items@);
        let ghost said = extra_at(input@, pos as int);
        if let Some(item) = read_extra(chunk_type, slice_subrange(input, body, end)) {
            items.push(item);
        }
        proof {
            assert(extra_models(items@) =~= before + said);
        }
        if !continues {
            return Ok((items, end));
        }
        proof {
            match extras_from(input@, end as int) {
                Ok((rest, _)) => {
                    assert(before + (said + rest) =~= (before + said) + rest);
                },
                Err(_) => {},
            }
        }
        pos = end;
    }
}

/// The fields of a packed sample header are its bits.
proof fn lemma_packed_bits(p: u64)
    ensures
        (p & 0x1 == 1) == packed_has_extra(p),
        (p >> 1) & 0x0F == packed_rate_index(p),
        (p >> 5) & 0x3 == packed_channels(p),
        (p >> 7) & 0x07FF_FFFF == (p as int / 0x80) % 0x800_0000,
        (p >> 34) & 0x3FFF_FFFF == packed_frames(p),
{
    assert((p & 0x1 == 1) == (p % 2 == 1)) by (bit_vector);
    assert((p >> 1) & 0x0F == (p / 2) % 0x10) by (bit_vector);
    assert((p >> 5) & 0x3 == (p / 0x20) % 0x4) by (bit_vector);
    assert((p >> 7) & 0x07FF_FFFF == (p / 0x80) % 0x800_0000) by (bit_vector);
    assert((p >> 34) & 0x3FFF_FFFF == p / 0x4_0000_0000) by (bit_vector);
}

/// Whether extra data follow the packed sample header.
fn has_extra(p: u64) -> (r: bool)
    ensures
        r == packed_has_extra(p),
{
    proof {
        lemma_packed_bits(p);
    }
    (p & 0x1) == 1
}

/// The sample header that a packed word and its extra data make up.
fn unpack_sample(p: u64, extra_data: Vec<Fsb5ExtraData>) -> (r: Fsb5SampleHeader)
    ensures
        r@ == sample_of(p, extra_models(extra_data@)),
{
    proof {
        lemma_packed_bits(p);
    }
    let rate_index: usize = ((p >> 1) & 0x0F) as usize;
    let offset_units: u32 = ((p >> 7) & 0x07FF_FFFF) as u32;
    Fsb5SampleHeader {
        num_samples: ((p >> 34) & 0x3FFF_FFFF) as u32,
        data_offset: offset_units * 32,
        channels: Fsb5Channels::from_bits(((p >> 5) & 0x3) as u8),
        sample_rate: if rate_index < 11 {
            SAMPLE_RATE_TABLE[rate_index]
        } else {
            0
        },
        has_extra_data: (p & 0x1) == 1,
        extra_data,
    }
}

/// Reads the header of sample `index`, which begins at `pos`.
fn read_sample(input: &[u8], pos: usize, index: u32) -> (r: Result<
    (Fsb5SampleHeader, usize),
    Fsb5Error,
>)
    requires
        pos <= input@.len(),
    ensures
        match r {
            Ok((sample, end)) => end <= input@.len() && sample_at(input@, pos as int, index)
                == Ok::<_, Fsb5Error>((sample@, end as int)),
            Err(e) => sample_at(input@, pos as int, index) == Err::<(SampleModel, int), _>(e),
        },
{
    let packed: u64 = match u64_at(input, pos) {
        Some(v) => v,
        None => {
            return Err(Fsb5Error::SampleHeader { sample: index });
        },
    };
    let (extra_data, end) = if has_extra(packed) {
        read_extras(input, pos + 8)?
    } else {
        (Vec::new(), pos + 8)
    };
    proof {
        if !packed_has_extra(packed) {
            assert(extra_models(extra_data@) =~= Seq::empty());
        }
    }
    Ok((unpack_sample(packed, extra_data), end))
}

/// A sample header that cannot be read spoils every longer list.
proof fn lemma_samples_error(s: Seq<u8>, start: int, k: nat, n: nat)
    requires
        k <= n,
        samples_upto(s, start, k) is Err,
    ensures
        samples_upto(s, start, n) == samples_upto(s, start, k),
    decreases n - k,
{
    if k < n {
        lemma_samples_error(s, start, k, (n - 1) as nat);
    }
}

/// Reads `n` sample headers, which begin at `start`.
fn read_samples(input: &[u8], start: usize, n: u32) -> (r: Result<
    (Vec<Fsb5SampleHeader>, usize),
    Fsb5Error,
>)
    requires
        start <= input@.len(),
    ensures
        match r {
            Ok((samples, end)) => end <= input@.len() && samples_upto(
                input@,
                start as int,
                n as nat,
            ) == Ok::<_, Fsb5Error>((sample_models(samples@), end as int)),
            Err(e) => samples_upto(input@, start as int, n as nat) == Err::<
                (Seq<SampleModel>, int),
                _,
            >(e),
        },
{
    let mut samples: Vec<Fsb5SampleHeader> = Vec::new();
    let mut pos: usize = start;
    let mut i: u32 = 0;
    assert(sample_models(samples@) =~= Seq::empty());
    while i < n
        invariant
            i <= n,
            pos <= input@.len(),
            samples_upto(input@, start as int, i as nat) == Ok::<_, Fsb5Error>(
                (sample_models(samples@), pos as int),
            ),
        decreases n - i,
    {
        let ghost before = sample_models(samples@);
        match read_sample(input, pos, i) {
            Ok((sample, end)) => {
                let ghost model = sample@;
                samples.push(sample);
                pos = end;
                assert(sample_models(samples@) =~= before.push(model));
            },
            Err(e) => {
                proof {
                    assert(samples_upto(input@, start as int, (i + 1) as nat) == Err::<
                        (Seq<SampleModel>, int),
                        _,
                    >(e));
                    lemma_samples_error(input@, start as int, (i + 1) as nat, n as nat);
                }
                return Err(e);
            },
        }
        i = i + 1;
    }
    Ok((samples, pos))
}

/// Finds the first zero from `at` on, or the end.
fn find_zero(s: &[u8], at: usize) -> (r: usize)
    requires
        at <= s@.len(),
    ensures
        at <= r <= s@.len(),
        r == zero_from(s@, at as int),
{
    let mut i: usize = at;
    while i < s.len() && s[i] != 0
        invariant
            at <= i <= s@.len(),
            zero_from(s@, at as int) == zero_from(s@, i as int),
        decreases s@.len() - i,
    {
        i = i + 1;
    }
    i
}

/// Reads the name of sample `index` at `offset` in the name table.
fn read_name(table: &[u8], offset: u32, index: u32) -> (r: String)
    ensures
        r@ == name_of(table@, offset as int, index as int),
{
    if offset as usize >= table.len() {
        let mut name = String::new();
        name.push_str("sample_");
        push_decimal(&mut name, index as u64);
        assert(name@ =~= "sample_"@ + decimal(index as nat));
        name
    } else {
        let end: usize = find_zero(table, offset as usize);
        from_utf8_lossy(slice_subrange(table, offset as usize, end))
    }
}

/// Reads the names of `n` samples from the table of `size` bytes that begins at `start`.
fn read_names(input: &[u8], start: usize, size: u32, n: u32) -> (r: Result<
    Vec<Fsb5NameEntry>,
    Fsb5Error,
>)
    requires
        start <= input@.len(),
    ensures
        match r {
            Ok(names) => names_of(input@, start as int, size, n) == Ok::<_, Fsb5Error>(
                name_models(names@),
            ),
            Err(e) => names_of(input@, start as int, size, n) == Err::<Seq<NameModel>, _>(e),
        },
{
    let mut names: Vec<Fsb5NameEntry> = Vec::new();
    if size == 0 {
        assert(name_models(names@) =~= Seq::empty());
        return Ok(names);
    }
    if size as usize > input.len() - start {
        return Err(Fsb5Error::NameTablePastEnd { start, size, len: input.len() });
    }
    let table = slice_subrange(input, start, start + size as usize);
    let mut pos: usize = start;
    let mut i: u32 = 0;
    while i < n
        invariant
            i <= n,
            size > 0,
            start + size <= input@.len(),
            table@ == input@.subrange(start as int, start + size),
            pos == start + 4 * i,
            pos <= input.len(),
            names@.len() == i,
            forall|k: int|
                0 <= k < i ==> #[trigger] names@[k]@ == (NameModel {
                    index: k as u32,
                    name: name_of(table@, le_u32(input@, start + 4 * k) as int, k),
                }),
        decreases n - i,
    {
        let offset: u32 = match u32_at(input, pos) {
            Some(v) => v,
            None => {
                return Err(Fsb5Error::NameOffsets);
            },
        };
        names.push(Fsb5NameEntry { index: i, name: read_name(table, offset, i) });
        pos = pos + 4;
        i = i + 1;
    }
    proof {
        assert(name_models(names@) =~= names_of(input@, start as int, size, n)->Ok_0);
    }
    Ok(names)
}

/// Reads the sixteen bytes at `at`.
fn sixteen_bytes(data: &[u8], at: usize) -> (r: [u8; 16])
    requires
        at + 16 <= data.len(),
    ensures
        r == bytes16_at(data@, at as int),
{
    [
        data[at],
        data[at + 1],
        data[at + 2],
        data[at + 3],
        data[at + 4],
        data[at + 5],
        data[at + 6],
        data[at + 7],
        data[at + 8],
        data[at + 9],
        data[at + 10],
        data[at + 11],
        data[at + 12],
        data[at + 13],
        data[at + 14],
        data[at + 15],
    ]
}

/// Reads the eight bytes at `at`.
fn eight_bytes(data: &[u8], at: usize) -> (r: [u8; 8])
    requires
        at + 8 <= data.len(),
    ensures
        r == bytes8_at(data@, at as int),
{
    [
        data[at],
        data[at + 1],
        data[at + 2],
        data[at + 3],
        data[at + 4],
        data[at + 5],
        data[at + 6],
        data[at + 7],
    ]
}

/// Reads the header of a bank.
fn read_header(input: &[u8]) -> (r: Result<Fsb5Header, Fsb5Error>)
    ensures
        match r {
            Ok(h) => header_of(input@) == Ok::<_, Fsb5Error>(h) && fields_end(h.version)
                <= input@.len(),
            Err(e) => header_of(input@) == Err::<Fsb5Header, _>(e),
        },
{
    if input.len() < 8 {
        return Err(Fsb5Error::TooSmall { len: input.len() });
    }
    let magic = four_bytes(input, 0);
    if !same_tag(&magic, &FSB5_MAGIC) {
        return Err(Fsb5Error::BadMagic { found: magic });
    }
    let version: u32 = u32_at(input, 4).unwrap();
    let needed: u32 = if version == 1 {
        FSB5_HEADER_SIZE_V1
    } else {
        FSB5_HEADER_SIZE_V0
    };
    if input.len() < needed as usize {
        return Err(Fsb5Error::HeaderTooSmall { version, len: input.len(), needed });
    }
    let num_samples: u32 = u32_at(input, 8).unwrap();
    let sample_header_size: u32 = u32_at(input, 12).unwrap();
    let name_table_size: u32 = u32_at(input, 16).unwrap();
    let data_size: u32 = u32_at(input, 20).unwrap();
    let codec: u32 = u32_at(input, 24).unwrap();
    let flags: u32 = if version == 1 {
        u32_at(input, 32).unwrap()
    } else {
        0
    };
    let tail: usize = if version == 1 {
        36
    } else {
        32
    };
    Ok(
        Fsb5Header {
            version,
            num_samples,
            sample_header_size,
            name_table_size,
            data_size,
            codec: Fsb5Codec::from_u32(codec),
            flags,
            hash: sixteen_bytes(input, tail),
            unknown: eight_bytes(input, tail + 16),
        },
    )
}

/// Reads a sample bank.
pub fn parse_fsb5(input: &[u8]) -> (r: Result<Fsb5, Fsb5Error>)
    ensures
        match r {
            Ok(fsb5) => fsb5_of(input@) == Ok::<_, Fsb5Error>(fsb5@),
            Err(e) => fsb5_of(input@) == Err::<Fsb5Model, _>(e),
        },
{
    let header = read_header(input)?;
    let first: usize = if header.version == 1 {
        0x3C
    } else {
        0x38
    };
    let (samples, end) = read_samples(input, first, header.num_samples)?;
    let names = read_names(input, end, header.name_table_size, header.num_samples)?;
    let base: u32 = if header.version == 1 {
        FSB5_HEADER_SIZE_V1
    } else {
        FSB5_HEADER_SIZE_V0
    };
    let start: u32 = base.wrapping_add(header.sample_header_size).wrapping_add(
        header.name_table_size,
    );
    assert(start == data_start(header));
    let data: Vec<u8> = if (start as usize) < input.len() {
        slice_to_vec(slice_subrange(input, start as usize, input.len()))
    } else {
        Vec::new()
    };
    assert(data@ =~= data_of(input@, header));
    Ok(Fsb5 { header, samples, names, data })
}

impl Fsb5 {
    /// The data of a sample: all of the bank's data from its offset on.
    pub fn sample_data(&self, sample_index: usize) -> (r: Result<&[u8], Fsb5Error>)
        ensures
            match sample_bytes(self@, sample_index as int) {
                Ok(bytes) => r matches Ok(d) && d@ == bytes,
                Err(e) => r == Err::<&[u8], _>(e),
            },
    {
        if sample_index >= self.samples.len() {
            return Err(Fsb5Error::NoSample { index: sample_index });
        }
        let offset: u32 = self.samples[sample_index].data_offset;
        if offset as usize >= self.data.len() {
            return Err(Fsb5Error::SampleOffset { offset, len: self.data.len() });
        }
        Ok(slice_subrange(self.data.as_slice(), offset as usize, self.data.len()))
    }

    /// The name of a sample; `unknown` where it has none.
    pub fn sample_name(&self, sample_index: usize) -> (r: &str)
        ensures
            r@ == sample_title(self@, sample_index as int),
    {
        if sample_index < self.names.len() {
            self.names[sample_index].name.as_str()
        } else {
            "unknown"
        }
    }
}

/// The data of sample `i`, or why there are none.
pub open spec fn sample_bytes(bank: Fsb5Model, i: int) -> Result<Seq<u8>, Fsb5Error> {
    if i >= bank.samples.len() {
        Err(Fsb5Error::NoSample { index: i as usize })
    } else if bank.samples[i].data_offset >= bank.data.len() {
        Err(
            Fsb5Error::SampleOffset {
                offset: bank.samples[i].data_offset,
                len: bank.data.len() as usize,
            },
        )
    } else {
        Ok(bank.data.subrange(bank.samples[i].data_offset as int, bank.data.len() as int))
    }
}

/// The name of sample `i`; `unknown` where it has none.
pub open spec fn sample_title(bank: Fsb5Model, i: int) -> Seq<char> {
    if i < bank.names.len() {
        bank.names[i].name
    } else {
        "unknown"@
    }
}

/// What holds of every sample header that is read: its layout is known, its data begin
/// at a multiple of 32, its rate is of the table or 0, and it has extra data only where
/// it says so.
pub open spec fn sample_sane(sample: SampleModel) -> bool {
    &&& channel_number(sample.channels) == 1 || channel_number(sample.channels) == 2
        || channel_number(sample.channels) == 6 || channel_number(sample.channels) == 8
    &&& sample.data_offset % 32 == 0
    &&& sample.num_samples < 0x4000_0000
    &&& sample.sample_rate == 0 || exists|i: int|
        0 <= i < 11 && sample.sample_rate == #[trigger] SAMPLE_RATE_TABLE@[i]
    &&& !sample.has_extra_data ==> sample.extra_data.len() == 0
}

/// A sample header that is read is sane.
proof fn lemma_sample_sane(s: Seq<u8>, pos: int, index: u32)
    ensures
        sample_at(s, pos, index) matches Ok((sample, end)) ==> sample_sane(sample),
{
    if let Ok((sample, end)) = sample_at(s, pos, index) {
        let p = le_u64(s, pos);
        let i = packed_rate_index(p);
        assert(sample == sample_of(p, sample.extra_data));
        if i < 11 {
            assert(sample.sample_rate == SAMPLE_RATE_TABLE@[i]);
        }
    }
}

/// As many sample headers as asked for are read, and all of them are sane.
proof fn lemma_samples_sane(s: Seq<u8>, start: int, n: nat)
    ensures
        samples_upto(s, start, n) matches Ok((samples, end)) ==> {
            &&& samples.len() == n
            &&& forall|i: int| 0 <= i < n ==> sample_sane(#[trigger] samples[i])
        },
    decreases n,
{
    if n > 0 {
        lemma_samples_sane(s, start, (n - 1) as nat);
        if let Ok((samples, pos)) = samples_upto(s, start, (n - 1) as nat) {
            lemma_sample_sane(s, pos, (n - 1) as u32);
        }
    }
}

/// A bank that is read has as many samples as its header says, and a name for each, with
/// the index of the sample, unless it has no name table; its samples are sane, and its
/// data are the end of the input.
pub proof fn law_bank_shape(s: Seq<u8>, bank: Fsb5Model)
    requires
        fsb5_of(s) == Ok::<_, Fsb5Error>(bank),
    ensures
        bank.samples.len() == bank.header.num_samples,
        forall|i: int| 0 <= i < bank.samples.len() ==> sample_sane(#[trigger] bank.samples[i]),
        bank.names.len() == (if bank.header.name_table_size == 0 {
            0
        } else {
            bank.header.num_samples as int
        }),
        forall|i: int| 0 <= i < bank.names.len() ==> (#[trigger] bank.names[i]).index == i,
        bank.data.len() <= s.len(),
        bank.data == s.skip(s.len() - bank.data.len()),
{
    let h = bank.header;
    lemma_samples_sane(s, fields_end(h.version), h.num_samples as nat);
    assert(bank.data =~= s.skip(s.len() - bank.data.len()));
}

/// The data of a sample are never empty; they are the end of the data of the bank, from
/// the offset of the sample on. They can be had exactly where the offset lies before
/// that end.
pub proof fn law_sample_data_is_an_end(bank: Fsb5Model, i: int)
    requires
        0 <= i < bank.samples.len(),
    ensures
        sample_bytes(bank, i) is Ok <==> bank.samples[i].data_offset < bank.data.len(),
        sample_bytes(bank, i) matches Ok(bytes) ==> {
            &&& bytes.len() > 0
            &&& bytes == bank.data.skip(bank.samples[i].data_offset as int)
        },
{
    if bank.samples[i].data_offset < bank.data.len() {
        assert(sample_bytes(bank, i)->Ok_0 =~= bank.data.skip(bank.samples[i].data_offset as int));
    }
}

/// Numbers that stand in `s` stand in what begins with `s` too.
proof fn lemma_prefix_numbers(s: Seq<u8>, t: Seq<u8>, at: int)
    requires
        0 <= at,
    ensures
        at + 4 <= s.len() ==> le_u32(s + t, at) == le_u32(s, at),
        at + 8 <= s.len() ==> le_u64(s + t, at) == le_u64(s, at),
{
    reveal(le_u32);
    reveal(le_u64);
}

/// Extra data that end within `s` are read from what begins with `s` too.
proof fn lemma_prefix_extras(s: Seq<u8>, t: Seq<u8>, pos: int)
    requires
        0 <= pos,
    ensures
        extras_from(s, pos) matches Ok((items, end)) ==> {
            &&& pos <= end <= s.len()
            &&& extras_from(s + t, pos) == extras_from(s, pos)
        },
    decreases s.len() - pos,
{
    if pos + 4 <= s.len() && extra_end(s, pos) <= s.len() {
        lemma_prefix_numbers(s, t, pos);
        assert((s + t).subrange(pos + 4, extra_end(s, pos)) =~= s.subrange(
            pos + 4,
            extra_end(s, pos),
        ));
        if extra_continues(le_u32(s, pos)) {
            lemma_prefix_extras(s, t, extra_end(s, pos));
        }
    }
}

/// Sample headers that end within `s` are read from what begins with `s` too.
proof fn lemma_prefix_samples(s: Seq<u8>, t: Seq<u8>, start: int, n: nat)
    requires
        0 <= start,
    ensures
        samples_upto(s, start, n) matches Ok((samples, end)) ==> {
            &&& start <= end
            &&& samples_upto(s + t, start, n) == samples_upto(s, start, n)
        },
    decreases n,
{
    if n > 0 {
        lemma_prefix_samples(s, t, start, (n - 1) as nat);
        if let Ok((samples, pos)) = samples_upto(s, start, (n - 1) as nat) {
            if pos + 8 <= s.len() {
                lemma_prefix_numbers(s, t, pos);
                lemma_prefix_extras(s, t, pos + 8);
            }
        }
    }
}

/// Names whose table ends within `s` are read from what begins with `s` too.
proof fn lemma_prefix_names(s: Seq<u8>, t: Seq<u8>, start: int, size: u32, n: u32)
    requires
        0 <= start,
        names_of(s, start, size, n) is Ok,
    ensures
        names_of(s + t, start, size, n) == names_of(s, start, size, n),
{
    if size > 0 {
        assert((s + t).subrange(start, start + size) =~= s.subrange(start, start + size));
        assert forall|i: int| 0 <= i < n implies #[trigger] le_u32(s + t, start + 4 * i) == le_u32(
            s,
            start + 4 * i,
        ) by {
            lemma_prefix_numbers(s, t, start + 4 * i);
        }
        assert(names_of(s + t, start, size, n)->Ok_0 =~= names_of(s, start, size, n)->Ok_0);
    }
}

/// The header of `s` is the header of what begins with `s` too.
proof fn lemma_prefix_header(s: Seq<u8>, t: Seq<u8>)
    requires
        header_of(s) is Ok,
    ensures
        header_of(s + t) == header_of(s),
{
    let end = fields_end(le_u32(s, 4));
    assert(tag_at(s + t, 0) == tag_at(s, 0));
    lemma_prefix_numbers(s, t, 4);
    lemma_prefix_numbers(s, t, 8);
    lemma_prefix_numbers(s, t, 12);
    lemma_prefix_numbers(s, t, 16);
    lemma_prefix_numbers(s, t, 20);
    lemma_prefix_numbers(s, t, 24);
    lemma_prefix_numbers(s, t, 32);
    assert(bytes16_at(s + t, end - 24) == bytes16_at(s, end - 24));
    assert(bytes8_at(s + t, end - 8) == bytes8_at(s, end - 8));
}

/// Bytes put behind a sample bank only extend its data: header, samples and names stay,
/// and where the data began within the input or at its end, they are followed by the new
/// bytes.
pub proof fn law_appended_bytes_extend(s: Seq<u8>, t: Seq<u8>, bank: Fsb5Model)
    requires
        fsb5_of(s) == Ok::<_, Fsb5Error>(bank),
    ensures
        fsb5_of(s + t) == Ok::<_, Fsb5Error>(
            Fsb5Model { data: data_of(s + t, bank.header), ..bank },
        ),
        data_start(bank.header) <= s.len() ==> data_of(s + t, bank.header) == bank.data + t,
{
    let h = bank.header;
    let first = fields_end(h.version);
    lemma_prefix_header(s, t);
    lemma_prefix_samples(s, t, first, h.num_samples as nat);
    let end = samples_upto(s, first, h.num_samples as nat)->Ok_0.1;
    lemma_prefix_names(s, t, end, h.name_table_size, h.num_samples);
    if data_start(h) <= s.len() {
        assert(data_of(s + t, h) =~= bank.data + t);
    }
}

} // verus!
