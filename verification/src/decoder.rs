//! The PCM decoders.
//!
//! A decoder hands out the samples as the numbers that the bank holds. The amplitude
//! that a number stands for is given by its codec: `s` of PCM8 is `s / 127.5 - 1`, `s`
//! of PCM16 is `s / 32767`, and a sample of PCMFLOAT is the bit pattern of its
//! amplitude as a single-precision number.

use vstd::arithmetic::div_mod::{lemma_fundamental_div_mod, lemma_mod_multiples_basic};
use vstd::prelude::*;
use vstd::slice::slice_to_vec;

use crate::bytes::{i16_at, le_u16, le_u32, signed16, u32_at};

verus! {

/// The number of the codec PCM8.
pub const CODEC_PCM8: u32 = 0x01;

/// The number of the codec PCM16.
pub const CODEC_PCM16: u32 = 0x02;

/// The number of the codec PCMFLOAT.
pub const CODEC_PCMFLOAT: u32 = 0x05;

/// Why samples could not be decoded.
#[derive(Debug, Clone, Copy, PartialEq, Eq)]
pub enum DecodeError {
    /// There is no decoder for the codec.
    UnsupportedCodec { codec_id: u32 },
    /// The sample has no channels.
    NoChannels,
    /// The data do not split into frames of one byte per channel.
    Pcm8Length { len: usize, channels: u16 },
    /// The data do not split into samples of two bytes.
    Pcm16Length { len: usize },
    /// The data do not split into samples of four bytes.
    PcmFloatLength { len: usize },
    /// The samples do not split into frames of one sample per channel.
    SampleCount { count: usize, channels: u16 },
}

/// Decoded samples, the channels of a frame one after the other.
#[derive(Debug, Clone, PartialEq, Eq)]
pub enum PcmSamples {
    Pcm8(Vec<u8>),
    Pcm16(Vec<i16>),
    PcmFloat(Vec<u32>),
}

/// What decoded samples hold.
#[verifier::ext_equal]
pub enum SamplesModel {
    Pcm8(Seq<u8>),
    Pcm16(Seq<i16>),
    PcmFloat(Seq<u32>),
}

impl View for PcmSamples {
    type V = SamplesModel;

    open spec fn view(&self) -> SamplesModel {
        match *self {
            PcmSamples::Pcm8(v) => SamplesModel::Pcm8(v@),
            PcmSamples::Pcm16(v) => SamplesModel::Pcm16(v@),
            PcmSamples::PcmFloat(v) => SamplesModel::PcmFloat(v@),
        }
    }
}

/// How many samples there are.
pub open spec fn samples_len(samples: SamplesModel) -> nat {
    match samples {
        SamplesModel::Pcm8(v) => v.len(),
        SamplesModel::Pcm16(v) => v.len(),
        SamplesModel::PcmFloat(v) => v.len(),
    }
}

impl PcmSamples {
    /// How many samples there are.
    pub fn len(&self) -> (r: usize)
        ensures
            r == samples_len(self@),
    {
        match self {
            PcmSamples::Pcm8(v) => v.len(),
            PcmSamples::Pcm16(v) => v.len(),
            PcmSamples::PcmFloat(v) => v.len(),
        }
    }
}

/// The bit pattern of a single-precision number held to the range from -1 to 1. The
/// magnitude of a number grows with its lower 31 bits; 1 is `3F80_0000` and infinity is
/// `7F80_0000`, above which there are only patterns that are no numbers: these stay.
pub open spec fn clamped(bits: u32) -> u32 {
    let sign: u32 = if bits >= 0x8000_0000 {
        0x8000_0000
    } else {
        0
    };
    let magnitude: int = bits - sign;
    if 0x3F80_0000 < magnitude <= 0x7F80_0000 {
        (sign + 0x3F80_0000) as u32
    } else {
        bits
    }
}

/// Holds the bit pattern of a single-precision number to the range from -1 to 1.
pub fn clamp_bits(bits: u32) -> (r: u32)
    ensures
        r == clamped(bits),
{
    let sign: u32 = if bits >= 0x8000_0000 {
        0x8000_0000
    } else {
        0
    };
    let magnitude: u32 = bits - sign;
    if magnitude > 0x3F80_0000 && magnitude <= 0x7F80_0000 {
        sign + 0x3F80_0000
    } else {
        bits
    }
}

/// The samples that data hold in PCM8.
pub open spec fn pcm8_of(data: Seq<u8>, channels: u16) -> Result<SamplesModel, DecodeError> {
    if channels == 0 {
        Err(DecodeError::NoChannels)
    } else if data.len() as int % channels as int != 0 {
        Err(DecodeError::Pcm8Length { len: data.len() as usize, channels })
    } else {
        Ok(SamplesModel::Pcm8(data))
    }
}

/// The samples that data hold in PCM16.
pub open spec fn pcm16_of(data: Seq<u8>, channels: u16) -> Result<SamplesModel, DecodeError> {
    if channels == 0 {
        Err(DecodeError::NoChannels)
    } else if data.len() % 2 != 0 {
        Err(DecodeError::Pcm16Length { len: data.len() as usize })
    } else if (data.len() as int / 2) % channels as int != 0 {
        Err(DecodeError::SampleCount { count: (data.len() / 2) as usize, channels })
    } else {
        Ok(
            SamplesModel::Pcm16(
                Seq::new(data.len() / 2, |i: int| signed16(le_u16(data, 2 * i))),
            ),
        )
    }
}

/// The samples that data hold in PCMFLOAT.
pub open spec fn pcm_float_of(data: Seq<u8>, channels: u16) -> Result<SamplesModel, DecodeError> {
    if channels == 0 {
        Err(DecodeError::NoChannels)
    } else if data.len() % 4 != 0 {
        Err(DecodeError::PcmFloatLength { len: data.len() as usize })
    } else if (data.len() as int / 4) % channels as int != 0 {
        Err(DecodeError::SampleCount { count: (data.len() / 4) as usize, channels })
    } else {
        Ok(SamplesModel::PcmFloat(Seq::new(data.len() / 4, |i: int| clamped(le_u32(data, 4 * i)))))
    }
}

/// The samples that data hold in the codec with a number.
pub open spec fn samples_of(codec_id: u32, data: Seq<u8>, channels: u16) -> Result<
    SamplesModel,
    DecodeError,
> {
    if codec_id == CODEC_PCM8 {
        pcm8_of(data, channels)
    } else if codec_id == CODEC_PCM16 {
        pcm16_of(data, channels)
    } else if codec_id == CODEC_PCMFLOAT {
        pcm_float_of(data, channels)
    } else {
        Err(DecodeError::UnsupportedCodec { codec_id })
    }
}

/// A decoder of one codec.
pub trait Decoder {
    /// The number of the codec.
    spec fn codec(&self) -> u32;

    /// The samples that the data of a sample hold.
    fn decode(&self, data: &[u8], channels: u16) -> (r: Result<PcmSamples, DecodeError>)
        ensures
            match r {
                Ok(samples) => samples_of(self.codec(), data@, channels) == Ok::<_, DecodeError>(
                    samples@,
                ),
                Err(e) => samples_of(self.codec(), data@, channels) == Err::<SamplesModel, _>(e),
            },
    ;
}

/// The decoder of unsigned 8-bit samples.
pub struct Pcm8Decoder;

impl Decoder for Pcm8Decoder {
    open spec fn codec(&self) -> u32 {
        CODEC_PCM8
    }

    fn decode(&self, data: &[u8], channels: u16) -> (r: Result<PcmSamples, DecodeError>) {
        if channels == 0 {
            return Err(DecodeError::NoChannels);
        }
        if data.len() % channels as usize != 0 {
            return Err(DecodeError::Pcm8Length { len: data.len(), channels });
        }
        Ok(PcmSamples::Pcm8(slice_to_vec(data)))
    }
}

/// The decoder of signed 16-bit samples.
pub struct Pcm16Decoder;

impl Decoder for Pcm16Decoder {
    open spec fn codec(&self) -> u32 {
        CODEC_PCM16
    }

    fn decode(&self, data: &[u8], channels: u16) -> (r: Result<PcmSamples, DecodeError>) {
        if channels == 0 {
            return Err(DecodeError::NoChannels);
        }
        if data.len() % 2 != 0 {
            return Err(DecodeError::Pcm16Length { len: data.len() });
        }
        let count: usize = data.len() / 2;
        if count % channels as usize != 0 {
            return Err(DecodeError::SampleCount { count, channels });
        }
        let mut samples: Vec<i16> = Vec::with_capacity(count);
        let mut i: usize = 0;
        while i < count
            invariant
                i <= count,
                count == data.len() / 2,
                samples@.len() == i,
                forall|k: int|
                    0 <= k < i ==> #[trigger] samples@[k] == signed16(le_u16(data@, 2 * k)),
            decreases count - i,
        {
            samples.push(i16_at(data, 2 * i).unwrap());
            i = i + 1;
        }
        assert(samples@ =~= Seq::new(data@.len() / 2, |k: int| signed16(le_u16(data@, 2 * k))));
        Ok(PcmSamples::Pcm16(samples))
    }
}

/// The decoder of single-precision samples.
pub struct PcmFloatDecoder;

impl Decoder for PcmFloatDecoder {
    open spec fn codec(&self) -> u32 {
        CODEC_PCMFLOAT
    }

    fn decode(&self, data: &[u8], channels: u16) -> (r: Result<PcmSamples, DecodeError>) {
        if channels == 0 {
            return Err(DecodeError::NoChannels);
        }
        if data.len() % 4 != 0 {
            return Err(DecodeError::PcmFloatLength { len: data.len() });
        }
        let count: usize = data.len() / 4;
        if count % channels as usize != 0 {
            return Err(DecodeError::SampleCount { count, channels });
        }
        let mut samples: Vec<u32> = Vec::with_capacity(count);
        let mut i: usize = 0;
        while i < count
            invariant
                i <= count,
                count == data.len() / 4,
                samples@.len() == i,
                forall|k: int|
                    0 <= k < i ==> #[trigger] samples@[k] == clamped(le_u32(data@, 4 * k)),
            decreases count - i,
        {
            samples.push(clamp_bits(u32_at(data, 4 * i).unwrap()));
            i = i + 1;
        }
        assert(samples@ =~= Seq::new(data@.len() / 4, |k: int| clamped(le_u32(data@, 4 * k))));
        Ok(PcmSamples::PcmFloat(samples))
    }
}

/// The decoder of the codec with a number.
pub fn get_decoder(codec_id: u32) -> (r: Result<Box<dyn Decoder>, DecodeError>)
    ensures
        match r {
            Ok(decoder) => decoder.codec() == codec_id && (codec_id == CODEC_PCM8 || codec_id
                == CODEC_PCM16 || codec_id == CODEC_PCMFLOAT),
            Err(e) => e == (DecodeError::UnsupportedCodec { codec_id }) && codec_id != CODEC_PCM8
                && codec_id != CODEC_PCM16 && codec_id != CODEC_PCMFLOAT,
        },
{
    match codec_id {
        CODEC_PCM8 => Ok(Box::new(Pcm8Decoder)),
        CODEC_PCM16 => Ok(Box::new(Pcm16Decoder)),
        CODEC_PCMFLOAT => Ok(Box::new(PcmFloatDecoder)),
        _ => Err(DecodeError::UnsupportedCodec { codec_id }),
    }
}

/// Decoded samples with their channel count and sample rate.
#[derive(Debug, Clone, PartialEq, Eq)]
pub struct DecodedAudio {
    pub samples: PcmSamples,
    pub channels: u16,
    pub sample_rate: u32,
}

/// What decoded audio holds.
#[verifier::ext_equal]
pub struct AudioModel {
    pub samples: SamplesModel,
    pub channels: u16,
    pub sample_rate: u32,
}

impl View for DecodedAudio {
    type V = AudioModel;

    open spec fn view(&self) -> AudioModel {
        AudioModel {
            samples: self.samples@,
            channels: self.channels,
            sample_rate: self.sample_rate,
        }
    }
}

/// The audio that the data of a sample hold, or why there is none.
pub open spec fn audio_of(codec_id: u32, data: Seq<u8>, channels: u16, sample_rate: u32) -> Result<
    AudioModel,
    DecodeError,
> {
    match samples_of(codec_id, data, channels) {
        Ok(samples) => Ok(AudioModel { samples, channels, sample_rate }),
        Err(e) => Err(e),
    }
}

/// How many frames audio has; none where it has no channels.
pub open spec fn frames_of(audio: AudioModel) -> nat {
    if audio.channels == 0 {
        0
    } else {
        samples_len(audio.samples) / (audio.channels as nat)
    }
}

/// Decodes the data of a sample in the codec with a number.
pub fn decode_audio(codec_id: u32, data: &[u8], channels: u16, sample_rate: u32) -> (r: Result<
    DecodedAudio,
    DecodeError,
>)
    ensures
        match r {
            Ok(audio) => audio_of(codec_id, data@, channels, sample_rate) == Ok::<_, DecodeError>(
                audio@,
            ),
            Err(e) => audio_of(codec_id, data@, channels, sample_rate) == Err::<AudioModel, _>(e),
        },
        r matches Ok(audio) ==> audio.channels == channels && audio.sample_rate == sample_rate,
{
    let decoder = get_decoder(codec_id)?;
    let samples = decoder.decode(data, channels)?;
    Ok(DecodedAudio { samples, channels, sample_rate })
}

impl DecodedAudio {
    /// How many frames there are; 0 where there are no channels.
    pub fn frame_count(&self) -> (r: usize)
        ensures
            r == frames_of(self@),
    {
        if self.channels == 0 {
            0
        } else {
            self.samples.len() / self.channels as usize
        }
    }
}

/// The number of bytes that one sample takes in a codec; 0 where there is no decoder.
pub open spec fn sample_width(codec_id: u32) -> nat {
    if codec_id == CODEC_PCM8 {
        1
    } else if codec_id == CODEC_PCM16 {
        2
    } else if codec_id == CODEC_PCMFLOAT {
        4
    } else {
        0
    }
}

/// Decoding loses no byte and no sample: the samples take up the whole of the data, and
/// the frames the whole of the samples. It succeeds exactly where both divide evenly.
pub proof fn law_decode_is_whole(codec_id: u32, data: Seq<u8>, channels: u16, sample_rate: u32)
    ensures
        audio_of(codec_id, data, channels, sample_rate) is Ok <==> {
            &&& sample_width(codec_id) > 0
            &&& channels > 0
            &&& exists|frames: nat|
                #![trigger whole_frames(codec_id, channels, frames)]
                data.len() == whole_frames(codec_id, channels, frames)
        },
        audio_of(codec_id, data, channels, sample_rate) matches Ok(audio) ==> {
            &&& samples_len(audio.samples) * sample_width(codec_id) == data.len()
            &&& frames_of(audio) * channels == samples_len(audio.samples)
            &&& audio.channels == channels
            &&& audio.sample_rate == sample_rate
        },
{
    let width = sample_width(codec_id) as int;
    let c = channels as int;
    if width > 0 && c > 0 {
        let n: int = data.len() as int / width;
        lemma_fundamental_div_mod(n, c);
        if data.len() as int % width == 0 && n % c == 0 {
            let frames: nat = (n / c) as nat;
            assert(n == frames * channels) by (nonlinear_arith)
                requires
                    n == c * (n / c),
                    frames == n / c,
                    c == channels,
            ;
            assert(data.len() == whole_frames(codec_id, channels, frames));
        }
        if exists|frames: nat|
            #![trigger whole_frames(codec_id, channels, frames)]
            data.len() == whole_frames(codec_id, channels, frames) {
            let frames = choose|frames: nat|
                #![trigger whole_frames(codec_id, channels, frames)]
                data.len() == whole_frames(codec_id, channels, frames);
            let whole: int = frames * channels;
            assert(data.len() == whole * width);
            assert(n == whole);
            lemma_mod_multiples_basic(frames as int, c);
        }
    }
}

/// The number of bytes of a number of frames.
pub open spec fn whole_frames(codec_id: u32, channels: u16, frames: nat) -> int {
    frames * channels * sample_width(codec_id)
}

/// Clamping leaves a number within -1 and 1 as it is, and any other number at the limit
/// with its sign; doing it again changes nothing.
pub proof fn law_clamp(bits: u32)
    ensures
        clamped(clamped(bits)) == clamped(bits),
        bits % 0x8000_0000 <= 0x3F80_0000 ==> clamped(bits) == bits,
        bits % 0x8000_0000 <= 0x7F80_0000 ==> clamped(bits) % 0x8000_0000 <= 0x3F80_0000,
        clamped(bits) / 0x8000_0000 == bits / 0x8000_0000,
{
}

/// The amplitude that a sample of PCM8 stands for, before rounding: the numerator of a
/// fraction of 255, since `s / 127.5 - 1` is `(2 * s - 255) / 255`.
pub open spec fn pcm8_amplitude(s: u8) -> int {
    2 * s - 255
}

/// The amplitude that a sample of PCM16 stands for, before rounding: the numerator of a
/// fraction of 32767.
pub open spec fn pcm16_amplitude(s: i16) -> int {
    s as int
}

/// Before rounding, the amplitudes of PCM8 lie from -1 to 1 and rise with the bytes of the
/// data; there is one for each byte, whatever the number of channels.
pub proof fn law_pcm8_amplitudes(data: Seq<u8>, channels: u16, v: Seq<u8>, i: int, j: int)
    requires
        samples_of(CODEC_PCM8, data, channels) == Ok::<_, DecodeError>(SamplesModel::Pcm8(v)),
        0 <= i < data.len(),
        0 <= j < data.len(),
    ensures
        v.len() == data.len(),
        -255 <= pcm8_amplitude(v[i]) <= 255,
        pcm8_amplitude(v[i]) == -255 <==> data[i] == 0,
        pcm8_amplitude(v[i]) == 255 <==> data[i] == 255,
        pcm8_amplitude(v[i]) < pcm8_amplitude(v[j]) <==> data[i] < data[j],
{
}

} // verus!
