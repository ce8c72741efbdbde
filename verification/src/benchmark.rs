//! What a benchmark run decodes and counts.

use vstd::prelude::*;

use crate::decoder::{
    audio_of, decode_audio, AudioModel, DecodedAudio, CODEC_PCM16, CODEC_PCM8, CODEC_PCMFLOAT,
};
use crate::fsb5::{channel_number, sample_bytes, Fsb5, Fsb5Codec, Fsb5Model};

verus! {

/// The number of a codec that a run can measure.
pub open spec fn pcm_number(codec: Fsb5Codec) -> Option<u32> {
    match codec {
        Fsb5Codec::Pcm8 => Some(CODEC_PCM8),
        Fsb5Codec::Pcm16 => Some(CODEC_PCM16),
        Fsb5Codec::PcMFLOAT => Some(CODEC_PCMFLOAT),
        _ => None,
    }
}

/// The number of a codec that a run can measure: one of the PCM codecs.
pub fn pcm_codec_id(codec: &Fsb5Codec) -> (r: Option<u32>)
    ensures
        r == pcm_number(*codec),
{
    match codec {
        Fsb5Codec::Pcm8 => Some(CODEC_PCM8),
        Fsb5Codec::Pcm16 => Some(CODEC_PCM16),
        Fsb5Codec::PcMFLOAT => Some(CODEC_PCMFLOAT),
        _ => None,
    }
}

/// The sample rate of sample `i`; 0 where there is no such sample.
pub open spec fn rate_at(bank: Fsb5Model, i: int) -> u32 {
    if i < bank.samples.len() {
        bank.samples[i].sample_rate
    } else {
        0
    }
}

/// The sample rate of a sample; 0 where there is no such sample.
pub fn sample_rate_from_idx(fsb5: &Fsb5, idx: usize) -> (r: u32)
    ensures
        r == rate_at(fsb5@, idx as int),
{
    if idx < fsb5.samples.len() {
        fsb5.samples[idx].sample_rate
    } else {
        0
    }
}

/// The audio of sample `i` in a codec; none where it has no data or they cannot be
/// decoded.
pub open spec fn audio_at(bank: Fsb5Model, codec_id: u32, i: int) -> Option<AudioModel> {
    match sample_bytes(bank, i) {
        Ok(data) => match audio_of(
            codec_id,
            data,
            channel_number(bank.samples[i].channels) as u16,
            rate_at(bank, i),
        ) {
            Ok(audio) => Some(audio),
            Err(_) => None,
        },
        Err(_) => None,
    }
}

/// Decodes a sample in a codec, where it has data that can be decoded.
pub fn decode_indexed(fsb5: &Fsb5, codec_id: u32, index: usize) -> (r: Option<DecodedAudio>)
    ensures
        match audio_at(fsb5@, codec_id, index as int) {
            Some(audio) => r matches Some(a) && a@ == audio,
            None => r is None,
        },
{
    let data = match fsb5.sample_data(index) {
        Ok(d) => d,
        Err(_) => {
            return None;
        },
    };
    let channels: u16 = fsb5.samples[index].channels.count() as u16;
    match decode_audio(codec_id, data, channels, sample_rate_from_idx(fsb5, index)) {
        Ok(audio) => Some(audio),
        Err(_) => None,
    }
}

/// What a run has decoded so far.
#[derive(Debug, Clone, Copy, PartialEq, Eq)]
pub struct RunCount {
    /// The number of samples of the bank that were decoded.
    pub decoded: u64,
    /// The number of sample values that came out.
    pub total_samples: u64,
}

impl RunCount {
    /// The count of a run that has decoded nothing.
    pub fn new() -> (r: Self)
        ensures
            r.decoded == 0,
            r.total_samples == 0,
    {
        RunCount { decoded: 0, total_samples: 0 }
    }

    /// Counts one more decoded sample, of `len` values. The counts are kept modulo two
    /// to the sixty-fourth.
    pub fn record(&mut self, len: usize)
        ensures
            final(self).decoded == (old(self).decoded + 1) % 0x1_0000_0000_0000_0000,
            final(self).total_samples == (old(self).total_samples + len)
                % 0x1_0000_0000_0000_0000,
    {
        self.decoded = self.decoded.wrapping_add(1);
        self.total_samples = self.total_samples.wrapping_add(len as u64);
    }
}

} // verus!
