//! What the types of the library hold is what their fields hold.

use vstd::prelude::*;

use crate::decoder::{DecodedAudio, PcmSamples, SamplesModel};
use crate::extract::{info_models, Bank, SampleInfo, SampleStep, StepModel};
use crate::fsb5::{
    extra_models, name_models, sample_models, ExtraModel, Fsb5, Fsb5ExtraData, Fsb5NameEntry,
    Fsb5SampleHeader,
};
use crate::riff::{chunk_models, RiffChunk, RiffFile};
use crate::run::{DecodeProgress, DecodeState};
use crate::session::{row_models, DecodeJob, JobModel, SampleRow};

verus! {

/// A chunk holds its tag, its size and its bytes.
pub proof fn law_chunk_view(chunk: RiffChunk<'_>)
    ensures
        chunk@.id == chunk.id,
        chunk@.size == chunk.size,
        chunk@.data == chunk.data@,
{
}

/// A container holds its format and its chunks in order.
pub proof fn law_container_view(file: RiffFile<'_>, i: int)
    ensures
        file@.format == file.format,
        file@.chunks == chunk_models(file.chunks@),
        file@.chunks.len() == file.chunks@.len(),
        0 <= i < file.chunks@.len() ==> file@.chunks[i] == file.chunks@[i]@,
{
}

/// Extra data hold what they say.
pub proof fn law_extra_view(extra: Fsb5ExtraData)
    ensures
        match extra {
            Fsb5ExtraData::Channels(c) => extra@ == ExtraModel::Channels(c),
            Fsb5ExtraData::SampleRate(r) => extra@ == ExtraModel::SampleRate(r),
            Fsb5ExtraData::LoopInfo(l) => extra@ == (ExtraModel::LoopInfo {
                loop_start: l.loop_start,
                loop_end: l.loop_end,
            }),
            Fsb5ExtraData::VorbisSetup(v) => extra@ == (ExtraModel::VorbisSetup {
                setup_id: v.setup_id,
                seek_table: v.seek_table@,
            }),
            Fsb5ExtraData::Unknown { chunk_type, data } => extra@ == (ExtraModel::Unknown {
                chunk_type,
                data: data@,
            }),
        },
{
}

/// A sample header holds its fields and its extra data in order.
pub proof fn law_sample_view(sample: Fsb5SampleHeader, i: int)
    ensures
        sample@.num_samples == sample.num_samples,
        sample@.data_offset == sample.data_offset,
        sample@.channels == sample.channels,
        sample@.sample_rate == sample.sample_rate,
        sample@.has_extra_data == sample.has_extra_data,
        sample@.extra_data == extra_models(sample.extra_data@),
        sample@.extra_data.len() == sample.extra_data@.len(),
        0 <= i < sample.extra_data@.len() ==> sample@.extra_data[i] == sample.extra_data@[i]@,
{
}

/// A sample bank holds its header, its samples and its names in order, and its data.
pub proof fn law_bank_view(bank: Fsb5, name: Fsb5NameEntry, i: int)
    ensures
        bank@.header == bank.header,
        bank@.samples == sample_models(bank.samples@),
        bank@.samples.len() == bank.samples@.len(),
        0 <= i < bank.samples@.len() ==> bank@.samples[i] == bank.samples@[i]@,
        bank@.names == name_models(bank.names@),
        bank@.names.len() == bank.names@.len(),
        0 <= i < bank.names@.len() ==> bank@.names[i] == bank.names@[i]@,
        bank@.data == bank.data@,
        name@.index == name.index,
        name@.name == name.name@,
{
}

/// Decoded audio holds its samples as they are, its channels and its rate.
pub proof fn law_audio_view(audio: DecodedAudio)
    ensures
        audio@.samples == audio.samples@,
        audio@.channels == audio.channels,
        audio@.sample_rate == audio.sample_rate,
        match audio.samples {
            PcmSamples::Pcm8(v) => audio@.samples == SamplesModel::Pcm8(v@),
            PcmSamples::Pcm16(v) => audio@.samples == SamplesModel::Pcm16(v@),
            PcmSamples::PcmFloat(v) => audio@.samples == SamplesModel::PcmFloat(v@),
        },
{
}

/// An opened bank file holds its format, the bytes of its sample bank and the bank.
pub proof fn law_opened_view(bank: Bank<'_>)
    ensures
        bank@.format == bank.format,
        bank@.fsb5_data == bank.fsb5_data@,
        bank@.fsb5 == bank.fsb5@,
{
}

/// Entries of a listing hold their fields, in order.
pub proof fn law_info_view(infos: Seq<SampleInfo>, i: int)
    requires
        0 <= i < infos.len(),
    ensures
        info_models(infos).len() == infos.len(),
        info_models(infos)[i] == infos[i]@,
        infos[i]@.name == infos[i].name@,
        infos[i]@.codec == infos[i].codec@,
        infos[i]@.channels == infos[i].channels,
        infos[i]@.sample_rate == infos[i].sample_rate,
        infos[i]@.num_samples == infos[i].num_samples,
{
}

/// Steps and jobs name the files and hold the audio that their fields do.
pub proof fn law_step_view(step: SampleStep, job: DecodeJob)
    ensures
        match step {
            SampleStep::Filtered => step@ == StepModel::Filtered,
            SampleStep::NoData => step@ == StepModel::NoData,
            SampleStep::ExportFsb5 { file } => step@ == (StepModel::ExportFsb5 { file: file@ }),
            SampleStep::Vgmstream { temporary, wav } => step@ == (StepModel::Vgmstream {
                temporary: temporary@,
                wav: wav@,
            }),
            SampleStep::Write { wav, audio } => step@ == (StepModel::Write {
                wav: wav@,
                audio: audio@,
            }),
            SampleStep::Undecodable { error } => step@ == (StepModel::Undecodable { error }),
        },
        match job {
            DecodeJob::Skip => job@ == JobModel::Skip,
            DecodeJob::Vgmstream { temporary, subsong, wav } => job@ == (JobModel::Vgmstream {
                temporary: temporary@,
                subsong: subsong as int,
                wav: wav@,
            }),
            DecodeJob::Write { wav, audio } => job@ == (JobModel::Write {
                wav: wav@,
                audio: audio@,
            }),
        },
{
}

/// Rows hold their fields, in order.
pub proof fn law_row_view(rows: Seq<SampleRow>, i: int)
    requires
        0 <= i < rows.len(),
    ensures
        row_models(rows).len() == rows.len(),
        row_models(rows)[i] == rows[i]@,
        rows[i]@.bank_index == rows[i].bank_index,
        rows[i]@.sample_index == rows[i].sample_index,
        rows[i]@.bank_name == rows[i].bank_name@,
        rows[i]@.name == rows[i].name@,
        rows[i]@.codec == rows[i].codec@,
        rows[i]@.channels == rows[i].channels,
        rows[i]@.sample_rate == rows[i].sample_rate,
        rows[i]@.num_samples == rows[i].num_samples,
{
}

/// A run holds its progress and its result.
pub proof fn law_run_view(state: DecodeState, progress: DecodeProgress)
    ensures
        state@.result == state.result,
        state@.progress is Some <==> state.progress is Some,
        state.progress matches Some(p) ==> state@.progress == Some(p@),
        progress@.total == progress.total,
        progress@.completed == progress.completed,
        progress@.current_file == progress.current_file@,
        progress@.cancelled == progress.cancelled,
{
}

} // verus!
