//! The state of an interactive session: the samples of the banks that are open, and
//! which of them are selected.

use vstd::prelude::*;

use crate::decoder::{
    audio_of, decode_audio, AudioModel, DecodedAudio, CODEC_PCM16, CODEC_PCM8, CODEC_PCMFLOAT,
};
use crate::extract::{info_of, sample_info, step_of, with_ending, StepModel, CODEC_VORBIS};
use crate::fsb5::{
    channel_number, codec_of, sample_bytes, sample_title, Fsb5, Fsb5Codec, Fsb5Model,
};
use crate::run::JobOutcome;
use crate::text::{
    contains_any_case, contains_text, decimal, has_part, has_part_any_case, push_decimal,
};
use crate::wav::{safe, safe_name, wav_file_name, wav_name};

verus! {

/// A sample of an open bank.
#[derive(Debug, Clone, PartialEq, Eq)]
pub struct SampleRow {
    pub bank_index: usize,
    pub sample_index: usize,
    pub bank_name: String,
    pub name: String,
    pub codec: String,
    pub channels: u16,
    pub sample_rate: u32,
    pub num_samples: u32,
}

/// What a row holds.
#[verifier::ext_equal]
pub struct RowModel {
    pub bank_index: int,
    pub sample_index: int,
    pub bank_name: Seq<char>,
    pub name: Seq<char>,
    pub codec: Seq<char>,
    pub channels: u16,
    pub sample_rate: u32,
    pub num_samples: u32,
}

impl View for SampleRow {
    type V = RowModel;

    open spec fn view(&self) -> RowModel {
        RowModel {
            bank_index: self.bank_index as int,
            sample_index: self.sample_index as int,
            bank_name: self.bank_name@,
            name: self.name@,
            codec: self.codec@,
            channels: self.channels,
            sample_rate: self.sample_rate,
            num_samples: self.num_samples,
        }
    }
}

/// The rows of the open banks, in the order of the banks, and which are selected.
#[derive(Debug)]
pub struct Session {
    bank_count: usize,
    rows: Vec<SampleRow>,
    selected: Vec<bool>,
}

/// What a session holds.
#[verifier::ext_equal]
pub struct SessionModel {
    pub bank_count: int,
    pub rows: Seq<RowModel>,
    pub selected: Seq<bool>,
}

/// What each row holds.
pub open spec fn row_models(rows: Seq<SampleRow>) -> Seq<RowModel> {
    Seq::new(rows.len(), |i: int| rows[i]@)
}

impl View for Session {
    type V = SessionModel;

    closed spec fn view(&self) -> SessionModel {
        SessionModel {
            bank_count: self.bank_count as int,
            rows: row_models(self.rows@),
            selected: self.selected@,
        }
    }
}

/// Each row is either selected or not, and belongs to an open bank.
pub open spec fn session_wf(session: SessionModel) -> bool {
    &&& session.selected.len() == session.rows.len()
    &&& forall|i: int|
        0 <= i < session.rows.len() ==> 0 <= (#[trigger] session.rows[i]).bank_index
            < session.bank_count
}

/// A session without banks.
pub open spec fn empty_session() -> SessionModel {
    SessionModel { bank_count: 0, rows: Seq::empty(), selected: Seq::empty() }
}

/// The row of sample `i` of a bank.
pub open spec fn row_of(bank_index: int, bank_name: Seq<char>, bank: Fsb5Model, i: int) -> RowModel {
    let info = info_of(bank, i);
    RowModel {
        bank_index,
        sample_index: i,
        bank_name,
        name: info.name,
        codec: info.codec,
        channels: info.channels,
        sample_rate: info.sample_rate,
        num_samples: info.num_samples,
    }
}

/// The rows of the first `n` samples of a bank.
pub open spec fn rows_of(bank_index: int, bank_name: Seq<char>, bank: Fsb5Model, n: nat) -> Seq<
    RowModel,
> {
    Seq::new(n, |i: int| row_of(bank_index, bank_name, bank, i))
}

/// A session in which one more bank is open, all of its samples selected.
pub open spec fn with_bank(
    session: SessionModel,
    bank_name: Seq<char>,
    bank: Fsb5Model,
) -> SessionModel {
    SessionModel {
        bank_count: session.bank_count + 1,
        rows: session.rows + rows_of(session.bank_count, bank_name, bank, bank.samples.len()),
        selected: session.selected + Seq::new(bank.samples.len(), |i: int| true),
    }
}

/// The places among the first `n` where `true` stands.
pub open spec fn chosen(selected: Seq<bool>, n: int) -> Seq<usize>
    decreases n,
{
    if n <= 0 {
        Seq::empty()
    } else if selected[n - 1] {
        chosen(selected, n - 1).push((n - 1) as usize)
    } else {
        chosen(selected, n - 1)
    }
}

/// Whether a search lets a row through: any row where nothing is searched for, and else
/// one in whose name, codec or bank it stands, whatever the case of the letters.
pub open spec fn row_shown(row: RowModel, search: Seq<char>) -> bool {
    ||| search.len() == 0
    ||| has_part_any_case(row.name, search)
    ||| has_part_any_case(row.codec, search)
    ||| has_part_any_case(row.bank_name, search)
}

/// The places of those of the first `n` rows that a search lets through.
pub open spec fn shown(rows: Seq<RowModel>, search: Seq<char>, n: int) -> Seq<usize>
    decreases n,
{
    if n <= 0 {
        Seq::empty()
    } else if row_shown(rows[n - 1], search) {
        shown(rows, search, n - 1).push((n - 1) as usize)
    } else {
        shown(rows, search, n - 1)
    }
}

impl Session {
    /// A session without banks.
    pub fn new() -> (r: Self)
        ensures
            r@ == empty_session(),
            session_wf(r@),
    {
        let r = Session { bank_count: 0, rows: Vec::new(), selected: Vec::new() };
        assert(r@ =~= empty_session());
        r
    }

    /// Closes all banks.
    pub fn clear(&mut self)
        ensures
            final(self)@ == empty_session(),
            session_wf(final(self)@),
    {
        self.bank_count = 0;
        self.rows.clear();
        self.selected.clear();
        assert(self@ =~= empty_session());
    }

    /// Opens a bank. All of its samples are selected.
    pub fn add_bank(&mut self, bank_name: &str, fsb5: &Fsb5)
        requires
            session_wf(old(self)@),
            old(self)@.bank_count < usize::MAX,
        ensures
            final(self)@ == with_bank(old(self)@, bank_name@, fsb5@),
            session_wf(final(self)@),
    {
        let ghost before = self@;
        let bank_index: usize = self.bank_count;
        let mut i: usize = 0;
        while i < fsb5.samples.len()
            invariant
                i <= fsb5.samples@.len(),
                bank_index == before.bank_count,
                self.bank_count == bank_index,
                self@.rows =~= before.rows + rows_of(
                    before.bank_count,
                    bank_name@,
                    fsb5@,
                    i as nat,
                ),
                self@.selected =~= before.selected + Seq::new(i as nat, |k: int| true),
            decreases fsb5.samples@.len() - i,
        {
            let info = sample_info(fsb5, i);
            let row = SampleRow {
                bank_index,
                sample_index: i,
                bank_name: bank_name.to_owned(),
                name: info.name,
                codec: info.codec,
                channels: info.channels,
                sample_rate: info.sample_rate,
                num_samples: info.num_samples,
            };
            let ghost rows = self@.rows;
            let ghost model = row@;
            self.rows.push(row);
            self.selected.push(true);
            assert(self@.rows =~= rows.push(model));
            i = i + 1;
        }
        self.bank_count = bank_index + 1;
        assert(self@ =~= with_bank(before, bank_name@, fsb5@));
    }

    /// Selects all rows, or none.
    pub fn set_all(&mut self, value: bool)
        requires
            session_wf(old(self)@),
        ensures
            final(self)@ == (SessionModel {
                selected: Seq::new(old(self)@.rows.len(), |i: int| value),
                ..old(self)@
            }),
            session_wf(final(self)@),
    {
        let ghost before = self@;
        let mut i: usize = 0;
        while i < self.selected.len()
            invariant
                i <= self.selected@.len(),
                session_wf(before),
                self@.rows == before.rows,
                self@.bank_count == before.bank_count,
                self@.selected.len() == before.selected.len(),
                forall|k: int| 0 <= k < i ==> #[trigger] self@.selected[k] == value,
            decreases self.selected@.len() - i,
        {
            self.selected.set(i, value);
            i = i + 1;
        }
        assert(self@.selected =~= Seq::new(before.rows.len(), |k: int| value));
    }

    /// Selects the rows in the text of whose codec `part` stands, and no others.
    pub fn select_codec(&mut self, part: &str)
        requires
            session_wf(old(self)@),
        ensures
            final(self)@ == (SessionModel {
                selected: Seq::new(
                    old(self)@.rows.len(),
                    |i: int| has_part(old(self)@.rows[i].codec, part@),
                ),
                ..old(self)@
            }),
            session_wf(final(self)@),
    {
        let ghost before = self@;
        let mut i: usize = 0;
        while i < self.rows.len()
            invariant
                i <= self.rows@.len(),
                session_wf(before),
                self@.rows == before.rows,
                self@.bank_count == before.bank_count,
                self@.selected.len() == before.selected.len(),
                forall|k: int|
                    0 <= k < i ==> #[trigger] self@.selected[k] == has_part(
                        before.rows[k].codec,
                        part@,
                    ),
            decreases self.rows@.len() - i,
        {
            assert(self.rows@[i as int]@ == before.rows[i as int]);
            let value: bool = contains_text(self.rows[i].codec.as_str(), part);
            self.selected.set(i, value);
            i = i + 1;
        }
        assert(self@.selected =~= Seq::new(
            before.rows.len(),
            |k: int| has_part(before.rows[k].codec, part@),
        ));
    }

    /// Selects a row, or no longer does.
    pub fn set_selected(&mut self, index: usize, value: bool)
        requires
            session_wf(old(self)@),
            index < old(self)@.rows.len(),
        ensures
            final(self)@ == (SessionModel {
                selected: old(self)@.selected.update(index as int, value),
                ..old(self)@
            }),
            session_wf(final(self)@),
    {
        self.selected.set(index, value);
    }

    /// How many banks are open.
    pub fn bank_count(&self) -> (r: usize)
        ensures
            r == self@.bank_count,
    {
        self.bank_count
    }

    /// The rows of the open banks.
    pub fn rows(&self) -> (r: &Vec<SampleRow>)
        ensures
            row_models(r@) == self@.rows,
    {
        &self.rows
    }

    /// Whether a row is selected; a row that is not there is not.
    pub fn is_selected(&self, index: usize) -> (r: bool)
        ensures
            r == (index < self@.selected.len() && self@.selected[index as int]),
    {
        index < self.selected.len() && self.selected[index]
    }

    /// The places of the selected rows.
    pub fn selected_indices(&self) -> (r: Vec<usize>)
        ensures
            r@ == chosen(self@.selected, self@.selected.len() as int),
    {
        let mut out: Vec<usize> = Vec::new();
        let mut i: usize = 0;
        while i < self.selected.len()
            invariant
                i <= self.selected@.len(),
                out@ == chosen(self@.selected, i as int),
            decreases self.selected@.len() - i,
        {
            if self.selected[i] {
                out.push(i);
            }
            i = i + 1;
        }
        out
    }

    /// How many rows are selected.
    pub fn selected_count(&self) -> (r: usize)
        ensures
            r == chosen(self@.selected, self@.selected.len() as int).len(),
    {
        let mut count: usize = 0;
        let mut i: usize = 0;
        while i < self.selected.len()
            invariant
                i <= self.selected@.len(),
                count <= i,
                count == chosen(self@.selected, i as int).len(),
            decreases self.selected@.len() - i,
        {
            if self.selected[i] {
                count = count + 1;
            }
            i = i + 1;
        }
        count
    }

    /// The places of the rows that a search lets through.
    pub fn filtered(&self, search: &str) -> (r: Vec<usize>)
        ensures
            r@ == shown(self@.rows, search@, self@.rows.len() as int),
    {
        let mut out: Vec<usize> = Vec::new();
        let mut i: usize = 0;
        while i < self.rows.len()
            invariant
                i <= self.rows@.len(),
                out@ == shown(self@.rows, search@, i as int),
            decreases self.rows@.len() - i,
        {
            let row = &self.rows[i];
            assert(self@.rows[i as int] == row@);
            if search.is_empty() || contains_any_case(row.name.as_str(), search)
                || contains_any_case(row.codec.as_str(), search) || contains_any_case(
                row.bank_name.as_str(),
                search,
            ) {
                out.push(i);
            }
            i = i + 1;
        }
        out
    }
}

/// The places are in rising order, each below `n`, and those of which `holds` says so.
pub open spec fn are_the_places(places: Seq<usize>, n: int, holds: spec_fn(int) -> bool) -> bool {
    &&& forall|k: int| 0 <= k < places.len() ==> (#[trigger] places[k]) < n && holds(places[k] as int)
    &&& forall|j: int, k: int| 0 <= j < k < places.len() ==> places[j] < places[k]
    &&& forall|i: int|
        0 <= i < n && i <= usize::MAX && #[trigger] holds(i) ==> places.contains(i as usize)
}

/// A list of places grown by one that is above all others.
proof fn lemma_places_push(places: Seq<usize>, n: int, holds: spec_fn(int) -> bool)
    requires
        0 <= n < usize::MAX,
        are_the_places(places, n, holds),
    ensures
        are_the_places(
            if holds(n) {
                places.push(n as usize)
            } else {
                places
            },
            n + 1,
            holds,
        ),
{
    let grown = if holds(n) {
        places.push(n as usize)
    } else {
        places
    };
    assert forall|i: int| 0 <= i < n + 1 && i <= usize::MAX && #[trigger] holds(
        i,
    ) implies grown.contains(i as usize) by {
        if i == n {
            assert(grown[places.len() as int] == n as usize);
        } else {
            assert(places.contains(i as usize));
            let k = choose|k: int| 0 <= k < places.len() && places[k] == i as usize;
            assert(grown[k] == i as usize);
        }
    }
}

/// The selected rows are listed once each, in rising order.
pub proof fn law_chosen_are_the_selected(selected: Seq<bool>, n: int)
    requires
        0 <= n <= selected.len(),
        selected.len() <= usize::MAX,
    ensures
        are_the_places(chosen(selected, n), n, |i: int| selected[i]),
    decreases n,
{
    if n > 0 {
        law_chosen_are_the_selected(selected, n - 1);
        lemma_places_push(chosen(selected, n - 1), n - 1, |i: int| selected[i]);
    }
}

/// The rows that a search lets through are listed once each, in rising order.
pub proof fn law_shown_are_the_matches(rows: Seq<RowModel>, search: Seq<char>, n: int)
    requires
        0 <= n <= rows.len(),
        rows.len() <= usize::MAX,
    ensures
        are_the_places(shown(rows, search, n), n, |i: int| row_shown(rows[i], search)),
    decreases n,
{
    if n > 0 {
        law_shown_are_the_matches(rows, search, n - 1);
        lemma_places_push(
            shown(rows, search, n - 1),
            n - 1,
            |i: int| row_shown(rows[i], search),
        );
    }
}

/// Each selected row is a row of an open bank.
pub proof fn law_selected_rows_have_banks(session: SessionModel, k: int)
    requires
        session_wf(session),
        session.rows.len() <= usize::MAX,
        0 <= k < chosen(session.selected, session.selected.len() as int).len(),
    ensures
        ({
            let place = chosen(session.selected, session.selected.len() as int)[k];
            place < session.rows.len() && 0 <= session.rows[place as int].bank_index
                < session.bank_count
        }),
{
    law_chosen_are_the_selected(session.selected, session.selected.len() as int);
}

/// Opening a bank keeps the rows and the selection of the banks before it, and selects
/// every sample of the new one.
pub proof fn law_add_bank_keeps(
    session: SessionModel,
    bank_name: Seq<char>,
    bank: Fsb5Model,
    i: int,
)
    requires
        session_wf(session),
        0 <= i < session.rows.len() + bank.samples.len(),
    ensures
        i < session.rows.len() ==> with_bank(session, bank_name, bank).rows[i] == session.rows[i]
            && with_bank(session, bank_name, bank).selected[i] == session.selected[i],
        i >= session.rows.len() ==> with_bank(session, bank_name, bank).rows[i] == row_of(
            session.bank_count,
            bank_name,
            bank,
            i - session.rows.len(),
        ) && with_bank(session, bank_name, bank).selected[i],
{
}

/// The number of the codec that a selected sample is decoded in; 0, which no decoder
/// has, for codecs that cannot be decoded.
pub open spec fn job_codec(codec: Fsb5Codec) -> u32 {
    match codec {
        Fsb5Codec::Pcm8 => CODEC_PCM8,
        Fsb5Codec::Pcm16 => CODEC_PCM16,
        Fsb5Codec::PcMFLOAT => CODEC_PCMFLOAT,
        Fsb5Codec::Vorbis => CODEC_VORBIS,
        _ => 0,
    }
}

/// What is done with a selected sample.
#[derive(Debug, Clone, PartialEq, Eq)]
pub enum DecodeJob {
    /// Nothing: the bank has no such sample, or it has no data, or it cannot be decoded.
    Skip,
    /// The bytes of the sample bank are written to a temporary file, of which an outside
    /// program decodes one sample, counted from 1, to a WAV file.
    Vgmstream { temporary: String, subsong: usize, wav: String },
    /// The audio is written to a WAV file.
    Write { wav: String, audio: DecodedAudio },
}

/// What is done with a selected sample.
#[verifier::ext_equal]
pub enum JobModel {
    Skip,
    Vgmstream { temporary: Seq<char>, subsong: int, wav: Seq<char> },
    Write { wav: Seq<char>, audio: AudioModel },
}

impl View for DecodeJob {
    type V = JobModel;

    open spec fn view(&self) -> JobModel {
        match *self {
            DecodeJob::Skip => JobModel::Skip,
            DecodeJob::Vgmstream { temporary, subsong, wav } => JobModel::Vgmstream {
                temporary: temporary@,
                subsong: subsong as int,
                wav: wav@,
            },
            DecodeJob::Write { wav, audio } => JobModel::Write { wav: wav@, audio: audio@ },
        }
    }
}

/// The name of the temporary file for sample `i` of a bank.
pub open spec fn temporary_name(bank_name: Seq<char>, i: int, name: Seq<char>) -> Seq<char> {
    bank_name + "_"@ + decimal(i as nat) + "_"@ + name + ".fsb"@
}

/// What is done with sample `i` of a bank.
pub open spec fn job_of(bank: Fsb5Model, bank_name: Seq<char>, i: int) -> JobModel {
    let name = safe(sample_title(bank, i));
    let codec = job_codec(bank.header.codec);
    match sample_bytes(bank, i) {
        Err(_) => JobModel::Skip,
        Ok(data) => if codec == CODEC_VORBIS {
            JobModel::Vgmstream {
                temporary: temporary_name(bank_name, i, name),
                subsong: i + 1,
                wav: name + ".wav"@,
            }
        } else {
            match audio_of(
                codec,
                data,
                channel_number(bank.samples[i].channels) as u16,
                bank.samples[i].sample_rate,
            ) {
                Ok(audio) => JobModel::Write { wav: wav_name(name), audio },
                Err(_) => JobModel::Skip,
            }
        },
    }
}

/// A selected sample is treated as one that is written out without a filter: it is
/// written to the same file with the same audio, left to the outside program for the
/// same file, or passed over.
pub proof fn law_job_is_the_step(bank: Fsb5Model, bank_name: Seq<char>, i: int, codec_id: u32)
    requires
        bank.header.codec == codec_of(codec_id),
    ensures
        match step_of(bank, i, None, false) {
            StepModel::Write { wav, audio } => job_of(bank, bank_name, i) == (JobModel::Write {
                wav,
                audio,
            }),
            StepModel::Vgmstream { temporary, wav } => job_of(bank, bank_name, i) == (
            JobModel::Vgmstream {
                temporary: temporary_name(bank_name, i, safe(sample_title(bank, i))),
                subsong: i + 1,
                wav,
            }),
            _ => job_of(bank, bank_name, i) == JobModel::Skip,
        },
{
}

/// Decides what is done with a selected sample.
pub fn decode_job(fsb5: &Fsb5, bank_name: &str, index: usize) -> (r: DecodeJob)
    ensures
        r@ == job_of(fsb5@, bank_name@, index as int),
{
    let codec_id: u32 = match fsb5.header.codec {
        Fsb5Codec::Pcm8 => CODEC_PCM8,
        Fsb5Codec::Pcm16 => CODEC_PCM16,
        Fsb5Codec::PcMFLOAT => CODEC_PCMFLOAT,
        Fsb5Codec::Vorbis => CODEC_VORBIS,
        _ => 0,
    };
    let data = match fsb5.sample_data(index) {
        Ok(d) => d,
        Err(_) => {
            return DecodeJob::Skip;
        },
    };
    let name = safe_name(fsb5.sample_name(index));
    assert(index < fsb5.samples.len());
    if codec_id == CODEC_VORBIS {
        let mut temporary = bank_name.to_owned();
        temporary.push_str("_");
        push_decimal(&mut temporary, index as u64);
        temporary.push_str("_");
        temporary.push_str(name.as_str());
        temporary.push_str(".fsb");
        return DecodeJob::Vgmstream {
            temporary,
            subsong: index + 1,
            wav: with_ending(&name, ".wav"),
        };
    }
    let channels: u16 = fsb5.samples[index].channels.count() as u16;
    match decode_audio(codec_id, data, channels, fsb5.samples[index].sample_rate) {
        Ok(audio) => DecodeJob::Write { wav: wav_file_name(name.as_str()), audio },
        Err(_) => DecodeJob::Skip,
    }
}

/// How a job ended whose work was done or not. Work left to the outside program that was
/// not done counts as skipped; audio that was decoded but not written is not counted.
pub open spec fn outcome_of(job: JobModel, done: bool) -> JobOutcome {
    match job {
        JobModel::Skip => JobOutcome::Skipped,
        JobModel::Vgmstream { .. } => if done {
            JobOutcome::Decoded
        } else {
            JobOutcome::Skipped
        },
        JobModel::Write { .. } => if done {
            JobOutcome::Decoded
        } else {
            JobOutcome::Uncounted
        },
    }
}

/// How a job ended whose work was done or not.
pub fn job_outcome(job: &DecodeJob, done: bool) -> (r: JobOutcome)
    ensures
        r == outcome_of(job@, done),
{
    match job {
        DecodeJob::Skip => JobOutcome::Skipped,
        DecodeJob::Vgmstream { .. } => if done {
            JobOutcome::Decoded
        } else {
            JobOutcome::Skipped
        },
        DecodeJob::Write { .. } => if done {
            JobOutcome::Decoded
        } else {
            JobOutcome::Uncounted
        },
    }
}

/// How the job on a sample ended for which there is no directory to write to: it was
/// skipped where the sample has no data, and not run else.
pub fn outcome_without_output(fsb5: &Fsb5, index: usize) -> (r: JobOutcome)
    ensures
        r == (if sample_bytes(fsb5@, index as int) is Err {
            JobOutcome::Skipped
        } else {
            JobOutcome::Uncounted
        }),
{
    match fsb5.sample_data(index) {
        Ok(_) => JobOutcome::Uncounted,
        Err(_) => JobOutcome::Skipped,
    }
}

/// A sample counts as decoded exactly where there was something to do and it was done,
/// and one without data counts as skipped with and without a directory to write to.
pub proof fn law_decoded_is_done(bank: Fsb5Model, bank_name: Seq<char>, i: int, done: bool)
    ensures
        outcome_of(job_of(bank, bank_name, i), done) is Decoded <==> done && !(job_of(
            bank,
            bank_name,
            i,
        ) is Skip),
        sample_bytes(bank, i) is Err ==> outcome_of(job_of(bank, bank_name, i), done) is Skipped,
{
}

} // verus!
