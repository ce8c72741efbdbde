use fmod_bank_decoder::benchmark::{
    decode_indexed, pcm_codec_id, sample_rate_from_idx, RunCount,
};
use fmod_bank_decoder::decoder::{PcmSamples, CODEC_PCM16, CODEC_PCM8, CODEC_PCMFLOAT};
use fmod_bank_decoder::fsb5::{
    Fsb5, Fsb5Channels, Fsb5Codec, Fsb5Header, Fsb5NameEntry, Fsb5SampleHeader,
};
use fmod_bank_decoder::run::{progress_due, tally, DecodeResult, DecodeState, JobOutcome};
use fmod_bank_decoder::session::{
    decode_job, job_outcome, outcome_without_output, DecodeJob, Session,
};
use fmod_bank_decoder::text::{contains_any_case, contains_text, push_decimal};

fn bank(codec: Fsb5Codec, names: &[&str]) -> Fsb5 {
    Fsb5 {
        header: Fsb5Header {
            version: 1,
            num_samples: names.len() as u32,
            sample_header_size: 0,
            name_table_size: 0,
            data_size: 0,
            codec,
            flags: 0,
            hash: [0; 16],
            unknown: [0; 8],
        },
        samples: names
            .iter()
            .map(|_| Fsb5SampleHeader {
                num_samples: 20,
                data_offset: 0,
                channels: Fsb5Channels::Stereo,
                sample_rate: 22050,
                has_extra_data: false,
                extra_data: vec![],
            })
            .collect(),
        names: names
            .iter()
            .enumerate()
            .map(|(i, n)| Fsb5NameEntry { index: i as u32, name: n.to_string() })
            .collect(),
        data: vec![1, 0, 2, 0],
    }
}

fn session() -> Session {
    let mut s = Session::new();
    s.add_bank("sfx", &bank(Fsb5Codec::Pcm16, &["boom", "wind"]));
    s.add_bank("Music", &bank(Fsb5Codec::Vorbis, &["theme"]));
    s
}

fn selection(s: &Session) -> Vec<bool> {
    (0..s.rows().len()).map(|i| s.is_selected(i)).collect()
}

#[test]
fn opened_banks_are_rows_that_are_selected() {
    let s = session();
    assert_eq!(s.bank_count(), 2);
    assert_eq!(s.rows().len(), 3);
    assert_eq!(selection(&s), vec![true, true, true]);
    assert_eq!(s.rows()[1].bank_index, 0);
    assert_eq!(s.rows()[1].sample_index, 1);
    assert_eq!(s.rows()[1].bank_name, "sfx");
    assert_eq!(s.rows()[1].name, "wind");
    assert_eq!(s.rows()[1].codec, "Pcm16");
    assert_eq!(s.rows()[1].channels, 2);
    assert_eq!(s.rows()[1].sample_rate, 22050);
    assert_eq!(s.rows()[1].num_samples, 20);
    assert_eq!(s.rows()[2].bank_index, 1);
    assert_eq!(s.rows()[2].sample_index, 0);
    assert_eq!(s.rows()[2].bank_name, "Music");
}

#[test]
fn opening_a_bank_keeps_the_selection() {
    let mut s = session();
    s.set_selected(0, false);
    s.add_bank("ui", &bank(Fsb5Codec::Pcm8, &["click"]));
    assert_eq!(selection(&s), vec![false, true, true, true]);
    s.clear();
    assert_eq!(s.bank_count(), 0);
    assert!(s.rows().is_empty());
    assert!(selection(&s).is_empty());
    assert!(!s.is_selected(0));
}

#[test]
fn rows_are_selected_by_hand_and_by_codec() {
    let mut s = session();
    s.set_all(false);
    assert_eq!(s.selected_count(), 0);
    assert!(s.selected_indices().is_empty());
    s.set_selected(1, true);
    assert_eq!(s.selected_indices(), vec![1]);
    s.select_codec("Vorbis");
    assert_eq!(s.selected_indices(), vec![2]);
    s.select_codec("Pcm16");
    assert_eq!(s.selected_indices(), vec![0, 1]);
    assert_eq!(s.selected_count(), 2);
    s.set_all(true);
    assert_eq!(s.selected_indices(), vec![0, 1, 2]);
}

#[test]
fn rows_are_searched_by_name_codec_and_bank() {
    let s = session();
    assert_eq!(s.filtered(""), vec![0, 1, 2]);
    assert_eq!(s.filtered("BOO"), vec![0]);
    assert_eq!(s.filtered("vorb"), vec![2]);
    assert_eq!(s.filtered("music"), vec![2]);
    assert_eq!(s.filtered("SFX"), vec![0, 1]);
    assert!(s.filtered("nothing").is_empty());
}

#[test]
fn jobs_follow_the_codec() {
    match decode_job(&bank(Fsb5Codec::Pcm16, &["a.b"]), "sfx", 0) {
        DecodeJob::Write { wav, audio } => {
            assert_eq!(wav, "a_b.wav");
            assert_eq!(audio.samples, PcmSamples::Pcm16(vec![1, 2]));
            assert_eq!(audio.channels, 2);
        }
        other => panic!("{:?}", other),
    }
    assert_eq!(
        decode_job(&bank(Fsb5Codec::Vorbis, &["x", "a.b"]), "my music", 1),
        DecodeJob::Vgmstream {
            temporary: "my music_1_a_b.fsb".to_string(),
            subsong: 2,
            wav: "a_b.wav".to_string(),
        }
    );
    assert_eq!(decode_job(&bank(Fsb5Codec::Mpeg, &["a"]), "m", 0), DecodeJob::Skip);
    assert_eq!(decode_job(&bank(Fsb5Codec::Unknown(1), &["a"]), "m", 0), DecodeJob::Skip);
    assert_eq!(decode_job(&bank(Fsb5Codec::PcMFLOAT, &["a"]), "m", 0), DecodeJob::Skip);
    assert_eq!(decode_job(&bank(Fsb5Codec::Pcm8, &["a"]), "m", 1), DecodeJob::Skip);
    let mut empty = bank(Fsb5Codec::Pcm8, &["a"]);
    empty.data.clear();
    assert_eq!(decode_job(&empty, "m", 0), DecodeJob::Skip);
}

#[test]
fn jobs_end_as_their_work_was_done() {
    let write = decode_job(&bank(Fsb5Codec::Pcm16, &["a"]), "m", 0);
    assert_eq!(job_outcome(&write, true), JobOutcome::Decoded);
    assert_eq!(job_outcome(&write, false), JobOutcome::Uncounted);
    let vorbis = decode_job(&bank(Fsb5Codec::Vorbis, &["a"]), "m", 0);
    assert_eq!(job_outcome(&vorbis, true), JobOutcome::Decoded);
    assert_eq!(job_outcome(&vorbis, false), JobOutcome::Skipped);
    assert_eq!(job_outcome(&DecodeJob::Skip, true), JobOutcome::Skipped);
    assert_eq!(job_outcome(&DecodeJob::Skip, false), JobOutcome::Skipped);
    let mpeg = bank(Fsb5Codec::Mpeg, &["a"]);
    assert_eq!(outcome_without_output(&mpeg, 0), JobOutcome::Uncounted);
    assert_eq!(outcome_without_output(&mpeg, 1), JobOutcome::Skipped);
}

#[test]
fn outcomes_are_counted() {
    let outcomes = vec![
        JobOutcome::Decoded,
        JobOutcome::Skipped,
        JobOutcome::Decoded,
        JobOutcome::Uncounted,
    ];
    assert_eq!(tally(&outcomes), DecodeResult { decoded_count: 2, skipped_count: 1 });
    assert_eq!(tally(&vec![]), DecodeResult { decoded_count: 0, skipped_count: 0 });
}

#[test]
fn progress_is_shown_now_and_then() {
    assert!(progress_due(32, 100));
    assert!(progress_due(64, 100));
    assert!(progress_due(100, 100));
    assert!(!progress_due(33, 100));
    assert!(!progress_due(1, 100));
}

#[test]
fn a_run_goes_from_begin_to_result() {
    let mut state = DecodeState::new();
    assert!(!state.is_running());
    state.advance(32, "early");
    state.cancel();
    assert!(state.progress.is_none());
    assert!(!state.is_cancelled());
    state.begin(40);
    assert!(state.is_running());
    state.advance(1, "one");
    assert_eq!(state.progress.as_ref().unwrap().completed, 0);
    state.advance(32, "thirty-two");
    assert_eq!(state.progress.as_ref().unwrap().completed, 32);
    assert_eq!(state.progress.as_ref().unwrap().current_file, "thirty-two");
    state.cancel();
    assert!(state.is_cancelled());
    state.advance(40, "last");
    assert!(state.is_cancelled());
    assert_eq!(state.progress.as_ref().unwrap().completed, 40);
    let result = DecodeResult { decoded_count: 3, skipped_count: 4 };
    state.finish(result);
    assert!(!state.is_running());
    assert_eq!(state.take_result(), Some(result));
    assert_eq!(state.take_result(), None);
    state.finish(result);
    state.begin(1);
    assert_eq!(state.take_result(), None);
    assert!(!state.is_cancelled());
}

#[test]
fn only_pcm_is_measured() {
    assert_eq!(pcm_codec_id(&Fsb5Codec::Pcm8), Some(CODEC_PCM8));
    assert_eq!(pcm_codec_id(&Fsb5Codec::Pcm16), Some(CODEC_PCM16));
    assert_eq!(pcm_codec_id(&Fsb5Codec::PcMFLOAT), Some(CODEC_PCMFLOAT));
    assert_eq!(pcm_codec_id(&Fsb5Codec::Vorbis), None);
    assert_eq!(pcm_codec_id(&Fsb5Codec::Mpeg), None);
    assert_eq!(pcm_codec_id(&Fsb5Codec::Unknown(2)), None);
}

#[test]
fn measured_samples_are_decoded_and_counted() {
    let fsb5 = bank(Fsb5Codec::Pcm16, &["a"]);
    assert_eq!(sample_rate_from_idx(&fsb5, 0), 22050);
    assert_eq!(sample_rate_from_idx(&fsb5, 1), 0);
    let audio = decode_indexed(&fsb5, CODEC_PCM16, 0).unwrap();
    assert_eq!(audio.samples, PcmSamples::Pcm16(vec![1, 2]));
    assert_eq!(audio.sample_rate, 22050);
    assert!(decode_indexed(&fsb5, CODEC_PCMFLOAT, 0).is_none());
    assert!(decode_indexed(&fsb5, CODEC_PCM16, 1).is_none());
    let mut count = RunCount::new();
    count.record(audio.samples.len());
    count.record(5);
    assert_eq!(count, RunCount { decoded: 2, total_samples: 7 });
}

#[test]
fn text_is_searched_for_parts() {
    assert!(contains_text("abcabd", "abd"));
    assert!(contains_text("abc", ""));
    assert!(contains_text("", ""));
    assert!(!contains_text("abc", "abcd"));
    assert!(!contains_text("abc", "ac"));
    assert!(contains_text("\u{e4}\u{f6}\u{fc}", "\u{f6}"));
    assert!(contains_any_case("PcMFLOAT", "pcmfl"));
    assert!(contains_any_case("\u{130}x", "X"));
    assert!(!contains_any_case("abc", "D"));
}

#[test]
fn numbers_are_put_in_decimal() {
    for n in [0u64, 9, 10, 99, 100, 4294967295, u64::MAX] {
        let mut out = String::from("n");
        push_decimal(&mut out, n);
        assert_eq!(out, format!("n{}", n));
    }
}
