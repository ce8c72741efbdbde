use fmod_bank_decoder::decoder::{DecodeError, PcmSamples};
use fmod_bank_decoder::extract::{
    channel_count, codec_label, codec_to_u32, default_output_dir, is_bank_extension, list_samples,
    matches_filter, read_bank, sample_info, sample_step, BankError, SampleStep,
};
use fmod_bank_decoder::fsb5::{
    Fsb5, Fsb5Channels, Fsb5Codec, Fsb5Error, Fsb5Header, Fsb5NameEntry, Fsb5SampleHeader,
};
use fmod_bank_decoder::riff::RiffError;
use fmod_bank_decoder::wav::{safe_name, sanitize_filename, wav_file_name};

fn header(codec: Fsb5Codec, n: u32) -> Fsb5Header {
    Fsb5Header {
        version: 1,
        num_samples: n,
        sample_header_size: 0,
        name_table_size: 0,
        data_size: 0,
        codec,
        flags: 0,
        hash: [0; 16],
        unknown: [0; 8],
    }
}

fn sample(data_offset: u32, channels: Fsb5Channels, sample_rate: u32) -> Fsb5SampleHeader {
    Fsb5SampleHeader {
        num_samples: 10,
        data_offset,
        channels,
        sample_rate,
        has_extra_data: false,
        extra_data: vec![],
    }
}

fn bank(codec: Fsb5Codec, names: &[&str]) -> Fsb5 {
    Fsb5 {
        header: header(codec, names.len() as u32),
        samples: names.iter().map(|_| sample(0, Fsb5Channels::Mono, 8000)).collect(),
        names: names
            .iter()
            .enumerate()
            .map(|(i, n)| Fsb5NameEntry { index: i as u32, name: n.to_string() })
            .collect(),
        data: vec![1, 0, 2, 0],
    }
}

fn bank_file(body: &[u8]) -> Vec<u8> {
    let mut out = b"RIFF".to_vec();
    out.extend_from_slice(&(body.len() as u32 + 12).to_le_bytes());
    out.extend_from_slice(b"FEV FSB5");
    out.extend_from_slice(&(body.len() as u32).to_le_bytes());
    out.extend_from_slice(body);
    out
}

fn sample_bank() -> Vec<u8> {
    let mut out = b"FSB5".to_vec();
    for word in [1u32, 1, 8, 0, 4, 2, 0, 0] {
        out.extend_from_slice(&word.to_le_bytes());
    }
    out.extend_from_slice(&[0; 24]);
    out.extend_from_slice(&(8u64 << 1 | 2 << 34).to_le_bytes());
    out.extend_from_slice(&[1, 0, 2, 0]);
    out
}

#[test]
fn a_bank_file_is_taken_apart() {
    let inner = sample_bank();
    let file = bank_file(&inner);
    let bank = read_bank(&file).ok().unwrap();
    assert_eq!(&bank.format, b"FEV ");
    assert_eq!(bank.fsb5_data, &inner[..]);
    assert_eq!(bank.fsb5.samples.len(), 1);
    assert_eq!(bank.fsb5.samples[0].sample_rate, 44100);
    assert_eq!(
        sample_step(&bank.fsb5, 0, &None, false),
        SampleStep::Write {
            wav: "unknown.wav".to_string(),
            audio: fmod_bank_decoder::decoder::DecodedAudio {
                samples: PcmSamples::Pcm16(vec![1, 2]),
                channels: 1,
                sample_rate: 44100,
            },
        }
    );
}

#[test]
fn a_bank_file_that_cannot_be_read_says_where() {
    assert_eq!(
        read_bank(b"nothing").err(),
        Some(BankError::Container(RiffError::TooSmall { len: 7 }))
    );
    let mut empty = b"RIFF".to_vec();
    empty.extend_from_slice(&4u32.to_le_bytes());
    empty.extend_from_slice(b"FEV ");
    assert_eq!(read_bank(&empty).err(), Some(BankError::Search(RiffError::NoFsb5)));
    assert_eq!(
        read_bank(&bank_file(b"FSB5")).err(),
        Some(BankError::SampleBank(Fsb5Error::TooSmall { len: 4 }))
    );
}

#[test]
fn codec_numbers_are_kept() {
    for v in [0u32, 1, 2, 3, 5, 11, 15, 16, u32::MAX] {
        assert_eq!(codec_to_u32(&Fsb5Codec::from_u32(v)), v);
    }
}

#[test]
fn codecs_are_labelled_as_they_are_called() {
    for v in [1u32, 2, 5, 11, 15, 0, 7, 4294967295] {
        let codec = Fsb5Codec::from_u32(v);
        assert_eq!(codec_label(&codec), format!("{:?}", codec));
    }
}

#[test]
fn layouts_have_their_channels() {
    assert_eq!(channel_count(&Fsb5Channels::Mono), 1);
    assert_eq!(channel_count(&Fsb5Channels::Stereo), 2);
    assert_eq!(channel_count(&Fsb5Channels::Surround5_1), 6);
    assert_eq!(channel_count(&Fsb5Channels::Surround7_1), 8);
    assert_eq!(channel_count(&Fsb5Channels::Unknown(9)), 0);
}

#[test]
fn filters_do_not_mind_case() {
    assert!(matches_filter("Explosion_01", &None));
    assert!(matches_filter("Explosion_01", &Some("PLOS".to_string())));
    assert!(matches_filter("Explosion_01", &Some("_01".to_string())));
    assert!(matches_filter("Explosion_01", &Some(String::new())));
    assert!(matches_filter("\u{c4}rger", &Some("\u{e4}RG".to_string())));
    assert!(!matches_filter("Explosion_01", &Some("xx".to_string())));
    assert!(!matches_filter("ab", &Some("abc".to_string())));
}

#[test]
fn samples_are_listed_in_order() {
    let fsb5 = bank(Fsb5Codec::Vorbis, &["Boom", "wind", "kaboom"]);
    let all = list_samples(&fsb5, &None);
    assert_eq!(all.len(), 3);
    assert_eq!(all[1], sample_info(&fsb5, 1));
    assert_eq!(all[1].name, "wind");
    assert_eq!(all[1].codec, "Vorbis");
    assert_eq!(all[1].channels, 1);
    assert_eq!(all[1].sample_rate, 8000);
    assert_eq!(all[1].num_samples, 10);
    let some = list_samples(&fsb5, &Some("BOOM".to_string()));
    assert_eq!(some.len(), 2);
    assert_eq!(some[0].name, "Boom");
    assert_eq!(some[1].name, "kaboom");
}

#[test]
fn pcm_is_written_and_vorbis_is_left() {
    let fsb5 = bank(Fsb5Codec::Pcm8, &["a/b.c"]);
    match sample_step(&fsb5, 0, &None, true) {
        SampleStep::Write { wav, audio } => {
            assert_eq!(wav, "a_b_c.wav");
            assert_eq!(audio.samples, PcmSamples::Pcm8(vec![1, 0, 2, 0]));
            assert_eq!(audio.channels, 1);
            assert_eq!(audio.sample_rate, 8000);
        }
        other => panic!("{:?}", other),
    }
    let fsb5 = bank(Fsb5Codec::Vorbis, &["../x"]);
    assert_eq!(
        sample_step(&fsb5, 0, &None, true),
        SampleStep::ExportFsb5 { file: "___x.fsb".to_string() }
    );
    assert_eq!(
        sample_step(&fsb5, 0, &None, false),
        SampleStep::Vgmstream {
            temporary: "___x.fsb".to_string(),
            wav: "___x.wav".to_string(),
        }
    );
}

#[test]
fn samples_that_cannot_be_written_are_told_apart() {
    let mut fsb5 = bank(Fsb5Codec::Mpeg, &["a"]);
    assert_eq!(
        sample_step(&fsb5, 0, &None, false),
        SampleStep::Undecodable { error: DecodeError::UnsupportedCodec { codec_id: 11 } }
    );
    assert_eq!(
        sample_step(&fsb5, 0, &Some("b".to_string()), false),
        SampleStep::Filtered
    );
    fsb5.samples[0].data_offset = 32;
    assert_eq!(sample_step(&fsb5, 0, &None, false), SampleStep::NoData);
}

#[test]
fn names_are_made_fit_for_files() {
    assert_eq!(sanitize_filename("a b/c\\d:e-f_g.h1"), "a_b_c_d_e-f_g.h1");
    assert_eq!(safe_name("a b/c\\d:e-f_g.h1"), "a_b_c_d_e-f_g_h1");
    assert_eq!(sanitize_filename("\u{e4}\u{4eac}\u{2028}"), "\u{e4}\u{4eac}_");
    assert_eq!(sanitize_filename(""), "");
    assert_eq!(wav_file_name("x y"), "x_y.wav");
    let once = sanitize_filename("we?ird.n\u{0}me");
    assert_eq!(sanitize_filename(&once), once);
    let safe = safe_name("we?ird.n\u{0}me");
    assert_eq!(sanitize_filename(&safe), safe);
}

#[test]
fn sanitizing_agrees_with_the_standard_library_on_ascii() {
    for b in 0u8..128 {
        let c = b as char;
        let kept = c.is_ascii_alphanumeric() || c == '-' || c == '_' || c == '.';
        let expected = if kept { c.to_string() } else { "_".to_string() };
        assert_eq!(sanitize_filename(&c.to_string()), expected);
    }
}

#[test]
fn output_goes_to_a_directory_named_after_the_input() {
    assert_eq!(default_output_dir("music01"), "music01_decoded");
    assert_eq!(default_output_dir(""), "_decoded");
}

#[test]
fn bank_files_are_known_by_their_extension() {
    for ext in ["bank", "BANK", "Bank", "bAnK"] {
        assert!(is_bank_extension(ext.as_bytes()));
    }
    for ext in ["", "ban", "banks", "bank ", "b\u{1}nk", "wav"] {
        assert!(!is_bank_extension(ext.as_bytes()));
    }
}
