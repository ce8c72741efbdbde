use fmod_bank_decoder::fsb5::{
    parse_fsb5, Fsb5, Fsb5Channels, Fsb5Codec, Fsb5Error, Fsb5ExtraData,
};

fn packed(frames: u64, units: u64, layout: u64, rate: u64, extra: u64) -> Vec<u8> {
    (extra | rate << 1 | layout << 5 | units << 7 | frames << 34).to_le_bytes().to_vec()
}

fn extra(kind: u32, body: &[u8], more: bool) -> Vec<u8> {
    let head = more as u32 | (body.len() as u32) << 1 | kind << 25;
    let mut out = head.to_le_bytes().to_vec();
    out.extend_from_slice(body);
    out
}

fn header(version: u32, n: u32, samples: u32, names: u32, codec: u32) -> Vec<u8> {
    let mut out = b"FSB5".to_vec();
    for word in [version, n, samples, names, 77, codec, 0] {
        out.extend_from_slice(&word.to_le_bytes());
    }
    if version == 1 {
        out.extend_from_slice(&0x1234_5678u32.to_le_bytes());
    }
    out.extend(1..=16u8);
    out.extend(101..=108u8);
    out
}

fn table(names: &[&[u8]]) -> Vec<u8> {
    let mut offset = 4 * names.len() as u32;
    let mut out = Vec::new();
    for name in names {
        out.extend_from_slice(&offset.to_le_bytes());
        offset += name.len() as u32 + 1;
    }
    for name in names {
        out.extend_from_slice(name);
        out.push(0);
    }
    out
}

fn bank(version: u32, n: u32, samples: &[u8], names: &[u8], data: &[u8]) -> Vec<u8> {
    let mut out = header(version, n, samples.len() as u32, names.len() as u32, 2);
    out.extend_from_slice(samples);
    out.extend_from_slice(names);
    if version != 1 {
        out.extend_from_slice(&[0; 8]);
    }
    out.extend_from_slice(data);
    out
}

fn parsed(bytes: &[u8]) -> Fsb5 {
    parse_fsb5(bytes).unwrap()
}

#[test]
fn a_bank_of_version_one_is_read_back() {
    let mut samples = packed(1000, 0, 0, 8, 0);
    samples.extend(packed(2000, 1, 1, 9, 0));
    let names = table(&[b"boom", b"wind"]);
    let data: Vec<u8> = (0..40).collect();
    let fsb5 = parsed(&bank(1, 2, &samples, &names, &data));
    assert_eq!(fsb5.header.version, 1);
    assert_eq!(fsb5.header.num_samples, 2);
    assert_eq!(fsb5.header.sample_header_size, 16);
    assert_eq!(fsb5.header.name_table_size, 18);
    assert_eq!(fsb5.header.data_size, 77);
    assert_eq!(fsb5.header.codec, Fsb5Codec::Pcm16);
    assert_eq!(fsb5.header.flags, 0x1234_5678);
    assert_eq!(fsb5.header.hash[0], 1);
    assert_eq!(fsb5.header.hash[15], 16);
    assert_eq!(fsb5.header.unknown, [101, 102, 103, 104, 105, 106, 107, 108]);
    assert_eq!(fsb5.samples.len(), 2);
    assert_eq!(fsb5.samples[0].num_samples, 1000);
    assert_eq!(fsb5.samples[0].data_offset, 0);
    assert_eq!(fsb5.samples[0].channels, Fsb5Channels::Mono);
    assert_eq!(fsb5.samples[0].sample_rate, 44100);
    assert!(!fsb5.samples[0].has_extra_data);
    assert!(fsb5.samples[0].extra_data.is_empty());
    assert_eq!(fsb5.samples[1].num_samples, 2000);
    assert_eq!(fsb5.samples[1].data_offset, 32);
    assert_eq!(fsb5.samples[1].channels, Fsb5Channels::Stereo);
    assert_eq!(fsb5.samples[1].sample_rate, 48000);
    assert_eq!(fsb5.names.len(), 2);
    assert_eq!(fsb5.names[1].index, 1);
    assert_eq!(fsb5.sample_name(0), "boom");
    assert_eq!(fsb5.sample_name(1), "wind");
    assert_eq!(fsb5.sample_name(2), "unknown");
    assert_eq!(fsb5.data, data);
    assert_eq!(fsb5.sample_data(0).unwrap(), &data[..]);
    assert_eq!(fsb5.sample_data(1).unwrap(), &data[32..]);
    assert_eq!(fsb5.sample_data(2).err(), Some(Fsb5Error::NoSample { index: 2 }));
}

#[test]
fn sample_headers_of_other_versions_follow_the_fields() {
    for version in [0u32, 2, u32::MAX] {
        let data = [5u8, 6, 7];
        let fsb5 = parsed(&bank(version, 1, &packed(3, 0, 0, 4, 0), &table(&[b"x"]), &data));
        assert_eq!(fsb5.header.version, version);
        assert_eq!(fsb5.header.flags, 0);
        assert_eq!(fsb5.header.hash[0], 1);
        assert_eq!(fsb5.header.unknown[7], 108);
        assert_eq!(fsb5.samples[0].sample_rate, 16000);
        assert_eq!(fsb5.sample_name(0), "x");
        assert_eq!(fsb5.data, data);
    }
}

#[test]
fn every_bit_field_comes_apart() {
    let word = packed(0x3FFF_FFFF, 0x07FF_FFFF, 3, 10, 0);
    let fsb5 = parsed(&bank(1, 1, &word, &[], &[]));
    assert_eq!(fsb5.samples[0].num_samples, 0x3FFF_FFFF);
    assert_eq!(fsb5.samples[0].data_offset, 0xFFFF_FFE0);
    assert_eq!(fsb5.samples[0].channels, Fsb5Channels::Surround7_1);
    assert_eq!(fsb5.samples[0].channels.count(), 8);
    assert_eq!(fsb5.samples[0].sample_rate, 96000);
    let fsb5 = parsed(&bank(1, 1, &packed(1, 2, 2, 3, 0), &[], &[]));
    assert_eq!(fsb5.samples[0].channels, Fsb5Channels::Surround5_1);
    assert_eq!(fsb5.samples[0].channels.count(), 6);
    assert_eq!(fsb5.samples[0].sample_rate, 11025);
    assert_eq!(fsb5.samples[0].data_offset, 64);
}

#[test]
fn the_rate_table_is_looked_up() {
    let rates = [
        4000, 8000, 11000, 11025, 16000, 22050, 24000, 32000, 44100, 48000, 96000, 0, 0, 0, 0, 0,
    ];
    for (i, &rate) in rates.iter().enumerate() {
        let fsb5 = parsed(&bank(1, 1, &packed(1, 0, 0, i as u64, 0), &[], &[]));
        assert_eq!(fsb5.samples[0].sample_rate, rate);
    }
}

#[test]
fn extra_data_are_read_to_the_last_chunk() {
    let mut samples = packed(1, 0, 0, 0, 1);
    samples.extend(extra(1, &[6], true));
    samples.extend(extra(2, &22050u32.to_le_bytes(), true));
    samples.extend(extra(3, &[1, 0, 0, 0, 2, 0, 0, 0], true));
    samples.extend(extra(11, &[9, 0, 0, 0, 41, 42], true));
    samples.extend(extra(0x7F, &[1, 2, 3], false));
    samples.extend(packed(2, 0, 1, 0, 0));
    let fsb5 = parsed(&bank(1, 2, &samples, &[], &[]));
    let extras = &fsb5.samples[0].extra_data;
    assert!(fsb5.samples[0].has_extra_data);
    assert_eq!(extras.len(), 5);
    assert!(matches!(extras[0], Fsb5ExtraData::Channels(6)));
    assert!(matches!(extras[1], Fsb5ExtraData::SampleRate(22050)));
    match &extras[2] {
        Fsb5ExtraData::LoopInfo(l) => assert_eq!((l.loop_start, l.loop_end), (1, 2)),
        other => panic!("{:?}", other),
    }
    match &extras[3] {
        Fsb5ExtraData::VorbisSetup(v) => {
            assert_eq!(v.setup_id, 9);
            assert_eq!(v.seek_table, vec![41, 42]);
        }
        other => panic!("{:?}", other),
    }
    match &extras[4] {
        Fsb5ExtraData::Unknown { chunk_type, data } => {
            assert_eq!(*chunk_type, 0x7F);
            assert_eq!(data, &[1, 2, 3]);
        }
        other => panic!("{:?}", other),
    }
    assert_eq!(fsb5.samples[1].num_samples, 2);
}

#[test]
fn extra_data_that_are_too_short_say_nothing() {
    let mut samples = packed(1, 0, 0, 0, 1);
    samples.extend(extra(1, &[], true));
    samples.extend(extra(2, &[1, 2, 3], true));
    samples.extend(extra(3, &[1, 2, 3, 4, 5, 6, 7], true));
    samples.extend(extra(11, &[1, 2, 3], true));
    samples.extend(extra(4, &[], false));
    let fsb5 = parsed(&bank(1, 1, &samples, &[], &[]));
    assert_eq!(fsb5.samples[0].extra_data.len(), 1);
    assert!(matches!(
        fsb5.samples[0].extra_data[0],
        Fsb5ExtraData::Unknown { chunk_type: 4, .. }
    ));
}

#[test]
fn input_that_ends_early_is_refused() {
    assert_eq!(parse_fsb5(b"FSB5").err(), Some(Fsb5Error::TooSmall { len: 4 }));
    assert_eq!(
        parse_fsb5(b"RIFFxxxx").err(),
        Some(Fsb5Error::BadMagic { found: *b"RIFF" })
    );
    let head = header(1, 0, 0, 0, 1);
    assert_eq!(
        parse_fsb5(&head[..0x3B]).err(),
        Some(Fsb5Error::HeaderTooSmall { version: 1, len: 0x3B, needed: 0x3C })
    );
    assert_eq!(
        parse_fsb5(&header(0, 0, 0, 0, 1)).err(),
        Some(Fsb5Error::HeaderTooSmall { version: 0, len: 0x38, needed: 0x40 })
    );
    assert_eq!(
        parse_fsb5(&bank(1, 2, &packed(1, 0, 0, 0, 0), &[], &[])).err(),
        Some(Fsb5Error::SampleHeader { sample: 1 })
    );
    assert_eq!(
        parse_fsb5(&bank(1, 1, &packed(1, 0, 0, 0, 1), &[], &[1, 2, 3])).err(),
        Some(Fsb5Error::ExtraHeader)
    );
    let mut samples = packed(1, 0, 0, 0, 1);
    samples.extend(extra(9, &[1, 2, 3], false));
    samples.pop();
    assert_eq!(
        parse_fsb5(&bank(1, 1, &samples, &[], &[])).err(),
        Some(Fsb5Error::ExtraBody { chunk_type: 9 })
    );
    assert_eq!(
        parse_fsb5(&header(1, u32::MAX, 0, 0, 1)).err(),
        Some(Fsb5Error::SampleHeader { sample: 0 })
    );
}

#[test]
fn a_name_table_past_the_end_is_refused() {
    let mut bytes = header(1, 0, 0, 9, 1);
    bytes.extend_from_slice(&[0; 8]);
    assert_eq!(
        parse_fsb5(&bytes).err(),
        Some(Fsb5Error::NameTablePastEnd { start: 0x3C, size: 9, len: 0x44 })
    );
    let mut bytes = header(1, 2, 16, 4, 1);
    bytes.extend(packed(1, 0, 0, 0, 0));
    bytes.extend(packed(1, 0, 0, 0, 0));
    bytes.extend_from_slice(&[0; 7]);
    assert_eq!(parse_fsb5(&bytes).err(), Some(Fsb5Error::NameOffsets));
}

#[test]
fn names_are_made_up_or_mended_where_they_must_be() {
    let mut samples = Vec::new();
    for _ in 0..11 {
        samples.extend(packed(1, 0, 0, 0, 0));
    }
    let mut names = Vec::new();
    for i in 0..11u32 {
        let offset: u32 = match i {
            0 => 44,
            1 => 48,
            2 => 50,
            _ => 1000,
        };
        names.extend_from_slice(&offset.to_le_bytes());
    }
    names.extend_from_slice(b"a\xC3\xA4\0\xFFb\0end");
    let fsb5 = parsed(&bank(1, 11, &samples, &names, &[]));
    assert_eq!(fsb5.sample_name(0), "a\u{e4}");
    assert_eq!(fsb5.sample_name(1), "\u{fffd}b");
    assert_eq!(fsb5.sample_name(2), "");
    assert_eq!(fsb5.sample_name(3), "sample_3");
    assert_eq!(fsb5.sample_name(10), "sample_10");
    assert_eq!(fsb5.names[10].index, 10);
}

#[test]
fn a_name_without_a_zero_ends_with_the_table() {
    let mut names = 4u32.to_le_bytes().to_vec();
    names.extend_from_slice(b"tail");
    let fsb5 = parsed(&bank(1, 1, &packed(1, 0, 0, 0, 0), &names, b"more"));
    assert_eq!(fsb5.sample_name(0), "tail");
    assert_eq!(fsb5.data, b"more");
}

#[test]
fn a_bank_without_names_calls_its_samples_unknown() {
    let fsb5 = parsed(&bank(1, 1, &packed(1, 0, 0, 0, 0), &[], &[1]));
    assert!(fsb5.names.is_empty());
    assert_eq!(fsb5.sample_name(0), "unknown");
}

#[test]
fn the_data_begin_where_the_header_says() {
    let mut bytes = header(1, 0, 2, 0, 1);
    bytes.extend_from_slice(&[1, 2, 3, 4]);
    assert_eq!(parsed(&bytes).data, vec![3, 4]);
    let mut bytes = header(1, 0, 100, 0, 1);
    bytes.extend_from_slice(&[1, 2, 3, 4]);
    assert!(parsed(&bytes).data.is_empty());
    let bytes = header(1, 0, u32::MAX - 0x3A, 0, 1);
    assert_eq!(parsed(&bytes).data, bytes[1..].to_vec());
}

#[test]
fn data_that_begin_past_the_end_cannot_be_had() {
    let fsb5 = parsed(&bank(1, 1, &packed(1, 1, 0, 0, 0), &[], &[0; 32]));
    assert_eq!(
        fsb5.sample_data(0).err(),
        Some(Fsb5Error::SampleOffset { offset: 32, len: 32 })
    );
}

#[test]
fn codecs_and_layouts_are_told_by_number() {
    assert_eq!(Fsb5Codec::from_u32(1), Fsb5Codec::Pcm8);
    assert_eq!(Fsb5Codec::from_u32(2), Fsb5Codec::Pcm16);
    assert_eq!(Fsb5Codec::from_u32(5), Fsb5Codec::PcMFLOAT);
    assert_eq!(Fsb5Codec::from_u32(11), Fsb5Codec::Mpeg);
    assert_eq!(Fsb5Codec::from_u32(15), Fsb5Codec::Vorbis);
    assert_eq!(Fsb5Codec::from_u32(3), Fsb5Codec::Unknown(3));
    assert_eq!(Fsb5Channels::from_bits(0).count(), 1);
    assert_eq!(Fsb5Channels::from_bits(1).count(), 2);
    assert_eq!(Fsb5Channels::from_bits(2).count(), 6);
    assert_eq!(Fsb5Channels::from_bits(3).count(), 8);
    assert_eq!(Fsb5Channels::from_bits(4), Fsb5Channels::Unknown(4));
    assert_eq!(Fsb5Channels::from_bits(4).count(), 0);
}

#[test]
fn appended_bytes_only_extend_the_data() {
    let mut samples = packed(1, 0, 0, 4, 1);
    samples.extend(extra(2, &8000u32.to_le_bytes(), false));
    let bytes = bank(1, 1, &samples, &table(&[b"x"]), &[1, 2]);
    let longer = [bytes.clone(), vec![3, 4, 5]].concat();
    let (a, b) = (parsed(&bytes), parsed(&longer));
    assert_eq!(format!("{:?}", a.header), format!("{:?}", b.header));
    assert_eq!(format!("{:?}", a.samples), format!("{:?}", b.samples));
    assert_eq!(format!("{:?}", a.names), format!("{:?}", b.names));
    assert_eq!(a.data, vec![1, 2]);
    assert_eq!(b.data, vec![1, 2, 3, 4, 5]);
}
