use fmod_bank_decoder::decoder::{
    clamp_bits, decode_audio, get_decoder, DecodeError, DecodedAudio, Decoder, Pcm16Decoder,
    Pcm8Decoder, PcmFloatDecoder, PcmSamples, CODEC_PCM16, CODEC_PCM8, CODEC_PCMFLOAT,
};

/// The amplitudes that decoded samples stand for.
fn amplitudes(samples: &PcmSamples) -> Vec<f32> {
    match samples {
        PcmSamples::Pcm8(v) => v.iter().map(|&s| (s as f32 / 127.5) - 1.0).collect(),
        PcmSamples::Pcm16(v) => v.iter().map(|&s| s as f32 / i16::MAX as f32).collect(),
        PcmSamples::PcmFloat(v) => v.iter().map(|&s| f32::from_bits(s)).collect(),
    }
}

#[test]
fn test_pcm8_decode() {
    let data = vec![0, 128, 255];
    let decoder = Pcm8Decoder;
    let result = amplitudes(&decoder.decode(&data, 1).unwrap());
    assert_eq!(result.len(), 3);
    assert!((result[0] - (-1.0)).abs() < 0.01);
    assert!(result[1].abs() < 0.01);
    assert!((result[2] - 1.0).abs() < 0.01);
}

#[test]
fn test_pcm16_decode() {
    let mut data = Vec::new();
    data.extend_from_slice(&(-32768i16).to_le_bytes());
    data.extend_from_slice(&0i16.to_le_bytes());
    data.extend_from_slice(&32767i16.to_le_bytes());
    let decoder = Pcm16Decoder;
    let result = amplitudes(&decoder.decode(&data, 1).unwrap());
    assert_eq!(result.len(), 3);
    assert!((result[0] - (-1.0)).abs() < 0.001);
    assert!(result[1].abs() < 0.001);
    assert!((result[2] - 1.0).abs() < 0.001);
}

#[test]
fn test_pcm_float_decode() {
    let mut data = Vec::new();
    data.extend_from_slice(&(-1.0f32).to_le_bytes());
    data.extend_from_slice(&0.5f32.to_le_bytes());
    let decoder = PcmFloatDecoder;
    let result = amplitudes(&decoder.decode(&data, 1).unwrap());
    assert_eq!(result.len(), 2);
    assert!((result[0] - (-1.0)).abs() < f32::EPSILON);
    assert!((result[1] - 0.5).abs() < f32::EPSILON);
}

#[test]
fn test_stereo_pcm16() {
    let mut data = Vec::new();
    data.extend_from_slice(&1000i16.to_le_bytes());
    data.extend_from_slice(&(-1000i16).to_le_bytes());
    let decoder = Pcm16Decoder;
    let result = amplitudes(&decoder.decode(&data, 2).unwrap());
    assert_eq!(result.len(), 2);
}

#[test]
fn pcm_samples_are_the_numbers_of_the_data() {
    assert_eq!(Pcm8Decoder.decode(&[7, 200], 2), Ok(PcmSamples::Pcm8(vec![7, 200])));
    assert_eq!(
        Pcm16Decoder.decode(&[0x34, 0x12, 0xFF, 0xFF, 0x00, 0x80, 0xFF, 0x7F], 1),
        Ok(PcmSamples::Pcm16(vec![0x1234, -1, -32768, 32767]))
    );
    let mut data = Vec::new();
    for v in [0.25f32, -0.0, 3.5, -7.25] {
        data.extend_from_slice(&v.to_le_bytes());
    }
    assert_eq!(
        PcmFloatDecoder.decode(&data, 2),
        Ok(PcmSamples::PcmFloat(vec![
            0.25f32.to_bits(),
            (-0.0f32).to_bits(),
            1.0f32.to_bits(),
            (-1.0f32).to_bits(),
        ]))
    );
}

#[test]
fn empty_data_decode_to_no_samples() {
    assert_eq!(Pcm8Decoder.decode(&[], 2), Ok(PcmSamples::Pcm8(vec![])));
    assert_eq!(Pcm16Decoder.decode(&[], 6), Ok(PcmSamples::Pcm16(vec![])));
    assert_eq!(PcmFloatDecoder.decode(&[], 8), Ok(PcmSamples::PcmFloat(vec![])));
}

#[test]
fn clamp_agrees_with_single_precision() {
    let mut bits: u32 = 0;
    loop {
        let expected = f32::from_bits(bits).clamp(-1.0, 1.0);
        let got = f32::from_bits(clamp_bits(bits));
        if expected.is_nan() {
            assert!(got.is_nan());
            assert_eq!(clamp_bits(bits), bits);
        } else {
            assert_eq!(got.to_bits(), expected.to_bits());
        }
        match bits.checked_add(4099) {
            Some(next) => bits = next,
            None => break,
        }
    }
    for v in [1.0f32, -1.0, f32::INFINITY, f32::NEG_INFINITY, 1.0000001, 0.99999994, 0.0, -0.0] {
        assert_eq!(clamp_bits(v.to_bits()), v.clamp(-1.0, 1.0).to_bits());
        assert_eq!(clamp_bits(clamp_bits(v.to_bits())), clamp_bits(v.to_bits()));
    }
}

#[test]
fn uneven_data_are_refused() {
    assert_eq!(Pcm8Decoder.decode(&[1], 0), Err(DecodeError::NoChannels));
    assert_eq!(Pcm16Decoder.decode(&[1], 0), Err(DecodeError::NoChannels));
    assert_eq!(PcmFloatDecoder.decode(&[1], 0), Err(DecodeError::NoChannels));
    assert_eq!(
        Pcm8Decoder.decode(&[1, 2, 3], 2),
        Err(DecodeError::Pcm8Length { len: 3, channels: 2 })
    );
    assert_eq!(Pcm16Decoder.decode(&[1, 2, 3], 1), Err(DecodeError::Pcm16Length { len: 3 }));
    assert_eq!(
        Pcm16Decoder.decode(&[1, 2], 2),
        Err(DecodeError::SampleCount { count: 1, channels: 2 })
    );
    assert_eq!(PcmFloatDecoder.decode(&[1, 2], 1), Err(DecodeError::PcmFloatLength { len: 2 }));
    assert_eq!(
        PcmFloatDecoder.decode(&[0; 12], 2),
        Err(DecodeError::SampleCount { count: 3, channels: 2 })
    );
}

#[test]
fn decoders_are_found_by_codec() {
    let data = [1u8, 0, 2, 0];
    assert_eq!(
        get_decoder(CODEC_PCM8).ok().unwrap().decode(&data, 1),
        Ok(PcmSamples::Pcm8(vec![1, 0, 2, 0]))
    );
    assert_eq!(
        get_decoder(CODEC_PCM16).ok().unwrap().decode(&data, 1),
        Ok(PcmSamples::Pcm16(vec![1, 2]))
    );
    assert_eq!(
        get_decoder(CODEC_PCMFLOAT).ok().unwrap().decode(&data, 1),
        Ok(PcmSamples::PcmFloat(vec![0x0002_0001]))
    );
    for codec_id in [0u32, 3, 4, 6, 11, 15, u32::MAX] {
        assert_eq!(get_decoder(codec_id).err(), Some(DecodeError::UnsupportedCodec { codec_id }));
    }
}

#[test]
fn audio_keeps_channels_and_rate() {
    let audio = decode_audio(CODEC_PCM16, &[1, 0, 2, 0, 3, 0, 4, 0], 2, 44100).unwrap();
    assert_eq!(audio.samples, PcmSamples::Pcm16(vec![1, 2, 3, 4]));
    assert_eq!(audio.channels, 2);
    assert_eq!(audio.sample_rate, 44100);
    assert_eq!(audio.frame_count(), 2);
    assert_eq!(audio.samples.len(), 4);
    assert_eq!(
        decode_audio(15, &[1], 1, 44100),
        Err(DecodeError::UnsupportedCodec { codec_id: 15 })
    );
    assert_eq!(decode_audio(1, &[1], 0, 44100), Err(DecodeError::NoChannels));
}

#[test]
fn audio_without_channels_has_no_frames() {
    let audio =
        DecodedAudio { samples: PcmSamples::Pcm8(vec![1, 2, 3]), channels: 0, sample_rate: 8000 };
    assert_eq!(audio.frame_count(), 0);
    let odd = DecodedAudio { channels: 2, ..audio };
    assert_eq!(odd.frame_count(), 1);
}

#[test]
fn every_pcm8_amplitude_is_in_range_and_rises() {
    let data: Vec<u8> = (0..=255).collect();
    for channels in [1u16, 2, 8, 256] {
        let v = amplitudes(&Pcm8Decoder.decode(&data, channels).unwrap());
        assert_eq!(v.len(), 256);
        assert_eq!((v[0], v[255]), (-1.0, 1.0));
        for i in 0..256 {
            assert_eq!(v[i], data[i] as f32 / 127.5 - 1.0);
            assert!((-1.0..=1.0).contains(&v[i]));
            assert!(i == 0 || v[i - 1] < v[i]);
        }
    }
}

#[test]
fn every_pcm16_amplitude_is_left_unclamped() {
    let words: Vec<i16> = (i16::MIN..=i16::MAX).collect();
    let data: Vec<u8> = words.iter().flat_map(|w| w.to_le_bytes()).collect();
    for channels in [1u16, 2, 8] {
        let v = amplitudes(&Pcm16Decoder.decode(&data, channels).unwrap());
        assert_eq!(v.len(), words.len());
        assert!(v[0] < -1.0);
        assert_eq!((v[1], v[65535]), (-1.0, 1.0));
        for i in 1..words.len() {
            assert_eq!(v[i], words[i] as f32 / 32767.0);
            assert!((-1.0..=1.0).contains(&v[i]));
            assert!(v[i - 1] < v[i]);
            assert_eq!(v[65536 - i], -v[i]);
        }
    }
}
