use std::io::Cursor;

use symphonium::error::{LoadError, UnexpectedDecode};
use symphonium::resource::DecodedAudioType;
use symphonium::stream::{
    decode, decode_native_bitdepth, default_track_info, load_audio_source, max_bytes_or_default,
    open_track, settle_decoded, track_layout, Sifted, TrackInfo, TrackReader,
};

/// A WAVE file with one `data` chunk of the given interleaved sample bytes.
fn wav(format_tag: u16, channels: u16, rate: u32, bits: u16, data: &[u8]) -> Vec<u8> {
    let block = channels * (bits / 8);
    let mut out = Vec::new();
    out.extend_from_slice(b"RIFF");
    out.extend_from_slice(&(36 + data.len() as u32).to_le_bytes());
    out.extend_from_slice(b"WAVE");
    out.extend_from_slice(b"fmt ");
    out.extend_from_slice(&16u32.to_le_bytes());
    out.extend_from_slice(&format_tag.to_le_bytes());
    out.extend_from_slice(&channels.to_le_bytes());
    out.extend_from_slice(&rate.to_le_bytes());
    out.extend_from_slice(&(rate * block as u32).to_le_bytes());
    out.extend_from_slice(&block.to_le_bytes());
    out.extend_from_slice(&bits.to_le_bytes());
    out.extend_from_slice(b"data");
    out.extend_from_slice(&(data.len() as u32).to_le_bytes());
    out.extend_from_slice(data);
    out
}

fn probe(bytes: Vec<u8>) -> symphonia::core::probe::ProbeResult {
    let stream = symphonia::core::io::MediaSourceStream::new(Box::new(Cursor::new(bytes)), Default::default());
    symphonia::default::get_probe()
        .format(
            &symphonia::core::probe::Hint::new(),
            stream,
            &symphonia::core::formats::FormatOptions::default(),
            &symphonia::core::meta::MetadataOptions::default(),
        )
        .unwrap()
}

#[test]
fn wav_of_16_bits_is_kept_in_16_bits() {
    let left: Vec<i16> = (0..3000).map(|i| (i * 7 - 9000) as i16).collect();
    let right: Vec<i16> = (0..3000).map(|i| (12000 - i * 5) as i16).collect();
    let mut data = Vec::new();
    for i in 0..3000 {
        data.extend_from_slice(&left[i].to_le_bytes());
        data.extend_from_slice(&right[i].to_le_bytes());
    }
    let mut probed = probe(wav(1, 2, 48000, 16, &data));
    let mut warnings = Vec::new();
    let audio =
        decode_native_bitdepth(&mut probed, 2, symphonia::default::get_codecs(), 48000, 1_000_000, &mut warnings)
            .unwrap();
    assert!(warnings.is_empty());
    assert_eq!(audio.channels(), 2);
    assert_eq!(audio.frames(), 3000);
    assert_eq!(audio.sample_rate(), 48000);
    match audio.get() {
        DecodedAudioType::S16(planes) => {
            assert_eq!(planes[0], left);
            assert_eq!(planes[1], right);
        }
        _ => panic!("not stored in 16 bits"),
    }
    let mut out = [0u32; 4];
    assert_eq!(audio.fill_channel(1, 2998, &mut out), Ok(2));
    assert_eq!(f32::from_bits(out[0]), f32::from(right[2998]) / 32767.0);
    assert_eq!(f32::from_bits(out[1]), f32::from(right[2999]) / 32767.0);
    assert_eq!(out[2], 0);
    assert_eq!(out[3], 0);
}

#[test]
fn wav_of_8_bits_is_kept_in_8_bits() {
    let samples: Vec<u8> = (0..=255).collect();
    let mut probed = probe(wav(1, 1, 8000, 8, &samples));
    let mut warnings = Vec::new();
    let audio =
        decode_native_bitdepth(&mut probed, 1, symphonia::default::get_codecs(), 8000, 1_000, &mut warnings).unwrap();
    match audio.get() {
        DecodedAudioType::U8(planes) => assert_eq!(planes[0], samples),
        _ => panic!("not stored in 8 bits"),
    }
    let mut out = [7u32; 256];
    assert_eq!(audio.fill_channel(0, 0, &mut out), Ok(256));
    assert_eq!(f32::from_bits(out[0]), -1.0);
    assert_eq!(f32::from_bits(out[255]), 1.0);
}

#[test]
fn wav_of_24_bits_is_kept_in_three_bytes() {
    let values: [i32; 5] = [0, 1, -1, 8_388_607, -8_388_608];
    let mut data = Vec::new();
    for v in values {
        data.extend_from_slice(&v.to_le_bytes()[0..3]);
    }
    let mut probed = probe(wav(1, 1, 44100, 24, &data));
    let mut warnings = Vec::new();
    let audio =
        decode_native_bitdepth(&mut probed, 1, symphonia::default::get_codecs(), 44100, 1_000, &mut warnings).unwrap();
    match audio.get() {
        DecodedAudioType::S24(planes) => {
            assert_eq!(planes[0].len(), 5);
            for (stored, v) in planes[0].iter().zip(values) {
                assert_eq!(*stored, symphonia::core::sample::i24::from(v).to_ne_bytes());
            }
        }
        _ => panic!("not stored in 24 bits"),
    }
    let mut out = [7u32; 5];
    assert_eq!(audio.fill_channel(0, 0, &mut out), Ok(5));
    for (bits, v) in out.iter().zip(values) {
        assert_eq!(f32::from_bits(*bits), (f64::from(v) / 8_388_607.0) as f32);
    }
}

#[test]
fn wav_of_32_bit_integers_is_stored_as_binary32() {
    let values: [i32; 5] = [0, 1, -1, i32::MAX, i32::MIN];
    let mut data = Vec::new();
    for v in values {
        data.extend_from_slice(&v.to_le_bytes());
    }
    let mut probed = probe(wav(1, 1, 44100, 32, &data));
    let mut warnings = Vec::new();
    let audio =
        decode_native_bitdepth(&mut probed, 1, symphonia::default::get_codecs(), 44100, 1_000, &mut warnings).unwrap();
    match audio.get() {
        DecodedAudioType::F32(planes) => {
            for (bits, v) in planes[0].iter().zip(values) {
                assert_eq!(f32::from_bits(*bits), (f64::from(v) / i32::MAX as f64) as f32);
            }
        }
        _ => panic!("not stored as binary32"),
    }
}

#[test]
fn wav_of_binary32_keeps_the_bit_patterns() {
    let values: [f32; 4] = [0.0, 0.5, -0.25, 1.0];
    let mut data = Vec::new();
    for v in values {
        data.extend_from_slice(&v.to_le_bytes());
    }
    let mut probed = probe(wav(3, 2, 44100, 32, &data));
    let mut warnings = Vec::new();
    let audio =
        decode_native_bitdepth(&mut probed, 2, symphonia::default::get_codecs(), 44100, 1_000, &mut warnings).unwrap();
    match audio.get() {
        DecodedAudioType::F32(planes) => {
            assert_eq!(planes[0], vec![0.0f32.to_bits(), (-0.25f32).to_bits()]);
            assert_eq!(planes[1], vec![0.5f32.to_bits(), 1.0f32.to_bits()]);
        }
        _ => panic!("not stored as binary32"),
    }
}

#[test]
fn wav_of_binary64_keeps_the_bit_patterns() {
    let values: [f64; 3] = [0.1, -0.7, 1.0];
    let mut data = Vec::new();
    for v in values {
        data.extend_from_slice(&v.to_le_bytes());
    }
    let mut probed = probe(wav(3, 1, 44100, 64, &data));
    let mut warnings = Vec::new();
    let audio =
        decode_native_bitdepth(&mut probed, 1, symphonia::default::get_codecs(), 44100, 1_000, &mut warnings).unwrap();
    match audio.get() {
        DecodedAudioType::F64(planes) => {
            assert_eq!(planes[0], vec![0.1f64.to_bits(), (-0.7f64).to_bits(), 1.0f64.to_bits()]);
        }
        _ => panic!("not stored as binary64"),
    }
    let mut out = [7u32; 3];
    assert_eq!(audio.fill_channel(0, 0, &mut out), Ok(3));
    assert_eq!(f32::from_bits(out[0]), 0.1f64 as f32);
    assert_eq!(f32::from_bits(out[1]), -0.7f64 as f32);
}

#[test]
fn declared_length_over_the_limit_fails_at_once() {
    let data = vec![0u8; 2 * 2 * 1000];
    let mut probed = probe(wav(1, 2, 44100, 16, &data));
    let mut warnings = Vec::new();
    let r = decode_native_bitdepth(&mut probed, 2, symphonia::default::get_codecs(), 44100, 3999, &mut warnings);
    assert!(matches!(r, Err(LoadError::FileTooLarge(3999))));
}

#[test]
fn declared_length_at_the_limit_loads() {
    let data = vec![0u8; 2 * 2 * 1000];
    let mut probed = probe(wav(1, 2, 44100, 16, &data));
    let mut warnings = Vec::new();
    let r = decode_native_bitdepth(&mut probed, 2, symphonia::default::get_codecs(), 44100, 4000, &mut warnings);
    assert_eq!(r.unwrap().frames(), 1000);
}

#[test]
fn stream_without_packets_fails() {
    let mut probed = probe(wav(1, 2, 44100, 16, &[]));
    let mut warnings = Vec::new();
    let r = decode_native_bitdepth(&mut probed, 2, symphonia::default::get_codecs(), 44100, 4000, &mut warnings);
    assert!(matches!(r, Err(LoadError::UnexpectedErrorWhileDecoding(UnexpectedDecode::NoPacketFound))));
}

#[test]
fn packet_with_fewer_channels_than_asked_for_fails() {
    let data = vec![0u8; 2 * 100];
    let mut probed = probe(wav(1, 1, 44100, 16, &data));
    let mut warnings = Vec::new();
    let r = decode_native_bitdepth(&mut probed, 2, symphonia::default::get_codecs(), 44100, 4000, &mut warnings);
    assert!(matches!(r, Err(LoadError::UnexpectedErrorWhileDecoding(UnexpectedDecode::MalformedPacket))));
}

/// A WAVE file of ADPCM blocks: the `fmt ` chunk carries `extra` after the
/// common fields.
fn adpcm_wav(format_tag: u16, block_align: u16, extra: &[u8], data: &[u8]) -> Vec<u8> {
    let fmt_len = 18 + extra.len() as u32;
    let mut out = Vec::new();
    out.extend_from_slice(b"RIFF");
    out.extend_from_slice(&(20 + fmt_len + data.len() as u32).to_le_bytes());
    out.extend_from_slice(b"WAVE");
    out.extend_from_slice(b"fmt ");
    out.extend_from_slice(&fmt_len.to_le_bytes());
    out.extend_from_slice(&format_tag.to_le_bytes());
    out.extend_from_slice(&1u16.to_le_bytes());
    out.extend_from_slice(&8000u32.to_le_bytes());
    out.extend_from_slice(&4000u32.to_le_bytes());
    out.extend_from_slice(&block_align.to_le_bytes());
    out.extend_from_slice(&4u16.to_le_bytes());
    out.extend_from_slice(&(extra.len() as u16).to_le_bytes());
    out.extend_from_slice(extra);
    out.extend_from_slice(b"data");
    out.extend_from_slice(&(data.len() as u32).to_le_bytes());
    out.extend_from_slice(data);
    out
}

/// One block of IMA ADPCM for one channel: 2049 frames in 1028 bytes.
fn ima_block(predictor: i16, step_index: u8) -> Vec<u8> {
    let mut block = Vec::new();
    block.extend_from_slice(&predictor.to_le_bytes());
    block.push(step_index);
    block.push(0);
    block.resize(1028, 0);
    block
}

#[test]
fn malformed_packet_is_skipped_with_a_warning() {
    let mut data = ima_block(0, 0);
    data.extend_from_slice(&ima_block(0, 89));
    data.extend_from_slice(&ima_block(1000, 0));
    let mut probed = probe(adpcm_wav(0x11, 1028, &2049u16.to_le_bytes(), &data));
    let mut warnings = vec![String::from("earlier")];
    let audio =
        decode_native_bitdepth(&mut probed, 1, symphonia::default::get_codecs(), 8000, 1_000_000, &mut warnings)
            .unwrap();
    assert_eq!(
        warnings,
        vec![
            String::from("earlier"),
            String::from("Symphonia decode warning: adpcm (ima): invalid step index"),
        ]
    );
    assert_eq!(audio.frames(), 2 * 2049);
    assert!(matches!(audio.get(), DecodedAudioType::F32(_)));
}

#[test]
fn error_of_the_codec_ends_the_load() {
    let mut block = vec![0u8; 1031];
    block[0] = 7;
    let mut extra = Vec::new();
    extra.extend_from_slice(&2050u16.to_le_bytes());
    extra.extend_from_slice(&7u16.to_le_bytes());
    extra.resize(32, 0);
    let mut probed = probe(adpcm_wav(0x02, 1031, &extra, &block));
    let mut warnings = Vec::new();
    let r = decode_native_bitdepth(&mut probed, 1, symphonia::default::get_codecs(), 8000, 1_000_000, &mut warnings);
    match r {
        Err(e) => {
            assert!(matches!(e, LoadError::ErrorWhileDecoding(_)));
            assert_eq!(
                e.message(),
                "Error while decoding | unsupported feature: adpcm: block predictor exceeds range"
            );
        }
        Ok(_) => panic!("the block was decoded"),
    }
    assert!(warnings.is_empty());
}

#[test]
fn track_without_a_decoder_cannot_be_opened() {
    let probed = probe(wav(1, 1, 8000, 16, &[0, 0]));
    let registry = symphonia::core::codecs::CodecRegistry::new();
    assert!(matches!(open_track(&registry, &probed), Err(LoadError::CouldNotCreateDecoder(_))));
    let (track, _) = open_track(symphonia::default::get_codecs(), &probed).unwrap();
    assert_eq!(track.n_frames, Some(1));
    assert_eq!(track.sample_rate, Some(8000));
    assert_eq!(track.channels, Some(1));
}

#[test]
fn layout_of_a_track() {
    let track = TrackInfo { id: 3, n_frames: None, sample_rate: Some(48000), channels: Some(2) };
    let mut warnings = Vec::new();
    assert!(matches!(track_layout(Some(track), &mut warnings), Ok((48000, 2))));
    assert!(warnings.is_empty());
    assert!(matches!(track_layout(None, &mut warnings), Err(LoadError::NoTrackFound)));
    let none = TrackInfo { id: 3, n_frames: None, sample_rate: Some(48000), channels: None };
    assert!(matches!(track_layout(Some(none), &mut warnings), Err(LoadError::NoChannelsFound)));
    let zero = TrackInfo { id: 3, n_frames: None, sample_rate: Some(48000), channels: Some(0) };
    assert!(matches!(track_layout(Some(zero), &mut warnings), Err(LoadError::NoChannelsFound)));
    assert!(warnings.is_empty());
}

#[test]
fn track_without_a_sample_rate_is_taken_at_44100() {
    let track = TrackInfo { id: 0, n_frames: Some(10), sample_rate: None, channels: Some(1) };
    let mut warnings = Vec::new();
    assert!(matches!(track_layout(Some(track), &mut warnings), Ok((44100, 1))));
    assert_eq!(warnings, vec!["Could not find sample rate of PCM resource. Assuming a sample rate of 44100"]);
    let silent = TrackInfo { id: 0, n_frames: Some(10), sample_rate: None, channels: None };
    assert!(matches!(track_layout(Some(silent), &mut warnings), Err(LoadError::NoChannelsFound)));
    assert_eq!(warnings.len(), 2);
}

#[test]
fn source_that_was_not_recognised_fails() {
    let stream = symphonia::core::io::MediaSourceStream::new(
        Box::new(Cursor::new(vec![0x55u8; 4096])),
        Default::default(),
    );
    let probed = symphonia::default::get_probe().format(
        &symphonia::core::probe::Hint::new(),
        stream,
        &symphonia::core::formats::FormatOptions::default(),
        &symphonia::core::meta::MetadataOptions::default(),
    );
    assert!(probed.is_err());
    let mut warnings = Vec::new();
    assert!(matches!(load_audio_source(probed, &mut warnings), Err(LoadError::UnkownFormat(_))));
}

#[test]
fn source_is_decoded_at_its_own_rate() {
    let samples: Vec<u8> = (0..200).collect();
    let source = load_audio_source(Ok(probe(wav(1, 2, 11025, 8, &samples))), &mut Vec::new()).unwrap();
    assert_eq!(source.sample_rate, 11025);
    assert_eq!(source.n_channels, 2);
    let mut warnings = Vec::new();
    let audio = decode(source, symphonia::default::get_codecs(), None, &mut warnings).unwrap();
    assert_eq!(audio.sample_rate(), 11025);
    assert_eq!(audio.channels(), 2);
    assert_eq!(audio.frames(), 100);

    let source = load_audio_source(Ok(probe(wav(1, 2, 11025, 8, &samples))), &mut Vec::new()).unwrap();
    let r = decode(source, symphonia::default::get_codecs(), Some(199), &mut warnings);
    assert!(matches!(r, Err(LoadError::FileTooLarge(199))));
}

#[test]
fn limit_without_a_choice_is_a_gigabyte() {
    assert_eq!(max_bytes_or_default(None), 1_000_000_000);
    assert_eq!(max_bytes_or_default(Some(5)), 5);
    assert_eq!(symphonium::DEFAULT_MAX_BYTES, 1_000_000_000);
}

#[test]
fn reader_takes_the_packets_of_its_track_only() {
    let reader = TrackReader::new(3);
    let own = symphonia::core::formats::Packet::new_from_slice(3, 10, 20, &[1, 2, 3]);
    match reader.sift(Ok(own)) {
        Sifted::Taken(packet) => {
            assert_eq!(packet.track_id(), 3);
            assert_eq!(packet.ts, 10);
            assert_eq!(packet.dur, 20);
            assert_eq!(packet.data[..], [1, 2, 3]);
        }
        _ => panic!("the packet was not taken"),
    }
    let foreign = symphonia::core::formats::Packet::new_from_slice(4, 0, 0, &[]);
    assert!(matches!(reader.sift(Ok(foreign)), Sifted::Passed));
    let zero = symphonia::core::formats::Packet::new_from_slice(0, 0, 0, &[]);
    assert!(matches!(reader.sift(Ok(zero)), Sifted::Passed));
    assert!(matches!(TrackReader::new(0).sift(Ok(symphonia::core::formats::Packet::new_from_slice(0, 0, 0, &[]))), Sifted::Taken(_)));
}

#[test]
fn reader_ends_with_any_error_of_the_stream() {
    let reader = TrackReader::new(0);
    assert!(matches!(reader.sift(Err(symphonia::core::errors::Error::ResetRequired)), Sifted::Ended));
    assert!(matches!(reader.sift(Err(symphonia::core::errors::Error::DecodeError("bad"))), Sifted::Ended));
    let end = std::io::Error::new(std::io::ErrorKind::UnexpectedEof, "end of stream");
    assert!(matches!(reader.sift(Err(symphonia::core::errors::Error::IoError(end))), Sifted::Ended));
}

#[test]
fn reader_hands_out_every_packet_of_a_stream_of_one_track() {
    let data = vec![0u8; 2 * 5000];
    let mut probed = probe(wav(1, 1, 44100, 16, &data));
    let (track, _) = open_track(symphonia::default::get_codecs(), &probed).unwrap();
    let mut reader = TrackReader::new(track.id);
    let mut frames = 0;
    let mut packets = 0;
    while let Some(packet) = reader.next(&mut probed) {
        assert_eq!(packet.track_id(), track.id);
        frames += packet.dur;
        packets += 1;
    }
    assert_eq!(frames, 5000);
    assert!(packets >= 2);
    assert!(reader.next(&mut probed).is_none());

    let mut probed = probe(wav(1, 1, 44100, 16, &data));
    let mut other = TrackReader::new(track.id + 1);
    assert!(other.next(&mut probed).is_none());
    assert!(probed.format.next_packet().is_err());
}

#[test]
fn default_track_says_what_the_stream_declares() {
    let probed = probe(wav(1, 2, 22050, 16, &vec![0u8; 4 * 300]));
    let info = default_track_info(&probed).unwrap();
    assert_eq!(info.n_frames, Some(300));
    assert_eq!(info.sample_rate, Some(22050));
    assert_eq!(info.channels, Some(2));
    let (opened, _) = open_track(symphonia::default::get_codecs(), &probed).unwrap();
    assert_eq!(opened.id, info.id);
    assert_eq!(opened.n_frames, info.n_frames);
}

#[test]
fn answer_of_the_codec_is_handed_on_skipped_or_ends_the_load() {
    let mut warnings = vec![String::from("earlier")];
    let skipped = settle_decoded(Err(symphonia::core::errors::Error::DecodeError("bad frame")), &mut warnings);
    assert!(matches!(skipped, Ok(None)));
    assert_eq!(warnings, vec!["earlier", "Symphonia decode warning: bad frame"]);

    let ended = settle_decoded(Err(symphonia::core::errors::Error::Unsupported("feature")), &mut warnings);
    assert!(matches!(
        ended,
        Err(LoadError::ErrorWhileDecoding(symphonia::core::errors::Error::Unsupported("feature")))
    ));
    let ended = settle_decoded(Err(symphonia::core::errors::Error::ResetRequired), &mut warnings);
    assert!(matches!(ended, Err(LoadError::ErrorWhileDecoding(symphonia::core::errors::Error::ResetRequired))));
    assert_eq!(warnings.len(), 2);

    let spec = symphonia::core::audio::SignalSpec::new(8000, symphonia::core::audio::Channels::FRONT_LEFT);
    let buffer: symphonia::core::audio::AudioBuffer<u8> = symphonia::core::audio::AudioBuffer::new(16, spec);
    let handed = settle_decoded(Ok(symphonia::core::audio::AsAudioBufferRef::as_audio_buffer_ref(&buffer)), &mut warnings);
    match handed {
        Ok(Some(symphonia::core::audio::AudioBufferRef::U8(same))) => assert_eq!(same.capacity(), 16),
        _ => panic!("the buffer was not handed on"),
    }
    assert_eq!(warnings.len(), 2);
}

#[test]
fn declared_length_does_not_lift_the_limit() {
    // the data chunk holds 1000 frames; a fact chunk cannot be had, so the
    // limit is set below the length that the stream declares and holds
    let data = vec![0u8; 2 * 1000];
    let mut probed = probe(wav(1, 1, 44100, 16, &data));
    let mut warnings = Vec::new();
    let r = decode_native_bitdepth(&mut probed, 1, symphonia::default::get_codecs(), 44100, 1999, &mut warnings);
    assert!(matches!(r, Err(LoadError::FileTooLarge(1999))));
    let mut probed = probe(wav(1, 1, 44100, 16, &data));
    let audio =
        decode_native_bitdepth(&mut probed, 1, symphonia::default::get_codecs(), 44100, 2000, &mut warnings).unwrap();
    assert_eq!(audio.frames() * 2, 2000);
}
