use symphonium::resource::{DecodedAudio, DecodedAudioF32, DecodedAudioType};

fn bits(values: &[f32]) -> Vec<u32> {
    values.iter().map(|v| v.to_bits()).collect()
}

fn floats(values: &[u32]) -> Vec<f32> {
    values.iter().map(|v| f32::from_bits(*v)).collect()
}

/// The low three bytes of a value in the byte order of the machine.
fn native(value: i32) -> [u8; 3] {
    let bytes = value.to_ne_bytes();
    if u16::from_ne_bytes([1, 0]) == 1 {
        [bytes[0], bytes[1], bytes[2]]
    } else {
        [bytes[1], bytes[2], bytes[3]]
    }
}

#[test]
fn resource_pcm_fill_range_test() {
    let test_pcm = DecodedAudio::new(DecodedAudioType::F32(vec![bits(&[1.0, 2.0, 3.0, 4.0])]), 44100);

    let mut out_buf: [u32; 8] = [10.0f32.to_bits(); 8];

    let fill_frames = test_pcm.fill_channel(0, 0, &mut out_buf[0..4]);
    assert_eq!(fill_frames, Ok(4));
    assert_eq!(floats(&out_buf[0..4]), &[1.0, 2.0, 3.0, 4.0]);

    out_buf = [10.0f32.to_bits(); 8];
    let fill_frames = test_pcm.fill_channel(0, 0, &mut out_buf[0..5]);
    assert_eq!(fill_frames, Ok(4));
    assert_eq!(floats(&out_buf[0..5]), &[1.0, 2.0, 3.0, 4.0, 0.0]);

    out_buf = [10.0f32.to_bits(); 8];
    let fill_frames = test_pcm.fill_channel(0, 2, &mut out_buf[0..4]);
    assert_eq!(fill_frames, Ok(2));
    assert_eq!(floats(&out_buf[0..4]), &[3.0, 4.0, 0.0, 0.0]);

    out_buf = [10.0f32.to_bits(); 8];
    let fill_frames = test_pcm.fill_channel(0, 3, &mut out_buf[0..4]);
    assert_eq!(fill_frames, Ok(1));
    assert_eq!(floats(&out_buf[0..4]), &[4.0, 0.0, 0.0, 0.0]);

    out_buf = [10.0f32.to_bits(); 8];
    let fill_frames = test_pcm.fill_channel(0, 4, &mut out_buf[0..4]);
    assert_eq!(fill_frames, Ok(0));
    assert_eq!(floats(&out_buf[0..4]), &[0.0, 0.0, 0.0, 0.0]);

    out_buf = [10.0f32.to_bits(); 8];
    let fill_frames = test_pcm.fill_channel(0, 1, &mut out_buf[0..2]);
    assert_eq!(fill_frames, Ok(2));
    assert_eq!(floats(&out_buf[0..2]), &[2.0, 3.0]);

    out_buf = [10.0f32.to_bits(); 8];
    let fill_frames = test_pcm.fill_channel(0, 1, &mut out_buf[0..4]);
    assert_eq!(fill_frames, Ok(3));
    assert_eq!(floats(&out_buf[0..4]), &[2.0, 3.0, 4.0, 0.0]);
}

#[test]
fn fill_leaves_the_rest_of_the_array_alone() {
    let test_pcm = DecodedAudio::new(DecodedAudioType::F32(vec![bits(&[1.0, 2.0, 3.0, 4.0])]), 44100);
    let mut out_buf: [u32; 8] = [10.0f32.to_bits(); 8];
    assert_eq!(test_pcm.fill_channel(0, 3, &mut out_buf[0..4]), Ok(1));
    assert_eq!(floats(&out_buf), &[4.0, 0.0, 0.0, 0.0, 10.0, 10.0, 10.0, 10.0]);
}

#[test]
fn fill_of_a_missing_channel_fails_and_writes_nothing() {
    let test_pcm = DecodedAudio::new(DecodedAudioType::F32(vec![bits(&[1.0, 2.0])]), 44100);
    let mut out_buf = [10.0f32.to_bits(); 3];
    assert_eq!(test_pcm.fill_channel(1, 0, &mut out_buf), Err(()));
    assert_eq!(floats(&out_buf), &[10.0, 10.0, 10.0]);
}

#[test]
fn into_keeps_samples_and_rate() {
    let audio = DecodedAudioF32::new(vec![bits(&[0.5, -0.5]), bits(&[0.25, 1.0])], 48000);
    assert_eq!(audio.channels(), 2);
    assert_eq!(audio.frames(), 2);
    let any = audio.into();
    assert_eq!(any.channels(), 2);
    assert_eq!(any.frames(), 2);
    assert_eq!(any.sample_rate(), 48000);
    let mut out = [0u32; 2];
    assert_eq!(any.fill_channel(1, 0, &mut out), Ok(2));
    assert_eq!(floats(&out), &[0.25, 1.0]);
}

#[test]
fn fill_past_the_end_is_silence() {
    let audio = DecodedAudio::new(DecodedAudioType::U8(vec![vec![0, 255, 128], vec![255, 0, 1]]), 8000);
    let mut out = [7u32; 4];
    assert_eq!(audio.fill_channel(0, 3, &mut out), Ok(0));
    assert_eq!(out, [0; 4]);
    assert_eq!(audio.fill_channel(1, usize::MAX, &mut out), Ok(0));
    assert_eq!(out, [0; 4]);
    let mut left = [7u32; 2];
    let mut right = [7u32; 3];
    assert_eq!(audio.fill_stereo(3, &mut left, &mut right), 0);
    assert_eq!(left, [0; 2]);
    assert_eq!(right, [0; 3]);
}

#[test]
fn fill_converts_stored_samples() {
    let audio = DecodedAudio::new(DecodedAudioType::U8(vec![vec![0, 255, 128]]), 8000);
    let mut out = [7u32; 3];
    assert_eq!(audio.fill_channel(0, 0, &mut out), Ok(3));
    assert_eq!(floats(&out), &[-1.0, 1.0, (128.0f32 * (2.0 / 255.0)) - 1.0]);

    let audio = DecodedAudio::new(DecodedAudioType::S16(vec![vec![0, 32767, -32768]]), 8000);
    assert_eq!(audio.fill_channel(0, 0, &mut out), Ok(3));
    assert_eq!(floats(&out), &[0.0, 1.0, -32768.0 / 32767.0]);

    let audio = DecodedAudio::new(DecodedAudioType::S24(vec![vec![native(8_388_607), native(-8_388_608)]]), 8000);
    assert_eq!(audio.fill_channel(0, 0, &mut out), Ok(2));
    assert_eq!(floats(&out), &[1.0, (-8388608.0f64 / 8388607.0) as f32, 0.0]);

    let audio = DecodedAudio::new(DecodedAudioType::F64(vec![vec![0.1f64.to_bits(), 1e300f64.to_bits()]]), 8000);
    assert_eq!(audio.fill_channel(0, 0, &mut out), Ok(2));
    assert_eq!(floats(&out), &[0.1f64 as f32, f32::INFINITY, 0.0]);
}

#[test]
fn fill_stereo_of_one_channel_fills_both_sides_alike() {
    let audio = DecodedAudio::new(DecodedAudioType::F32(vec![bits(&[1.0, 2.0, 3.0, 4.0])]), 44100);
    let mut left = [7u32; 3];
    let mut right = [9u32; 3];
    assert_eq!(audio.fill_stereo(2, &mut left, &mut right), 2);
    assert_eq!(floats(&left), &[3.0, 4.0, 0.0]);
    assert_eq!(left, right);
    assert_eq!(audio.fill_stereo(0, &mut left, &mut right), 3);
    assert_eq!(floats(&left), &[1.0, 2.0, 3.0]);
    assert_eq!(left, right);
}

#[test]
fn fill_stereo_takes_the_first_two_channels() {
    let audio = DecodedAudio::new(
        DecodedAudioType::F32(vec![bits(&[1.0, 2.0, 3.0]), bits(&[-1.0, -2.0, -3.0]), bits(&[9.0, 9.0, 9.0])]),
        44100,
    );
    let mut left = [7u32; 2];
    let mut right = [7u32; 2];
    assert_eq!(audio.fill_stereo(0, &mut left, &mut right), 2);
    assert_eq!(floats(&left), &[1.0, 2.0]);
    assert_eq!(floats(&right), &[-1.0, -2.0]);
    assert_eq!(audio.fill_stereo(2, &mut left, &mut right), 1);
    assert_eq!(floats(&left), &[3.0, 0.0]);
    assert_eq!(floats(&right), &[-3.0, 0.0]);
}

#[test]
fn fill_stereo_with_buffers_of_two_lengths() {
    let audio = DecodedAudio::new(DecodedAudioType::F32(vec![bits(&[1.0, 2.0, 3.0]), bits(&[4.0, 5.0, 6.0])]), 44100);
    let ten = 10.0f32.to_bits();
    // inside the resource, the longer buffer keeps what lies beyond the shorter one
    let mut left = [ten; 2];
    let mut right = [ten; 4];
    assert_eq!(audio.fill_stereo(0, &mut left, &mut right), 2);
    assert_eq!(floats(&left), &[1.0, 2.0]);
    assert_eq!(floats(&right), &[4.0, 5.0, 10.0, 10.0]);
    // across the end both buffers end in silence
    assert_eq!(audio.fill_stereo(2, &mut left, &mut right), 1);
    assert_eq!(floats(&left), &[3.0, 0.0]);
    assert_eq!(floats(&right), &[6.0, 0.0, 0.0, 0.0]);
}

#[test]
fn ram_pcm_fill_range_test() {
    let test_pcm = symphonium::PcmRAM::new(symphonium::PcmRAMType::F32(vec![bits(&[1.0, 2.0, 3.0, 4.0])]), 44100);

    let mut out_buf: [u32; 8] = [10.0f32.to_bits(); 8];

    let fill_frames = test_pcm.fill_channel_f32(0, 0, &mut out_buf[0..4]);
    assert_eq!(fill_frames, Ok(4));
    assert_eq!(floats(&out_buf[0..4]), &[1.0, 2.0, 3.0, 4.0]);

    out_buf = [10.0f32.to_bits(); 8];
    let fill_frames = test_pcm.fill_channel_f32(0, 0, &mut out_buf[0..5]);
    assert_eq!(fill_frames, Ok(4));
    assert_eq!(floats(&out_buf[0..5]), &[1.0, 2.0, 3.0, 4.0, 0.0]);

    out_buf = [10.0f32.to_bits(); 8];
    let fill_frames = test_pcm.fill_channel_f32(0, 2, &mut out_buf[0..4]);
    assert_eq!(fill_frames, Ok(2));
    assert_eq!(floats(&out_buf[0..4]), &[3.0, 4.0, 0.0, 0.0]);

    out_buf = [10.0f32.to_bits(); 8];
    let fill_frames = test_pcm.fill_channel_f32(0, 3, &mut out_buf[0..4]);
    assert_eq!(fill_frames, Ok(1));
    assert_eq!(floats(&out_buf[0..4]), &[4.0, 0.0, 0.0, 0.0]);

    out_buf = [10.0f32.to_bits(); 8];
    let fill_frames = test_pcm.fill_channel_f32(0, 4, &mut out_buf[0..4]);
    assert_eq!(fill_frames, Ok(0));
    assert_eq!(floats(&out_buf[0..4]), &[0.0, 0.0, 0.0, 0.0]);
}

#[test]
fn resource_under_its_other_name() {
    let pcm = symphonium::PcmRAM::new(symphonium::PcmRAMType::F32(vec![bits(&[1.0, 2.0]), bits(&[3.0, 4.0])]), 8000);
    assert_eq!(pcm.len_frames(), 2);
    assert_eq!(pcm.channels(), 2);
    let mut left = [0u32; 3];
    let mut right = [0u32; 3];
    assert_eq!(pcm.fill_stereo_f32(1, &mut left, &mut right), 1);
    assert_eq!(floats(&left), &[2.0, 0.0, 0.0]);
    assert_eq!(floats(&right), &[4.0, 0.0, 0.0]);
    match pcm.to_raw() {
        symphonium::PcmRAMType::F32(planes) => assert_eq!(planes.len(), 2),
        _ => panic!("not stored as binary32"),
    }
}

#[test]
fn samples_of_24_bits_are_read_in_the_byte_order_of_the_machine() {
    let least_first = u16::from_ne_bytes([1, 0]) == 1;
    let unsigned = DecodedAudio::new(DecodedAudioType::U24(vec![vec![[0x01, 0x02, 0x03], native(0xFF_FFFF), native(0)]]), 8000);
    assert_eq!(unsigned.reads_least_first(), least_first);
    let mut out = [7u32; 3];
    assert_eq!(unsigned.fill_channel(0, 0, &mut out), Ok(3));
    assert_eq!(out[0], symphonium::convert::pcm_u24_to_f32_ne([0x01, 0x02, 0x03]));
    let value = if least_first { 0x03_0201 } else { 0x01_0203 };
    assert_eq!(f32::from_bits(out[0]), ((f64::from(value) * (2.0 / 16_777_215.0)) - 1.0) as f32);
    assert_eq!(floats(&out[1..]), &[1.0, -1.0]);

    let signed = DecodedAudio::new(DecodedAudioType::S24(vec![vec![[0x01, 0x02, 0x83], native(-5)]]), 8000);
    let mut out = [7u32; 2];
    assert_eq!(signed.fill_channel(0, 0, &mut out), Ok(2));
    assert_eq!(out[0], symphonium::convert::pcm_i24_to_f32_ne([0x01, 0x02, 0x83]));
    assert_eq!(f32::from_bits(out[1]), (-5.0f64 / 8_388_607.0) as f32);
    let mut left = [7u32; 1];
    let mut right = [7u32; 1];
    assert_eq!(signed.fill_stereo(1, &mut left, &mut right), 1);
    assert_eq!(left, right);
    assert_eq!(f32::from_bits(left[0]), (-5.0f64 / 8_388_607.0) as f32);
}
