use rubato::Resampler;

use symphonium::driver::{Action, ResampleDriver};
use symphonium::error::{LoadError, UnexpectedDecode};
use symphonium::resample::EngineInfo;
use symphonium::resource::DecodedAudioF32;

fn planes_to_bits(planes: &[Vec<f32>]) -> Vec<Vec<u32>> {
    planes.iter().map(|p| p.iter().map(|v| v.to_bits()).collect()).collect()
}

fn planes_to_floats(planes: &[Vec<u32>]) -> Vec<Vec<f32>> {
    planes.iter().map(|p| p.iter().map(|v| f32::from_bits(*v)).collect()).collect()
}

/// Convert the packets with the engine, doing what the driver asks for.
fn drive<R: Resampler<f32>>(
    engine: &mut R,
    packets: &[Vec<Vec<f32>>],
    source_rate: u32,
    target_rate: u32,
    file_frames: Option<u64>,
    max_bytes: usize,
) -> Result<DecodedAudioF32, LoadError> {
    engine.reset();
    let info = EngineInfo {
        channels: engine.nbr_channels(),
        input_frames_max: engine.input_frames_max(),
        output_frames_max: engine.output_frames_max(),
        input_frames_next: engine.input_frames_next(),
        output_delay: engine.output_delay(),
    };
    let n_channels = engine.nbr_channels();
    let mut driver = ResampleDriver::begin(n_channels, source_rate, target_rate, file_frames, max_bytes, info)?;
    let mut out = vec![vec![0.0f32; engine.output_frames_max()]; n_channels];
    let mut stream = packets.iter();
    loop {
        match driver.action() {
            Action::Read => match stream.next() {
                Some(packet) => driver.on_packet(planes_to_bits(packet))?,
                None => driver.on_end_of_stream(),
            },
            Action::Run => {
                let input = planes_to_floats(driver.chunk());
                let (_, produced) = engine.process_into_buffer(&input, &mut out, None).unwrap();
                driver.on_output(&planes_to_bits(&out), produced, engine.input_frames_next())?;
            }
            Action::Finish => return driver.finish(),
        }
    }
}

/// All that the engine puts out for the input, fed in its own chunks and
/// followed by `extra` chunks of zeros, without its first `output_delay`
/// frames.
fn engine_output<R: Resampler<f32>>(engine: &mut R, input: &[Vec<f32>], extra: usize) -> Vec<Vec<f32>> {
    engine.reset();
    let n_channels = input.len();
    let delay = engine.output_delay();
    let mut all = vec![Vec::new(); n_channels];
    let mut out = vec![vec![0.0f32; engine.output_frames_max()]; n_channels];
    let mut offset = 0;
    let mut tail = 0;
    while tail < extra {
        let want = engine.input_frames_next();
        let mut chunk = vec![vec![0.0f32; want]; n_channels];
        let take = want.min(input[0].len() - offset);
        for c in 0..n_channels {
            chunk[c][..take].copy_from_slice(&input[c][offset..offset + take]);
        }
        offset += take;
        if take == 0 {
            tail += 1;
        }
        let (_, produced) = engine.process_into_buffer(&chunk, &mut out, None).unwrap();
        for c in 0..n_channels {
            all[c].extend_from_slice(&out[c][..produced]);
        }
    }
    all.iter().map(|p| p[delay..].to_vec()).collect()
}

fn wave(frames: usize, channels: usize) -> Vec<Vec<f32>> {
    (0..channels)
        .map(|c| (0..frames).map(|i| ((i as f32) * 0.013 * (c as f32 + 1.0)).cos() * 0.25).collect())
        .collect()
}

fn cut(input: &[Vec<f32>], size: usize) -> Vec<Vec<Vec<f32>>> {
    let frames = input[0].len();
    let mut packets = Vec::new();
    let mut offset = 0;
    while offset < frames {
        let end = (offset + size).min(frames);
        packets.push(input.iter().map(|p| p[offset..end].to_vec()).collect());
        offset = end;
    }
    packets
}

fn small_engine(channels: usize, chunk: usize, delay: usize) -> EngineInfo {
    EngineInfo {
        channels,
        input_frames_max: chunk,
        output_frames_max: chunk,
        input_frames_next: chunk,
        output_delay: delay,
    }
}

#[test]
fn driver_begins_by_reading() {
    let driver = ResampleDriver::begin(1, 10, 10, None, 1000, small_engine(1, 4, 0)).unwrap();
    assert_eq!(driver.action(), Action::Read);
    assert!(matches!(
        ResampleDriver::begin(2, 10, 10, None, 1000, small_engine(1, 4, 0)),
        Err(LoadError::InvalidResampler { needed_channels: 2, got_channels: 1 })
    ));
    assert!(matches!(
        ResampleDriver::begin(1, 10, 10, Some(251), 1000, small_engine(1, 4, 0)),
        Err(LoadError::FileTooLarge(1000))
    ));
}

#[test]
fn driver_runs_the_engine_for_every_full_chunk() {
    let mut driver = ResampleDriver::begin(1, 10, 10, None, 1000, small_engine(1, 4, 0)).unwrap();
    // three frames do not fill the chunk
    driver.on_packet(vec![vec![1, 2, 3]]).unwrap();
    assert_eq!(driver.action(), Action::Read);
    // six more fill it twice, and one frame is left in it
    driver.on_packet(vec![vec![4, 5, 6, 7, 8, 9]]).unwrap();
    assert_eq!(driver.action(), Action::Run);
    assert_eq!(driver.chunk()[0], vec![1, 2, 3, 4]);
    driver.on_output(&vec![vec![10, 20, 30, 40]], 4, 4).unwrap();
    assert_eq!(driver.action(), Action::Run);
    assert_eq!(driver.chunk()[0], vec![5, 6, 7, 8]);
    driver.on_output(&vec![vec![50, 60, 70, 80]], 4, 4).unwrap();
    assert_eq!(driver.action(), Action::Read);
    assert_eq!(driver.chunk()[0][0], 9);
    // the last frame goes to the engine with zeros after it
    driver.on_end_of_stream();
    assert_eq!(driver.action(), Action::Run);
    assert_eq!(driver.chunk()[0], vec![9, 0, 0, 0]);
    driver.on_output(&vec![vec![90, 0, 0, 0]], 4, 4).unwrap();
    assert_eq!(driver.action(), Action::Finish);
    let audio = driver.finish().unwrap();
    assert_eq!(audio.data, vec![vec![10, 20, 30, 40, 50, 60, 70, 80, 90]]);
}

#[test]
fn driver_draws_out_what_the_engine_holds_back() {
    let mut driver = ResampleDriver::begin(1, 10, 10, None, 1000, small_engine(1, 2, 3)).unwrap();
    driver.on_packet(vec![vec![1, 2]]).unwrap();
    assert_eq!(driver.action(), Action::Run);
    driver.on_output(&vec![vec![0, 0]], 2, 2).unwrap();
    assert_eq!(driver.action(), Action::Read);
    driver.on_end_of_stream();
    // nothing is staged, two frames are owed: the engine runs on zeros
    assert_eq!(driver.action(), Action::Run);
    assert_eq!(driver.chunk()[0], vec![0, 0]);
    driver.on_output(&vec![vec![0, 7]], 2, 2).unwrap();
    assert_eq!(driver.action(), Action::Run);
    driver.on_output(&vec![vec![8, 9]], 2, 2).unwrap();
    assert_eq!(driver.action(), Action::Finish);
    assert_eq!(driver.finish().unwrap().data, vec![vec![7, 8]]);
}

#[test]
fn driver_of_a_stream_without_packets_fails() {
    let mut driver = ResampleDriver::begin(2, 10, 20, None, 1000, small_engine(2, 4, 5)).unwrap();
    driver.on_end_of_stream();
    assert_eq!(driver.action(), Action::Finish);
    assert!(matches!(
        driver.finish(),
        Err(LoadError::UnexpectedErrorWhileDecoding(UnexpectedDecode::NoPacketFound))
    ));
}

#[test]
fn driver_of_a_stream_with_a_packet_without_frames_gives_no_frames() {
    let mut driver = ResampleDriver::begin(2, 10, 20, None, 1000, small_engine(2, 4, 5)).unwrap();
    driver.on_packet(vec![vec![], vec![]]).unwrap();
    assert_eq!(driver.action(), Action::Read);
    driver.on_end_of_stream();
    assert_eq!(driver.action(), Action::Finish);
    let audio = driver.finish().unwrap();
    assert_eq!(audio.channels(), 2);
    assert_eq!(audio.frames(), 0);
    assert_eq!(audio.sample_rate, 20);
}

#[test]
fn driver_fails_at_the_end_when_the_result_is_over_the_limit() {
    // one channel of 4 bytes: 3 frames fit in 12 bytes; 2 frames become 4
    let mut driver = ResampleDriver::begin(1, 10, 20, Some(2), 12, small_engine(1, 2, 0)).unwrap();
    driver.on_packet(vec![vec![1, 2]]).unwrap();
    assert_eq!(driver.action(), Action::Run);
    driver.on_output(&vec![vec![5, 6]], 2, 2).unwrap();
    assert_eq!(driver.action(), Action::Read);
    driver.on_end_of_stream();
    assert_eq!(driver.action(), Action::Run);
    driver.on_output(&vec![vec![7, 8]], 2, 2).unwrap();
    assert_eq!(driver.action(), Action::Finish);
    assert!(matches!(driver.finish(), Err(LoadError::FileTooLarge(12))));
}

#[test]
fn driver_counts_a_packet_when_it_is_done() {
    // one channel of 4 bytes: 2 frames fit in 8 bytes
    let mut driver = ResampleDriver::begin(1, 10, 10, None, 8, small_engine(1, 2, 0)).unwrap();
    driver.on_packet(vec![vec![1, 2, 3, 4, 5]]).unwrap();
    driver.on_output(&vec![vec![1, 2]], 2, 2).unwrap();
    assert_eq!(driver.action(), Action::Run);
    // with the second chunk four frames are emitted; the last frame of the
    // packet is staged, the packet is done, and the output is over the limit
    assert!(matches!(driver.on_output(&vec![vec![3, 4]], 2, 2), Err(LoadError::FileTooLarge(8))));
}

#[test]
fn driver_does_not_look_at_the_limit_in_the_middle_of_a_packet() {
    // one channel of 4 bytes: 2 frames fit in 8 bytes
    let mut driver = ResampleDriver::begin(1, 10, 10, None, 8, small_engine(1, 2, 0)).unwrap();
    driver.on_packet(vec![vec![1, 2, 3, 4, 5, 6]]).unwrap();
    driver.on_output(&vec![vec![1, 2]], 2, 2).unwrap();
    driver.on_output(&vec![vec![3, 4]], 2, 2).unwrap();
    assert_eq!(driver.action(), Action::Run);
    assert!(matches!(driver.on_output(&vec![vec![5, 6]], 2, 2), Err(LoadError::FileTooLarge(8))));
}

#[test]
fn driver_and_engine_give_the_length_of_the_ratio_rounded_up() {
    for (frames, source, target) in
        [(10_000usize, 44100u32, 48000u32), (10_001, 44100, 48000), (4321, 48000, 44100), (1, 44100, 48000)]
    {
        let input = wave(frames, 2);
        let mut engine = rubato::FftFixedIn::<f32>::new(source as usize, target as usize, 1024, 2, 2).unwrap();
        let audio = drive(&mut engine, &cut(&input, 700), source, target, None, 100_000_000).unwrap();
        let expected = (frames as u64 * target as u64 + source as u64 - 1) / source as u64;
        assert_eq!(audio.frames() as u64, expected);
        assert_eq!(audio.data[1].len() as u64, expected);
        assert_eq!(audio.sample_rate, target);
    }
}

#[test]
fn driver_emits_what_the_engine_puts_out_after_its_delay() {
    let input = wave(6000, 2);
    let mut engine = rubato::SincFixedIn::<f32>::new(
        48000.0 / 44100.0,
        1.0,
        rubato::SincInterpolationParameters {
            sinc_len: 128,
            f_cutoff: rubato::calculate_cutoff(128, rubato::WindowFunction::Blackman2),
            interpolation: rubato::SincInterpolationType::Cubic,
            oversampling_factor: 256,
            window: rubato::WindowFunction::Blackman2,
        },
        1024,
        2,
    )
    .unwrap();
    let audio = drive(&mut engine, &cut(&input, 450), 44100, 48000, Some(6000), 100_000_000).unwrap();
    let expected = engine_output(&mut engine, &input, 4);
    let frames = audio.frames();
    assert_eq!(frames, 6531);
    let got = planes_to_floats(&audio.data);
    assert_eq!(got[0], expected[0][..frames]);
    assert_eq!(got[1], expected[1][..frames]);
}

#[test]
fn driver_fails_when_the_output_outgrows_the_limit() {
    let input = wave(5000, 1);
    let mut engine = rubato::FftFixedIn::<f32>::new(44100, 48000, 1024, 2, 1).unwrap();
    let r = drive(&mut engine, &cut(&input, 500), 44100, 48000, None, 4 * 2000);
    assert!(matches!(r, Err(LoadError::FileTooLarge(8000))));
    let mut engine = rubato::FftFixedIn::<f32>::new(44100, 48000, 1024, 2, 1).unwrap();
    assert!(drive(&mut engine, &cut(&input, 500), 44100, 48000, None, 4 * 6000).is_ok());
}
