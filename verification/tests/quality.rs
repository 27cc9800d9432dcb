use symphonium::quality::{
    engine_recipe, needs_resampling, resampler_key, EngineKind, InterpolationDegree, ResampleQuality,
    ResamplerParams, SincWindow,
};

#[test]
fn normal_quality_is_the_default() {
    assert_eq!(ResampleQuality::default(), ResampleQuality::Normal);
}

#[test]
fn key_holds_rates_channels_and_quality() {
    let params = ResamplerParams { num_channels: 2, source_sample_rate: 44100, target_sample_rate: 48000 };
    let key = resampler_key(ResampleQuality::High, params);
    assert_eq!(key.pcm_sr, 44100);
    assert_eq!(key.target_sr, 48000);
    assert_eq!(key.channels, 2);
    assert_eq!(key.quality, ResampleQuality::High);
    assert_ne!(key, resampler_key(ResampleQuality::Low, params));
}

#[test]
fn recipes_by_quality() {
    let params = ResamplerParams { num_channels: 6, source_sample_rate: 96000, target_sample_rate: 44100 };
    let low = engine_recipe(ResampleQuality::Low, params);
    assert_eq!(low.kind, EngineKind::Fast { degree: InterpolationDegree::Linear });
    assert_eq!(low.chunk_size, 1024);
    assert_eq!(low.num_channels, 6);
    assert_eq!(low.source_sample_rate, 96000);
    assert_eq!(low.target_sample_rate, 44100);
    assert_eq!(engine_recipe(ResampleQuality::Normal, params).kind, EngineKind::Fft { sub_chunks: 2 });
    assert_eq!(
        engine_recipe(ResampleQuality::High, params).kind,
        EngineKind::Sinc {
            sinc_len: 128,
            oversampling_factor: 256,
            interpolation: InterpolationDegree::Cubic,
            window: SincWindow::Blackman2,
        }
    );
}

#[test]
fn resampling_is_needed_for_another_rate_only() {
    assert!(!needs_resampling(44100, None));
    assert!(!needs_resampling(44100, Some(44100)));
    assert!(needs_resampling(44100, Some(48000)));
}
