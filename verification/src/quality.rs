//! The conversion engines that the loader sets up by itself, by quality.

use vstd::prelude::*;

verus! {

/// The number of frames that the engines of the loader take in one call.
pub const CHUNK_SIZE: usize = 1024;

/// The quality of the resampling algorithm to use.
#[derive(Clone, Copy, Debug, PartialEq, Eq, Structural, Hash)]
pub enum ResampleQuality {
    /// Low quality, fast performance: polynomial interpolation of degree
    /// one.
    Low,
    /// Good quality, medium performance: synchronous resampling by Fourier
    /// transform. This is recommended for most applications.
    Normal,
    /// High quality, slow performance: interpolation with a windowed sinc
    /// filter.
    High,
}

impl Default for ResampleQuality {
    /// The quality that is recommended for most applications.
    fn default() -> (quality: ResampleQuality)
        ensures
            quality == ResampleQuality::Normal,
    {
        ResampleQuality::Normal
    }
}

/// What a resampler is asked for.
#[derive(Clone, Copy, Debug, PartialEq, Eq, Structural)]
pub struct ResamplerParams {
    pub num_channels: usize,
    pub source_sample_rate: u32,
    pub target_sample_rate: u32,
}

/// What tells the engines of the loader apart: an engine is made once for
/// each key and used again for every stream with that key.
#[derive(Clone, Copy, Debug, PartialEq, Eq, Structural, Hash)]
pub struct ResamplerKey {
    pub pcm_sr: u32,
    pub target_sr: u32,
    pub channels: u32,
    pub quality: ResampleQuality,
}

/// The degree of a polynomial interpolation.
#[derive(Clone, Copy, Debug, PartialEq, Eq, Structural)]
pub enum InterpolationDegree {
    Linear,
    Cubic,
}

/// The window of a sinc filter.
#[derive(Clone, Copy, Debug, PartialEq, Eq, Structural)]
pub enum SincWindow {
    Blackman2,
}

/// The kind of an engine and what is particular to the kind.
#[derive(Clone, Copy, Debug, PartialEq, Eq, Structural)]
pub enum EngineKind {
    /// Asynchronous resampling by polynomial interpolation.
    Fast { degree: InterpolationDegree },
    /// Synchronous resampling by Fourier transform, each chunk in
    /// `sub_chunks` parts.
    Fft { sub_chunks: usize },
    /// Asynchronous resampling with a sinc filter of `sinc_len` taps, cut
    /// off where the window asks for it, evaluated at
    /// `oversampling_factor` positions between two samples and interpolated
    /// between those.
    Sinc {
        sinc_len: usize,
        oversampling_factor: usize,
        interpolation: InterpolationDegree,
        window: SincWindow,
    },
}

/// An engine to make: its kind, the rates it converts between, the size of
/// its input chunks and the number of its channels.
#[derive(Clone, Copy, Debug, PartialEq, Eq, Structural)]
pub struct EngineRecipe {
    pub kind: EngineKind,
    pub source_sample_rate: u32,
    pub target_sample_rate: u32,
    pub chunk_size: usize,
    pub num_channels: usize,
}

/// The kind of engine that stands for a quality.
pub open spec fn spec_engine_kind(quality: ResampleQuality) -> EngineKind {
    match quality {
        ResampleQuality::Low => EngineKind::Fast { degree: InterpolationDegree::Linear },
        ResampleQuality::Normal => EngineKind::Fft { sub_chunks: 2 },
        ResampleQuality::High => EngineKind::Sinc {
            sinc_len: 128,
            oversampling_factor: 256,
            interpolation: InterpolationDegree::Cubic,
            window: SincWindow::Blackman2,
        },
    }
}

/// The key under which the engine for a stream is kept. Of the number of
/// channels the low 32 bits count.
pub fn resampler_key(quality: ResampleQuality, params: ResamplerParams) -> (key: ResamplerKey)
    ensures
        key.pcm_sr == params.source_sample_rate,
        key.target_sr == params.target_sample_rate,
        key.channels == params.num_channels as int % 0x1_0000_0000,
        key.quality == quality,
{
    ResamplerKey {
        pcm_sr: params.source_sample_rate,
        target_sr: params.target_sample_rate,
        channels: (params.num_channels as u64 % 0x1_0000_0000) as u32,
        quality,
    }
}

/// The engine to make for a stream, by quality.
pub fn engine_recipe(quality: ResampleQuality, params: ResamplerParams) -> (recipe: EngineRecipe)
    ensures
        recipe.kind == spec_engine_kind(quality),
        recipe.source_sample_rate == params.source_sample_rate,
        recipe.target_sample_rate == params.target_sample_rate,
        recipe.chunk_size == CHUNK_SIZE,
        recipe.num_channels == params.num_channels,
{
    let kind = match quality {
        ResampleQuality::Low => EngineKind::Fast { degree: InterpolationDegree::Linear },
        ResampleQuality::Normal => EngineKind::Fft { sub_chunks: 2 },
        ResampleQuality::High => EngineKind::Sinc {
            sinc_len: 128,
            oversampling_factor: 256,
            interpolation: InterpolationDegree::Cubic,
            window: SincWindow::Blackman2,
        },
    };
    EngineRecipe {
        kind,
        source_sample_rate: params.source_sample_rate,
        target_sample_rate: params.target_sample_rate,
        chunk_size: CHUNK_SIZE,
        num_channels: params.num_channels,
    }
}

/// Whether a stream of the rate `source_sample_rate` has to be converted:
/// where a target rate is given and differs.
pub fn needs_resampling(source_sample_rate: u32, target_sample_rate: Option<u32>) -> (needed: bool)
    ensures
        needed == (target_sample_rate.is_some() && target_sample_rate.unwrap() != source_sample_rate),
{
    match target_sample_rate {
        Some(target) => target != source_sample_rate,
        None => false,
    }
}

} // verus!
