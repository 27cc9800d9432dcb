//! Loading of audio streams into de-interleaved PCM buffers held in memory.
//!
//! Samples are kept in the encoding the codec produced wherever that saves
//! memory. Floating-point samples are carried as their IEEE-754 bit patterns
//! (`u32` for binary32, `u64` for binary64), so that every operation on them
//! is an operation on integers.

use vstd::prelude::*;

pub mod convert;
pub mod decode;
pub mod driver;
pub mod error;
pub mod format;
pub mod ieee;
pub mod packet;
pub mod quality;
pub mod ram;
pub mod resample;
pub mod resource;
pub mod stream;

pub use crate::error::LoadError;
pub use crate::quality::ResampleQuality;
pub use crate::ram::{PcmRAM, PcmRAMType};
pub use crate::resource::{DecodedAudio, DecodedAudioF32, DecodedAudioType};

verus! {

/// The default maximum size of a decoded audio resource in bytes.
pub const DEFAULT_MAX_BYTES: usize = 1_000_000_000;

} // verus!
