//! The sample encodings a codec can hand out.

use vstd::prelude::*;

verus! {

/// The sample encoding of a decoded packet.
#[derive(Clone, Copy, Debug, PartialEq, Eq, Structural)]
pub enum SampleFormat {
    U8,
    U16,
    U24,
    U32,
    S8,
    S16,
    S24,
    S32,
    F32,
    F64,
}

impl SampleFormat {
    /// The number of bytes one stored sample of this encoding occupies.
    ///
    /// 32-bit integer samples are stored as binary32, so they occupy four
    /// bytes like `F32`.
    pub open spec fn spec_bytes_per_sample(self) -> nat {
        match self {
            SampleFormat::U8 | SampleFormat::S8 => 1,
            SampleFormat::U16 | SampleFormat::S16 => 2,
            SampleFormat::U24 | SampleFormat::S24 => 3,
            SampleFormat::U32 | SampleFormat::S32 | SampleFormat::F32 => 4,
            SampleFormat::F64 => 8,
        }
    }

    /// The number of bytes one stored sample of this encoding occupies.
    pub fn bytes_per_sample(self) -> (n: usize)
        ensures
            n == self.spec_bytes_per_sample(),
    {
        match self {
            SampleFormat::U8 | SampleFormat::S8 => 1,
            SampleFormat::U16 | SampleFormat::S16 => 2,
            SampleFormat::U24 | SampleFormat::S24 => 3,
            SampleFormat::U32 | SampleFormat::S32 | SampleFormat::F32 => 4,
            SampleFormat::F64 => 8,
        }
    }

    /// The short lower-case name of the encoding, as used in messages.
    pub fn name(self) -> (s: &'static str)
        ensures
            s@ == self.spec_name(),
    {
        match self {
            SampleFormat::U8 => "u8",
            SampleFormat::U16 => "u16",
            SampleFormat::U24 => "u24",
            SampleFormat::U32 => "u32",
            SampleFormat::S8 => "i8",
            SampleFormat::S16 => "i16",
            SampleFormat::S24 => "i24",
            SampleFormat::S32 => "i32",
            SampleFormat::F32 => "f32",
            SampleFormat::F64 => "f64",
        }
    }

    /// The characters of [`SampleFormat::name`].
    pub open spec fn spec_name(self) -> Seq<char> {
        match self {
            SampleFormat::U8 => "u8"@,
            SampleFormat::U16 => "u16"@,
            SampleFormat::U24 => "u24"@,
            SampleFormat::U32 => "u32"@,
            SampleFormat::S8 => "i8"@,
            SampleFormat::S16 => "i16"@,
            SampleFormat::S24 => "i24"@,
            SampleFormat::S32 => "i32"@,
            SampleFormat::F32 => "f32"@,
            SampleFormat::F64 => "f64"@,
        }
    }
}

} // verus!
