//! The samples of one decoded packet.

use vstd::prelude::*;

use crate::convert::{spec_pcm_i32_to_f32, spec_pcm_u32_to_f32, u24_le};
use crate::format::SampleFormat;

verus! {

/// The samples of one decoded packet, one plane per channel, in the
/// encoding the codec produced.
pub enum DecodedPacket {
    U8(Vec<Vec<u8>>),
    U16(Vec<Vec<u16>>),
    /// Three bytes a sample, in the byte order of the machine.
    U24(Vec<Vec<[u8; 3]>>),
    U32(Vec<Vec<u32>>),
    S8(Vec<Vec<i8>>),
    S16(Vec<Vec<i16>>),
    /// Three bytes a sample in two's complement, in the byte order of the
    /// machine.
    S24(Vec<Vec<[u8; 3]>>),
    S32(Vec<Vec<i32>>),
    /// Bit patterns of binary32 values.
    F32(Vec<Vec<u32>>),
    /// Bit patterns of binary64 values.
    F64(Vec<Vec<u64>>),
}

/// Whether the first `n` planes exist and have the same length.
pub open spec fn planes_aligned<T>(planes: Seq<Vec<T>>, n: nat) -> bool {
    &&& 1 <= n <= planes.len()
    &&& forall|c: int| 0 <= c < n ==> (#[trigger] planes[c])@.len() == planes[0]@.len()
}

/// Whether the first `n` planes exist and have the same length.
pub fn check_aligned<T>(planes: &Vec<Vec<T>>, n: usize) -> (ok: bool)
    ensures
        ok == planes_aligned(planes@, n as nat),
{
    if n == 0 || planes.len() < n {
        return false;
    }
    let len = planes[0].len();
    let mut c: usize = 1;
    while c < n
        invariant
            1 <= c <= n <= planes@.len(),
            len == planes@[0]@.len(),
            forall|k: int| 0 <= k < c ==> (#[trigger] planes@[k])@.len() == len,
        decreases n - c,
    {
        if planes[c].len() != len {
            return false;
        }
        c = c + 1;
    }
    true
}

impl DecodedPacket {
    /// The encoding of the samples.
    pub open spec fn spec_format(&self) -> SampleFormat {
        match self {
            DecodedPacket::U8(_) => SampleFormat::U8,
            DecodedPacket::U16(_) => SampleFormat::U16,
            DecodedPacket::U24(_) => SampleFormat::U24,
            DecodedPacket::U32(_) => SampleFormat::U32,
            DecodedPacket::S8(_) => SampleFormat::S8,
            DecodedPacket::S16(_) => SampleFormat::S16,
            DecodedPacket::S24(_) => SampleFormat::S24,
            DecodedPacket::S32(_) => SampleFormat::S32,
            DecodedPacket::F32(_) => SampleFormat::F32,
            DecodedPacket::F64(_) => SampleFormat::F64,
        }
    }

    /// The number of planes.
    pub open spec fn spec_channels(&self) -> nat {
        match self {
            DecodedPacket::U8(p) => p@.len(),
            DecodedPacket::U16(p) => p@.len(),
            DecodedPacket::U24(p) => p@.len(),
            DecodedPacket::U32(p) => p@.len(),
            DecodedPacket::S8(p) => p@.len(),
            DecodedPacket::S16(p) => p@.len(),
            DecodedPacket::S24(p) => p@.len(),
            DecodedPacket::S32(p) => p@.len(),
            DecodedPacket::F32(p) => p@.len(),
            DecodedPacket::F64(p) => p@.len(),
        }
    }

    /// The number of samples in plane `c`.
    pub open spec fn plane_len(&self, c: int) -> nat {
        match self {
            DecodedPacket::U8(p) => p@[c]@.len(),
            DecodedPacket::U16(p) => p@[c]@.len(),
            DecodedPacket::U24(p) => p@[c]@.len(),
            DecodedPacket::U32(p) => p@[c]@.len(),
            DecodedPacket::S8(p) => p@[c]@.len(),
            DecodedPacket::S16(p) => p@[c]@.len(),
            DecodedPacket::S24(p) => p@[c]@.len(),
            DecodedPacket::S32(p) => p@[c]@.len(),
            DecodedPacket::F32(p) => p@[c]@.len(),
            DecodedPacket::F64(p) => p@[c]@.len(),
        }
    }

    /// Whether the packet has planes for `n` channels, all of one length.
    pub open spec fn well_shaped(&self, n: nat) -> bool {
        match self {
            DecodedPacket::U8(p) => planes_aligned(p@, n),
            DecodedPacket::U16(p) => planes_aligned(p@, n),
            DecodedPacket::U24(p) => planes_aligned(p@, n),
            DecodedPacket::U32(p) => planes_aligned(p@, n),
            DecodedPacket::S8(p) => planes_aligned(p@, n),
            DecodedPacket::S16(p) => planes_aligned(p@, n),
            DecodedPacket::S24(p) => planes_aligned(p@, n),
            DecodedPacket::S32(p) => planes_aligned(p@, n),
            DecodedPacket::F32(p) => planes_aligned(p@, n),
            DecodedPacket::F64(p) => planes_aligned(p@, n),
        }
    }

    /// The samples as they were decoded, plane by plane, each as an integer:
    /// the value of an integer sample, the bit pattern of a floating-point
    /// one; for 24 bits the three bytes taken as a number with the first
    /// byte as the lowest.
    pub open spec fn samples(&self) -> Seq<Seq<int>> {
        match self {
            DecodedPacket::U8(p) => Seq::new(
                p@.len(),
                |c: int| Seq::new(p@[c]@.len(), |i: int| p@[c]@[i] as int),
            ),
            DecodedPacket::U16(p) => Seq::new(
                p@.len(),
                |c: int| Seq::new(p@[c]@.len(), |i: int| p@[c]@[i] as int),
            ),
            DecodedPacket::U24(p) => Seq::new(
                p@.len(),
                |c: int| Seq::new(p@[c]@.len(), |i: int| u24_le(p@[c]@[i]) as int),
            ),
            DecodedPacket::U32(p) => Seq::new(
                p@.len(),
                |c: int| Seq::new(p@[c]@.len(), |i: int| p@[c]@[i] as int),
            ),
            DecodedPacket::S8(p) => Seq::new(
                p@.len(),
                |c: int| Seq::new(p@[c]@.len(), |i: int| p@[c]@[i] as int),
            ),
            DecodedPacket::S16(p) => Seq::new(
                p@.len(),
                |c: int| Seq::new(p@[c]@.len(), |i: int| p@[c]@[i] as int),
            ),
            DecodedPacket::S24(p) => Seq::new(
                p@.len(),
                |c: int| Seq::new(p@[c]@.len(), |i: int| u24_le(p@[c]@[i]) as int),
            ),
            DecodedPacket::S32(p) => Seq::new(
                p@.len(),
                |c: int| Seq::new(p@[c]@.len(), |i: int| p@[c]@[i] as int),
            ),
            DecodedPacket::F32(p) => Seq::new(
                p@.len(),
                |c: int| Seq::new(p@[c]@.len(), |i: int| p@[c]@[i] as int),
            ),
            DecodedPacket::F64(p) => Seq::new(
                p@.len(),
                |c: int| Seq::new(p@[c]@.len(), |i: int| p@[c]@[i] as int),
            ),
        }
    }

    /// Sample `i` of plane `c` as the integer that is stored for it: the
    /// value of an integer sample of 8 or 16 bits, the binary32 bit pattern
    /// that a 32-bit integer sample converts to, the bit pattern of a
    /// floating-point sample, and for 24 bits the three bytes taken as a
    /// number with the first byte as the lowest.
    pub open spec fn stored(&self, c: int, i: int) -> int {
        match self {
            DecodedPacket::U8(p) => p@[c]@[i] as int,
            DecodedPacket::U16(p) => p@[c]@[i] as int,
            DecodedPacket::U24(p) => u24_le(p@[c]@[i]) as int,
            DecodedPacket::U32(p) => spec_pcm_u32_to_f32(p@[c]@[i]) as int,
            DecodedPacket::S8(p) => p@[c]@[i] as int,
            DecodedPacket::S16(p) => p@[c]@[i] as int,
            DecodedPacket::S24(p) => u24_le(p@[c]@[i]) as int,
            DecodedPacket::S32(p) => spec_pcm_i32_to_f32(p@[c]@[i]) as int,
            DecodedPacket::F32(p) => p@[c]@[i] as int,
            DecodedPacket::F64(p) => p@[c]@[i] as int,
        }
    }

    /// The encoding of the samples.
    pub fn format(&self) -> (f: SampleFormat)
        ensures
            f == self.spec_format(),
    {
        match self {
            DecodedPacket::U8(_) => SampleFormat::U8,
            DecodedPacket::U16(_) => SampleFormat::U16,
            DecodedPacket::U24(_) => SampleFormat::U24,
            DecodedPacket::U32(_) => SampleFormat::U32,
            DecodedPacket::S8(_) => SampleFormat::S8,
            DecodedPacket::S16(_) => SampleFormat::S16,
            DecodedPacket::S24(_) => SampleFormat::S24,
            DecodedPacket::S32(_) => SampleFormat::S32,
            DecodedPacket::F32(_) => SampleFormat::F32,
            DecodedPacket::F64(_) => SampleFormat::F64,
        }
    }

    /// Whether the packet has planes for `n` channels, all of one length.
    pub fn is_well_shaped(&self, n: usize) -> (ok: bool)
        ensures
            ok == self.well_shaped(n as nat),
    {
        match self {
            DecodedPacket::U8(p) => check_aligned(p, n),
            DecodedPacket::U16(p) => check_aligned(p, n),
            DecodedPacket::U24(p) => check_aligned(p, n),
            DecodedPacket::U32(p) => check_aligned(p, n),
            DecodedPacket::S8(p) => check_aligned(p, n),
            DecodedPacket::S16(p) => check_aligned(p, n),
            DecodedPacket::S24(p) => check_aligned(p, n),
            DecodedPacket::S32(p) => check_aligned(p, n),
            DecodedPacket::F32(p) => check_aligned(p, n),
            DecodedPacket::F64(p) => check_aligned(p, n),
        }
    }

    /// The number of frames: the length of the first plane.
    pub fn frames(&self) -> (n: usize)
        requires
            self.spec_channels() > 0,
        ensures
            n == self.plane_len(0),
    {
        match self {
            DecodedPacket::U8(p) => p[0].len(),
            DecodedPacket::U16(p) => p[0].len(),
            DecodedPacket::U24(p) => p[0].len(),
            DecodedPacket::U32(p) => p[0].len(),
            DecodedPacket::S8(p) => p[0].len(),
            DecodedPacket::S16(p) => p[0].len(),
            DecodedPacket::S24(p) => p[0].len(),
            DecodedPacket::S32(p) => p[0].len(),
            DecodedPacket::F32(p) => p[0].len(),
            DecodedPacket::F64(p) => p[0].len(),
        }
    }
}

} // verus!
