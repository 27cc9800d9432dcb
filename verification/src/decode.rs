//! Accumulation of decoded packets into per-channel buffers, under a limit
//! on the memory they take.

use vstd::prelude::*;

use crate::convert::{pcm_i32_to_f32, pcm_u32_to_f32, spec_pcm_i32_to_f32, spec_pcm_u32_to_f32};
use crate::error::{LoadError, UnexpectedDecode};
use crate::format::SampleFormat;
use crate::packet::DecodedPacket;
use crate::resource::{DecodedAudio, DecodedAudioF32, DecodedAudioType};

verus! {

/// The spare capacity above which a channel buffer is shrunk to its length.
pub const SHRINK_THRESHOLD: usize = 4096;

/// `Vec::capacity`: the number of elements the vector has room for, which is
/// at least its length.
#[verifier::external_body]
fn vec_capacity<T>(v: &Vec<T>) -> (c: usize)
    ensures
        c >= v@.len(),
{
    v.capacity()
}

/// `Vec::shrink_to_fit`: gives spare capacity back and leaves the elements
/// as they are.
#[verifier::external_body]
fn vec_shrink_to_fit<T>(v: &mut Vec<T>)
    ensures
        final(v)@ == old(v)@,
{
    v.shrink_to_fit()
}

/// Shrink each buffer whose capacity exceeds its length by more than
/// [`SHRINK_THRESHOLD`]: each buffer that [`has_slack`]. The samples stay as
/// they are.
pub fn shrink_buffer<T>(channels: &mut [Vec<T>])
    ensures
        final(channels)@.len() == old(channels)@.len(),
        forall|c: int| 0 <= c < old(channels)@.len() ==> (#[trigger] final(channels)@[c])@ == old(channels)@[c]@,
{
    let n = channels.len();
    let mut c: usize = 0;
    while c < n
        invariant
            c <= n,
            n == channels@.len(),
            channels@.len() == old(channels)@.len(),
            forall|k: int| 0 <= k < n ==> (#[trigger] channels@[k])@ == old(channels)@[k]@,
        decreases n - c,
    {
        if has_slack(vec_capacity(&channels[c]), channels[c].len()) {
            vec_shrink_to_fit(&mut channels[c]);
        }
        c = c + 1;
    }
}

/// Whether a buffer of `len` elements with room for `capacity` elements has
/// more room to spare than [`SHRINK_THRESHOLD`].
pub fn has_slack(capacity: usize, len: usize) -> (slack: bool)
    ensures
        slack == (capacity > len + SHRINK_THRESHOLD),
{
    capacity > len && capacity - len > SHRINK_THRESHOLD
}

/// The text of the warning for a packet that could not be decoded and was
/// skipped.
pub fn decode_warning(err: &str) -> (message: String)
    ensures
        message@ == "Symphonia decode warning: "@ + err@,
{
    String::from_str("Symphonia decode warning: ").concat(err)
}

/// Append `src` to `dst`.
fn extend_plane<T: Copy>(dst: &mut Vec<T>, src: &Vec<T>)
    ensures
        final(dst)@ == old(dst)@ + src@,
{
    let n = src.len();
    let mut i: usize = 0;
    while i < n
        invariant
            i <= n,
            n == src@.len(),
            dst@ == old(dst)@ + src@.subrange(0, i as int),
        decreases n - i,
    {
        dst.push(src[i]);
        i = i + 1;
    }
}

/// Whether `after` is `before` with the first `n` planes of `packet`
/// appended channel by channel.
pub open spec fn planes_extended<T>(before: Seq<Vec<T>>, after: Seq<Vec<T>>, packet: Seq<Vec<T>>, n: nat) -> bool {
    &&& after.len() == before.len()
    &&& forall|c: int| 0 <= c < n ==> (#[trigger] after[c])@ == before[c]@ + packet[c]@
    &&& forall|c: int| n <= c < before.len() ==> (#[trigger] after[c])@ == before[c]@
}

/// Append the first `n` planes of `packet` to the channels.
fn extend_planes<T: Copy>(channels: &mut Vec<Vec<T>>, packet: &Vec<Vec<T>>, n: usize)
    requires
        n <= old(channels)@.len(),
        n <= packet@.len(),
    ensures
        planes_extended(old(channels)@, final(channels)@, packet@, n as nat),
{
    let mut c: usize = 0;
    while c < n
        invariant
            c <= n,
            n <= packet@.len(),
            n <= channels@.len(),
            channels@.len() == old(channels)@.len(),
            forall|k: int| 0 <= k < c ==> (#[trigger] channels@[k])@ == old(channels)@[k]@ + packet@[k]@,
            forall|k: int| c <= k < channels@.len() ==> (#[trigger] channels@[k])@ == old(channels)@[k]@,
        decreases n - c,
    {
        extend_plane(&mut channels[c], &packet[c]);
        c = c + 1;
    }
}

/// Append the samples of a `u8` packet to the channels.
pub fn decode_u8_packet(decoded_channels: &mut Vec<Vec<u8>>, packet: &Vec<Vec<u8>>, num_channels: usize)
    requires
        num_channels <= old(decoded_channels)@.len(),
        num_channels <= packet@.len(),
    ensures
        planes_extended(old(decoded_channels)@, final(decoded_channels)@, packet@, num_channels as nat),
{
    extend_planes(decoded_channels, packet, num_channels)
}

/// Append the samples of a `u16` packet to the channels.
pub fn decode_u16_packet(decoded_channels: &mut Vec<Vec<u16>>, packet: &Vec<Vec<u16>>, num_channels: usize)
    requires
        num_channels <= old(decoded_channels)@.len(),
        num_channels <= packet@.len(),
    ensures
        planes_extended(old(decoded_channels)@, final(decoded_channels)@, packet@, num_channels as nat),
{
    extend_planes(decoded_channels, packet, num_channels)
}

/// Append the samples of an `i8` packet to the channels.
pub fn decode_i8_packet(decoded_channels: &mut Vec<Vec<i8>>, packet: &Vec<Vec<i8>>, num_channels: usize)
    requires
        num_channels <= old(decoded_channels)@.len(),
        num_channels <= packet@.len(),
    ensures
        planes_extended(old(decoded_channels)@, final(decoded_channels)@, packet@, num_channels as nat),
{
    extend_planes(decoded_channels, packet, num_channels)
}

/// Append the samples of an `i16` packet to the channels.
pub fn decode_i16_packet(decoded_channels: &mut Vec<Vec<i16>>, packet: &Vec<Vec<i16>>, num_channels: usize)
    requires
        num_channels <= old(decoded_channels)@.len(),
        num_channels <= packet@.len(),
    ensures
        planes_extended(old(decoded_channels)@, final(decoded_channels)@, packet@, num_channels as nat),
{
    extend_planes(decoded_channels, packet, num_channels)
}

/// Append the samples of a binary32 packet to the channels.
pub fn decode_f32_packet(decoded_channels: &mut Vec<Vec<u32>>, packet: &Vec<Vec<u32>>, num_channels: usize)
    requires
        num_channels <= old(decoded_channels)@.len(),
        num_channels <= packet@.len(),
    ensures
        planes_extended(old(decoded_channels)@, final(decoded_channels)@, packet@, num_channels as nat),
{
    extend_planes(decoded_channels, packet, num_channels)
}

/// Append the samples of a binary64 packet to the channels.
pub fn decode_f64_packet(decoded_channels: &mut Vec<Vec<u64>>, packet: &Vec<Vec<u64>>, num_channels: usize)
    requires
        num_channels <= old(decoded_channels)@.len(),
        num_channels <= packet@.len(),
    ensures
        planes_extended(old(decoded_channels)@, final(decoded_channels)@, packet@, num_channels as nat),
{
    extend_planes(decoded_channels, packet, num_channels)
}

/// The binary32 bit pattern of each sample.
fn planes_u32_to_f32(packet: &Vec<Vec<u32>>, n: usize) -> (r: Vec<Vec<u32>>)
    requires
        n <= packet@.len(),
    ensures
        r@.len() == n,
        forall|c: int| 0 <= c < n ==> (#[trigger] r@[c])@.len() == packet@[c]@.len(),
        forall|c: int, i: int|
            0 <= c < n && 0 <= i < packet@[c]@.len() ==> #[trigger] r@[c]@[i] == spec_pcm_u32_to_f32(
                packet@[c]@[i],
            ),
{
    let mut r: Vec<Vec<u32>> = Vec::new();
    let mut c: usize = 0;
    while c < n
        invariant
            c <= n <= packet@.len(),
            r@.len() == c,
            forall|k: int| 0 <= k < c ==> (#[trigger] r@[k])@.len() == packet@[k]@.len(),
            forall|k: int, i: int|
                0 <= k < c && 0 <= i < packet@[k]@.len() ==> #[trigger] r@[k]@[i]
                    == spec_pcm_u32_to_f32(packet@[k]@[i]),
        decreases n - c,
    {
        let src = &packet[c];
        let mut plane: Vec<u32> = Vec::with_capacity(src.len());
        let mut i: usize = 0;
        while i < src.len()
            invariant
                i <= src@.len(),
                plane@.len() == i,
                forall|j: int| 0 <= j < i ==> #[trigger] plane@[j] == spec_pcm_u32_to_f32(src@[j]),
            decreases src@.len() - i,
        {
            plane.push(pcm_u32_to_f32(src[i]));
            i = i + 1;
        }
        r.push(plane);
        c = c + 1;
    }
    r
}

/// The binary32 bit pattern of each sample.
fn planes_i32_to_f32(packet: &Vec<Vec<i32>>, n: usize) -> (r: Vec<Vec<u32>>)
    requires
        n <= packet@.len(),
    ensures
        r@.len() == n,
        forall|c: int| 0 <= c < n ==> (#[trigger] r@[c])@.len() == packet@[c]@.len(),
        forall|c: int, i: int|
            0 <= c < n && 0 <= i < packet@[c]@.len() ==> #[trigger] r@[c]@[i] == spec_pcm_i32_to_f32(
                packet@[c]@[i],
            ),
{
    let mut r: Vec<Vec<u32>> = Vec::new();
    let mut c: usize = 0;
    while c < n
        invariant
            c <= n <= packet@.len(),
            r@.len() == c,
            forall|k: int| 0 <= k < c ==> (#[trigger] r@[k])@.len() == packet@[k]@.len(),
            forall|k: int, i: int|
                0 <= k < c && 0 <= i < packet@[k]@.len() ==> #[trigger] r@[k]@[i]
                    == spec_pcm_i32_to_f32(packet@[k]@[i]),
        decreases n - c,
    {
        let src = &packet[c];
        let mut plane: Vec<u32> = Vec::with_capacity(src.len());
        let mut i: usize = 0;
        while i < src.len()
            invariant
                i <= src@.len(),
                plane@.len() == i,
                forall|j: int| 0 <= j < i ==> #[trigger] plane@[j] == spec_pcm_i32_to_f32(src@[j]),
            decreases src@.len() - i,
        {
            plane.push(pcm_i32_to_f32(src[i]));
            i = i + 1;
        }
        r.push(plane);
        c = c + 1;
    }
    r
}

/// Whether the first `n` channels of `after` are those of `before` with as
/// many samples appended as the planes of `packet` have, and the others are
/// as they were.
pub open spec fn planes_grown<S, T>(before: Seq<Vec<S>>, after: Seq<Vec<S>>, packet: Seq<Vec<T>>, n: nat) -> bool {
    &&& after.len() == before.len()
    &&& forall|c: int|
        0 <= c < n ==> (#[trigger] after[c])@.len() == before[c]@.len() + packet[c]@.len()
    &&& forall|c: int, i: int|
        0 <= c < n && 0 <= i < before[c]@.len() ==> #[trigger] after[c]@[i] == before[c]@[i]
    &&& forall|c: int| n <= c < before.len() ==> (#[trigger] after[c])@ == before[c]@
}

/// Append the samples of a `u24` packet to the channels, three bytes each.
pub fn decode_u24_packet(
    decoded_channels: &mut Vec<Vec<[u8; 3]>>,
    packet: &Vec<Vec<[u8; 3]>>,
    num_channels: usize,
)
    requires
        num_channels <= old(decoded_channels)@.len(),
        num_channels <= packet@.len(),
    ensures
        planes_extended(old(decoded_channels)@, final(decoded_channels)@, packet@, num_channels as nat),
{
    extend_planes(decoded_channels, packet, num_channels)
}

/// Append the samples of an `i24` packet to the channels, three bytes each.
pub fn decode_i24_packet(
    decoded_channels: &mut Vec<Vec<[u8; 3]>>,
    packet: &Vec<Vec<[u8; 3]>>,
    num_channels: usize,
)
    requires
        num_channels <= old(decoded_channels)@.len(),
        num_channels <= packet@.len(),
    ensures
        planes_extended(old(decoded_channels)@, final(decoded_channels)@, packet@, num_channels as nat),
{
    extend_planes(decoded_channels, packet, num_channels)
}

/// Append the samples of a `u32` packet to the channels, converted to
/// binary32.
pub fn decode_u32_packet(decoded_channels: &mut Vec<Vec<u32>>, packet: &Vec<Vec<u32>>, num_channels: usize)
    requires
        num_channels <= old(decoded_channels)@.len(),
        num_channels <= packet@.len(),
    ensures
        planes_grown(old(decoded_channels)@, final(decoded_channels)@, packet@, num_channels as nat),
        forall|c: int, i: int|
            0 <= c < num_channels && 0 <= i < packet@[c]@.len()
                ==> #[trigger] final(decoded_channels)@[c]@[old(decoded_channels)@[c]@.len() + i]
                == spec_pcm_u32_to_f32(packet@[c]@[i]),
{
    let bits = planes_u32_to_f32(packet, num_channels);
    extend_planes(decoded_channels, &bits, num_channels);
}

/// Append the samples of an `i32` packet to the channels, converted to
/// binary32.
pub fn decode_i32_packet(decoded_channels: &mut Vec<Vec<u32>>, packet: &Vec<Vec<i32>>, num_channels: usize)
    requires
        num_channels <= old(decoded_channels)@.len(),
        num_channels <= packet@.len(),
    ensures
        planes_grown(old(decoded_channels)@, final(decoded_channels)@, packet@, num_channels as nat),
        forall|c: int, i: int|
            0 <= c < num_channels && 0 <= i < packet@[c]@.len()
                ==> #[trigger] final(decoded_channels)@[c]@[old(decoded_channels)@[c]@.len() + i]
                == spec_pcm_i32_to_f32(packet@[c]@[i]),
{
    let bits = planes_i32_to_f32(packet, num_channels);
    extend_planes(decoded_channels, &bits, num_channels);
}


/// The greatest number of frames of `n_channels` channels in the given
/// encoding that fit in `max_bytes` bytes.
pub open spec fn spec_frame_limit(max_bytes: nat, format: SampleFormat, n_channels: nat) -> nat {
    max_bytes / (format.spec_bytes_per_sample() * n_channels)
}

/// The greatest number of frames of `n_channels` channels in the given
/// encoding that fit in `max_bytes` bytes.
pub fn frame_limit(max_bytes: usize, format: SampleFormat, n_channels: usize) -> (limit: usize)
    requires
        n_channels > 0,
    ensures
        limit == spec_frame_limit(max_bytes as nat, format, n_channels as nat),
{
    let size = format.bytes_per_sample();
    if n_channels > usize::MAX / size {
        // one frame takes more bytes than a `usize` can hold
        proof {
            let q = usize::MAX as int / size as int;
            let r = usize::MAX as int % size as int;
            assert(size * n_channels > max_bytes) by (nonlinear_arith)
                requires
                    n_channels >= q + 1,
                    usize::MAX == size * q + r,
                    r < size,
                    max_bytes <= usize::MAX,
                    size > 0,
            ;
            vstd::arithmetic::div_mod::lemma_basic_div(max_bytes as int, size * n_channels);
        }
        0
    } else {
        proof {
            let q = usize::MAX as int / size as int;
            assert(size * n_channels <= usize::MAX) by (nonlinear_arith)
                requires
                    0 <= n_channels <= q,
                    size > 0,
                    size * q <= usize::MAX,
            ;
        }
        max_bytes / (size * n_channels)
    }
}

/// The encoding in which samples that were decoded in `format` are stored.
pub open spec fn spec_stored_format(format: SampleFormat) -> SampleFormat {
    match format {
        SampleFormat::U32 | SampleFormat::S32 => SampleFormat::F32,
        _ => format,
    }
}

/// `n` buffers without samples, each with room for `capacity` samples where
/// that much memory can be had.
pub fn empty_channels<T>(n: usize, capacity: usize) -> (r: Vec<Vec<T>>)
    ensures
        r@.len() == n,
        forall|c: int| 0 <= c < n ==> (#[trigger] r@[c])@.len() == 0,
{
    let mut r: Vec<Vec<T>> = Vec::new();
    let mut c: usize = 0;
    while c < n
        invariant
            c <= n,
            r@.len() == c,
            forall|k: int| 0 <= k < c ==> (#[trigger] r@[k])@.len() == 0,
        decreases n - c,
    {
        let mut plane: Vec<T> = Vec::new();
        // without the room the buffer grows as samples come
        let _ = plane.try_reserve(capacity);
        r.push(plane);
        c = c + 1;
    }
    r
}

/// Buffers without samples for `n` channels of samples decoded in `format`.
fn empty_audio(format: SampleFormat, n: usize, capacity: usize) -> (r: DecodedAudioType)
    requires
        n > 0,
    ensures
        r.wf(),
        r.spec_channels() == n,
        r.spec_frames() == 0,
        r.spec_format() == spec_stored_format(format),
{
    match format {
        SampleFormat::U8 => DecodedAudioType::U8(empty_channels(n, capacity)),
        SampleFormat::U16 => DecodedAudioType::U16(empty_channels(n, capacity)),
        SampleFormat::U24 => DecodedAudioType::U24(empty_channels(n, capacity)),
        SampleFormat::S8 => DecodedAudioType::S8(empty_channels(n, capacity)),
        SampleFormat::S16 => DecodedAudioType::S16(empty_channels(n, capacity)),
        SampleFormat::S24 => DecodedAudioType::S24(empty_channels(n, capacity)),
        SampleFormat::U32 | SampleFormat::S32 | SampleFormat::F32 => DecodedAudioType::F32(
            empty_channels(n, capacity),
        ),
        SampleFormat::F64 => DecodedAudioType::F64(empty_channels(n, capacity)),
    }
}

/// Append the samples of `packet` to the first `n` channels of `data`.
fn append_packet(data: &mut DecodedAudioType, packet: &DecodedPacket, n: usize)
    requires
        old(data).wf(),
        old(data).spec_channels() == n,
        packet.well_shaped(n as nat),
        old(data).spec_format() == spec_stored_format(packet.spec_format()),
    ensures
        final(data).wf(),
        final(data).spec_channels() == n,
        final(data).spec_format() == old(data).spec_format(),
        final(data).spec_frames() == old(data).spec_frames() + packet.plane_len(0),
        forall|c: int, i: int|
            0 <= c < n && 0 <= i < old(data).spec_frames() ==> #[trigger] final(data).stored(c, i)
                == old(data).stored(c, i),
        forall|c: int, i: int|
            0 <= c < n && 0 <= i < packet.plane_len(0) ==> #[trigger] final(data).stored(
                c,
                old(data).spec_frames() + i,
            ) == packet.stored(c, i),
{
    match packet {
        DecodedPacket::U8(p) => match data {
            DecodedAudioType::U8(b) => decode_u8_packet(b, p, n),
            _ => {},
        },
        DecodedPacket::U16(p) => match data {
            DecodedAudioType::U16(b) => decode_u16_packet(b, p, n),
            _ => {},
        },
        DecodedPacket::U24(p) => match data {
            DecodedAudioType::U24(b) => decode_u24_packet(b, p, n),
            _ => {},
        },
        DecodedPacket::U32(p) => match data {
            DecodedAudioType::F32(b) => decode_u32_packet(b, p, n),
            _ => {},
        },
        DecodedPacket::S8(p) => match data {
            DecodedAudioType::S8(b) => decode_i8_packet(b, p, n),
            _ => {},
        },
        DecodedPacket::S16(p) => match data {
            DecodedAudioType::S16(b) => decode_i16_packet(b, p, n),
            _ => {},
        },
        DecodedPacket::S24(p) => match data {
            DecodedAudioType::S24(b) => decode_i24_packet(b, p, n),
            _ => {},
        },
        DecodedPacket::S32(p) => match data {
            DecodedAudioType::F32(b) => decode_i32_packet(b, p, n),
            _ => {},
        },
        DecodedPacket::F32(p) => match data {
            DecodedAudioType::F32(b) => decode_f32_packet(b, p, n),
            _ => {},
        },
        DecodedPacket::F64(p) => match data {
            DecodedAudioType::F64(b) => decode_f64_packet(b, p, n),
            _ => {},
        },
    }
}


/// Shrink the buffers of `data` as [`shrink_buffer`] does.
fn shrink_audio(data: &mut DecodedAudioType)
    requires
        old(data).wf(),
    ensures
        final(data).wf(),
        final(data).spec_channels() == old(data).spec_channels(),
        final(data).spec_frames() == old(data).spec_frames(),
        final(data).spec_format() == old(data).spec_format(),
        forall|c: int, i: int|
            0 <= c < old(data).spec_channels() ==> #[trigger] final(data).stored(c, i) == old(data).stored(
                c,
                i,
            ),
{
    match data {
        DecodedAudioType::U8(b) => shrink_buffer(b),
        DecodedAudioType::U16(b) => shrink_buffer(b),
        DecodedAudioType::U24(b) => shrink_buffer(b),
        DecodedAudioType::S8(b) => shrink_buffer(b),
        DecodedAudioType::S16(b) => shrink_buffer(b),
        DecodedAudioType::S24(b) => shrink_buffer(b),
        DecodedAudioType::F32(b) => shrink_buffer(b),
        DecodedAudioType::F64(b) => shrink_buffer(b),
    }
}

/// Whether `e` is an error with which decoding the packets of a track can
/// end, for the limit `max_bytes`.
pub open spec fn is_decode_failure(e: LoadError, max_bytes: nat) -> bool {
    ||| e matches LoadError::FileTooLarge(m) && m == max_bytes
    ||| e matches LoadError::ErrorWhileDecoding(_)
    ||| e matches LoadError::UnexpectedErrorWhileDecoding(_)
}

/// Whether the length that a stream declares, if it declares one, is within
/// `limit` frames.
pub open spec fn declared_fits(declared: Option<u64>, limit: nat) -> bool {
    match declared {
        Some(length) => length <= limit,
        None => true,
    }
}

/// Whether a first packet of `frames` frames may be taken: the declared
/// length and the packet are both within `limit`.
pub open spec fn fits_at_start(declared: Option<u64>, limit: nat, frames: nat) -> bool {
    declared_fits(declared, limit) && frames <= limit
}

/// Whether a packet of `frames` frames may follow `held` frames: the sum is
/// within `limit`, whatever length the stream declared.
pub open spec fn within_budget(limit: nat, held: nat, frames: nat) -> bool {
    held + frames <= limit
}

/// The samples of a track as they accumulate packet by packet, in the
/// encoding of the first packet.
pub struct Accumulator {
    data: DecodedAudioType,
    format: SampleFormat,
    n_channels: usize,
    file_frames: Option<u64>,
    max_bytes: usize,
    taken: bool,
}

/// Whether a first packet can be taken: it has planes of one length for `n`
/// channels and [`fits_at_start`].
pub open spec fn can_start(packet: DecodedPacket, n: nat, declared: Option<u64>, max_bytes: nat) -> bool {
    packet.well_shaped(n) && fits_at_start(
        declared,
        spec_frame_limit(max_bytes, packet.spec_format(), n),
        packet.plane_len(0),
    )
}

/// Whether `e` is the error for a first packet that cannot be taken:
/// `FileTooLarge` for a declared length that does not fit, else
/// `MalformedPacket` for a packet that lacks a channel or has planes of
/// unequal length, else `FileTooLarge` for a packet that does not fit.
pub open spec fn start_error(
    e: LoadError,
    packet: DecodedPacket,
    n: nat,
    declared: Option<u64>,
    max_bytes: nat,
) -> bool {
    if !declared_fits(declared, spec_frame_limit(max_bytes, packet.spec_format(), n)) {
        e matches LoadError::FileTooLarge(m) && m == max_bytes
    } else if !packet.well_shaped(n) {
        e matches LoadError::UnexpectedErrorWhileDecoding(UnexpectedDecode::MalformedPacket)
    } else {
        e matches LoadError::FileTooLarge(m) && m == max_bytes
    }
}

/// Whether `acc` is what taking the first packet gives: the samples of the
/// packet, stored, for a track of `n` channels under the given limit.
pub open spec fn started(
    acc: Accumulator,
    packet: DecodedPacket,
    n: nat,
    declared: Option<u64>,
    max_bytes: nat,
) -> bool {
    &&& acc.wf()
    &&& acc.has_packet()
    &&& acc.channels() == n
    &&& acc.packet_format() == packet.spec_format()
    &&& acc.declared_frames() == declared
    &&& acc.max_bytes() == max_bytes
    &&& acc.audio().spec_frames() == packet.plane_len(0)
    &&& forall|c: int, i: int|
        0 <= c < n && 0 <= i < packet.plane_len(0) ==> #[trigger] acc.audio().stored(c, i)
            == packet.stored(c, i)
}

/// Whether a further packet can be taken: it is in the encoding of the first
/// one, has planes of one length for every channel, and is
/// [`within_budget`].
pub open spec fn can_push(before: Accumulator, packet: DecodedPacket) -> bool {
    &&& packet.spec_format() == before.packet_format()
    &&& packet.well_shaped(before.channels())
    &&& within_budget(before.limit(), before.audio().spec_frames(), packet.plane_len(0))
}

/// Whether `e` is the error for a further packet that cannot be taken:
/// `WrongFormat` with the encoding of the first packet for a packet in
/// another encoding, else `MalformedPacket`, else `FileTooLarge`.
pub open spec fn push_error(e: LoadError, before: Accumulator, packet: DecodedPacket) -> bool {
    if packet.spec_format() != before.packet_format() {
        e matches LoadError::UnexpectedErrorWhileDecoding(UnexpectedDecode::WrongFormat(f)) && f
            == before.packet_format()
    } else if !packet.well_shaped(before.channels()) {
        e matches LoadError::UnexpectedErrorWhileDecoding(UnexpectedDecode::MalformedPacket)
    } else {
        e matches LoadError::FileTooLarge(m) && m == before.max_bytes()
    }
}

/// Whether `after` is `before` with the samples of `packet` appended to
/// every channel.
pub open spec fn pushed(before: Accumulator, after: Accumulator, packet: DecodedPacket) -> bool {
    &&& after.wf()
    &&& after.has_packet()
    &&& after.same_track(before)
    &&& after.audio().spec_frames() == before.audio().spec_frames() + packet.plane_len(0)
    &&& forall|c: int, i: int|
        0 <= c < before.channels() && 0 <= i < before.audio().spec_frames()
            ==> #[trigger] after.audio().stored(c, i) == before.audio().stored(c, i)
    &&& forall|c: int, i: int|
        0 <= c < before.channels() && 0 <= i < packet.plane_len(0) ==> #[trigger] after.audio().stored(
            c,
            before.audio().spec_frames() + i,
        ) == packet.stored(c, i)
}

/// Whether `audio` is what the accumulation gives at its end: the samples
/// that are held, at the given sample rate, within the limit.
pub open spec fn finished(acc: Accumulator, audio: DecodedAudio, sample_rate: u32) -> bool {
    &&& audio.spec_sample_rate() == sample_rate
    &&& audio.resource().wf()
    &&& audio.spec_channels() == acc.channels()
    &&& audio.spec_frames() == acc.audio().spec_frames()
    &&& audio.resource().spec_format() == spec_stored_format(acc.packet_format())
    &&& forall|c: int, i: int|
        0 <= c < acc.channels() ==> #[trigger] audio.resource().stored(c, i) == acc.audio().stored(c, i)
    &&& audio.spec_frames() * (audio.resource().spec_format().spec_bytes_per_sample() * acc.channels())
        <= acc.max_bytes()
}

/// A resource of `frames` frames within the limit of frames takes no more
/// bytes than the limit of bytes.
pub proof fn lemma_frames_within_bytes(frames: nat, max_bytes: nat, format: SampleFormat, n_channels: nat)
    requires
        n_channels > 0,
        frames <= spec_frame_limit(max_bytes, format, n_channels),
    ensures
        frames * (format.spec_bytes_per_sample() * n_channels) <= max_bytes,
        spec_stored_format(format).spec_bytes_per_sample() == format.spec_bytes_per_sample(),
{
    let unit = format.spec_bytes_per_sample() * n_channels;
    assert(unit > 0) by (nonlinear_arith)
        requires
            unit == format.spec_bytes_per_sample() * n_channels,
            format.spec_bytes_per_sample() > 0,
            n_channels > 0,
    ;
    vstd::arithmetic::div_mod::lemma_fundamental_div_mod(max_bytes as int, unit as int);
    let q = max_bytes as int / unit as int;
    assert(frames * unit <= max_bytes) by (nonlinear_arith)
        requires
            frames <= q,
            max_bytes == unit * q + max_bytes as int % unit as int,
            0 <= max_bytes as int % unit as int,
            unit > 0,
    ;
}

impl Accumulator {
    /// The samples held so far.
    pub closed spec fn audio(&self) -> DecodedAudioType {
        self.data
    }

    /// The encoding of the first packet, which every packet has to have.
    pub closed spec fn packet_format(&self) -> SampleFormat {
        self.format
    }

    /// The number of channels of the track.
    pub closed spec fn channels(&self) -> nat {
        self.n_channels as nat
    }

    /// The number of frames that the stream declared, if it declared one.
    pub closed spec fn declared_frames(&self) -> Option<u64> {
        self.file_frames
    }

    /// The greatest number of bytes that the samples may take.
    pub closed spec fn max_bytes(&self) -> nat {
        self.max_bytes as nat
    }

    /// Whether a packet was taken.
    pub closed spec fn has_packet(&self) -> bool {
        self.taken
    }

    /// The greatest number of frames that fit in the limit.
    pub open spec fn limit(&self) -> nat {
        spec_frame_limit(self.max_bytes(), self.packet_format(), self.channels())
    }

    /// Whether `other` accumulates the same track under the same limit.
    pub open spec fn same_track(&self, other: Accumulator) -> bool {
        &&& self.channels() == other.channels()
        &&& self.packet_format() == other.packet_format()
        &&& self.declared_frames() == other.declared_frames()
        &&& self.max_bytes() == other.max_bytes()
    }

    /// What holds of an accumulator between calls: one buffer per channel,
    /// all of one length, in the encoding that the first packet fixed; no
    /// more frames than fit in the limit; and a declared length that fits.
    pub open spec fn wf(&self) -> bool {
        &&& self.channels() > 0
        &&& self.audio().wf()
        &&& self.audio().spec_channels() == self.channels()
        &&& self.audio().spec_format() == spec_stored_format(self.packet_format())
        &&& self.audio().spec_frames() <= self.limit()
        &&& declared_fits(self.declared_frames(), self.limit())
    }

    /// Start with the first decoded packet of a track of `n_channels`
    /// channels, which fixes the encoding.
    ///
    /// Fails with `FileTooLarge` where the declared length of the stream
    /// does not fit in `max_bytes`; else with `UnexpectedErrorWhileDecoding`
    /// where the packet lacks a channel or its planes differ in length; else
    /// with `FileTooLarge` where the packet does not fit.
    pub fn start(packet: &DecodedPacket, n_channels: usize, file_frames: Option<u64>, max_bytes: usize) -> (r:
        Result<Accumulator, LoadError>)
        requires
            n_channels > 0,
        ensures
            r is Ok <==> can_start(*packet, n_channels as nat, file_frames, max_bytes as nat),
            r matches Ok(acc) ==> started(acc, *packet, n_channels as nat, file_frames, max_bytes as nat),
            r matches Err(e) ==> start_error(e, *packet, n_channels as nat, file_frames, max_bytes as nat),
    {
        let format = packet.format();
        let limit = frame_limit(max_bytes, format, n_channels);
        let capacity = match file_frames {
            Some(frames) => {
                if frames > limit as u64 {
                    return Err(LoadError::FileTooLarge(max_bytes));
                }
                frames as usize
            },
            None => 0,
        };
        if !packet.is_well_shaped(n_channels) {
            return Err(LoadError::UnexpectedErrorWhileDecoding(UnexpectedDecode::MalformedPacket));
        }
        if packet.frames() > limit {
            return Err(LoadError::FileTooLarge(max_bytes));
        }
        let mut data = empty_audio(format, n_channels, capacity);
        append_packet(&mut data, packet, n_channels);
        assert forall|c: int, i: int|
            0 <= c < n_channels && 0 <= i < packet.plane_len(0) implies #[trigger] data.stored(c, i)
            == packet.stored(c, i) by {
            assert(data.stored(c, 0 + i) == packet.stored(c, i));
        }
        Ok(Accumulator { data, format, n_channels, file_frames, max_bytes, taken: true })
    }

    /// Append a further packet.
    ///
    /// Fails with `UnexpectedErrorWhileDecoding` where the packet is not in
    /// the encoding of the first one, lacks a channel, or has planes that
    /// differ in length; and with `FileTooLarge` where the packet does not
    /// fit any more. A failure leaves the accumulator as it was.
    pub fn push(&mut self, packet: &DecodedPacket) -> (r: Result<(), LoadError>)
        requires
            old(self).wf(),
        ensures
            final(self).wf(),
            final(self).same_track(*old(self)),
            r is Ok <==> can_push(*old(self), *packet),
            r is Ok ==> pushed(*old(self), *final(self), *packet),
            r matches Err(e) ==> push_error(e, *old(self), *packet),
            r is Err ==> final(self).audio() == old(self).audio() && final(self).has_packet() == old(
                self,
            ).has_packet(),
    {
        if packet.format() != self.format {
            return Err(
                LoadError::UnexpectedErrorWhileDecoding(UnexpectedDecode::WrongFormat(self.format)),
            );
        }
        if !packet.is_well_shaped(self.n_channels) {
            return Err(LoadError::UnexpectedErrorWhileDecoding(UnexpectedDecode::MalformedPacket));
        }
        let limit = frame_limit(self.max_bytes, self.format, self.n_channels);
        let (_, held) = self.data.shape();
        if packet.frames() > limit - held {
            return Err(LoadError::FileTooLarge(self.max_bytes));
        }
        append_packet(&mut self.data, packet, self.n_channels);
        self.taken = true;
        Ok(())
    }

    /// Take a decoded packet: the first one starts the accumulation, as
    /// [`Accumulator::start`] does with the channels and the limit given;
    /// every further one is appended to what is held, as
    /// [`Accumulator::push`] does.
    pub fn take_packet(
        held: Option<Accumulator>,
        packet: &DecodedPacket,
        n_channels: usize,
        file_frames: Option<u64>,
        max_bytes: usize,
    ) -> (r: Result<Accumulator, LoadError>)
        requires
            n_channels > 0,
            match held {
                Some(before) => before.wf(),
                None => true,
            },
        ensures
            match held {
                None => {
                    &&& r is Ok <==> can_start(*packet, n_channels as nat, file_frames, max_bytes as nat)
                    &&& r matches Ok(acc) ==> started(
                        acc,
                        *packet,
                        n_channels as nat,
                        file_frames,
                        max_bytes as nat,
                    )
                    &&& r matches Err(e) ==> start_error(
                        e,
                        *packet,
                        n_channels as nat,
                        file_frames,
                        max_bytes as nat,
                    )
                },
                Some(before) => {
                    &&& r is Ok <==> can_push(before, *packet)
                    &&& r matches Ok(after) ==> pushed(before, after, *packet)
                    &&& r matches Err(e) ==> push_error(e, before, *packet)
                },
            },
    {
        match held {
            None => Accumulator::start(packet, n_channels, file_frames, max_bytes),
            Some(mut acc) => match acc.push(packet) {
                Ok(()) => Ok(acc),
                Err(e) => Err(e),
            },
        }
    }

    /// The number of frames held so far.
    pub fn frames(&self) -> (n: usize)
        requires
            self.wf(),
        ensures
            n == self.audio().spec_frames(),
    {
        self.data.shape().1
    }

    /// End the accumulation: the samples as a resource of the given sample
    /// rate. Spare capacity of the buffers is given back.
    ///
    /// Fails with `UnexpectedErrorWhileDecoding` where no packet was taken.
    pub fn finish(self, sample_rate: u32) -> (r: Result<DecodedAudio, LoadError>)
        requires
            self.wf(),
        ensures
            r is Ok <==> self.has_packet(),
            r matches Ok(audio) ==> finished(self, audio, sample_rate),
            r matches Err(e) ==> e matches LoadError::UnexpectedErrorWhileDecoding(
                UnexpectedDecode::NoPacketFound,
            ),
    {
        if !self.taken {
            return Err(LoadError::UnexpectedErrorWhileDecoding(UnexpectedDecode::NoPacketFound));
        }
        proof {
            lemma_frames_within_bytes(
                self.data.spec_frames(),
                self.max_bytes as nat,
                self.format,
                self.n_channels as nat,
            );
        }
        let mut data = self.data;
        shrink_audio(&mut data);
        Ok(DecodedAudio::new(data, sample_rate))
    }

    /// End an accumulation that may not have begun: without a packet there
    /// is nothing to give, else the end is that of [`Accumulator::finish`].
    pub fn conclude(held: Option<Accumulator>, sample_rate: u32) -> (r: Result<DecodedAudio, LoadError>)
        requires
            match held {
                Some(acc) => acc.wf(),
                None => true,
            },
        ensures
            r is Ok <==> held.is_some() && held.unwrap().has_packet(),
            r matches Ok(audio) ==> finished(held.unwrap(), audio, sample_rate),
            r matches Err(e) ==> e matches LoadError::UnexpectedErrorWhileDecoding(
                UnexpectedDecode::NoPacketFound,
            ),
    {
        match held {
            Some(acc) => acc.finish(sample_rate),
            None => Err(LoadError::UnexpectedErrorWhileDecoding(UnexpectedDecode::NoPacketFound)),
        }
    }

    /// Start without samples, for packets that were converted to binary32.
    ///
    /// Fails with `FileTooLarge` where the stream declared more frames than
    /// fit in `max_bytes`.
    pub fn begin_f32(n_channels: usize, file_frames: Option<u64>, max_bytes: usize) -> (r: Result<
        Accumulator,
        LoadError,
    >)
        requires
            n_channels > 0,
        ensures
            r is Ok <==> declared_fits(
                file_frames,
                spec_frame_limit(max_bytes as nat, SampleFormat::F32, n_channels as nat),
            ),
            r matches Err(e) ==> e matches LoadError::FileTooLarge(m) && m == max_bytes,
            r matches Ok(acc) ==> {
                &&& acc.wf()
                &&& !acc.has_packet()
                &&& acc.channels() == n_channels
                &&& acc.packet_format() == SampleFormat::F32
                &&& acc.declared_frames() == file_frames
                &&& acc.max_bytes() == max_bytes
                &&& acc.audio().spec_frames() == 0
            },
    {
        let limit = frame_limit(max_bytes, SampleFormat::F32, n_channels);
        let capacity = match file_frames {
            Some(frames) => {
                if frames > limit as u64 {
                    return Err(LoadError::FileTooLarge(max_bytes));
                }
                frames as usize
            },
            None => 44100,
        };
        let data = empty_audio(SampleFormat::F32, n_channels, capacity);
        Ok(
            Accumulator {
                data,
                format: SampleFormat::F32,
                n_channels,
                file_frames,
                max_bytes,
                taken: false,
            },
        )
    }

    /// End the accumulation of samples that are stored in binary32: the
    /// samples as a resource of the given sample rate. Spare capacity of the
    /// buffers is given back.
    ///
    /// Fails with `UnexpectedErrorWhileDecoding` where no packet was taken.
    pub fn finish_f32(self, sample_rate: u32) -> (r: Result<DecodedAudioF32, LoadError>)
        requires
            self.wf(),
            spec_stored_format(self.packet_format()) == SampleFormat::F32,
        ensures
            r is Ok <==> self.has_packet(),
            r matches Err(e) ==> e matches LoadError::UnexpectedErrorWhileDecoding(
                UnexpectedDecode::NoPacketFound,
            ),
            r matches Ok(audio) ==> {
                &&& audio.wf()
                &&& audio.sample_rate == sample_rate
                &&& audio.spec_channels() == self.channels()
                &&& audio.spec_frames() == self.audio().spec_frames()
                &&& forall|c: int, i: int|
                    0 <= c < self.channels() && 0 <= i < self.audio().spec_frames()
                        ==> #[trigger] audio.data@[c]@[i] as int == self.audio().stored(c, i)
                &&& audio.spec_frames() * (4 * self.channels()) <= self.max_bytes()
            },
    {
        if !self.taken {
            return Err(LoadError::UnexpectedErrorWhileDecoding(UnexpectedDecode::NoPacketFound));
        }
        proof {
            lemma_frames_within_bytes(
                self.data.spec_frames(),
                self.max_bytes as nat,
                self.format,
                self.n_channels as nat,
            );
        }
        let mut data = self.data;
        shrink_audio(&mut data);
        match data {
            DecodedAudioType::F32(planes) => {
                assert forall|c: int, i: int|
                    0 <= c < self.channels() && 0 <= i < self.audio().spec_frames() implies #[trigger] planes@[c]@[i]
                    as int == self.audio().stored(c, i) by {
                    assert(data.stored(c, i) == self.audio().stored(c, i));
                }
                Ok(DecodedAudioF32::new(planes, sample_rate))
            },
            _ => Ok(DecodedAudioF32 { data: Vec::new(), sample_rate }),
        }
    }
}

} // verus!
