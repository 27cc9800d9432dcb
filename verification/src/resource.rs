//! Decoded audio held in memory, one buffer per channel.

use vstd::prelude::*;

use crate::convert::{
    little_endian, pcm_i16_to_f32, pcm_i24_to_f32_ordered, pcm_i8_to_f32, pcm_u16_to_f32,
    pcm_u24_to_f32_ordered, pcm_u8_to_f32, sign_extend_24, spec_pcm_i16_to_f32,
    spec_pcm_i24_to_f32, spec_pcm_i8_to_f32, spec_pcm_u16_to_f32, spec_pcm_u24_to_f32,
    spec_pcm_u8_to_f32, u24_le, u24_ordered,
};
use crate::format::SampleFormat;
use crate::ieee::{binary64_to_binary32, narrow};

verus! {

/// Whether `planes` holds at least one channel and all channels have the
/// same length.
pub open spec fn rectangular<T>(planes: Seq<Vec<T>>) -> bool {
    &&& planes.len() > 0
    &&& forall|c: int| 0 <= c < planes.len() ==> (#[trigger] planes[c])@.len() == planes[0]@.len()
}

/// Audio samples in binary32, one buffer per channel, each sample held as
/// its IEEE-754 bit pattern.
pub struct DecodedAudioF32 {
    pub data: Vec<Vec<u32>>,
    pub sample_rate: u32,
}

impl DecodedAudioF32 {
    /// Whether there is at least one channel and all channels have the same
    /// length.
    pub open spec fn wf(&self) -> bool {
        rectangular(self.data@)
    }

    /// A resource of the given planes, which have to be of one length, and
    /// at least one.
    pub fn new(data: Vec<Vec<u32>>, sample_rate: u32) -> (r: Self)
        requires
            rectangular(data@),
        ensures
            r.data == data,
            r.sample_rate == sample_rate,
            r.wf(),
    {
        Self { data, sample_rate }
    }

    /// The number of channels.
    pub open spec fn spec_channels(&self) -> nat {
        self.data@.len()
    }

    /// The number of frames: the length of the first channel.
    pub open spec fn spec_frames(&self) -> nat {
        self.data@[0]@.len()
    }

    /// The number of channels in this resource.
    pub fn channels(&self) -> (n: usize)
        ensures
            n == self.spec_channels(),
    {
        self.data.len()
    }

    /// The length of this resource in frames (the length of a single channel
    /// in samples).
    pub fn frames(&self) -> (n: usize)
        requires
            self.data@.len() > 0,
        ensures
            n == self.spec_frames(),
    {
        self.data[0].len()
    }

    /// This resource as one that may hold any encoding.
    pub fn into(self) -> (r: DecodedAudio)
        requires
            self.wf(),
        ensures
            r.resource() == DecodedAudioType::F32(self.data),
            r.spec_sample_rate() == self.sample_rate,
    {
        DecodedAudio::new(DecodedAudioType::F32(self.data), self.sample_rate)
    }
}

/// The samples of a resource, one buffer per channel, in the encoding in
/// which they are stored.
///
/// There is no variant for 32-bit integers: they take as much room as
/// binary32, so they are converted when they are decoded.
pub enum DecodedAudioType {
    U8(Vec<Vec<u8>>),
    U16(Vec<Vec<u16>>),
    /// Three bytes a sample, in the byte order of the machine.
    U24(Vec<Vec<[u8; 3]>>),
    S8(Vec<Vec<i8>>),
    S16(Vec<Vec<i16>>),
    /// Three bytes a sample in two's complement, in the byte order of the
    /// machine.
    S24(Vec<Vec<[u8; 3]>>),
    /// Bit patterns of binary32 values.
    F32(Vec<Vec<u32>>),
    /// Bit patterns of binary64 values.
    F64(Vec<Vec<u64>>),
}

impl DecodedAudioType {
    /// The number of channels.
    pub open spec fn spec_channels(&self) -> nat {
        match self {
            DecodedAudioType::U8(b) => b@.len(),
            DecodedAudioType::U16(b) => b@.len(),
            DecodedAudioType::U24(b) => b@.len(),
            DecodedAudioType::S8(b) => b@.len(),
            DecodedAudioType::S16(b) => b@.len(),
            DecodedAudioType::S24(b) => b@.len(),
            DecodedAudioType::F32(b) => b@.len(),
            DecodedAudioType::F64(b) => b@.len(),
        }
    }

    /// The number of samples in channel `c`.
    pub open spec fn channel_len(&self, c: int) -> nat {
        match self {
            DecodedAudioType::U8(b) => b@[c]@.len(),
            DecodedAudioType::U16(b) => b@[c]@.len(),
            DecodedAudioType::U24(b) => b@[c]@.len(),
            DecodedAudioType::S8(b) => b@[c]@.len(),
            DecodedAudioType::S16(b) => b@[c]@.len(),
            DecodedAudioType::S24(b) => b@[c]@.len(),
            DecodedAudioType::F32(b) => b@[c]@.len(),
            DecodedAudioType::F64(b) => b@[c]@.len(),
        }
    }

    /// The number of frames: the length of the first channel.
    pub open spec fn spec_frames(&self) -> nat {
        self.channel_len(0)
    }

    /// Whether there is at least one channel and all channels have the same
    /// length.
    pub open spec fn wf(&self) -> bool {
        match self {
            DecodedAudioType::U8(b) => rectangular(b@),
            DecodedAudioType::U16(b) => rectangular(b@),
            DecodedAudioType::U24(b) => rectangular(b@),
            DecodedAudioType::S8(b) => rectangular(b@),
            DecodedAudioType::S16(b) => rectangular(b@),
            DecodedAudioType::S24(b) => rectangular(b@),
            DecodedAudioType::F32(b) => rectangular(b@),
            DecodedAudioType::F64(b) => rectangular(b@),
        }
    }

    /// The encoding in which the samples are stored.
    pub open spec fn spec_format(&self) -> SampleFormat {
        match self {
            DecodedAudioType::U8(_) => SampleFormat::U8,
            DecodedAudioType::U16(_) => SampleFormat::U16,
            DecodedAudioType::U24(_) => SampleFormat::U24,
            DecodedAudioType::S8(_) => SampleFormat::S8,
            DecodedAudioType::S16(_) => SampleFormat::S16,
            DecodedAudioType::S24(_) => SampleFormat::S24,
            DecodedAudioType::F32(_) => SampleFormat::F32,
            DecodedAudioType::F64(_) => SampleFormat::F64,
        }
    }

    /// Sample `i` of channel `c` as the integer that is stored for it: the
    /// value of an integer sample of 8 or 16 bits, the bit pattern of a
    /// floating-point one, and for 24 bits the three bytes as they are
    /// stored, taken as a number with the first byte as the lowest.
    pub open spec fn stored(&self, c: int, i: int) -> int {
        match self {
            DecodedAudioType::U8(b) => b@[c]@[i] as int,
            DecodedAudioType::U16(b) => b@[c]@[i] as int,
            DecodedAudioType::U24(b) => u24_le(b@[c]@[i]) as int,
            DecodedAudioType::S8(b) => b@[c]@[i] as int,
            DecodedAudioType::S16(b) => b@[c]@[i] as int,
            DecodedAudioType::S24(b) => u24_le(b@[c]@[i]) as int,
            DecodedAudioType::F32(b) => b@[c]@[i] as int,
            DecodedAudioType::F64(b) => b@[c]@[i] as int,
        }
    }

    /// Sample `i` of channel `c` as a binary32 bit pattern, where
    /// `least_first` says in which order the three bytes of a 24-bit sample
    /// are read.
    pub open spec fn sample(&self, least_first: bool, c: int, i: int) -> u32 {
        match self {
            DecodedAudioType::U8(b) => spec_pcm_u8_to_f32(b@[c]@[i]),
            DecodedAudioType::U16(b) => spec_pcm_u16_to_f32(b@[c]@[i]),
            DecodedAudioType::U24(b) => spec_pcm_u24_to_f32(u24_ordered(b@[c]@[i], least_first)),
            DecodedAudioType::S8(b) => spec_pcm_i8_to_f32(b@[c]@[i]),
            DecodedAudioType::S16(b) => spec_pcm_i16_to_f32(b@[c]@[i]),
            DecodedAudioType::S24(b) => spec_pcm_i24_to_f32(
                sign_extend_24(u24_ordered(b@[c]@[i], least_first)),
            ),
            DecodedAudioType::F32(b) => b@[c]@[i],
            DecodedAudioType::F64(b) => narrow(b@[c]@[i]),
        }
    }

    /// Sample `i` of channel `c` as a binary32 bit pattern, and silence from
    /// the end of the channel on.
    pub open spec fn sample_or_silence(&self, least_first: bool, c: int, i: int) -> u32 {
        if i < self.spec_frames() {
            self.sample(least_first, c, i)
        } else {
            0
        }
    }

    /// The number of channels and the number of frames.
    pub fn shape(&self) -> (r: (usize, usize))
        requires
            self.wf(),
        ensures
            r.0 == self.spec_channels(),
            r.1 == self.spec_frames(),
    {
        match self {
            DecodedAudioType::U8(b) => (b.len(), b[0].len()),
            DecodedAudioType::U16(b) => (b.len(), b[0].len()),
            DecodedAudioType::U24(b) => (b.len(), b[0].len()),
            DecodedAudioType::S8(b) => (b.len(), b[0].len()),
            DecodedAudioType::S16(b) => (b.len(), b[0].len()),
            DecodedAudioType::S24(b) => (b.len(), b[0].len()),
            DecodedAudioType::F32(b) => (b.len(), b[0].len()),
            DecodedAudioType::F64(b) => (b.len(), b[0].len()),
        }
    }

    /// Sample `i` of channel `c`, converted to binary32, where `least_first`
    /// says in which order the three bytes of a 24-bit sample are read.
    pub fn sample_at(&self, least_first: bool, c: usize, i: usize) -> (bits: u32)
        requires
            self.wf(),
            c < self.spec_channels(),
            i < self.spec_frames(),
        ensures
            bits == self.sample(least_first, c as int, i as int),
    {
        match self {
            DecodedAudioType::U8(b) => pcm_u8_to_f32(b[c][i]),
            DecodedAudioType::U16(b) => pcm_u16_to_f32(b[c][i]),
            DecodedAudioType::U24(b) => pcm_u24_to_f32_ordered(b[c][i], least_first),
            DecodedAudioType::S8(b) => pcm_i8_to_f32(b[c][i]),
            DecodedAudioType::S16(b) => pcm_i16_to_f32(b[c][i]),
            DecodedAudioType::S24(b) => pcm_i24_to_f32_ordered(b[c][i], least_first),
            DecodedAudioType::F32(b) => b[c][i],
            DecodedAudioType::F64(b) => binary64_to_binary32(b[c][i]),
        }
    }
}

/// Set `buf[from..]` to zero.
fn silence_from(buf: &mut [u32], from: usize)
    requires
        from <= old(buf)@.len(),
    ensures
        final(buf)@.len() == old(buf)@.len(),
        forall|i: int| 0 <= i < from ==> #[trigger] final(buf)@[i] == old(buf)@[i],
        forall|i: int| from <= i < old(buf)@.len() ==> #[trigger] final(buf)@[i] == 0,
{
    let len = buf.len();
    let mut i: usize = from;
    while i < len
        invariant
            len == buf@.len(),
            buf@.len() == old(buf)@.len(),
            from <= i <= len,
            forall|j: int| 0 <= j < from ==> #[trigger] buf@[j] == old(buf)@[j],
            forall|j: int| from <= j < i ==> #[trigger] buf@[j] == 0,
        decreases len - i,
    {
        buf[i] = 0;
        i = i + 1;
    }
}

/// Copy `count` samples of channel `c`, from frame `frame` on, to the start
/// of `buf`.
fn copy_samples(
    data: &DecodedAudioType,
    least_first: bool,
    c: usize,
    frame: usize,
    buf: &mut [u32],
    count: usize,
)
    requires
        data.wf(),
        c < data.spec_channels(),
        count <= old(buf)@.len(),
        frame + count <= data.spec_frames(),
        frame + count <= usize::MAX,
    ensures
        final(buf)@.len() == old(buf)@.len(),
        forall|i: int| 0 <= i < count ==> #[trigger] final(buf)@[i] == data.sample(least_first, c as int, frame + i),
        forall|i: int| count <= i < old(buf)@.len() ==> #[trigger] final(buf)@[i] == old(buf)@[i],
{
    let mut i: usize = 0;
    while i < count
        invariant
            buf@.len() == old(buf)@.len(),
            i <= count <= buf@.len(),
            data.wf(),
            c < data.spec_channels(),
            frame + count <= data.spec_frames(),
            frame + count <= usize::MAX,
            forall|j: int| 0 <= j < i ==> #[trigger] buf@[j] == data.sample(least_first, c as int, frame + j),
            forall|j: int| count <= j < buf@.len() ==> #[trigger] buf@[j] == old(buf)@[j],
        decreases count - i,
    {
        buf[i] = data.sample_at(least_first, c, frame + i);
        i = i + 1;
    }
}

/// The number of frames that a fill of `len` frames from frame `frame` on
/// copies out of `frames` frames.
pub open spec fn copied_frames(frames: nat, frame: nat, len: nat) -> nat {
    if frame >= frames {
        0
    } else if frame + len > frames {
        (frames - frame) as nat
    } else {
        len
    }
}

/// Audio samples, one buffer per channel, stored in the encoding of the
/// stream where that saves memory.
pub struct DecodedAudio {
    resource_type: DecodedAudioType,
    sample_rate: u32,
    channels: usize,
    frames: usize,
    least_first: bool,
}

impl DecodedAudio {
    /// The channels are of one length, and the counts are theirs.
    #[verifier::type_invariant]
    spec fn inv(&self) -> bool {
        &&& self.resource_type.wf()
        &&& self.channels == self.resource_type.spec_channels()
        &&& self.frames == self.resource_type.spec_frames()
    }

    /// The samples.
    pub closed spec fn resource(&self) -> DecodedAudioType {
        self.resource_type
    }

    /// Whether the three bytes of a 24-bit sample are read least significant
    /// first: the byte order of the machine, found when the resource was
    /// made.
    pub closed spec fn least_first(&self) -> bool {
        self.least_first
    }

    /// The sample rate in samples per second.
    pub closed spec fn spec_sample_rate(&self) -> u32 {
        self.sample_rate
    }

    /// The number of channels.
    pub open spec fn spec_channels(&self) -> nat {
        self.resource().spec_channels()
    }

    /// The number of frames.
    pub open spec fn spec_frames(&self) -> nat {
        self.resource().spec_frames()
    }

    /// A resource of the given samples, whose channels have to be of one
    /// length, and at least one.
    pub fn new(resource_type: DecodedAudioType, sample_rate: u32) -> (r: Self)
        requires
            resource_type.wf(),
        ensures
            r.resource() == resource_type,
            r.spec_sample_rate() == sample_rate,
    {
        let (channels, frames) = resource_type.shape();
        Self { resource_type, sample_rate, channels, frames, least_first: little_endian() }
    }

    /// The number of channels in this resource.
    pub fn channels(&self) -> (n: usize)
        ensures
            n == self.spec_channels(),
            n > 0,
            self.resource().wf(),
    {
        proof {
            use_type_invariant(self);
        }
        self.channels
    }

    /// The length of this resource in frames (the length of a single channel
    /// in samples).
    pub fn frames(&self) -> (n: usize)
        ensures
            n == self.spec_frames(),
    {
        proof {
            use_type_invariant(self);
        }
        self.frames
    }

    /// The sample rate of this resource in samples per second.
    pub fn sample_rate(&self) -> (rate: u32)
        ensures
            rate == self.spec_sample_rate(),
    {
        self.sample_rate
    }

    /// Whether the three bytes of a 24-bit sample are read least significant
    /// first.
    pub fn reads_least_first(&self) -> (least_first: bool)
        ensures
            least_first == self.least_first(),
    {
        self.least_first
    }

    /// The samples, in the encoding in which they are stored.
    pub fn get(&self) -> (r: &DecodedAudioType)
        ensures
            *r == self.resource(),
            r.wf(),
    {
        proof {
            use_type_invariant(self);
        }
        &self.resource_type
    }

    /// Fill the buffer with samples from the given `channel`, starting from
    /// the given `frame`.
    ///
    /// Where the buffer reaches beyond the end of the resource, the rest of
    /// it is filled with zeros. The number of frames that were copied is
    /// returned.
    ///
    /// An error is returned if the given channel does not exist, and the
    /// buffer is left as it was.
    pub fn fill_channel(&self, channel: usize, frame: usize, buf: &mut [u32]) -> (r: Result<
        usize,
        (),
    >)
        ensures
            final(buf)@.len() == old(buf)@.len(),
            channel >= self.spec_channels() ==> r.is_err() && final(buf)@ == old(buf)@,
            channel < self.spec_channels() ==> r == Ok::<usize, ()>(
                copied_frames(self.spec_frames(), frame as nat, old(buf)@.len()) as usize,
            ),
            channel < self.spec_channels() ==> forall|i: int|
                0 <= i < old(buf)@.len() ==> #[trigger] final(buf)@[i]
                    == self.resource().sample_or_silence(self.least_first(), channel as int, frame + i),
            // past the end: silence only, nothing copied
            channel < self.spec_channels() && frame >= self.spec_frames() ==> r == Ok::<usize, ()>(
                0,
            ) && forall|i: int| 0 <= i < old(buf)@.len() ==> #[trigger] final(buf)@[i] == 0,
            // inside the resource: samples only, all of them copied
            channel < self.spec_channels() && frame + old(buf)@.len() <= self.spec_frames() ==> r
                == Ok::<usize, ()>(old(buf)@.len() as usize) && forall|i: int|
                0 <= i < old(buf)@.len() ==> #[trigger] final(buf)@[i] == self.resource().sample(self.least_first(), channel as int,
                    frame + i,
                ),
            // across the end: the samples that are left, then silence
            channel < self.spec_channels() && frame < self.spec_frames() && frame + old(buf)@.len()
                > self.spec_frames() ==> r == Ok::<usize, ()>(
                (self.spec_frames() - frame) as usize,
            ) && forall|i: int|
                0 <= i < old(buf)@.len() ==> #[trigger] final(buf)@[i] == if frame + i
                    < self.spec_frames() {
                    self.resource().sample(self.least_first(), channel as int, frame + i)
                } else {
                    0
                },
    {
        proof {
            use_type_invariant(self);
        }
        if channel >= self.channels {
            return Err(());
        }
        let len = buf.len();
        let fill_frames = if frame >= self.frames {
            0
        } else if len > self.frames - frame {
            self.frames - frame
        } else {
            len
        };
        let mut i: usize = 0;
        while i < len
            invariant
                len == buf@.len(),
                buf@.len() == old(buf)@.len(),
                i <= len,
                fill_frames <= len,
                fill_frames == copied_frames(self.spec_frames(), frame as nat, len as nat),
                self.resource_type.wf(),
                self.resource() == self.resource_type,
                self.least_first() == self.least_first,
                self.frames == self.resource_type.spec_frames(),
                fill_frames > 0 ==> frame + fill_frames <= self.frames,
                channel < self.resource_type.spec_channels(),
                forall|j: int|
                    0 <= j < i ==> #[trigger] buf@[j] == self.resource().sample_or_silence(self.least_first(), 
                        channel as int,
                        frame + j,
                    ),
            decreases len - i,
        {
            if i < fill_frames {
                buf[i] = self.resource_type.sample_at(self.least_first, channel, frame + i);
            } else {
                buf[i] = 0;
            }
            i = i + 1;
        }
        Ok(fill_frames)
    }

    /// What [`DecodedAudio::fill_stereo`] leaves at index `i` of the buffer
    /// that channel `c` feeds, for a resource of two or more channels, where
    /// `shared` is the length of the shorter buffer and `before` what the
    /// buffer held.
    pub open spec fn stereo_side(&self, c: int, frame: nat, shared: nat, before: Seq<u32>, i: int) -> u32 {
        if frame >= self.spec_frames() {
            0
        } else if frame + shared > self.spec_frames() {
            self.resource().sample_or_silence(self.least_first(), c, frame + i)
        } else if i < shared {
            self.resource().sample(self.least_first(), c, frame + i)
        } else {
            before[i]
        }
    }

    /// Fill the stereo buffer with samples, starting from the given `frame`.
    ///
    /// If this resource has only one channel, both buffers are filled with
    /// the same data: they have to be of one length. Otherwise the first
    /// channel goes to the left buffer and the second to the right one, up to
    /// the length of the shorter buffer.
    ///
    /// Where the buffers reach beyond the end of the resource, the rest of
    /// both is filled with zeros. The number of frames that were copied is
    /// returned.
    pub fn fill_stereo(&self, frame: usize, buf_l: &mut [u32], buf_r: &mut [u32]) -> (copied: usize)
        requires
            self.spec_channels() == 1 ==> old(buf_l)@.len() == old(buf_r)@.len(),
        ensures
            final(buf_l)@.len() == old(buf_l)@.len(),
            final(buf_r)@.len() == old(buf_r)@.len(),
            copied == copied_frames(
                self.spec_frames(),
                frame as nat,
                vstd::math::min(old(buf_l)@.len() as int, old(buf_r)@.len() as int) as nat,
            ),
            // one channel feeds both sides
            self.spec_channels() == 1 ==> final(buf_l)@ == final(buf_r)@ && forall|i: int|
                0 <= i < old(buf_l)@.len() ==> #[trigger] final(buf_l)@[i]
                    == self.resource().sample_or_silence(self.least_first(), 0, frame + i),
            self.spec_channels() != 1 ==> forall|i: int|
                0 <= i < old(buf_l)@.len() ==> #[trigger] final(buf_l)@[i] == self.stereo_side(
                    0,
                    frame as nat,
                    vstd::math::min(old(buf_l)@.len() as int, old(buf_r)@.len() as int) as nat,
                    old(buf_l)@,
                    i,
                ),
            self.spec_channels() != 1 ==> forall|i: int|
                0 <= i < old(buf_r)@.len() ==> #[trigger] final(buf_r)@[i] == self.stereo_side(
                    1,
                    frame as nat,
                    vstd::math::min(old(buf_l)@.len() as int, old(buf_r)@.len() as int) as nat,
                    old(buf_r)@,
                    i,
                ),
            // past the end: silence only, nothing copied
            frame >= self.spec_frames() ==> copied == 0 && (forall|i: int|
                0 <= i < old(buf_l)@.len() ==> #[trigger] final(buf_l)@[i] == 0) && (forall|i: int|
                0 <= i < old(buf_r)@.len() ==> #[trigger] final(buf_r)@[i] == 0),
    {
        proof {
            use_type_invariant(self);
        }
        let len_l = buf_l.len();
        let len_r = buf_r.len();
        if self.channels == 1 {
            let fill_frames = match self.fill_channel(0, frame, buf_l) {
                Ok(n) => n,
                Err(_) => 0,
            };
            let mut i: usize = 0;
            while i < len_r
                invariant
                    len_r == buf_r@.len(),
                    buf_r@.len() == old(buf_r)@.len(),
                    buf_l@.len() == len_r,
                    i <= len_r,
                    forall|j: int| 0 <= j < i ==> #[trigger] buf_r@[j] == buf_l@[j],
                decreases len_r - i,
            {
                buf_r[i] = buf_l[i];
                i = i + 1;
            }
            return fill_frames;
        }
        if frame >= self.frames {
            silence_from(buf_l, 0);
            silence_from(buf_r, 0);
            return 0;
        }
        let shared = if len_l < len_r {
            len_l
        } else {
            len_r
        };
        if shared > self.frames - frame {
            let fill_frames = self.frames - frame;
            copy_samples(&self.resource_type, self.least_first, 0, frame, buf_l, fill_frames);
            copy_samples(&self.resource_type, self.least_first, 1, frame, buf_r, fill_frames);
            silence_from(buf_l, fill_frames);
            silence_from(buf_r, fill_frames);
            fill_frames
        } else {
            copy_samples(&self.resource_type, self.least_first, 0, frame, buf_l, shared);
            copy_samples(&self.resource_type, self.least_first, 1, frame, buf_r, shared);
            shared
        }
    }

    /// Consume this resource and return the samples.
    pub fn into_raw(self) -> (r: DecodedAudioType)
        ensures
            r == self.resource(),
            r.wf(),
    {
        proof {
            use_type_invariant(&self);
        }
        self.resource_type
    }
}

} // verus!
