//! Scheduling of a sample-rate conversion: packing decoded frames into the
//! chunks that a conversion engine asks for, dropping the frames that the
//! engine puts out while it warms up, and cutting the result to its exact
//! length.
//!
//! The engine itself is run by the caller: a [`ResampleSession`] says what
//! to hand to it and takes what it gave back.

use vstd::prelude::*;

use crate::decode::{
    empty_channels, frame_limit, lemma_frames_within_bytes, shrink_buffer, spec_frame_limit,
};
use crate::error::{LoadError, UnexpectedDecode};
use crate::format::SampleFormat;
use crate::packet::planes_aligned;
use crate::resource::DecodedAudioF32;

verus! {

/// What a conversion engine says of itself before a session.
#[derive(Clone, Copy, Debug)]
pub struct EngineInfo {
    /// The number of channels that the engine converts.
    pub channels: usize,
    /// The greatest number of frames that the engine asks for in one call.
    pub input_frames_max: usize,
    /// The greatest number of frames that the engine puts out in one call.
    pub output_frames_max: usize,
    /// The number of frames that the engine asks for in the next call.
    pub input_frames_next: usize,
    /// The number of leading frames of output that do not belong to the
    /// signal.
    pub output_delay: usize,
}

/// See that an engine converts as many channels as the stream has.
///
/// Fails with `InvalidResampler` where it converts another number.
pub fn engine_fits(n_channels: usize, engine: EngineInfo) -> (r: Result<(), LoadError>)
    ensures
        r is Ok <==> engine.channels == n_channels,
        r matches Err(e) ==> e matches LoadError::InvalidResampler { needed_channels, got_channels }
            && needed_channels == n_channels && got_channels == engine.channels,
{
    if engine.channels != n_channels {
        Err(LoadError::InvalidResampler { needed_channels: n_channels, got_channels: engine.channels })
    } else {
        Ok(())
    }
}

/// `ceil(frames * target_rate / source_rate)`: the number of frames that
/// `frames` frames become.
pub open spec fn spec_resampled_frames(frames: nat, source_rate: nat, target_rate: nat) -> nat {
    ((frames * target_rate + source_rate - 1) / source_rate as int) as nat
}

/// `ceil(frames * target_rate / source_rate)`, or `usize::MAX` where that
/// is less.
pub fn resampled_frames(frames: usize, source_rate: u32, target_rate: u32) -> (n: usize)
    requires
        source_rate > 0,
    ensures
        n == vstd::math::min(
            spec_resampled_frames(frames as nat, source_rate as nat, target_rate as nat) as int,
            usize::MAX as int,
        ),
{
    assert(0 <= frames * target_rate <= 0xFFFF_FFFF_FFFF_FFFF * 0xFFFF_FFFF) by (nonlinear_arith)
        requires
            0 <= frames <= 0xFFFF_FFFF_FFFF_FFFF,
            0 <= target_rate <= 0xFFFF_FFFF,
    ;
    let exact: u128 = (frames as u128 * target_rate as u128 + source_rate as u128 - 1) / (source_rate as u128);
    if exact > usize::MAX as u128 {
        usize::MAX
    } else {
        exact as usize
    }
}

/// What is emitted of a chunk of engine output while `delay` frames are
/// still to be dropped: the chunk without its first `delay` frames.
pub open spec fn emitted(delay: nat, chunk: Seq<u32>) -> Seq<u32> {
    if delay >= chunk.len() {
        Seq::empty()
    } else {
        chunk.subrange(delay as int, chunk.len() as int)
    }
}

/// The number of frames that are still to be dropped after a chunk of
/// `produced` frames.
pub open spec fn delay_after(delay: nat, produced: nat) -> nat {
    if delay >= produced {
        (delay - produced) as nat
    } else {
        0
    }
}

/// The state of one conversion of a stream to another sample rate.
pub struct ResampleSession {
    n_channels: usize,
    source_rate: u32,
    target_rate: u32,
    file_frames: Option<u64>,
    max_bytes: usize,
    capacity: usize,
    in_buf: Vec<Vec<u32>>,
    in_len: usize,
    desired: usize,
    delay_left: usize,
    total_in: usize,
    counted: bool,
    out: Vec<Vec<u32>>,
}

impl ResampleSession {
    /// The number of channels.
    pub closed spec fn channels(&self) -> nat {
        self.n_channels as nat
    }

    /// The sample rate of the stream.
    pub closed spec fn source_rate(&self) -> nat {
        self.source_rate as nat
    }

    /// The sample rate of the result.
    pub closed spec fn target_rate(&self) -> nat {
        self.target_rate as nat
    }

    /// The number of frames that the stream declared, if it declared one.
    pub closed spec fn declared_frames(&self) -> Option<u64> {
        self.file_frames
    }

    /// The greatest number of bytes that the result may take.
    pub closed spec fn max_bytes(&self) -> nat {
        self.max_bytes as nat
    }

    /// The length of each channel of the input chunk.
    pub closed spec fn capacity(&self) -> nat {
        self.capacity as nat
    }

    /// The input chunk, one buffer per channel.
    pub closed spec fn staging(&self) -> Seq<Vec<u32>> {
        self.in_buf@
    }

    /// The number of frames of the input chunk that are filled.
    pub closed spec fn staged_frames(&self) -> nat {
        self.in_len as nat
    }

    /// The number of frames that the engine asks for.
    pub closed spec fn wanted_frames(&self) -> nat {
        self.desired as nat
    }

    /// The number of frames of engine output that are still to be dropped.
    pub closed spec fn delay_left(&self) -> nat {
        self.delay_left as nat
    }

    /// The number of frames of the stream that were counted so far.
    pub closed spec fn input_frames(&self) -> nat {
        self.total_in as nat
    }

    /// Whether a packet was counted.
    pub closed spec fn has_packet(&self) -> bool {
        self.counted
    }

    /// Whether `other` differs from this state in the two sets of buffers at
    /// most: every count and every setting is the same.
    pub closed spec fn same_counts(&self, other: &ResampleSession) -> bool {
        &&& self.n_channels == other.n_channels
        &&& self.capacity == other.capacity
        &&& self.in_len == other.in_len
        &&& self.desired == other.desired
        &&& self.delay_left == other.delay_left
        &&& self.total_in == other.total_in
        &&& self.counted == other.counted
        &&& self.source_rate == other.source_rate
        &&& self.target_rate == other.target_rate
        &&& self.file_frames == other.file_frames
        &&& self.max_bytes == other.max_bytes
    }

    /// What was emitted so far, one buffer per channel.
    pub closed spec fn output(&self) -> Seq<Vec<u32>> {
        self.out@
    }

    /// The number of frames that were emitted so far.
    pub open spec fn output_frames(&self) -> nat {
        self.output()[0]@.len()
    }

    /// The greatest number of frames that fit in the limit.
    pub open spec fn limit(&self) -> nat {
        spec_frame_limit(self.max_bytes(), SampleFormat::F32, self.channels())
    }

    /// The number of frames that the result will have.
    pub open spec fn target_frames(&self) -> nat {
        spec_resampled_frames(self.input_frames(), self.source_rate(), self.target_rate())
    }

    /// What holds of a session between calls.
    pub open spec fn wf(&self) -> bool {
        &&& self.channels() > 0
        &&& self.source_rate() > 0
        &&& self.staging().len() == self.channels()
        &&& forall|c: int|
            0 <= c < self.channels() ==> (#[trigger] self.staging()[c])@.len() == self.capacity()
        &&& self.staged_frames() <= self.wanted_frames() <= self.capacity()
        &&& self.output().len() == self.channels()
        &&& forall|c: int|
            0 <= c < self.channels() ==> (#[trigger] self.output()[c])@.len() == self.output_frames()
    }

    /// Begin a session for a stream of `n_channels` channels.
    ///
    /// Fails with `InvalidResampler` where the engine converts another
    /// number of channels, and with `FileTooLarge` where the stream declared
    /// more frames than fit in `max_bytes`.
    pub fn begin(
        n_channels: usize,
        source_rate: u32,
        target_rate: u32,
        file_frames: Option<u64>,
        max_bytes: usize,
        engine: EngineInfo,
    ) -> (r: Result<ResampleSession, LoadError>)
        requires
            n_channels > 0,
            source_rate > 0,
            engine.input_frames_next <= engine.input_frames_max,
        ensures
            r is Err <==> engine.channels != n_channels || (file_frames.is_some() && file_frames.unwrap()
                > spec_frame_limit(max_bytes as nat, SampleFormat::F32, n_channels as nat)),
            r matches Err(e) ==> if engine.channels != n_channels {
                e matches LoadError::InvalidResampler { needed_channels, got_channels } && needed_channels
                    == n_channels && got_channels == engine.channels
            } else {
                e matches LoadError::FileTooLarge(m) && m == max_bytes
            },
            r matches Ok(s) ==> {
                &&& s.wf()
                &&& s.channels() == n_channels
                &&& s.source_rate() == source_rate
                &&& s.target_rate() == target_rate
                &&& s.declared_frames() == file_frames
                &&& s.max_bytes() == max_bytes
                &&& s.capacity() == engine.input_frames_max
                &&& s.staged_frames() == 0
                &&& s.wanted_frames() == engine.input_frames_next
                &&& s.delay_left() == engine.output_delay
                &&& s.input_frames() == 0
                &&& !s.has_packet()
                &&& s.output_frames() == 0
                &&& forall|c: int, i: int|
                    0 <= c < n_channels && 0 <= i < engine.input_frames_max
                        ==> #[trigger] s.staging()[c]@[i] == 0
            },
    {
        match engine_fits(n_channels, engine) {
            Ok(()) => {},
            Err(e) => {
                return Err(e);
            },
        }
        let max_frames = frame_limit(max_bytes, SampleFormat::F32, n_channels);
        if let Some(frames) = file_frames {
            if frames > max_frames as u64 {
                return Err(LoadError::FileTooLarge(max_bytes));
            }
        }
        // room for the frames of the result and for one chunk beyond them
        let expected = match file_frames {
            Some(frames) => frames as usize,
            None => 44100,
        };
        let room = resampled_frames(expected, source_rate, target_rate).saturating_add(
            engine.output_frames_max,
        );
        let out: Vec<Vec<u32>> = empty_channels(n_channels, room);
        let mut in_buf: Vec<Vec<u32>> = Vec::new();
        let mut c: usize = 0;
        while c < n_channels
            invariant
                c <= n_channels,
                in_buf@.len() == c,
                forall|k: int| 0 <= k < c ==> (#[trigger] in_buf@[k])@.len() == engine.input_frames_max,
                forall|k: int, i: int|
                    0 <= k < c && 0 <= i < engine.input_frames_max ==> #[trigger] in_buf@[k]@[i] == 0,
            decreases n_channels - c,
        {
            in_buf.push(vec![0u32; engine.input_frames_max]);
            c = c + 1;
        }
        Ok(
            ResampleSession {
                n_channels,
                source_rate,
                target_rate,
                file_frames,
                max_bytes,
                capacity: engine.input_frames_max,
                in_buf,
                in_len: 0,
                desired: engine.input_frames_next,
                delay_left: engine.output_delay,
                total_in: 0,
                counted: false,
                out,
            },
        )
    }

    /// Whether `other` is a state of the same session: the same stream, the
    /// same limit and the same size of the input chunk.
    pub open spec fn same_setup(&self, other: &ResampleSession) -> bool {
        &&& self.channels() == other.channels()
        &&& self.source_rate() == other.source_rate()
        &&& self.target_rate() == other.target_rate()
        &&& self.declared_frames() == other.declared_frames()
        &&& self.max_bytes() == other.max_bytes()
        &&& self.capacity() == other.capacity()
    }

    /// Whether `other` holds the same output.
    pub open spec fn same_output(&self, other: &ResampleSession) -> bool {
        &&& self.output().len() == other.output().len()
        &&& forall|c: int| 0 <= c < self.output().len() ==> (#[trigger] self.output()[c])@ == other.output()[c]@
    }

    /// Whether `other` holds the same input chunk.
    pub open spec fn same_staging(&self, other: &ResampleSession) -> bool {
        &&& self.staging().len() == other.staging().len()
        &&& forall|c: int|
            0 <= c < self.staging().len() ==> (#[trigger] self.staging()[c])@ == other.staging()[c]@
    }

    /// Copy frames of a decoded packet, from frame `offset` on, into the
    /// input chunk, as many as are left in the packet and fit in the chunk.
    /// The number of frames that were copied is returned.
    pub fn stage(&mut self, planes: &Vec<Vec<u32>>, offset: usize) -> (copied: usize)
        requires
            old(self).wf(),
            planes_aligned(planes@, old(self).channels()),
            offset <= planes@[0]@.len(),
        ensures
            final(self).wf(),
            final(self).has_packet() == old(self).has_packet(),
            final(self).same_setup(old(self)),
            final(self).same_output(old(self)),
            final(self).wanted_frames() == old(self).wanted_frames(),
            final(self).delay_left() == old(self).delay_left(),
            final(self).input_frames() == old(self).input_frames(),
            copied == vstd::math::min(
                planes@[0]@.len() - offset,
                old(self).wanted_frames() - old(self).staged_frames(),
            ),
            final(self).staged_frames() == old(self).staged_frames() + copied,
            forall|c: int, i: int|
                0 <= c < old(self).channels() && 0 <= i < old(self).capacity()
                    ==> #[trigger] final(self).staging()[c]@[i] == if old(self).staged_frames() <= i
                    < old(self).staged_frames() + copied {
                    planes@[c]@[offset + i - old(self).staged_frames()]
                } else {
                    old(self).staging()[c]@[i]
                },
    {
        let left = planes[0].len() - offset;
        let room = self.desired - self.in_len;
        let copy = if left < room {
            left
        } else {
            room
        };
        let start = self.in_len;
        let mut c: usize = 0;
        while c < self.n_channels
            invariant
                c <= self.n_channels,
                self.same_counts(old(self)),
                self.out == old(self).out,
                old(self).wf(),
                start == self.in_len,
                start + copy <= self.desired <= self.capacity,
                planes_aligned(planes@, self.n_channels as nat),
                offset + copy <= planes@[0]@.len(),
                offset + copy <= usize::MAX,
                self.in_buf@.len() == self.n_channels,
                forall|k: int| 0 <= k < self.n_channels ==> (#[trigger] self.in_buf@[k])@.len() == self.capacity,
                forall|k: int, i: int|
                    0 <= k < c && 0 <= i < self.capacity ==> #[trigger] self.in_buf@[k]@[i] == if start <= i
                        < start + copy {
                        planes@[k]@[offset + i - start]
                    } else {
                        old(self).in_buf@[k]@[i]
                    },
                forall|k: int| c <= k < self.n_channels ==> (#[trigger] self.in_buf@[k])@ == old(self).in_buf@[k]@,
            decreases self.n_channels - c,
        {
            let mut i: usize = 0;
            while i < copy
                invariant
                    i <= copy,
                    c < self.n_channels,
                    self.same_counts(old(self)),
                    self.out == old(self).out,
                    start + copy <= self.capacity,
                    old(self).wf(),
                    planes_aligned(planes@, self.n_channels as nat),
                    offset + copy <= planes@[0]@.len(),
                    offset + copy <= planes@[c as int]@.len(),
                    offset + copy <= usize::MAX,
                    self.in_buf@.len() == self.n_channels,
                    forall|k: int|
                        0 <= k < self.n_channels ==> (#[trigger] self.in_buf@[k])@.len() == self.capacity,
                    forall|k: int, j: int|
                        0 <= k < c && 0 <= j < self.capacity ==> #[trigger] self.in_buf@[k]@[j] == if start
                            <= j < start + copy {
                            planes@[k]@[offset + j - start]
                        } else {
                            old(self).in_buf@[k]@[j]
                        },
                    forall|k: int|
                        c < k < self.n_channels ==> (#[trigger] self.in_buf@[k])@ == old(self).in_buf@[k]@,
                    forall|j: int|
                        0 <= j < self.capacity ==> #[trigger] self.in_buf@[c as int]@[j] == if start <= j
                            < start + i {
                            planes@[c as int]@[offset + j - start]
                        } else {
                            old(self).in_buf@[c as int]@[j]
                        },
                decreases copy - i,
            {
                let sample = planes[c][offset + i];
                self.in_buf[c][start + i] = sample;
                i = i + 1;
            }
            c = c + 1;
        }
        self.in_len = start + copy;
        copy
    }

    /// Whether the input chunk holds as many frames as the engine asks for.
    pub fn chunk_ready(&self) -> (ready: bool)
        ensures
            ready == (self.staged_frames() == self.wanted_frames()),
    {
        self.in_len == self.desired
    }

    /// The input chunk, to hand to the engine.
    pub fn chunk(&self) -> (planes: &Vec<Vec<u32>>)
        ensures
            planes@ == self.staging(),
    {
        &self.in_buf
    }

    /// The number of frames that the engine asks for.
    pub fn input_frames_next(&self) -> (n: usize)
        ensures
            n == self.wanted_frames(),
    {
        self.desired
    }

    /// Take the first `produced` frames of `planes`, which the engine put
    /// out for the input chunk, and empty the chunk. `next_frames` is the
    /// number of frames that the engine asks for next.
    ///
    /// Of the output of a session the first frames, as many as the engine
    /// declared as its delay, are dropped; the rest is emitted.
    pub fn absorb(&mut self, planes: &Vec<Vec<u32>>, produced: usize, next_frames: usize)
        requires
            old(self).wf(),
            planes@.len() >= old(self).channels(),
            forall|c: int| 0 <= c < old(self).channels() ==> produced <= (#[trigger] planes@[c])@.len(),
            next_frames <= old(self).capacity(),
        ensures
            final(self).wf(),
            final(self).has_packet() == old(self).has_packet(),
            final(self).same_setup(old(self)),
            final(self).same_staging(old(self)),
            final(self).staged_frames() == 0,
            final(self).wanted_frames() == next_frames,
            final(self).input_frames() == old(self).input_frames(),
            final(self).delay_left() == delay_after(old(self).delay_left(), produced as nat),
            forall|c: int|
                0 <= c < old(self).channels() ==> (#[trigger] final(self).output()[c])@ == old(
                    self,
                ).output()[c]@ + emitted(old(self).delay_left(), planes@[c]@.subrange(0, produced as int)),
    {
        if self.delay_left >= produced {
            self.delay_left = self.delay_left - produced;
            assert forall|c: int| 0 <= c < old(self).channels() implies (#[trigger] self.output()[c])@
                =~= old(self).output()[c]@ + emitted(
                old(self).delay_left(),
                planes@[c]@.subrange(0, produced as int),
            ) by {}
        } else {
            let skip = self.delay_left;
            let mut c: usize = 0;
            while c < self.n_channels
                invariant
                    c <= self.n_channels,
                    self.same_counts(old(self)),
                    self.in_buf == old(self).in_buf,
                    old(self).wf(),
                    skip == self.delay_left,
                    skip < produced,
                    planes@.len() >= self.n_channels,
                    forall|k: int| 0 <= k < self.n_channels ==> produced <= (#[trigger] planes@[k])@.len(),
                    self.out@.len() == self.n_channels,
                    forall|k: int|
                        0 <= k < c ==> (#[trigger] self.out@[k])@ == old(self).out@[k]@ + planes@[k]@.subrange(
                            skip as int,
                            produced as int,
                        ),
                    forall|k: int| c <= k < self.n_channels ==> (#[trigger] self.out@[k])@ == old(self).out@[k]@,
                decreases self.n_channels - c,
            {
                let mut i: usize = skip;
                while i < produced
                    invariant
                        skip <= i <= produced,
                        c < self.n_channels,
                        self.same_counts(old(self)),
                        self.in_buf == old(self).in_buf,
                        planes@.len() >= self.n_channels,
                        produced <= planes@[c as int]@.len(),
                        self.out@.len() == self.n_channels,
                        forall|k: int|
                            0 <= k < c ==> (#[trigger] self.out@[k])@ == old(self).out@[k]@
                                + planes@[k]@.subrange(skip as int, produced as int),
                        forall|k: int|
                            c < k < self.n_channels ==> (#[trigger] self.out@[k])@ == old(self).out@[k]@,
                        self.out@[c as int]@ == old(self).out@[c as int]@ + planes@[c as int]@.subrange(
                            skip as int,
                            i as int,
                        ),
                    decreases produced - i,
                {
                    let sample = planes[c][i];
                    self.out[c].push(sample);
                    i = i + 1;
                    assert(self.out@[c as int]@ =~= old(self).out@[c as int]@ + planes@[c as int]@.subrange(
                        skip as int,
                        i as int,
                    ));
                }
                c = c + 1;
            }
            self.delay_left = 0;
            assert forall|c: int| 0 <= c < old(self).channels() implies (#[trigger] self.output()[c])@ == old(
                self,
            ).output()[c]@ + emitted(old(self).delay_left(), planes@[c]@.subrange(0, produced as int)) by {
                assert(planes@[c]@.subrange(0, produced as int).subrange(skip as int, produced as int)
                    =~= planes@[c]@.subrange(skip as int, produced as int));
            }
        }
        self.desired = next_frames;
        self.in_len = 0;
    }

    /// Set frames `from..to` of the input chunk to zero.
    fn zero_staging(&mut self, from: usize, to: usize)
        requires
            old(self).wf(),
            from <= to <= old(self).capacity(),
        ensures
            final(self).wf(),
            final(self).has_packet() == old(self).has_packet(),
            final(self).same_setup(old(self)),
            final(self).same_output(old(self)),
            final(self).staged_frames() == old(self).staged_frames(),
            final(self).wanted_frames() == old(self).wanted_frames(),
            final(self).delay_left() == old(self).delay_left(),
            final(self).input_frames() == old(self).input_frames(),
            forall|c: int, i: int|
                0 <= c < old(self).channels() && 0 <= i < old(self).capacity()
                    ==> #[trigger] final(self).staging()[c]@[i] == if from <= i < to {
                    0
                } else {
                    old(self).staging()[c]@[i]
                },
    {
        let mut c: usize = 0;
        while c < self.n_channels
            invariant
                c <= self.n_channels,
                self.same_counts(old(self)),
                self.out == old(self).out,
                old(self).wf(),
                from <= to <= self.capacity,
                self.in_buf@.len() == self.n_channels,
                forall|k: int| 0 <= k < self.n_channels ==> (#[trigger] self.in_buf@[k])@.len() == self.capacity,
                forall|k: int, i: int|
                    0 <= k < c && 0 <= i < self.capacity ==> #[trigger] self.in_buf@[k]@[i] == if from <= i
                        < to {
                        0
                    } else {
                        old(self).in_buf@[k]@[i]
                    },
                forall|k: int| c <= k < self.n_channels ==> (#[trigger] self.in_buf@[k])@ == old(self).in_buf@[k]@,
            decreases self.n_channels - c,
        {
            let mut i: usize = from;
            while i < to
                invariant
                    from <= i <= to <= self.capacity,
                    c < self.n_channels,
                    self.same_counts(old(self)),
                    self.out == old(self).out,
                    old(self).wf(),
                    self.in_buf@.len() == self.n_channels,
                    forall|k: int|
                        0 <= k < self.n_channels ==> (#[trigger] self.in_buf@[k])@.len() == self.capacity,
                    forall|k: int, j: int|
                        0 <= k < c && 0 <= j < self.capacity ==> #[trigger] self.in_buf@[k]@[j] == if from
                            <= j < to {
                            0
                        } else {
                            old(self).in_buf@[k]@[j]
                        },
                    forall|k: int|
                        c < k < self.n_channels ==> (#[trigger] self.in_buf@[k])@ == old(self).in_buf@[k]@,
                    forall|j: int|
                        0 <= j < self.capacity ==> #[trigger] self.in_buf@[c as int]@[j] == if from <= j
                            < i {
                            0
                        } else {
                            old(self).in_buf@[c as int]@[j]
                        },
                decreases to - i,
            {
                self.in_buf[c][i] = 0;
                i = i + 1;
            }
            c = c + 1;
        }
    }

    /// Count the `frames` frames of a packet that was staged, and see that
    /// the output is within the limit.
    ///
    /// Fails with `FileTooLarge` where more frames were emitted than fit in
    /// the limit, or where the count of frames leaves the range of `usize`;
    /// the session is then left as it was.
    pub fn end_packet(&mut self, frames: usize) -> (r: Result<(), LoadError>)
        requires
            old(self).wf(),
        ensures
            final(self).wf(),
            final(self).same_setup(old(self)),
            final(self).same_output(old(self)),
            final(self).same_staging(old(self)),
            final(self).staged_frames() == old(self).staged_frames(),
            final(self).wanted_frames() == old(self).wanted_frames(),
            final(self).delay_left() == old(self).delay_left(),
            r is Err <==> old(self).output_frames() > old(self).limit() || old(self).input_frames()
                + frames > usize::MAX,
            r matches Err(e) ==> e matches LoadError::FileTooLarge(m) && m == old(self).max_bytes(),
            r is Err ==> final(self).input_frames() == old(self).input_frames() && final(self).has_packet()
                == old(self).has_packet(),
            r is Ok ==> final(self).input_frames() == old(self).input_frames() + frames,
            r is Ok ==> final(self).has_packet(),
    {
        let max_frames = frame_limit(self.max_bytes, SampleFormat::F32, self.n_channels);
        if self.out[0].len() > max_frames {
            return Err(LoadError::FileTooLarge(self.max_bytes));
        }
        if frames > usize::MAX - self.total_in {
            return Err(LoadError::FileTooLarge(self.max_bytes));
        }
        self.total_in = self.total_in + frames;
        self.counted = true;
        Ok(())
    }

    /// At the end of the stream: where the input chunk holds frames, fill
    /// the rest of it with zeros, and say that the engine has to run on it.
    pub fn pad_tail(&mut self) -> (run: bool)
        requires
            old(self).wf(),
        ensures
            final(self).wf(),
            final(self).has_packet() == old(self).has_packet(),
            final(self).same_setup(old(self)),
            final(self).same_output(old(self)),
            final(self).staged_frames() == old(self).staged_frames(),
            final(self).wanted_frames() == old(self).wanted_frames(),
            final(self).delay_left() == old(self).delay_left(),
            final(self).input_frames() == old(self).input_frames(),
            run == (old(self).staged_frames() > 0),
            forall|c: int, i: int|
                0 <= c < old(self).channels() && 0 <= i < old(self).capacity()
                    ==> #[trigger] final(self).staging()[c]@[i] == if run && old(self).staged_frames() <= i
                    < old(self).wanted_frames() {
                    0
                } else {
                    old(self).staging()[c]@[i]
                },
    {
        if self.in_len > 0 {
            self.zero_staging(self.in_len, self.desired);
            true
        } else {
            false
        }
    }

    /// Fill the frames of the input chunk that the engine asks for with
    /// zeros, to draw from the engine what it still holds.
    pub fn clear_chunk(&mut self)
        requires
            old(self).wf(),
        ensures
            final(self).wf(),
            final(self).has_packet() == old(self).has_packet(),
            final(self).same_setup(old(self)),
            final(self).same_output(old(self)),
            final(self).staged_frames() == old(self).staged_frames(),
            final(self).wanted_frames() == old(self).wanted_frames(),
            final(self).delay_left() == old(self).delay_left(),
            final(self).input_frames() == old(self).input_frames(),
            forall|c: int, i: int|
                0 <= c < old(self).channels() && 0 <= i < old(self).capacity()
                    ==> #[trigger] final(self).staging()[c]@[i] == if i < old(self).wanted_frames() {
                    0
                } else {
                    old(self).staging()[c]@[i]
                },
    {
        self.zero_staging(0, self.desired);
    }

    /// The number of frames of the result: the frames that were counted,
    /// brought to the target rate and rounded up; `usize::MAX` where that
    /// is less.
    pub fn total_frames(&self) -> (n: usize)
        requires
            self.wf(),
        ensures
            n == vstd::math::min(self.target_frames() as int, usize::MAX as int),
    {
        resampled_frames(self.total_in, self.source_rate, self.target_rate)
    }

    /// Whether fewer frames were emitted than the result has: the engine
    /// then has to run on a chunk of zeros.
    pub fn needs_drain(&self) -> (more: bool)
        requires
            self.wf(),
        ensures
            more == (self.output_frames() < vstd::math::min(self.target_frames() as int, usize::MAX as int)),
    {
        self.out[0].len() < self.total_frames()
    }

    /// The number of frames of the result, as far as it fits in `usize`.
    pub open spec fn result_frames(&self) -> nat {
        vstd::math::min(self.target_frames() as int, usize::MAX as int) as nat
    }

    /// End the session: what was emitted, cut to the length of the result,
    /// or filled up to it with zeros, at the target rate.
    ///
    /// Fails with `UnexpectedErrorWhileDecoding` where no packet was
    /// counted, and with `FileTooLarge` where the result has more frames
    /// than fit in the limit.
    pub fn finish(self) -> (r: Result<DecodedAudioF32, LoadError>)
        requires
            self.wf(),
        ensures
            r is Ok <==> self.has_packet() && self.result_frames() <= self.limit(),
            r matches Err(e) ==> if !self.has_packet() {
                e matches LoadError::UnexpectedErrorWhileDecoding(UnexpectedDecode::NoPacketFound)
            } else {
                e matches LoadError::FileTooLarge(m) && m == self.max_bytes()
            },
            r matches Ok(audio) ==> {
                &&& audio.wf()
                &&& audio.sample_rate == self.target_rate()
                &&& audio.spec_channels() == self.channels()
                &&& audio.spec_frames() == self.result_frames()
                &&& audio.spec_frames() * (4 * self.channels()) <= self.max_bytes()
                &&& forall|c: int, i: int|
                    0 <= c < self.channels() && 0 <= i < audio.spec_frames()
                        ==> #[trigger] audio.data@[c]@[i] == if i < self.output_frames() {
                        self.output()[c]@[i]
                    } else {
                        0
                    }
            },
    {
        if !self.counted {
            return Err(LoadError::UnexpectedErrorWhileDecoding(UnexpectedDecode::NoPacketFound));
        }
        let total = self.total_frames();
        if total > frame_limit(self.max_bytes, SampleFormat::F32, self.n_channels) {
            return Err(LoadError::FileTooLarge(self.max_bytes));
        }
        proof {
            lemma_frames_within_bytes(
                total as nat,
                self.max_bytes as nat,
                SampleFormat::F32,
                self.n_channels as nat,
            );
        }
        let n = self.n_channels;
        let rate = self.target_rate;
        let mut data = self.out;
        let mut c: usize = 0;
        while c < n
            invariant
                c <= n,
                n == self.n_channels,
                self.wf(),
                data@.len() == n,
                forall|k: int| 0 <= k < c ==> (#[trigger] data@[k])@.len() == total,
                forall|k: int, i: int|
                    0 <= k < c && 0 <= i < total ==> #[trigger] data@[k]@[i] == if i < self.output_frames() {
                        self.out@[k]@[i]
                    } else {
                        0
                    },
                forall|k: int| c <= k < n ==> (#[trigger] data@[k])@ == self.out@[k]@,
            decreases n - c,
        {
            data[c].resize(total, 0);
            c = c + 1;
        }
        shrink_buffer(&mut data);
        Ok(DecodedAudioF32::new(data, rate))
    }
}

/// The chunks one after the other.
pub open spec fn joined(chunks: Seq<Seq<u32>>) -> Seq<u32>
    decreases chunks.len(),
{
    if chunks.len() == 0 {
        Seq::empty()
    } else {
        chunks[0] + joined(chunks.drop_first())
    }
}

/// What a session emits of the chunks that the engine puts out one after
/// the other, while `delay` frames are to be dropped at the start.
pub open spec fn emitted_of_all(delay: nat, chunks: Seq<Seq<u32>>) -> Seq<u32>
    decreases chunks.len(),
{
    if chunks.len() == 0 {
        Seq::empty()
    } else {
        emitted(delay, chunks[0]) + emitted_of_all(
            delay_after(delay, chunks[0].len()),
            chunks.drop_first(),
        )
    }
}

/// Whatever the sizes of the chunks in which the engine puts out its
/// frames, a session drops the first `delay` frames of all that the engine
/// puts out and emits every frame after them, in order: the first frame that
/// is emitted is the first one that belongs to the signal.
pub proof fn lemma_delay_is_dropped_once(delay: nat, chunks: Seq<Seq<u32>>)
    ensures
        emitted_of_all(delay, chunks) == emitted(delay, joined(chunks)),
    decreases chunks.len(),
{
    if chunks.len() == 0 {
    } else {
        let first = chunks[0];
        let rest = chunks.drop_first();
        lemma_delay_is_dropped_once(delay_after(delay, first.len()), rest);
        assert(emitted(delay, first) + emitted(delay_after(delay, first.len()), joined(rest)) =~= emitted(
            delay,
            first + joined(rest),
        ));
    }
}

/// The number of frames of a result is the number of frames of the stream
/// times the ratio of the rates, rounded up: the least `n` with
/// `n * source_rate >= frames * target_rate`.
pub proof fn lemma_resampled_frames_is_ceiling(frames: nat, source_rate: nat, target_rate: nat)
    requires
        source_rate > 0,
    ensures
        spec_resampled_frames(frames, source_rate, target_rate) * source_rate >= frames * target_rate,
        spec_resampled_frames(frames, source_rate, target_rate) * source_rate < frames * target_rate
            + source_rate,
{
    let total = frames * target_rate + source_rate - 1;
    let n = spec_resampled_frames(frames, source_rate, target_rate);
    vstd::arithmetic::div_mod::lemma_fundamental_div_mod(total as int, source_rate as int);
    assert(n * source_rate == source_rate * (total / source_rate as int)) by (nonlinear_arith)
        requires
            n == total / source_rate as int,
    ;
}

} // verus!
