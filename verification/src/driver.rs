//! The order of the steps of a sample-rate conversion.
//!
//! A [`ResampleDriver`] says what has to happen next: a packet has to be
//! read, the engine has to run, or the result can be taken. Whoever holds
//! the stream and the engine does that and tells the driver what came of
//! it.

use vstd::prelude::*;

use crate::error::{LoadError, UnexpectedDecode};
use crate::packet::planes_aligned;
use crate::resample::{delay_after, emitted, EngineInfo, ResampleSession};
use crate::resource::DecodedAudioF32;

verus! {

/// What has to happen next in a conversion.
#[derive(Clone, Copy, Debug, PartialEq, Eq, Structural)]
pub enum Action {
    /// The next packet of the stream has to be decoded and handed over with
    /// [`ResampleDriver::on_packet`], or the end of the stream told with
    /// [`ResampleDriver::on_end_of_stream`].
    Read,
    /// The engine has to run on [`ResampleDriver::chunk`], and what it put
    /// out handed over with [`ResampleDriver::on_output`].
    Run,
    /// The conversion is over: [`ResampleDriver::finish`] gives the result.
    Finish,
}

/// Where a conversion stands.
#[derive(Clone, Copy, Debug, PartialEq, Eq, Structural)]
pub enum Phase {
    /// Between two packets.
    Reading,
    /// In a packet: the input chunk is full, and frames of the packet may be
    /// left.
    InPacket,
    /// After the last packet: the input chunk holds the last frames of the
    /// stream, filled up with zeros.
    Flushing,
    /// After the last frames of the stream: the input chunk holds zeros, to
    /// draw from the engine what it still holds.
    Draining,
    /// The output has the length of the result.
    Done,
}

/// The number of frames that go from `left` frames of a packet into the
/// input chunk: as many as are left and fit.
pub open spec fn frames_taken(session: ResampleSession, left: nat) -> nat {
    vstd::math::min(left as int, session.wanted_frames() - session.staged_frames()) as nat
}

/// Whether `left` frames of a packet fill the input chunk.
pub open spec fn fills_chunk(session: ResampleSession, left: nat) -> bool {
    left > 0 && session.staged_frames() + frames_taken(session, left) == session.wanted_frames()
}

/// Whether a packet of `frames` frames cannot be counted: more frames were
/// emitted than fit in the limit, or the count leaves the range of `usize`.
pub open spec fn over_budget(session: ResampleSession, frames: nat) -> bool {
    session.output_frames() > session.limit() || session.input_frames() + frames > usize::MAX
}

/// Whether fewer frames were emitted than the result has.
pub open spec fn output_is_short(session: ResampleSession) -> bool {
    session.output_frames() < vstd::math::min(session.target_frames() as int, usize::MAX as int)
}

/// The phase after the last frames of the stream went to the engine.
pub open spec fn phase_at_end(session: ResampleSession) -> Phase {
    if output_is_short(session) {
        Phase::Draining
    } else {
        Phase::Done
    }
}

/// A conversion of a stream to another sample rate, step by step.
pub struct ResampleDriver {
    session: ResampleSession,
    phase: Phase,
    pending: Vec<Vec<u32>>,
    offset: usize,
}

impl ResampleDriver {
    /// The buffers and counters of the conversion.
    pub closed spec fn session(&self) -> ResampleSession {
        self.session
    }

    /// Where the conversion stands.
    pub closed spec fn phase(&self) -> Phase {
        self.phase
    }

    /// The packet that is being staged.
    pub closed spec fn pending(&self) -> Seq<Vec<u32>> {
        self.pending@
    }

    /// The number of frames of the pending packet that were staged.
    pub closed spec fn offset(&self) -> nat {
        self.offset as nat
    }

    /// What has to happen next, by phase.
    pub open spec fn spec_action(&self) -> Action {
        match self.phase() {
            Phase::Reading => Action::Read,
            Phase::InPacket | Phase::Flushing | Phase::Draining => Action::Run,
            Phase::Done => Action::Finish,
        }
    }

    /// What holds of a driver between calls.
    pub open spec fn wf(&self) -> bool {
        &&& self.session().wf()
        &&& self.phase() == Phase::InPacket ==> {
            &&& planes_aligned(self.pending(), self.session().channels())
            &&& self.offset() <= self.pending()[0]@.len()
        }
        &&& self.phase() == Phase::Done ==> !output_is_short(self.session())
    }

    /// Begin a conversion: [`ResampleSession::begin`]. The first step is to
    /// read a packet.
    pub fn begin(
        n_channels: usize,
        source_rate: u32,
        target_rate: u32,
        file_frames: Option<u64>,
        max_bytes: usize,
        engine: EngineInfo,
    ) -> (r: Result<ResampleDriver, LoadError>)
        requires
            n_channels > 0,
            source_rate > 0,
            engine.input_frames_next <= engine.input_frames_max,
        ensures
            r is Err <==> engine.channels != n_channels || (file_frames.is_some() && file_frames.unwrap()
                > crate::decode::spec_frame_limit(
                max_bytes as nat,
                crate::format::SampleFormat::F32,
                n_channels as nat,
            )),
            r matches Err(e) ==> if engine.channels != n_channels {
                e matches LoadError::InvalidResampler { needed_channels, got_channels } && needed_channels
                    == n_channels && got_channels == engine.channels
            } else {
                e matches LoadError::FileTooLarge(m) && m == max_bytes
            },
            r matches Ok(d) ==> {
                &&& d.wf()
                &&& d.phase() == Phase::Reading
                &&& d.session().channels() == n_channels
                &&& d.session().source_rate() == source_rate
                &&& d.session().target_rate() == target_rate
                &&& d.session().declared_frames() == file_frames
                &&& d.session().max_bytes() == max_bytes
                &&& d.session().capacity() == engine.input_frames_max
                &&& d.session().staged_frames() == 0
                &&& d.session().wanted_frames() == engine.input_frames_next
                &&& d.session().delay_left() == engine.output_delay
                &&& d.session().input_frames() == 0
                &&& !d.session().has_packet()
                &&& d.session().output_frames() == 0
                &&& forall|c: int, i: int|
                    0 <= c < n_channels && 0 <= i < engine.input_frames_max
                        ==> #[trigger] d.session().staging()[c]@[i] == 0
            },
    {
        match ResampleSession::begin(n_channels, source_rate, target_rate, file_frames, max_bytes, engine) {
            Ok(session) => Ok(
                ResampleDriver { session, phase: Phase::Reading, pending: Vec::new(), offset: 0 },
            ),
            Err(e) => Err(e),
        }
    }

    /// What has to happen next.
    pub fn action(&self) -> (action: Action)
        ensures
            action == self.spec_action(),
    {
        match self.phase {
            Phase::Reading => Action::Read,
            Phase::InPacket | Phase::Flushing | Phase::Draining => Action::Run,
            Phase::Done => Action::Finish,
        }
    }

    /// The input chunk, to hand to the engine.
    pub fn chunk(&self) -> (planes: &Vec<Vec<u32>>)
        ensures
            planes@ == self.session().staging(),
    {
        self.session.chunk()
    }

    /// Stage what is left of the pending packet. Where that fills the input
    /// chunk, the engine has to run; else the packet is done and counted.
    fn advance(&mut self) -> (r: Result<(), LoadError>)
        requires
            old(self).session().wf(),
            planes_aligned(old(self).pending(), old(self).session().channels()),
            old(self).offset() <= old(self).pending()[0]@.len(),
        ensures
            final(self).session().wf(),
            final(self).session().same_setup(&old(self).session()),
            final(self).session().same_output(&old(self).session()),
            final(self).session().wanted_frames() == old(self).session().wanted_frames(),
            final(self).session().delay_left() == old(self).session().delay_left(),
            final(self).pending() == old(self).pending(),
            final(self).session().staged_frames() == old(self).session().staged_frames() + frames_taken(
                old(self).session(),
                (old(self).pending()[0]@.len() - old(self).offset()) as nat,
            ),
            final(self).offset() == old(self).offset() + frames_taken(
                old(self).session(),
                (old(self).pending()[0]@.len() - old(self).offset()) as nat,
            ),
            forall|c: int, i: int|
                0 <= c < old(self).session().channels() && 0 <= i < old(self).session().capacity()
                    ==> #[trigger] final(self).session().staging()[c]@[i] == if old(
                    self,
                ).session().staged_frames() <= i < final(self).session().staged_frames() {
                    old(self).pending()[c]@[old(self).offset() + i - old(self).session().staged_frames()]
                } else {
                    old(self).session().staging()[c]@[i]
                },
            final(self).session().has_packet() == (old(self).session().has_packet() || (r is Ok
                && !fills_chunk(
                old(self).session(),
                (old(self).pending()[0]@.len() - old(self).offset()) as nat,
            ))),
            fills_chunk(old(self).session(), (old(self).pending()[0]@.len() - old(self).offset()) as nat) ==> {
                &&& r is Ok
                &&& final(self).phase() == Phase::InPacket
                &&& final(self).session().input_frames() == old(self).session().input_frames()
            },
            !fills_chunk(old(self).session(), (old(self).pending()[0]@.len() - old(self).offset()) as nat)
                ==> {
                &&& r is Err <==> over_budget(old(self).session(), old(self).pending()[0]@.len())
                &&& r matches Err(e) ==> e matches LoadError::FileTooLarge(m) && m == old(
                    self,
                ).session().max_bytes()
                &&& r is Ok ==> final(self).phase() == Phase::Reading
                    && final(self).session().input_frames() == old(self).session().input_frames() + old(
                    self,
                ).pending()[0]@.len()
                &&& r is Err ==> final(self).phase() == old(self).phase()
                    && final(self).session().input_frames() == old(self).session().input_frames()
            },
    {
        let frames = self.pending[0].len();
        if self.offset < frames {
            let copied = self.session.stage(&self.pending, self.offset);
            self.offset = self.offset + copied;
            if self.session.chunk_ready() {
                self.phase = Phase::InPacket;
                return Ok(());
            }
        }
        match self.session.end_packet(frames) {
            Ok(()) => {
                self.phase = Phase::Reading;
                Ok(())
            },
            Err(e) => Err(e),
        }
    }

    /// After the last frames of the stream went to the engine: where the
    /// output is still short, set the input chunk to zeros for the engine to
    /// run on; else the conversion is over.
    fn settle(&mut self)
        requires
            old(self).session().wf(),
        ensures
            final(self).session().wf(),
            final(self).session().same_setup(&old(self).session()),
            final(self).session().same_output(&old(self).session()),
            final(self).session().staged_frames() == old(self).session().staged_frames(),
            final(self).session().wanted_frames() == old(self).session().wanted_frames(),
            final(self).session().delay_left() == old(self).session().delay_left(),
            final(self).session().input_frames() == old(self).session().input_frames(),
            final(self).session().has_packet() == old(self).session().has_packet(),
            final(self).phase() == phase_at_end(old(self).session()),
            final(self).phase() == phase_at_end(final(self).session()),
            forall|c: int, i: int|
                0 <= c < old(self).session().channels() && 0 <= i < old(self).session().capacity()
                    ==> #[trigger] final(self).session().staging()[c]@[i] == if output_is_short(
                    old(self).session(),
                ) && i < old(self).session().wanted_frames() {
                    0
                } else {
                    old(self).session().staging()[c]@[i]
                },
    {
        if self.session.needs_drain() {
            self.session.clear_chunk();
            self.phase = Phase::Draining;
        } else {
            self.phase = Phase::Done;
        }
    }

    /// Take a decoded packet, as binary32 bit patterns, one plane per
    /// channel.
    ///
    /// The first frames of the packet go into the input chunk. Where they
    /// fill it, the engine has to run next. Else the packet is done: its
    /// frames are counted and the next packet has to be read; or the load
    /// fails with `FileTooLarge`, because more frames were emitted than fit
    /// in the limit.
    pub fn on_packet(&mut self, planes: Vec<Vec<u32>>) -> (r: Result<(), LoadError>)
        requires
            old(self).wf(),
            old(self).spec_action() == Action::Read,
            planes_aligned(planes@, old(self).session().channels()),
        ensures
            final(self).wf(),
            final(self).session().same_setup(&old(self).session()),
            final(self).session().same_output(&old(self).session()),
            final(self).session().wanted_frames() == old(self).session().wanted_frames(),
            final(self).session().delay_left() == old(self).session().delay_left(),
            final(self).session().staged_frames() == old(self).session().staged_frames() + frames_taken(
                old(self).session(),
                planes@[0]@.len(),
            ),
            forall|c: int, i: int|
                0 <= c < old(self).session().channels() && 0 <= i < old(self).session().capacity()
                    ==> #[trigger] final(self).session().staging()[c]@[i] == if old(
                    self,
                ).session().staged_frames() <= i < final(self).session().staged_frames() {
                    planes@[c]@[i - old(self).session().staged_frames()]
                } else {
                    old(self).session().staging()[c]@[i]
                },
            final(self).session().has_packet() == (old(self).session().has_packet() || (r is Ok
                && !fills_chunk(old(self).session(), planes@[0]@.len()))),
            fills_chunk(old(self).session(), planes@[0]@.len()) ==> {
                &&& r is Ok
                &&& final(self).phase() == Phase::InPacket
                &&& final(self).pending() == planes@
                &&& final(self).offset() == frames_taken(old(self).session(), planes@[0]@.len())
                &&& final(self).session().input_frames() == old(self).session().input_frames()
            },
            !fills_chunk(old(self).session(), planes@[0]@.len()) ==> {
                &&& r is Err <==> over_budget(old(self).session(), planes@[0]@.len())
                &&& r matches Err(e) ==> e matches LoadError::FileTooLarge(m) && m == old(
                    self,
                ).session().max_bytes()
                &&& final(self).phase() == Phase::Reading
                &&& r is Ok ==> final(self).session().input_frames() == old(self).session().input_frames()
                    + planes@[0]@.len()
                &&& r is Err ==> final(self).session().input_frames() == old(self).session().input_frames()
            },
    {
        self.pending = planes;
        self.offset = 0;
        self.advance()
    }

    /// Take the first `produced` frames of `planes`, which the engine put
    /// out for the input chunk. `next_frames` is the number of frames that
    /// the engine asks for next.
    ///
    /// Of the output the frames that the delay of the engine covers are
    /// dropped, the others are emitted. Then the conversion goes on: in a
    /// packet, with the frames that are left of it, as in
    /// [`ResampleDriver::on_packet`]; after the stream, with a chunk of
    /// zeros while the output is shorter than the result.
    pub fn on_output(&mut self, planes: &Vec<Vec<u32>>, produced: usize, next_frames: usize) -> (r:
        Result<(), LoadError>)
        requires
            old(self).wf(),
            old(self).spec_action() == Action::Run,
            planes@.len() >= old(self).session().channels(),
            forall|c: int|
                0 <= c < old(self).session().channels() ==> produced <= (#[trigger] planes@[c])@.len(),
            next_frames <= old(self).session().capacity(),
        ensures
            final(self).wf(),
            final(self).session().same_setup(&old(self).session()),
            final(self).session().wanted_frames() == next_frames,
            final(self).session().delay_left() == delay_after(
                old(self).session().delay_left(),
                produced as nat,
            ),
            forall|c: int|
                0 <= c < old(self).session().channels() ==> (#[trigger] final(self).session().output()[c])@
                    == old(self).session().output()[c]@ + emitted(
                    old(self).session().delay_left(),
                    planes@[c]@.subrange(0, produced as int),
                ),
            old(self).phase() != Phase::InPacket ==> {
                &&& r is Ok
                &&& final(self).phase() == phase_at_end(final(self).session())
                &&& final(self).session().has_packet() == old(self).session().has_packet()
                &&& final(self).session().staged_frames() == 0
                &&& final(self).session().input_frames() == old(self).session().input_frames()
                &&& forall|c: int, i: int|
                    0 <= c < old(self).session().channels() && 0 <= i < old(self).session().capacity()
                        ==> #[trigger] final(self).session().staging()[c]@[i] == if final(self).phase()
                        == Phase::Draining && i < next_frames {
                        0
                    } else {
                        old(self).session().staging()[c]@[i]
                    }
            },
            old(self).phase() == Phase::InPacket ==> {
                let left = (old(self).pending()[0]@.len() - old(self).offset()) as nat;
                let taken = vstd::math::min(left as int, next_frames as int);
                &&& final(self).pending() == old(self).pending()
                &&& final(self).offset() == old(self).offset() + taken
                &&& final(self).session().has_packet() == (old(self).session().has_packet() || (r is Ok
                    && !(left > 0 && taken == next_frames)))
                &&& final(self).session().staged_frames() == taken
                &&& forall|c: int, i: int|
                    0 <= c < old(self).session().channels() && 0 <= i < old(self).session().capacity()
                        ==> #[trigger] final(self).session().staging()[c]@[i] == if i < taken {
                        old(self).pending()[c]@[old(self).offset() + i]
                    } else {
                        old(self).session().staging()[c]@[i]
                    }
                &&& left > 0 && taken == next_frames ==> r is Ok && final(self).phase() == Phase::InPacket
                    && final(self).session().input_frames() == old(self).session().input_frames()
                &&& !(left > 0 && taken == next_frames) ==> {
                    &&& r is Err <==> over_budget(final(self).session(), old(self).pending()[0]@.len())
                        && final(self).session().input_frames() == old(self).session().input_frames()
                    &&& r matches Err(e) ==> e matches LoadError::FileTooLarge(m) && m == old(
                        self,
                    ).session().max_bytes()
                    &&& r is Ok ==> final(self).phase() == Phase::Reading
                        && final(self).session().input_frames() == old(self).session().input_frames() + old(
                        self,
                    ).pending()[0]@.len()
                }
            },
    {
        self.session.absorb(planes, produced, next_frames);
        match self.phase {
            Phase::InPacket => self.advance(),
            _ => {
                self.settle();
                Ok(())
            },
        }
    }

    /// Take note that the stream has ended.
    ///
    /// Where the input chunk holds frames, the rest of it is filled with
    /// zeros and the engine has to run on it. Else the conversion goes on
    /// with a chunk of zeros while the output is shorter than the result.
    pub fn on_end_of_stream(&mut self)
        requires
            old(self).wf(),
            old(self).spec_action() == Action::Read,
        ensures
            final(self).wf(),
            final(self).session().same_setup(&old(self).session()),
            final(self).session().same_output(&old(self).session()),
            final(self).session().staged_frames() == old(self).session().staged_frames(),
            final(self).session().wanted_frames() == old(self).session().wanted_frames(),
            final(self).session().delay_left() == old(self).session().delay_left(),
            final(self).session().input_frames() == old(self).session().input_frames(),
            final(self).session().has_packet() == old(self).session().has_packet(),
            final(self).phase() == if old(self).session().staged_frames() > 0 {
                Phase::Flushing
            } else {
                phase_at_end(old(self).session())
            },
            forall|c: int, i: int|
                0 <= c < old(self).session().channels() && 0 <= i < old(self).session().capacity()
                    ==> #[trigger] final(self).session().staging()[c]@[i] == if final(self).phase()
                    != Phase::Done && old(self).session().staged_frames() <= i < old(
                    self,
                ).session().wanted_frames() {
                    0
                } else {
                    old(self).session().staging()[c]@[i]
                },
    {
        if self.session.pad_tail() {
            self.phase = Phase::Flushing;
        } else {
            self.settle();
        }
    }

    /// The result of the conversion: what was emitted, cut to the number of
    /// frames of the stream times the ratio of the rates, rounded up.
    ///
    /// Fails with `UnexpectedErrorWhileDecoding` where no packet was
    /// counted, and with `FileTooLarge` where the result has more frames
    /// than fit in the limit.
    pub fn finish(self) -> (r: Result<DecodedAudioF32, LoadError>)
        requires
            self.wf(),
            self.spec_action() == Action::Finish,
        ensures
            r is Ok <==> self.session().has_packet() && self.session().result_frames()
                <= self.session().limit(),
            r matches Err(e) ==> if !self.session().has_packet() {
                e matches LoadError::UnexpectedErrorWhileDecoding(UnexpectedDecode::NoPacketFound)
            } else {
                e matches LoadError::FileTooLarge(m) && m == self.session().max_bytes()
            },
            r matches Ok(audio) ==> {
                &&& audio.wf()
                &&& audio.sample_rate == self.session().target_rate()
                &&& audio.spec_channels() == self.session().channels()
                &&& audio.spec_frames() == self.session().result_frames()
                &&& audio.spec_frames() * (4 * self.session().channels()) <= self.session().max_bytes()
                &&& forall|c: int|
                    0 <= c < self.session().channels() ==> (#[trigger] audio.data@[c])@
                        == self.session().output()[c]@.subrange(0, audio.spec_frames() as int)
            },
    {
        match self.session.finish() {
            Ok(audio) => {
                assert forall|c: int| 0 <= c < self.session().channels() implies (#[trigger] audio.data@[c])@
                    =~= self.session().output()[c]@.subrange(0, audio.spec_frames() as int) by {
                    assert(audio.data@[c]@.len() == audio.spec_frames());
                }
                Ok(audio)
            },
            Err(e) => Err(e),
        }
    }
}

} // verus!
