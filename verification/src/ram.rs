//! A resource under the name of what it is to a player: PCM samples held in
//! memory.

use vstd::prelude::*;

use crate::resource::{copied_frames, DecodedAudio, DecodedAudioType};

verus! {

/// A resource of PCM samples held in memory: [`DecodedAudio`].
pub type PcmRAM = DecodedAudio;

/// The samples of a [`PcmRAM`]: [`DecodedAudioType`].
pub type PcmRAMType = DecodedAudioType;

impl PcmRAM {
    /// The length of this resource in frames: [`DecodedAudio::frames`].
    pub fn len_frames(&self) -> (n: usize)
        ensures
            n == self.spec_frames(),
    {
        self.frames()
    }

    /// Fill the buffer with samples from the given `channel`, starting from
    /// the given `frame`: [`DecodedAudio::fill_channel`].
    pub fn fill_channel_f32(&self, channel: usize, frame: usize, buf: &mut [u32]) -> (r: Result<
        usize,
        (),
    >)
        ensures
            final(buf)@.len() == old(buf)@.len(),
            channel >= self.spec_channels() ==> r.is_err() && final(buf)@ == old(buf)@,
            channel < self.spec_channels() ==> r == Ok::<usize, ()>(
                copied_frames(self.spec_frames(), frame as nat, old(buf)@.len()) as usize,
            ),
            channel < self.spec_channels() ==> forall|i: int|
                0 <= i < old(buf)@.len() ==> #[trigger] final(buf)@[i]
                    == self.resource().sample_or_silence(self.least_first(), channel as int, frame + i),
    {
        self.fill_channel(channel, frame, buf)
    }

    /// Fill the stereo buffer with samples, starting from the given `frame`:
    /// [`DecodedAudio::fill_stereo`].
    pub fn fill_stereo_f32(&self, frame: usize, buf_l: &mut [u32], buf_r: &mut [u32]) -> (copied: usize)
        requires
            self.spec_channels() == 1 ==> old(buf_l)@.len() == old(buf_r)@.len(),
        ensures
            final(buf_l)@.len() == old(buf_l)@.len(),
            final(buf_r)@.len() == old(buf_r)@.len(),
            copied == copied_frames(
                self.spec_frames(),
                frame as nat,
                vstd::math::min(old(buf_l)@.len() as int, old(buf_r)@.len() as int) as nat,
            ),
            self.spec_channels() == 1 ==> final(buf_l)@ == final(buf_r)@ && forall|i: int|
                0 <= i < old(buf_l)@.len() ==> #[trigger] final(buf_l)@[i]
                    == self.resource().sample_or_silence(self.least_first(), 0, frame + i),
            self.spec_channels() != 1 ==> forall|i: int|
                0 <= i < old(buf_l)@.len() ==> #[trigger] final(buf_l)@[i] == self.stereo_side(
                    0,
                    frame as nat,
                    vstd::math::min(old(buf_l)@.len() as int, old(buf_r)@.len() as int) as nat,
                    old(buf_l)@,
                    i,
                ),
            self.spec_channels() != 1 ==> forall|i: int|
                0 <= i < old(buf_r)@.len() ==> #[trigger] final(buf_r)@[i] == self.stereo_side(
                    1,
                    frame as nat,
                    vstd::math::min(old(buf_l)@.len() as int, old(buf_r)@.len() as int) as nat,
                    old(buf_r)@,
                    i,
                ),
    {
        self.fill_stereo(frame, buf_l, buf_r)
    }

    /// Consume this resource and return the samples:
    /// [`DecodedAudio::into_raw`].
    pub fn to_raw(self) -> (r: PcmRAMType)
        ensures
            r == self.resource(),
            r.wf(),
    {
        self.into_raw()
    }
}

} // verus!
