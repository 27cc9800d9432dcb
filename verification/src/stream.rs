//! The stream as the demuxer and the codec present it: the track, its
//! packets, and what each packet decodes to.

use vstd::prelude::*;

use crate::decode::{decode_warning, is_decode_failure, Accumulator};
use crate::error::LoadError;
use crate::format::SampleFormat;
use crate::packet::DecodedPacket;
use crate::resource::DecodedAudio;
use crate::DEFAULT_MAX_BYTES;

verus! {

/// `symphonia::core::probe::ProbeResult`, carried as it is.
#[verifier::external_type_specification]
#[verifier::external_body]
pub struct ExProbeResult(symphonia::core::probe::ProbeResult);

/// `symphonia::core::codecs::CodecRegistry`, carried as it is.
#[verifier::external_type_specification]
#[verifier::external_body]
pub struct ExCodecRegistry(symphonia::core::codecs::CodecRegistry);

/// `symphonia::core::formats::Packet`, carried as it is.
#[verifier::external_type_specification]
#[verifier::external_body]
pub struct ExPacket(symphonia::core::formats::Packet);

/// `symphonia::core::formats::Track`, carried as it is.
#[verifier::external_type_specification]
#[verifier::external_body]
pub struct ExTrack(symphonia::core::formats::Track);

/// `symphonia::core::audio::AudioBufferRef`, carried as it is.
#[verifier::external_type_specification]
#[verifier::external_body]
pub struct ExAudioBufferRef<'a>(symphonia::core::audio::AudioBufferRef<'a>);

/// The decoder of a track: a `Box<dyn symphonia::core::codecs::Decoder>`.
///
/// A trait object of a trait from outside cannot be declared as a type of
/// its own, so the box is held in a struct that is not looked into.
#[verifier::external_body]
pub struct TrackDecoder {
    inner: Box<dyn symphonia::core::codecs::Decoder>,
}

/// What the demuxer says of a track.
#[derive(Clone, Copy, Debug)]
pub struct TrackInfo {
    /// The identifier that the packets of the track carry.
    pub id: u32,
    /// The number of frames of the track, where the stream declares it.
    pub n_frames: Option<u64>,
    /// The sample rate, where the stream declares it.
    pub sample_rate: Option<u32>,
    /// The number of channels, where the stream declares it.
    pub channels: Option<usize>,
}

/// The sample rate that is taken where the stream declares none.
pub const ASSUMED_SAMPLE_RATE: u32 = 44100;

/// The track that the reader of a probed stream holds for the default one,
/// if the stream has a track: what `FormatReader::default_track` gives.
pub uninterp spec fn stream_track(probed: symphonia::core::probe::ProbeResult) -> Option<
    symphonia::core::formats::Track,
>;

/// What a track declares of itself: its identifier and, from its codec
/// parameters, the number of frames, the sample rate and the number of
/// channels.
pub uninterp spec fn track_declares(track: symphonia::core::formats::Track) -> TrackInfo;

/// The message of an error after which decoding can go on, which is
/// `Error::DecodeError` alone; `None` for every other error.
pub uninterp spec fn recoverable_text(err: symphonia::core::errors::Error) -> Option<Seq<char>>;

/// The identifier of the track that a packet belongs to: what
/// `Packet::track_id` gives for it.
pub uninterp spec fn packet_track(packet: symphonia::core::formats::Packet) -> u32;

/// The encoding of the samples that a decoded buffer holds: the variant of
/// the buffer.
pub uninterp spec fn buffer_encoding(buffer: symphonia::core::audio::AudioBufferRef<'_>) -> SampleFormat;

/// The samples that a decoded buffer holds, plane by plane, one plane for
/// each channel of the signal of the buffer and each plane what
/// `Signal::chan` gives for the channel. Each sample stands as an integer:
/// the value of an integer sample, the bit pattern of a floating-point one;
/// for 24 bits the three bytes that `to_ne_bytes` gives, taken as a number
/// with the first byte as the lowest.
pub uninterp spec fn buffer_samples(buffer: symphonia::core::audio::AudioBufferRef<'_>) -> Seq<Seq<int>>;

/// `FormatReader::default_track` on the reader of `probed`: the track that
/// the reader holds for the default one, or `None` where the stream has no
/// track.
///
/// Taken on trust: the result is the default track of the stream.
#[verifier::external_body]
fn default_track<'a>(probed: &'a symphonia::core::probe::ProbeResult) -> (track: Option<
    &'a symphonia::core::formats::Track,
>)
    ensures
        track.is_some() <==> stream_track(*probed).is_some(),
        track matches Some(found) ==> *found == stream_track(*probed).unwrap(),
{
    probed.format.default_track()
}

/// The fields of a track and of its codec parameters that the loader reads;
/// the channels are counted with `Channels::count`.
///
/// Taken on trust: the result is what the track declares.
#[verifier::external_body]
fn track_info(track: &symphonia::core::formats::Track) -> (info: TrackInfo)
    ensures
        info == track_declares(*track),
{
    TrackInfo {
        id: track.id,
        n_frames: track.codec_params.n_frames,
        sample_rate: track.codec_params.sample_rate,
        channels: track.codec_params.channels.map(|channels| channels.count()),
    }
}

/// `CodecRegistry::make` for the codec parameters of the track, with the
/// default decoder options: a decoder, or the error for a codec that the
/// registry does not know or that refuses the parameters.
#[verifier::external_body]
fn make_decoder(
    codec_registry: &symphonia::core::codecs::CodecRegistry,
    track: &symphonia::core::formats::Track,
) -> (r: Result<TrackDecoder, symphonia::core::errors::Error>) {
    codec_registry.make(&track.codec_params, &Default::default()).map(|inner| TrackDecoder { inner })
}

/// `FormatReader::next_packet` on the reader of `probed`: the next packet of
/// the stream, or the error that ended it.
#[verifier::external_body]
fn next_packet(probed: &mut symphonia::core::probe::ProbeResult) -> (r: Result<
    symphonia::core::formats::Packet,
    symphonia::core::errors::Error,
>) {
    probed.format.next_packet()
}

/// `Packet::track_id`: the identifier of the track that the packet belongs
/// to, which is a field of the packet.
///
/// Taken on trust: the result is the track of the packet.
#[verifier::external_body]
fn packet_track_id(packet: &symphonia::core::formats::Packet) -> (id: u32)
    ensures
        id == packet_track(*packet),
{
    packet.track_id()
}

/// `Decoder::decode`: the samples of the packet, or the error that the
/// codec found.
#[verifier::external_body]
fn decode_packet<'a>(
    decoder: &'a mut TrackDecoder,
    packet: &symphonia::core::formats::Packet,
) -> (r: Result<
    symphonia::core::audio::AudioBufferRef<'a>,
    symphonia::core::errors::Error,
>) {
    decoder.inner.decode(packet)
}

/// The message of `Error::DecodeError`, the one error after which decoding
/// can go on; `None` for every other error.
///
/// Taken on trust: the result is the recoverable text of the error.
#[verifier::external_body]
fn recoverable_message(err: &symphonia::core::errors::Error) -> (message: Option<&'static str>)
    ensures
        message.is_some() <==> recoverable_text(*err).is_some(),
        message matches Some(text) ==> text@ == recoverable_text(*err).unwrap(),
{
    match err {
        symphonia::core::errors::Error::DecodeError(message) => Some(message),
        _ => None,
    }
}

/// The variant of the buffer: the encoding of its samples.
///
/// Taken on trust: the result is the encoding of the buffer.
#[verifier::external_body]
fn buffer_format(decoded: &symphonia::core::audio::AudioBufferRef<'_>) -> (format: SampleFormat)
    ensures
        format == buffer_encoding(*decoded),
{
    match decoded {
        symphonia::core::audio::AudioBufferRef::U8(_) => SampleFormat::U8,
        symphonia::core::audio::AudioBufferRef::U16(_) => SampleFormat::U16,
        symphonia::core::audio::AudioBufferRef::U24(_) => SampleFormat::U24,
        symphonia::core::audio::AudioBufferRef::U32(_) => SampleFormat::U32,
        symphonia::core::audio::AudioBufferRef::S8(_) => SampleFormat::S8,
        symphonia::core::audio::AudioBufferRef::S16(_) => SampleFormat::S16,
        symphonia::core::audio::AudioBufferRef::S24(_) => SampleFormat::S24,
        symphonia::core::audio::AudioBufferRef::S32(_) => SampleFormat::S32,
        symphonia::core::audio::AudioBufferRef::F32(_) => SampleFormat::F32,
        symphonia::core::audio::AudioBufferRef::F64(_) => SampleFormat::F64,
    }
}

/// `Signal::chan` for each channel of a buffer of `u8` samples; `None` for
/// a buffer of another encoding.
///
/// Taken on trust: the planes come for a buffer of this encoding and for no
/// other, and they are the samples that the buffer holds.
#[verifier::external_body]
fn planes_u8(decoded: &symphonia::core::audio::AudioBufferRef<'_>) -> (planes: Option<Vec<Vec<u8>>>)
    ensures
        planes.is_some() <==> buffer_encoding(*decoded) == SampleFormat::U8,
        planes matches Some(p) ==> DecodedPacket::U8(p).samples() == buffer_samples(*decoded),
{
    match decoded {
        symphonia::core::audio::AudioBufferRef::U8(d) => Some(
            (0..d.spec().channels.count()).map(
                |c| symphonia::core::audio::Signal::chan(d.as_ref(), c).to_vec(),
            ).collect(),
        ),
        _ => None,
    }
}

/// `Signal::chan` for each channel of a buffer of `u16` samples; `None` for
/// a buffer of another encoding.
///
/// Taken on trust: the planes come for a buffer of this encoding and for no
/// other, and they are the samples that the buffer holds.
#[verifier::external_body]
fn planes_u16(decoded: &symphonia::core::audio::AudioBufferRef<'_>) -> (planes: Option<Vec<Vec<u16>>>)
    ensures
        planes.is_some() <==> buffer_encoding(*decoded) == SampleFormat::U16,
        planes matches Some(p) ==> DecodedPacket::U16(p).samples() == buffer_samples(*decoded),
{
    match decoded {
        symphonia::core::audio::AudioBufferRef::U16(d) => Some(
            (0..d.spec().channels.count()).map(
                |c| symphonia::core::audio::Signal::chan(d.as_ref(), c).to_vec(),
            ).collect(),
        ),
        _ => None,
    }
}

/// `Signal::chan` for each channel of a buffer of `u24` samples, each
/// sample as the three bytes that `u24::to_ne_bytes` gives; `None` for a
/// buffer of another encoding.
///
/// Taken on trust: the planes come for a buffer of this encoding and for no
/// other, and they are the samples that the buffer holds.
#[verifier::external_body]
fn planes_u24(decoded: &symphonia::core::audio::AudioBufferRef<'_>) -> (planes: Option<
    Vec<Vec<[u8; 3]>>,
>)
    ensures
        planes.is_some() <==> buffer_encoding(*decoded) == SampleFormat::U24,
        planes matches Some(p) ==> DecodedPacket::U24(p).samples() == buffer_samples(*decoded),
{
    match decoded {
        symphonia::core::audio::AudioBufferRef::U24(d) => Some(
            (0..d.spec().channels.count()).map(
                |c|
                    symphonia::core::audio::Signal::chan(d.as_ref(), c).iter().map(
                        |s| s.to_ne_bytes(),
                    ).collect(),
            ).collect(),
        ),
        _ => None,
    }
}

/// `Signal::chan` for each channel of a buffer of `u32` samples; `None` for
/// a buffer of another encoding.
///
/// Taken on trust: the planes come for a buffer of this encoding and for no
/// other, and they are the samples that the buffer holds.
#[verifier::external_body]
fn planes_u32(decoded: &symphonia::core::audio::AudioBufferRef<'_>) -> (planes: Option<Vec<Vec<u32>>>)
    ensures
        planes.is_some() <==> buffer_encoding(*decoded) == SampleFormat::U32,
        planes matches Some(p) ==> DecodedPacket::U32(p).samples() == buffer_samples(*decoded),
{
    match decoded {
        symphonia::core::audio::AudioBufferRef::U32(d) => Some(
            (0..d.spec().channels.count()).map(
                |c| symphonia::core::audio::Signal::chan(d.as_ref(), c).to_vec(),
            ).collect(),
        ),
        _ => None,
    }
}

/// `Signal::chan` for each channel of a buffer of `i8` samples; `None` for
/// a buffer of another encoding.
///
/// Taken on trust: the planes come for a buffer of this encoding and for no
/// other, and they are the samples that the buffer holds.
#[verifier::external_body]
fn planes_i8(decoded: &symphonia::core::audio::AudioBufferRef<'_>) -> (planes: Option<Vec<Vec<i8>>>)
    ensures
        planes.is_some() <==> buffer_encoding(*decoded) == SampleFormat::S8,
        planes matches Some(p) ==> DecodedPacket::S8(p).samples() == buffer_samples(*decoded),
{
    match decoded {
        symphonia::core::audio::AudioBufferRef::S8(d) => Some(
            (0..d.spec().channels.count()).map(
                |c| symphonia::core::audio::Signal::chan(d.as_ref(), c).to_vec(),
            ).collect(),
        ),
        _ => None,
    }
}

/// `Signal::chan` for each channel of a buffer of `i16` samples; `None` for
/// a buffer of another encoding.
///
/// Taken on trust: the planes come for a buffer of this encoding and for no
/// other, and they are the samples that the buffer holds.
#[verifier::external_body]
fn planes_i16(decoded: &symphonia::core::audio::AudioBufferRef<'_>) -> (planes: Option<Vec<Vec<i16>>>)
    ensures
        planes.is_some() <==> buffer_encoding(*decoded) == SampleFormat::S16,
        planes matches Some(p) ==> DecodedPacket::S16(p).samples() == buffer_samples(*decoded),
{
    match decoded {
        symphonia::core::audio::AudioBufferRef::S16(d) => Some(
            (0..d.spec().channels.count()).map(
                |c| symphonia::core::audio::Signal::chan(d.as_ref(), c).to_vec(),
            ).collect(),
        ),
        _ => None,
    }
}

/// `Signal::chan` for each channel of a buffer of `i24` samples, each
/// sample as the three bytes that `i24::to_ne_bytes` gives; `None` for a
/// buffer of another encoding.
///
/// Taken on trust: the planes come for a buffer of this encoding and for no
/// other, and they are the samples that the buffer holds.
#[verifier::external_body]
fn planes_i24(decoded: &symphonia::core::audio::AudioBufferRef<'_>) -> (planes: Option<
    Vec<Vec<[u8; 3]>>,
>)
    ensures
        planes.is_some() <==> buffer_encoding(*decoded) == SampleFormat::S24,
        planes matches Some(p) ==> DecodedPacket::S24(p).samples() == buffer_samples(*decoded),
{
    match decoded {
        symphonia::core::audio::AudioBufferRef::S24(d) => Some(
            (0..d.spec().channels.count()).map(
                |c|
                    symphonia::core::audio::Signal::chan(d.as_ref(), c).iter().map(
                        |s| s.to_ne_bytes(),
                    ).collect(),
            ).collect(),
        ),
        _ => None,
    }
}

/// `Signal::chan` for each channel of a buffer of `i32` samples; `None` for
/// a buffer of another encoding.
///
/// Taken on trust: the planes come for a buffer of this encoding and for no
/// other, and they are the samples that the buffer holds.
#[verifier::external_body]
fn planes_i32(decoded: &symphonia::core::audio::AudioBufferRef<'_>) -> (planes: Option<Vec<Vec<i32>>>)
    ensures
        planes.is_some() <==> buffer_encoding(*decoded) == SampleFormat::S32,
        planes matches Some(p) ==> DecodedPacket::S32(p).samples() == buffer_samples(*decoded),
{
    match decoded {
        symphonia::core::audio::AudioBufferRef::S32(d) => Some(
            (0..d.spec().channels.count()).map(
                |c| symphonia::core::audio::Signal::chan(d.as_ref(), c).to_vec(),
            ).collect(),
        ),
        _ => None,
    }
}

/// `Signal::chan` for each channel of a buffer of binary32 samples, each
/// sample as its bit pattern; `None` for a buffer of another encoding.
///
/// Taken on trust: the planes come for a buffer of this encoding and for no
/// other, and they are the samples that the buffer holds.
#[verifier::external_body]
fn planes_f32(decoded: &symphonia::core::audio::AudioBufferRef<'_>) -> (planes: Option<Vec<Vec<u32>>>)
    ensures
        planes.is_some() <==> buffer_encoding(*decoded) == SampleFormat::F32,
        planes matches Some(p) ==> DecodedPacket::F32(p).samples() == buffer_samples(*decoded),
{
    match decoded {
        symphonia::core::audio::AudioBufferRef::F32(d) => Some(
            (0..d.spec().channels.count()).map(
                |c|
                    symphonia::core::audio::Signal::chan(d.as_ref(), c).iter().map(
                        |s| s.to_bits(),
                    ).collect(),
            ).collect(),
        ),
        _ => None,
    }
}

/// `Signal::chan` for each channel of a buffer of binary64 samples, each
/// sample as its bit pattern; `None` for a buffer of another encoding.
///
/// Taken on trust: the planes come for a buffer of this encoding and for no
/// other, and they are the samples that the buffer holds.
#[verifier::external_body]
fn planes_f64(decoded: &symphonia::core::audio::AudioBufferRef<'_>) -> (planes: Option<Vec<Vec<u64>>>)
    ensures
        planes.is_some() <==> buffer_encoding(*decoded) == SampleFormat::F64,
        planes matches Some(p) ==> DecodedPacket::F64(p).samples() == buffer_samples(*decoded),
{
    match decoded {
        symphonia::core::audio::AudioBufferRef::F64(d) => Some(
            (0..d.spec().channels.count()).map(
                |c|
                    symphonia::core::audio::Signal::chan(d.as_ref(), c).iter().map(
                        |s| s.to_bits(),
                    ).collect(),
            ).collect(),
        ),
        _ => None,
    }
}

/// The samples of a decoded buffer, copied out plane by plane, in the
/// encoding of the buffer.
fn unpack(decoded: &symphonia::core::audio::AudioBufferRef<'_>) -> (packet: DecodedPacket)
    ensures
        packet.spec_format() == buffer_encoding(*decoded),
        packet.samples() == buffer_samples(*decoded),
{
    match buffer_format(decoded) {
        SampleFormat::U8 => DecodedPacket::U8(planes_u8(decoded).unwrap()),
        SampleFormat::U16 => DecodedPacket::U16(planes_u16(decoded).unwrap()),
        SampleFormat::U24 => DecodedPacket::U24(planes_u24(decoded).unwrap()),
        SampleFormat::U32 => DecodedPacket::U32(planes_u32(decoded).unwrap()),
        SampleFormat::S8 => DecodedPacket::S8(planes_i8(decoded).unwrap()),
        SampleFormat::S16 => DecodedPacket::S16(planes_i16(decoded).unwrap()),
        SampleFormat::S24 => DecodedPacket::S24(planes_i24(decoded).unwrap()),
        SampleFormat::S32 => DecodedPacket::S32(planes_i32(decoded).unwrap()),
        SampleFormat::F32 => DecodedPacket::F32(planes_f32(decoded).unwrap()),
        SampleFormat::F64 => DecodedPacket::F64(planes_f64(decoded).unwrap()),
    }
}

/// The greatest number of packets that are read from one stream.
pub const PACKET_LIMIT: u64 = u64::MAX;

/// Whether `before` is where `after` begins.
pub open spec fn grew_from<T>(after: Seq<T>, before: Seq<T>) -> bool {
    before.len() <= after.len() && after.subrange(0, before.len() as int) =~= before
}

/// The sample rate and the number of channels of the default track.
///
/// Fails with `NoTrackFound` where there is no track, and with
/// `NoChannelsFound` where the track declares no channels, or none. Where
/// the track declares no sample rate, [`ASSUMED_SAMPLE_RATE`] is taken and a
/// warning is added to `warnings`.
pub fn track_layout(info: Option<TrackInfo>, warnings: &mut Vec<String>) -> (r: Result<(u32, usize), LoadError>)
    ensures
        r matches Err(LoadError::NoTrackFound) <==> info.is_none(),
        r matches Err(LoadError::NoChannelsFound) <==> info.is_some() && (info.unwrap().channels.is_none()
            || info.unwrap().channels == Some(0usize)),
        r matches Err(e) ==> e matches LoadError::NoTrackFound || e matches LoadError::NoChannelsFound,
        r matches Ok(layout) ==> layout.1 > 0 && info.unwrap().channels == Some(layout.1) && layout.0
            == (match info.unwrap().sample_rate {
            Some(rate) => rate,
            None => ASSUMED_SAMPLE_RATE,
        }),
        info.is_some() && info.unwrap().sample_rate.is_none() ==> final(warnings)@.len() == old(
            warnings,
        )@.len() + 1 && grew_from(final(warnings)@, old(warnings)@) && final(warnings)@.last()@
            == "Could not find sample rate of PCM resource. Assuming a sample rate of 44100"@,
        !(info.is_some() && info.unwrap().sample_rate.is_none()) ==> final(warnings)@ == old(warnings)@,
{
    let track = match info {
        Some(track) => track,
        None => {
            return Err(LoadError::NoTrackFound);
        },
    };
    let sample_rate = match track.sample_rate {
        Some(rate) => rate,
        None => {
            warnings.push(
                String::from_str(
                    "Could not find sample rate of PCM resource. Assuming a sample rate of 44100",
                ),
            );
            ASSUMED_SAMPLE_RATE
        },
    };
    match track.channels {
        Some(n_channels) if n_channels > 0 => Ok((sample_rate, n_channels)),
        _ => Err(LoadError::NoChannelsFound),
    }
}

/// What a read of the stream is to the reader of a track.
pub enum Sifted {
    /// A packet of the track.
    Taken(symphonia::core::formats::Packet),
    /// A packet of another track, which is passed over.
    Passed,
    /// The stream has ended, in whatever way.
    Ended,
}

/// Reads the packets of one track of a stream, at most [`PACKET_LIMIT`] of
/// them.
pub struct TrackReader {
    track_id: u32,
    left: u64,
}

impl TrackReader {
    /// The identifier of the track whose packets are read.
    pub closed spec fn track(&self) -> u32 {
        self.track_id
    }

    /// The number of packets that may still be read.
    pub closed spec fn remaining(&self) -> nat {
        self.left as nat
    }

    /// A reader of the packets of the track `track_id`.
    pub fn new(track_id: u32) -> (reader: TrackReader)
        ensures
            reader.track() == track_id,
            reader.remaining() == PACKET_LIMIT,
    {
        TrackReader { track_id, left: PACKET_LIMIT }
    }

    /// What a read of the stream is to this reader: a packet of its track is
    /// taken, a packet of another track is passed over, and an error of the
    /// stream, whichever it is, ends the reading.
    pub fn sift(
        &self,
        read: Result<symphonia::core::formats::Packet, symphonia::core::errors::Error>,
    ) -> (sifted: Sifted)
        ensures
            match read {
                Ok(packet) => if packet_track(packet) == self.track() {
                    sifted == Sifted::Taken(packet)
                } else {
                    sifted is Passed
                },
                Err(_) => sifted is Ended,
            },
    {
        match read {
            Ok(packet) => {
                if packet_track_id(&packet) == self.track_id {
                    Sifted::Taken(packet)
                } else {
                    Sifted::Passed
                }
            },
            Err(_) => Sifted::Ended,
        }
    }

    /// The next packet of the track; packets of other tracks are passed
    /// over. `None` where the stream has ended, in whatever way, or the
    /// limit is reached.
    ///
    /// The stream is read until [`TrackReader::sift`] takes a packet or finds
    /// the end. Every read counts against the limit.
    pub fn next(&mut self, probed: &mut symphonia::core::probe::ProbeResult) -> (packet: Option<
        symphonia::core::formats::Packet,
    >)
        ensures
            final(self).track() == old(self).track(),
            final(self).remaining() <= old(self).remaining(),
            packet matches Some(p) ==> packet_track(p) == old(self).track() && final(self).remaining()
                < old(self).remaining(),
            old(self).remaining() == 0 ==> packet.is_none() && final(self).remaining() == 0,
    {
        while self.left > 0
            invariant
                self.left <= old(self).left,
                self.track_id == old(self).track_id,
            decreases self.left,
        {
            self.left = self.left - 1;
            match self.sift(next_packet(probed)) {
                Sifted::Taken(packet) => {
                    return Some(packet);
                },
                Sifted::Passed => {},
                Sifted::Ended => {
                    return None;
                },
            }
        }
        None
    }
}

/// What the answer of the codec to a packet means to the load: a buffer is
/// handed on; an error after which decoding can go on adds a warning to
/// `warnings` and the packet is skipped; every other error ends the load
/// with `ErrorWhileDecoding`, which carries it.
pub fn settle_decoded<'a>(
    decoded: Result<symphonia::core::audio::AudioBufferRef<'a>, symphonia::core::errors::Error>,
    warnings: &mut Vec<String>,
) -> (r: Result<Option<symphonia::core::audio::AudioBufferRef<'a>>, LoadError>)
    ensures
        match decoded {
            Ok(buffer) => r == Ok::<Option<symphonia::core::audio::AudioBufferRef<'a>>, LoadError>(
                Some(buffer),
            ) && final(warnings)@ == old(warnings)@,
            Err(err) => match recoverable_text(err) {
                Some(text) => r matches Ok(None) && final(warnings)@.len() == old(warnings)@.len() + 1
                    && grew_from(final(warnings)@, old(warnings)@) && final(warnings)@.last()@
                    == "Symphonia decode warning: "@ + text,
                None => r matches Err(LoadError::ErrorWhileDecoding(e)) && e == err && final(warnings)@
                    == old(warnings)@,
            },
        },
{
    match decoded {
        Ok(buffer) => Ok(Some(buffer)),
        Err(err) => match recoverable_message(&err) {
            Some(message) => {
                warnings.push(decode_warning(message));
                Ok(None)
            },
            None => Err(LoadError::ErrorWhileDecoding(err)),
        },
    }
}

/// Decode a packet, and settle what the codec answered as
/// [`settle_decoded`] does: a buffer, or `None` with a warning for a packet
/// that is skipped, or the error that ends the load.
pub fn decode_or_skip<'a>(
    decoder: &'a mut TrackDecoder,
    packet: &symphonia::core::formats::Packet,
    warnings: &mut Vec<String>,
) -> (r: Result<Option<symphonia::core::audio::AudioBufferRef<'a>>, LoadError>)
    ensures
        r matches Err(e) ==> e matches LoadError::ErrorWhileDecoding(_),
        r matches Ok(None) ==> final(warnings)@.len() == old(warnings)@.len() + 1 && grew_from(
            final(warnings)@,
            old(warnings)@,
        ),
        !(r matches Ok(None)) ==> final(warnings)@ == old(warnings)@,
{
    settle_decoded(decode_packet(decoder, packet), warnings)
}

/// What the default track of a probed stream declares.
///
/// Fails with `NoTrackFound` where the stream has no track.
pub fn default_track_info(probed: &symphonia::core::probe::ProbeResult) -> (r: Result<
    TrackInfo,
    LoadError,
>)
    ensures
        match stream_track(*probed) {
            Some(track) => r matches Ok(info) && info == track_declares(track),
            None => r matches Err(LoadError::NoTrackFound),
        },
{
    match default_track(probed) {
        Some(track) => Ok(track_info(track)),
        None => Err(LoadError::NoTrackFound),
    }
}

/// The default track of a stream and a decoder for it.
///
/// Fails with `NoTrackFound` where the stream has no track, and with
/// `CouldNotCreateDecoder` where no decoder can be made for the track.
pub fn open_track(
    codec_registry: &symphonia::core::codecs::CodecRegistry,
    probed: &symphonia::core::probe::ProbeResult,
) -> (r: Result<(TrackInfo, TrackDecoder), LoadError>)
    ensures
        r matches Err(LoadError::NoTrackFound) <==> stream_track(*probed).is_none(),
        r matches Err(e) ==> e matches LoadError::NoTrackFound || e matches LoadError::CouldNotCreateDecoder(_),
        r matches Ok(opened) ==> opened.0 == track_declares(stream_track(*probed).unwrap()),
{
    let track = match default_track(probed) {
        Some(track) => track,
        None => {
            return Err(LoadError::NoTrackFound);
        },
    };
    match make_decoder(codec_registry, track) {
        Ok(decoder) => Ok((track_info(track), decoder)),
        Err(e) => Err(LoadError::CouldNotCreateDecoder(e)),
    }
}

/// Decode the default track of a stream into memory, in the encoding in
/// which the codec hands out its samples.
///
/// The packets of the track are read until the stream ends. Each is decoded
/// and settled as [`settle_decoded`] does. The buffers that come of it are
/// taken one by one as [`Accumulator::take_packet`] does, with the length
/// that the track declares, and the end is that of
/// [`Accumulator::conclude`].
///
/// Fails with `NoTrackFound` where the stream has no track, with
/// `CouldNotCreateDecoder` where no decoder can be made for the track, and
/// with the errors of the functions named.
pub fn decode_native_bitdepth(
    probed: &mut symphonia::core::probe::ProbeResult,
    n_channels: usize,
    codec_registry: &symphonia::core::codecs::CodecRegistry,
    sample_rate: u32,
    max_bytes: usize,
    warnings: &mut Vec<String>,
) -> (r: Result<DecodedAudio, LoadError>)
    requires
        n_channels > 0,
    ensures
        grew_from(final(warnings)@, old(warnings)@),
        r matches Err(LoadError::NoTrackFound) <==> stream_track(*old(probed)).is_none(),
        r matches Err(e) ==> e matches LoadError::NoTrackFound || e matches LoadError::CouldNotCreateDecoder(_)
            || is_decode_failure(e, max_bytes as nat),
        r matches Ok(audio) ==> {
            &&& audio.spec_channels() == n_channels
            &&& audio.spec_sample_rate() == sample_rate
            &&& audio.spec_frames() * (audio.resource().spec_format().spec_bytes_per_sample()
                * n_channels) <= max_bytes
        },
{
    let (track, mut decoder) = match open_track(codec_registry, probed) {
        Ok(opened) => opened,
        Err(e) => {
            return Err(e);
        },
    };
    let mut reader = TrackReader::new(track.id);
    let mut held: Option<Accumulator> = None;
    loop
        invariant
            n_channels > 0,
            grew_from(warnings@, old(warnings)@),
            stream_track(*old(probed)).is_some(),
            held matches Some(acc) ==> {
                &&& acc.wf()
                &&& acc.channels() == n_channels
                &&& acc.max_bytes() == max_bytes
            },
        decreases reader.remaining(),
    {
        let packet = match reader.next(probed) {
            Some(packet) => packet,
            None => {
                break ;
            },
        };
        let ghost before = warnings@;
        let decoded = match settle_decoded(decode_packet(&mut decoder, &packet), warnings) {
            Ok(decoded) => decoded,
            Err(e) => {
                return Err(e);
            },
        };
        assert(grew_from(warnings@, old(warnings)@)) by {
            assert(warnings@.subrange(0, old(warnings)@.len() as int) =~= before.subrange(
                0,
                old(warnings)@.len() as int,
            ));
        }
        if let Some(buffer) = decoded {
            let samples = unpack(&buffer);
            held = match Accumulator::take_packet(held, &samples, n_channels, track.n_frames, max_bytes) {
                Ok(acc) => Some(acc),
                Err(e) => {
                    return Err(e);
                },
            };
        }
    }
    Accumulator::conclude(held, sample_rate)
}

/// A stream that was probed, with what its default track declares.
pub struct LoadedAudioSource {
    pub probed: symphonia::core::probe::ProbeResult,
    pub sample_rate: u32,
    pub n_channels: usize,
}

/// Take up the result of probing a stream.
///
/// Fails with `UnkownFormat` where the probe failed, and else as
/// [`track_layout`] does for what the default track of the stream declares.
pub fn load_audio_source(
    probed: Result<symphonia::core::probe::ProbeResult, symphonia::core::errors::Error>,
    warnings: &mut Vec<String>,
) -> (r: Result<LoadedAudioSource, LoadError>)
    ensures
        grew_from(final(warnings)@, old(warnings)@),
        match probed {
            Err(cause) => r matches Err(LoadError::UnkownFormat(e)) && e == cause && final(warnings)@
                == old(warnings)@,
            Ok(stream) => match stream_track(stream) {
                None => r matches Err(LoadError::NoTrackFound) && final(warnings)@ == old(warnings)@,
                Some(track) => {
                    let declared = track_declares(track);
                    &&& declared.sample_rate.is_none() ==> final(warnings)@.len() == old(
                        warnings,
                    )@.len() + 1 && final(warnings)@.last()@
                        == "Could not find sample rate of PCM resource. Assuming a sample rate of 44100"@
                    &&& declared.sample_rate.is_some() ==> final(warnings)@ == old(warnings)@
                    &&& if declared.channels.is_none() || declared.channels == Some(0usize) {
                        r matches Err(LoadError::NoChannelsFound)
                    } else {
                        r matches Ok(source) && source.probed == stream && Some(source.n_channels)
                            == declared.channels && source.n_channels > 0 && source.sample_rate == (
                        match declared.sample_rate {
                            Some(rate) => rate,
                            None => ASSUMED_SAMPLE_RATE,
                        })
                    }
                },
            },
        },
{
    let probed = match probed {
        Ok(probed) => probed,
        Err(e) => {
            return Err(LoadError::UnkownFormat(e));
        },
    };
    let info = match default_track(&probed) {
        Some(track) => Some(track_info(track)),
        None => None,
    };
    let (sample_rate, n_channels) = match track_layout(info, warnings) {
        Ok(layout) => layout,
        Err(e) => {
            return Err(e);
        },
    };
    Ok(LoadedAudioSource { probed, sample_rate, n_channels })
}

/// The limit that holds: the given one, or [`DEFAULT_MAX_BYTES`].
pub open spec fn spec_max_bytes_or_default(max_bytes: Option<usize>) -> usize {
    match max_bytes {
        Some(limit) => limit,
        None => DEFAULT_MAX_BYTES,
    }
}

/// The limit that holds: the given one, or [`DEFAULT_MAX_BYTES`].
pub fn max_bytes_or_default(max_bytes: Option<usize>) -> (limit: usize)
    ensures
        limit == spec_max_bytes_or_default(max_bytes),
{
    match max_bytes {
        Some(limit) => limit,
        None => DEFAULT_MAX_BYTES,
    }
}

/// Decode a stream into memory at its own sample rate, in the encoding in
/// which the codec hands out its samples: [`decode_native_bitdepth`] with
/// what the source holds. Without `max_bytes` the limit is
/// [`DEFAULT_MAX_BYTES`].
pub fn decode(
    source: LoadedAudioSource,
    codec_registry: &symphonia::core::codecs::CodecRegistry,
    max_bytes: Option<usize>,
    warnings: &mut Vec<String>,
) -> (r: Result<DecodedAudio, LoadError>)
    requires
        source.n_channels > 0,
    ensures
        grew_from(final(warnings)@, old(warnings)@),
        r matches Err(LoadError::NoTrackFound) <==> stream_track(source.probed).is_none(),
        r matches Err(e) ==> e matches LoadError::NoTrackFound || e matches LoadError::CouldNotCreateDecoder(_)
            || is_decode_failure(e, spec_max_bytes_or_default(max_bytes) as nat),
        r matches Ok(audio) ==> {
            &&& audio.spec_channels() == source.n_channels
            &&& audio.spec_sample_rate() == source.sample_rate
            &&& audio.spec_frames() * (audio.resource().spec_format().spec_bytes_per_sample()
                * source.n_channels) <= spec_max_bytes_or_default(max_bytes)
        },
{
    let mut probed = source.probed;
    decode_native_bitdepth(
        &mut probed,
        source.n_channels,
        codec_registry,
        source.sample_rate,
        max_bytes_or_default(max_bytes),
        warnings,
    )
}

} // verus!
