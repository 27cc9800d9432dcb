//! The ways in which loading an audio stream can fail.

use vstd::prelude::*;

use crate::format::SampleFormat;

verus! {

/// `std::io::Error`, carried as it is.
#[verifier::external_type_specification]
#[verifier::external_body]
pub struct ExIoError(std::io::Error);

/// `symphonia::core::errors::Error`, carried as it is.
#[verifier::external_type_specification]
#[verifier::external_body]
pub struct ExSymphoniaError(symphonia::core::errors::Error);

/// `rubato::ResampleError`, carried as it is.
#[verifier::external_type_specification]
#[verifier::external_body]
pub struct ExResampleError(rubato::ResampleError);

/// A decoder result that breaks what the loader relies on.
#[derive(Clone, Copy, Debug, PartialEq, Eq, Structural)]
pub enum UnexpectedDecode {
    /// The stream ended before any packet of the track was decoded.
    NoPacketFound,
    /// A packet was not in the encoding of the first packet, which is given.
    WrongFormat(SampleFormat),
    /// A packet had fewer channels than the track, or channels of unequal
    /// length.
    MalformedPacket,
}

/// An error that stopped a load.
#[derive(Debug)]
pub enum LoadError {
    FileNotFound(std::io::Error),
    UnkownFormat(symphonia::core::errors::Error),
    NoTrackFound,
    NoChannelsFound,
    UnkownChannelFormat(usize),
    /// The decoded audio would not fit in the given number of bytes.
    FileTooLarge(usize),
    CouldNotCreateDecoder(symphonia::core::errors::Error),
    ErrorWhileDecoding(symphonia::core::errors::Error),
    UnexpectedErrorWhileDecoding(UnexpectedDecode),
    ErrorWhileResampling(rubato::ResampleError),
    /// The resampler handles another number of channels than the stream has.
    InvalidResampler { needed_channels: usize, got_channels: usize },
}


/// The decimal digit `d` as text.
pub open spec fn digit_text(d: nat) -> Seq<char> {
    if d == 0 {
        "0"@
    } else if d == 1 {
        "1"@
    } else if d == 2 {
        "2"@
    } else if d == 3 {
        "3"@
    } else if d == 4 {
        "4"@
    } else if d == 5 {
        "5"@
    } else if d == 6 {
        "6"@
    } else if d == 7 {
        "7"@
    } else if d == 8 {
        "8"@
    } else {
        "9"@
    }
}

/// `n` in decimal digits, without leading zeros.
pub open spec fn decimal(n: nat) -> Seq<char>
    decreases n,
{
    if n < 10 {
        digit_text(n)
    } else {
        decimal(n / 10) + digit_text(n % 10)
    }
}

/// The decimal digit `d` as text.
fn digit_str(d: usize) -> (text: &'static str)
    requires
        d < 10,
    ensures
        text@ == digit_text(d as nat),
{
    if d == 0 {
        "0"
    } else if d == 1 {
        "1"
    } else if d == 2 {
        "2"
    } else if d == 3 {
        "3"
    } else if d == 4 {
        "4"
    } else if d == 5 {
        "5"
    } else if d == 6 {
        "6"
    } else if d == 7 {
        "7"
    } else if d == 8 {
        "8"
    } else {
        "9"
    }
}

/// `n` in decimal digits, without leading zeros.
pub fn decimal_string(n: usize) -> (text: String)
    ensures
        text@ == decimal(n as nat),
    decreases n,
{
    if n < 10 {
        String::from_str(digit_str(n))
    } else {
        decimal_string(n / 10).concat(digit_str(n % 10))
    }
}

/// `Display` of an error of the operating system, as text.
#[verifier::external_body]
fn io_error_text(e: &std::io::Error) -> (text: String) {
    e.to_string()
}

/// `Display` of an error of the demuxer or the codec, as text.
#[verifier::external_body]
fn stream_error_text(e: &symphonia::core::errors::Error) -> (text: String) {
    e.to_string()
}

/// `Display` of an error of the conversion engine, as text.
#[verifier::external_body]
fn resample_error_text(e: &rubato::ResampleError) -> (text: String) {
    e.to_string()
}

impl UnexpectedDecode {
    /// What [`UnexpectedDecode::message`] gives.
    pub open spec fn spec_message(self) -> Seq<char> {
        match self {
            UnexpectedDecode::NoPacketFound => "no packet was found"@,
            UnexpectedDecode::WrongFormat(expected) =>
                "Symphonia returned a packet that was not the expected format of "@
                + expected.spec_name(),
            UnexpectedDecode::MalformedPacket =>
                "Symphonia returned a packet without samples for every channel"@,
        }
    }

    /// The error in words.
    pub fn message(self) -> (text: String)
        ensures
            text@ == self.spec_message(),
    {
        match self {
            UnexpectedDecode::NoPacketFound => String::from_str("no packet was found"),
            UnexpectedDecode::WrongFormat(expected) => String::from_str(
                "Symphonia returned a packet that was not the expected format of ",
            ).concat(expected.name()),
            UnexpectedDecode::MalformedPacket => String::from_str(
                "Symphonia returned a packet without samples for every channel",
            ),
        }
    }
}

impl LoadError {
    /// The words with which the message of the error begins. For an error
    /// that comes with a cause, the words of the cause follow them.
    pub open spec fn heading(&self) -> Seq<char> {
        match self {
            LoadError::FileNotFound(_) => "File not found | "@,
            LoadError::UnkownFormat(_) => "Format not supported | "@,
            LoadError::NoTrackFound => "No default track found"@,
            LoadError::NoChannelsFound => "No channels found"@,
            LoadError::UnkownChannelFormat(_) => "Unkown channel format | "@,
            LoadError::FileTooLarge(_) => "File is too large | maximum is "@,
            LoadError::CouldNotCreateDecoder(_) => "Failed to create decoder | "@,
            LoadError::ErrorWhileDecoding(_) => "Error while decoding | "@,
            LoadError::UnexpectedErrorWhileDecoding(_) => "Unexpected error while decoding | "@,
            LoadError::ErrorWhileResampling(_) => "Error while resampling | "@,
            LoadError::InvalidResampler { .. } => "Invalid resampler | needed "@,
        }
    }

    /// The message of the error, for an error whose message does not hold
    /// the words of a cause from outside.
    pub open spec fn spec_message(&self) -> Seq<char> {
        match self {
            LoadError::UnkownChannelFormat(n_channels) => self.heading() + decimal(*n_channels as nat)
                + " channels found"@,
            LoadError::FileTooLarge(max_bytes) => self.heading() + decimal(*max_bytes as nat) + " bytes"@,
            LoadError::UnexpectedErrorWhileDecoding(e) => self.heading() + e.spec_message(),
            LoadError::InvalidResampler { needed_channels, got_channels } => self.heading() + decimal(
                *needed_channels as nat,
            ) + " channels, got "@ + decimal(*got_channels as nat),
            _ => self.heading(),
        }
    }

    /// Whether the message holds the words of a cause from outside.
    pub open spec fn has_outside_cause(&self) -> bool {
        self matches LoadError::FileNotFound(_) || self matches LoadError::UnkownFormat(_)
            || self matches LoadError::CouldNotCreateDecoder(_) || self matches LoadError::ErrorWhileDecoding(_)
            || self matches LoadError::ErrorWhileResampling(_)
    }

    /// The error in words.
    pub fn message(&self) -> (text: String)
        ensures
            !self.has_outside_cause() ==> text@ == self.spec_message(),
            self.has_outside_cause() ==> text@.len() >= self.heading().len() && text@.subrange(
                0,
                self.heading().len() as int,
            ) =~= self.heading(),
    {
        match self {
            LoadError::FileNotFound(e) => {
                let cause = io_error_text(e);
                String::from_str("File not found | ").concat(cause.as_str())
            },
            LoadError::UnkownFormat(e) => {
                let cause = stream_error_text(e);
                String::from_str("Format not supported | ").concat(cause.as_str())
            },
            LoadError::NoTrackFound => String::from_str("No default track found"),
            LoadError::NoChannelsFound => String::from_str("No channels found"),
            LoadError::UnkownChannelFormat(n_channels) => {
                let count = decimal_string(*n_channels);
                String::from_str("Unkown channel format | ").concat(count.as_str()).concat(
                    " channels found",
                )
            },
            LoadError::FileTooLarge(max_bytes) => {
                let limit = decimal_string(*max_bytes);
                String::from_str("File is too large | maximum is ").concat(limit.as_str()).concat(
                    " bytes",
                )
            },
            LoadError::CouldNotCreateDecoder(e) => {
                let cause = stream_error_text(e);
                String::from_str("Failed to create decoder | ").concat(cause.as_str())
            },
            LoadError::ErrorWhileDecoding(e) => {
                let cause = stream_error_text(e);
                String::from_str("Error while decoding | ").concat(cause.as_str())
            },
            LoadError::UnexpectedErrorWhileDecoding(e) => {
                let cause = e.message();
                String::from_str("Unexpected error while decoding | ").concat(cause.as_str())
            },
            LoadError::ErrorWhileResampling(e) => {
                let cause = resample_error_text(e);
                String::from_str("Error while resampling | ").concat(cause.as_str())
            },
            LoadError::InvalidResampler { needed_channels, got_channels } => {
                let needed = decimal_string(*needed_channels);
                let got = decimal_string(*got_channels);
                String::from_str("Invalid resampler | needed ").concat(needed.as_str()).concat(
                    " channels, got ",
                ).concat(got.as_str())
            },
        }
    }
}


impl From<std::io::Error> for LoadError {
    /// An error of the operating system on opening a file.
    fn from(e: std::io::Error) -> (r: LoadError) {
        LoadError::FileNotFound(e)
    }
}

impl vstd::std_specs::convert::FromSpecImpl<std::io::Error> for LoadError {
    open spec fn obeys_from_spec() -> bool {
        true
    }

    open spec fn from_spec(e: std::io::Error) -> LoadError {
        LoadError::FileNotFound(e)
    }
}

impl From<rubato::ResampleError> for LoadError {
    /// An error of the conversion engine.
    fn from(e: rubato::ResampleError) -> (r: LoadError) {
        LoadError::ErrorWhileResampling(e)
    }
}

impl vstd::std_specs::convert::FromSpecImpl<rubato::ResampleError> for LoadError {
    open spec fn obeys_from_spec() -> bool {
        true
    }

    open spec fn from_spec(e: rubato::ResampleError) -> LoadError {
        LoadError::ErrorWhileResampling(e)
    }
}

} // verus!
