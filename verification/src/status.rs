//! The error taxonomy: each kind carries the numeric status code used in
//! disconnect frames.

use vstd::prelude::*;

verus! {

/// Errors of the protocol, as surfaced in disconnect frames.
#[derive(Clone, Copy, Debug, PartialEq, Eq, Hash, Structural)]
pub enum Status {
    /// Normal close: peer close or agent shutdown.
    Normal,
    /// I/O failure.
    Io,
    /// A timeout occurred.
    Timeout,
    /// Frame is too big.
    TooBig,
    /// Invalid frame received.
    Invalid,
    /// Version value not found.
    NoVersion,
    /// Max-frame-size value not found.
    NoFrameSize,
    /// Capabilities value not found.
    NoCapabilities,
    /// Unsupported version.
    BadVersion,
    /// Max-frame-size too big or too small.
    BadFrameSize,
    /// Fragmentation not supported.
    FragmentNotSupported,
    /// Invalid interlaced frames.
    InterlacedFrames,
    /// Frame-id not found.
    FrameIdNotFound,
    /// Resource allocation error.
    ResourceAllocErr,
    /// An unknown error occurred.
    Unknown,
}

/// The numeric code a status is sent as.
pub open spec fn status_code(s: Status) -> u32 {
    match s {
        Status::Normal => 0,
        Status::Io => 1,
        Status::Timeout => 2,
        Status::TooBig => 3,
        Status::Invalid => 4,
        Status::NoVersion => 5,
        Status::NoFrameSize => 6,
        Status::NoCapabilities => 7,
        Status::BadVersion => 8,
        Status::BadFrameSize => 9,
        Status::FragmentNotSupported => 10,
        Status::InterlacedFrames => 11,
        Status::FrameIdNotFound => 12,
        Status::ResourceAllocErr => 13,
        Status::Unknown => 99,
    }
}

impl Status {
    /// The numeric code this status is sent as.
    pub fn code(self) -> (r: u32)
        ensures
            r == status_code(self),
    {
        match self {
            Status::Normal => 0,
            Status::Io => 1,
            Status::Timeout => 2,
            Status::TooBig => 3,
            Status::Invalid => 4,
            Status::NoVersion => 5,
            Status::NoFrameSize => 6,
            Status::NoCapabilities => 7,
            Status::BadVersion => 8,
            Status::BadFrameSize => 9,
            Status::FragmentNotSupported => 10,
            Status::InterlacedFrames => 11,
            Status::FrameIdNotFound => 12,
            Status::ResourceAllocErr => 13,
            Status::Unknown => 99,
        }
    }

    /// The status a numeric code denotes, if any.
    pub fn from_code(code: u32) -> (r: Option<Status>)
        ensures
            match r {
                Some(s) => status_code(s) == code,
                None => forall|s: Status| status_code(s) != code,
            },
    {
        match code {
            0 => Some(Status::Normal),
            1 => Some(Status::Io),
            2 => Some(Status::Timeout),
            3 => Some(Status::TooBig),
            4 => Some(Status::Invalid),
            5 => Some(Status::NoVersion),
            6 => Some(Status::NoFrameSize),
            7 => Some(Status::NoCapabilities),
            8 => Some(Status::BadVersion),
            9 => Some(Status::BadFrameSize),
            10 => Some(Status::FragmentNotSupported),
            11 => Some(Status::InterlacedFrames),
            12 => Some(Status::FrameIdNotFound),
            13 => Some(Status::ResourceAllocErr),
            99 => Some(Status::Unknown),
            _ => None,
        }
    }

    /// A human-readable description, as written into disconnect frames.
    pub fn message_text(self) -> (r: &'static str)
    {
        match self {
            Status::Normal => "normal",
            Status::Io => "I/O error",
            Status::Timeout => "a timeout occurred",
            Status::TooBig => "frame is too big",
            Status::Invalid => "invalid frame received",
            Status::NoVersion => "version value not found",
            Status::NoFrameSize => "max-frame-size value not found",
            Status::NoCapabilities => "capabilities value not found",
            Status::BadVersion => "unsupported version",
            Status::BadFrameSize => "max-frame-size too big or too small",
            Status::FragmentNotSupported => "fragmentation not supported",
            Status::InterlacedFrames => "invalid interlaced frames",
            Status::FrameIdNotFound => "frame-id not found",
            Status::ResourceAllocErr => "resource allocation error",
            Status::Unknown => "an unknown error occurred",
        }
    }
}

} // verus!
