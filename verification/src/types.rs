//! The scalar value types that attribute grammars decode into.

use vstd::prelude::*;

verus! {

/// A span of time with millisecond precision.
///
/// Durations in a playlist are written as decimal seconds with up to three
/// fractional digits (`9.009`); this type holds the equivalent number of
/// milliseconds.
#[derive(Debug, Clone, Copy, PartialEq, Eq, Structural)]
pub struct Duration {
    /// The duration in milliseconds.
    pub millis: u64,
}

impl Duration {
    /// The duration in milliseconds.
    pub open spec fn spec_millis(&self) -> u64 {
        self.millis
    }

    /// Makes a duration of `millis` milliseconds.
    pub fn from_millis(millis: u64) -> (r: Self)
        ensures
            r.spec_millis() == millis,
    {
        Duration { millis }
    }

    /// Makes a duration of `secs` whole seconds.
    pub fn from_secs(secs: u64) -> (r: Self)
        requires
            secs * 1000 <= u64::MAX,
        ensures
            r.spec_millis() == secs * 1000,
    {
        Duration { millis: secs * 1000 }
    }

    /// The duration in milliseconds.
    pub fn as_millis(&self) -> (r: u64)
        ensures
            r == self.spec_millis(),
    {
        self.millis
    }

    /// The number of whole seconds in the duration.
    pub fn as_secs(&self) -> (r: u64)
        ensures
            r == self.spec_millis() / 1000,
    {
        self.millis / 1000
    }

    /// The fractional part of the duration, in milliseconds.
    pub fn subsec_millis(&self) -> (r: u64)
        ensures
            r == self.spec_millis() % 1000,
    {
        self.millis % 1000
    }
}

/// The protocol version of a playlist document, lowest to highest.
///
/// Every tag states, from its own field values, the minimum version it
/// forces; a playlist's required version is the maximum over its tags.
#[derive(Debug, Clone, Copy, PartialEq, Eq, Structural)]
pub enum ProtocolVersion {
    /// The baseline version.
    V1,
    /// Required by a key with an initialization vector.
    V2,
    /// Required by floating-point segment durations.
    V3,
    /// Required by byte ranges and i-frames-only playlists.
    V4,
    /// Required by key format attributes.
    V5,
    /// Required by initialization-map tags in ordinary playlists.
    V6,
    /// Required by certain in-stream identifiers.
    V7,
}

impl ProtocolVersion {
    /// The version as a number, for comparison under the natural order.
    pub open spec fn spec_number(&self) -> u64 {
        match self {
            ProtocolVersion::V1 => 1,
            ProtocolVersion::V2 => 2,
            ProtocolVersion::V3 => 3,
            ProtocolVersion::V4 => 4,
            ProtocolVersion::V5 => 5,
            ProtocolVersion::V6 => 6,
            ProtocolVersion::V7 => 7,
        }
    }

    /// The version as a number.
    pub fn number(&self) -> (r: u64)
        ensures
            r == self.spec_number(),
    {
        match self {
            ProtocolVersion::V1 => 1,
            ProtocolVersion::V2 => 2,
            ProtocolVersion::V3 => 3,
            ProtocolVersion::V4 => 4,
            ProtocolVersion::V5 => 5,
            ProtocolVersion::V6 => 6,
            ProtocolVersion::V7 => 7,
        }
    }

    /// The version a number stands for, if it is in range.
    pub open spec fn spec_from_number(n: u64) -> Option<ProtocolVersion> {
        if n == 1 {
            Some(ProtocolVersion::V1)
        } else if n == 2 {
            Some(ProtocolVersion::V2)
        } else if n == 3 {
            Some(ProtocolVersion::V3)
        } else if n == 4 {
            Some(ProtocolVersion::V4)
        } else if n == 5 {
            Some(ProtocolVersion::V5)
        } else if n == 6 {
            Some(ProtocolVersion::V6)
        } else if n == 7 {
            Some(ProtocolVersion::V7)
        } else {
            None
        }
    }

    /// The version a number stands for, if it is in range.
    pub fn from_number(n: u64) -> (r: Option<ProtocolVersion>)
        ensures
            r == Self::spec_from_number(n),
    {
        if n == 1 {
            Some(ProtocolVersion::V1)
        } else if n == 2 {
            Some(ProtocolVersion::V2)
        } else if n == 3 {
            Some(ProtocolVersion::V3)
        } else if n == 4 {
            Some(ProtocolVersion::V4)
        } else if n == 5 {
            Some(ProtocolVersion::V5)
        } else if n == 6 {
            Some(ProtocolVersion::V6)
        } else if n == 7 {
            Some(ProtocolVersion::V7)
        } else {
            None
        }
    }

    /// The greater of two versions under the natural order.
    pub open spec fn spec_max(a: ProtocolVersion, b: ProtocolVersion) -> ProtocolVersion {
        if a.spec_number() >= b.spec_number() {
            a
        } else {
            b
        }
    }

    /// The greater of two versions under the natural order.
    pub fn max(a: ProtocolVersion, b: ProtocolVersion) -> (r: ProtocolVersion)
        ensures
            r == Self::spec_max(a, b),
    {
        if a.number() >= b.number() {
            a
        } else {
            b
        }
    }
}

/// The kind of content a rendition carries.
#[derive(Debug, Clone, Copy, PartialEq, Eq, Structural)]
pub enum MediaType {
    /// An audio rendition.
    Audio,
    /// A video rendition.
    Video,
    /// A subtitles rendition.
    Subtitles,
    /// A closed-captions rendition.
    ClosedCaptions,
}

/// The identifier of a rendition within the segments of a media playlist.
///
/// The closed-caption channels are `Cc1` to `Cc4`; the digital services are
/// `Service(n)` with `1 <= n <= 63`.
#[derive(Debug, Clone, Copy, PartialEq, Eq, Structural)]
pub enum InStreamId {
    /// Line-21 closed-caption channel 1.
    Cc1,
    /// Line-21 closed-caption channel 2.
    Cc2,
    /// Line-21 closed-caption channel 3.
    Cc3,
    /// Line-21 closed-caption channel 4.
    Cc4,
    /// A digital closed-caption service, numbered 1 to 63.
    Service(u8),
}

impl InStreamId {
    /// Whether the identifier is one the format defines: service numbers run
    /// from 1 to 63.
    pub open spec fn wf(&self) -> bool {
        match self {
            InStreamId::Service(n) => 1 <= *n <= 63,
            _ => true,
        }
    }
}

/// The number of audio channels of a rendition.
#[derive(Debug, Clone, Copy, PartialEq, Eq, Structural)]
pub struct Channels {
    /// The number of audio channels.
    pub channel_number: u64,
}

impl Channels {
    /// Makes a channel count.
    pub fn new(channel_number: u64) -> (r: Self)
        ensures
            r.channel_number == channel_number,
    {
        Channels { channel_number }
    }

    /// The number of audio channels.
    pub fn channel_number(&self) -> (r: u64)
        ensures
            r == self.channel_number,
    {
        self.channel_number
    }
}

/// How a media playlist may be extended: not at all, or only appended to.
#[derive(Debug, Clone, Copy, PartialEq, Eq, Structural)]
pub enum PlaylistType {
    /// Segments may be appended while the event runs; none are removed.
    Event,
    /// The playlist is complete and immutable.
    Vod,
}

/// The method by which media segments are encrypted.
#[derive(Debug, Clone, Copy, PartialEq, Eq, Structural)]
pub enum EncryptionMethod {
    /// Segments are not encrypted.
    NoEncryption,
    /// AES-128 encryption of whole segments.
    Aes128,
    /// AES-128 encryption of individual media samples.
    SampleAes,
}

/// A sub-range of the resource a URI names: a length and an optional start
/// offset. A range with no start continues the previous range on the same
/// URI.
#[derive(Debug, Clone, Copy, PartialEq, Eq, Structural)]
pub struct ByteRange {
    /// The length of the range in bytes.
    pub length: u64,
    /// The offset of the range's first byte, when given explicitly.
    pub start: Option<u64>,
}

impl ByteRange {
    /// Makes a byte range.
    pub fn new(length: u64, start: Option<u64>) -> (r: Self)
        ensures
            r.length == length,
            r.start == start,
    {
        ByteRange { length, start }
    }
}

} // verus!
