//! The typed tags of the playlist format, and the dispatcher that maps a
//! directive line to a tag value.
//!
//! Every directive line is split at the first `:` into a name and an
//! optional parameter string; the name selects the tag's own parameter
//! grammar. An unrecognized name never fails: it yields [`Tag::Unknown`]
//! with the line kept verbatim, as forward compatibility requires.

pub mod media;

pub use media::ExtXMedia;
pub use media::ExtXMediaBuilder;

use vstd::prelude::*;
use vstd::string::StringExecFns;
use crate::attribute::pairs_view;
use crate::attribute::parse_pairs;
use crate::attribute::spec_parse_pairs;
use crate::attribute::spec_unquote;
use crate::attribute::unquote_vec;
use crate::error::Error;
use crate::error::ErrorKind;
use crate::text::chars_to_string;
use crate::text::copy_range;
use crate::text::find_char_range;
use crate::text::parse_duration_range;
use crate::text::parse_u64_range;
use crate::text::spec_find;
use crate::text::spec_parse_duration;
use crate::text::spec_parse_u64;
use crate::text::vec_eq_str;
use crate::types::ByteRange;
use crate::types::Duration;
use crate::types::EncryptionMethod;
use crate::types::PlaylistType;
use crate::types::ProtocolVersion;

verus! {

/// The start-of-file marker tag. It must be the first line of every
/// playlist document and may not appear again.
#[derive(Debug, Clone, Copy, PartialEq, Eq, Structural)]
pub struct ExtM3u;

/// The protocol-version directive. The assembler accepts and ignores it:
/// the version a playlist requires is computed from its features.
#[derive(Debug, Clone, Copy, PartialEq, Eq, Structural)]
pub struct ExtXVersion {
    /// The declared version.
    pub version: ProtocolVersion,
}

/// The segment-duration tag: a duration in decimal seconds and an optional
/// human-readable title. Every media segment carries exactly one.
#[derive(Debug, Clone)]
pub struct ExtInf {
    /// The duration of the media segment.
    pub duration: Duration,
    /// The title, when one follows the duration.
    pub title: Option<String>,
}

/// What an [`ExtInf`] holds, at the specification level.
pub struct ExtInfV {
    /// The duration in milliseconds.
    pub duration_millis: u64,
    /// The title, when present.
    pub title: Option<Seq<char>>,
}

impl View for ExtInf {
    type V = ExtInfV;

    open spec fn view(&self) -> ExtInfV {
        ExtInfV {
            duration_millis: self.duration.millis,
            title: match self.title {
                Some(t) => Some(t@),
                Option::None => Option::None,
            },
        }
    }
}

/// The byte-range tag: the next segment is a sub-range of its URI's
/// resource. A range without a start offset continues the previous range
/// on the same URI.
#[derive(Debug, Clone, Copy, PartialEq, Eq, Structural)]
pub struct ExtXByteRange {
    /// The range.
    pub range: ByteRange,
}

impl ExtXByteRange {
    /// The range this tag names.
    pub fn to_range(&self) -> (r: ByteRange)
        ensures
            r == self.range,
    {
        self.range
    }
}

/// The discontinuity marker: an encoding break between the segments on
/// either side of it.
#[derive(Debug, Clone, Copy, PartialEq, Eq, Structural)]
pub struct ExtXDiscontinuity;

/// The decryption-key tag. Once seen, it applies to every later segment
/// and initialization map until another key tag with the same key format
/// supersedes it.
#[derive(Debug, Clone)]
pub struct ExtXKey {
    /// The encryption method.
    pub method: EncryptionMethod,
    /// Where to obtain the key.
    pub uri: Option<String>,
    /// The initialization vector, kept as written.
    pub iv: Option<String>,
    /// How the key is packaged.
    pub key_format: Option<String>,
    /// Which versions of the key format are usable.
    pub key_format_versions: Option<String>,
}

/// What an [`ExtXKey`] holds, at the specification level.
pub struct ExtXKeyV {
    /// The encryption method.
    pub method: EncryptionMethod,
    /// Where to obtain the key.
    pub uri: Option<Seq<char>>,
    /// The initialization vector.
    pub iv: Option<Seq<char>>,
    /// How the key is packaged.
    pub key_format: Option<Seq<char>>,
    /// Which versions of the key format are usable.
    pub key_format_versions: Option<Seq<char>>,
}

impl View for ExtXKey {
    type V = ExtXKeyV;

    open spec fn view(&self) -> ExtXKeyV {
        ExtXKeyV {
            method: self.method,
            uri: match self.uri {
                Some(u) => Some(u@),
                Option::None => Option::None,
            },
            iv: match self.iv {
                Some(u) => Some(u@),
                Option::None => Option::None,
            },
            key_format: match self.key_format {
                Some(u) => Some(u@),
                Option::None => Option::None,
            },
            key_format_versions: match self.key_format_versions {
                Some(u) => Some(u@),
                Option::None => Option::None,
            },
        }
    }
}

impl ExtXKey {
    /// The key format, when one is given.
    pub fn key_format(&self) -> (r: &Option<String>)
        ensures
            r == self.key_format,
    {
        &self.key_format
    }
}

/// The initialization-map tag: where the media initialization section of
/// the following segments is found, and the keys active when it was seen.
#[derive(Debug, Clone)]
pub struct ExtXMap {
    /// The URI of the initialization section.
    pub uri: String,
    /// The sub-range of the resource, when only part of it applies.
    pub range: Option<ByteRange>,
    /// The decryption keys active at the point the tag was seen.
    pub keys: Vec<ExtXKey>,
}

/// What an [`ExtXMap`] holds, at the specification level.
pub struct ExtXMapV {
    /// The URI of the initialization section.
    pub uri: Seq<char>,
    /// The sub-range of the resource, when given.
    pub range: Option<ByteRange>,
    /// The decryption keys active at the point the tag was seen.
    pub keys: Seq<ExtXKeyV>,
}

impl View for ExtXMap {
    type V = ExtXMapV;

    open spec fn view(&self) -> ExtXMapV {
        ExtXMapV {
            uri: self.uri@,
            range: self.range,
            keys: Seq::new(self.keys@.len(), |i: int| self.keys@[i]@),
        }
    }
}

impl ExtXMap {
    /// Records the decryption keys active at the point this tag was seen.
    pub fn set_keys(&mut self, keys: Vec<ExtXKey>)
        ensures
            final(self)@ == (ExtXMapV {
                keys: Seq::new(keys@.len(), |i: int| keys@[i]@),
                ..old(self)@
            }),
    {
        self.keys = keys;
    }
}

/// The program-date-time tag: the wall-clock time of the first sample of
/// the following segment, kept as written.
#[derive(Debug, Clone)]
pub struct ExtXProgramDateTime {
    /// The date-time text.
    pub date_time: String,
}

impl View for ExtXProgramDateTime {
    type V = Seq<char>;

    open spec fn view(&self) -> Seq<char> {
        self.date_time@
    }
}

/// The date-range tag: a span of wall-clock time annotated with
/// attributes. Its attribute list is kept verbatim.
#[derive(Debug, Clone)]
pub struct ExtXDateRange {
    /// The attribute list text, as written.
    pub attributes: String,
}

impl View for ExtXDateRange {
    type V = Seq<char>;

    open spec fn view(&self) -> Seq<char> {
        self.attributes@
    }
}

/// The target-duration tag: the upper bound, in whole seconds, on every
/// segment's rounded duration. A media playlist must carry exactly one.
#[derive(Debug, Clone, Copy, PartialEq, Eq, Structural)]
pub struct ExtXTargetDuration {
    /// The target duration; always a whole number of seconds.
    pub duration: Duration,
}

impl ExtXTargetDuration {
    /// Makes a target-duration tag.
    pub fn new(duration: Duration) -> (r: Self)
        ensures
            r.duration == duration,
    {
        ExtXTargetDuration { duration }
    }

    /// The target duration.
    pub fn duration(&self) -> (r: Duration)
        ensures
            r == self.duration,
    {
        self.duration
    }
}

/// The media-sequence tag: the sequence number of the first segment.
#[derive(Debug, Clone, Copy, PartialEq, Eq, Structural)]
pub struct ExtXMediaSequence {
    /// The sequence number of the first segment in the playlist.
    pub number: u64,
}

/// The discontinuity-sequence tag: how many discontinuities precede the
/// first segment. It may only appear after a segment and before any
/// discontinuity marker.
#[derive(Debug, Clone, Copy, PartialEq, Eq, Structural)]
pub struct ExtXDiscontinuitySequence {
    /// The number of discontinuities preceding the first segment.
    pub number: u64,
}

/// The end-list tag: no further segments will be appended.
#[derive(Debug, Clone, Copy, PartialEq, Eq, Structural)]
pub struct ExtXEndList;

/// The playlist-type tag.
#[derive(Debug, Clone, Copy, PartialEq, Eq, Structural)]
pub struct ExtXPlaylistType {
    /// How the playlist may change over time.
    pub playlist_type: PlaylistType,
}

/// The i-frames-only tag: every segment holds a single independent frame.
#[derive(Debug, Clone, Copy, PartialEq, Eq, Structural)]
pub struct ExtXIFramesOnly;

/// The independent-segments tag: every sample in a segment can be decoded
/// without samples of other segments.
#[derive(Debug, Clone, Copy, PartialEq, Eq, Structural)]
pub struct ExtXIndependentSegments;

/// The start tag: the preferred point at which to start playback, as an
/// offset from the beginning (or, when negative, from the end) of the
/// playlist.
#[derive(Debug, Clone, Copy, PartialEq, Eq, Structural)]
pub struct ExtXStart {
    /// The offset in milliseconds; negative offsets count from the end.
    pub time_offset_millis: i64,
    /// Whether playback must not start before the offset.
    pub precise: bool,
}

/// A directive line decoded to a typed tag value.
#[derive(Debug, Clone)]
pub enum Tag {
    /// The start-of-file marker.
    ExtM3u(ExtM3u),
    /// A protocol-version directive.
    ExtXVersion(ExtXVersion),
    /// A segment-duration tag.
    ExtInf(ExtInf),
    /// A byte-range tag.
    ExtXByteRange(ExtXByteRange),
    /// A discontinuity marker.
    ExtXDiscontinuity(ExtXDiscontinuity),
    /// A decryption-key tag.
    ExtXKey(ExtXKey),
    /// An initialization-map tag.
    ExtXMap(ExtXMap),
    /// A program-date-time tag.
    ExtXProgramDateTime(ExtXProgramDateTime),
    /// A date-range tag.
    ExtXDateRange(ExtXDateRange),
    /// A target-duration tag.
    ExtXTargetDuration(ExtXTargetDuration),
    /// A media-sequence tag.
    ExtXMediaSequence(ExtXMediaSequence),
    /// A discontinuity-sequence tag.
    ExtXDiscontinuitySequence(ExtXDiscontinuitySequence),
    /// An end-list tag.
    ExtXEndList(ExtXEndList),
    /// A playlist-type tag.
    ExtXPlaylistType(ExtXPlaylistType),
    /// An i-frames-only tag.
    ExtXIFramesOnly(ExtXIFramesOnly),
    /// An independent-segments tag.
    ExtXIndependentSegments(ExtXIndependentSegments),
    /// A start tag.
    ExtXStart(ExtXStart),
    /// A rendition tag.
    ExtXMedia(crate::tags::media::ExtXMedia),
    /// A variant-stream tag, master-only; its parameters kept verbatim.
    ExtXStreamInf(String),
    /// An i-frame variant tag, master-only; its parameters kept verbatim.
    ExtXIFrameStreamInf(String),
    /// A session-data tag, master-only; its parameters kept verbatim.
    ExtXSessionData(String),
    /// A session-key tag, master-only; its parameters kept verbatim.
    ExtXSessionKey(String),
    /// A directive this catalog does not recognize, kept verbatim.
    Unknown(String),
}

/// What a [`Tag`] holds, at the specification level.
pub enum TagV {
    /// The start-of-file marker.
    ExtM3u,
    /// A protocol-version directive.
    ExtXVersion(ProtocolVersion),
    /// A segment-duration tag.
    ExtInf(ExtInfV),
    /// A byte-range tag.
    ExtXByteRange(ByteRange),
    /// A discontinuity marker.
    ExtXDiscontinuity,
    /// A decryption-key tag.
    ExtXKey(ExtXKeyV),
    /// An initialization-map tag.
    ExtXMap(ExtXMapV),
    /// A program-date-time tag.
    ExtXProgramDateTime(Seq<char>),
    /// A date-range tag.
    ExtXDateRange(Seq<char>),
    /// A target-duration tag, in milliseconds.
    ExtXTargetDuration(u64),
    /// A media-sequence tag.
    ExtXMediaSequence(u64),
    /// A discontinuity-sequence tag.
    ExtXDiscontinuitySequence(u64),
    /// An end-list tag.
    ExtXEndList,
    /// A playlist-type tag.
    ExtXPlaylistType(PlaylistType),
    /// An i-frames-only tag.
    ExtXIFramesOnly,
    /// An independent-segments tag.
    ExtXIndependentSegments,
    /// A start tag.
    ExtXStart(ExtXStart),
    /// A rendition tag.
    ExtXMedia(crate::tags::media::ExtXMediaV),
    /// A variant-stream tag, master-only.
    ExtXStreamInf(Seq<char>),
    /// An i-frame variant tag, master-only.
    ExtXIFrameStreamInf(Seq<char>),
    /// A session-data tag, master-only.
    ExtXSessionData(Seq<char>),
    /// A session-key tag, master-only.
    ExtXSessionKey(Seq<char>),
    /// An unrecognized directive, kept verbatim.
    Unknown(Seq<char>),
}

impl View for Tag {
    type V = TagV;

    open spec fn view(&self) -> TagV {
        match self {
            Tag::ExtM3u(_) => TagV::ExtM3u,
            Tag::ExtXVersion(t) => TagV::ExtXVersion(t.version),
            Tag::ExtInf(t) => TagV::ExtInf(t@),
            Tag::ExtXByteRange(t) => TagV::ExtXByteRange(t.range),
            Tag::ExtXDiscontinuity(_) => TagV::ExtXDiscontinuity,
            Tag::ExtXKey(t) => TagV::ExtXKey(t@),
            Tag::ExtXMap(t) => TagV::ExtXMap(t@),
            Tag::ExtXProgramDateTime(t) => TagV::ExtXProgramDateTime(t@),
            Tag::ExtXDateRange(t) => TagV::ExtXDateRange(t@),
            Tag::ExtXTargetDuration(t) => TagV::ExtXTargetDuration(t.duration.millis),
            Tag::ExtXMediaSequence(t) => TagV::ExtXMediaSequence(t.number),
            Tag::ExtXDiscontinuitySequence(t) => TagV::ExtXDiscontinuitySequence(t.number),
            Tag::ExtXEndList(_) => TagV::ExtXEndList,
            Tag::ExtXPlaylistType(t) => TagV::ExtXPlaylistType(t.playlist_type),
            Tag::ExtXIFramesOnly(_) => TagV::ExtXIFramesOnly,
            Tag::ExtXIndependentSegments(_) => TagV::ExtXIndependentSegments,
            Tag::ExtXStart(t) => TagV::ExtXStart(*t),
            Tag::ExtXMedia(t) => TagV::ExtXMedia(t@),
            Tag::ExtXStreamInf(p) => TagV::ExtXStreamInf(p@),
            Tag::ExtXIFrameStreamInf(p) => TagV::ExtXIFrameStreamInf(p@),
            Tag::ExtXSessionData(p) => TagV::ExtXSessionData(p@),
            Tag::ExtXSessionKey(p) => TagV::ExtXSessionKey(p@),
            Tag::Unknown(p) => TagV::Unknown(p@),
        }
    }
}

/// The encryption method `v` names, if any: the literal tokens of the
/// format, matched exactly.
pub open spec fn spec_parse_method(v: Seq<char>) -> Option<EncryptionMethod> {
    if v == "NONE"@ {
        Some(EncryptionMethod::NoEncryption)
    } else if v == "AES-128"@ {
        Some(EncryptionMethod::Aes128)
    } else if v == "SAMPLE-AES"@ {
        Some(EncryptionMethod::SampleAes)
    } else {
        Option::None
    }
}

/// The boolean the literal yes/no tokens stand for; anything else is
/// malformed.
pub open spec fn spec_parse_yes_no(v: Seq<char>) -> Option<bool> {
    if v == "YES"@ {
        Some(true)
    } else if v == "NO"@ {
        Some(false)
    } else {
        Option::None
    }
}

/// A byte-range value: a length, optionally followed by `@` and a start
/// offset.
pub open spec fn spec_parse_byte_range(v: Seq<char>) -> Option<ByteRange> {
    match spec_find(v, '@') {
        Option::None => match spec_parse_u64(v) {
            Some(n) => Some(ByteRange { length: n, start: Option::None }),
            Option::None => Option::None,
        },
        Some(a) => {
            match (spec_parse_u64(v.subrange(0, a)), spec_parse_u64(
                v.subrange(a + 1, v.len() as int),
            )) {
                (Some(n), Some(o)) => Some(ByteRange { length: n, start: Some(o) }),
                _ => Option::None,
            }
        },
    }
}

/// A signed decimal-seconds value, in milliseconds; `None` when malformed
/// or out of range.
pub open spec fn spec_parse_signed_millis(v: Seq<char>) -> Option<i64> {
    if v.len() > 0 && v[0] == '-' {
        match spec_parse_duration(v.subrange(1, v.len() as int)) {
            Some(m) => if m <= i64::MAX {
                Some((-(m as int)) as i64)
            } else {
                Option::None
            },
            Option::None => Option::None,
        }
    } else {
        match spec_parse_duration(v) {
            Some(m) => if m <= i64::MAX {
                Some(m as i64)
            } else {
                Option::None
            },
            Option::None => Option::None,
        }
    }
}

/// A version directive's parameter: a version number of the enumeration.
pub open spec fn spec_parse_version_tag(p: Seq<char>) -> Result<TagV, ErrorKind> {
    match spec_parse_u64(p) {
        Some(n) => match ProtocolVersion::spec_from_number(n) {
            Some(v) => Ok(TagV::ExtXVersion(v)),
            Option::None => Err(ErrorKind::InvalidInput),
        },
        Option::None => Err(ErrorKind::InvalidInput),
    }
}

/// A segment-duration tag's parameter: a duration, optionally followed by
/// `,` and a title. An empty title counts as absent.
pub open spec fn spec_parse_inf_tag(p: Seq<char>) -> Result<TagV, ErrorKind> {
    match spec_find(p, ',') {
        Option::None => match spec_parse_duration(p) {
            Some(m) => Ok(TagV::ExtInf(ExtInfV { duration_millis: m, title: Option::None })),
            Option::None => Err(ErrorKind::InvalidInput),
        },
        Some(c) => {
            let title = p.subrange(c + 1, p.len() as int);
            match spec_parse_duration(p.subrange(0, c)) {
                Some(m) => Ok(
                    TagV::ExtInf(
                        ExtInfV {
                            duration_millis: m,
                            title: if title.len() > 0 {
                                Some(title)
                            } else {
                                Option::None
                            },
                        },
                    ),
                ),
                Option::None => Err(ErrorKind::InvalidInput),
            }
        },
    }
}

/// A byte-range tag's parameter.
pub open spec fn spec_parse_byte_range_tag(p: Seq<char>) -> Result<TagV, ErrorKind> {
    match spec_parse_byte_range(p) {
        Some(r) => Ok(TagV::ExtXByteRange(r)),
        Option::None => Err(ErrorKind::InvalidInput),
    }
}

/// A target-duration tag's parameter: a whole number of seconds.
pub open spec fn spec_parse_target_duration_tag(p: Seq<char>) -> Result<TagV, ErrorKind> {
    match spec_parse_u64(p) {
        Some(secs) => if secs * 1000 <= u64::MAX {
            Ok(TagV::ExtXTargetDuration((secs * 1000) as u64))
        } else {
            Err(ErrorKind::InvalidInput)
        },
        Option::None => Err(ErrorKind::InvalidInput),
    }
}

/// A playlist-type tag's parameter.
pub open spec fn spec_parse_playlist_type_tag(p: Seq<char>) -> Result<TagV, ErrorKind> {
    if p == "EVENT"@ {
        Ok(TagV::ExtXPlaylistType(PlaylistType::Event))
    } else if p == "VOD"@ {
        Ok(TagV::ExtXPlaylistType(PlaylistType::Vod))
    } else {
        Err(ErrorKind::InvalidInput)
    }
}

/// The fields of a key tag while its attribute list is folded.
pub struct KeyAccV {
    /// The method seen so far, if any.
    pub method: Option<EncryptionMethod>,
    /// The URI seen so far, if any.
    pub uri: Option<Seq<char>>,
    /// The initialization vector seen so far, if any.
    pub iv: Option<Seq<char>>,
    /// The key format seen so far, if any.
    pub key_format: Option<Seq<char>>,
    /// The key format versions seen so far, if any.
    pub key_format_versions: Option<Seq<char>>,
}

/// The empty key accumulator.
pub open spec fn key_acc_empty() -> KeyAccV {
    KeyAccV {
        method: Option::None,
        uri: Option::None,
        iv: Option::None,
        key_format: Option::None,
        key_format_versions: Option::None,
    }
}

/// Folds one attribute of a key tag into the accumulator: known names set
/// their field (later occurrences win), unknown names are ignored.
pub open spec fn spec_key_step(acc: KeyAccV, n: Seq<char>, v: Seq<char>) -> Result<
    KeyAccV,
    ErrorKind,
> {
    if n == "METHOD"@ {
        match spec_parse_method(v) {
            Some(m) => Ok(KeyAccV { method: Some(m), ..acc }),
            Option::None => Err(ErrorKind::InvalidInput),
        }
    } else if n == "URI"@ {
        Ok(KeyAccV { uri: Some(spec_unquote(v)), ..acc })
    } else if n == "IV"@ {
        Ok(KeyAccV { iv: Some(v), ..acc })
    } else if n == "KEYFORMAT"@ {
        Ok(KeyAccV { key_format: Some(spec_unquote(v)), ..acc })
    } else if n == "KEYFORMATVERSIONS"@ {
        Ok(KeyAccV { key_format_versions: Some(spec_unquote(v)), ..acc })
    } else {
        Ok(acc)
    }
}

/// Folds a key tag's attribute list.
pub open spec fn spec_key_fold(ps: Seq<(Seq<char>, Seq<char>)>, acc: KeyAccV) -> Result<
    KeyAccV,
    ErrorKind,
>
    decreases ps.len(),
{
    if ps.len() == 0 {
        Ok(acc)
    } else {
        match spec_key_step(acc, ps[0].0, ps[0].1) {
            Ok(acc2) => spec_key_fold(ps.drop_first(), acc2),
            Err(e) => Err(e),
        }
    }
}

/// A key tag's parameter: its attribute list, of which `METHOD` is
/// required.
pub open spec fn spec_parse_key_tag(p: Seq<char>) -> Result<TagV, ErrorKind> {
    match spec_parse_pairs(p) {
        Option::None => Err(ErrorKind::InvalidInput),
        Some(ps) => match spec_key_fold(ps, key_acc_empty()) {
            Err(e) => Err(e),
            Ok(acc) => match acc.method {
                Option::None => Err(ErrorKind::MissingAttribute("METHOD"@)),
                Some(m) => Ok(
                    TagV::ExtXKey(
                        ExtXKeyV {
                            method: m,
                            uri: acc.uri,
                            iv: acc.iv,
                            key_format: acc.key_format,
                            key_format_versions: acc.key_format_versions,
                        },
                    ),
                ),
            },
        },
    }
}

/// The fields of an initialization-map tag while its attribute list is
/// folded.
pub struct MapAccV {
    /// The URI seen so far, if any.
    pub uri: Option<Seq<char>>,
    /// The byte range seen so far, if any.
    pub range: Option<ByteRange>,
}

/// Folds one attribute of an initialization-map tag.
pub open spec fn spec_map_step(acc: MapAccV, n: Seq<char>, v: Seq<char>) -> Result<
    MapAccV,
    ErrorKind,
> {
    if n == "URI"@ {
        Ok(MapAccV { uri: Some(spec_unquote(v)), ..acc })
    } else if n == "BYTERANGE"@ {
        match spec_parse_byte_range(spec_unquote(v)) {
            Some(r) => Ok(MapAccV { range: Some(r), ..acc }),
            Option::None => Err(ErrorKind::InvalidInput),
        }
    } else {
        Ok(acc)
    }
}

/// Folds an initialization-map tag's attribute list.
pub open spec fn spec_map_fold(ps: Seq<(Seq<char>, Seq<char>)>, acc: MapAccV) -> Result<
    MapAccV,
    ErrorKind,
>
    decreases ps.len(),
{
    if ps.len() == 0 {
        Ok(acc)
    } else {
        match spec_map_step(acc, ps[0].0, ps[0].1) {
            Ok(acc2) => spec_map_fold(ps.drop_first(), acc2),
            Err(e) => Err(e),
        }
    }
}

/// An initialization-map tag's parameter: its attribute list, of which
/// `URI` is required. The key list starts empty; the assembler fills it.
pub open spec fn spec_parse_map_tag(p: Seq<char>) -> Result<TagV, ErrorKind> {
    match spec_parse_pairs(p) {
        Option::None => Err(ErrorKind::InvalidInput),
        Some(ps) => match spec_map_fold(ps, MapAccV { uri: Option::None, range: Option::None }) {
            Err(e) => Err(e),
            Ok(acc) => match acc.uri {
                Option::None => Err(ErrorKind::MissingAttribute("URI"@)),
                Some(u) => Ok(
                    TagV::ExtXMap(ExtXMapV { uri: u, range: acc.range, keys: Seq::empty() }),
                ),
            },
        },
    }
}

/// The fields of a start tag while its attribute list is folded.
pub struct StartAccV {
    /// The offset seen so far, if any.
    pub time_offset_millis: Option<i64>,
    /// The precise flag seen so far, if any.
    pub precise: Option<bool>,
}

/// Folds one attribute of a start tag.
pub open spec fn spec_start_step(acc: StartAccV, n: Seq<char>, v: Seq<char>) -> Result<
    StartAccV,
    ErrorKind,
> {
    if n == "TIME-OFFSET"@ {
        match spec_parse_signed_millis(v) {
            Some(m) => Ok(StartAccV { time_offset_millis: Some(m), ..acc }),
            Option::None => Err(ErrorKind::InvalidInput),
        }
    } else if n == "PRECISE"@ {
        match spec_parse_yes_no(v) {
            Some(b) => Ok(StartAccV { precise: Some(b), ..acc }),
            Option::None => Err(ErrorKind::InvalidInput),
        }
    } else {
        Ok(acc)
    }
}

/// Folds a start tag's attribute list.
pub open spec fn spec_start_fold(ps: Seq<(Seq<char>, Seq<char>)>, acc: StartAccV) -> Result<
    StartAccV,
    ErrorKind,
>
    decreases ps.len(),
{
    if ps.len() == 0 {
        Ok(acc)
    } else {
        match spec_start_step(acc, ps[0].0, ps[0].1) {
            Ok(acc2) => spec_start_fold(ps.drop_first(), acc2),
            Err(e) => Err(e),
        }
    }
}

/// A start tag's parameter: its attribute list, of which `TIME-OFFSET` is
/// required; `PRECISE` is absent-for-no.
pub open spec fn spec_parse_start_tag(p: Seq<char>) -> Result<TagV, ErrorKind> {
    match spec_parse_pairs(p) {
        Option::None => Err(ErrorKind::InvalidInput),
        Some(ps) => match spec_start_fold(
            ps,
            StartAccV { time_offset_millis: Option::None, precise: Option::None },
        ) {
            Err(e) => Err(e),
            Ok(acc) => match acc.time_offset_millis {
                Option::None => Err(ErrorKind::MissingAttribute("TIME-OFFSET"@)),
                Some(m) => Ok(
                    TagV::ExtXStart(
                        ExtXStart {
                            time_offset_millis: m,
                            precise: match acc.precise {
                                Some(b) => b,
                                Option::None => false,
                            },
                        },
                    ),
                ),
            },
        },
    }
}

/// The tag a directive line stands for: the name before the first `:`
/// selects the grammar of the parameter text after it.
pub open spec fn spec_dispatch(line: Seq<char>) -> Result<TagV, ErrorKind> {
    let col = spec_find(line, ':');
    let name = match col {
        Some(c) => line.subrange(0, c),
        Option::None => line,
    };
    let param = match col {
        Some(c) => line.subrange(c + 1, line.len() as int),
        Option::None => Seq::empty(),
    };
    let has_param = col is Some;
    if name == "#EXTM3U"@ {
        if !has_param {
            Ok(TagV::ExtM3u)
        } else {
            Ok(TagV::Unknown(line))
        }
    } else if name == "#EXT-X-VERSION"@ {
        if has_param {
            spec_parse_version_tag(param)
        } else {
            Ok(TagV::Unknown(line))
        }
    } else if name == "#EXTINF"@ {
        if has_param {
            spec_parse_inf_tag(param)
        } else {
            Ok(TagV::Unknown(line))
        }
    } else if name == "#EXT-X-BYTERANGE"@ {
        if has_param {
            spec_parse_byte_range_tag(param)
        } else {
            Ok(TagV::Unknown(line))
        }
    } else if name == "#EXT-X-DISCONTINUITY"@ {
        if !has_param {
            Ok(TagV::ExtXDiscontinuity)
        } else {
            Ok(TagV::Unknown(line))
        }
    } else if name == "#EXT-X-KEY"@ {
        if has_param {
            spec_parse_key_tag(param)
        } else {
            Ok(TagV::Unknown(line))
        }
    } else if name == "#EXT-X-MAP"@ {
        if has_param {
            spec_parse_map_tag(param)
        } else {
            Ok(TagV::Unknown(line))
        }
    } else if name == "#EXT-X-PROGRAM-DATE-TIME"@ {
        if has_param {
            Ok(TagV::ExtXProgramDateTime(param))
        } else {
            Ok(TagV::Unknown(line))
        }
    } else if name == "#EXT-X-DATERANGE"@ {
        if has_param {
            Ok(TagV::ExtXDateRange(param))
        } else {
            Ok(TagV::Unknown(line))
        }
    } else if name == "#EXT-X-TARGETDURATION"@ {
        if has_param {
            spec_parse_target_duration_tag(param)
        } else {
            Ok(TagV::Unknown(line))
        }
    } else if name == "#EXT-X-MEDIA-SEQUENCE"@ {
        if has_param {
            match spec_parse_u64(param) {
                Some(n) => Ok(TagV::ExtXMediaSequence(n)),
                Option::None => Err(ErrorKind::InvalidInput),
            }
        } else {
            Ok(TagV::Unknown(line))
        }
    } else if name == "#EXT-X-DISCONTINUITY-SEQUENCE"@ {
        if has_param {
            match spec_parse_u64(param) {
                Some(n) => Ok(TagV::ExtXDiscontinuitySequence(n)),
                Option::None => Err(ErrorKind::InvalidInput),
            }
        } else {
            Ok(TagV::Unknown(line))
        }
    } else if name == "#EXT-X-ENDLIST"@ {
        if !has_param {
            Ok(TagV::ExtXEndList)
        } else {
            Ok(TagV::Unknown(line))
        }
    } else if name == "#EXT-X-PLAYLIST-TYPE"@ {
        if has_param {
            spec_parse_playlist_type_tag(param)
        } else {
            Ok(TagV::Unknown(line))
        }
    } else if name == "#EXT-X-I-FRAMES-ONLY"@ {
        if !has_param {
            Ok(TagV::ExtXIFramesOnly)
        } else {
            Ok(TagV::Unknown(line))
        }
    } else if name == "#EXT-X-INDEPENDENT-SEGMENTS"@ {
        if !has_param {
            Ok(TagV::ExtXIndependentSegments)
        } else {
            Ok(TagV::Unknown(line))
        }
    } else if name == "#EXT-X-START"@ {
        if has_param {
            spec_parse_start_tag(param)
        } else {
            Ok(TagV::Unknown(line))
        }
    } else if name == "#EXT-X-MEDIA"@ {
        if has_param {
            crate::tags::media::spec_parse_media_tag(param)
        } else {
            Ok(TagV::Unknown(line))
        }
    } else if name == "#EXT-X-STREAM-INF"@ {
        if has_param {
            Ok(TagV::ExtXStreamInf(param))
        } else {
            Ok(TagV::Unknown(line))
        }
    } else if name == "#EXT-X-I-FRAME-STREAM-INF"@ {
        if has_param {
            Ok(TagV::ExtXIFrameStreamInf(param))
        } else {
            Ok(TagV::Unknown(line))
        }
    } else if name == "#EXT-X-SESSION-DATA"@ {
        if has_param {
            Ok(TagV::ExtXSessionData(param))
        } else {
            Ok(TagV::Unknown(line))
        }
    } else if name == "#EXT-X-SESSION-KEY"@ {
        if has_param {
            Ok(TagV::ExtXSessionKey(param))
        } else {
            Ok(TagV::Unknown(line))
        }
    } else {
        Ok(TagV::Unknown(line))
    }
}

/// A fresh copy of an optional string.
pub(crate) fn clone_opt_string(a: &Option<String>) -> (r: Option<String>)
    ensures
        opt_string_view(r) == opt_string_view(*a),
{
    match a {
        Some(x) => Some(x.clone()),
        Option::None => Option::None,
    }
}

/// A fresh copy of a key tag.
pub(crate) fn clone_key(k: &ExtXKey) -> (r: ExtXKey)
    ensures
        r@ == k@,
{
    ExtXKey {
        method: k.method,
        uri: clone_opt_string(&k.uri),
        iv: clone_opt_string(&k.iv),
        key_format: clone_opt_string(&k.key_format),
        key_format_versions: clone_opt_string(&k.key_format_versions),
    }
}

/// A fresh copy of a key list.
pub(crate) fn clone_keys(v: &Vec<ExtXKey>) -> (r: Vec<ExtXKey>)
    ensures
        Seq::new(r@.len(), |i: int| r@[i]@) == Seq::new(v@.len(), |i: int| v@[i]@),
{
    let mut r: Vec<ExtXKey> = Vec::new();
    let n = v.len();
    let mut i: usize = 0;
    while i < n
        invariant
            0 <= i <= n == v@.len(),
            r@.len() == i,
            forall|m: int| 0 <= m < i ==> (#[trigger] r@[m])@ == v@[m]@,
        decreases n - i,
    {
        r.push(clone_key(&v[i]));
        i = i + 1;
    }
    proof {
        assert(Seq::new(r@.len(), |i: int| r@[i]@) =~= Seq::new(v@.len(), |i: int| v@[i]@));
    }
    r
}

/// Whether two optional strings hold the same text.
pub(crate) fn opt_str_eq(a: &Option<String>, b: &Option<String>) -> (r: bool)
    ensures
        r == (opt_string_view(*a) == opt_string_view(*b)),
{
    match (a, b) {
        (Option::None, Option::None) => true,
        (Some(x), Some(y)) => x.eq(y),
        _ => false,
    }
}

impl PartialEq for ExtInf {
    fn eq(&self, other: &Self) -> (r: bool) {
        self.duration == other.duration && opt_str_eq(&self.title, &other.title)
    }
}

impl vstd::std_specs::cmp::PartialEqSpecImpl for ExtInf {
    open spec fn obeys_eq_spec() -> bool {
        true
    }

    open spec fn eq_spec(&self, other: &Self) -> bool {
        self@ == other@
    }
}

impl PartialEq for ExtXKey {
    fn eq(&self, other: &Self) -> (r: bool) {
        self.method == other.method && opt_str_eq(&self.uri, &other.uri) && opt_str_eq(
            &self.iv,
            &other.iv,
        ) && opt_str_eq(&self.key_format, &other.key_format) && opt_str_eq(
            &self.key_format_versions,
            &other.key_format_versions,
        )
    }
}

impl vstd::std_specs::cmp::PartialEqSpecImpl for ExtXKey {
    open spec fn obeys_eq_spec() -> bool {
        true
    }

    open spec fn eq_spec(&self, other: &Self) -> bool {
        self@ == other@
    }
}

/// Whether two key lists hold the same keys in the same order.
pub(crate) fn keys_eq(a: &Vec<ExtXKey>, b: &Vec<ExtXKey>) -> (r: bool)
    ensures
        r == (Seq::new(a@.len(), |i: int| a@[i]@) == Seq::new(b@.len(), |i: int| b@[i]@)),
{
    let ghost av = Seq::new(a@.len(), |i: int| a@[i]@);
    let ghost bv = Seq::new(b@.len(), |i: int| b@[i]@);
    if a.len() != b.len() {
        proof {
            assert(av.len() != bv.len());
        }
        return false;
    }
    let n = a.len();
    let mut i: usize = 0;
    while i < n
        invariant
            0 <= i <= n == a@.len() == b@.len(),
            av == Seq::new(a@.len(), |k: int| a@[k]@),
            bv == Seq::new(b@.len(), |k: int| b@[k]@),
            forall|m: int| 0 <= m < i ==> av[m] == bv[m],
        decreases n - i,
    {
        if !(a[i] == b[i]) {
            proof {
                assert(av[i as int] != bv[i as int]);
            }
            return false;
        }
        i = i + 1;
    }
    proof {
        assert(av =~= bv);
    }
    true
}

impl PartialEq for ExtXMap {
    fn eq(&self, other: &Self) -> (r: bool) {
        let range_eq = match (self.range, other.range) {
            (Option::None, Option::None) => true,
            (Some(x), Some(y)) => x == y,
            _ => false,
        };
        self.uri.eq(&other.uri) && range_eq && keys_eq(&self.keys, &other.keys)
    }
}

impl vstd::std_specs::cmp::PartialEqSpecImpl for ExtXMap {
    open spec fn obeys_eq_spec() -> bool {
        true
    }

    open spec fn eq_spec(&self, other: &Self) -> bool {
        self@ == other@
    }
}

impl PartialEq for ExtXProgramDateTime {
    fn eq(&self, other: &Self) -> (r: bool) {
        self.date_time.eq(&other.date_time)
    }
}

impl vstd::std_specs::cmp::PartialEqSpecImpl for ExtXProgramDateTime {
    open spec fn obeys_eq_spec() -> bool {
        true
    }

    open spec fn eq_spec(&self, other: &Self) -> bool {
        self@ == other@
    }
}

impl PartialEq for ExtXDateRange {
    fn eq(&self, other: &Self) -> (r: bool) {
        self.attributes.eq(&other.attributes)
    }
}

impl vstd::std_specs::cmp::PartialEqSpecImpl for ExtXDateRange {
    open spec fn obeys_eq_spec() -> bool {
        true
    }

    open spec fn eq_spec(&self, other: &Self) -> bool {
        self@ == other@
    }
}

/// Whether the outcome `r` agrees with the specified outcome `sp`: the
/// same tag on success, an error of the same kind on failure.
pub open spec fn dispatch_matches(r: Result<Tag, Error>, sp: Result<TagV, ErrorKind>) -> bool {
    match r {
        Ok(t) => sp == Result::<TagV, ErrorKind>::Ok(t@),
        Err(e) => sp == Result::<TagV, ErrorKind>::Err(e@),
    }
}

/// Parses the characters of `s` in `[a, b)` as a version parameter.
fn parse_version_range(s: &Vec<char>, a: usize, b: usize) -> (r: Result<Tag, Error>)
    requires
        a <= b <= s@.len(),
    ensures
        dispatch_matches(r, spec_parse_version_tag(s@.subrange(a as int, b as int))),
{
    match parse_u64_range(s, a, b) {
        Some(n) => match ProtocolVersion::from_number(n) {
            Some(v) => Ok(Tag::ExtXVersion(ExtXVersion { version: v })),
            Option::None => Err(Error::InvalidInput),
        },
        Option::None => Err(Error::InvalidInput),
    }
}

/// Parses the characters of `s` in `[a, b)` as a segment-duration
/// parameter.
fn parse_inf_range(s: &Vec<char>, a: usize, b: usize) -> (r: Result<Tag, Error>)
    requires
        a <= b <= s@.len(),
    ensures
        dispatch_matches(r, spec_parse_inf_tag(s@.subrange(a as int, b as int))),
{
    let ghost p = s@.subrange(a as int, b as int);
    match find_char_range(s, a, b, ',') {
        Option::None => {
            match parse_duration_range(s, a, b) {
                Some(m) => Ok(
                    Tag::ExtInf(ExtInf { duration: Duration::from_millis(m), title: Option::None }),
                ),
                Option::None => Err(Error::InvalidInput),
            }
        }
        Some(c) => {
            proof {
                assert(p.subrange(0, c - a) =~= s@.subrange(a as int, c as int));
                assert(p.subrange(c - a + 1, p.len() as int) =~= s@.subrange(c + 1, b as int));
            }
            match parse_duration_range(s, a, c) {
                Some(m) => {
                    let title = if c + 1 < b {
                        Some(chars_to_string(&copy_range(s, c + 1, b)))
                    } else {
                        Option::None
                    };
                    Ok(Tag::ExtInf(ExtInf { duration: Duration::from_millis(m), title }))
                }
                Option::None => Err(Error::InvalidInput),
            }
        }
    }
}

/// Parses the characters of `s` in `[a, b)` as a byte-range value.
fn parse_byte_range_val(s: &Vec<char>, a: usize, b: usize) -> (r: Option<ByteRange>)
    requires
        a <= b <= s@.len(),
    ensures
        r == spec_parse_byte_range(s@.subrange(a as int, b as int)),
{
    let ghost p = s@.subrange(a as int, b as int);
    match find_char_range(s, a, b, '@') {
        Option::None => {
            match parse_u64_range(s, a, b) {
                Some(n) => Some(ByteRange { length: n, start: Option::None }),
                Option::None => Option::None,
            }
        }
        Some(at) => {
            proof {
                assert(p.subrange(0, at - a) =~= s@.subrange(a as int, at as int));
                assert(p.subrange(at - a + 1, p.len() as int) =~= s@.subrange(at + 1, b as int));
            }
            match (parse_u64_range(s, a, at), parse_u64_range(s, at + 1, b)) {
                (Some(n), Some(o)) => Some(ByteRange { length: n, start: Some(o) }),
                _ => Option::None,
            }
        }
    }
}

/// Parses the characters of `s` in `[a, b)` as a target-duration
/// parameter.
fn parse_target_duration_range(s: &Vec<char>, a: usize, b: usize) -> (r: Result<Tag, Error>)
    requires
        a <= b <= s@.len(),
    ensures
        dispatch_matches(r, spec_parse_target_duration_tag(s@.subrange(a as int, b as int))),
{
    match parse_u64_range(s, a, b) {
        Some(secs) => {
            if secs <= u64::MAX / 1000 {
                proof {
                    assert(secs * 1000 <= u64::MAX) by (nonlinear_arith)
                        requires
                            secs <= u64::MAX / 1000,
                    ;
                }
                Ok(
                    Tag::ExtXTargetDuration(
                        ExtXTargetDuration { duration: Duration::from_millis(secs * 1000) },
                    ),
                )
            } else {
                proof {
                    assert(secs * 1000 > u64::MAX) by (nonlinear_arith)
                        requires
                            secs > u64::MAX / 1000,
                    ;
                }
                Err(Error::InvalidInput)
            }
        }
        Option::None => Err(Error::InvalidInput),
    }
}

/// Parses the characters of `s` in `[a, b)` as a signed decimal-seconds
/// value, in milliseconds.
fn parse_signed_millis_range(s: &Vec<char>, a: usize, b: usize) -> (r: Option<i64>)
    requires
        a <= b <= s@.len(),
    ensures
        r == spec_parse_signed_millis(s@.subrange(a as int, b as int)),
{
    let ghost p = s@.subrange(a as int, b as int);
    if a < b && s[a] == '-' {
        proof {
            assert(p.subrange(1, p.len() as int) =~= s@.subrange(a + 1, b as int));
        }
        match parse_duration_range(s, a + 1, b) {
            Some(m) => {
                if m <= i64::MAX as u64 {
                    Some(-(m as i64))
                } else {
                    Option::None
                }
            }
            Option::None => Option::None,
        }
    } else {
        match parse_duration_range(s, a, b) {
            Some(m) => {
                if m <= i64::MAX as u64 {
                    Some(m as i64)
                } else {
                    Option::None
                }
            }
            Option::None => Option::None,
        }
    }
}

/// The view of an optional owned string.
pub open spec fn opt_string_view(v: Option<String>) -> Option<Seq<char>> {
    match v {
        Some(u) => Some(u@),
        Option::None => Option::None,
    }
}

/// Parses the characters of `s` in `[a, b)` as a key tag's parameter.
fn parse_key_range(s: &Vec<char>, a: usize, b: usize) -> (r: Result<Tag, Error>)
    requires
        a <= b <= s@.len(),
    ensures
        dispatch_matches(r, spec_parse_key_tag(s@.subrange(a as int, b as int))),
{
    let ps = match parse_pairs(s, a, b) {
        Some(ps) => ps,
        Option::None => {
            return Err(Error::InvalidInput);
        }
    };
    let ghost psv = pairs_view(ps@);
    let mut method: Option<EncryptionMethod> = Option::None;
    let mut uri: Option<String> = Option::None;
    let mut iv: Option<String> = Option::None;
    let mut key_format: Option<String> = Option::None;
    let mut key_format_versions: Option<String> = Option::None;
    let n = ps.len();
    let mut k: usize = 0;
    proof {
        assert(psv.skip(0) =~= psv);
    }
    while k < n
        invariant
            0 <= k <= n == ps@.len(),
            a <= b <= s@.len(),
            psv == pairs_view(ps@),
            spec_parse_pairs(s@.subrange(a as int, b as int)) == Some(psv),
            spec_key_fold(psv, key_acc_empty()) == spec_key_fold(
                psv.skip(k as int),
                KeyAccV {
                    method: method,
                    uri: opt_string_view(uri),
                    iv: opt_string_view(iv),
                    key_format: opt_string_view(key_format),
                    key_format_versions: opt_string_view(key_format_versions),
                },
            ),
        decreases n - k,
    {
        let ghost acc_pre = KeyAccV {
            method: method,
            uri: opt_string_view(uri),
            iv: opt_string_view(iv),
            key_format: opt_string_view(key_format),
            key_format_versions: opt_string_view(key_format_versions),
        };
        let name = &ps[k].0;
        let value = &ps[k].1;
        proof {
            assert(psv.skip(k as int)[0] == psv[k as int]);
            assert(psv.skip(k as int).drop_first() =~= psv.skip(k + 1));
            assert(psv[k as int] == (name@, value@));
        }
        if vec_eq_str(name, "METHOD") {
            if vec_eq_str(value, "NONE") {
                method = Some(EncryptionMethod::NoEncryption);
            } else if vec_eq_str(value, "AES-128") {
                method = Some(EncryptionMethod::Aes128);
            } else if vec_eq_str(value, "SAMPLE-AES") {
                method = Some(EncryptionMethod::SampleAes);
            } else {
                proof {
                    assert(spec_key_step(acc_pre, name@, value@) == Result::<
                        KeyAccV,
                        ErrorKind,
                    >::Err(ErrorKind::InvalidInput));
                }
                return Err(Error::InvalidInput);
            }
        } else if vec_eq_str(name, "URI") {
            uri = Some(chars_to_string(&unquote_vec(value)));
        } else if vec_eq_str(name, "IV") {
            iv = Some(chars_to_string(&copy_range(value, 0, value.len())));
            proof {
                assert(value@.subrange(0, value@.len() as int) =~= value@);
            }
        } else if vec_eq_str(name, "KEYFORMAT") {
            key_format = Some(chars_to_string(&unquote_vec(value)));
        } else if vec_eq_str(name, "KEYFORMATVERSIONS") {
            key_format_versions = Some(chars_to_string(&unquote_vec(value)));
        }
        proof {
            assert(spec_key_step(acc_pre, name@, value@) == Result::<KeyAccV, ErrorKind>::Ok(
                KeyAccV {
                    method: method,
                    uri: opt_string_view(uri),
                    iv: opt_string_view(iv),
                    key_format: opt_string_view(key_format),
                    key_format_versions: opt_string_view(key_format_versions),
                },
            ));
        }
        k = k + 1;
    }
    proof {
        assert(psv.skip(n as int) =~= Seq::<(Seq<char>, Seq<char>)>::empty());
    }
    match method {
        Option::None => Err(Error::MissingAttribute(String::from_str("METHOD"))),
        Some(m) => Ok(
            Tag::ExtXKey(ExtXKey { method: m, uri, iv, key_format, key_format_versions }),
        ),
    }
}

/// Parses the characters of `s` in `[a, b)` as an initialization-map
/// tag's parameter.
fn parse_map_range(s: &Vec<char>, a: usize, b: usize) -> (r: Result<Tag, Error>)
    requires
        a <= b <= s@.len(),
    ensures
        dispatch_matches(r, spec_parse_map_tag(s@.subrange(a as int, b as int))),
{
    let ps = match parse_pairs(s, a, b) {
        Some(ps) => ps,
        Option::None => {
            return Err(Error::InvalidInput);
        }
    };
    let ghost psv = pairs_view(ps@);
    let mut uri: Option<String> = Option::None;
    let mut range: Option<ByteRange> = Option::None;
    let n = ps.len();
    let mut k: usize = 0;
    proof {
        assert(psv.skip(0) =~= psv);
    }
    while k < n
        invariant
            0 <= k <= n == ps@.len(),
            a <= b <= s@.len(),
            psv == pairs_view(ps@),
            spec_parse_pairs(s@.subrange(a as int, b as int)) == Some(psv),
            spec_map_fold(psv, MapAccV { uri: Option::None, range: Option::None }) == spec_map_fold(
                psv.skip(k as int),
                MapAccV { uri: opt_string_view(uri), range: range },
            ),
        decreases n - k,
    {
        let ghost acc_pre = MapAccV { uri: opt_string_view(uri), range: range };
        let name = &ps[k].0;
        let value = &ps[k].1;
        proof {
            assert(psv.skip(k as int)[0] == psv[k as int]);
            assert(psv.skip(k as int).drop_first() =~= psv.skip(k + 1));
            assert(psv[k as int] == (name@, value@));
        }
        if vec_eq_str(name, "URI") {
            uri = Some(chars_to_string(&unquote_vec(value)));
        } else if vec_eq_str(name, "BYTERANGE") {
            let unq = unquote_vec(value);
            proof {
                assert(unq@.subrange(0, unq@.len() as int) =~= unq@);
            }
            match parse_byte_range_val(&unq, 0, unq.len()) {
                Some(r0) => {
                    range = Some(r0);
                }
                Option::None => {
                    proof {
                        assert(spec_map_step(acc_pre, name@, value@) == Result::<
                            MapAccV,
                            ErrorKind,
                        >::Err(ErrorKind::InvalidInput));
                    }
                    return Err(Error::InvalidInput);
                }
            }
        }
        proof {
            assert(spec_map_step(acc_pre, name@, value@) == Result::<MapAccV, ErrorKind>::Ok(
                MapAccV { uri: opt_string_view(uri), range: range },
            ));
        }
        k = k + 1;
    }
    proof {
        assert(psv.skip(n as int) =~= Seq::<(Seq<char>, Seq<char>)>::empty());
    }
    match uri {
        Option::None => Err(Error::MissingAttribute(String::from_str("URI"))),
        Some(u) => {
            let t = ExtXMap { uri: u, range, keys: Vec::new() };
            proof {
                assert(t@.keys =~= Seq::<ExtXKeyV>::empty());
            }
            Ok(Tag::ExtXMap(t))
        }
    }
}

/// Parses the characters of `s` in `[a, b)` as a start tag's parameter.
fn parse_start_range(s: &Vec<char>, a: usize, b: usize) -> (r: Result<Tag, Error>)
    requires
        a <= b <= s@.len(),
    ensures
        dispatch_matches(r, spec_parse_start_tag(s@.subrange(a as int, b as int))),
{
    let ps = match parse_pairs(s, a, b) {
        Some(ps) => ps,
        Option::None => {
            return Err(Error::InvalidInput);
        }
    };
    let ghost psv = pairs_view(ps@);
    let mut time_offset_millis: Option<i64> = Option::None;
    let mut precise: Option<bool> = Option::None;
    let n = ps.len();
    let mut k: usize = 0;
    proof {
        assert(psv.skip(0) =~= psv);
    }
    while k < n
        invariant
            0 <= k <= n == ps@.len(),
            a <= b <= s@.len(),
            psv == pairs_view(ps@),
            spec_parse_pairs(s@.subrange(a as int, b as int)) == Some(psv),
            spec_start_fold(psv, StartAccV { time_offset_millis: Option::None, precise: Option::None }) == spec_start_fold(
                psv.skip(k as int),
                StartAccV { time_offset_millis: time_offset_millis, precise: precise },
            ),
        decreases n - k,
    {
        let ghost acc_pre = StartAccV {
            time_offset_millis: time_offset_millis,
            precise: precise,
        };
        let name = &ps[k].0;
        let value = &ps[k].1;
        proof {
            assert(psv.skip(k as int)[0] == psv[k as int]);
            assert(psv.skip(k as int).drop_first() =~= psv.skip(k + 1));
            assert(psv[k as int] == (name@, value@));
        }
        if vec_eq_str(name, "TIME-OFFSET") {
            proof {
                assert(value@.subrange(0, value@.len() as int) =~= value@);
            }
            match parse_signed_millis_range(value, 0, value.len()) {
                Some(m) => {
                    time_offset_millis = Some(m);
                }
                Option::None => {
                    proof {
                        assert(spec_start_step(acc_pre, name@, value@) == Result::<
                            StartAccV,
                            ErrorKind,
                        >::Err(ErrorKind::InvalidInput));
                    }
                    return Err(Error::InvalidInput);
                }
            }
        } else if vec_eq_str(name, "PRECISE") {
            if vec_eq_str(value, "YES") {
                precise = Some(true);
            } else if vec_eq_str(value, "NO") {
                precise = Some(false);
            } else {
                proof {
                    assert(spec_start_step(acc_pre, name@, value@) == Result::<
                        StartAccV,
                        ErrorKind,
                    >::Err(ErrorKind::InvalidInput));
                }
                return Err(Error::InvalidInput);
            }
        }
        proof {
            assert(spec_start_step(acc_pre, name@, value@) == Result::<StartAccV, ErrorKind>::Ok(
                StartAccV { time_offset_millis: time_offset_millis, precise: precise },
            ));
        }
        k = k + 1;
    }
    proof {
        assert(psv.skip(n as int) =~= Seq::<(Seq<char>, Seq<char>)>::empty());
    }
    match time_offset_millis {
        Option::None => Err(Error::MissingAttribute(String::from_str("TIME-OFFSET"))),
        Some(m) => Ok(
            Tag::ExtXStart(
                ExtXStart {
                    time_offset_millis: m,
                    precise: match precise {
                        Some(b) => b,
                        Option::None => false,
                    },
                },
            ),
        ),
    }
}

/// Decodes the directive line held in `s` at `[i, j)` into a tag value.
///
/// The line is split at the first `:` into a name and a parameter string;
/// the name selects the parameter grammar. A name outside the catalog, or
/// a recognized name whose colon-form does not fit its grammar's shape,
/// yields [`Tag::Unknown`] with the line kept verbatim.
pub fn dispatch(s: &Vec<char>, i: usize, j: usize) -> (r: Result<Tag, Error>)
    requires
        i <= j <= s@.len(),
    ensures
        dispatch_matches(r, spec_dispatch(s@.subrange(i as int, j as int))),
{
    let ghost line = s@.subrange(i as int, j as int);
    let col = find_char_range(s, i, j, ':');
    let ne: usize;
    let ps: usize;
    let has_param: bool;
    match col {
        Some(c) => {
            ne = c;
            ps = c + 1;
            has_param = true;
            proof {
                assert(line.subrange(0, c - i) =~= s@.subrange(i as int, c as int));
                assert(line.subrange(c - i + 1, line.len() as int) =~= s@.subrange(
                    c + 1,
                    j as int,
                ));
            }
        }
        Option::None => {
            ne = j;
            ps = j;
            has_param = false;
            proof {
                assert(line.subrange(0, line.len() as int) =~= line);
            }
        }
    }
    let ghost param = s@.subrange(ps as int, j as int);
    if crate::text::range_eq_str(s, i, ne, "#EXTM3U") {
        if !has_param {
            return Ok(Tag::ExtM3u(ExtM3u));
        }
        return Ok(Tag::Unknown(chars_to_string(&copy_range(s, i, j))));
    } else if crate::text::range_eq_str(s, i, ne, "#EXT-X-VERSION") {
        if has_param {
            return parse_version_range(s, ps, j);
        }
        return Ok(Tag::Unknown(chars_to_string(&copy_range(s, i, j))));
    } else if crate::text::range_eq_str(s, i, ne, "#EXTINF") {
        if has_param {
            return parse_inf_range(s, ps, j);
        }
        return Ok(Tag::Unknown(chars_to_string(&copy_range(s, i, j))));
    } else if crate::text::range_eq_str(s, i, ne, "#EXT-X-BYTERANGE") {
        if has_param {
            return match parse_byte_range_val(s, ps, j) {
                Some(r0) => Ok(Tag::ExtXByteRange(ExtXByteRange { range: r0 })),
                Option::None => Err(Error::InvalidInput),
            };
        }
        return Ok(Tag::Unknown(chars_to_string(&copy_range(s, i, j))));
    } else if crate::text::range_eq_str(s, i, ne, "#EXT-X-DISCONTINUITY") {
        if !has_param {
            return Ok(Tag::ExtXDiscontinuity(ExtXDiscontinuity));
        }
        return Ok(Tag::Unknown(chars_to_string(&copy_range(s, i, j))));
    } else if crate::text::range_eq_str(s, i, ne, "#EXT-X-KEY") {
        if has_param {
            return parse_key_range(s, ps, j);
        }
        return Ok(Tag::Unknown(chars_to_string(&copy_range(s, i, j))));
    } else if crate::text::range_eq_str(s, i, ne, "#EXT-X-MAP") {
        if has_param {
            return parse_map_range(s, ps, j);
        }
        return Ok(Tag::Unknown(chars_to_string(&copy_range(s, i, j))));
    } else if crate::text::range_eq_str(s, i, ne, "#EXT-X-PROGRAM-DATE-TIME") {
        if has_param {
            return Ok(
                Tag::ExtXProgramDateTime(
                    ExtXProgramDateTime { date_time: chars_to_string(&copy_range(s, ps, j)) },
                ),
            );
        }
        return Ok(Tag::Unknown(chars_to_string(&copy_range(s, i, j))));
    } else if crate::text::range_eq_str(s, i, ne, "#EXT-X-DATERANGE") {
        if has_param {
            return Ok(
                Tag::ExtXDateRange(
                    ExtXDateRange { attributes: chars_to_string(&copy_range(s, ps, j)) },
                ),
            );
        }
        return Ok(Tag::Unknown(chars_to_string(&copy_range(s, i, j))));
    } else if crate::text::range_eq_str(s, i, ne, "#EXT-X-TARGETDURATION") {
        if has_param {
            return parse_target_duration_range(s, ps, j);
        }
        return Ok(Tag::Unknown(chars_to_string(&copy_range(s, i, j))));
    } else if crate::text::range_eq_str(s, i, ne, "#EXT-X-MEDIA-SEQUENCE") {
        if has_param {
            return match parse_u64_range(s, ps, j) {
                Some(n) => Ok(Tag::ExtXMediaSequence(ExtXMediaSequence { number: n })),
                Option::None => Err(Error::InvalidInput),
            };
        }
        return Ok(Tag::Unknown(chars_to_string(&copy_range(s, i, j))));
    } else if crate::text::range_eq_str(s, i, ne, "#EXT-X-DISCONTINUITY-SEQUENCE") {
        if has_param {
            return match parse_u64_range(s, ps, j) {
                Some(n) => Ok(
                    Tag::ExtXDiscontinuitySequence(ExtXDiscontinuitySequence { number: n }),
                ),
                Option::None => Err(Error::InvalidInput),
            };
        }
        return Ok(Tag::Unknown(chars_to_string(&copy_range(s, i, j))));
    } else if crate::text::range_eq_str(s, i, ne, "#EXT-X-ENDLIST") {
        if !has_param {
            return Ok(Tag::ExtXEndList(ExtXEndList));
        }
        return Ok(Tag::Unknown(chars_to_string(&copy_range(s, i, j))));
    } else if crate::text::range_eq_str(s, i, ne, "#EXT-X-PLAYLIST-TYPE") {
        if has_param {
            return if crate::text::range_eq_str(s, ps, j, "EVENT") {
                Ok(Tag::ExtXPlaylistType(ExtXPlaylistType { playlist_type: PlaylistType::Event }))
            } else if crate::text::range_eq_str(s, ps, j, "VOD") {
                Ok(Tag::ExtXPlaylistType(ExtXPlaylistType { playlist_type: PlaylistType::Vod }))
            } else {
                Err(Error::InvalidInput)
            };
        }
        return Ok(Tag::Unknown(chars_to_string(&copy_range(s, i, j))));
    } else if crate::text::range_eq_str(s, i, ne, "#EXT-X-I-FRAMES-ONLY") {
        if !has_param {
            return Ok(Tag::ExtXIFramesOnly(ExtXIFramesOnly));
        }
        return Ok(Tag::Unknown(chars_to_string(&copy_range(s, i, j))));
    } else if crate::text::range_eq_str(s, i, ne, "#EXT-X-INDEPENDENT-SEGMENTS") {
        if !has_param {
            return Ok(Tag::ExtXIndependentSegments(ExtXIndependentSegments));
        }
        return Ok(Tag::Unknown(chars_to_string(&copy_range(s, i, j))));
    } else if crate::text::range_eq_str(s, i, ne, "#EXT-X-START") {
        if has_param {
            return parse_start_range(s, ps, j);
        }
        return Ok(Tag::Unknown(chars_to_string(&copy_range(s, i, j))));
    } else if crate::text::range_eq_str(s, i, ne, "#EXT-X-MEDIA") {
        if has_param {
            return crate::tags::media::parse_media_range(s, ps, j);
        }
        return Ok(Tag::Unknown(chars_to_string(&copy_range(s, i, j))));
    } else if crate::text::range_eq_str(s, i, ne, "#EXT-X-STREAM-INF") {
        if has_param {
            return Ok(Tag::ExtXStreamInf(chars_to_string(&copy_range(s, ps, j))));
        }
        return Ok(Tag::Unknown(chars_to_string(&copy_range(s, i, j))));
    } else if crate::text::range_eq_str(s, i, ne, "#EXT-X-I-FRAME-STREAM-INF") {
        if has_param {
            return Ok(Tag::ExtXIFrameStreamInf(chars_to_string(&copy_range(s, ps, j))));
        }
        return Ok(Tag::Unknown(chars_to_string(&copy_range(s, i, j))));
    } else if crate::text::range_eq_str(s, i, ne, "#EXT-X-SESSION-DATA") {
        if has_param {
            return Ok(Tag::ExtXSessionData(chars_to_string(&copy_range(s, ps, j))));
        }
        return Ok(Tag::Unknown(chars_to_string(&copy_range(s, i, j))));
    } else if crate::text::range_eq_str(s, i, ne, "#EXT-X-SESSION-KEY") {
        if has_param {
            return Ok(Tag::ExtXSessionKey(chars_to_string(&copy_range(s, ps, j))));
        }
        return Ok(Tag::Unknown(chars_to_string(&copy_range(s, i, j))));
    }
    Ok(Tag::Unknown(chars_to_string(&copy_range(s, i, j))))
}

/// The canonical text of a target-duration tag, from its milliseconds.
pub open spec fn spec_render_target_duration(millis: u64) -> Seq<char> {
    "#EXT-X-TARGETDURATION:"@ + crate::text::spec_render_u64((millis / 1000) as nat)
}

/// Appends the canonical text of a target-duration tag.
pub fn push_target_duration(out: &mut String, t: &ExtXTargetDuration)
    ensures
        final(out)@ == old(out)@ + spec_render_target_duration(t.duration.millis),
{
    out.append("#EXT-X-TARGETDURATION:");
    crate::text::push_u64(out, t.duration.as_millis() / 1000);
    proof {
        assert(final(out)@ =~= old(out)@ + spec_render_target_duration(t.duration.millis));
    }
}

/// The canonical text of an end-list tag.
pub open spec fn spec_render_end_list() -> Seq<char> {
    "#EXT-X-ENDLIST"@
}

/// A rendered target-duration tag reads back as itself.
pub proof fn lemma_target_duration_roundtrip(millis: u64)
    requires
        millis % 1000 == 0,
    ensures
        spec_dispatch(spec_render_target_duration(millis)) == Result::<TagV, ErrorKind>::Ok(
            TagV::ExtXTargetDuration(millis),
        ),
{
    reveal_strlit("#EXT-X-TARGETDURATION:");
    reveal_strlit("#EXTM3U");
    reveal_strlit("#EXT-X-VERSION");
    reveal_strlit("#EXTINF");
    reveal_strlit("#EXT-X-BYTERANGE");
    reveal_strlit("#EXT-X-DISCONTINUITY");
    reveal_strlit("#EXT-X-KEY");
    reveal_strlit("#EXT-X-MAP");
    reveal_strlit("#EXT-X-PROGRAM-DATE-TIME");
    reveal_strlit("#EXT-X-DATERANGE");
    reveal_strlit("#EXT-X-TARGETDURATION");
    reveal_strlit("#EXT-X-MEDIA-SEQUENCE");
    reveal_strlit("#EXT-X-DISCONTINUITY-SEQUENCE");
    reveal_strlit("#EXT-X-ENDLIST");
    reveal_strlit("#EXT-X-PLAYLIST-TYPE");
    reveal_strlit("#EXT-X-I-FRAMES-ONLY");
    reveal_strlit("#EXT-X-INDEPENDENT-SEGMENTS");
    reveal_strlit("#EXT-X-START");
    reveal_strlit("#EXT-X-MEDIA");
    reveal_strlit("#EXT-X-STREAM-INF");
    reveal_strlit("#EXT-X-I-FRAME-STREAM-INF");
    reveal_strlit("#EXT-X-SESSION-DATA");
    reveal_strlit("#EXT-X-SESSION-KEY");
    let line = spec_render_target_duration(millis);
    let digits = crate::text::spec_render_u64((millis / 1000) as nat);
    crate::text::lemma_render_u64_digits((millis / 1000) as nat);
    assert(line[21] == ':');
    assert forall|j: int| 0 <= j < 21 implies line[j] != ':' by {
        crate::text::lemma_digits_exclude(digits, ':');
        assert(line[j] == "#EXT-X-TARGETDURATION:"@[j]);
    }
    crate::text::lemma_find_char_at(line, ':', 21);
    assert(line.subrange(0, 21) =~= "#EXT-X-TARGETDURATION"@);
    assert(line.subrange(22, line.len() as int) =~= digits);
    crate::text::lemma_parse_render_u64(millis / 1000);
    assert((millis / 1000) * 1000 == millis);
    assert(millis / 1000 <= u64::MAX / 1000);
    assert((millis / 1000) * 1000 <= u64::MAX) by (nonlinear_arith)
        requires
            millis / 1000 <= u64::MAX / 1000,
    ;
}

/// The canonical text of a version directive.
pub open spec fn spec_render_version(v: ProtocolVersion) -> Seq<char> {
    "#EXT-X-VERSION:"@ + crate::text::spec_render_u64(v.spec_number() as nat)
}

/// Appends the canonical text of a version directive.
pub fn push_version(out: &mut String, v: ProtocolVersion)
    ensures
        final(out)@ == old(out)@ + spec_render_version(v),
{
    out.append("#EXT-X-VERSION:");
    crate::text::push_u64(out, v.number());
    proof {
        assert(final(out)@ =~= old(out)@ + spec_render_version(v));
    }
}

/// A rendered version directive reads back as itself.
pub proof fn lemma_version_roundtrip(v: ProtocolVersion)
    ensures
        spec_dispatch(spec_render_version(v)) == Result::<TagV, ErrorKind>::Ok(
            TagV::ExtXVersion(v),
        ),
{
    reveal_strlit("#EXT-X-VERSION:");
    reveal_strlit("#EXTM3U");
    reveal_strlit("#EXT-X-VERSION");
    let line = spec_render_version(v);
    let digits = crate::text::spec_render_u64(v.spec_number() as nat);
    crate::text::lemma_render_u64_digits(v.spec_number() as nat);
    assert(line[14] == ':');
    assert forall|j: int| 0 <= j < 14 implies line[j] != ':' by {
        assert(line[j] == "#EXT-X-VERSION:"@[j]);
    }
    crate::text::lemma_find_char_at(line, ':', 14);
    assert(line.subrange(0, 14) =~= "#EXT-X-VERSION"@);
    assert(line.subrange(15, line.len() as int) =~= digits);
    crate::text::lemma_parse_render_u64(v.spec_number());
    assert(ProtocolVersion::spec_from_number(v.spec_number()) == Some(v));
}

/// The canonical text of a media-sequence tag.
pub open spec fn spec_render_media_sequence(n: u64) -> Seq<char> {
    "#EXT-X-MEDIA-SEQUENCE:"@ + crate::text::spec_render_u64(n as nat)
}

/// Appends the canonical text of a media-sequence tag.
pub fn push_media_sequence(out: &mut String, t: &ExtXMediaSequence)
    ensures
        final(out)@ == old(out)@ + spec_render_media_sequence(t.number),
{
    out.append("#EXT-X-MEDIA-SEQUENCE:");
    crate::text::push_u64(out, t.number);
    proof {
        assert(final(out)@ =~= old(out)@ + spec_render_media_sequence(t.number));
    }
}

/// A rendered media-sequence tag reads back as itself.
pub proof fn lemma_media_sequence_roundtrip(n: u64)
    ensures
        spec_dispatch(spec_render_media_sequence(n)) == Result::<TagV, ErrorKind>::Ok(
            TagV::ExtXMediaSequence(n),
        ),
{
    reveal_strlit("#EXT-X-MEDIA-SEQUENCE:");
    reveal_strlit("#EXTM3U");
    reveal_strlit("#EXT-X-VERSION");
    reveal_strlit("#EXTINF");
    reveal_strlit("#EXT-X-BYTERANGE");
    reveal_strlit("#EXT-X-DISCONTINUITY");
    reveal_strlit("#EXT-X-KEY");
    reveal_strlit("#EXT-X-MAP");
    reveal_strlit("#EXT-X-PROGRAM-DATE-TIME");
    reveal_strlit("#EXT-X-DATERANGE");
    reveal_strlit("#EXT-X-TARGETDURATION");
    reveal_strlit("#EXT-X-MEDIA-SEQUENCE");
    let line = spec_render_media_sequence(n);
    let digits = crate::text::spec_render_u64(n as nat);
    crate::text::lemma_render_u64_digits(n as nat);
    assert(line[21] == ':');
    assert forall|j: int| 0 <= j < 21 implies line[j] != ':' by {
        assert(line[j] == "#EXT-X-MEDIA-SEQUENCE:"@[j]);
    }
    crate::text::lemma_find_char_at(line, ':', 21);
    let name = line.subrange(0, 21);
    assert(name =~= "#EXT-X-MEDIA-SEQUENCE"@);
    assert(name[7] == 'M');
    assert("#EXT-X-TARGETDURATION"@[7] == 'T');
    assert(name != "#EXT-X-TARGETDURATION"@);
    assert(line.subrange(22, line.len() as int) =~= digits);
    crate::text::lemma_parse_render_u64(n);
}

/// The canonical text of a discontinuity-sequence tag.
pub open spec fn spec_render_discontinuity_sequence(n: u64) -> Seq<char> {
    "#EXT-X-DISCONTINUITY-SEQUENCE:"@ + crate::text::spec_render_u64(n as nat)
}

/// Appends the canonical text of a discontinuity-sequence tag.
pub fn push_discontinuity_sequence(out: &mut String, t: &ExtXDiscontinuitySequence)
    ensures
        final(out)@ == old(out)@ + spec_render_discontinuity_sequence(t.number),
{
    out.append("#EXT-X-DISCONTINUITY-SEQUENCE:");
    crate::text::push_u64(out, t.number);
    proof {
        assert(final(out)@ =~= old(out)@ + spec_render_discontinuity_sequence(t.number));
    }
}

/// A rendered discontinuity-sequence tag reads back as itself.
pub proof fn lemma_discontinuity_sequence_roundtrip(n: u64)
    ensures
        spec_dispatch(spec_render_discontinuity_sequence(n)) == Result::<TagV, ErrorKind>::Ok(
            TagV::ExtXDiscontinuitySequence(n),
        ),
{
    reveal_strlit("#EXT-X-DISCONTINUITY-SEQUENCE:");
    reveal_strlit("#EXTM3U");
    reveal_strlit("#EXT-X-VERSION");
    reveal_strlit("#EXTINF");
    reveal_strlit("#EXT-X-BYTERANGE");
    reveal_strlit("#EXT-X-DISCONTINUITY");
    reveal_strlit("#EXT-X-KEY");
    reveal_strlit("#EXT-X-MAP");
    reveal_strlit("#EXT-X-PROGRAM-DATE-TIME");
    reveal_strlit("#EXT-X-DATERANGE");
    reveal_strlit("#EXT-X-TARGETDURATION");
    reveal_strlit("#EXT-X-MEDIA-SEQUENCE");
    reveal_strlit("#EXT-X-DISCONTINUITY-SEQUENCE");
    let line = spec_render_discontinuity_sequence(n);
    let digits = crate::text::spec_render_u64(n as nat);
    crate::text::lemma_render_u64_digits(n as nat);
    assert(line[29] == ':');
    assert forall|j: int| 0 <= j < 29 implies line[j] != ':' by {
        assert(line[j] == "#EXT-X-DISCONTINUITY-SEQUENCE:"@[j]);
    }
    crate::text::lemma_find_char_at(line, ':', 29);
    assert(line.subrange(0, 29) =~= "#EXT-X-DISCONTINUITY-SEQUENCE"@);
    assert(line.subrange(30, line.len() as int) =~= digits);
    crate::text::lemma_parse_render_u64(n);
}

/// The canonical text of a playlist-type tag.
pub open spec fn spec_render_playlist_type(t: PlaylistType) -> Seq<char> {
    "#EXT-X-PLAYLIST-TYPE:"@ + (match t {
        PlaylistType::Event => "EVENT"@,
        PlaylistType::Vod => "VOD"@,
    })
}

/// Appends the canonical text of a playlist-type tag.
pub fn push_playlist_type(out: &mut String, t: &ExtXPlaylistType)
    ensures
        final(out)@ == old(out)@ + spec_render_playlist_type(t.playlist_type),
{
    out.append("#EXT-X-PLAYLIST-TYPE:");
    match t.playlist_type {
        PlaylistType::Event => out.append("EVENT"),
        PlaylistType::Vod => out.append("VOD"),
    }
    proof {
        assert(final(out)@ =~= old(out)@ + spec_render_playlist_type(t.playlist_type));
    }
}

/// A rendered playlist-type tag reads back as itself.
pub proof fn lemma_playlist_type_roundtrip(t: PlaylistType)
    ensures
        spec_dispatch(spec_render_playlist_type(t)) == Result::<TagV, ErrorKind>::Ok(
            TagV::ExtXPlaylistType(t),
        ),
{
    reveal_strlit("#EXT-X-PLAYLIST-TYPE:");
    reveal_strlit("EVENT");
    reveal_strlit("VOD");
    reveal_strlit("#EXTM3U");
    reveal_strlit("#EXT-X-VERSION");
    reveal_strlit("#EXTINF");
    reveal_strlit("#EXT-X-BYTERANGE");
    reveal_strlit("#EXT-X-DISCONTINUITY");
    reveal_strlit("#EXT-X-KEY");
    reveal_strlit("#EXT-X-MAP");
    reveal_strlit("#EXT-X-PROGRAM-DATE-TIME");
    reveal_strlit("#EXT-X-DATERANGE");
    reveal_strlit("#EXT-X-TARGETDURATION");
    reveal_strlit("#EXT-X-MEDIA-SEQUENCE");
    reveal_strlit("#EXT-X-DISCONTINUITY-SEQUENCE");
    reveal_strlit("#EXT-X-ENDLIST");
    reveal_strlit("#EXT-X-PLAYLIST-TYPE");
    let line = spec_render_playlist_type(t);
    assert(line[20] == ':');
    assert forall|j: int| 0 <= j < 20 implies line[j] != ':' by {
        assert(line[j] == "#EXT-X-PLAYLIST-TYPE:"@[j]);
    }
    crate::text::lemma_find_char_at(line, ':', 20);
    let name = line.subrange(0, 20);
    assert(name =~= "#EXT-X-PLAYLIST-TYPE"@);
    assert(name[7] == 'P');
    assert("#EXT-X-DISCONTINUITY"@[7] == 'D');
    assert(name != "#EXT-X-DISCONTINUITY"@);
    match t {
        PlaylistType::Event => {
            assert(line.subrange(21, line.len() as int) =~= "EVENT"@);
        },
        PlaylistType::Vod => {
            assert(line.subrange(21, line.len() as int) =~= "VOD"@);
            assert("VOD"@ != "EVENT"@);
        },
    }
}

/// The canonical text of a program-date-time tag.
pub open spec fn spec_render_program_date_time(t: Seq<char>) -> Seq<char> {
    "#EXT-X-PROGRAM-DATE-TIME:"@ + t
}

/// Appends the canonical text of a program-date-time tag.
pub fn push_program_date_time(out: &mut String, t: &ExtXProgramDateTime)
    ensures
        final(out)@ == old(out)@ + spec_render_program_date_time(t@),
{
    out.append("#EXT-X-PROGRAM-DATE-TIME:");
    out.append(t.date_time.as_str());
    proof {
        assert(final(out)@ =~= old(out)@ + spec_render_program_date_time(t@));
    }
}

/// A rendered program-date-time tag reads back as itself.
pub proof fn lemma_program_date_time_roundtrip(t: Seq<char>)
    ensures
        spec_dispatch(spec_render_program_date_time(t)) == Result::<TagV, ErrorKind>::Ok(
            TagV::ExtXProgramDateTime(t),
        ),
{
    reveal_strlit("#EXT-X-PROGRAM-DATE-TIME:");
    reveal_strlit("#EXTM3U");
    reveal_strlit("#EXT-X-VERSION");
    reveal_strlit("#EXTINF");
    reveal_strlit("#EXT-X-BYTERANGE");
    reveal_strlit("#EXT-X-DISCONTINUITY");
    reveal_strlit("#EXT-X-KEY");
    reveal_strlit("#EXT-X-MAP");
    reveal_strlit("#EXT-X-PROGRAM-DATE-TIME");
    let line = spec_render_program_date_time(t);
    assert(line[24] == ':');
    assert forall|j: int| 0 <= j < 24 implies line[j] != ':' by {
        assert(line[j] == "#EXT-X-PROGRAM-DATE-TIME:"@[j]);
    }
    crate::text::lemma_find_char_at(line, ':', 24);
    assert(line.subrange(0, 24) =~= "#EXT-X-PROGRAM-DATE-TIME"@);
    assert(line.subrange(25, line.len() as int) =~= t);
}

/// The canonical text of a date-range tag: its attribute text verbatim.
pub open spec fn spec_render_date_range(t: Seq<char>) -> Seq<char> {
    "#EXT-X-DATERANGE:"@ + t
}

/// Appends the canonical text of a date-range tag.
pub fn push_date_range(out: &mut String, t: &ExtXDateRange)
    ensures
        final(out)@ == old(out)@ + spec_render_date_range(t@),
{
    out.append("#EXT-X-DATERANGE:");
    out.append(t.attributes.as_str());
    proof {
        assert(final(out)@ =~= old(out)@ + spec_render_date_range(t@));
    }
}

/// A rendered date-range tag reads back as itself.
pub proof fn lemma_date_range_roundtrip(t: Seq<char>)
    ensures
        spec_dispatch(spec_render_date_range(t)) == Result::<TagV, ErrorKind>::Ok(
            TagV::ExtXDateRange(t),
        ),
{
    reveal_strlit("#EXT-X-DATERANGE:");
    reveal_strlit("#EXTM3U");
    reveal_strlit("#EXT-X-VERSION");
    reveal_strlit("#EXTINF");
    reveal_strlit("#EXT-X-BYTERANGE");
    reveal_strlit("#EXT-X-DISCONTINUITY");
    reveal_strlit("#EXT-X-KEY");
    reveal_strlit("#EXT-X-MAP");
    reveal_strlit("#EXT-X-PROGRAM-DATE-TIME");
    reveal_strlit("#EXT-X-DATERANGE");
    let line = spec_render_date_range(t);
    assert(line[16] == ':');
    assert forall|j: int| 0 <= j < 16 implies line[j] != ':' by {
        assert(line[j] == "#EXT-X-DATERANGE:"@[j]);
    }
    crate::text::lemma_find_char_at(line, ':', 16);
    let name = line.subrange(0, 16);
    assert(name =~= "#EXT-X-DATERANGE"@);
    assert(name[7] == 'D');
    assert("#EXT-X-BYTERANGE"@[7] == 'B');
    assert(name != "#EXT-X-BYTERANGE"@);
    assert(line.subrange(17, line.len() as int) =~= t);
}

/// The canonical text of a segment-duration tag: the duration, a comma,
/// and the title when one is present.
pub open spec fn spec_render_inf(t: ExtInfV) -> Seq<char> {
    "#EXTINF:"@ + crate::text::spec_render_duration(t.duration_millis) + seq![','] + (
    match t.title {
        Some(title) => title,
        Option::None => Seq::empty(),
    })
}

/// Appends the canonical text of a segment-duration tag.
pub fn push_inf(out: &mut String, t: &ExtInf)
    ensures
        final(out)@ == old(out)@ + spec_render_inf(t@),
{
    out.append("#EXTINF:");
    crate::text::push_duration(out, t.duration.as_millis());
    out.append(",");
    match &t.title {
        Some(title) => out.append(title.as_str()),
        Option::None => (),
    }
    proof {
        reveal_strlit(",");
        assert(","@ =~= seq![',']);
        assert(final(out)@ =~= old(out)@ + spec_render_inf(t@));
    }
}

/// A duration's canonical text holds only digits and the decimal point.
pub proof fn lemma_render_duration_chars(m: u64, c: char)
    requires
        !crate::text::is_digit(c),
        c != '.',
    ensures
        forall|j: int|
            0 <= j < crate::text::spec_render_duration(m).len()
                ==> #[trigger] crate::text::spec_render_duration(m)[j] != c,
{
    let t = crate::text::spec_render_duration(m);
    let digits = crate::text::spec_render_u64((m / 1000) as nat);
    crate::text::lemma_render_u64_digits((m / 1000) as nat);
    crate::text::lemma_digit_roundtrip(((m % 1000) / 100) as nat);
    crate::text::lemma_digit_roundtrip((((m % 1000) / 10) % 10) as nat);
    crate::text::lemma_digit_roundtrip(((m % 1000) % 10) as nat);
    assert forall|j: int| 0 <= j < t.len() implies #[trigger] t[j] != c by {
        if j < digits.len() {
            assert(t[j] == digits[j]);
            assert(crate::text::is_digit(digits[j]));
        }
    }
}

/// A rendered segment-duration tag reads back as itself, provided a title,
/// when present, is not empty.
#[verifier::rlimit(100)]
pub proof fn lemma_inf_roundtrip(t: ExtInfV)
    requires
        match t.title {
            Some(title) => title.len() > 0,
            Option::None => true,
        },
    ensures
        spec_dispatch(spec_render_inf(t)) == Result::<TagV, ErrorKind>::Ok(TagV::ExtInf(t)),
{
    reveal_strlit("#EXTINF:");
    reveal_strlit("#EXTM3U");
    reveal_strlit("#EXT-X-VERSION");
    reveal_strlit("#EXTINF");
    let line = spec_render_inf(t);
    let dur = crate::text::spec_render_duration(t.duration_millis);
    lemma_render_duration_chars(t.duration_millis, ':');
    lemma_render_duration_chars(t.duration_millis, ',');
    assert(line[7] == ':');
    assert forall|j: int| 0 <= j < 7 implies line[j] != ':' by {
        assert(line[j] == "#EXTINF:"@[j]);
    }
    crate::text::lemma_find_char_at(line, ':', 7);
    let name = line.subrange(0, 7);
    assert(name =~= "#EXTINF"@);
    assert(name[4] == 'I');
    assert("#EXTM3U"@[4] == 'M');
    assert(name != "#EXTM3U"@);
    let param = line.subrange(8, line.len() as int);
    assert(param =~= dur + seq![','] + (match t.title {
        Some(title) => title,
        Option::None => Seq::<char>::empty(),
    }));
    // the first comma of the parameter ends the duration
    assert(param[dur.len() as int] == ',');
    assert forall|j: int| 0 <= j < dur.len() implies param[j] != ',' by {
        assert(param[j] == dur[j]);
    }
    crate::text::lemma_find_char_at(param, ',', dur.len() as int);
    assert(param.subrange(0, dur.len() as int) =~= dur);
    crate::text::lemma_parse_render_duration(t.duration_millis);
    match t.title {
        Some(title) => {
            assert(param.subrange(dur.len() as int + 1, param.len() as int) =~= title);
        },
        Option::None => {
            assert(param.subrange(dur.len() as int + 1, param.len() as int) =~= Seq::<char>::empty());
        },
    }
}

/// The canonical text of a byte-range value: the length, then `@` and the
/// start offset when one is present.
pub open spec fn spec_render_byte_range_val(r: ByteRange) -> Seq<char> {
    crate::text::spec_render_u64(r.length as nat) + (match r.start {
        Some(o) => seq!['@'] + crate::text::spec_render_u64(o as nat),
        Option::None => Seq::empty(),
    })
}

/// Appends the canonical text of a byte-range value.
pub fn push_byte_range_val(out: &mut String, r: ByteRange)
    ensures
        final(out)@ == old(out)@ + spec_render_byte_range_val(r),
{
    crate::text::push_u64(out, r.length);
    match r.start {
        Some(o) => {
            proof {
                reveal_strlit("@");
                assert("@"@ =~= seq!['@']);
            }
            out.append("@");
            crate::text::push_u64(out, o);
        }
        Option::None => (),
    }
    proof {
        assert(final(out)@ =~= old(out)@ + spec_render_byte_range_val(r));
    }
}

/// A rendered byte-range value reads back as itself.
pub proof fn lemma_byte_range_val_roundtrip(r: ByteRange)
    ensures
        spec_parse_byte_range(spec_render_byte_range_val(r)) == Some(r),
{
    let v = spec_render_byte_range_val(r);
    let ld = crate::text::spec_render_u64(r.length as nat);
    crate::text::lemma_render_u64_digits(r.length as nat);
    crate::text::lemma_parse_render_u64(r.length);
    match r.start {
        Some(o) => {
            let od = crate::text::spec_render_u64(o as nat);
            crate::text::lemma_render_u64_digits(o as nat);
            crate::text::lemma_parse_render_u64(o);
            assert(v[ld.len() as int] == '@');
            assert forall|j: int| 0 <= j < ld.len() implies v[j] != '@' by {
                assert(v[j] == ld[j]);
                assert(crate::text::is_digit(ld[j]));
            }
            crate::text::lemma_find_char_at(v, '@', ld.len() as int);
            assert(v.subrange(0, ld.len() as int) =~= ld);
            assert(v.subrange(ld.len() as int + 1, v.len() as int) =~= od);
        },
        Option::None => {
            assert(v =~= ld);
            crate::text::lemma_digits_exclude(ld, '@');
            crate::text::lemma_find_char_none(v, '@');
        },
    }
}

/// The canonical text of a byte-range tag.
pub open spec fn spec_render_byte_range_tag(r: ByteRange) -> Seq<char> {
    "#EXT-X-BYTERANGE:"@ + spec_render_byte_range_val(r)
}

/// Appends the canonical text of a byte-range tag.
pub fn push_byte_range_tag(out: &mut String, t: &ExtXByteRange)
    ensures
        final(out)@ == old(out)@ + spec_render_byte_range_tag(t.range),
{
    out.append("#EXT-X-BYTERANGE:");
    push_byte_range_val(out, t.range);
    proof {
        assert(final(out)@ =~= old(out)@ + spec_render_byte_range_tag(t.range));
    }
}

/// A rendered byte-range tag reads back as itself.
pub proof fn lemma_byte_range_tag_roundtrip(r: ByteRange)
    ensures
        spec_dispatch(spec_render_byte_range_tag(r)) == Result::<TagV, ErrorKind>::Ok(
            TagV::ExtXByteRange(r),
        ),
{
    reveal_strlit("#EXT-X-BYTERANGE:");
    reveal_strlit("#EXTM3U");
    reveal_strlit("#EXT-X-VERSION");
    reveal_strlit("#EXTINF");
    reveal_strlit("#EXT-X-BYTERANGE");
    let line = spec_render_byte_range_tag(r);
    let v = spec_render_byte_range_val(r);
    crate::text::lemma_render_u64_digits(r.length as nat);
    assert(line[16] == ':');
    assert forall|j: int| 0 <= j < 16 implies line[j] != ':' by {
        assert(line[j] == "#EXT-X-BYTERANGE:"@[j]);
    }
    crate::text::lemma_find_char_at(line, ':', 16);
    assert(line.subrange(0, 16) =~= "#EXT-X-BYTERANGE"@);
    assert(line.subrange(17, line.len() as int) =~= v);
    lemma_byte_range_val_roundtrip(r);
}

/// The canonical text of the marker tags that take no parameter.
pub open spec fn spec_render_extm3u() -> Seq<char> {
    "#EXTM3U"@
}

/// A rendered start-of-file marker reads back as itself.
pub proof fn lemma_extm3u_roundtrip()
    ensures
        spec_dispatch(spec_render_extm3u()) == Result::<TagV, ErrorKind>::Ok(TagV::ExtM3u),
{
    reveal_strlit("#EXTM3U");
    let line = spec_render_extm3u();
    assert forall|j: int| 0 <= j < line.len() implies line[j] != ':' by {}
    crate::text::lemma_find_char_none(line, ':');
}

/// The canonical text of a discontinuity marker.
pub open spec fn spec_render_discontinuity() -> Seq<char> {
    "#EXT-X-DISCONTINUITY"@
}

/// A rendered discontinuity marker reads back as itself.
pub proof fn lemma_discontinuity_roundtrip()
    ensures
        spec_dispatch(spec_render_discontinuity()) == Result::<TagV, ErrorKind>::Ok(
            TagV::ExtXDiscontinuity,
        ),
{
    reveal_strlit("#EXTM3U");
    reveal_strlit("#EXT-X-VERSION");
    reveal_strlit("#EXTINF");
    reveal_strlit("#EXT-X-BYTERANGE");
    reveal_strlit("#EXT-X-DISCONTINUITY");
    let line = spec_render_discontinuity();
    assert forall|j: int| 0 <= j < line.len() implies line[j] != ':' by {}
    crate::text::lemma_find_char_none(line, ':');
}

/// The canonical text of an i-frames-only tag.
pub open spec fn spec_render_i_frames_only() -> Seq<char> {
    "#EXT-X-I-FRAMES-ONLY"@
}

/// A rendered i-frames-only tag reads back as itself.
pub proof fn lemma_i_frames_only_roundtrip()
    ensures
        spec_dispatch(spec_render_i_frames_only()) == Result::<TagV, ErrorKind>::Ok(
            TagV::ExtXIFramesOnly,
        ),
{
    reveal_strlit("#EXTM3U");
    reveal_strlit("#EXT-X-VERSION");
    reveal_strlit("#EXTINF");
    reveal_strlit("#EXT-X-BYTERANGE");
    reveal_strlit("#EXT-X-DISCONTINUITY");
    reveal_strlit("#EXT-X-KEY");
    reveal_strlit("#EXT-X-MAP");
    reveal_strlit("#EXT-X-PROGRAM-DATE-TIME");
    reveal_strlit("#EXT-X-DATERANGE");
    reveal_strlit("#EXT-X-TARGETDURATION");
    reveal_strlit("#EXT-X-MEDIA-SEQUENCE");
    reveal_strlit("#EXT-X-DISCONTINUITY-SEQUENCE");
    reveal_strlit("#EXT-X-ENDLIST");
    reveal_strlit("#EXT-X-PLAYLIST-TYPE");
    reveal_strlit("#EXT-X-I-FRAMES-ONLY");
    let line = spec_render_i_frames_only();
    assert forall|j: int| 0 <= j < line.len() implies line[j] != ':' by {}
    crate::text::lemma_find_char_none(line, ':');
    assert(line[7] == 'I');
    assert("#EXT-X-DISCONTINUITY"@[7] == 'D');
    assert(line != "#EXT-X-DISCONTINUITY"@);
    assert("#EXT-X-PLAYLIST-TYPE"@[7] == 'P');
    assert(line != "#EXT-X-PLAYLIST-TYPE"@);
}

/// The canonical text of an independent-segments tag.
pub open spec fn spec_render_independent_segments() -> Seq<char> {
    "#EXT-X-INDEPENDENT-SEGMENTS"@
}

/// A rendered independent-segments tag reads back as itself.
pub proof fn lemma_independent_segments_roundtrip()
    ensures
        spec_dispatch(spec_render_independent_segments()) == Result::<TagV, ErrorKind>::Ok(
            TagV::ExtXIndependentSegments,
        ),
{
    reveal_strlit("#EXTM3U");
    reveal_strlit("#EXT-X-VERSION");
    reveal_strlit("#EXTINF");
    reveal_strlit("#EXT-X-BYTERANGE");
    reveal_strlit("#EXT-X-DISCONTINUITY");
    reveal_strlit("#EXT-X-KEY");
    reveal_strlit("#EXT-X-MAP");
    reveal_strlit("#EXT-X-PROGRAM-DATE-TIME");
    reveal_strlit("#EXT-X-DATERANGE");
    reveal_strlit("#EXT-X-TARGETDURATION");
    reveal_strlit("#EXT-X-MEDIA-SEQUENCE");
    reveal_strlit("#EXT-X-DISCONTINUITY-SEQUENCE");
    reveal_strlit("#EXT-X-ENDLIST");
    reveal_strlit("#EXT-X-PLAYLIST-TYPE");
    reveal_strlit("#EXT-X-I-FRAMES-ONLY");
    reveal_strlit("#EXT-X-INDEPENDENT-SEGMENTS");
    let line = spec_render_independent_segments();
    assert forall|j: int| 0 <= j < line.len() implies line[j] != ':' by {}
    crate::text::lemma_find_char_none(line, ':');
}

/// The canonical token of an encryption method.
pub open spec fn spec_render_method(m: EncryptionMethod) -> Seq<char> {
    match m {
        EncryptionMethod::NoEncryption => "NONE"@,
        EncryptionMethod::Aes128 => "AES-128"@,
        EncryptionMethod::SampleAes => "SAMPLE-AES"@,
    }
}

/// Appends the canonical token of an encryption method.
pub fn push_method(out: &mut String, m: EncryptionMethod)
    ensures
        final(out)@ == old(out)@ + spec_render_method(m),
{
    match m {
        EncryptionMethod::NoEncryption => out.append("NONE"),
        EncryptionMethod::Aes128 => out.append("AES-128"),
        EncryptionMethod::SampleAes => out.append("SAMPLE-AES"),
    }
}

/// The canonical token of an encryption method reads back as the method.
pub proof fn lemma_method_roundtrip(m: EncryptionMethod)
    ensures
        spec_parse_method(spec_render_method(m)) == Some(m),
        crate::attribute::plain_value(spec_render_method(m)),
{
    reveal_strlit("NONE");
    reveal_strlit("AES-128");
    reveal_strlit("SAMPLE-AES");
    let t = spec_render_method(m);
    assert forall|i: int| 0 <= i < t.len() implies #[trigger] t[i] != '"' && t[i] != ',' by {}
    match m {
        EncryptionMethod::NoEncryption => {
            assert(t == "NONE"@);
        },
        EncryptionMethod::Aes128 => {
            assert(t.len() == 7);
            assert("NONE"@.len() == 4);
            assert(t != "NONE"@);
        },
        EncryptionMethod::SampleAes => {
            assert(t.len() == 10);
            assert("NONE"@.len() == 4);
            assert("AES-128"@.len() == 7);
            assert(t != "NONE"@);
            assert(t != "AES-128"@);
        },
    }
}

/// Appending a pair to the fold of a key tag's attributes folds the pair
/// after the earlier ones.
pub proof fn lemma_key_fold_snoc(
    ps: Seq<(Seq<char>, Seq<char>)>,
    p: (Seq<char>, Seq<char>),
    acc: KeyAccV,
)
    ensures
        spec_key_fold(ps.push(p), acc) == (match spec_key_fold(ps, acc) {
            Ok(a2) => spec_key_step(a2, p.0, p.1),
            Err(e) => Err(e),
        }),
    decreases ps.len(),
{
    if ps.len() == 0 {
        assert(ps.push(p)[0] == p);
        assert(ps.push(p).drop_first() =~= Seq::<(Seq<char>, Seq<char>)>::empty());
        match spec_key_step(acc, p.0, p.1) {
            Ok(a2) => {
                assert(spec_key_fold(Seq::<(Seq<char>, Seq<char>)>::empty(), a2) == Result::<
                    KeyAccV,
                    ErrorKind,
                >::Ok(a2));
            },
            Err(_) => {},
        }
    } else {
        assert(ps.push(p)[0] == ps[0]);
        assert(ps.push(p).drop_first() =~= ps.drop_first().push(p));
        match spec_key_step(acc, ps[0].0, ps[0].1) {
            Ok(a2) => {
                lemma_key_fold_snoc(ps.drop_first(), p, a2);
            },
            Err(_) => {},
        }
    }
}

/// Appending a pair to the fold of an initialization-map tag's attributes
/// folds the pair after the earlier ones.
pub proof fn lemma_map_fold_snoc(
    ps: Seq<(Seq<char>, Seq<char>)>,
    p: (Seq<char>, Seq<char>),
    acc: MapAccV,
)
    ensures
        spec_map_fold(ps.push(p), acc) == (match spec_map_fold(ps, acc) {
            Ok(a2) => spec_map_step(a2, p.0, p.1),
            Err(e) => Err(e),
        }),
    decreases ps.len(),
{
    if ps.len() == 0 {
        assert(ps.push(p)[0] == p);
        assert(ps.push(p).drop_first() =~= Seq::<(Seq<char>, Seq<char>)>::empty());
        match spec_map_step(acc, p.0, p.1) {
            Ok(a2) => {
                assert(spec_map_fold(Seq::<(Seq<char>, Seq<char>)>::empty(), a2) == Result::<
                    MapAccV,
                    ErrorKind,
                >::Ok(a2));
            },
            Err(_) => {},
        }
    } else {
        assert(ps.push(p)[0] == ps[0]);
        assert(ps.push(p).drop_first() =~= ps.drop_first().push(p));
        match spec_map_step(acc, ps[0].0, ps[0].1) {
            Ok(a2) => {
                lemma_map_fold_snoc(ps.drop_first(), p, a2);
            },
            Err(_) => {},
        }
    }
}

/// Appending a pair to the fold of a start tag's attributes folds the pair
/// after the earlier ones.
pub proof fn lemma_start_fold_snoc(
    ps: Seq<(Seq<char>, Seq<char>)>,
    p: (Seq<char>, Seq<char>),
    acc: StartAccV,
)
    ensures
        spec_start_fold(ps.push(p), acc) == (match spec_start_fold(ps, acc) {
            Ok(a2) => spec_start_step(a2, p.0, p.1),
            Err(e) => Err(e),
        }),
    decreases ps.len(),
{
    if ps.len() == 0 {
        assert(ps.push(p)[0] == p);
        assert(ps.push(p).drop_first() =~= Seq::<(Seq<char>, Seq<char>)>::empty());
        match spec_start_step(acc, p.0, p.1) {
            Ok(a2) => {
                assert(spec_start_fold(Seq::<(Seq<char>, Seq<char>)>::empty(), a2) == Result::<
                    StartAccV,
                    ErrorKind,
                >::Ok(a2));
            },
            Err(_) => {},
        }
    } else {
        assert(ps.push(p)[0] == ps[0]);
        assert(ps.push(p).drop_first() =~= ps.drop_first().push(p));
        match spec_start_step(acc, ps[0].0, ps[0].1) {
            Ok(a2) => {
                lemma_start_fold_snoc(ps.drop_first(), p, a2);
            },
            Err(_) => {},
        }
    }
}

/// The canonical attribute pairs of a key tag, in the order they are
/// written.
pub open spec fn spec_key_pairs(k: ExtXKeyV) -> Seq<(Seq<char>, Seq<char>)> {
    let l = seq![("METHOD"@, spec_render_method(k.method))];
    let l = if k.uri is Some {
        l.push(("URI"@, crate::attribute::spec_quote(k.uri.unwrap())))
    } else {
        l
    };
    let l = if k.iv is Some {
        l.push(("IV"@, k.iv.unwrap()))
    } else {
        l
    };
    let l = if k.key_format is Some {
        l.push(("KEYFORMAT"@, crate::attribute::spec_quote(k.key_format.unwrap())))
    } else {
        l
    };
    if k.key_format_versions is Some {
        l.push(("KEYFORMATVERSIONS"@, crate::attribute::spec_quote(k.key_format_versions.unwrap())))
    } else {
        l
    }
}

/// The canonical text of a key tag.
pub open spec fn spec_render_key(k: ExtXKeyV) -> Seq<char> {
    "#EXT-X-KEY:"@ + crate::attribute::spec_render_pairs(spec_key_pairs(k))
}

/// Whether a key tag's fields can be written and read back: its string
/// fields are free of quotes, and its initialization vector, which is
/// written unquoted, is free of commas too.
pub open spec fn wf_key(k: ExtXKeyV) -> bool {
    &&& match k.uri {
        Some(u) => crate::attribute::quote_free(u),
        Option::None => true,
    }
    &&& match k.iv {
        Some(v) => crate::attribute::plain_value(v),
        Option::None => true,
    }
    &&& match k.key_format {
        Some(u) => crate::attribute::quote_free(u),
        Option::None => true,
    }
    &&& match k.key_format_versions {
        Some(u) => crate::attribute::quote_free(u),
        Option::None => true,
    }
}

/// Appends the canonical text of a key tag.
#[verifier::rlimit(100)]
pub fn push_key(out: &mut String, k: &ExtXKey)
    ensures
        final(out)@ == old(out)@ + spec_render_key(k@),
{
    proof {
        reveal_strlit("METHOD");
        reveal_strlit(",URI=\"");
        reveal_strlit(",IV=");
        reveal_strlit(",KEYFORMAT=\"");
        reveal_strlit(",KEYFORMATVERSIONS=\"");
        reveal_strlit("\"");
        reveal_strlit("URI");
        reveal_strlit("IV");
        reveal_strlit("KEYFORMAT");
        reveal_strlit("KEYFORMATVERSIONS");
    }
    out.append("#EXT-X-KEY:METHOD=");
    push_method(out, k.method);
    let ghost l0 = seq![("METHOD"@, spec_render_method(k@.method))];
    proof {
        reveal_strlit("#EXT-X-KEY:METHOD=");
        reveal_strlit("#EXT-X-KEY:");
        assert(out@ =~= old(out)@ + "#EXT-X-KEY:"@ + crate::attribute::spec_render_pairs(l0));
    }
    let ghost l1 = if k@.uri is Some {
        l0.push(("URI"@, crate::attribute::spec_quote(k@.uri.unwrap())))
    } else {
        l0
    };
    match &k.uri {
        Some(u) => {
            out.append(",URI=\"");
            out.append(u.as_str());
            out.append("\"");
            proof {
                crate::attribute::lemma_render_pairs_snoc(
                    l0,
                    ("URI"@, crate::attribute::spec_quote(u@)),
                );
                assert(out@ =~= old(out)@ + "#EXT-X-KEY:"@ + crate::attribute::spec_render_pairs(
                    l1,
                ));
            }
        }
        Option::None => (),
    }
    let ghost l2 = if k@.iv is Some {
        l1.push(("IV"@, k@.iv.unwrap()))
    } else {
        l1
    };
    match &k.iv {
        Some(v) => {
            out.append(",IV=");
            out.append(v.as_str());
            proof {
                crate::attribute::lemma_render_pairs_snoc(l1, ("IV"@, v@));
                assert(out@ =~= old(out)@ + "#EXT-X-KEY:"@ + crate::attribute::spec_render_pairs(
                    l2,
                ));
            }
        }
        Option::None => (),
    }
    let ghost l3 = if k@.key_format is Some {
        l2.push(("KEYFORMAT"@, crate::attribute::spec_quote(k@.key_format.unwrap())))
    } else {
        l2
    };
    match &k.key_format {
        Some(u) => {
            out.append(",KEYFORMAT=\"");
            out.append(u.as_str());
            out.append("\"");
            proof {
                crate::attribute::lemma_render_pairs_snoc(
                    l2,
                    ("KEYFORMAT"@, crate::attribute::spec_quote(u@)),
                );
                assert(out@ =~= old(out)@ + "#EXT-X-KEY:"@ + crate::attribute::spec_render_pairs(
                    l3,
                ));
            }
        }
        Option::None => (),
    }
    let ghost l4 = if k@.key_format_versions is Some {
        l3.push(("KEYFORMATVERSIONS"@, crate::attribute::spec_quote(k@.key_format_versions.unwrap())))
    } else {
        l3
    };
    match &k.key_format_versions {
        Some(u) => {
            out.append(",KEYFORMATVERSIONS=\"");
            out.append(u.as_str());
            out.append("\"");
            proof {
                crate::attribute::lemma_render_pairs_snoc(
                    l3,
                    ("KEYFORMATVERSIONS"@, crate::attribute::spec_quote(u@)),
                );
                assert(out@ =~= old(out)@ + "#EXT-X-KEY:"@ + crate::attribute::spec_render_pairs(
                    l4,
                ));
            }
        }
        Option::None => (),
    }
    proof {
        assert(l4 == spec_key_pairs(k@));
        assert(final(out)@ =~= old(out)@ + spec_render_key(k@));
    }
}

/// A rendered key tag's attribute list reads back as the tag's fields.
#[verifier::rlimit(80)]
pub proof fn lemma_key_param_roundtrip(k: ExtXKeyV)
    requires
        wf_key(k),
    ensures
        crate::attribute::spec_render_pairs(spec_key_pairs(k)).len() > 0,
        spec_parse_key_tag(crate::attribute::spec_render_pairs(spec_key_pairs(k)))
            == Result::<TagV, ErrorKind>::Ok(TagV::ExtXKey(k)),
{
    reveal_strlit("METHOD");
    reveal_strlit("URI");
    reveal_strlit("IV");
    reveal_strlit("KEYFORMAT");
    reveal_strlit("KEYFORMATVERSIONS");
    lemma_method_roundtrip(k.method);
    let ps = spec_key_pairs(k);
    let l0 = seq![("METHOD"@, spec_render_method(k.method))];
    // every canonical pair is well-formed
    assert forall|i: int| 0 <= i < "METHOD"@.len() implies #[trigger] "METHOD"@[i] != '='
        && "METHOD"@[i] != ',' && "METHOD"@[i] != '"' by {}
    assert forall|i: int| 0 <= i < "URI"@.len() implies #[trigger] "URI"@[i] != '=' && "URI"@[i]
        != ',' && "URI"@[i] != '"' by {}
    assert forall|i: int| 0 <= i < "IV"@.len() implies #[trigger] "IV"@[i] != '=' && "IV"@[i]
        != ',' && "IV"@[i] != '"' by {}
    assert forall|i: int| 0 <= i < "KEYFORMAT"@.len() implies #[trigger] "KEYFORMAT"@[i] != '='
        && "KEYFORMAT"@[i] != ',' && "KEYFORMAT"@[i] != '"' by {}
    assert forall|i: int| 0 <= i < "KEYFORMATVERSIONS"@.len()
        implies #[trigger] "KEYFORMATVERSIONS"@[i] != '=' && "KEYFORMATVERSIONS"@[i] != ','
        && "KEYFORMATVERSIONS"@[i] != '"' by {}
    assert(crate::attribute::wf_attr_name("METHOD"@));
    crate::attribute::lemma_plain_value_wf(spec_render_method(k.method));
    if k.uri is Some {
        crate::attribute::lemma_quote_unquote(k.uri.unwrap());
    }
    if k.iv is Some {
        crate::attribute::lemma_plain_value_wf(k.iv.unwrap());
    }
    if k.key_format is Some {
        crate::attribute::lemma_quote_unquote(k.key_format.unwrap());
    }
    if k.key_format_versions is Some {
        crate::attribute::lemma_quote_unquote(k.key_format_versions.unwrap());
    }
    assert(crate::attribute::wf_pairs(ps));
    crate::attribute::lemma_parse_render_pairs(ps);
    let param = crate::attribute::spec_render_pairs(ps);
    // the parameter text is non-empty: its first pair starts with `METHOD`
    assert(ps[0] == ("METHOD"@, spec_render_method(k.method)));
    assert(param.len() > 0) by {
        if ps.len() == 1 {
        } else {
        }
    }
    // fold the canonical pairs
    let acc0 = key_acc_empty();
    assert(l0 =~= Seq::<(Seq<char>, Seq<char>)>::empty().push(
        ("METHOD"@, spec_render_method(k.method)),
    ));
    lemma_key_fold_snoc(
        Seq::<(Seq<char>, Seq<char>)>::empty(),
        ("METHOD"@, spec_render_method(k.method)),
        acc0,
    );
    let a1 = KeyAccV { method: Some(k.method), ..acc0 };
    assert(spec_key_fold(l0, acc0) == Result::<KeyAccV, ErrorKind>::Ok(a1));
    let l1 = if k.uri is Some {
        l0.push(("URI"@, crate::attribute::spec_quote(k.uri.unwrap())))
    } else {
        l0
    };
    let a2 = KeyAccV { uri: k.uri, ..a1 };
    assert(spec_key_fold(l1, acc0) == Result::<KeyAccV, ErrorKind>::Ok(a2)) by {
        if k.uri is Some {
            lemma_key_fold_snoc(l0, ("URI"@, crate::attribute::spec_quote(k.uri.unwrap())), acc0);
        } else {
            assert(a2 == a1);
        }
    }
    let l2 = if k.iv is Some {
        l1.push(("IV"@, k.iv.unwrap()))
    } else {
        l1
    };
    let a3 = KeyAccV { iv: k.iv, ..a2 };
    assert(spec_key_fold(l2, acc0) == Result::<KeyAccV, ErrorKind>::Ok(a3)) by {
        if k.iv is Some {
            lemma_key_fold_snoc(l1, ("IV"@, k.iv.unwrap()), acc0);
        } else {
            assert(a3 == a2);
        }
    }
    let l3 = if k.key_format is Some {
        l2.push(("KEYFORMAT"@, crate::attribute::spec_quote(k.key_format.unwrap())))
    } else {
        l2
    };
    let a4 = KeyAccV { key_format: k.key_format, ..a3 };
    assert(spec_key_fold(l3, acc0) == Result::<KeyAccV, ErrorKind>::Ok(a4)) by {
        if k.key_format is Some {
            lemma_key_fold_snoc(
                l2,
                ("KEYFORMAT"@, crate::attribute::spec_quote(k.key_format.unwrap())),
                acc0,
            );
        } else {
            assert(a4 == a3);
        }
    }
    let a5 = KeyAccV { key_format_versions: k.key_format_versions, ..a4 };
    assert(spec_key_fold(ps, acc0) == Result::<KeyAccV, ErrorKind>::Ok(a5)) by {
        if k.key_format_versions is Some {
            let v = k.key_format_versions.unwrap();
            let pr = ("KEYFORMATVERSIONS"@, crate::attribute::spec_quote(v));
            assert(ps == l3.push(pr));
            lemma_key_fold_snoc(l3, pr, acc0);
            assert(crate::attribute::spec_unquote(crate::attribute::spec_quote(v)) == v);
            assert(spec_key_step(a4, pr.0, pr.1) == Result::<KeyAccV, ErrorKind>::Ok(a5));
        } else {
            assert(a5 == a4);
        }
    }
    assert(spec_parse_key_tag(param) == Result::<TagV, ErrorKind>::Ok(TagV::ExtXKey(k)));
}

/// A rendered key tag reads back as itself.
pub proof fn lemma_key_roundtrip(k: ExtXKeyV)
    requires
        wf_key(k),
    ensures
        spec_dispatch(spec_render_key(k)) == Result::<TagV, ErrorKind>::Ok(TagV::ExtXKey(k)),
{
    reveal_strlit("#EXT-X-KEY:");
    reveal_strlit("#EXTM3U");
    reveal_strlit("#EXT-X-VERSION");
    reveal_strlit("#EXTINF");
    reveal_strlit("#EXT-X-BYTERANGE");
    reveal_strlit("#EXT-X-DISCONTINUITY");
    reveal_strlit("#EXT-X-KEY");
    lemma_key_param_roundtrip(k);
    let param = crate::attribute::spec_render_pairs(spec_key_pairs(k));
    let line = spec_render_key(k);
    assert(line[10] == ':');
    assert forall|j: int| 0 <= j < 10 implies line[j] != ':' by {
        assert(line[j] == "#EXT-X-KEY:"@[j]);
    }
    crate::text::lemma_find_char_at(line, ':', 10);
    let name = line.subrange(0, 10);
    assert(name =~= "#EXT-X-KEY"@);
    assert(line.subrange(11, line.len() as int) =~= param);
}

/// The canonical attribute pairs of an initialization-map tag.
pub open spec fn spec_map_pairs(m: ExtXMapV) -> Seq<(Seq<char>, Seq<char>)> {
    let l = seq![("URI"@, crate::attribute::spec_quote(m.uri))];
    if m.range is Some {
        l.push(
            (
                "BYTERANGE"@,
                crate::attribute::spec_quote(spec_render_byte_range_val(m.range.unwrap())),
            ),
        )
    } else {
        l
    }
}

/// The canonical text of an initialization-map tag. The key list is not
/// written: it is rebuilt from the active keys when the text is read back.
pub open spec fn spec_render_map(m: ExtXMapV) -> Seq<char> {
    "#EXT-X-MAP:"@ + crate::attribute::spec_render_pairs(spec_map_pairs(m))
}

/// Whether an initialization-map tag's fields can be written and read
/// back: its URI is free of quotes.
pub open spec fn wf_map(m: ExtXMapV) -> bool {
    crate::attribute::quote_free(m.uri)
}

/// Appends the canonical text of an initialization-map tag.
pub fn push_map(out: &mut String, m: &ExtXMap)
    ensures
        final(out)@ == old(out)@ + spec_render_map(m@),
{
    proof {
        reveal_strlit("#EXT-X-MAP:URI=\"");
        reveal_strlit("#EXT-X-MAP:");
        reveal_strlit("URI");
        reveal_strlit("\"");
        reveal_strlit(",BYTERANGE=\"");
        reveal_strlit("BYTERANGE");
    }
    out.append("#EXT-X-MAP:URI=\"");
    out.append(m.uri.as_str());
    out.append("\"");
    let ghost l0 = seq![("URI"@, crate::attribute::spec_quote(m@.uri))];
    proof {
        assert(out@ =~= old(out)@ + "#EXT-X-MAP:"@ + crate::attribute::spec_render_pairs(l0));
    }
    match m.range {
        Some(r) => {
            out.append(",BYTERANGE=\"");
            push_byte_range_val(out, r);
            out.append("\"");
            proof {
                crate::attribute::lemma_render_pairs_snoc(
                    l0,
                    (
                        "BYTERANGE"@,
                        crate::attribute::spec_quote(spec_render_byte_range_val(r)),
                    ),
                );
                assert(out@ =~= old(out)@ + "#EXT-X-MAP:"@ + crate::attribute::spec_render_pairs(
                    spec_map_pairs(m@),
                ));
            }
        }
        Option::None => (),
    }
    proof {
        assert(final(out)@ =~= old(out)@ + spec_render_map(m@));
    }
}

/// A rendered initialization-map tag's attribute list reads back as the
/// tag's fields, with an empty key list.
#[verifier::rlimit(60)]
pub proof fn lemma_map_param_roundtrip(m: ExtXMapV)
    requires
        wf_map(m),
    ensures
        crate::attribute::spec_render_pairs(spec_map_pairs(m)).len() > 0,
        spec_parse_map_tag(crate::attribute::spec_render_pairs(spec_map_pairs(m)))
            == Result::<TagV, ErrorKind>::Ok(TagV::ExtXMap(ExtXMapV { keys: Seq::empty(), ..m })),
{
    reveal_strlit("URI");
    reveal_strlit("BYTERANGE");
    let ps = spec_map_pairs(m);
    let l0 = seq![("URI"@, crate::attribute::spec_quote(m.uri))];
    assert forall|i: int| 0 <= i < "URI"@.len() implies #[trigger] "URI"@[i] != '=' && "URI"@[i]
        != ',' && "URI"@[i] != '"' by {}
    assert forall|i: int| 0 <= i < "BYTERANGE"@.len() implies #[trigger] "BYTERANGE"@[i] != '='
        && "BYTERANGE"@[i] != ',' && "BYTERANGE"@[i] != '"' by {}
    crate::attribute::lemma_quote_unquote(m.uri);
    if m.range is Some {
        let v = spec_render_byte_range_val(m.range.unwrap());
        crate::text::lemma_render_u64_digits(m.range.unwrap().length as nat);
        assert forall|i: int| 0 <= i < v.len() implies #[trigger] v[i] != '"' by {
            let ld = crate::text::spec_render_u64(m.range.unwrap().length as nat);
            if i < ld.len() {
                assert(v[i] == ld[i]);
                assert(crate::text::is_digit(ld[i]));
            } else {
                match m.range.unwrap().start {
                    Some(o) => {
                        crate::text::lemma_render_u64_digits(o as nat);
                        let od = crate::text::spec_render_u64(o as nat);
                        if i > ld.len() {
                            assert(v[i] == od[i - ld.len() - 1]);
                            assert(crate::text::is_digit(od[i - ld.len() - 1]));
                        }
                    },
                    Option::None => {},
                }
            }
        }
        crate::attribute::lemma_quote_unquote(v);
    }
    assert(crate::attribute::wf_pairs(ps));
    crate::attribute::lemma_parse_render_pairs(ps);
    let param = crate::attribute::spec_render_pairs(ps);
    assert(ps[0] == ("URI"@, crate::attribute::spec_quote(m.uri)));
    assert(param.len() > 0) by {
        if ps.len() == 1 {
        } else {
        }
    }
    let acc0 = MapAccV { uri: Option::None, range: Option::None };
    assert(l0 =~= Seq::<(Seq<char>, Seq<char>)>::empty().push(
        ("URI"@, crate::attribute::spec_quote(m.uri)),
    ));
    lemma_map_fold_snoc(
        Seq::<(Seq<char>, Seq<char>)>::empty(),
        ("URI"@, crate::attribute::spec_quote(m.uri)),
        acc0,
    );
    let a1 = MapAccV { uri: Some(m.uri), range: Option::None };
    assert(spec_map_fold(l0, acc0) == Result::<MapAccV, ErrorKind>::Ok(a1));
    let a2 = MapAccV { range: m.range, ..a1 };
    assert(spec_map_fold(ps, acc0) == Result::<MapAccV, ErrorKind>::Ok(a2)) by {
        if m.range is Some {
            lemma_byte_range_val_roundtrip(m.range.unwrap());
            lemma_map_fold_snoc(
                l0,
                (
                    "BYTERANGE"@,
                    crate::attribute::spec_quote(spec_render_byte_range_val(m.range.unwrap())),
                ),
                acc0,
            );
        } else {
            assert(a2 == a1);
        }
    }
    assert(spec_parse_map_tag(param) == Result::<TagV, ErrorKind>::Ok(
        TagV::ExtXMap(ExtXMapV { keys: Seq::empty(), ..m }),
    ));
}

/// A rendered initialization-map tag reads back as itself, with an empty
/// key list.
pub proof fn lemma_map_roundtrip(m: ExtXMapV)
    requires
        wf_map(m),
    ensures
        spec_dispatch(spec_render_map(m)) == Result::<TagV, ErrorKind>::Ok(
            TagV::ExtXMap(ExtXMapV { keys: Seq::empty(), ..m }),
        ),
{
    reveal_strlit("#EXT-X-MAP:");
    reveal_strlit("#EXTM3U");
    reveal_strlit("#EXT-X-VERSION");
    reveal_strlit("#EXTINF");
    reveal_strlit("#EXT-X-BYTERANGE");
    reveal_strlit("#EXT-X-DISCONTINUITY");
    reveal_strlit("#EXT-X-KEY");
    reveal_strlit("#EXT-X-MAP");
    lemma_map_param_roundtrip(m);
    let param = crate::attribute::spec_render_pairs(spec_map_pairs(m));
    let line = spec_render_map(m);
    assert(line[10] == ':');
    assert forall|j: int| 0 <= j < 10 implies line[j] != ':' by {
        assert(line[j] == "#EXT-X-MAP:"@[j]);
    }
    crate::text::lemma_find_char_at(line, ':', 10);
    let name = line.subrange(0, 10);
    assert(name =~= "#EXT-X-MAP"@);
    assert(name[7] == 'M');
    assert("#EXT-X-KEY"@[7] == 'K');
    assert(name != "#EXT-X-KEY"@);
    assert(line.subrange(11, line.len() as int) =~= param);
}

/// The canonical text of a signed decimal-seconds value.
pub open spec fn spec_render_signed_millis(m: i64) -> Seq<char> {
    if m < 0 {
        seq!['-'] + crate::text::spec_render_duration((-(m as int)) as u64)
    } else {
        crate::text::spec_render_duration(m as u64)
    }
}

/// Appends the canonical text of a signed decimal-seconds value.
pub fn push_signed_millis(out: &mut String, m: i64)
    requires
        m > i64::MIN,
    ensures
        final(out)@ == old(out)@ + spec_render_signed_millis(m),
{
    if m < 0 {
        proof {
            reveal_strlit("-");
            assert("-"@ =~= seq!['-']);
        }
        out.append("-");
        let mag: u64 = (-m) as u64;
        crate::text::push_duration(out, mag);
        proof {
            assert(final(out)@ =~= old(out)@ + spec_render_signed_millis(m));
        }
    } else {
        crate::text::push_duration(out, m as u64);
    }
}

/// A rendered signed decimal-seconds value reads back as itself, provided
/// its magnitude is representable.
pub proof fn lemma_signed_millis_roundtrip(m: i64)
    requires
        m > i64::MIN,
    ensures
        spec_parse_signed_millis(spec_render_signed_millis(m)) == Some(m),
        crate::attribute::plain_value(spec_render_signed_millis(m)),
{
    let t = spec_render_signed_millis(m);
    if m < 0 {
        let mag = (-(m as int)) as u64;
        lemma_render_duration_chars(mag, '"');
        lemma_render_duration_chars(mag, ',');
        crate::text::lemma_parse_render_duration(mag);
        assert(t[0] == '-');
        assert(t.subrange(1, t.len() as int) =~= crate::text::spec_render_duration(mag));
        assert forall|i: int| 0 <= i < t.len() implies #[trigger] t[i] != '"' && t[i] != ',' by {
            if i > 0 {
                assert(t[i] == crate::text::spec_render_duration(mag)[i - 1]);
            }
        }
    } else {
        lemma_render_duration_chars(m as u64, '"');
        lemma_render_duration_chars(m as u64, ',');
        lemma_render_duration_chars(m as u64, '-');
        crate::text::lemma_parse_render_duration(m as u64);
        if t.len() > 0 {
            assert(t[0] != '-');
        }
        assert forall|i: int| 0 <= i < t.len() implies #[trigger] t[i] != '"' && t[i] != ',' by {}
    }
}

/// The canonical attribute pairs of a start tag: the precise flag is
/// written only when it is set.
pub open spec fn spec_start_pairs(st: ExtXStart) -> Seq<(Seq<char>, Seq<char>)> {
    let l = seq![("TIME-OFFSET"@, spec_render_signed_millis(st.time_offset_millis))];
    if st.precise {
        l.push(("PRECISE"@, "YES"@))
    } else {
        l
    }
}

/// The canonical text of a start tag.
pub open spec fn spec_render_start(st: ExtXStart) -> Seq<char> {
    "#EXT-X-START:"@ + crate::attribute::spec_render_pairs(spec_start_pairs(st))
}

/// Appends the canonical text of a start tag.
pub fn push_start(out: &mut String, st: &ExtXStart)
    requires
        st.time_offset_millis > i64::MIN,
    ensures
        final(out)@ == old(out)@ + spec_render_start(*st),
{
    proof {
        reveal_strlit("#EXT-X-START:TIME-OFFSET=");
        reveal_strlit("#EXT-X-START:");
        reveal_strlit("TIME-OFFSET");
        reveal_strlit(",PRECISE=YES");
        reveal_strlit("PRECISE");
        reveal_strlit("YES");
    }
    out.append("#EXT-X-START:TIME-OFFSET=");
    push_signed_millis(out, st.time_offset_millis);
    let ghost l0 = seq![("TIME-OFFSET"@, spec_render_signed_millis(st.time_offset_millis))];
    proof {
        assert(out@ =~= old(out)@ + "#EXT-X-START:"@ + crate::attribute::spec_render_pairs(l0));
    }
    if st.precise {
        out.append(",PRECISE=YES");
        proof {
            crate::attribute::lemma_render_pairs_snoc(l0, ("PRECISE"@, "YES"@));
            assert(out@ =~= old(out)@ + "#EXT-X-START:"@ + crate::attribute::spec_render_pairs(
                spec_start_pairs(*st),
            ));
        }
    }
    proof {
        assert(final(out)@ =~= old(out)@ + spec_render_start(*st));
    }
}

/// A rendered start tag's attribute list reads back as the tag's fields.
#[verifier::rlimit(60)]
pub proof fn lemma_start_param_roundtrip(st: ExtXStart)
    requires
        st.time_offset_millis > i64::MIN,
    ensures
        crate::attribute::spec_render_pairs(spec_start_pairs(st)).len() > 0,
        spec_parse_start_tag(crate::attribute::spec_render_pairs(spec_start_pairs(st)))
            == Result::<TagV, ErrorKind>::Ok(TagV::ExtXStart(st)),
{
    reveal_strlit("TIME-OFFSET");
    reveal_strlit("PRECISE");
    reveal_strlit("YES");
    lemma_signed_millis_roundtrip(st.time_offset_millis);
    let ps = spec_start_pairs(st);
    let l0 = seq![("TIME-OFFSET"@, spec_render_signed_millis(st.time_offset_millis))];
    assert forall|i: int| 0 <= i < "TIME-OFFSET"@.len() implies #[trigger] "TIME-OFFSET"@[i]
        != '=' && "TIME-OFFSET"@[i] != ',' && "TIME-OFFSET"@[i] != '"' by {}
    assert forall|i: int| 0 <= i < "PRECISE"@.len() implies #[trigger] "PRECISE"@[i] != '='
        && "PRECISE"@[i] != ',' && "PRECISE"@[i] != '"' by {}
    assert forall|i: int| 0 <= i < "YES"@.len() implies #[trigger] "YES"@[i] != '"' && "YES"@[i]
        != ',' by {}
    crate::attribute::lemma_plain_value_wf(spec_render_signed_millis(st.time_offset_millis));
    crate::attribute::lemma_plain_value_wf("YES"@);
    assert(crate::attribute::wf_pairs(ps));
    crate::attribute::lemma_parse_render_pairs(ps);
    let param = crate::attribute::spec_render_pairs(ps);
    assert(ps[0] == ("TIME-OFFSET"@, spec_render_signed_millis(st.time_offset_millis)));
    assert(param.len() > 0) by {
        if ps.len() == 1 {
        } else {
        }
    }
    let acc0 = StartAccV { time_offset_millis: Option::None, precise: Option::None };
    assert(l0 =~= Seq::<(Seq<char>, Seq<char>)>::empty().push(
        ("TIME-OFFSET"@, spec_render_signed_millis(st.time_offset_millis)),
    ));
    lemma_start_fold_snoc(
        Seq::<(Seq<char>, Seq<char>)>::empty(),
        ("TIME-OFFSET"@, spec_render_signed_millis(st.time_offset_millis)),
        acc0,
    );
    let a1 = StartAccV { time_offset_millis: Some(st.time_offset_millis), precise: Option::None };
    assert(spec_start_fold(l0, acc0) == Result::<StartAccV, ErrorKind>::Ok(a1));
    let a2 = StartAccV {
        precise: if st.precise {
            Some(true)
        } else {
            Option::None
        },
        ..a1
    };
    assert(spec_start_fold(ps, acc0) == Result::<StartAccV, ErrorKind>::Ok(a2)) by {
        if st.precise {
            lemma_start_fold_snoc(l0, ("PRECISE"@, "YES"@), acc0);
        } else {
            assert(a2 == a1);
        }
    }
    assert(spec_parse_start_tag(param) == Result::<TagV, ErrorKind>::Ok(TagV::ExtXStart(st)));
}

/// A rendered start tag reads back as itself.
pub proof fn lemma_start_roundtrip(st: ExtXStart)
    requires
        st.time_offset_millis > i64::MIN,
    ensures
        spec_dispatch(spec_render_start(st)) == Result::<TagV, ErrorKind>::Ok(TagV::ExtXStart(st)),
{
    reveal_strlit("#EXT-X-START:");
    reveal_strlit("#EXTM3U");
    reveal_strlit("#EXT-X-VERSION");
    reveal_strlit("#EXTINF");
    reveal_strlit("#EXT-X-BYTERANGE");
    reveal_strlit("#EXT-X-DISCONTINUITY");
    reveal_strlit("#EXT-X-KEY");
    reveal_strlit("#EXT-X-MAP");
    reveal_strlit("#EXT-X-PROGRAM-DATE-TIME");
    reveal_strlit("#EXT-X-DATERANGE");
    reveal_strlit("#EXT-X-TARGETDURATION");
    reveal_strlit("#EXT-X-MEDIA-SEQUENCE");
    reveal_strlit("#EXT-X-DISCONTINUITY-SEQUENCE");
    reveal_strlit("#EXT-X-ENDLIST");
    reveal_strlit("#EXT-X-PLAYLIST-TYPE");
    reveal_strlit("#EXT-X-I-FRAMES-ONLY");
    reveal_strlit("#EXT-X-INDEPENDENT-SEGMENTS");
    reveal_strlit("#EXT-X-START");
    lemma_start_param_roundtrip(st);
    let param = crate::attribute::spec_render_pairs(spec_start_pairs(st));
    let line = spec_render_start(st);
    assert(line[12] == ':');
    assert forall|j: int| 0 <= j < 12 implies line[j] != ':' by {
        assert(line[j] == "#EXT-X-START:"@[j]);
    }
    crate::text::lemma_find_char_at(line, ':', 12);
    let name = line.subrange(0, 12);
    assert(name =~= "#EXT-X-START"@);
    assert(line.subrange(13, line.len() as int) =~= param);
}

/// A rendered end-list tag reads back as itself.
pub proof fn lemma_end_list_roundtrip()
    ensures
        spec_dispatch(spec_render_end_list()) == Result::<TagV, ErrorKind>::Ok(TagV::ExtXEndList),
{
    reveal_strlit("#EXTM3U");
    reveal_strlit("#EXT-X-VERSION");
    reveal_strlit("#EXTINF");
    reveal_strlit("#EXT-X-BYTERANGE");
    reveal_strlit("#EXT-X-DISCONTINUITY");
    reveal_strlit("#EXT-X-KEY");
    reveal_strlit("#EXT-X-MAP");
    reveal_strlit("#EXT-X-PROGRAM-DATE-TIME");
    reveal_strlit("#EXT-X-DATERANGE");
    reveal_strlit("#EXT-X-TARGETDURATION");
    reveal_strlit("#EXT-X-MEDIA-SEQUENCE");
    reveal_strlit("#EXT-X-DISCONTINUITY-SEQUENCE");
    reveal_strlit("#EXT-X-ENDLIST");
    reveal_strlit("#EXT-X-PLAYLIST-TYPE");
    reveal_strlit("#EXT-X-I-FRAMES-ONLY");
    reveal_strlit("#EXT-X-INDEPENDENT-SEGMENTS");
    reveal_strlit("#EXT-X-START");
    reveal_strlit("#EXT-X-MEDIA");
    reveal_strlit("#EXT-X-STREAM-INF");
    reveal_strlit("#EXT-X-I-FRAME-STREAM-INF");
    reveal_strlit("#EXT-X-SESSION-DATA");
    reveal_strlit("#EXT-X-SESSION-KEY");
    let line = spec_render_end_list();
    assert forall|j: int| 0 <= j < line.len() implies line[j] != ':' by {}
    crate::text::lemma_find_char_none(line, ':');
    assert(line[7] == 'E');
    assert("#EXT-X-VERSION"@[7] == 'V');
    assert(line != "#EXT-X-VERSION"@);
}

} // verus!




