//! The media playlist: a validated, immutable sequence of media segments
//! with its document-level tags, its assembler, and its serializer.

use vstd::prelude::*;
use vstd::string::StringExecFns;
use crate::error::Error;
use crate::error::ErrorKind;
use crate::line::Line;
use crate::line::LineV;
use crate::line::lines_view;
use crate::line::parse_lines;
use crate::line::spec_line_stream;
use crate::media_segment::MediaSegment;
use crate::media_segment::MediaSegmentBuilder;
use crate::media_segment::MediaSegmentBuilderV;
use crate::media_segment::MediaSegmentV;
use crate::tags::ExtInf;
use crate::tags::ExtXDiscontinuitySequence;
use crate::tags::ExtXEndList;
use crate::tags::ExtXIFramesOnly;
use crate::tags::ExtXIndependentSegments;
use crate::tags::ExtXKey;
use crate::tags::ExtXKeyV;
use crate::tags::ExtXMap;
use crate::tags::ExtXMediaSequence;
use crate::tags::ExtXPlaylistType;
use crate::tags::ExtXStart;
use crate::tags::ExtXTargetDuration;
use crate::tags::TagV;
use crate::text::spec_significant_lines;
use crate::types::Duration;
use crate::types::PlaylistType;
use crate::types::ProtocolVersion;

verus! {

/// A validated media playlist: the document-level tags and the ordered
/// media segments. Immutable once built; the builder and the parser both
/// pass through the same validation gate.
#[derive(Debug, Clone)]
pub struct MediaPlaylist {
    /// The mandatory target-duration tag.
    pub target_duration_tag: ExtXTargetDuration,
    /// The media-sequence tag, when present.
    pub media_sequence_tag: Option<ExtXMediaSequence>,
    /// The discontinuity-sequence tag, when present.
    pub discontinuity_sequence_tag: Option<ExtXDiscontinuitySequence>,
    /// The playlist-type tag, when present.
    pub playlist_type_tag: Option<ExtXPlaylistType>,
    /// The i-frames-only tag, when present.
    pub i_frames_only_tag: Option<ExtXIFramesOnly>,
    /// The independent-segments tag, when present.
    pub independent_segments_tag: Option<ExtXIndependentSegments>,
    /// The start tag, when present.
    pub start_tag: Option<ExtXStart>,
    /// The end-list tag, when present.
    pub end_list_tag: Option<ExtXEndList>,
    /// The media segments, in order.
    pub segments: Vec<MediaSegment>,
    /// The tolerance added to the target duration when segment durations
    /// are validated.
    pub allowable_excess_duration: Duration,
}

/// What a [`MediaPlaylist`] holds, at the specification level.
pub struct MediaPlaylistV {
    /// The target duration, in milliseconds; always whole seconds when
    /// the playlist came from text.
    pub target_duration_millis: u64,
    /// The media-sequence number, when present.
    pub media_sequence: Option<u64>,
    /// The discontinuity-sequence number, when present.
    pub discontinuity_sequence: Option<u64>,
    /// The playlist type, when present.
    pub playlist_type: Option<PlaylistType>,
    /// Whether the i-frames-only tag is present.
    pub i_frames_only: bool,
    /// Whether the independent-segments tag is present.
    pub independent_segments: bool,
    /// The start tag, when present.
    pub start: Option<ExtXStart>,
    /// Whether the end-list tag is present.
    pub end_list: bool,
    /// The media segments, in order.
    pub segments: Seq<MediaSegmentV>,
    /// The validation tolerance, in milliseconds.
    pub allowable_excess_millis: u64,
}

impl View for MediaPlaylist {
    type V = MediaPlaylistV;

    open spec fn view(&self) -> MediaPlaylistV {
        MediaPlaylistV {
            target_duration_millis: self.target_duration_tag.duration.millis,
            media_sequence: match self.media_sequence_tag {
                Some(t) => Some(t.number),
                Option::None => Option::None,
            },
            discontinuity_sequence: match self.discontinuity_sequence_tag {
                Some(t) => Some(t.number),
                Option::None => Option::None,
            },
            playlist_type: match self.playlist_type_tag {
                Some(t) => Some(t.playlist_type),
                Option::None => Option::None,
            },
            i_frames_only: self.i_frames_only_tag is Some,
            independent_segments: self.independent_segments_tag is Some,
            start: self.start_tag,
            end_list: self.end_list_tag is Some,
            segments: Seq::new(self.segments@.len(), |i: int| self.segments@[i]@),
            allowable_excess_millis: self.allowable_excess_duration.millis,
        }
    }
}

/// A draft [`MediaPlaylist`]: fields accumulate and freeze into a
/// playlist only when the validation gate passes.
#[derive(Debug, Clone)]
pub struct MediaPlaylistBuilder {
    /// The target-duration tag, when set; required to build.
    pub target_duration_tag: Option<ExtXTargetDuration>,
    /// The media-sequence tag, when set.
    pub media_sequence_tag: Option<ExtXMediaSequence>,
    /// The discontinuity-sequence tag, when set.
    pub discontinuity_sequence_tag: Option<ExtXDiscontinuitySequence>,
    /// The playlist-type tag, when set.
    pub playlist_type_tag: Option<ExtXPlaylistType>,
    /// The i-frames-only tag, when set.
    pub i_frames_only_tag: Option<ExtXIFramesOnly>,
    /// The independent-segments tag, when set.
    pub independent_segments_tag: Option<ExtXIndependentSegments>,
    /// The start tag, when set.
    pub start_tag: Option<ExtXStart>,
    /// The end-list tag, when set.
    pub end_list_tag: Option<ExtXEndList>,
    /// The media segments gathered so far.
    pub segments: Vec<MediaSegment>,
    /// The validation tolerance; zero unless set.
    pub allowable_excess_duration: Duration,
}

/// What a [`MediaPlaylistBuilder`] holds, at the specification level.
pub struct MediaPlaylistBuilderV {
    /// The target duration in milliseconds, when set.
    pub target_duration_millis: Option<u64>,
    /// The media-sequence number, when set.
    pub media_sequence: Option<u64>,
    /// The discontinuity-sequence number, when set.
    pub discontinuity_sequence: Option<u64>,
    /// The playlist type, when set.
    pub playlist_type: Option<PlaylistType>,
    /// Whether the i-frames-only tag is set.
    pub i_frames_only: bool,
    /// Whether the independent-segments tag is set.
    pub independent_segments: bool,
    /// The start tag, when set.
    pub start: Option<ExtXStart>,
    /// Whether the end-list tag is set.
    pub end_list: bool,
    /// The media segments gathered so far.
    pub segments: Seq<MediaSegmentV>,
    /// The validation tolerance, in milliseconds.
    pub allowable_excess_millis: u64,
}

impl View for MediaPlaylistBuilder {
    type V = MediaPlaylistBuilderV;

    open spec fn view(&self) -> MediaPlaylistBuilderV {
        MediaPlaylistBuilderV {
            target_duration_millis: match self.target_duration_tag {
                Some(t) => Some(t.duration.millis),
                Option::None => Option::None,
            },
            media_sequence: match self.media_sequence_tag {
                Some(t) => Some(t.number),
                Option::None => Option::None,
            },
            discontinuity_sequence: match self.discontinuity_sequence_tag {
                Some(t) => Some(t.number),
                Option::None => Option::None,
            },
            playlist_type: match self.playlist_type_tag {
                Some(t) => Some(t.playlist_type),
                Option::None => Option::None,
            },
            i_frames_only: self.i_frames_only_tag is Some,
            independent_segments: self.independent_segments_tag is Some,
            start: self.start_tag,
            end_list: self.end_list_tag is Some,
            segments: Seq::new(self.segments@.len(), |i: int| self.segments@[i]@),
            allowable_excess_millis: self.allowable_excess_duration.millis,
        }
    }
}

/// The rounded duration of a segment, in whole seconds: the sub-second
/// remainder rounds up when it is at least half a second.
pub open spec fn rounded_secs(millis: u64) -> nat {
    (millis / 1000) as nat + if millis % 1000 >= 500 {
        1nat
    } else {
        0nat
    }
}

/// Whether a segment duration fits under the target duration plus the
/// tolerance, after rounding to whole seconds.
pub open spec fn segment_duration_ok(millis: u64, target_millis: u64, excess_millis: u64) -> bool {
    rounded_secs(millis) * 1000 <= target_millis + excess_millis
}

/// The segment validation fold. Walking the segments in order with the
/// URI of the last explicit byte range at hand: a segment whose rounded
/// duration exceeds the bound fails; a byte range without a start is only
/// legal when the previous segment carried a byte range on the same URI.
pub open spec fn spec_validate_segments(
    segs: Seq<MediaSegmentV>,
    target_millis: u64,
    excess_millis: u64,
    last_range_uri: Option<Seq<char>>,
) -> Result<(), ErrorKind>
    decreases segs.len(),
{
    if segs.len() == 0 {
        Ok(())
    } else {
        let s = segs[0];
        if !segment_duration_ok(s.inf.duration_millis, target_millis, excess_millis) {
            Err(ErrorKind::Custom)
        } else {
            match s.byte_range {
                Some(r) => match r.start {
                    Some(_) => spec_validate_segments(
                        segs.drop_first(),
                        target_millis,
                        excess_millis,
                        Some(s.uri),
                    ),
                    Option::None => match last_range_uri {
                        Option::None => Err(ErrorKind::InvalidInput),
                        Some(u) => if u == s.uri {
                            spec_validate_segments(
                                segs.drop_first(),
                                target_millis,
                                excess_millis,
                                Some(u),
                            )
                        } else {
                            Err(ErrorKind::InvalidInput)
                        },
                    },
                },
                Option::None => spec_validate_segments(
                    segs.drop_first(),
                    target_millis,
                    excess_millis,
                    Option::None,
                ),
            }
        }
    }
}

/// The single validation gate: what freezing a draft yields. The target
/// duration is required; every segment must pass the validation fold.
pub open spec fn spec_build_playlist(b: MediaPlaylistBuilderV) -> Result<
    MediaPlaylistV,
    ErrorKind,
> {
    match b.target_duration_millis {
        Option::None => Err(ErrorKind::Custom),
        Some(target) => match spec_validate_segments(
            b.segments,
            target,
            b.allowable_excess_millis,
            Option::None,
        ) {
            Err(e) => Err(e),
            Ok(_) => Ok(
                MediaPlaylistV {
                    target_duration_millis: target,
                    media_sequence: b.media_sequence,
                    discontinuity_sequence: b.discontinuity_sequence,
                    playlist_type: b.playlist_type,
                    i_frames_only: b.i_frames_only,
                    independent_segments: b.independent_segments,
                    start: b.start,
                    end_list: b.end_list,
                    segments: b.segments,
                    allowable_excess_millis: b.allowable_excess_millis,
                },
            ),
        },
    }
}

impl MediaPlaylistBuilder {
    /// The view of a fresh builder: nothing set, tolerance zero.
    pub open spec fn empty_view() -> MediaPlaylistBuilderV {
        MediaPlaylistBuilderV {
            target_duration_millis: Option::None,
            media_sequence: Option::None,
            discontinuity_sequence: Option::None,
            playlist_type: Option::None,
            i_frames_only: false,
            independent_segments: false,
            start: Option::None,
            end_list: false,
            segments: Seq::empty(),
            allowable_excess_millis: 0,
        }
    }

    /// Sets the target-duration tag.
    pub fn target_duration_tag(&mut self, t: ExtXTargetDuration) -> (ret: &mut Self)
        ensures
            *ret == (MediaPlaylistBuilder { target_duration_tag: Some(t), ..*old(self) }),
            *final(self) == *final(ret),
    {
        self.target_duration_tag = Some(t);
        self
    }

    /// Sets the media-sequence tag.
    pub fn media_sequence_tag(&mut self, t: ExtXMediaSequence) -> (ret: &mut Self)
        ensures
            *ret == (MediaPlaylistBuilder { media_sequence_tag: Some(t), ..*old(self) }),
            *final(self) == *final(ret),
    {
        self.media_sequence_tag = Some(t);
        self
    }

    /// Sets the discontinuity-sequence tag.
    pub fn discontinuity_sequence_tag(&mut self, t: ExtXDiscontinuitySequence) -> (ret: &mut Self)
        ensures
            *ret == (MediaPlaylistBuilder { discontinuity_sequence_tag: Some(t), ..*old(self) }),
            *final(self) == *final(ret),
    {
        self.discontinuity_sequence_tag = Some(t);
        self
    }

    /// Sets the playlist-type tag.
    pub fn playlist_type_tag(&mut self, t: ExtXPlaylistType) -> (ret: &mut Self)
        ensures
            *ret == (MediaPlaylistBuilder { playlist_type_tag: Some(t), ..*old(self) }),
            *final(self) == *final(ret),
    {
        self.playlist_type_tag = Some(t);
        self
    }

    /// Sets the i-frames-only tag.
    pub fn i_frames_only_tag(&mut self, t: ExtXIFramesOnly) -> (ret: &mut Self)
        ensures
            *ret == (MediaPlaylistBuilder { i_frames_only_tag: Some(t), ..*old(self) }),
            *final(self) == *final(ret),
    {
        self.i_frames_only_tag = Some(t);
        self
    }

    /// Sets the independent-segments tag.
    pub fn independent_segments_tag(&mut self, t: ExtXIndependentSegments) -> (ret: &mut Self)
        ensures
            *ret == (MediaPlaylistBuilder { independent_segments_tag: Some(t), ..*old(self) }),
            *final(self) == *final(ret),
    {
        self.independent_segments_tag = Some(t);
        self
    }

    /// Sets the start tag.
    pub fn start_tag(&mut self, t: ExtXStart) -> (ret: &mut Self)
        ensures
            *ret == (MediaPlaylistBuilder { start_tag: Some(t), ..*old(self) }),
            *final(self) == *final(ret),
    {
        self.start_tag = Some(t);
        self
    }

    /// Sets the end-list tag.
    pub fn end_list_tag(&mut self, t: ExtXEndList) -> (ret: &mut Self)
        ensures
            *ret == (MediaPlaylistBuilder { end_list_tag: Some(t), ..*old(self) }),
            *final(self) == *final(ret),
    {
        self.end_list_tag = Some(t);
        self
    }

    /// Replaces the media segments.
    pub fn segments(&mut self, segments: Vec<MediaSegment>) -> (ret: &mut Self)
        ensures
            *ret == (MediaPlaylistBuilder { segments: segments, ..*old(self) }),
            *final(self) == *final(ret),
    {
        self.segments = segments;
        self
    }

    /// Sets the allowable excess duration: the tolerance added to the
    /// target duration when segment durations are validated.
    pub fn allowable_excess_duration(&mut self, value: Duration) -> (ret: &mut Self)
        ensures
            *ret == (MediaPlaylistBuilder { allowable_excess_duration: value, ..*old(self) }),
            *final(self) == *final(ret),
    {
        self.allowable_excess_duration = value;
        self
    }

    /// Adds a media segment to the resulting playlist.
    pub fn push_segment(&mut self, value: MediaSegment) -> (ret: &mut Self)
        ensures
            ret@.segments == old(self)@.segments.push(value@),
            *final(self) == *final(ret),
            ret@ == (MediaPlaylistBuilderV {
                segments: old(self)@.segments.push(value@),
                ..old(self)@
            }),
    {
        self.segments.push(value);
        proof {
            assert(self@.segments =~= old(self)@.segments.push(value@));
        }
        self
    }

    /// The segment validation fold over the gathered segments, with the
    /// given target duration. Succeeds exactly when every segment's
    /// rounded duration is within the bound and every open-ended byte
    /// range continues one on the same URI.
    pub fn validate_media_segments(&self, target_duration: Duration) -> (r: Result<(), Error>)
        ensures
            match r {
                Ok(_) => spec_validate_segments(
                    self@.segments,
                    target_duration.millis,
                    self@.allowable_excess_millis,
                    Option::None,
                ) is Ok,
                Err(e) => spec_validate_segments(
                    self@.segments,
                    target_duration.millis,
                    self@.allowable_excess_millis,
                    Option::None,
                ) == Result::<(), ErrorKind>::Err(e@),
            },
    {
        let ghost segs = self@.segments;
        let target_millis = target_duration.as_millis();
        let excess_millis = self.allowable_excess_duration.as_millis();
        let ghost mut last_v: Option<Seq<char>> = Option::None;
        let mut last_range_uri: Option<&String> = Option::None;
        let n = self.segments.len();
        let mut i: usize = 0;
        proof {
            assert(segs.skip(0) =~= segs);
        }
        while i < n
            invariant
                0 <= i <= n == self.segments@.len(),
                segs == self@.segments,
                target_millis == target_duration.millis,
                excess_millis == self@.allowable_excess_millis,
                match last_range_uri {
                    Some(u) => last_v == Some(u@),
                    Option::None => last_v is None,
                },
                spec_validate_segments(segs, target_millis, excess_millis, Option::None)
                    == spec_validate_segments(
                    segs.skip(i as int),
                    target_millis,
                    excess_millis,
                    last_v,
                ),
            decreases n - i,
        {
            let s = &self.segments[i];
            proof {
                assert(segs.skip(i as int)[0] == s@);
                assert(segs.skip(i as int).drop_first() =~= segs.skip(i + 1));
            }
            // the rounded duration must fit under the bound
            let dm = s.inf_tag.duration.as_millis();
            let rounded: u64 = if dm % 1000 >= 500 {
                dm / 1000 + 1
            } else {
                dm / 1000
            };
            let limit_ok: bool = if rounded <= u64::MAX / 1000 {
                proof {
                    assert(rounded * 1000 <= u64::MAX) by (nonlinear_arith)
                        requires
                            rounded <= u64::MAX / 1000,
                    ;
                }
                let r1000 = rounded * 1000;
                r1000 <= target_millis || r1000 - target_millis <= excess_millis
            } else {
                // the rounded duration in milliseconds exceeds `u64::MAX`
                // by exactly `extra`; the bound can still hold when the
                // target and the tolerance together reach that far
                let extra = 1000 - u64::MAX % 1000;
                proof {
                    assert(rounded == u64::MAX / 1000 + 1);
                    assert((u64::MAX / 1000) * 1000 + u64::MAX % 1000 == u64::MAX);
                    assert(rounded * 1000 == (u64::MAX / 1000) * 1000 + 1000) by (nonlinear_arith)
                        requires
                            rounded == u64::MAX / 1000 + 1,
                    ;
                    assert(rounded * 1000 == u64::MAX + extra);
                }
                excess_millis >= extra && target_millis >= u64::MAX - excess_millis + extra
            };
            proof {
                assert(rounded == rounded_secs(dm));
                assert(limit_ok == segment_duration_ok(dm, target_millis, excess_millis));
            }
            if !limit_ok {
                return Err(
                    Error::Custom(
                        String::from_str(
                            "a media segment's rounded duration exceeds the target duration plus the allowable excess",
                        ),
                    ),
                );
            }
            match &s.byte_range_tag {
                Some(tag) => {
                    match tag.range.start {
                        Some(_) => {
                            last_range_uri = Some(&s.uri);
                            proof {
                                last_v = Some(s@.uri);
                            }
                        }
                        Option::None => {
                            match last_range_uri {
                                Option::None => {
                                    return Err(Error::InvalidInput);
                                }
                                Some(u) => {
                                    if !u.eq(&s.uri) {
                                        return Err(Error::InvalidInput);
                                    }
                                    proof {
                                        last_v = Some(s@.uri);
                                    }
                                    last_range_uri = Some(&s.uri);
                                }
                            }
                        }
                    }
                }
                Option::None => {
                    last_range_uri = Option::None;
                    proof {
                        last_v = Option::None;
                    }
                }
            }
            i = i + 1;
        }
        proof {
            assert(segs.skip(n as int) =~= Seq::<MediaSegmentV>::empty());
        }
        Ok(())
    }

    /// Checks the cross-segment invariants, when a target duration is at
    /// hand; a draft with no target duration passes vacuously, and fails
    /// later at the build gate.
    pub fn validate(&self) -> (r: Result<(), Error>)
        ensures
            match r {
                Ok(_) => match self@.target_duration_millis {
                    Some(t) => spec_validate_segments(
                        self@.segments,
                        t,
                        self@.allowable_excess_millis,
                        Option::None,
                    ) is Ok,
                    Option::None => true,
                },
                Err(e) => match self@.target_duration_millis {
                    Some(t) => spec_validate_segments(
                        self@.segments,
                        t,
                        self@.allowable_excess_millis,
                        Option::None,
                    ) == Result::<(), ErrorKind>::Err(e@),
                    Option::None => false,
                },
            },
    {
        match &self.target_duration_tag {
            Some(t) => {
                let d = t.duration();
                self.validate_media_segments(d)
            }
            Option::None => Ok(()),
        }
    }

    /// Freezes the draft through the validation gate: the target duration
    /// must be set and every segment must pass the validation fold.
    pub fn build(&self) -> (r: Result<MediaPlaylist, Error>)
        ensures
            match r {
                Ok(p) => spec_build_playlist(self@) == Result::<MediaPlaylistV, ErrorKind>::Ok(
                    p@,
                ),
                Err(e) => spec_build_playlist(self@) == Result::<MediaPlaylistV, ErrorKind>::Err(
                    e@,
                ),
            },
    {
        match self.validate() {
            Ok(_) => (),
            Err(e) => {
                return Err(e);
            }
        }
        let target_duration_tag = match self.target_duration_tag {
            Some(t) => t,
            Option::None => {
                return Err(
                    Error::Custom(String::from_str("a media playlist needs a target duration")),
                );
            }
        };
        Ok(
            MediaPlaylist {
                target_duration_tag,
                media_sequence_tag: self.media_sequence_tag,
                discontinuity_sequence_tag: self.discontinuity_sequence_tag,
                playlist_type_tag: self.playlist_type_tag,
                i_frames_only_tag: self.i_frames_only_tag,
                independent_segments_tag: self.independent_segments_tag,
                start_tag: self.start_tag,
                end_list_tag: self.end_list_tag,
                segments: crate::media_segment::clone_segments(&self.segments),
                allowable_excess_duration: self.allowable_excess_duration,
            },
        )
    }
}

/// Whether two segment lists hold the same segments in the same order.
fn segments_eq(a: &Vec<MediaSegment>, b: &Vec<MediaSegment>) -> (r: bool)
    ensures
        r == (Seq::new(a@.len(), |i: int| a@[i]@) == Seq::new(b@.len(), |i: int| b@[i]@)),
{
    let ghost av = Seq::new(a@.len(), |i: int| a@[i]@);
    let ghost bv = Seq::new(b@.len(), |i: int| b@[i]@);
    if a.len() != b.len() {
        proof {
            assert(av.len() != bv.len());
        }
        return false;
    }
    let n = a.len();
    let mut i: usize = 0;
    while i < n
        invariant
            0 <= i <= n == a@.len() == b@.len(),
            av == Seq::new(a@.len(), |k: int| a@[k]@),
            bv == Seq::new(b@.len(), |k: int| b@[k]@),
            forall|m: int| 0 <= m < i ==> av[m] == bv[m],
        decreases n - i,
    {
        if !(a[i] == b[i]) {
            proof {
                assert(av[i as int] != bv[i as int]);
            }
            return false;
        }
        i = i + 1;
    }
    proof {
        assert(av =~= bv);
    }
    true
}

impl PartialEq for MediaPlaylist {
    fn eq(&self, other: &Self) -> (r: bool) {
        let mseq_eq = match (self.media_sequence_tag, other.media_sequence_tag) {
            (Option::None, Option::None) => true,
            (Some(x), Some(y)) => x == y,
            _ => false,
        };
        let dseq_eq = match (self.discontinuity_sequence_tag, other.discontinuity_sequence_tag) {
            (Option::None, Option::None) => true,
            (Some(x), Some(y)) => x == y,
            _ => false,
        };
        let pt_eq = match (self.playlist_type_tag, other.playlist_type_tag) {
            (Option::None, Option::None) => true,
            (Some(x), Some(y)) => x == y,
            _ => false,
        };
        let start_eq = match (self.start_tag, other.start_tag) {
            (Option::None, Option::None) => true,
            (Some(x), Some(y)) => x == y,
            _ => false,
        };
        self.target_duration_tag == other.target_duration_tag && mseq_eq && dseq_eq && pt_eq
            && self.i_frames_only_tag.is_some() == other.i_frames_only_tag.is_some()
            && self.independent_segments_tag.is_some() == other.independent_segments_tag.is_some()
            && start_eq && self.end_list_tag.is_some() == other.end_list_tag.is_some()
            && segments_eq(&self.segments, &other.segments) && self.allowable_excess_duration
            == other.allowable_excess_duration
    }
}

impl vstd::std_specs::cmp::PartialEqSpecImpl for MediaPlaylist {
    open spec fn obeys_eq_spec() -> bool {
        true
    }

    open spec fn eq_spec(&self, other: &Self) -> bool {
        self@ == other@
    }
}

/// The views of a vector of keys.
pub open spec fn keys_view(v: Seq<ExtXKey>) -> Seq<ExtXKeyV> {
    Seq::new(v.len(), |i: int| v[i]@)
}

/// The key-propagation rule: a new key replaces the first active key with
/// the same key format, and is appended when no active key has its
/// format.
pub open spec fn spec_apply_key(active: Seq<ExtXKeyV>, k: ExtXKeyV) -> Seq<ExtXKeyV>
    decreases active.len(),
{
    if active.len() == 0 {
        seq![k]
    } else if active[0].key_format == k.key_format {
        seq![k] + active.drop_first()
    } else {
        seq![active[0]] + spec_apply_key(active.drop_first(), k)
    }
}

/// Applying a key whose format is active at position `j`, and nowhere
/// earlier, replaces position `j`.
pub proof fn lemma_apply_key_at(active: Seq<ExtXKeyV>, k: ExtXKeyV, j: int)
    requires
        0 <= j < active.len(),
        active[j].key_format == k.key_format,
        forall|m: int| 0 <= m < j ==> (#[trigger] active[m]).key_format != k.key_format,
    ensures
        spec_apply_key(active, k) == active.update(j, k),
    decreases j,
{
    if j == 0 {
        assert(seq![k] + active.drop_first() =~= active.update(0, k));
    } else {
        assert(forall|m: int|
            0 <= m < j - 1 ==> (#[trigger] active.drop_first()[m]).key_format != k.key_format);
        lemma_apply_key_at(active.drop_first(), k, j - 1);
        assert(seq![active[0]] + active.drop_first().update(j - 1, k) =~= active.update(j, k));
    }
}

/// Applying a key whose format is not active appends it.
pub proof fn lemma_apply_key_none(active: Seq<ExtXKeyV>, k: ExtXKeyV)
    requires
        forall|m: int|
            0 <= m < active.len() ==> (#[trigger] active[m]).key_format != k.key_format,
    ensures
        spec_apply_key(active, k) == active.push(k),
    decreases active.len(),
{
    if active.len() == 0 {
        assert(seq![k] =~= active.push(k));
    } else {
        lemma_apply_key_none(active.drop_first(), k);
        assert(seq![active[0]] + active.drop_first().push(k) =~= active.push(k));
    }
}

/// The rolling state of the playlist assembler.
pub struct AssemblerV {
    /// The document-level fields and finished segments gathered so far.
    pub b: MediaPlaylistBuilderV,
    /// The segment under construction.
    pub pending: MediaSegmentBuilderV,
    /// Whether a segment is in progress and still needs its URI line.
    pub has_partial: bool,
    /// Whether a discontinuity marker has been seen.
    pub has_discontinuity: bool,
    /// The decryption keys currently active.
    pub active_keys: Seq<ExtXKeyV>,
}

/// The assembler's starting state over a draft: the draft's document
/// fields and tolerance carry over, its segments are discarded and
/// replaced by what the document holds.
pub open spec fn asm_init(b0: MediaPlaylistBuilderV) -> AssemblerV {
    AssemblerV {
        b: MediaPlaylistBuilderV { segments: Seq::empty(), ..b0 },
        pending: MediaSegmentBuilder::empty_view(),
        has_partial: false,
        has_discontinuity: false,
        active_keys: Seq::empty(),
    }
}

/// One transition of the playlist assembler, for every line after the
/// start-of-file marker.
pub open spec fn spec_assemble_step(st: AssemblerV, line: LineV) -> Result<
    AssemblerV,
    ErrorKind,
> {
    match line {
        LineV::Tag(tag) => match tag {
            TagV::ExtM3u => Err(ErrorKind::InvalidInput),
            TagV::ExtXVersion(_) => Ok(st),
            TagV::ExtInf(t) => Ok(
                AssemblerV {
                    pending: MediaSegmentBuilderV { inf: Some(t), ..st.pending },
                    has_partial: true,
                    ..st
                },
            ),
            TagV::ExtXByteRange(r) => Ok(
                AssemblerV {
                    pending: MediaSegmentBuilderV { byte_range: Some(r), ..st.pending },
                    has_partial: true,
                    ..st
                },
            ),
            TagV::ExtXDiscontinuity => Ok(
                AssemblerV {
                    pending: MediaSegmentBuilderV { discontinuity: true, ..st.pending },
                    has_partial: true,
                    has_discontinuity: true,
                    ..st
                },
            ),
            TagV::ExtXKey(k) => Ok(
                AssemblerV {
                    active_keys: spec_apply_key(st.active_keys, k),
                    has_partial: true,
                    ..st
                },
            ),
            TagV::ExtXMap(m) => Ok(
                AssemblerV {
                    pending: MediaSegmentBuilderV {
                        map_tag: Some(
                            crate::tags::ExtXMapV { keys: st.active_keys, ..m },
                        ),
                        ..st.pending
                    },
                    has_partial: true,
                    ..st
                },
            ),
            TagV::ExtXProgramDateTime(t) => Ok(
                AssemblerV {
                    pending: MediaSegmentBuilderV { program_date_time: Some(t), ..st.pending },
                    has_partial: true,
                    ..st
                },
            ),
            TagV::ExtXDateRange(t) => Ok(
                AssemblerV {
                    pending: MediaSegmentBuilderV { date_range: Some(t), ..st.pending },
                    has_partial: true,
                    ..st
                },
            ),
            TagV::ExtXTargetDuration(ms) => Ok(
                AssemblerV {
                    b: MediaPlaylistBuilderV { target_duration_millis: Some(ms), ..st.b },
                    ..st
                },
            ),
            TagV::ExtXMediaSequence(n) => Ok(
                AssemblerV { b: MediaPlaylistBuilderV { media_sequence: Some(n), ..st.b }, ..st },
            ),
            TagV::ExtXDiscontinuitySequence(n) => {
                if st.b.segments.len() == 0 {
                    Err(ErrorKind::InvalidInput)
                } else if st.has_discontinuity {
                    Err(ErrorKind::InvalidInput)
                } else {
                    Ok(
                        AssemblerV {
                            b: MediaPlaylistBuilderV {
                                discontinuity_sequence: Some(n),
                                ..st.b
                            },
                            ..st
                        },
                    )
                }
            },
            TagV::ExtXEndList => Ok(
                AssemblerV { b: MediaPlaylistBuilderV { end_list: true, ..st.b }, ..st },
            ),
            TagV::ExtXPlaylistType(pt) => Ok(
                AssemblerV {
                    b: MediaPlaylistBuilderV { playlist_type: Some(pt), ..st.b },
                    ..st
                },
            ),
            TagV::ExtXIFramesOnly => Ok(
                AssemblerV { b: MediaPlaylistBuilderV { i_frames_only: true, ..st.b }, ..st },
            ),
            TagV::ExtXIndependentSegments => Ok(
                AssemblerV {
                    b: MediaPlaylistBuilderV { independent_segments: true, ..st.b },
                    ..st
                },
            ),
            TagV::ExtXStart(s) => Ok(
                AssemblerV { b: MediaPlaylistBuilderV { start: Some(s), ..st.b }, ..st },
            ),
            TagV::ExtXMedia(_) => Err(ErrorKind::UnexpectedTag("EXT-X-MEDIA"@)),
            TagV::ExtXStreamInf(_) => Err(ErrorKind::UnexpectedTag("EXT-X-STREAM-INF"@)),
            TagV::ExtXIFrameStreamInf(_) => Err(
                ErrorKind::UnexpectedTag("EXT-X-I-FRAME-STREAM-INF"@),
            ),
            TagV::ExtXSessionData(_) => Err(ErrorKind::UnexpectedTag("EXT-X-SESSION-DATA"@)),
            TagV::ExtXSessionKey(_) => Err(ErrorKind::UnexpectedTag("EXT-X-SESSION-KEY"@)),
            TagV::Unknown(_) => Ok(st),
        },
        LineV::Uri(u) => {
            let pb = MediaSegmentBuilderV { keys: st.active_keys, uri: Some(u), ..st.pending };
            match MediaSegmentBuilder::spec_build(pb) {
                Ok(seg) => Ok(
                    AssemblerV {
                        b: MediaPlaylistBuilderV {
                            segments: st.b.segments.push(seg),
                            ..st.b
                        },
                        pending: MediaSegmentBuilder::empty_view(),
                        has_partial: false,
                        ..st
                    },
                ),
                Err(e) => Err(e),
            }
        },
    }
}

/// The assembler's fold over the lines after the start-of-file marker.
pub open spec fn spec_fold_lines(ls: Seq<LineV>, st: AssemblerV) -> Result<
    AssemblerV,
    ErrorKind,
>
    decreases ls.len(),
{
    if ls.len() == 0 {
        Ok(st)
    } else {
        match spec_assemble_step(st, ls[0]) {
            Ok(st2) => spec_fold_lines(ls.drop_first(), st2),
            Err(e) => Err(e),
        }
    }
}

/// What ends a parse: a segment still waiting for its URI line is fatal;
/// otherwise the gathered draft goes through the validation gate.
pub open spec fn spec_finalize(st: AssemblerV) -> Result<MediaPlaylistV, ErrorKind> {
    if st.has_partial {
        Err(ErrorKind::InvalidInput)
    } else {
        spec_build_playlist(st.b)
    }
}

/// Assembling a typed line stream: the first line must be the
/// start-of-file marker; the rest fold through the assembler.
pub open spec fn spec_assemble(ls: Seq<LineV>, b0: MediaPlaylistBuilderV) -> Result<
    MediaPlaylistV,
    ErrorKind,
> {
    if ls.len() == 0 {
        Err(ErrorKind::InvalidInput)
    } else if ls[0] != LineV::Tag(TagV::ExtM3u) {
        Err(ErrorKind::InvalidInput)
    } else {
        match spec_fold_lines(ls.drop_first(), asm_init(b0)) {
            Ok(st) => spec_finalize(st),
            Err(e) => Err(e),
        }
    }
}

/// Parsing a media playlist document over a draft: classify the lines,
/// then assemble them.
pub open spec fn spec_parse_media_playlist(s: Seq<char>, b0: MediaPlaylistBuilderV) -> Result<
    MediaPlaylistV,
    ErrorKind,
> {
    match spec_line_stream(spec_significant_lines(s)) {
        Err(e) => Err(e),
        Ok(ls) => spec_assemble(ls, b0),
    }
}

/// Whether two optional strings hold the same text.
fn opt_string_eq(a: &Option<String>, b: &Option<String>) -> (r: bool)
    ensures
        r == (crate::tags::opt_string_view(*a) == crate::tags::opt_string_view(*b)),
{
    match (a, b) {
        (Option::None, Option::None) => true,
        (Some(x), Some(y)) => x.eq(y),
        _ => false,
    }
}

/// Applies a key tag to the active key list under the propagation rule.
fn apply_key(active: &mut Vec<ExtXKey>, k: ExtXKey)
    ensures
        keys_view(final(active)@) == spec_apply_key(keys_view(old(active)@), k@),
{
    let ghost av = keys_view(old(active)@);
    let n = active.len();
    let mut i: usize = 0;
    while i < n
        invariant
            0 <= i <= n == active@.len(),
            active@ == old(active)@,
            av == keys_view(old(active)@),
            forall|m: int| 0 <= m < i ==> (#[trigger] av[m]).key_format != k@.key_format,
        decreases n - i,
    {
        if opt_string_eq(active[i].key_format(), &k.key_format) {
            proof {
                assert(av[i as int].key_format == k@.key_format);
                lemma_apply_key_at(av, k@, i as int);
            }
            active[i] = k;
            proof {
                assert(keys_view(active@) =~= av.update(i as int, k@));
            }
            return ;
        }
        proof {
            assert(av[i as int].key_format != k@.key_format);
        }
        i = i + 1;
    }
    proof {
        lemma_apply_key_none(av, k@);
    }
    active.push(k);
    proof {
        assert(keys_view(active@) =~= av.push(k@));
    }
}

/// Parses a media playlist document over a draft: the draft's document
/// fields stand in for tags the document does not repeat, and its
/// tolerance governs validation. The draft itself is left unchanged; the
/// finished playlist is returned.
#[verifier::rlimit(100)]
pub fn parse_media_playlist(input: &str, builder: &mut MediaPlaylistBuilder) -> (r: Result<
    MediaPlaylist,
    Error,
>)
    ensures
        *final(builder) == *old(builder),
        match r {
            Ok(p) => spec_parse_media_playlist(input@, old(builder)@) == Result::<
                MediaPlaylistV,
                ErrorKind,
            >::Ok(p@),
            Err(e) => spec_parse_media_playlist(input@, old(builder)@) == Result::<
                MediaPlaylistV,
                ErrorKind,
            >::Err(e@),
        },
{
    let ghost b0 = builder@;
    let mut lines: Vec<Line> = match parse_lines(input) {
        Ok(v) => v,
        Err(e) => {
            return Err(e);
        }
    };
    let ghost lv = lines_view(lines@);
    if lines.is_empty() {
        return Err(Error::InvalidInput);
    }
    let first = lines.remove(0);
    match first {
        Line::Tag(crate::tags::Tag::ExtM3u(_)) => (),
        _ => {
            return Err(Error::InvalidInput);
        }
    }
    proof {
        assert(lines_view(lines@) =~= lv.drop_first());
    }
    // the rolling assembler state
    let mut bld = MediaPlaylist::builder();
    bld.target_duration_tag = builder.target_duration_tag;
    bld.media_sequence_tag = builder.media_sequence_tag;
    bld.discontinuity_sequence_tag = builder.discontinuity_sequence_tag;
    bld.playlist_type_tag = builder.playlist_type_tag;
    bld.i_frames_only_tag = builder.i_frames_only_tag;
    bld.independent_segments_tag = builder.independent_segments_tag;
    bld.start_tag = builder.start_tag;
    bld.end_list_tag = builder.end_list_tag;
    bld.allowable_excess_duration = builder.allowable_excess_duration;
    let mut pending = MediaSegment::builder();
    let mut has_partial = false;
    let mut has_discontinuity = false;
    let mut active: Vec<ExtXKey> = Vec::new();
    proof {
        assert(keys_view(active@) =~= Seq::<ExtXKeyV>::empty());
        assert(bld@ == asm_init(b0).b);
        assert(AssemblerV {
            b: bld@,
            pending: pending@,
            has_partial: has_partial,
            has_discontinuity: has_discontinuity,
            active_keys: keys_view(active@),
        } == asm_init(b0));
    }
    while !lines.is_empty()
        invariant
            spec_line_stream(spec_significant_lines(input@)) == Result::<
                Seq<LineV>,
                ErrorKind,
            >::Ok(lv),
            lv.len() > 0,
            lv[0] == LineV::Tag(TagV::ExtM3u),
            b0 == old(builder)@,
            *builder == *old(builder),
            spec_fold_lines(lv.drop_first(), asm_init(b0)) == spec_fold_lines(
                lines_view(lines@),
                AssemblerV {
                    b: bld@,
                    pending: pending@,
                    has_partial: has_partial,
                    has_discontinuity: has_discontinuity,
                    active_keys: keys_view(active@),
                },
            ),
        decreases lines@.len(),
    {
        let ghost st_pre = AssemblerV {
            b: bld@,
            pending: pending@,
            has_partial: has_partial,
            has_discontinuity: has_discontinuity,
            active_keys: keys_view(active@),
        };
        let ghost rest_pre = lines_view(lines@);
        let line = lines.remove(0);
        proof {
            assert(rest_pre[0] == line@);
            assert(lines_view(lines@) =~= rest_pre.drop_first());
        }
        match line {
            Line::Tag(tag) => {
                match tag {
                    crate::tags::Tag::ExtM3u(_) => {
                        return Err(Error::InvalidInput);
                    }
                    crate::tags::Tag::ExtXVersion(_) => (),
                    crate::tags::Tag::Unknown(_) => (),
                    crate::tags::Tag::ExtInf(t) => {
                        pending.inf_tag(t);
                        has_partial = true;
                    }
                    crate::tags::Tag::ExtXByteRange(t) => {
                        pending.byte_range_tag(t);
                        has_partial = true;
                    }
                    crate::tags::Tag::ExtXDiscontinuity(t) => {
                        pending.discontinuity_tag(t);
                        has_partial = true;
                        has_discontinuity = true;
                    }
                    crate::tags::Tag::ExtXKey(k) => {
                        apply_key(&mut active, k);
                        has_partial = true;
                    }
                    crate::tags::Tag::ExtXMap(mut m) => {
                        m.set_keys(crate::tags::clone_keys(&active));
                        pending.map_tag(m);
                        has_partial = true;
                    }
                    crate::tags::Tag::ExtXProgramDateTime(t) => {
                        pending.program_date_time_tag(t);
                        has_partial = true;
                    }
                    crate::tags::Tag::ExtXDateRange(t) => {
                        pending.date_range_tag(t);
                        has_partial = true;
                    }
                    crate::tags::Tag::ExtXTargetDuration(t) => {
                        bld.target_duration_tag = Some(t);
                    }
                    crate::tags::Tag::ExtXMediaSequence(t) => {
                        bld.media_sequence_tag = Some(t);
                    }
                    crate::tags::Tag::ExtXDiscontinuitySequence(t) => {
                        if bld.segments.is_empty() {
                            return Err(Error::InvalidInput);
                        }
                        if has_discontinuity {
                            return Err(Error::InvalidInput);
                        }
                        bld.discontinuity_sequence_tag = Some(t);
                    }
                    crate::tags::Tag::ExtXEndList(t) => {
                        bld.end_list_tag = Some(t);
                    }
                    crate::tags::Tag::ExtXPlaylistType(t) => {
                        bld.playlist_type_tag = Some(t);
                    }
                    crate::tags::Tag::ExtXIFramesOnly(t) => {
                        bld.i_frames_only_tag = Some(t);
                    }
                    crate::tags::Tag::ExtXIndependentSegments(t) => {
                        bld.independent_segments_tag = Some(t);
                    }
                    crate::tags::Tag::ExtXStart(t) => {
                        bld.start_tag = Some(t);
                    }
                    crate::tags::Tag::ExtXMedia(_) => {
                        return Err(
                            Error::UnexpectedTag(String::from_str("EXT-X-MEDIA")),
                        );
                    }
                    crate::tags::Tag::ExtXStreamInf(_) => {
                        return Err(
                            Error::UnexpectedTag(String::from_str("EXT-X-STREAM-INF")),
                        );
                    }
                    crate::tags::Tag::ExtXIFrameStreamInf(_) => {
                        return Err(
                            Error::UnexpectedTag(
                                String::from_str("EXT-X-I-FRAME-STREAM-INF"),
                            ),
                        );
                    }
                    crate::tags::Tag::ExtXSessionData(_) => {
                        return Err(
                            Error::UnexpectedTag(String::from_str("EXT-X-SESSION-DATA")),
                        );
                    }
                    crate::tags::Tag::ExtXSessionKey(_) => {
                        return Err(
                            Error::UnexpectedTag(String::from_str("EXT-X-SESSION-KEY")),
                        );
                    }
                }
            }
            Line::Uri(u) => {
                pending.uri(u);
                pending.keys(crate::tags::clone_keys(&active));
                let pb = pending;
                pending = MediaSegment::builder();
                match pb.build() {
                    Ok(seg) => {
                        bld.segments.push(seg);
                        has_partial = false;
                        proof {
                            assert(bld@.segments =~= st_pre.b.segments.push(
                                bld.segments@[bld.segments@.len() - 1]@,
                            ));
                        }
                    }
                    Err(e) => {
                        return Err(e);
                    }
                }
            }
        }
        proof {
            let st_now = AssemblerV {
                b: bld@,
                pending: pending@,
                has_partial: has_partial,
                has_discontinuity: has_discontinuity,
                active_keys: keys_view(active@),
            };
            assert(spec_assemble_step(st_pre, rest_pre[0]) == Result::<
                AssemblerV,
                ErrorKind,
            >::Ok(st_now));
        }
    }
    proof {
        assert(lines_view(lines@) =~= Seq::<LineV>::empty());
    }
    if has_partial {
        return Err(Error::InvalidInput);
    }
    bld.build()
}

/// The protocol version a key tag requires: key format attributes demand
/// more than an initialization vector, which demands more than the
/// baseline.
pub open spec fn spec_key_required_version(k: ExtXKeyV) -> ProtocolVersion {
    if k.key_format is Some || k.key_format_versions is Some {
        ProtocolVersion::V5
    } else if k.iv is Some {
        ProtocolVersion::V2
    } else {
        ProtocolVersion::V1
    }
}

/// The protocol version a key list requires: the maximum over its keys.
pub open spec fn spec_keys_required_version(keys: Seq<ExtXKeyV>) -> ProtocolVersion
    decreases keys.len(),
{
    if keys.len() == 0 {
        ProtocolVersion::V1
    } else {
        ProtocolVersion::spec_max(
            spec_key_required_version(keys[0]),
            spec_keys_required_version(keys.drop_first()),
        )
    }
}

/// The protocol version a segment requires: its keys, an
/// initialization map, and a byte range each force a minimum.
pub open spec fn spec_segment_required_version(s: MediaSegmentV) -> ProtocolVersion {
    ProtocolVersion::spec_max(
        spec_keys_required_version(s.keys),
        ProtocolVersion::spec_max(
            if s.map_tag is Some {
                ProtocolVersion::V6
            } else {
                ProtocolVersion::V1
            },
            if s.byte_range is Some {
                ProtocolVersion::V4
            } else {
                ProtocolVersion::V1
            },
        ),
    )
}

/// The protocol version a segment list requires: the maximum over its
/// segments.
pub open spec fn spec_segments_required_version(segs: Seq<MediaSegmentV>) -> ProtocolVersion
    decreases segs.len(),
{
    if segs.len() == 0 {
        ProtocolVersion::V1
    } else {
        ProtocolVersion::spec_max(
            spec_segment_required_version(segs[0]),
            spec_segments_required_version(segs.drop_first()),
        )
    }
}

/// The protocol version a playlist requires: the maximum over its
/// segments and its document-level features; the i-frames-only tag is
/// the one document-level feature above the baseline.
pub open spec fn spec_playlist_required_version(p: MediaPlaylistV) -> ProtocolVersion {
    ProtocolVersion::spec_max(
        spec_segments_required_version(p.segments),
        if p.i_frames_only {
            ProtocolVersion::V4
        } else {
            ProtocolVersion::V1
        },
    )
}

/// The protocol version a draft requires, over the same features.
pub open spec fn spec_builder_required_version(b: MediaPlaylistBuilderV) -> ProtocolVersion {
    ProtocolVersion::spec_max(
        spec_segments_required_version(b.segments),
        if b.i_frames_only {
            ProtocolVersion::V4
        } else {
            ProtocolVersion::V1
        },
    )
}

/// The protocol version the key tag `k` requires.
fn key_required_version(k: &ExtXKey) -> (r: ProtocolVersion)
    ensures
        r == spec_key_required_version(k@),
{
    if k.key_format.is_some() || k.key_format_versions.is_some() {
        ProtocolVersion::V5
    } else if k.iv.is_some() {
        ProtocolVersion::V2
    } else {
        ProtocolVersion::V1
    }
}

/// The protocol version the segment `s` requires.
fn segment_required_version(s: &MediaSegment) -> (r: ProtocolVersion)
    ensures
        r == spec_segment_required_version(s@),
{
    let ghost kv = keys_view(s.keys@);
    let mut acc = ProtocolVersion::V1;
    let n = s.keys.len();
    let mut i: usize = 0;
    proof {
        assert(kv.skip(0) =~= kv);
    }
    while i < n
        invariant
            0 <= i <= n == s.keys@.len(),
            kv == keys_view(s.keys@),
            spec_keys_required_version(kv) == ProtocolVersion::spec_max(
                acc,
                spec_keys_required_version(kv.skip(i as int)),
            ),
        decreases n - i,
    {
        proof {
            assert(kv.skip(i as int)[0] == s.keys@[i as int]@);
            assert(kv.skip(i as int).drop_first() =~= kv.skip(i + 1));
        }
        acc = ProtocolVersion::max(acc, key_required_version(&s.keys[i]));
        i = i + 1;
    }
    proof {
        assert(kv.skip(n as int) =~= Seq::<ExtXKeyV>::empty());
    }
    let from_map = if s.map_tag.is_some() {
        ProtocolVersion::V6
    } else {
        ProtocolVersion::V1
    };
    let from_range = if s.byte_range_tag.is_some() {
        ProtocolVersion::V4
    } else {
        ProtocolVersion::V1
    };
    ProtocolVersion::max(acc, ProtocolVersion::max(from_map, from_range))
}

/// The protocol version the segment list requires.
fn segments_required_version(segs: &Vec<MediaSegment>) -> (r: ProtocolVersion)
    ensures
        r == spec_segments_required_version(Seq::new(segs@.len(), |i: int| segs@[i]@)),
{
    let ghost sv = Seq::new(segs@.len(), |i: int| segs@[i]@);
    let mut acc = ProtocolVersion::V1;
    let n = segs.len();
    let mut i: usize = 0;
    proof {
        assert(sv.skip(0) =~= sv);
    }
    while i < n
        invariant
            0 <= i <= n == segs@.len(),
            sv == Seq::new(segs@.len(), |k: int| segs@[k]@),
            spec_segments_required_version(sv) == ProtocolVersion::spec_max(
                acc,
                spec_segments_required_version(sv.skip(i as int)),
            ),
        decreases n - i,
    {
        proof {
            assert(sv.skip(i as int)[0] == segs@[i as int]@);
            assert(sv.skip(i as int).drop_first() =~= sv.skip(i + 1));
        }
        acc = ProtocolVersion::max(acc, segment_required_version(&segs[i]));
        i = i + 1;
    }
    proof {
        assert(sv.skip(n as int) =~= Seq::<MediaSegmentV>::empty());
    }
    acc
}

impl MediaPlaylist {
    /// The minimum protocol version the playlist requires, from the union
    /// of the features it uses.
    pub fn required_version(&self) -> (r: ProtocolVersion)
        ensures
            r == spec_playlist_required_version(self@),
    {
        let from_features = if self.i_frames_only_tag.is_some() {
            ProtocolVersion::V4
        } else {
            ProtocolVersion::V1
        };
        let sv = segments_required_version(&self.segments);
        ProtocolVersion::max(sv, from_features)
    }
}

impl MediaPlaylistBuilder {
    /// The minimum protocol version the draft requires so far.
    pub fn required_version(&self) -> (r: ProtocolVersion)
        ensures
            r == spec_builder_required_version(self@),
    {
        let from_features = if self.i_frames_only_tag.is_some() {
            ProtocolVersion::V4
        } else {
            ProtocolVersion::V1
        };
        let sv = segments_required_version(&self.segments);
        ProtocolVersion::max(sv, from_features)
    }

    /// Parse the rest of the [`MediaPlaylist`] from a playlist document.
    pub fn parse(&mut self, input: &str) -> (r: Result<MediaPlaylist, Error>)
        ensures
            *final(self) == *old(self),
            match r {
                Ok(p) => spec_parse_media_playlist(input@, old(self)@) == Result::<
                    MediaPlaylistV,
                    ErrorKind,
                >::Ok(p@),
                Err(e) => spec_parse_media_playlist(input@, old(self)@) == Result::<
                    MediaPlaylistV,
                    ErrorKind,
                >::Err(e@),
            },
    {
        parse_media_playlist(input, self)
    }
}

/// Whether every segment's rounded duration fits under the bound.
pub open spec fn all_durations_ok(segs: Seq<MediaSegmentV>, target_millis: u64, excess_millis: u64) -> bool {
    forall|i: int|
        0 <= i < segs.len() ==> segment_duration_ok(
            (#[trigger] segs[i]).inf.duration_millis,
            target_millis,
            excess_millis,
        )
}

/// Whether every open-ended byte range continues an explicit one on the
/// same URI: walking the segments with the URI of the last byte range at
/// hand, a range without a start demands that URI to match, and a segment
/// without a byte range clears it.
pub open spec fn ranges_ok(segs: Seq<MediaSegmentV>, last_range_uri: Option<Seq<char>>) -> bool
    decreases segs.len(),
{
    if segs.len() == 0 {
        true
    } else {
        let s = segs[0];
        match s.byte_range {
            Some(r) => match r.start {
                Some(_) => ranges_ok(segs.drop_first(), Some(s.uri)),
                Option::None => match last_range_uri {
                    Option::None => false,
                    Some(u) => u == s.uri && ranges_ok(segs.drop_first(), Some(u)),
                },
            },
            Option::None => ranges_ok(segs.drop_first(), Option::None),
        }
    }
}

/// The duration-bound and byte-range-continuation laws, together: the
/// segment validation fold succeeds exactly when every segment's rounded
/// duration is at most the target duration plus the tolerance, and every
/// open-ended byte range continues an explicit one on the same URI.
pub proof fn lemma_validate_characterization(
    segs: Seq<MediaSegmentV>,
    target_millis: u64,
    excess_millis: u64,
    last_range_uri: Option<Seq<char>>,
)
    ensures
        (spec_validate_segments(segs, target_millis, excess_millis, last_range_uri) is Ok) <==> (
        all_durations_ok(segs, target_millis, excess_millis) && ranges_ok(segs, last_range_uri)),
    decreases segs.len(),
{
    if segs.len() > 0 {
        let s = segs[0];
        assert(segs.drop_first() =~= segs.skip(1));
        match s.byte_range {
            Some(r) => match r.start {
                Some(_) => {
                    lemma_validate_characterization(
                        segs.drop_first(),
                        target_millis,
                        excess_millis,
                        Some(s.uri),
                    );
                },
                Option::None => match last_range_uri {
                    Option::None => {},
                    Some(u) => {
                        lemma_validate_characterization(
                            segs.drop_first(),
                            target_millis,
                            excess_millis,
                            Some(u),
                        );
                    },
                },
            },
            Option::None => {
                lemma_validate_characterization(
                    segs.drop_first(),
                    target_millis,
                    excess_millis,
                    Option::None,
                );
            },
        }
        assert forall|i: int|
            0 <= i < segs.drop_first().len() implies #[trigger] segs.drop_first()[i] == segs[i
            + 1] by {}
        if all_durations_ok(segs, target_millis, excess_millis) {
            assert(all_durations_ok(segs.drop_first(), target_millis, excess_millis));
        }
        if segment_duration_ok(s.inf.duration_millis, target_millis, excess_millis)
            && all_durations_ok(segs.drop_first(), target_millis, excess_millis) {
            assert forall|i: int| 0 <= i < segs.len() implies segment_duration_ok(
                (#[trigger] segs[i]).inf.duration_millis,
                target_millis,
                excess_millis,
            ) by {
                if i > 0 {
                    assert(segs[i] == segs.drop_first()[i - 1]);
                }
            }
        }
    }
}

/// The duration-bound law at one segment: validation accepts a duration
/// exactly when it, rounded to whole seconds with half a second rounding
/// up, is at most the target duration plus the tolerance.
pub proof fn lemma_duration_bound(duration_millis: u64, target_millis: u64, excess_millis: u64)
    ensures
        segment_duration_ok(duration_millis, target_millis, excess_millis) <==> (rounded_secs(
            duration_millis,
        ) * 1000 <= target_millis + excess_millis),
        rounded_secs(duration_millis) == duration_millis / 1000 + if duration_millis % 1000
            >= 500 {
            1nat
        } else {
            0nat
        },
{
}

/// The assembler's fold splits over concatenation.
pub proof fn lemma_fold_lines_concat(a: Seq<LineV>, b: Seq<LineV>, st: AssemblerV)
    ensures
        spec_fold_lines(a + b, st) == (match spec_fold_lines(a, st) {
            Ok(m) => spec_fold_lines(b, m),
            Err(e) => Err(e),
        }),
    decreases a.len(),
{
    if a.len() == 0 {
        assert(a + b =~= b);
    } else {
        assert((a + b)[0] == a[0]);
        assert((a + b).drop_first() =~= a.drop_first() + b);
        match spec_assemble_step(st, a[0]) {
            Ok(st2) => {
                lemma_fold_lines_concat(a.drop_first(), b, st2);
            },
            Err(_) => {},
        }
    }
}

/// A fold that sees no URI line finishes no segment, and a discontinuity
/// marker, once seen, stays seen.
pub proof fn lemma_fold_lines_state(ls: Seq<LineV>, st: AssemblerV)
    ensures
        match spec_fold_lines(ls, st) {
            Ok(st2) => ((forall|i: int| 0 <= i < ls.len() ==> !((#[trigger] ls[i]) is Uri))
                ==> st2.b.segments == st.b.segments) && (st.has_discontinuity
                ==> st2.has_discontinuity),
            Err(_) => true,
        },
    decreases ls.len(),
{
    if ls.len() > 0 {
        match spec_assemble_step(st, ls[0]) {
            Ok(st2) => {
                lemma_fold_lines_state(ls.drop_first(), st2);
                assert(forall|i: int|
                    0 <= i < ls.drop_first().len() ==> ls.drop_first()[i] == ls[i + 1]);
            },
            Err(_) => {},
        }
    }
}

/// The discontinuity-sequence placement law, first half: the tag is
/// rejected when it appears before any segment has been finished. Any
/// line stream whose discontinuity-sequence directive is preceded by no
/// URI line fails with `InvalidInput` or with an earlier error.
pub proof fn lemma_discontinuity_sequence_needs_segment(
    ls: Seq<LineV>,
    b0: MediaPlaylistBuilderV,
    i: int,
)
    requires
        1 <= i < ls.len(),
        ls[i] matches LineV::Tag(TagV::ExtXDiscontinuitySequence(_)),
        forall|j: int| 1 <= j < i ==> !((#[trigger] ls[j]) is Uri),
    ensures
        spec_assemble(ls, b0) is Err,
{
    if ls[0] == LineV::Tag(TagV::ExtM3u) {
        let rest = ls.drop_first();
        let pre = rest.subrange(0, i - 1);
        let post = rest.subrange(i - 1, rest.len() as int);
        assert(rest =~= pre + post);
        lemma_fold_lines_concat(pre, post, asm_init(b0));
        match spec_fold_lines(pre, asm_init(b0)) {
            Ok(m) => {
                lemma_fold_lines_state(pre, asm_init(b0));
                assert(forall|j: int| 0 <= j < pre.len() ==> pre[j] == ls[j + 1]);
                assert(forall|j: int| 0 <= j < pre.len() ==> !((#[trigger] pre[j]) is Uri));
                assert(m.b.segments.len() == 0);
                assert(post[0] == ls[i]);
                assert(spec_assemble_step(m, post[0]) == Result::<AssemblerV, ErrorKind>::Err(
                    ErrorKind::InvalidInput,
                ));
            },
            Err(_) => {},
        }
    }
}

/// The discontinuity-sequence placement law, second half: the tag is
/// rejected when a discontinuity marker appeared earlier in the document.
pub proof fn lemma_discontinuity_sequence_after_marker(
    ls: Seq<LineV>,
    b0: MediaPlaylistBuilderV,
    d: int,
    i: int,
)
    requires
        1 <= d < i < ls.len(),
        ls[d] == LineV::Tag(TagV::ExtXDiscontinuity),
        ls[i] matches LineV::Tag(TagV::ExtXDiscontinuitySequence(_)),
    ensures
        spec_assemble(ls, b0) is Err,
{
    if ls[0] == LineV::Tag(TagV::ExtM3u) {
        let rest = ls.drop_first();
        let pre = rest.subrange(0, d - 1);
        let suffix1 = rest.subrange(d - 1, rest.len() as int);
        assert(rest =~= pre + suffix1);
        lemma_fold_lines_concat(pre, suffix1, asm_init(b0));
        match spec_fold_lines(pre, asm_init(b0)) {
            Ok(m1) => {
                assert(suffix1[0] == rest[d - 1]);
                assert(rest[d - 1] == ls[d]);
                let m2 = (match spec_assemble_step(m1, suffix1[0]) {
                    Ok(m2) => m2,
                    Err(_) => m1,
                });
                assert(spec_assemble_step(m1, suffix1[0]) == Result::<
                    AssemblerV,
                    ErrorKind,
                >::Ok(m2));
                assert(m2.has_discontinuity);
                let after_marker = rest.subrange(d, rest.len() as int);
                assert(suffix1.drop_first() =~= after_marker);
                let mid = rest.subrange(d, i - 1);
                let post = rest.subrange(i - 1, rest.len() as int);
                assert(after_marker =~= mid + post);
                lemma_fold_lines_concat(mid, post, m2);
                match spec_fold_lines(mid, m2) {
                    Ok(m3) => {
                        lemma_fold_lines_state(mid, m2);
                        assert(m3.has_discontinuity);
                        assert(post[0] == rest[i - 1]);
                        assert(rest[i - 1] == ls[i]);
                        assert(spec_assemble_step(m3, post[0]) is Err);
                    },
                    Err(_) => {},
                }
            },
            Err(_) => {},
        }
    }
}

/// The key-propagation law. From a state with no active keys and no
/// pending segment, the directive order key, segment, key, segment
/// resolves the first segment's keys to the first key alone; the second
/// key supersedes the first when it has the same key format and
/// accumulates beside it otherwise, and the second segment's keys are
/// that outcome.
pub proof fn lemma_key_propagation(
    st0: AssemblerV,
    k1: ExtXKeyV,
    k2: ExtXKeyV,
    inf1: crate::tags::ExtInfV,
    inf2: crate::tags::ExtInfV,
    u1: Seq<char>,
    u2: Seq<char>,
)
    requires
        st0.active_keys == Seq::<ExtXKeyV>::empty(),
        st0.pending == MediaSegmentBuilder::empty_view(),
    ensures
        ({
            let ls = seq![
                LineV::Tag(TagV::ExtXKey(k1)),
                LineV::Tag(TagV::ExtInf(inf1)),
                LineV::Uri(u1),
                LineV::Tag(TagV::ExtXKey(k2)),
                LineV::Tag(TagV::ExtInf(inf2)),
                LineV::Uri(u2),
            ];
            match spec_fold_lines(ls, st0) {
                Ok(st) => {
                    let n = st.b.segments.len();
                    &&& n == st0.b.segments.len() + 2
                    &&& st.b.segments[n - 2].keys == seq![k1]
                    &&& st.b.segments[n - 1].keys == (if k1.key_format == k2.key_format {
                        seq![k2]
                    } else {
                        seq![k1, k2]
                    })
                },
                Err(_) => false,
            }
        }),
{
    reveal_with_fuel(spec_fold_lines, 8);
    let ls = seq![
        LineV::Tag(TagV::ExtXKey(k1)),
        LineV::Tag(TagV::ExtInf(inf1)),
        LineV::Uri(u1),
        LineV::Tag(TagV::ExtXKey(k2)),
        LineV::Tag(TagV::ExtInf(inf2)),
        LineV::Uri(u2),
    ];
    // after the first key line the active set is the first key alone
    assert(spec_apply_key(st0.active_keys, k1) =~= seq![k1]);
    let st1 = (match spec_assemble_step(st0, ls[0]) {
        Ok(st) => st,
        Err(_) => st0,
    });
    assert(spec_assemble_step(st0, ls[0]) == Result::<AssemblerV, ErrorKind>::Ok(st1));
    assert(st1.active_keys == seq![k1]);
    let st2 = (match spec_assemble_step(st1, ls[1]) {
        Ok(st) => st,
        Err(_) => st1,
    });
    assert(spec_assemble_step(st1, ls[1]) == Result::<AssemblerV, ErrorKind>::Ok(st2));
    let st3 = (match spec_assemble_step(st2, ls[2]) {
        Ok(st) => st,
        Err(_) => st2,
    });
    assert(spec_assemble_step(st2, ls[2]) == Result::<AssemblerV, ErrorKind>::Ok(st3));
    assert(st3.b.segments.len() == st0.b.segments.len() + 1);
    assert(st3.b.segments.last().keys == seq![k1]);
    // the second key replaces the first under the same format and joins
    // it under a different one
    if k1.key_format == k2.key_format {
        assert(spec_apply_key(st3.active_keys, k2) =~= seq![k2]);
    } else {
        assert(spec_apply_key(seq![k1].drop_first(), k2) =~= seq![k2]);
        assert(spec_apply_key(st3.active_keys, k2) =~= seq![k1, k2]);
    }
    let st4 = (match spec_assemble_step(st3, ls[3]) {
        Ok(st) => st,
        Err(_) => st3,
    });
    assert(spec_assemble_step(st3, ls[3]) == Result::<AssemblerV, ErrorKind>::Ok(st4));
    let st5 = (match spec_assemble_step(st4, ls[4]) {
        Ok(st) => st,
        Err(_) => st4,
    });
    assert(spec_assemble_step(st4, ls[4]) == Result::<AssemblerV, ErrorKind>::Ok(st5));
    let st6 = (match spec_assemble_step(st5, ls[5]) {
        Ok(st) => st,
        Err(_) => st5,
    });
    assert(spec_assemble_step(st5, ls[5]) == Result::<AssemblerV, ErrorKind>::Ok(st6));
    assert(st6.b.segments.len() == st0.b.segments.len() + 2);
    assert(st6.b.segments[st6.b.segments.len() - 2] == st3.b.segments.last());
    // walk the fold through the six lines
    assert(ls.drop_first()[0] == ls[1]);
    assert(ls.drop_first().drop_first()[0] == ls[2]);
    assert(ls.drop_first().drop_first().drop_first()[0] == ls[3]);
    assert(ls.drop_first().drop_first().drop_first().drop_first()[0] == ls[4]);
    assert(ls.drop_first().drop_first().drop_first().drop_first().drop_first()[0] == ls[5]);
    assert(ls.drop_first().drop_first().drop_first().drop_first().drop_first().drop_first()
        =~= Seq::<LineV>::empty());
    assert(spec_fold_lines(ls, st0) == Result::<AssemblerV, ErrorKind>::Ok(st6));
}

/// Empty input fails with `InvalidInput`: an empty document has no lines,
/// so there is no start-of-file marker.
pub proof fn lemma_empty_input(b0: MediaPlaylistBuilderV)
    ensures
        spec_parse_media_playlist(Seq::empty(), b0) == Result::<MediaPlaylistV, ErrorKind>::Err(
            ErrorKind::InvalidInput,
        ),
{
    let e = Seq::<char>::empty();
    assert(crate::text::spec_find(e, '\n') is None);
    assert(crate::text::spec_split_lines(e) == seq![e]);
    assert(seq![e][0] == e);
    assert(crate::text::spec_trim(e) == e);
    assert(!crate::text::keep_line(e));
    assert(seq![e].drop_first() =~= Seq::<Seq<char>>::empty());
    assert(crate::text::sig_of(seq![e].drop_first()) == Seq::<Seq<char>>::empty());
    assert(spec_significant_lines(e) =~= Seq::<Seq<char>>::empty());
    assert(spec_line_stream(spec_significant_lines(e)) == Result::<
        Seq<LineV>,
        ErrorKind,
    >::Ok(Seq::empty()));
}

/// A document whose first significant line is not the start-of-file
/// marker fails with `InvalidInput`.
pub proof fn lemma_must_start_with_marker(s: Seq<char>, b0: MediaPlaylistBuilderV, ls: Seq<LineV>)
    requires
        spec_line_stream(spec_significant_lines(s)) == Result::<Seq<LineV>, ErrorKind>::Ok(ls),
        ls.len() == 0 || ls[0] != LineV::Tag(TagV::ExtM3u),
    ensures
        spec_parse_media_playlist(s, b0) == Result::<MediaPlaylistV, ErrorKind>::Err(
            ErrorKind::InvalidInput,
        ),
{
}

/// The version-aggregation law on rendering: the version directive is
/// written exactly when the playlist's required version exceeds the
/// baseline, and then it names that version.
pub proof fn lemma_version_directive(p: MediaPlaylistV)
    ensures
        spec_playlist_required_version(p) == ProtocolVersion::V1 ==> pl_version_text(p)
            == Seq::<char>::empty(),
        spec_playlist_required_version(p) != ProtocolVersion::V1 ==> pl_version_text(p)
            == crate::tags::spec_render_version(spec_playlist_required_version(p)) + seq!['\n'],
{
}

impl core::str::FromStr for MediaPlaylist {
    type Err = Error;

    fn from_str(input: &str) -> Result<Self, Self::Err> {
        parse_media_playlist(input, &mut MediaPlaylist::builder())
    }
}

/// The version directive line of a playlist, present exactly when the
/// required version exceeds the baseline.
pub open spec fn pl_version_text(p: MediaPlaylistV) -> Seq<char> {
    if spec_playlist_required_version(p) != ProtocolVersion::V1 {
        crate::tags::spec_render_version(spec_playlist_required_version(p)) + seq!['\n']
    } else {
        Seq::empty()
    }
}

/// The media-sequence line of a playlist, when present.
pub open spec fn pl_media_sequence_text(p: MediaPlaylistV) -> Seq<char> {
    match p.media_sequence {
        Some(n) => crate::tags::spec_render_media_sequence(n) + seq!['\n'],
        Option::None => Seq::empty(),
    }
}

/// The discontinuity-sequence line of a playlist, when present.
pub open spec fn pl_discontinuity_sequence_text(p: MediaPlaylistV) -> Seq<char> {
    match p.discontinuity_sequence {
        Some(n) => crate::tags::spec_render_discontinuity_sequence(n) + seq!['\n'],
        Option::None => Seq::empty(),
    }
}

/// The playlist-type line of a playlist, when present.
pub open spec fn pl_playlist_type_text(p: MediaPlaylistV) -> Seq<char> {
    match p.playlist_type {
        Some(t) => crate::tags::spec_render_playlist_type(t) + seq!['\n'],
        Option::None => Seq::empty(),
    }
}

/// The i-frames-only line of a playlist, when present.
pub open spec fn pl_i_frames_only_text(p: MediaPlaylistV) -> Seq<char> {
    if p.i_frames_only {
        crate::tags::spec_render_i_frames_only() + seq!['\n']
    } else {
        Seq::empty()
    }
}

/// The independent-segments line of a playlist, when present.
pub open spec fn pl_independent_segments_text(p: MediaPlaylistV) -> Seq<char> {
    if p.independent_segments {
        crate::tags::spec_render_independent_segments() + seq!['\n']
    } else {
        Seq::empty()
    }
}

/// The start line of a playlist, when present.
pub open spec fn pl_start_text(p: MediaPlaylistV) -> Seq<char> {
    match p.start {
        Some(st) => crate::tags::spec_render_start(st) + seq!['\n'],
        Option::None => Seq::empty(),
    }
}

/// The end-list line of a playlist, when present.
pub open spec fn pl_end_list_text(p: MediaPlaylistV) -> Seq<char> {
    if p.end_list {
        crate::tags::spec_render_end_list() + seq!['\n']
    } else {
        Seq::empty()
    }
}

/// The canonical text of a segment list.
pub open spec fn spec_render_segments(segs: Seq<MediaSegmentV>) -> Seq<char>
    decreases segs.len(),
{
    if segs.len() == 0 {
        Seq::empty()
    } else {
        crate::media_segment::spec_render_segment(segs[0]) + spec_render_segments(
            segs.drop_first(),
        )
    }
}

/// The canonical text of a media playlist: the start-of-file marker, the
/// version directive when one is required, the document-level tags, the
/// segments, and the end-list marker last.
pub open spec fn spec_render_media_playlist(p: MediaPlaylistV) -> Seq<char> {
    crate::tags::spec_render_extm3u() + seq!['\n'] + pl_version_text(p)
        + crate::tags::spec_render_target_duration(p.target_duration_millis) + seq!['\n']
        + pl_media_sequence_text(p) + pl_discontinuity_sequence_text(p) + pl_playlist_type_text(p)
        + pl_i_frames_only_text(p) + pl_independent_segments_text(p) + pl_start_text(p)
        + spec_render_segments(p.segments) + pl_end_list_text(p)
}

/// The canonical text of the first `k` segments.
pub open spec fn spec_render_segments_prefix(segs: Seq<MediaSegmentV>, k: int) -> Seq<char>
    decreases k,
{
    if k <= 0 {
        Seq::empty()
    } else {
        spec_render_segments_prefix(segs, k - 1) + crate::media_segment::spec_render_segment(
            segs[k - 1],
        )
    }
}

/// The segment rendering splits at any position.
pub proof fn lemma_render_segments_prefix_mid(segs: Seq<MediaSegmentV>, k: int)
    requires
        0 <= k <= segs.len(),
    ensures
        spec_render_segments_prefix(segs, k) + spec_render_segments(segs.skip(k))
            == spec_render_segments_prefix(segs, segs.len() as int) + spec_render_segments(
            segs.skip(segs.len() as int),
        ),
    decreases segs.len() - k,
{
    if k < segs.len() {
        lemma_render_segments_prefix_mid(segs, k + 1);
        assert(segs.skip(k)[0] == segs[k]);
        assert(segs.skip(k).drop_first() =~= segs.skip(k + 1));
        assert(spec_render_segments_prefix(segs, k) + spec_render_segments(segs.skip(k))
            =~= spec_render_segments_prefix(segs, k + 1) + spec_render_segments(
            segs.skip(k + 1),
        ));
    }
}

/// The prefix rendering of all segments equals the rendering of the list.
pub proof fn lemma_render_segments_prefix_all(segs: Seq<MediaSegmentV>)
    ensures
        spec_render_segments_prefix(segs, segs.len() as int) == spec_render_segments(segs),
{
    lemma_render_segments_prefix_mid(segs, 0);
    assert(segs.skip(0) =~= segs);
    assert(spec_render_segments_prefix(segs, 0) + spec_render_segments(segs)
        =~= spec_render_segments(segs));
    assert(segs.skip(segs.len() as int) =~= Seq::<MediaSegmentV>::empty());
    assert(spec_render_segments_prefix(segs, segs.len() as int) + spec_render_segments(
        segs.skip(segs.len() as int),
    ) =~= spec_render_segments_prefix(segs, segs.len() as int));
}

/// Appends the canonical text of a segment list.
fn push_segments(out: &mut String, segs: &Vec<MediaSegment>)
    ensures
        final(out)@ == old(out)@ + spec_render_segments(Seq::new(segs@.len(), |i: int| segs@[i]@)),
{
    let ghost sv = Seq::new(segs@.len(), |i: int| segs@[i]@);
    let n = segs.len();
    let mut i: usize = 0;
    while i < n
        invariant
            0 <= i <= n == segs@.len(),
            sv == Seq::new(segs@.len(), |k: int| segs@[k]@),
            out@ == old(out)@ + spec_render_segments_prefix(sv, i as int),
        decreases n - i,
    {
        crate::media_segment::push_segment_text(out, &segs[i]);
        proof {
            assert(out@ =~= old(out)@ + spec_render_segments_prefix(sv, i + 1));
        }
        i = i + 1;
    }
    proof {
        lemma_render_segments_prefix_all(sv);
    }
}

impl MediaPlaylist {
    /// Renders the playlist to its canonical text: one directive or URI
    /// per line. Total for every structurally valid playlist; the one
    /// structural demand is that a start tag's offset is representable.
    #[verifier::rlimit(100)]
    pub fn render(&self) -> (r: String)
        requires
            match self@.start {
                Some(st) => st.time_offset_millis > i64::MIN,
                Option::None => true,
            },
        ensures
            r@ == spec_render_media_playlist(self@),
    {
        let ghost p = self@;
        let mut out = String::new();
        proof {
            reveal_strlit("\n");
            assert("\n"@ =~= seq!['\n']);
            reveal_strlit("#EXTM3U");
        }
        out.append("#EXTM3U");
        out.append("\n");
        let ghost t1 = crate::tags::spec_render_extm3u() + seq!['\n'];
        proof {
            assert(out@ =~= Seq::<char>::empty() + t1);
        }
        let rv = self.required_version();
        if rv.number() != 1 {
            crate::tags::push_version(&mut out, rv);
            out.append("\n");
        }
        let ghost t2 = t1 + pl_version_text(p);
        proof {
            assert(rv == ProtocolVersion::V1 <==> rv.spec_number() == 1);
            assert(out@ =~= Seq::<char>::empty() + t2);
        }
        crate::tags::push_target_duration(&mut out, &self.target_duration_tag);
        out.append("\n");
        let ghost t3 = t2 + crate::tags::spec_render_target_duration(p.target_duration_millis)
            + seq!['\n'];
        proof {
            assert(out@ =~= Seq::<char>::empty() + t3);
        }
        match &self.media_sequence_tag {
            Some(t) => {
                crate::tags::push_media_sequence(&mut out, t);
                out.append("\n");
            }
            Option::None => (),
        }
        let ghost t4 = t3 + pl_media_sequence_text(p);
        proof {
            assert(out@ =~= Seq::<char>::empty() + t4);
        }
        match &self.discontinuity_sequence_tag {
            Some(t) => {
                crate::tags::push_discontinuity_sequence(&mut out, t);
                out.append("\n");
            }
            Option::None => (),
        }
        let ghost t5 = t4 + pl_discontinuity_sequence_text(p);
        proof {
            assert(out@ =~= Seq::<char>::empty() + t5);
        }
        match &self.playlist_type_tag {
            Some(t) => {
                crate::tags::push_playlist_type(&mut out, t);
                out.append("\n");
            }
            Option::None => (),
        }
        let ghost t6 = t5 + pl_playlist_type_text(p);
        proof {
            assert(out@ =~= Seq::<char>::empty() + t6);
        }
        match &self.i_frames_only_tag {
            Some(_) => {
                proof {
                    reveal_strlit("#EXT-X-I-FRAMES-ONLY");
                }
                out.append("#EXT-X-I-FRAMES-ONLY");
                out.append("\n");
            }
            Option::None => (),
        }
        let ghost t7 = t6 + pl_i_frames_only_text(p);
        proof {
            assert(out@ =~= Seq::<char>::empty() + t7);
        }
        match &self.independent_segments_tag {
            Some(_) => {
                proof {
                    reveal_strlit("#EXT-X-INDEPENDENT-SEGMENTS");
                }
                out.append("#EXT-X-INDEPENDENT-SEGMENTS");
                out.append("\n");
            }
            Option::None => (),
        }
        let ghost t8 = t7 + pl_independent_segments_text(p);
        proof {
            assert(out@ =~= Seq::<char>::empty() + t8);
        }
        match &self.start_tag {
            Some(t) => {
                crate::tags::push_start(&mut out, t);
                out.append("\n");
            }
            Option::None => (),
        }
        let ghost t9 = t8 + pl_start_text(p);
        proof {
            assert(out@ =~= Seq::<char>::empty() + t9);
        }
        push_segments(&mut out, &self.segments);
        let ghost t10 = t9 + spec_render_segments(p.segments);
        proof {
            assert(out@ =~= Seq::<char>::empty() + t10);
        }
        match &self.end_list_tag {
            Some(_) => {
                proof {
                    reveal_strlit("#EXT-X-ENDLIST");
                }
                out.append("#EXT-X-ENDLIST");
                out.append("\n");
            }
            Option::None => (),
        }
        proof {
            assert(out@ =~= Seq::<char>::empty() + t10 + pl_end_list_text(p));
            assert(Seq::<char>::empty() + t10 + pl_end_list_text(p)
                =~= spec_render_media_playlist(p));
        }
        out
    }
}

impl MediaPlaylist {
    /// Returns a builder for [`MediaPlaylist`].
    pub fn builder() -> (r: MediaPlaylistBuilder)
        ensures
            r@ == MediaPlaylistBuilder::empty_view(),
    {
        let r = MediaPlaylistBuilder {
            target_duration_tag: Option::None,
            media_sequence_tag: Option::None,
            discontinuity_sequence_tag: Option::None,
            playlist_type_tag: Option::None,
            i_frames_only_tag: Option::None,
            independent_segments_tag: Option::None,
            start_tag: Option::None,
            end_list_tag: Option::None,
            segments: Vec::new(),
            allowable_excess_duration: Duration::from_millis(0),
        };
        proof {
            assert(r@.segments =~= Seq::<MediaSegmentV>::empty());
        }
        r
    }

    /// The target-duration tag of the playlist.
    pub fn target_duration_tag(&self) -> (r: ExtXTargetDuration)
        ensures
            r.duration.millis == self@.target_duration_millis,
    {
        self.target_duration_tag
    }

    /// The media-sequence tag of the playlist, when present.
    pub fn media_sequence_tag(&self) -> (r: Option<ExtXMediaSequence>)
        ensures
            match r {
                Some(t) => self@.media_sequence == Some(t.number),
                Option::None => self@.media_sequence is None,
            },
    {
        self.media_sequence_tag
    }

    /// The discontinuity-sequence tag of the playlist, when present.
    pub fn discontinuity_sequence_tag(&self) -> (r: Option<ExtXDiscontinuitySequence>)
        ensures
            match r {
                Some(t) => self@.discontinuity_sequence == Some(t.number),
                Option::None => self@.discontinuity_sequence is None,
            },
    {
        self.discontinuity_sequence_tag
    }

    /// The playlist-type tag of the playlist, when present.
    pub fn playlist_type_tag(&self) -> (r: Option<ExtXPlaylistType>)
        ensures
            match r {
                Some(t) => self@.playlist_type == Some(t.playlist_type),
                Option::None => self@.playlist_type is None,
            },
    {
        self.playlist_type_tag
    }

    /// The i-frames-only tag of the playlist, when present.
    pub fn i_frames_only_tag(&self) -> (r: Option<ExtXIFramesOnly>)
        ensures
            (r is Some) == self@.i_frames_only,
    {
        self.i_frames_only_tag
    }

    /// The independent-segments tag of the playlist, when present.
    pub fn independent_segments_tag(&self) -> (r: Option<ExtXIndependentSegments>)
        ensures
            (r is Some) == self@.independent_segments,
    {
        self.independent_segments_tag
    }

    /// The start tag of the playlist, when present.
    pub fn start_tag(&self) -> (r: Option<ExtXStart>)
        ensures
            r == self@.start,
    {
        self.start_tag
    }

    /// The end-list tag of the playlist, when present.
    pub fn end_list_tag(&self) -> (r: Option<ExtXEndList>)
        ensures
            (r is Some) == self@.end_list,
    {
        self.end_list_tag
    }

    /// The media segments of the playlist, in order.
    pub fn segments(&self) -> (r: &Vec<MediaSegment>)
        ensures
            Seq::new(r@.len(), |i: int| r@[i]@) == self@.segments,
    {
        &self.segments
    }
}

} // verus!
