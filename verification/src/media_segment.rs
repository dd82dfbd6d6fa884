//! A media segment: one chunk of media with a duration and a URI.

use vstd::prelude::*;
use crate::error::Error;
use crate::error::ErrorKind;
use crate::tags::ExtInf;
use crate::tags::ExtInfV;
use crate::tags::ExtXByteRange;
use crate::tags::ExtXDateRange;
use crate::tags::ExtXDiscontinuity;
use crate::tags::ExtXKey;
use crate::tags::ExtXKeyV;
use crate::tags::ExtXMap;
use crate::tags::ExtXMapV;
use crate::tags::ExtXProgramDateTime;
use crate::types::ByteRange;

verus! {

/// One chunk of media: zero or more tag lines followed by exactly one URI
/// line. A segment is immutable once built.
#[derive(Debug, Clone)]
pub struct MediaSegment {
    /// The decryption keys active when the segment's URI line was reached.
    pub keys: Vec<ExtXKey>,
    /// The initialization-map tag, when one applies.
    pub map_tag: Option<ExtXMap>,
    /// The byte-range tag, when the segment is a sub-range of its URI.
    pub byte_range_tag: Option<ExtXByteRange>,
    /// The date-range tag, when one was attached.
    pub date_range_tag: Option<ExtXDateRange>,
    /// The discontinuity marker, when the segment follows an encoding
    /// break.
    pub discontinuity_tag: Option<ExtXDiscontinuity>,
    /// The program-date-time tag, when one was attached.
    pub program_date_time_tag: Option<ExtXProgramDateTime>,
    /// The mandatory duration-and-title tag.
    pub inf_tag: ExtInf,
    /// The URI of the segment.
    pub uri: String,
}

/// What a [`MediaSegment`] holds, at the specification level.
pub struct MediaSegmentV {
    /// The decryption keys active when the segment was finalized.
    pub keys: Seq<ExtXKeyV>,
    /// The initialization-map tag, when one applies.
    pub map_tag: Option<ExtXMapV>,
    /// The byte range, when the segment is a sub-range of its URI.
    pub byte_range: Option<ByteRange>,
    /// The date-range attribute text, when one was attached.
    pub date_range: Option<Seq<char>>,
    /// Whether the segment follows an encoding break.
    pub discontinuity: bool,
    /// The program-date-time text, when one was attached.
    pub program_date_time: Option<Seq<char>>,
    /// The duration and title.
    pub inf: ExtInfV,
    /// The URI of the segment.
    pub uri: Seq<char>,
}

impl View for MediaSegment {
    type V = MediaSegmentV;

    open spec fn view(&self) -> MediaSegmentV {
        MediaSegmentV {
            keys: Seq::new(self.keys@.len(), |i: int| self.keys@[i]@),
            map_tag: match self.map_tag {
                Some(ref m) => Some(m@),
                Option::None => Option::None,
            },
            byte_range: match self.byte_range_tag {
                Some(t) => Some(t.range),
                Option::None => Option::None,
            },
            date_range: match self.date_range_tag {
                Some(ref t) => Some(t@),
                Option::None => Option::None,
            },
            discontinuity: self.discontinuity_tag is Some,
            program_date_time: match self.program_date_time_tag {
                Some(ref t) => Some(t@),
                Option::None => Option::None,
            },
            inf: self.inf_tag@,
            uri: self.uri@,
        }
    }
}

impl MediaSegment {
    /// Returns a builder for [`MediaSegment`].
    pub fn builder() -> (r: MediaSegmentBuilder)
        ensures
            r@ == MediaSegmentBuilder::empty_view(),
    {
        let r = MediaSegmentBuilder {
            keys: Vec::new(),
            map_tag: Option::None,
            byte_range_tag: Option::None,
            date_range_tag: Option::None,
            discontinuity_tag: Option::None,
            program_date_time_tag: Option::None,
            inf_tag: Option::None,
            uri: Option::None,
        };
        proof {
            assert(r@.keys =~= Seq::<ExtXKeyV>::empty());
        }
        r
    }

    /// The URI of the segment.
    pub fn uri(&self) -> (r: &String)
        ensures
            r@ == self@.uri,
    {
        &self.uri
    }

    /// The duration-and-title tag of the segment.
    pub fn inf_tag(&self) -> (r: &ExtInf)
        ensures
            r@ == self@.inf,
    {
        &self.inf_tag
    }

    /// The byte-range tag of the segment, when one is set.
    pub fn byte_range_tag(&self) -> (r: Option<ExtXByteRange>)
        ensures
            match r {
                Some(t) => self@.byte_range == Some(t.range),
                Option::None => self@.byte_range is None,
            },
    {
        self.byte_range_tag
    }

    /// The decryption keys resolved for the segment.
    pub fn keys(&self) -> (r: &Vec<ExtXKey>)
        ensures
            Seq::new(r@.len(), |i: int| r@[i]@) == self@.keys,
    {
        &self.keys
    }

    /// The initialization-map tag of the segment, when one is set.
    pub fn map_tag(&self) -> (r: &Option<ExtXMap>)
        ensures
            match r {
                Some(m) => self@.map_tag == Some(m@),
                Option::None => self@.map_tag is None,
            },
    {
        &self.map_tag
    }
}

/// A draft [`MediaSegment`]: fields accumulate one by one and freeze into
/// a segment when the URI line arrives.
#[derive(Debug, Clone)]
pub struct MediaSegmentBuilder {
    /// The decryption keys resolved for the segment.
    pub keys: Vec<ExtXKey>,
    /// The initialization-map tag, when seen.
    pub map_tag: Option<ExtXMap>,
    /// The byte-range tag, when seen.
    pub byte_range_tag: Option<ExtXByteRange>,
    /// The date-range tag, when seen.
    pub date_range_tag: Option<ExtXDateRange>,
    /// The discontinuity marker, when seen.
    pub discontinuity_tag: Option<ExtXDiscontinuity>,
    /// The program-date-time tag, when seen.
    pub program_date_time_tag: Option<ExtXProgramDateTime>,
    /// The duration-and-title tag, when seen; required to build.
    pub inf_tag: Option<ExtInf>,
    /// The URI, when seen; required to build.
    pub uri: Option<String>,
}

/// What a [`MediaSegmentBuilder`] holds, at the specification level.
pub struct MediaSegmentBuilderV {
    /// The decryption keys resolved for the segment.
    pub keys: Seq<ExtXKeyV>,
    /// The initialization-map tag, when seen.
    pub map_tag: Option<ExtXMapV>,
    /// The byte range, when seen.
    pub byte_range: Option<ByteRange>,
    /// The date-range text, when seen.
    pub date_range: Option<Seq<char>>,
    /// Whether a discontinuity marker was seen.
    pub discontinuity: bool,
    /// The program-date-time text, when seen.
    pub program_date_time: Option<Seq<char>>,
    /// The duration and title, when seen.
    pub inf: Option<ExtInfV>,
    /// The URI, when seen.
    pub uri: Option<Seq<char>>,
}

impl View for MediaSegmentBuilder {
    type V = MediaSegmentBuilderV;

    open spec fn view(&self) -> MediaSegmentBuilderV {
        MediaSegmentBuilderV {
            keys: Seq::new(self.keys@.len(), |i: int| self.keys@[i]@),
            map_tag: match self.map_tag {
                Some(ref m) => Some(m@),
                Option::None => Option::None,
            },
            byte_range: match self.byte_range_tag {
                Some(t) => Some(t.range),
                Option::None => Option::None,
            },
            date_range: match self.date_range_tag {
                Some(ref t) => Some(t@),
                Option::None => Option::None,
            },
            discontinuity: self.discontinuity_tag is Some,
            program_date_time: match self.program_date_time_tag {
                Some(ref t) => Some(t@),
                Option::None => Option::None,
            },
            inf: match self.inf_tag {
                Some(ref t) => Some(t@),
                Option::None => Option::None,
            },
            uri: match self.uri {
                Some(ref u) => Some(u@),
                Option::None => Option::None,
            },
        }
    }
}

impl MediaSegmentBuilder {
    /// The view of a fresh builder: nothing set.
    pub open spec fn empty_view() -> MediaSegmentBuilderV {
        MediaSegmentBuilderV {
            keys: Seq::empty(),
            map_tag: Option::None,
            byte_range: Option::None,
            date_range: Option::None,
            discontinuity: false,
            program_date_time: Option::None,
            inf: Option::None,
            uri: Option::None,
        }
    }

    /// Sets the duration-and-title tag.
    pub fn inf_tag(&mut self, t: ExtInf)
        ensures
            final(self)@ == (MediaSegmentBuilderV { inf: Some(t@), ..old(self)@ }),
    {
        self.inf_tag = Some(t);
    }

    /// Sets the byte-range tag.
    pub fn byte_range_tag(&mut self, t: ExtXByteRange)
        ensures
            final(self)@ == (MediaSegmentBuilderV { byte_range: Some(t.range), ..old(self)@ }),
    {
        self.byte_range_tag = Some(t);
    }

    /// Sets the discontinuity marker.
    pub fn discontinuity_tag(&mut self, t: ExtXDiscontinuity)
        ensures
            final(self)@ == (MediaSegmentBuilderV { discontinuity: true, ..old(self)@ }),
    {
        self.discontinuity_tag = Some(t);
    }

    /// Sets the initialization-map tag.
    pub fn map_tag(&mut self, t: ExtXMap)
        ensures
            final(self)@ == (MediaSegmentBuilderV { map_tag: Some(t@), ..old(self)@ }),
    {
        self.map_tag = Some(t);
    }

    /// Sets the program-date-time tag.
    pub fn program_date_time_tag(&mut self, t: ExtXProgramDateTime)
        ensures
            final(self)@ == (MediaSegmentBuilderV { program_date_time: Some(t@), ..old(self)@ }),
    {
        self.program_date_time_tag = Some(t);
    }

    /// Sets the date-range tag.
    pub fn date_range_tag(&mut self, t: ExtXDateRange)
        ensures
            final(self)@ == (MediaSegmentBuilderV { date_range: Some(t@), ..old(self)@ }),
    {
        self.date_range_tag = Some(t);
    }

    /// Sets the URI.
    pub fn uri(&mut self, u: String)
        ensures
            final(self)@ == (MediaSegmentBuilderV { uri: Some(u@), ..old(self)@ }),
    {
        self.uri = Some(u);
    }

    /// Sets the resolved decryption keys.
    pub fn keys(&mut self, keys: Vec<ExtXKey>)
        ensures
            final(self)@ == (MediaSegmentBuilderV {
                keys: Seq::new(keys@.len(), |i: int| keys@[i]@),
                ..old(self)@
            }),
    {
        self.keys = keys;
    }

    /// What building freezes the draft into: the segment when the
    /// duration tag and the URI are both set, and the error otherwise.
    pub open spec fn spec_build(b: MediaSegmentBuilderV) -> Result<MediaSegmentV, ErrorKind> {
        match (b.inf, b.uri) {
            (Some(inf), Some(uri)) => Ok(
                MediaSegmentV {
                    keys: b.keys,
                    map_tag: b.map_tag,
                    byte_range: b.byte_range,
                    date_range: b.date_range,
                    discontinuity: b.discontinuity,
                    program_date_time: b.program_date_time,
                    inf: inf,
                    uri: uri,
                },
            ),
            (Option::None, _) => Err(ErrorKind::Custom),
            (_, Option::None) => Err(ErrorKind::Custom),
        }
    }

    /// Freezes the draft into a segment. The duration tag and the URI are
    /// required; a draft missing either does not build.
    pub fn build(self) -> (r: Result<MediaSegment, Error>)
        ensures
            match r {
                Ok(s) => Self::spec_build(self@) == Result::<MediaSegmentV, ErrorKind>::Ok(s@),
                Err(e) => Self::spec_build(self@) == Result::<MediaSegmentV, ErrorKind>::Err(e@),
            },
    {
        let inf_tag = match self.inf_tag {
            Some(t) => t,
            Option::None => {
                return Err(
                    Error::Custom(String::from_str("a media segment needs a duration tag")),
                );
            }
        };
        let uri = match self.uri {
            Some(u) => u,
            Option::None => {
                return Err(Error::Custom(String::from_str("a media segment needs a URI")));
            }
        };
        Ok(
            MediaSegment {
                keys: self.keys,
                map_tag: self.map_tag,
                byte_range_tag: self.byte_range_tag,
                date_range_tag: self.date_range_tag,
                discontinuity_tag: self.discontinuity_tag,
                program_date_time_tag: self.program_date_time_tag,
                inf_tag,
                uri,
            },
        )
    }
}

impl PartialEq for MediaSegment {
    fn eq(&self, other: &Self) -> (r: bool) {
        let map_eq = match (&self.map_tag, &other.map_tag) {
            (Option::None, Option::None) => true,
            (Some(x), Some(y)) => x == y,
            _ => false,
        };
        let range_eq = match (self.byte_range_tag, other.byte_range_tag) {
            (Option::None, Option::None) => true,
            (Some(x), Some(y)) => x == y,
            _ => false,
        };
        let dr_eq = match (&self.date_range_tag, &other.date_range_tag) {
            (Option::None, Option::None) => true,
            (Some(x), Some(y)) => x == y,
            _ => false,
        };
        let disc_eq = self.discontinuity_tag.is_some() == other.discontinuity_tag.is_some();
        let pdt_eq = match (&self.program_date_time_tag, &other.program_date_time_tag) {
            (Option::None, Option::None) => true,
            (Some(x), Some(y)) => x == y,
            _ => false,
        };
        crate::tags::keys_eq(&self.keys, &other.keys) && map_eq && range_eq && dr_eq && disc_eq
            && pdt_eq && self.inf_tag == other.inf_tag && self.uri.eq(&other.uri)
    }
}

impl vstd::std_specs::cmp::PartialEqSpecImpl for MediaSegment {
    open spec fn obeys_eq_spec() -> bool {
        true
    }

    open spec fn eq_spec(&self, other: &Self) -> bool {
        self@ == other@
    }
}

/// A fresh copy of a media segment.
pub(crate) fn clone_segment(s: &MediaSegment) -> (r: MediaSegment)
    ensures
        r@ == s@,
{
    MediaSegment {
        keys: crate::tags::clone_keys(&s.keys),
        map_tag: match &s.map_tag {
            Some(m) => Some(
                ExtXMap {
                    uri: m.uri.clone(),
                    range: m.range,
                    keys: crate::tags::clone_keys(&m.keys),
                },
            ),
            Option::None => Option::None,
        },
        byte_range_tag: s.byte_range_tag,
        date_range_tag: match &s.date_range_tag {
            Some(t) => Some(ExtXDateRange { attributes: t.attributes.clone() }),
            Option::None => Option::None,
        },
        discontinuity_tag: s.discontinuity_tag,
        program_date_time_tag: match &s.program_date_time_tag {
            Some(t) => Some(ExtXProgramDateTime { date_time: t.date_time.clone() }),
            Option::None => Option::None,
        },
        inf_tag: ExtInf {
            duration: s.inf_tag.duration,
            title: crate::tags::clone_opt_string(&s.inf_tag.title),
        },
        uri: s.uri.clone(),
    }
}

/// A fresh copy of a segment list.
pub(crate) fn clone_segments(v: &Vec<MediaSegment>) -> (r: Vec<MediaSegment>)
    ensures
        Seq::new(r@.len(), |i: int| r@[i]@) == Seq::new(v@.len(), |i: int| v@[i]@),
{
    let mut r: Vec<MediaSegment> = Vec::new();
    let n = v.len();
    let mut i: usize = 0;
    while i < n
        invariant
            0 <= i <= n == v@.len(),
            r@.len() == i,
            forall|m: int| 0 <= m < i ==> (#[trigger] r@[m])@ == v@[m]@,
        decreases n - i,
    {
        r.push(clone_segment(&v[i]));
        i = i + 1;
    }
    proof {
        assert(Seq::new(r@.len(), |i: int| r@[i]@) =~= Seq::new(v@.len(), |i: int| v@[i]@));
    }
    r
}

/// The canonical text of a sequence of key tags, one line each.
pub open spec fn spec_render_keys(keys: Seq<ExtXKeyV>) -> Seq<char>
    decreases keys.len(),
{
    if keys.len() == 0 {
        Seq::empty()
    } else {
        crate::tags::spec_render_key(keys[0]) + seq!['\n'] + spec_render_keys(keys.drop_first())
    }
}

/// The initialization-map line of a segment, when one applies.
pub open spec fn seg_map_text(s: MediaSegmentV) -> Seq<char> {
    match s.map_tag {
        Some(m) => crate::tags::spec_render_map(m) + seq!['\n'],
        Option::None => Seq::empty(),
    }
}

/// The byte-range line of a segment, when one applies.
pub open spec fn seg_byte_range_text(s: MediaSegmentV) -> Seq<char> {
    match s.byte_range {
        Some(r) => crate::tags::spec_render_byte_range_tag(r) + seq!['\n'],
        Option::None => Seq::empty(),
    }
}

/// The date-range line of a segment, when one applies.
pub open spec fn seg_date_range_text(s: MediaSegmentV) -> Seq<char> {
    match s.date_range {
        Some(t) => crate::tags::spec_render_date_range(t) + seq!['\n'],
        Option::None => Seq::empty(),
    }
}

/// The discontinuity line of a segment, when one applies.
pub open spec fn seg_discontinuity_text(s: MediaSegmentV) -> Seq<char> {
    if s.discontinuity {
        crate::tags::spec_render_discontinuity() + seq!['\n']
    } else {
        Seq::empty()
    }
}

/// The program-date-time line of a segment, when one applies.
pub open spec fn seg_program_date_time_text(s: MediaSegmentV) -> Seq<char> {
    match s.program_date_time {
        Some(t) => crate::tags::spec_render_program_date_time(t) + seq!['\n'],
        Option::None => Seq::empty(),
    }
}

/// The canonical text of a media segment: its tag lines, then its URI
/// line.
pub open spec fn spec_render_segment(s: MediaSegmentV) -> Seq<char> {
    spec_render_keys(s.keys) + seg_map_text(s) + seg_byte_range_text(s) + seg_date_range_text(s)
        + seg_discontinuity_text(s) + seg_program_date_time_text(s) + crate::tags::spec_render_inf(
        s.inf,
    ) + seq!['\n'] + s.uri + seq!['\n']
}

/// Appends the canonical text of every key tag, one line each.
pub fn push_keys(out: &mut String, keys: &Vec<ExtXKey>)
    ensures
        final(out)@ == old(out)@ + spec_render_keys(Seq::new(keys@.len(), |i: int| keys@[i]@)),
{
    let ghost kv = Seq::new(keys@.len(), |i: int| keys@[i]@);
    let n = keys.len();
    let mut i: usize = 0;
    proof {
        reveal_strlit("\n");
        assert("\n"@ =~= seq!['\n']);
    }
    while i < n
        invariant
            0 <= i <= n == keys@.len(),
            kv == Seq::new(keys@.len(), |k: int| keys@[k]@),
            out@ == old(out)@ + spec_render_keys_prefix(kv, i as int),
        decreases n - i,
    {
        crate::tags::push_key(out, &keys[i]);
        proof {
            reveal_strlit("\n");
            assert("\n"@ =~= seq!['\n']);
        }
        out.append("\n");
        proof {
            assert(out@ =~= old(out)@ + spec_render_keys_prefix(kv, i + 1));
        }
        i = i + 1;
    }
    proof {
        lemma_render_keys_prefix_all(kv);
    }
}

/// The canonical text of the first `k` key tags.
pub open spec fn spec_render_keys_prefix(keys: Seq<ExtXKeyV>, k: int) -> Seq<char>
    decreases k,
{
    if k <= 0 {
        Seq::empty()
    } else {
        spec_render_keys_prefix(keys, k - 1) + crate::tags::spec_render_key(keys[k - 1]) + seq![
            '\n',
        ]
    }
}

/// The prefix rendering of all keys equals the rendering of the list.
pub proof fn lemma_render_keys_prefix_all(keys: Seq<ExtXKeyV>)
    ensures
        spec_render_keys_prefix(keys, keys.len() as int) == spec_render_keys(keys),
{
    lemma_render_keys_prefix_mid(keys, 0);
    assert(spec_render_keys_prefix(keys, 0) + spec_render_keys(keys.skip(0)) =~= spec_render_keys(
        keys.skip(0),
    ));
    assert(keys.skip(0) =~= keys);
    assert(spec_render_keys_prefix(keys, keys.len() as int) + spec_render_keys(
        keys.skip(keys.len() as int),
    ) =~= spec_render_keys_prefix(keys, keys.len() as int));
}

/// The rendering splits at any position: the prefix text plus the suffix
/// rendering.
pub proof fn lemma_render_keys_prefix_mid(keys: Seq<ExtXKeyV>, k: int)
    requires
        0 <= k <= keys.len(),
    ensures
        spec_render_keys_prefix(keys, k) + spec_render_keys(keys.skip(k)) == spec_render_keys_prefix(
            keys,
            keys.len() as int,
        ) + spec_render_keys(keys.skip(keys.len() as int)),
    decreases keys.len() - k,
{
    if k < keys.len() {
        lemma_render_keys_prefix_mid(keys, k + 1);
        assert(keys.skip(k)[0] == keys[k]);
        assert(keys.skip(k).drop_first() =~= keys.skip(k + 1));
        assert(spec_render_keys(keys.skip(k)) == crate::tags::spec_render_key(keys[k]) + seq![
            '\n',
        ] + spec_render_keys(keys.skip(k + 1)));
        assert(spec_render_keys_prefix(keys, k + 1) == spec_render_keys_prefix(keys, k)
            + crate::tags::spec_render_key(keys[k]) + seq!['\n']);
        assert(spec_render_keys_prefix(keys, k) + spec_render_keys(keys.skip(k))
            =~= spec_render_keys_prefix(keys, k + 1) + spec_render_keys(keys.skip(k + 1)));
    }
}

/// Appends the initialization-map line of a segment, when one applies.
fn push_seg_map(out: &mut String, s: &MediaSegment)
    ensures
        final(out)@ == old(out)@ + seg_map_text(s@),
{
    match &s.map_tag {
        Some(m) => {
            crate::tags::push_map(out, m);
            proof {
                reveal_strlit("\n");
                assert("\n"@ =~= seq!['\n']);
            }
            out.append("\n");
            proof {
                assert(final(out)@ =~= old(out)@ + seg_map_text(s@));
            }
        }
        Option::None => {
            proof {
                assert(old(out)@ + seg_map_text(s@) =~= old(out)@);
            }
        }
    }
}

/// Appends the byte-range line of a segment, when one applies.
fn push_seg_byte_range(out: &mut String, s: &MediaSegment)
    ensures
        final(out)@ == old(out)@ + seg_byte_range_text(s@),
{
    match &s.byte_range_tag {
        Some(t) => {
            crate::tags::push_byte_range_tag(out, t);
            proof {
                reveal_strlit("\n");
                assert("\n"@ =~= seq!['\n']);
            }
            out.append("\n");
            proof {
                assert(final(out)@ =~= old(out)@ + seg_byte_range_text(s@));
            }
        }
        Option::None => {
            proof {
                assert(old(out)@ + seg_byte_range_text(s@) =~= old(out)@);
            }
        }
    }
}

/// Appends the date-range line of a segment, when one applies.
fn push_seg_date_range(out: &mut String, s: &MediaSegment)
    ensures
        final(out)@ == old(out)@ + seg_date_range_text(s@),
{
    match &s.date_range_tag {
        Some(t) => {
            crate::tags::push_date_range(out, t);
            proof {
                reveal_strlit("\n");
                assert("\n"@ =~= seq!['\n']);
            }
            out.append("\n");
            proof {
                assert(final(out)@ =~= old(out)@ + seg_date_range_text(s@));
            }
        }
        Option::None => {
            proof {
                assert(old(out)@ + seg_date_range_text(s@) =~= old(out)@);
            }
        }
    }
}

/// Appends the discontinuity line of a segment, when one applies.
fn push_seg_discontinuity(out: &mut String, s: &MediaSegment)
    ensures
        final(out)@ == old(out)@ + seg_discontinuity_text(s@),
{
    match &s.discontinuity_tag {
        Some(_) => {
            proof {
                reveal_strlit("#EXT-X-DISCONTINUITY");
                reveal_strlit("\n");
                assert("\n"@ =~= seq!['\n']);
            }
            out.append("#EXT-X-DISCONTINUITY");
            out.append("\n");
            proof {
                assert(final(out)@ =~= old(out)@ + seg_discontinuity_text(s@));
            }
        }
        Option::None => {
            proof {
                assert(old(out)@ + seg_discontinuity_text(s@) =~= old(out)@);
            }
        }
    }
}

/// Appends the program-date-time line of a segment, when one applies.
fn push_seg_program_date_time(out: &mut String, s: &MediaSegment)
    ensures
        final(out)@ == old(out)@ + seg_program_date_time_text(s@),
{
    match &s.program_date_time_tag {
        Some(t) => {
            crate::tags::push_program_date_time(out, t);
            proof {
                reveal_strlit("\n");
                assert("\n"@ =~= seq!['\n']);
            }
            out.append("\n");
            proof {
                assert(final(out)@ =~= old(out)@ + seg_program_date_time_text(s@));
            }
        }
        Option::None => {
            proof {
                assert(old(out)@ + seg_program_date_time_text(s@) =~= old(out)@);
            }
        }
    }
}

/// Appends the canonical text of a media segment.
#[verifier::rlimit(100)]
pub fn push_segment_text(out: &mut String, s: &MediaSegment)
    ensures
        final(out)@ == old(out)@ + spec_render_segment(s@),
{
    proof {
        reveal_strlit("\n");
        assert("\n"@ =~= seq!['\n']);
    }
    push_keys(out, &s.keys);
    push_seg_map(out, s);
    push_seg_byte_range(out, s);
    push_seg_date_range(out, s);
    push_seg_discontinuity(out, s);
    push_seg_program_date_time(out, s);
    crate::tags::push_inf(out, &s.inf_tag);
    out.append("\n");
    out.append(s.uri.as_str());
    out.append("\n");
    proof {
        assert(final(out)@ =~= old(out)@ + spec_render_segment(s@));
    }
}

} // verus!
