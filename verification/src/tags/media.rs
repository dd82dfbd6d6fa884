//! The rendition tag: relating media playlists that carry alternative
//! renditions of the same content.

use vstd::prelude::*;
use vstd::string::StringExecFns;
use crate::attribute::pairs_view;
use crate::attribute::parse_pairs;
use crate::attribute::spec_parse_pairs;
use crate::attribute::spec_unquote;
use crate::attribute::unquote_vec;
use crate::error::Error;
use crate::error::ErrorKind;
use crate::tags::opt_string_view;
use crate::text::chars_to_string;
use crate::text::parse_u64_range;
use crate::text::range_starts_with_str;
use crate::text::vec_eq_str;
use crate::types::Channels;
use crate::types::InStreamId;
use crate::types::MediaType;
use crate::types::ProtocolVersion;

verus! {

/// The rendition tag. A rendition names an alternative version of the
/// content (a language, a camera angle) within a group.
#[derive(Debug, Clone)]
pub struct ExtXMedia {
    /// The kind of content the rendition carries.
    pub media_type: MediaType,
    /// The media playlist carrying the rendition, when one exists.
    pub uri: Option<String>,
    /// The group the rendition belongs to.
    pub group_id: String,
    /// The primary language of the rendition.
    pub language: Option<String>,
    /// A language associated with the rendition.
    pub assoc_language: Option<String>,
    /// A human-readable description of the rendition.
    pub name: String,
    /// Whether the rendition should be played absent other preference.
    pub is_default: bool,
    /// Whether the client may choose the rendition on its own.
    pub is_autoselect: bool,
    /// Whether the rendition is essential to play.
    pub is_forced: bool,
    /// The rendition's identifier within the segments.
    pub instream_id: Option<InStreamId>,
    /// Uniform type identifiers describing the rendition.
    pub characteristics: Option<String>,
    /// The audio channels of the rendition.
    pub channels: Option<Channels>,
}

/// What an [`ExtXMedia`] holds, at the specification level.
pub struct ExtXMediaV {
    /// The kind of content the rendition carries.
    pub media_type: MediaType,
    /// The media playlist carrying the rendition, when one exists.
    pub uri: Option<Seq<char>>,
    /// The group the rendition belongs to.
    pub group_id: Seq<char>,
    /// The primary language of the rendition.
    pub language: Option<Seq<char>>,
    /// A language associated with the rendition.
    pub assoc_language: Option<Seq<char>>,
    /// A human-readable description of the rendition.
    pub name: Seq<char>,
    /// Whether the rendition should be played absent other preference.
    pub is_default: bool,
    /// Whether the client may choose the rendition on its own.
    pub is_autoselect: bool,
    /// Whether the rendition is essential to play.
    pub is_forced: bool,
    /// The rendition's identifier within the segments.
    pub instream_id: Option<InStreamId>,
    /// Uniform type identifiers describing the rendition.
    pub characteristics: Option<Seq<char>>,
    /// The audio channels of the rendition.
    pub channels: Option<Channels>,
}

impl View for ExtXMedia {
    type V = ExtXMediaV;

    open spec fn view(&self) -> ExtXMediaV {
        ExtXMediaV {
            media_type: self.media_type,
            uri: match self.uri {
                Some(ref u) => Some(u@),
                Option::None => Option::None,
            },
            group_id: self.group_id@,
            language: match self.language {
                Some(ref u) => Some(u@),
                Option::None => Option::None,
            },
            assoc_language: match self.assoc_language {
                Some(ref u) => Some(u@),
                Option::None => Option::None,
            },
            name: self.name@,
            is_default: self.is_default,
            is_autoselect: self.is_autoselect,
            is_forced: self.is_forced,
            instream_id: self.instream_id,
            characteristics: match self.characteristics {
                Some(ref u) => Some(u@),
                Option::None => Option::None,
            },
            channels: self.channels,
        }
    }
}

/// The media type `v` names, if any.
pub open spec fn spec_parse_media_type(v: Seq<char>) -> Option<MediaType> {
    if v == "AUDIO"@ {
        Some(MediaType::Audio)
    } else if v == "VIDEO"@ {
        Some(MediaType::Video)
    } else if v == "SUBTITLES"@ {
        Some(MediaType::Subtitles)
    } else if v == "CLOSED-CAPTIONS"@ {
        Some(MediaType::ClosedCaptions)
    } else {
        Option::None
    }
}

/// The in-stream identifier `v` names, if any: a closed-caption channel
/// `CC1` to `CC4`, or a service `SERVICE1` to `SERVICE63`.
pub open spec fn spec_parse_instream_id(v: Seq<char>) -> Option<InStreamId> {
    if v == "CC1"@ {
        Some(InStreamId::Cc1)
    } else if v == "CC2"@ {
        Some(InStreamId::Cc2)
    } else if v == "CC3"@ {
        Some(InStreamId::Cc3)
    } else if v == "CC4"@ {
        Some(InStreamId::Cc4)
    } else if v.len() > 7 && v.subrange(0, 7) == "SERVICE"@ {
        match crate::text::spec_parse_u64(v.subrange(7, v.len() as int)) {
            Some(n) => if 1 <= n <= 63 {
                Some(InStreamId::Service(n as u8))
            } else {
                Option::None
            },
            Option::None => Option::None,
        }
    } else {
        Option::None
    }
}

/// The channel count `v` names, if any: a plain decimal number.
pub open spec fn spec_parse_channels(v: Seq<char>) -> Option<Channels> {
    match crate::text::spec_parse_u64(v) {
        Some(n) => Some(Channels { channel_number: n }),
        Option::None => Option::None,
    }
}

/// The fields of a rendition tag before validation: what a builder or an
/// attribute-list fold has gathered, each field tracking whether it was
/// given explicitly.
pub struct MediaAccV {
    /// The media type, if set.
    pub media_type: Option<MediaType>,
    /// The URI, if set.
    pub uri: Option<Seq<char>>,
    /// The group identifier, if set.
    pub group_id: Option<Seq<char>>,
    /// The language, if set.
    pub language: Option<Seq<char>>,
    /// The associated language, if set.
    pub assoc_language: Option<Seq<char>>,
    /// The name, if set.
    pub name: Option<Seq<char>>,
    /// The default flag, if set explicitly.
    pub is_default: Option<bool>,
    /// The autoselect flag, if set explicitly.
    pub is_autoselect: Option<bool>,
    /// The forced flag, if set explicitly.
    pub is_forced: Option<bool>,
    /// The in-stream identifier, if set.
    pub instream_id: Option<InStreamId>,
    /// The characteristics, if set.
    pub characteristics: Option<Seq<char>>,
    /// The channels, if set.
    pub channels: Option<Channels>,
}

/// The empty rendition accumulator.
pub open spec fn media_acc_empty() -> MediaAccV {
    MediaAccV {
        media_type: Option::None,
        uri: Option::None,
        group_id: Option::None,
        language: Option::None,
        assoc_language: Option::None,
        name: Option::None,
        is_default: Option::None,
        is_autoselect: Option::None,
        is_forced: Option::None,
        instream_id: Option::None,
        characteristics: Option::None,
        channels: Option::None,
    }
}

/// The single validation gate for rendition tags, shared by the parse path
/// and the builder: which accumulators are legal, and the value each legal
/// one freezes into.
///
/// The rules: a media type, a group identifier and a name are required; a
/// URI is required for subtitles and forbidden for closed captions; an
/// in-stream identifier is required for closed captions and forbidden
/// otherwise; an explicitly false autoselect contradicts a true default;
/// the forced flag may only be given for subtitles.
pub open spec fn spec_build_media(acc: MediaAccV) -> Result<ExtXMediaV, ErrorKind> {
    match acc.media_type {
        Option::None => Err(ErrorKind::MissingAttribute("MEDIA-TYPE"@)),
        Some(media_type) => {
            if media_type == MediaType::Subtitles && acc.uri is None {
                Err(ErrorKind::MissingAttribute("URI"@))
            } else if media_type == MediaType::ClosedCaptions && acc.uri is Some {
                Err(ErrorKind::UnexpectedAttribute("URI"@))
            } else if media_type == MediaType::ClosedCaptions && acc.instream_id is None {
                Err(ErrorKind::MissingAttribute("INSTREAM-ID"@))
            } else if media_type != MediaType::ClosedCaptions && acc.instream_id is Some {
                Err(ErrorKind::UnexpectedAttribute("INSTREAM-ID"@))
            } else if (match acc.is_default {
                Some(b) => b,
                Option::None => false,
            }) && !(match acc.is_autoselect {
                Some(b) => b,
                Option::None => true,
            }) {
                Err(ErrorKind::Custom)
            } else if media_type != MediaType::Subtitles && acc.is_forced is Some {
                Err(ErrorKind::InvalidInput)
            } else {
                match (acc.group_id, acc.name) {
                    (Some(group_id), Some(name)) => Ok(
                        ExtXMediaV {
                            media_type,
                            uri: acc.uri,
                            group_id,
                            language: acc.language,
                            assoc_language: acc.assoc_language,
                            name,
                            is_default: match acc.is_default {
                                Some(b) => b,
                                Option::None => false,
                            },
                            is_autoselect: match acc.is_autoselect {
                                Some(b) => b,
                                Option::None => false,
                            },
                            is_forced: match acc.is_forced {
                                Some(b) => b,
                                Option::None => false,
                            },
                            instream_id: acc.instream_id,
                            characteristics: acc.characteristics,
                            channels: acc.channels,
                        },
                    ),
                    (Option::None, _) => Err(ErrorKind::MissingAttribute("GROUP-ID"@)),
                    (_, Option::None) => Err(ErrorKind::MissingAttribute("NAME"@)),
                }
            }
        },
    }
}

/// Folds one attribute of a rendition tag into the accumulator: known
/// names set their field (later occurrences win), unknown names are
/// ignored.
pub open spec fn spec_media_step(acc: MediaAccV, n: Seq<char>, v: Seq<char>) -> Result<
    MediaAccV,
    ErrorKind,
> {
    if n == "TYPE"@ {
        match spec_parse_media_type(v) {
            Some(t) => Ok(MediaAccV { media_type: Some(t), ..acc }),
            Option::None => Err(ErrorKind::InvalidInput),
        }
    } else if n == "URI"@ {
        Ok(MediaAccV { uri: Some(spec_unquote(v)), ..acc })
    } else if n == "GROUP-ID"@ {
        Ok(MediaAccV { group_id: Some(spec_unquote(v)), ..acc })
    } else if n == "LANGUAGE"@ {
        Ok(MediaAccV { language: Some(spec_unquote(v)), ..acc })
    } else if n == "ASSOC-LANGUAGE"@ {
        Ok(MediaAccV { assoc_language: Some(spec_unquote(v)), ..acc })
    } else if n == "NAME"@ {
        Ok(MediaAccV { name: Some(spec_unquote(v)), ..acc })
    } else if n == "DEFAULT"@ {
        match crate::tags::spec_parse_yes_no(v) {
            Some(b) => Ok(MediaAccV { is_default: Some(b), ..acc }),
            Option::None => Err(ErrorKind::InvalidInput),
        }
    } else if n == "AUTOSELECT"@ {
        match crate::tags::spec_parse_yes_no(v) {
            Some(b) => Ok(MediaAccV { is_autoselect: Some(b), ..acc }),
            Option::None => Err(ErrorKind::InvalidInput),
        }
    } else if n == "FORCED"@ {
        match crate::tags::spec_parse_yes_no(v) {
            Some(b) => Ok(MediaAccV { is_forced: Some(b), ..acc }),
            Option::None => Err(ErrorKind::InvalidInput),
        }
    } else if n == "INSTREAM-ID"@ {
        match spec_parse_instream_id(spec_unquote(v)) {
            Some(id) => Ok(MediaAccV { instream_id: Some(id), ..acc }),
            Option::None => Err(ErrorKind::InvalidInput),
        }
    } else if n == "CHARACTERISTICS"@ {
        Ok(MediaAccV { characteristics: Some(spec_unquote(v)), ..acc })
    } else if n == "CHANNELS"@ {
        match spec_parse_channels(spec_unquote(v)) {
            Some(c) => Ok(MediaAccV { channels: Some(c), ..acc }),
            Option::None => Err(ErrorKind::InvalidInput),
        }
    } else {
        Ok(acc)
    }
}

/// Folds a rendition tag's attribute list.
pub open spec fn spec_media_fold(ps: Seq<(Seq<char>, Seq<char>)>, acc: MediaAccV) -> Result<
    MediaAccV,
    ErrorKind,
>
    decreases ps.len(),
{
    if ps.len() == 0 {
        Ok(acc)
    } else {
        match spec_media_step(acc, ps[0].0, ps[0].1) {
            Ok(acc2) => spec_media_fold(ps.drop_first(), acc2),
            Err(e) => Err(e),
        }
    }
}

/// A rendition tag's parameter: its attribute list, folded and passed
/// through the validation gate.
pub open spec fn spec_parse_media_tag(p: Seq<char>) -> Result<crate::tags::TagV, ErrorKind> {
    match spec_parse_pairs(p) {
        Option::None => Err(ErrorKind::InvalidInput),
        Some(ps) => match spec_media_fold(ps, media_acc_empty()) {
            Err(e) => Err(e),
            Ok(acc) => match spec_build_media(acc) {
                Ok(m) => Ok(crate::tags::TagV::ExtXMedia(m)),
                Err(e) => Err(e),
            },
        },
    }
}

/// The protocol version a rendition tag requires: the baseline, unless its
/// in-stream identifier is a service.
pub open spec fn spec_media_required_version(m: ExtXMediaV) -> ProtocolVersion {
    match m.instream_id {
        Option::None => ProtocolVersion::V1,
        Some(InStreamId::Cc1) => ProtocolVersion::V1,
        Some(InStreamId::Cc2) => ProtocolVersion::V1,
        Some(InStreamId::Cc3) => ProtocolVersion::V1,
        Some(InStreamId::Cc4) => ProtocolVersion::V1,
        Some(InStreamId::Service(_)) => ProtocolVersion::V7,
    }
}

/// Parses an unquoted in-stream identifier value.
fn parse_instream_id_vec(v: &Vec<char>) -> (r: Option<InStreamId>)
    ensures
        r == spec_parse_instream_id(v@),
{
    if vec_eq_str(v, "CC1") {
        Some(InStreamId::Cc1)
    } else if vec_eq_str(v, "CC2") {
        Some(InStreamId::Cc2)
    } else if vec_eq_str(v, "CC3") {
        Some(InStreamId::Cc3)
    } else if vec_eq_str(v, "CC4") {
        Some(InStreamId::Cc4)
    } else if v.len() > 7 && range_starts_with_str(v, 0, v.len(), "SERVICE") {
        proof {
            reveal_strlit("SERVICE");
            assert(v@.subrange(0, v@.len() as int) =~= v@);
            assert(v@.subrange(0, v@.len() as int).subrange(0, 7) =~= v@.subrange(0, 7));
        }
        match parse_u64_range(v, 7, v.len()) {
            Some(n) => {
                if 1 <= n && n <= 63 {
                    Some(InStreamId::Service(n as u8))
                } else {
                    Option::None
                }
            }
            Option::None => Option::None,
        }
    } else {
        proof {
            reveal_strlit("SERVICE");
            if v@.len() > 7 {
                assert(v@.subrange(0, v@.len() as int) =~= v@);
                assert(v@.subrange(0, v@.len() as int).subrange(0, 7) =~= v@.subrange(0, 7));
            }
        }
        Option::None
    }
}

/// Parses the characters of `s` in `[a, b)` as a rendition tag's
/// parameter.
#[verifier::rlimit(60)]
pub(crate) fn parse_media_range(s: &Vec<char>, a: usize, b: usize) -> (r: Result<
    crate::tags::Tag,
    Error,
>)
    requires
        a <= b <= s@.len(),
    ensures
        crate::tags::dispatch_matches(r, spec_parse_media_tag(s@.subrange(a as int, b as int))),
{
    let ps = match parse_pairs(s, a, b) {
        Some(ps) => ps,
        Option::None => {
            return Err(Error::InvalidInput);
        }
    };
    let ghost psv = pairs_view(ps@);
    let mut media_type: Option<MediaType> = Option::None;
    let mut uri: Option<String> = Option::None;
    let mut group_id: Option<String> = Option::None;
    let mut language: Option<String> = Option::None;
    let mut assoc_language: Option<String> = Option::None;
    let mut name_f: Option<String> = Option::None;
    let mut is_default: Option<bool> = Option::None;
    let mut is_autoselect: Option<bool> = Option::None;
    let mut is_forced: Option<bool> = Option::None;
    let mut instream_id: Option<InStreamId> = Option::None;
    let mut characteristics: Option<String> = Option::None;
    let mut channels: Option<Channels> = Option::None;
    let n = ps.len();
    let mut k: usize = 0;
    proof {
        assert(psv.skip(0) =~= psv);
    }
    while k < n
        invariant
            0 <= k <= n == ps@.len(),
            a <= b <= s@.len(),
            psv == pairs_view(ps@),
            spec_parse_pairs(s@.subrange(a as int, b as int)) == Some(psv),
            spec_media_fold(psv, media_acc_empty()) == spec_media_fold(
                psv.skip(k as int),
                MediaAccV {
                    media_type: media_type,
                    uri: opt_string_view(uri),
                    group_id: opt_string_view(group_id),
                    language: opt_string_view(language),
                    assoc_language: opt_string_view(assoc_language),
                    name: opt_string_view(name_f),
                    is_default: is_default,
                    is_autoselect: is_autoselect,
                    is_forced: is_forced,
                    instream_id: instream_id,
                    characteristics: opt_string_view(characteristics),
                    channels: channels,
                },
            ),
        decreases n - k,
    {
        let ghost acc_pre = MediaAccV {
            media_type: media_type,
            uri: opt_string_view(uri),
            group_id: opt_string_view(group_id),
            language: opt_string_view(language),
            assoc_language: opt_string_view(assoc_language),
            name: opt_string_view(name_f),
            is_default: is_default,
            is_autoselect: is_autoselect,
            is_forced: is_forced,
            instream_id: instream_id,
            characteristics: opt_string_view(characteristics),
            channels: channels,
        };
        let name = &ps[k].0;
        let value = &ps[k].1;
        proof {
            assert(psv.skip(k as int)[0] == psv[k as int]);
            assert(psv.skip(k as int).drop_first() =~= psv.skip(k + 1));
            assert(psv[k as int] == (name@, value@));
        }
        if vec_eq_str(name, "TYPE") {
            if vec_eq_str(value, "AUDIO") {
                media_type = Some(MediaType::Audio);
            } else if vec_eq_str(value, "VIDEO") {
                media_type = Some(MediaType::Video);
            } else if vec_eq_str(value, "SUBTITLES") {
                media_type = Some(MediaType::Subtitles);
            } else if vec_eq_str(value, "CLOSED-CAPTIONS") {
                media_type = Some(MediaType::ClosedCaptions);
            } else {
                proof {
                    assert(spec_media_step(acc_pre, name@, value@) == Result::<
                        MediaAccV,
                        ErrorKind,
                    >::Err(ErrorKind::InvalidInput));
                }
                return Err(Error::InvalidInput);
            }
        } else if vec_eq_str(name, "URI") {
            uri = Some(chars_to_string(&unquote_vec(value)));
        } else if vec_eq_str(name, "GROUP-ID") {
            group_id = Some(chars_to_string(&unquote_vec(value)));
        } else if vec_eq_str(name, "LANGUAGE") {
            language = Some(chars_to_string(&unquote_vec(value)));
        } else if vec_eq_str(name, "ASSOC-LANGUAGE") {
            assoc_language = Some(chars_to_string(&unquote_vec(value)));
        } else if vec_eq_str(name, "NAME") {
            name_f = Some(chars_to_string(&unquote_vec(value)));
        } else if vec_eq_str(name, "DEFAULT") {
            if vec_eq_str(value, "YES") {
                is_default = Some(true);
            } else if vec_eq_str(value, "NO") {
                is_default = Some(false);
            } else {
                proof {
                    assert(spec_media_step(acc_pre, name@, value@) == Result::<
                        MediaAccV,
                        ErrorKind,
                    >::Err(ErrorKind::InvalidInput));
                }
                return Err(Error::InvalidInput);
            }
        } else if vec_eq_str(name, "AUTOSELECT") {
            if vec_eq_str(value, "YES") {
                is_autoselect = Some(true);
            } else if vec_eq_str(value, "NO") {
                is_autoselect = Some(false);
            } else {
                proof {
                    assert(spec_media_step(acc_pre, name@, value@) == Result::<
                        MediaAccV,
                        ErrorKind,
                    >::Err(ErrorKind::InvalidInput));
                }
                return Err(Error::InvalidInput);
            }
        } else if vec_eq_str(name, "FORCED") {
            if vec_eq_str(value, "YES") {
                is_forced = Some(true);
            } else if vec_eq_str(value, "NO") {
                is_forced = Some(false);
            } else {
                proof {
                    assert(spec_media_step(acc_pre, name@, value@) == Result::<
                        MediaAccV,
                        ErrorKind,
                    >::Err(ErrorKind::InvalidInput));
                }
                return Err(Error::InvalidInput);
            }
        } else if vec_eq_str(name, "INSTREAM-ID") {
            let unq = unquote_vec(value);
            match parse_instream_id_vec(&unq) {
                Some(id) => {
                    instream_id = Some(id);
                }
                Option::None => {
                    proof {
                        assert(spec_media_step(acc_pre, name@, value@) == Result::<
                            MediaAccV,
                            ErrorKind,
                        >::Err(ErrorKind::InvalidInput));
                    }
                    return Err(Error::InvalidInput);
                }
            }
        } else if vec_eq_str(name, "CHARACTERISTICS") {
            characteristics = Some(chars_to_string(&unquote_vec(value)));
        } else if vec_eq_str(name, "CHANNELS") {
            let unq = unquote_vec(value);
            proof {
                assert(unq@.subrange(0, unq@.len() as int) =~= unq@);
            }
            match parse_u64_range(&unq, 0, unq.len()) {
                Some(cn) => {
                    channels = Some(Channels::new(cn));
                }
                Option::None => {
                    proof {
                        assert(spec_media_step(acc_pre, name@, value@) == Result::<
                            MediaAccV,
                            ErrorKind,
                        >::Err(ErrorKind::InvalidInput));
                    }
                    return Err(Error::InvalidInput);
                }
            }
        }
        proof {
            assert(spec_media_step(acc_pre, name@, value@) == Result::<MediaAccV, ErrorKind>::Ok(
                MediaAccV {
                    media_type: media_type,
                    uri: opt_string_view(uri),
                    group_id: opt_string_view(group_id),
                    language: opt_string_view(language),
                    assoc_language: opt_string_view(assoc_language),
                    name: opt_string_view(name_f),
                    is_default: is_default,
                    is_autoselect: is_autoselect,
                    is_forced: is_forced,
                    instream_id: instream_id,
                    characteristics: opt_string_view(characteristics),
                    channels: channels,
                },
            ));
        }
        k = k + 1;
    }
    proof {
        assert(psv.skip(n as int) =~= Seq::<(Seq<char>, Seq<char>)>::empty());
    }
    match build_media_checked(
        media_type,
        uri,
        group_id,
        language,
        assoc_language,
        name_f,
        is_default,
        is_autoselect,
        is_forced,
        instream_id,
        characteristics,
        channels,
    ) {
        Ok(m) => Ok(crate::tags::Tag::ExtXMedia(m)),
        Err(e) => Err(e),
    }
}

/// The validation gate, executable: freezes an accumulator into a
/// rendition tag value or reports the rule it violates.
fn build_media_checked(
    media_type: Option<MediaType>,
    uri: Option<String>,
    group_id: Option<String>,
    language: Option<String>,
    assoc_language: Option<String>,
    name: Option<String>,
    is_default: Option<bool>,
    is_autoselect: Option<bool>,
    is_forced: Option<bool>,
    instream_id: Option<InStreamId>,
    characteristics: Option<String>,
    channels: Option<Channels>,
) -> (r: Result<ExtXMedia, Error>)
    ensures
        ({
            let acc = MediaAccV {
                media_type: media_type,
                uri: opt_string_view(uri),
                group_id: opt_string_view(group_id),
                language: opt_string_view(language),
                assoc_language: opt_string_view(assoc_language),
                name: opt_string_view(name),
                is_default: is_default,
                is_autoselect: is_autoselect,
                is_forced: is_forced,
                instream_id: instream_id,
                characteristics: opt_string_view(characteristics),
                channels: channels,
            };
            match r {
                Ok(m) => spec_build_media(acc) == Result::<ExtXMediaV, ErrorKind>::Ok(m@),
                Err(e) => spec_build_media(acc) == Result::<ExtXMediaV, ErrorKind>::Err(e@),
            }
        }),
{
    let mt = match media_type {
        Some(mt) => mt,
        Option::None => {
            return Err(Error::MissingAttribute(String::from_str("MEDIA-TYPE")));
        }
    };
    if mt == MediaType::Subtitles && uri.is_none() {
        return Err(Error::MissingAttribute(String::from_str("URI")));
    }
    if mt == MediaType::ClosedCaptions && uri.is_some() {
        return Err(Error::UnexpectedAttribute(String::from_str("URI")));
    }
    if mt == MediaType::ClosedCaptions && instream_id.is_none() {
        return Err(Error::MissingAttribute(String::from_str("INSTREAM-ID")));
    }
    if mt != MediaType::ClosedCaptions && instream_id.is_some() {
        return Err(Error::UnexpectedAttribute(String::from_str("INSTREAM-ID")));
    }
    let default_now = match is_default {
        Some(b) => b,
        Option::None => false,
    };
    let autoselect_now = match is_autoselect {
        Some(b) => b,
        Option::None => true,
    };
    if default_now && !autoselect_now {
        return Err(
            Error::Custom(
                String::from_str(
                    "a default rendition must not set the autoselect flag to false",
                ),
            ),
        );
    }
    if mt != MediaType::Subtitles && is_forced.is_some() {
        return Err(Error::InvalidInput);
    }
    let group_id = match group_id {
        Some(g) => g,
        Option::None => {
            return Err(Error::MissingAttribute(String::from_str("GROUP-ID")));
        }
    };
    let name = match name {
        Some(g) => g,
        Option::None => {
            return Err(Error::MissingAttribute(String::from_str("NAME")));
        }
    };
    Ok(
        ExtXMedia {
            media_type: mt,
            uri,
            group_id,
            language,
            assoc_language,
            name,
            is_default: match is_default {
                Some(b) => b,
                Option::None => false,
            },
            is_autoselect: match is_autoselect {
                Some(b) => b,
                Option::None => false,
            },
            is_forced: match is_forced {
                Some(b) => b,
                Option::None => false,
            },
            instream_id,
            characteristics,
            channels,
        },
    )
}

/// A draft [`ExtXMedia`]: fields accumulate and freeze through the
/// validation gate.
#[derive(Debug, Clone)]
pub struct ExtXMediaBuilder {
    /// The media type, when set; required to build.
    pub media_type: Option<MediaType>,
    /// The URI, when set.
    pub uri: Option<String>,
    /// The group identifier, when set; required to build.
    pub group_id: Option<String>,
    /// The language, when set.
    pub language: Option<String>,
    /// The associated language, when set.
    pub assoc_language: Option<String>,
    /// The name, when set; required to build.
    pub name: Option<String>,
    /// The default flag, when set explicitly.
    pub is_default: Option<bool>,
    /// The autoselect flag, when set explicitly.
    pub is_autoselect: Option<bool>,
    /// The forced flag, when set explicitly.
    pub is_forced: Option<bool>,
    /// The in-stream identifier, when set.
    pub instream_id: Option<InStreamId>,
    /// The characteristics, when set.
    pub characteristics: Option<String>,
    /// The channels, when set.
    pub channels: Option<Channels>,
}

impl View for ExtXMediaBuilder {
    type V = MediaAccV;

    open spec fn view(&self) -> MediaAccV {
        MediaAccV {
            media_type: self.media_type,
            uri: opt_string_view(self.uri),
            group_id: opt_string_view(self.group_id),
            language: opt_string_view(self.language),
            assoc_language: opt_string_view(self.assoc_language),
            name: opt_string_view(self.name),
            is_default: self.is_default,
            is_autoselect: self.is_autoselect,
            is_forced: self.is_forced,
            instream_id: self.instream_id,
            characteristics: opt_string_view(self.characteristics),
            channels: self.channels,
        }
    }
}

/// A fresh copy of an optional string.
fn clone_opt_string(a: &Option<String>) -> (r: Option<String>)
    ensures
        opt_string_view(r) == opt_string_view(*a),
{
    match a {
        Some(x) => Some(x.clone()),
        Option::None => Option::None,
    }
}

impl ExtXMediaBuilder {
    /// Sets the media type.
    pub fn media_type(&mut self, v: MediaType) -> (ret: &mut Self)
        ensures
            ret@ == (MediaAccV { media_type: Some(v), ..old(self)@ }),
            *final(self) == *final(ret),
    {
        self.media_type = Some(v);
        self
    }

    /// Sets the URI.
    pub fn uri(&mut self, v: &str) -> (ret: &mut Self)
        ensures
            ret@ == (MediaAccV { uri: Some(v@), ..old(self)@ }),
            *final(self) == *final(ret),
    {
        self.uri = Some(String::from_str(v));
        self
    }

    /// Sets the group identifier.
    pub fn group_id(&mut self, v: &str) -> (ret: &mut Self)
        ensures
            ret@ == (MediaAccV { group_id: Some(v@), ..old(self)@ }),
            *final(self) == *final(ret),
    {
        self.group_id = Some(String::from_str(v));
        self
    }

    /// Sets the language.
    pub fn language(&mut self, v: &str) -> (ret: &mut Self)
        ensures
            ret@ == (MediaAccV { language: Some(v@), ..old(self)@ }),
            *final(self) == *final(ret),
    {
        self.language = Some(String::from_str(v));
        self
    }

    /// Sets the associated language.
    pub fn assoc_language(&mut self, v: &str) -> (ret: &mut Self)
        ensures
            ret@ == (MediaAccV { assoc_language: Some(v@), ..old(self)@ }),
            *final(self) == *final(ret),
    {
        self.assoc_language = Some(String::from_str(v));
        self
    }

    /// Sets the name.
    pub fn name(&mut self, v: &str) -> (ret: &mut Self)
        ensures
            ret@ == (MediaAccV { name: Some(v@), ..old(self)@ }),
            *final(self) == *final(ret),
    {
        self.name = Some(String::from_str(v));
        self
    }

    /// Sets the default flag.
    pub fn is_default(&mut self, v: bool) -> (ret: &mut Self)
        ensures
            ret@ == (MediaAccV { is_default: Some(v), ..old(self)@ }),
            *final(self) == *final(ret),
    {
        self.is_default = Some(v);
        self
    }

    /// Sets the autoselect flag.
    pub fn is_autoselect(&mut self, v: bool) -> (ret: &mut Self)
        ensures
            ret@ == (MediaAccV { is_autoselect: Some(v), ..old(self)@ }),
            *final(self) == *final(ret),
    {
        self.is_autoselect = Some(v);
        self
    }

    /// Sets the forced flag.
    pub fn is_forced(&mut self, v: bool) -> (ret: &mut Self)
        ensures
            ret@ == (MediaAccV { is_forced: Some(v), ..old(self)@ }),
            *final(self) == *final(ret),
    {
        self.is_forced = Some(v);
        self
    }

    /// Sets the in-stream identifier.
    pub fn instream_id(&mut self, v: InStreamId) -> (ret: &mut Self)
        ensures
            ret@ == (MediaAccV { instream_id: Some(v), ..old(self)@ }),
            *final(self) == *final(ret),
    {
        self.instream_id = Some(v);
        self
    }

    /// Sets the characteristics.
    pub fn characteristics(&mut self, v: &str) -> (ret: &mut Self)
        ensures
            ret@ == (MediaAccV { characteristics: Some(v@), ..old(self)@ }),
            *final(self) == *final(ret),
    {
        self.characteristics = Some(String::from_str(v));
        self
    }

    /// Sets the channels.
    pub fn channels(&mut self, v: Channels) -> (ret: &mut Self)
        ensures
            ret@ == (MediaAccV { channels: Some(v), ..old(self)@ }),
            *final(self) == *final(ret),
    {
        self.channels = Some(v);
        self
    }

    /// Freezes the draft through the validation gate.
    pub fn build(&self) -> (r: Result<ExtXMedia, Error>)
        ensures
            match r {
                Ok(m) => spec_build_media(self@) == Result::<ExtXMediaV, ErrorKind>::Ok(m@),
                Err(e) => spec_build_media(self@) == Result::<ExtXMediaV, ErrorKind>::Err(e@),
            },
    {
        build_media_checked(
            self.media_type,
            clone_opt_string(&self.uri),
            clone_opt_string(&self.group_id),
            clone_opt_string(&self.language),
            clone_opt_string(&self.assoc_language),
            clone_opt_string(&self.name),
            self.is_default,
            self.is_autoselect,
            self.is_forced,
            self.instream_id,
            clone_opt_string(&self.characteristics),
            self.channels,
        )
    }
}

impl ExtXMedia {
    /// Makes a new rendition tag with the required fields and every
    /// optional field absent.
    pub fn new(media_type: MediaType, group_id: &str, name: &str) -> (r: Self)
        ensures
            r@ == (ExtXMediaV {
                media_type: media_type,
                uri: Option::None,
                group_id: group_id@,
                language: Option::None,
                assoc_language: Option::None,
                name: name@,
                is_default: false,
                is_autoselect: false,
                is_forced: false,
                instream_id: Option::None,
                characteristics: Option::None,
                channels: Option::None,
            }),
    {
        ExtXMedia {
            media_type,
            uri: Option::None,
            group_id: String::from_str(group_id),
            language: Option::None,
            assoc_language: Option::None,
            name: String::from_str(name),
            is_default: false,
            is_autoselect: false,
            is_forced: false,
            instream_id: Option::None,
            characteristics: Option::None,
            channels: Option::None,
        }
    }

    /// Returns a builder for [`ExtXMedia`].
    pub fn builder() -> (r: ExtXMediaBuilder)
        ensures
            r@ == media_acc_empty(),
    {
        ExtXMediaBuilder {
            media_type: Option::None,
            uri: Option::None,
            group_id: Option::None,
            language: Option::None,
            assoc_language: Option::None,
            name: Option::None,
            is_default: Option::None,
            is_autoselect: Option::None,
            is_forced: Option::None,
            instream_id: Option::None,
            characteristics: Option::None,
            channels: Option::None,
        }
    }

    /// The kind of content the rendition carries.
    pub fn media_type(&self) -> (r: MediaType)
        ensures
            r == self@.media_type,
    {
        self.media_type
    }

    /// Sets the kind of content the rendition carries.
    pub fn set_media_type(&mut self, value: MediaType)
        ensures
            final(self)@ == (ExtXMediaV { media_type: value, ..old(self)@ }),
    {
        self.media_type = value;
    }

    /// The group the rendition belongs to.
    pub fn group_id(&self) -> (r: &String)
        ensures
            r@ == self@.group_id,
    {
        &self.group_id
    }

    /// Sets the group the rendition belongs to.
    pub fn set_group_id(&mut self, value: &str)
        ensures
            final(self)@ == (ExtXMediaV { group_id: value@, ..old(self)@ }),
    {
        self.group_id = String::from_str(value);
    }

    /// The human-readable description of the rendition.
    pub fn name(&self) -> (r: &String)
        ensures
            r@ == self@.name,
    {
        &self.name
    }

    /// Sets the human-readable description of the rendition.
    pub fn set_name(&mut self, value: &str)
        ensures
            final(self)@ == (ExtXMediaV { name: value@, ..old(self)@ }),
    {
        self.name = String::from_str(value);
    }

    /// The media playlist carrying the rendition, when one exists.
    pub fn uri(&self) -> (r: &Option<String>)
        ensures
            opt_string_view(*r) == self@.uri,
    {
        &self.uri
    }

    /// Sets the media playlist carrying the rendition.
    pub fn set_uri(&mut self, value: Option<&str>)
        ensures
            final(self)@ == (ExtXMediaV {
                uri: match value {
                    Some(v) => Some(v@),
                    Option::None => Option::None,
                },
                ..old(self)@
            }),
    {
        self.uri = match value {
            Some(v) => Some(String::from_str(v)),
            Option::None => Option::None,
        };
    }

    /// The primary language of the rendition.
    pub fn language(&self) -> (r: &Option<String>)
        ensures
            opt_string_view(*r) == self@.language,
    {
        &self.language
    }

    /// Sets the primary language of the rendition.
    pub fn set_language(&mut self, value: Option<&str>)
        ensures
            final(self)@ == (ExtXMediaV {
                language: match value {
                    Some(v) => Some(v@),
                    Option::None => Option::None,
                },
                ..old(self)@
            }),
    {
        self.language = match value {
            Some(v) => Some(String::from_str(v)),
            Option::None => Option::None,
        };
    }

    /// The language associated with the rendition.
    pub fn assoc_language(&self) -> (r: &Option<String>)
        ensures
            opt_string_view(*r) == self@.assoc_language,
    {
        &self.assoc_language
    }

    /// Sets the language associated with the rendition.
    pub fn set_assoc_language(&mut self, value: Option<&str>)
        ensures
            final(self)@ == (ExtXMediaV {
                assoc_language: match value {
                    Some(v) => Some(v@),
                    Option::None => Option::None,
                },
                ..old(self)@
            }),
    {
        self.assoc_language = match value {
            Some(v) => Some(String::from_str(v)),
            Option::None => Option::None,
        };
    }

    /// Whether this is the default rendition.
    pub fn is_default(&self) -> (r: bool)
        ensures
            r == self@.is_default,
    {
        self.is_default
    }

    /// Sets the default flag.
    pub fn set_default(&mut self, value: bool)
        ensures
            final(self)@ == (ExtXMediaV { is_default: value, ..old(self)@ }),
    {
        self.is_default = value;
    }

    /// Whether the client may choose the rendition on its own.
    pub fn is_autoselect(&self) -> (r: bool)
        ensures
            r == self@.is_autoselect,
    {
        self.is_autoselect
    }

    /// Sets the autoselect flag.
    pub fn set_autoselect(&mut self, value: bool)
        ensures
            final(self)@ == (ExtXMediaV { is_autoselect: value, ..old(self)@ }),
    {
        self.is_autoselect = value;
    }

    /// Whether the rendition is essential to play.
    pub fn is_forced(&self) -> (r: bool)
        ensures
            r == self@.is_forced,
    {
        self.is_forced
    }

    /// Sets the forced flag.
    pub fn set_forced(&mut self, value: bool)
        ensures
            final(self)@ == (ExtXMediaV { is_forced: value, ..old(self)@ }),
    {
        self.is_forced = value;
    }

    /// The rendition's identifier within the segments.
    pub fn instream_id(&self) -> (r: Option<InStreamId>)
        ensures
            r == self@.instream_id,
    {
        self.instream_id
    }

    /// Sets the rendition's identifier within the segments.
    pub fn set_instream_id(&mut self, value: Option<InStreamId>)
        ensures
            final(self)@ == (ExtXMediaV { instream_id: value, ..old(self)@ }),
    {
        self.instream_id = value;
    }

    /// The uniform type identifiers describing the rendition.
    pub fn characteristics(&self) -> (r: &Option<String>)
        ensures
            opt_string_view(*r) == self@.characteristics,
    {
        &self.characteristics
    }

    /// Sets the uniform type identifiers describing the rendition.
    pub fn set_characteristics(&mut self, value: Option<&str>)
        ensures
            final(self)@ == (ExtXMediaV {
                characteristics: match value {
                    Some(v) => Some(v@),
                    Option::None => Option::None,
                },
                ..old(self)@
            }),
    {
        self.characteristics = match value {
            Some(v) => Some(String::from_str(v)),
            Option::None => Option::None,
        };
    }

    /// The audio channels of the rendition.
    pub fn channels(&self) -> (r: &Option<Channels>)
        ensures
            *r == self@.channels,
    {
        &self.channels
    }

    /// Sets the audio channels of the rendition.
    pub fn set_channels(&mut self, value: Option<Channels>)
        ensures
            final(self)@ == (ExtXMediaV { channels: value, ..old(self)@ }),
    {
        self.channels = value;
    }

    /// The minimum protocol version the rendition tag requires.
    pub fn required_version(&self) -> (r: ProtocolVersion)
        ensures
            r == spec_media_required_version(self@),
    {
        match self.instream_id {
            Option::None => ProtocolVersion::V1,
            Some(InStreamId::Cc1) => ProtocolVersion::V1,
            Some(InStreamId::Cc2) => ProtocolVersion::V1,
            Some(InStreamId::Cc3) => ProtocolVersion::V1,
            Some(InStreamId::Cc4) => ProtocolVersion::V1,
            Some(InStreamId::Service(_)) => ProtocolVersion::V7,
        }
    }
}

/// The canonical token of a media type.
pub open spec fn spec_render_media_type(t: MediaType) -> Seq<char> {
    match t {
        MediaType::Audio => "AUDIO"@,
        MediaType::Video => "VIDEO"@,
        MediaType::Subtitles => "SUBTITLES"@,
        MediaType::ClosedCaptions => "CLOSED-CAPTIONS"@,
    }
}

/// The canonical token of an in-stream identifier.
pub open spec fn spec_render_instream_id(id: InStreamId) -> Seq<char> {
    match id {
        InStreamId::Cc1 => "CC1"@,
        InStreamId::Cc2 => "CC2"@,
        InStreamId::Cc3 => "CC3"@,
        InStreamId::Cc4 => "CC4"@,
        InStreamId::Service(n) => "SERVICE"@ + crate::text::spec_render_u64(n as nat),
    }
}

/// The front half of a rendition tag's canonical text: the type through
/// the name.
pub open spec fn media_front_text(m: ExtXMediaV) -> Seq<char> {
    "#EXT-X-MEDIA:TYPE="@ + spec_render_media_type(m.media_type) + (match m.uri {
        Some(u) => ",URI=\""@ + u + "\""@,
        Option::None => Seq::empty(),
    }) + ",GROUP-ID=\""@ + m.group_id + "\""@ + (match m.language {
        Some(u) => ",LANGUAGE=\""@ + u + "\""@,
        Option::None => Seq::empty(),
    }) + (match m.assoc_language {
        Some(u) => ",ASSOC-LANGUAGE=\""@ + u + "\""@,
        Option::None => Seq::empty(),
    }) + ",NAME=\""@ + m.name + "\""@
}

/// The flag attributes of a rendition tag's canonical text.
pub open spec fn media_flags_text(m: ExtXMediaV) -> Seq<char> {
    (if m.is_default {
        ",DEFAULT=YES"@
    } else {
        Seq::empty()
    }) + (if m.is_autoselect {
        ",AUTOSELECT=YES"@
    } else {
        Seq::empty()
    }) + (if m.is_forced {
        ",FORCED=YES"@
    } else {
        Seq::empty()
    })
}

/// The trailing attributes of a rendition tag's canonical text.
pub open spec fn media_tail_text(m: ExtXMediaV) -> Seq<char> {
    (match m.instream_id {
        Some(id) => ",INSTREAM-ID=\""@ + spec_render_instream_id(id) + "\""@,
        Option::None => Seq::empty(),
    }) + (match m.characteristics {
        Some(u) => ",CHARACTERISTICS=\""@ + u + "\""@,
        Option::None => Seq::empty(),
    }) + (match m.channels {
        Some(c) => ",CHANNELS=\""@ + crate::text::spec_render_u64(c.channel_number as nat)
            + "\""@,
        Option::None => Seq::empty(),
    })
}

/// The back half of a rendition tag's canonical text: the flags through
/// the channels.
pub open spec fn media_back_text(m: ExtXMediaV) -> Seq<char> {
    media_flags_text(m) + media_tail_text(m)
}

/// The canonical text of a rendition tag, attributes in their canonical
/// order, flags written only when set.
pub open spec fn spec_render_media(m: ExtXMediaV) -> Seq<char> {
    media_front_text(m) + media_back_text(m)
}

/// Appends the front half of a rendition tag's canonical text.
#[verifier::rlimit(100)]
fn push_media_front(out: &mut String, s: &ExtXMedia)
    ensures
        final(out)@ == old(out)@ + media_front_text(s@),
{
    let ghost m = s@;
    let ghost t0 = old(out)@;
    proof {
        reveal_strlit("#EXT-X-MEDIA:TYPE=");
        reveal_strlit("AUDIO");
        reveal_strlit("VIDEO");
        reveal_strlit("SUBTITLES");
        reveal_strlit("CLOSED-CAPTIONS");
        reveal_strlit("\"");
    }
    out.append("#EXT-X-MEDIA:TYPE=");
    match s.media_type {
        MediaType::Audio => out.append("AUDIO"),
        MediaType::Video => out.append("VIDEO"),
        MediaType::Subtitles => out.append("SUBTITLES"),
        MediaType::ClosedCaptions => out.append("CLOSED-CAPTIONS"),
    }
    let ghost t1 = "#EXT-X-MEDIA:TYPE="@ + spec_render_media_type(m.media_type);
    proof {
        assert(out@ =~= t0 + t1);
    }
    match &s.uri {
        Some(u) => {
            proof {
                reveal_strlit(",URI=\"");
            }
            out.append(",URI=\"");
            out.append(u.as_str());
            out.append("\"");
        }
        Option::None => (),
    }
    let ghost t2 = t1 + (match m.uri {
        Some(u) => ",URI=\""@ + u + "\""@,
        Option::None => Seq::<char>::empty(),
    });
    proof {
        assert(out@ =~= t0 + t2);
    }
    proof {
        reveal_strlit(",GROUP-ID=\"");
    }
    out.append(",GROUP-ID=\"");
    out.append(s.group_id.as_str());
    out.append("\"");
    let ghost t3 = t2 + ",GROUP-ID=\""@ + m.group_id + "\""@;
    proof {
        assert(out@ =~= t0 + t3);
    }
    match &s.language {
        Some(u) => {
            proof {
                reveal_strlit(",LANGUAGE=\"");
            }
            out.append(",LANGUAGE=\"");
            out.append(u.as_str());
            out.append("\"");
        }
        Option::None => (),
    }
    let ghost t4 = t3 + (match m.language {
        Some(u) => ",LANGUAGE=\""@ + u + "\""@,
        Option::None => Seq::<char>::empty(),
    });
    proof {
        assert(out@ =~= t0 + t4);
    }
    match &s.assoc_language {
        Some(u) => {
            proof {
                reveal_strlit(",ASSOC-LANGUAGE=\"");
            }
            out.append(",ASSOC-LANGUAGE=\"");
            out.append(u.as_str());
            out.append("\"");
        }
        Option::None => (),
    }
    let ghost t5 = t4 + (match m.assoc_language {
        Some(u) => ",ASSOC-LANGUAGE=\""@ + u + "\""@,
        Option::None => Seq::<char>::empty(),
    });
    proof {
        assert(out@ =~= t0 + t5);
    }
    proof {
        reveal_strlit(",NAME=\"");
    }
    out.append(",NAME=\"");
    out.append(s.name.as_str());
    out.append("\"");
    proof {
        assert(final(out)@ =~= t0 + media_front_text(m));
    }
}

/// Appends the flag attributes of a rendition tag's canonical text.
fn push_media_flags(out: &mut String, s: &ExtXMedia)
    ensures
        final(out)@ == old(out)@ + media_flags_text(s@),
{
    let ghost m = s@;
    let ghost t0 = old(out)@;
    if s.is_default {
        proof {
            reveal_strlit(",DEFAULT=YES");
        }
        out.append(",DEFAULT=YES");
    }
    let ghost t1 = (if m.is_default {
        ",DEFAULT=YES"@
    } else {
        Seq::<char>::empty()
    });
    proof {
        assert(out@ =~= t0 + t1);
    }
    if s.is_autoselect {
        proof {
            reveal_strlit(",AUTOSELECT=YES");
        }
        out.append(",AUTOSELECT=YES");
    }
    let ghost t2 = t1 + (if m.is_autoselect {
        ",AUTOSELECT=YES"@
    } else {
        Seq::<char>::empty()
    });
    proof {
        assert(out@ =~= t0 + t2);
    }
    if s.is_forced {
        proof {
            reveal_strlit(",FORCED=YES");
        }
        out.append(",FORCED=YES");
    }
    proof {
        assert(final(out)@ =~= t0 + media_flags_text(m));
    }
}

/// Appends the trailing attributes of a rendition tag's canonical text.
#[verifier::rlimit(100)]
fn push_media_tail(out: &mut String, s: &ExtXMedia)
    ensures
        final(out)@ == old(out)@ + media_tail_text(s@),
{
    let ghost m = s@;
    let ghost t0 = old(out)@;
    match s.instream_id {
        Some(id) => {
            proof {
                reveal_strlit(",INSTREAM-ID=\"");
                reveal_strlit("CC1");
                reveal_strlit("CC2");
                reveal_strlit("CC3");
                reveal_strlit("CC4");
                reveal_strlit("SERVICE");
                reveal_strlit("\"");
            }
            out.append(",INSTREAM-ID=\"");
            match id {
                InStreamId::Cc1 => out.append("CC1"),
                InStreamId::Cc2 => out.append("CC2"),
                InStreamId::Cc3 => out.append("CC3"),
                InStreamId::Cc4 => out.append("CC4"),
                InStreamId::Service(n) => {
                    out.append("SERVICE");
                    crate::text::push_u64(out, n as u64);
                }
            }
            out.append("\"");
        }
        Option::None => (),
    }
    let ghost t4 = (match m.instream_id {
        Some(id) => ",INSTREAM-ID=\""@ + spec_render_instream_id(id) + "\""@,
        Option::None => Seq::<char>::empty(),
    });
    proof {
        assert(out@ =~= t0 + t4);
    }
    match &s.characteristics {
        Some(u) => {
            proof {
                reveal_strlit(",CHARACTERISTICS=\"");
                reveal_strlit("\"");
            }
            out.append(",CHARACTERISTICS=\"");
            out.append(u.as_str());
            out.append("\"");
        }
        Option::None => (),
    }
    let ghost t5 = t4 + (match m.characteristics {
        Some(u) => ",CHARACTERISTICS=\""@ + u + "\""@,
        Option::None => Seq::<char>::empty(),
    });
    proof {
        assert(out@ =~= t0 + t5);
    }
    match &s.channels {
        Some(c) => {
            proof {
                reveal_strlit(",CHANNELS=\"");
                reveal_strlit("\"");
            }
            out.append(",CHANNELS=\"");
            crate::text::push_u64(out, c.channel_number());
            out.append("\"");
        }
        Option::None => (),
    }
    proof {
        assert(final(out)@ =~= t0 + media_tail_text(m));
    }
}

impl ExtXMedia {
    /// Renders the rendition tag to its canonical line of text.
    pub fn render(&self) -> (r: String)
        ensures
            r@ == spec_render_media(self@),
    {
        let mut out = String::new();
        push_media_front(&mut out, self);
        push_media_flags(&mut out, self);
        push_media_tail(&mut out, self);
        proof {
            assert(Seq::<char>::empty() + media_front_text(self@) + media_flags_text(self@)
                + media_tail_text(self@) =~= spec_render_media(self@));
        }
        out
    }
}

/// A rendition tag line parses when it starts with the rendition
/// directive's name and colon, and its attribute list passes the fold and
/// the validation gate.
pub open spec fn spec_parse_media_line(s: Seq<char>) -> Result<ExtXMediaV, ErrorKind> {
    if s.len() >= 13 && s.subrange(0, 13) == "#EXT-X-MEDIA:"@ {
        match spec_parse_media_tag(s.subrange(13, s.len() as int)) {
            Ok(crate::tags::TagV::ExtXMedia(m)) => Ok(m),
            Ok(_) => Err(ErrorKind::InvalidInput),
            Err(e) => Err(e),
        }
    } else {
        Err(ErrorKind::InvalidInput)
    }
}

impl ExtXMedia {
    /// Parses one rendition tag line.
    pub fn parse(input: &str) -> (r: Result<ExtXMedia, Error>)
        ensures
            match r {
                Ok(m) => spec_parse_media_line(input@) == Result::<ExtXMediaV, ErrorKind>::Ok(
                    m@,
                ),
                Err(e) => spec_parse_media_line(input@) == Result::<ExtXMediaV, ErrorKind>::Err(
                    e@,
                ),
            },
    {
        let chars = crate::text::str_to_chars(input);
        let n = chars.len();
        if !crate::text::range_starts_with_str(&chars, 0, n, "#EXT-X-MEDIA:") {
            proof {
                reveal_strlit("#EXT-X-MEDIA:");
                assert(chars@.subrange(0, n as int) =~= input@);
                if input@.len() >= 13 {
                    assert(input@.subrange(0, 13) =~= chars@.subrange(0, n as int).subrange(
                        0,
                        13,
                    ));
                }
            }
            return Err(Error::InvalidInput);
        }
        proof {
            reveal_strlit("#EXT-X-MEDIA:");
            assert(chars@.subrange(0, n as int) =~= input@);
            assert(input@.subrange(0, 13) =~= chars@.subrange(0, n as int).subrange(0, 13));
            assert(chars@.subrange(13, n as int) =~= input@.subrange(13, input@.len() as int));
        }
        match parse_media_range(&chars, 13, n) {
            Ok(crate::tags::Tag::ExtXMedia(m)) => Ok(m),
            Ok(_) => Err(Error::InvalidInput),
            Err(e) => Err(e),
        }
    }
}

impl core::str::FromStr for ExtXMedia {
    type Err = Error;

    fn from_str(input: &str) -> Result<Self, Self::Err> {
        ExtXMedia::parse(input)
    }
}

impl PartialEq for ExtXMedia {
    fn eq(&self, other: &Self) -> (r: bool) {
        let type_eq = self.media_type == other.media_type;
        let uri_eq = opt_string_eq(&self.uri, &other.uri);
        let group_eq = self.group_id.eq(&other.group_id);
        let lang_eq = opt_string_eq(&self.language, &other.language);
        let assoc_eq = opt_string_eq(&self.assoc_language, &other.assoc_language);
        let name_eq = self.name.eq(&other.name);
        let flags_eq = self.is_default == other.is_default && self.is_autoselect
            == other.is_autoselect && self.is_forced == other.is_forced;
        let instream_eq = match (self.instream_id, other.instream_id) {
            (Option::None, Option::None) => true,
            (Some(a), Some(b)) => a == b,
            _ => false,
        };
        let chars_eq = opt_string_eq(&self.characteristics, &other.characteristics);
        let channels_eq = match (self.channels, other.channels) {
            (Option::None, Option::None) => true,
            (Some(a), Some(b)) => a == b,
            _ => false,
        };
        type_eq && uri_eq && group_eq && lang_eq && assoc_eq && name_eq && flags_eq
            && instream_eq && chars_eq && channels_eq
    }
}

impl vstd::std_specs::cmp::PartialEqSpecImpl for ExtXMedia {
    open spec fn obeys_eq_spec() -> bool {
        true
    }

    open spec fn eq_spec(&self, other: &Self) -> bool {
        self@ == other@
    }
}

/// Whether two optional strings hold the same text.
fn opt_string_eq(a: &Option<String>, b: &Option<String>) -> (r: bool)
    ensures
        r == (opt_string_view(*a) == opt_string_view(*b)),
{
    match (a, b) {
        (Option::None, Option::None) => true,
        (Some(x), Some(y)) => x.eq(y),
        _ => false,
    }
}

} // verus!



