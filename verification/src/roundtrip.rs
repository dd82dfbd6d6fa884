//! The round-trip law: reading a rendered playlist back gives the same
//! playlist.
//!
//! The proof walks the pipeline backwards: the rendered text splits into
//! exactly the rendered lines; each line reads back as the tag or URI it
//! was written from; and the assembler, folded over those lines, rebuilds
//! the same segments and document fields.

use vstd::prelude::*;
use crate::line::LineV;
use crate::line::spec_classify_line;
use crate::line::spec_line_stream;
use crate::error::ErrorKind;
use crate::media_segment::MediaSegmentV;
use crate::tags::ExtXKeyV;
use crate::tags::TagV;
use crate::text::is_space;
use crate::text::keep_line;
use crate::text::sig_of;
use crate::text::spec_significant_lines;
use crate::text::spec_split_lines;
use crate::text::spec_trim;

verus! {

/// Whether `l` can stand alone as a line of a rendered document: it is
/// non-empty, free of line breaks, carries no blank space at either end,
/// and is not a comment.
pub open spec fn wf_doc_line(l: Seq<char>) -> bool {
    &&& l.len() > 0
    &&& !is_space(l[0])
    &&& !is_space(l.last())
    &&& forall|j: int| 0 <= j < l.len() ==> #[trigger] l[j] != '\n'
    &&& keep_line(l)
}

/// The text of a line list: each line followed by a newline.
pub open spec fn spec_join_lines(ls: Seq<Seq<char>>) -> Seq<char>
    decreases ls.len(),
{
    if ls.len() == 0 {
        Seq::empty()
    } else {
        ls[0] + seq!['\n'] + spec_join_lines(ls.drop_first())
    }
}

/// Joining distributes over concatenation of line lists.
pub proof fn lemma_join_concat(a: Seq<Seq<char>>, b: Seq<Seq<char>>)
    ensures
        spec_join_lines(a + b) == spec_join_lines(a) + spec_join_lines(b),
    decreases a.len(),
{
    if a.len() == 0 {
        assert(a + b =~= b);
        assert(spec_join_lines(a) + spec_join_lines(b) =~= spec_join_lines(b));
    } else {
        assert((a + b)[0] == a[0]);
        assert((a + b).drop_first() =~= a.drop_first() + b);
        lemma_join_concat(a.drop_first(), b);
        assert(spec_join_lines(a + b) =~= spec_join_lines(a) + spec_join_lines(b));
    }
}

/// The significant lines of a joined well-formed line list are exactly
/// the lines themselves.
pub proof fn lemma_split_join(ls: Seq<Seq<char>>)
    requires
        forall|i: int| 0 <= i < ls.len() ==> wf_doc_line(#[trigger] ls[i]),
    ensures
        spec_significant_lines(spec_join_lines(ls)) == ls,
    decreases ls.len(),
{
    let t = spec_join_lines(ls);
    if ls.len() == 0 {
        assert(t.len() == 0);
        assert(spec_split_lines(t) == seq![t]);
        assert(seq![t][0] == t);
        assert(spec_trim(t) == t);
        assert(!keep_line(t));
        assert(seq![t].drop_first() =~= Seq::<Seq<char>>::empty());
        assert(sig_of(seq![t].drop_first()) == Seq::<Seq<char>>::empty());
        assert(spec_significant_lines(t) =~= ls);
    } else {
        let l0 = ls[0];
        let rest = spec_join_lines(ls.drop_first());
        assert(wf_doc_line(l0));
        // the first newline of the text closes the first line
        assert(t[l0.len() as int] == '\n');
        assert forall|j: int| 0 <= j < l0.len() implies t[j] != '\n' by {
            assert(t[j] == l0[j]);
        }
        crate::text::lemma_split_lines_step(t, l0.len() as int);
        assert(t.subrange(0, l0.len() as int) =~= l0);
        assert(t.subrange(l0.len() as int + 1, t.len() as int) =~= rest);
        lemma_split_join(ls.drop_first());
        let split_rest = spec_split_lines(rest);
        assert(spec_split_lines(t) == seq![l0] + split_rest);
        assert((seq![l0] + split_rest)[0] == l0);
        assert((seq![l0] + split_rest).drop_first() =~= split_rest);
        crate::text::lemma_trim_fixed(l0);
        assert(sig_of(spec_split_lines(t)) == seq![l0] + sig_of(split_rest));
        assert(seq![l0] + sig_of(split_rest) =~= ls);
    }
}

/// The typed line stream splits over concatenation of line lists.
pub proof fn lemma_stream_concat(a: Seq<Seq<char>>, b: Seq<Seq<char>>)
    ensures
        spec_line_stream(a + b) == (match spec_line_stream(a) {
            Ok(la) => match spec_line_stream(b) {
                Ok(lb) => Result::<Seq<LineV>, ErrorKind>::Ok(la + lb),
                Err(e) => Result::<Seq<LineV>, ErrorKind>::Err(e),
            },
            Err(e) => Result::<Seq<LineV>, ErrorKind>::Err(e),
        }),
    decreases a.len(),
{
    if a.len() == 0 {
        assert(a + b =~= b);
        match spec_line_stream(b) {
            Ok(lb) => {
                assert(Seq::<LineV>::empty() + lb =~= lb);
            },
            Err(_) => {},
        }
    } else {
        assert((a + b)[0] == a[0]);
        assert((a + b).drop_first() =~= a.drop_first() + b);
        lemma_stream_concat(a.drop_first(), b);
        match spec_classify_line(a[0]) {
            Ok(l) => {
                match spec_line_stream(a.drop_first()) {
                    Ok(la) => {
                        match spec_line_stream(b) {
                            Ok(lb) => {
                                assert(seq![l] + (la + lb) =~= (seq![l] + la) + lb);
                            },
                            Err(_) => {},
                        }
                    },
                    Err(_) => {},
                }
            },
            Err(_) => {},
        }
    }
}

/// A line list of one tag line reads as that tag.
pub proof fn lemma_stream_single_tag(l: Seq<char>, tag: TagV)
    requires
        l.len() > 0,
        l[0] == '#',
        crate::tags::spec_dispatch(l) == Result::<TagV, ErrorKind>::Ok(tag),
    ensures
        spec_line_stream(seq![l]) == Result::<Seq<LineV>, ErrorKind>::Ok(
            seq![LineV::Tag(tag)],
        ),
{
    assert(seq![l][0] == l);
    assert(seq![l].drop_first() =~= Seq::<Seq<char>>::empty());
    assert(spec_line_stream(seq![l].drop_first()) == Result::<Seq<LineV>, ErrorKind>::Ok(
        Seq::empty(),
    ));
    assert(seq![LineV::Tag(tag)] + Seq::<LineV>::empty() =~= seq![LineV::Tag(tag)]);
}

/// A line list of one URI line reads as that URI.
pub proof fn lemma_stream_single_uri(l: Seq<char>)
    requires
        l.len() > 0,
        l[0] != '#',
    ensures
        spec_line_stream(seq![l]) == Result::<Seq<LineV>, ErrorKind>::Ok(seq![LineV::Uri(l)]),
{
    assert(seq![l][0] == l);
    assert(seq![l].drop_first() =~= Seq::<Seq<char>>::empty());
    assert(spec_line_stream(seq![l].drop_first()) == Result::<Seq<LineV>, ErrorKind>::Ok(
        Seq::empty(),
    ));
    assert(seq![LineV::Uri(l)] + Seq::<LineV>::empty() =~= seq![LineV::Uri(l)]);
}

/// Concatenation regrouped: the right-nested form of a segment's parts
/// equals the flat left-nested form.
#[verifier::rlimit(100)]
pub proof fn lemma_segment_text_shape(
    t1: Seq<char>,
    t2: Seq<char>,
    t3: Seq<char>,
    t4: Seq<char>,
    t5: Seq<char>,
    t6: Seq<char>,
    inf: Seq<char>,
    uri: Seq<char>,
)
    ensures
        t1 + (t2 + (t3 + (t4 + (t5 + (t6 + (inf + seq!['\n'] + uri + seq!['\n'])))))) == t1 + t2
            + t3 + t4 + t5 + t6 + inf + seq!['\n'] + uri + seq!['\n'],
{
    assert(t1 + (t2 + (t3 + (t4 + (t5 + (t6 + (inf + seq!['\n'] + uri + seq!['\n'])))))) =~= t1
        + t2 + t3 + t4 + t5 + t6 + inf + seq!['\n'] + uri + seq!['\n']);
}

/// Concatenation regrouped: the right-nested form of a playlist's parts
/// equals the flat left-nested form.
#[verifier::rlimit(100)]
pub proof fn lemma_playlist_text_shape(
    e: Seq<char>,
    ver: Seq<char>,
    td: Seq<char>,
    u4: Seq<char>,
    u5: Seq<char>,
    u6: Seq<char>,
    u7: Seq<char>,
    u8: Seq<char>,
    u9: Seq<char>,
    u10: Seq<char>,
    u11: Seq<char>,
)
    ensures
        (e + seq!['\n']) + (ver + ((td + seq!['\n']) + (u4 + (u5 + (u6 + (u7 + (u8 + (u9 + (u10
            + u11))))))))) == e + seq!['\n'] + ver + td + seq!['\n'] + u4 + u5 + u6 + u7 + u8
            + u9 + u10 + u11,
{
    assert((e + seq!['\n']) + (ver + ((td + seq!['\n']) + (u4 + (u5 + (u6 + (u7 + (u8 + (u9 + (
    u10 + u11))))))))) =~= e + seq!['\n'] + ver + td + seq!['\n'] + u4 + u5 + u6 + u7 + u8 + u9
            + u10 + u11);
}

/// Concatenation regrouped for line lists: the flat form equals the
/// right-nested form.
#[verifier::rlimit(100)]
pub proof fn lemma_lines_shape(
    b1: Seq<Seq<char>>,
    b2: Seq<Seq<char>>,
    b3: Seq<Seq<char>>,
    b4: Seq<Seq<char>>,
    b5: Seq<Seq<char>>,
    b6: Seq<Seq<char>>,
    b7: Seq<Seq<char>>,
    b8: Seq<Seq<char>>,
    b9: Seq<Seq<char>>,
    b10: Seq<Seq<char>>,
    b11: Seq<Seq<char>>,
)
    ensures
        b1 + b2 + b3 + b4 + b5 + b6 + b7 + b8 + b9 + b10 + b11 == b1 + (b2 + (b3 + (b4 + (b5 + (
        b6 + (b7 + (b8 + (b9 + (b10 + b11))))))))),
{
    assert(b1 + b2 + b3 + b4 + b5 + b6 + b7 + b8 + b9 + b10 + b11 =~= b1 + (b2 + (b3 + (b4 + (b5
        + (b6 + (b7 + (b8 + (b9 + (b10 + b11))))))))));
}

/// The key lines of a segment, in order.
pub open spec fn keys_lines(keys: Seq<ExtXKeyV>) -> Seq<Seq<char>> {
    Seq::new(keys.len(), |i: int| crate::tags::spec_render_key(keys[i]))
}

/// The lines a segment renders to: its tag lines, then its URI line.
pub open spec fn seg_lines(s: MediaSegmentV) -> Seq<Seq<char>> {
    keys_lines(s.keys) + (match s.map_tag {
        Some(m) => seq![crate::tags::spec_render_map(m)],
        Option::None => Seq::empty(),
    }) + (match s.byte_range {
        Some(r) => seq![crate::tags::spec_render_byte_range_tag(r)],
        Option::None => Seq::empty(),
    }) + (match s.date_range {
        Some(t) => seq![crate::tags::spec_render_date_range(t)],
        Option::None => Seq::empty(),
    }) + (if s.discontinuity {
        seq![crate::tags::spec_render_discontinuity()]
    } else {
        Seq::empty()
    }) + (match s.program_date_time {
        Some(t) => seq![crate::tags::spec_render_program_date_time(t)],
        Option::None => Seq::empty(),
    }) + seq![crate::tags::spec_render_inf(s.inf), s.uri]
}

/// The lines a segment list renders to.
pub open spec fn segs_lines(segs: Seq<MediaSegmentV>) -> Seq<Seq<char>>
    decreases segs.len(),
{
    if segs.len() == 0 {
        Seq::empty()
    } else {
        seg_lines(segs[0]) + segs_lines(segs.drop_first())
    }
}

/// The lines a playlist renders to.
pub open spec fn playlist_lines(p: crate::media_playlist::MediaPlaylistV) -> Seq<Seq<char>> {
    seq![crate::tags::spec_render_extm3u()] + (if crate::media_playlist::spec_playlist_required_version(p)
        != crate::types::ProtocolVersion::V1 {
        seq![
            crate::tags::spec_render_version(
                crate::media_playlist::spec_playlist_required_version(p),
            ),
        ]
    } else {
        Seq::empty()
    }) + seq![crate::tags::spec_render_target_duration(p.target_duration_millis)] + (
    match p.media_sequence {
        Some(n) => seq![crate::tags::spec_render_media_sequence(n)],
        Option::None => Seq::empty(),
    }) + (match p.discontinuity_sequence {
        Some(n) => seq![crate::tags::spec_render_discontinuity_sequence(n)],
        Option::None => Seq::empty(),
    }) + (match p.playlist_type {
        Some(t) => seq![crate::tags::spec_render_playlist_type(t)],
        Option::None => Seq::empty(),
    }) + (if p.i_frames_only {
        seq![crate::tags::spec_render_i_frames_only()]
    } else {
        Seq::empty()
    }) + (if p.independent_segments {
        seq![crate::tags::spec_render_independent_segments()]
    } else {
        Seq::empty()
    }) + (match p.start {
        Some(st) => seq![crate::tags::spec_render_start(st)],
        Option::None => Seq::empty(),
    }) + segs_lines(p.segments) + (if p.end_list {
        seq![crate::tags::spec_render_end_list()]
    } else {
        Seq::empty()
    })
}

/// Joining one line appends it and a newline.
pub proof fn lemma_join_single(l: Seq<char>)
    ensures
        spec_join_lines(seq![l]) == l + seq!['\n'],
{
    assert(seq![l][0] == l);
    assert(seq![l].drop_first() =~= Seq::<Seq<char>>::empty());
    assert(spec_join_lines(seq![l].drop_first()) == Seq::<char>::empty());
    assert(l + seq!['\n'] + Seq::<char>::empty() =~= l + seq!['\n']);
}

/// The key lines join to the key text.
pub proof fn lemma_join_keys(keys: Seq<ExtXKeyV>)
    ensures
        spec_join_lines(keys_lines(keys)) == crate::media_segment::spec_render_keys(keys),
    decreases keys.len(),
{
    if keys.len() == 0 {
        assert(keys_lines(keys) =~= Seq::<Seq<char>>::empty());
    } else {
        lemma_join_keys(keys.drop_first());
        assert(keys_lines(keys)[0] == crate::tags::spec_render_key(keys[0]));
        assert(keys_lines(keys).drop_first() =~= keys_lines(keys.drop_first()));
        assert(spec_join_lines(keys_lines(keys)) =~= crate::media_segment::spec_render_keys(
            keys,
        ));
    }
}

/// A segment's lines join to its text.
#[verifier::rlimit(100)]
pub proof fn lemma_join_segment(s: MediaSegmentV)
    ensures
        spec_join_lines(seg_lines(s)) == crate::media_segment::spec_render_segment(s),
{
    lemma_join_keys(s.keys);
    let a1 = keys_lines(s.keys);
    let a2 = (match s.map_tag {
        Some(m) => seq![crate::tags::spec_render_map(m)],
        Option::None => Seq::<Seq<char>>::empty(),
    });
    let a3 = (match s.byte_range {
        Some(r) => seq![crate::tags::spec_render_byte_range_tag(r)],
        Option::None => Seq::<Seq<char>>::empty(),
    });
    let a4 = (match s.date_range {
        Some(t) => seq![crate::tags::spec_render_date_range(t)],
        Option::None => Seq::<Seq<char>>::empty(),
    });
    let a5 = (if s.discontinuity {
        seq![crate::tags::spec_render_discontinuity()]
    } else {
        Seq::<Seq<char>>::empty()
    });
    let a6 = (match s.program_date_time {
        Some(t) => seq![crate::tags::spec_render_program_date_time(t)],
        Option::None => Seq::<Seq<char>>::empty(),
    });
    let a7 = seq![crate::tags::spec_render_inf(s.inf), s.uri];
    let w6 = a6 + a7;
    let w5 = a5 + w6;
    let w4 = a4 + w5;
    let w3 = a3 + w4;
    let w2 = a2 + w3;
    lemma_join_concat(a1, w2);
    lemma_join_concat(a2, w3);
    lemma_join_concat(a3, w4);
    lemma_join_concat(a4, w5);
    lemma_join_concat(a5, w6);
    lemma_join_concat(a6, a7);
    assert(seg_lines(s) =~= a1 + w2);
    // each optional part joins to its text
    match s.map_tag {
        Some(m) => {
            lemma_join_single(crate::tags::spec_render_map(m));
        },
        Option::None => {},
    }
    match s.byte_range {
        Some(r) => {
            lemma_join_single(crate::tags::spec_render_byte_range_tag(r));
        },
        Option::None => {},
    }
    match s.date_range {
        Some(t) => {
            lemma_join_single(crate::tags::spec_render_date_range(t));
        },
        Option::None => {},
    }
    if s.discontinuity {
        lemma_join_single(crate::tags::spec_render_discontinuity());
    }
    match s.program_date_time {
        Some(t) => {
            lemma_join_single(crate::tags::spec_render_program_date_time(t));
        },
        Option::None => {},
    }
    assert(a7[0] == crate::tags::spec_render_inf(s.inf));
    assert(a7.drop_first() =~= seq![s.uri]);
    lemma_join_single(s.uri);
    assert(spec_join_lines(a7) =~= crate::tags::spec_render_inf(s.inf) + seq!['\n'] + s.uri
        + seq!['\n']);
    let t1 = crate::media_segment::spec_render_keys(s.keys);
    let t2 = crate::media_segment::seg_map_text(s);
    let t3 = crate::media_segment::seg_byte_range_text(s);
    let t4 = crate::media_segment::seg_date_range_text(s);
    let t5 = crate::media_segment::seg_discontinuity_text(s);
    let t6 = crate::media_segment::seg_program_date_time_text(s);
    let t7 = crate::tags::spec_render_inf(s.inf) + seq!['\n'] + s.uri + seq!['\n'];
    assert(spec_join_lines(a1) == t1);
    assert(spec_join_lines(a2) =~= t2);
    assert(spec_join_lines(a3) =~= t3);
    assert(spec_join_lines(a4) =~= t4);
    assert(spec_join_lines(a5) =~= t5);
    assert(spec_join_lines(a6) =~= t6);
    assert(spec_join_lines(a7) == t7);
    let v6 = t6 + t7;
    let v5 = t5 + v6;
    let v4 = t4 + v5;
    let v3 = t3 + v4;
    let v2 = t2 + v3;
    let v1 = t1 + v2;
    assert(spec_join_lines(seg_lines(s)) == v1);
    lemma_segment_text_shape(
        t1,
        t2,
        t3,
        t4,
        t5,
        t6,
        crate::tags::spec_render_inf(s.inf),
        s.uri,
    );
    assert(v1 == crate::media_segment::spec_render_segment(s));
}

/// A segment list's lines join to its text.
pub proof fn lemma_join_segments(segs: Seq<MediaSegmentV>)
    ensures
        spec_join_lines(segs_lines(segs)) == crate::media_playlist::spec_render_segments(segs),
    decreases segs.len(),
{
    if segs.len() == 0 {
    } else {
        lemma_join_concat(seg_lines(segs[0]), segs_lines(segs.drop_first()));
        lemma_join_segment(segs[0]);
        lemma_join_segments(segs.drop_first());
    }
}

/// A playlist's lines join to its rendered text.
#[verifier::rlimit(100)]
pub proof fn lemma_join_playlist(p: crate::media_playlist::MediaPlaylistV)
    ensures
        spec_join_lines(playlist_lines(p)) == crate::media_playlist::spec_render_media_playlist(
            p,
        ),
{
    let rv = crate::media_playlist::spec_playlist_required_version(p);
    let b1 = seq![crate::tags::spec_render_extm3u()];
    let b2 = (if rv != crate::types::ProtocolVersion::V1 {
        seq![crate::tags::spec_render_version(rv)]
    } else {
        Seq::<Seq<char>>::empty()
    });
    let b3 = seq![crate::tags::spec_render_target_duration(p.target_duration_millis)];
    let b4 = (match p.media_sequence {
        Some(n) => seq![crate::tags::spec_render_media_sequence(n)],
        Option::None => Seq::<Seq<char>>::empty(),
    });
    let b5 = (match p.discontinuity_sequence {
        Some(n) => seq![crate::tags::spec_render_discontinuity_sequence(n)],
        Option::None => Seq::<Seq<char>>::empty(),
    });
    let b6 = (match p.playlist_type {
        Some(t) => seq![crate::tags::spec_render_playlist_type(t)],
        Option::None => Seq::<Seq<char>>::empty(),
    });
    let b7 = (if p.i_frames_only {
        seq![crate::tags::spec_render_i_frames_only()]
    } else {
        Seq::<Seq<char>>::empty()
    });
    let b8 = (if p.independent_segments {
        seq![crate::tags::spec_render_independent_segments()]
    } else {
        Seq::<Seq<char>>::empty()
    });
    let b9 = (match p.start {
        Some(st) => seq![crate::tags::spec_render_start(st)],
        Option::None => Seq::<Seq<char>>::empty(),
    });
    let b10 = segs_lines(p.segments);
    let b11 = (if p.end_list {
        seq![crate::tags::spec_render_end_list()]
    } else {
        Seq::<Seq<char>>::empty()
    });
    let w10 = b10 + b11;
    let w9 = b9 + w10;
    let w8 = b8 + w9;
    let w7 = b7 + w8;
    let w6 = b6 + w7;
    let w5 = b5 + w6;
    let w4 = b4 + w5;
    let w3 = b3 + w4;
    let w2 = b2 + w3;
    lemma_join_concat(b1, w2);
    lemma_join_concat(b2, w3);
    lemma_join_concat(b3, w4);
    lemma_join_concat(b4, w5);
    lemma_join_concat(b5, w6);
    lemma_join_concat(b6, w7);
    lemma_join_concat(b7, w8);
    lemma_join_concat(b8, w9);
    lemma_join_concat(b9, w10);
    lemma_join_concat(b10, b11);
    lemma_lines_shape(b1, b2, b3, b4, b5, b6, b7, b8, b9, b10, b11);
    assert(playlist_lines(p) == b1 + w2);
    lemma_join_single(crate::tags::spec_render_extm3u());
    if rv != crate::types::ProtocolVersion::V1 {
        lemma_join_single(crate::tags::spec_render_version(rv));
    }
    lemma_join_single(crate::tags::spec_render_target_duration(p.target_duration_millis));
    match p.media_sequence {
        Some(n) => {
            lemma_join_single(crate::tags::spec_render_media_sequence(n));
        },
        Option::None => {},
    }
    match p.discontinuity_sequence {
        Some(n) => {
            lemma_join_single(crate::tags::spec_render_discontinuity_sequence(n));
        },
        Option::None => {},
    }
    match p.playlist_type {
        Some(t) => {
            lemma_join_single(crate::tags::spec_render_playlist_type(t));
        },
        Option::None => {},
    }
    if p.i_frames_only {
        lemma_join_single(crate::tags::spec_render_i_frames_only());
    }
    if p.independent_segments {
        lemma_join_single(crate::tags::spec_render_independent_segments());
    }
    match p.start {
        Some(st) => {
            lemma_join_single(crate::tags::spec_render_start(st));
        },
        Option::None => {},
    }
    lemma_join_segments(p.segments);
    if p.end_list {
        lemma_join_single(crate::tags::spec_render_end_list());
    }
    let u1 = crate::tags::spec_render_extm3u() + seq!['\n'];
    let u2 = crate::media_playlist::pl_version_text(p);
    let u3 = crate::tags::spec_render_target_duration(p.target_duration_millis) + seq!['\n'];
    let u4 = crate::media_playlist::pl_media_sequence_text(p);
    let u5 = crate::media_playlist::pl_discontinuity_sequence_text(p);
    let u6 = crate::media_playlist::pl_playlist_type_text(p);
    let u7 = crate::media_playlist::pl_i_frames_only_text(p);
    let u8 = crate::media_playlist::pl_independent_segments_text(p);
    let u9 = crate::media_playlist::pl_start_text(p);
    let u10 = crate::media_playlist::spec_render_segments(p.segments);
    let u11 = crate::media_playlist::pl_end_list_text(p);
    assert(spec_join_lines(b1) == u1);
    assert(spec_join_lines(b2) == u2);
    assert(spec_join_lines(b3) == u3);
    assert(spec_join_lines(b4) == u4);
    assert(spec_join_lines(b5) == u5);
    assert(spec_join_lines(b6) == u6);
    assert(spec_join_lines(b7) == u7);
    assert(spec_join_lines(b8) == u8);
    assert(spec_join_lines(b9) == u9);
    assert(spec_join_lines(b10) == u10);
    assert(spec_join_lines(b11) == u11);
    let v10 = u10 + u11;
    let v9 = u9 + v10;
    let v8 = u8 + v9;
    let v7 = u7 + v8;
    let v6 = u6 + v7;
    let v5 = u5 + v6;
    let v4 = u4 + v5;
    let v3 = u3 + v4;
    let v2 = u2 + v3;
    let v1 = u1 + v2;
    assert(spec_join_lines(playlist_lines(p)) == v1);
    lemma_playlist_text_shape(
        crate::tags::spec_render_extm3u(),
        u2,
        crate::tags::spec_render_target_duration(p.target_duration_millis),
        u4,
        u5,
        u6,
        u7,
        u8,
        u9,
        u10,
        u11,
    );
    assert(v1 == crate::media_playlist::spec_render_media_playlist(p));
}

/// The fields a segment must keep clear of for its text to read back:
/// well-formed keys and map, a map that carries the segment's own key
/// set, a non-empty title when one is present, and a URI that cannot be
/// mistaken for a directive.
pub open spec fn wf_segment(s: MediaSegmentV) -> bool {
    &&& forall|i: int| 0 <= i < s.keys.len() ==> crate::tags::wf_key(#[trigger] s.keys[i])
    &&& match s.map_tag {
        Some(m) => crate::tags::wf_map(m) && m.keys == s.keys,
        Option::None => true,
    }
    &&& match s.inf.title {
        Some(t) => t.len() > 0,
        Option::None => true,
    }
    &&& s.uri.len() > 0
    &&& s.uri[0] != '#'
}

/// The typed lines a segment reads back as. The initialization map reads
/// back with an empty key list; the assembler refills it.
pub open spec fn key_linevs(keys: Seq<ExtXKeyV>) -> Seq<LineV> {
    Seq::new(keys.len(), |i: int| LineV::Tag(TagV::ExtXKey(keys[i])))
}

/// The typed lines a segment reads back as.
pub open spec fn seg_linevs(s: MediaSegmentV) -> Seq<LineV> {
    key_linevs(s.keys) + (match s.map_tag {
        Some(m) => seq![
            LineV::Tag(TagV::ExtXMap(crate::tags::ExtXMapV { keys: Seq::empty(), ..m })),
        ],
        Option::None => Seq::empty(),
    }) + (match s.byte_range {
        Some(r) => seq![LineV::Tag(TagV::ExtXByteRange(r))],
        Option::None => Seq::empty(),
    }) + (match s.date_range {
        Some(t) => seq![LineV::Tag(TagV::ExtXDateRange(t))],
        Option::None => Seq::empty(),
    }) + (if s.discontinuity {
        seq![LineV::Tag(TagV::ExtXDiscontinuity)]
    } else {
        Seq::empty()
    }) + (match s.program_date_time {
        Some(t) => seq![LineV::Tag(TagV::ExtXProgramDateTime(t))],
        Option::None => Seq::empty(),
    }) + seq![LineV::Tag(TagV::ExtInf(s.inf)), LineV::Uri(s.uri)]
}

/// The typed lines a segment list reads back as.
pub open spec fn segs_linevs(segs: Seq<MediaSegmentV>) -> Seq<LineV>
    decreases segs.len(),
{
    if segs.len() == 0 {
        Seq::empty()
    } else {
        seg_linevs(segs[0]) + segs_linevs(segs.drop_first())
    }
}

/// The typed lines a playlist reads back as.
pub open spec fn playlist_linevs(p: crate::media_playlist::MediaPlaylistV) -> Seq<LineV> {
    seq![LineV::Tag(TagV::ExtM3u)] + (if crate::media_playlist::spec_playlist_required_version(p)
        != crate::types::ProtocolVersion::V1 {
        seq![
            LineV::Tag(
                TagV::ExtXVersion(crate::media_playlist::spec_playlist_required_version(p)),
            ),
        ]
    } else {
        Seq::empty()
    }) + seq![LineV::Tag(TagV::ExtXTargetDuration(p.target_duration_millis))] + (
    match p.media_sequence {
        Some(n) => seq![LineV::Tag(TagV::ExtXMediaSequence(n))],
        Option::None => Seq::empty(),
    }) + (match p.discontinuity_sequence {
        Some(n) => seq![LineV::Tag(TagV::ExtXDiscontinuitySequence(n))],
        Option::None => Seq::empty(),
    }) + (match p.playlist_type {
        Some(t) => seq![LineV::Tag(TagV::ExtXPlaylistType(t))],
        Option::None => Seq::empty(),
    }) + (if p.i_frames_only {
        seq![LineV::Tag(TagV::ExtXIFramesOnly)]
    } else {
        Seq::empty()
    }) + (if p.independent_segments {
        seq![LineV::Tag(TagV::ExtXIndependentSegments)]
    } else {
        Seq::empty()
    }) + (match p.start {
        Some(st) => seq![LineV::Tag(TagV::ExtXStart(st))],
        Option::None => Seq::empty(),
    }) + segs_linevs(p.segments) + (if p.end_list {
        seq![LineV::Tag(TagV::ExtXEndList)]
    } else {
        Seq::empty()
    })
}

/// The key lines of a well-formed key list read back as those keys.
pub proof fn lemma_stream_keys(keys: Seq<ExtXKeyV>)
    requires
        forall|i: int| 0 <= i < keys.len() ==> crate::tags::wf_key(#[trigger] keys[i]),
    ensures
        spec_line_stream(keys_lines(keys)) == Result::<Seq<LineV>, ErrorKind>::Ok(
            key_linevs(keys),
        ),
    decreases keys.len(),
{
    reveal_strlit("#EXT-X-KEY:");
    if keys.len() == 0 {
        assert(keys_lines(keys) =~= Seq::<Seq<char>>::empty());
        assert(key_linevs(keys) =~= Seq::<LineV>::empty());
    } else {
        let l0 = crate::tags::spec_render_key(keys[0]);
        crate::tags::lemma_key_roundtrip(keys[0]);
        assert(l0[0] == '#') by {
            assert(l0[0] == "#EXT-X-KEY:"@[0]);
        }
        assert(keys_lines(keys) =~= seq![l0] + keys_lines(keys.drop_first()));
        lemma_stream_concat(seq![l0], keys_lines(keys.drop_first()));
        lemma_stream_single_tag(l0, TagV::ExtXKey(keys[0]));
        lemma_stream_keys(keys.drop_first());
        assert(key_linevs(keys) =~= seq![LineV::Tag(TagV::ExtXKey(keys[0]))] + key_linevs(
            keys.drop_first(),
        ));
    }
}

/// Concatenation regrouped for seven-part lists.
#[verifier::rlimit(100)]
pub proof fn lemma_seven_shape<A>(
    a1: Seq<A>,
    a2: Seq<A>,
    a3: Seq<A>,
    a4: Seq<A>,
    a5: Seq<A>,
    a6: Seq<A>,
    a7: Seq<A>,
)
    ensures
        a1 + a2 + a3 + a4 + a5 + a6 + a7 == a1 + (a2 + (a3 + (a4 + (a5 + (a6 + a7))))),
{
    assert(a1 + a2 + a3 + a4 + a5 + a6 + a7 =~= a1 + (a2 + (a3 + (a4 + (a5 + (a6 + a7))))));
}

/// The map line of a segment reads back as its typed line.
pub proof fn lemma_stream_map_part(s: MediaSegmentV)
    requires
        wf_segment(s),
    ensures
        spec_line_stream(
            match s.map_tag {
                Some(m) => seq![crate::tags::spec_render_map(m)],
                Option::None => Seq::<Seq<char>>::empty(),
            },
        ) == Result::<Seq<LineV>, ErrorKind>::Ok(
            match s.map_tag {
                Some(m) => seq![
                    LineV::Tag(
                        TagV::ExtXMap(crate::tags::ExtXMapV { keys: Seq::empty(), ..m }),
                    ),
                ],
                Option::None => Seq::<LineV>::empty(),
            },
        ),
{
    reveal_strlit("#EXT-X-MAP:");
    match s.map_tag {
        Some(m) => {
            crate::tags::lemma_map_roundtrip(m);
            let l = crate::tags::spec_render_map(m);
            assert(l[0] == '#') by {
                assert(l[0] == "#EXT-X-MAP:"@[0]);
            }
            lemma_stream_single_tag(
                l,
                TagV::ExtXMap(crate::tags::ExtXMapV { keys: Seq::empty(), ..m }),
            );
        },
        Option::None => {},
    }
}

/// The byte-range line of a segment reads back as its typed line.
pub proof fn lemma_stream_byte_range_part(s: MediaSegmentV)
    ensures
        spec_line_stream(
            match s.byte_range {
                Some(r) => seq![crate::tags::spec_render_byte_range_tag(r)],
                Option::None => Seq::<Seq<char>>::empty(),
            },
        ) == Result::<Seq<LineV>, ErrorKind>::Ok(
            match s.byte_range {
                Some(r) => seq![LineV::Tag(TagV::ExtXByteRange(r))],
                Option::None => Seq::<LineV>::empty(),
            },
        ),
{
    reveal_strlit("#EXT-X-BYTERANGE:");
    match s.byte_range {
        Some(r) => {
            crate::tags::lemma_byte_range_tag_roundtrip(r);
            let l = crate::tags::spec_render_byte_range_tag(r);
            assert(l[0] == '#') by {
                assert(l[0] == "#EXT-X-BYTERANGE:"@[0]);
            }
            lemma_stream_single_tag(l, TagV::ExtXByteRange(r));
        },
        Option::None => {},
    }
}

/// The date-range line of a segment reads back as its typed line.
pub proof fn lemma_stream_date_range_part(s: MediaSegmentV)
    ensures
        spec_line_stream(
            match s.date_range {
                Some(t) => seq![crate::tags::spec_render_date_range(t)],
                Option::None => Seq::<Seq<char>>::empty(),
            },
        ) == Result::<Seq<LineV>, ErrorKind>::Ok(
            match s.date_range {
                Some(t) => seq![LineV::Tag(TagV::ExtXDateRange(t))],
                Option::None => Seq::<LineV>::empty(),
            },
        ),
{
    reveal_strlit("#EXT-X-DATERANGE:");
    match s.date_range {
        Some(t) => {
            crate::tags::lemma_date_range_roundtrip(t);
            let l = crate::tags::spec_render_date_range(t);
            assert(l[0] == '#') by {
                assert(l[0] == "#EXT-X-DATERANGE:"@[0]);
            }
            lemma_stream_single_tag(l, TagV::ExtXDateRange(t));
        },
        Option::None => {},
    }
}

/// The discontinuity line of a segment reads back as its typed line.
pub proof fn lemma_stream_discontinuity_part(s: MediaSegmentV)
    ensures
        spec_line_stream(
            if s.discontinuity {
                seq![crate::tags::spec_render_discontinuity()]
            } else {
                Seq::<Seq<char>>::empty()
            },
        ) == Result::<Seq<LineV>, ErrorKind>::Ok(
            if s.discontinuity {
                seq![LineV::Tag(TagV::ExtXDiscontinuity)]
            } else {
                Seq::<LineV>::empty()
            },
        ),
{
    reveal_strlit("#EXT-X-DISCONTINUITY");
    if s.discontinuity {
        crate::tags::lemma_discontinuity_roundtrip();
        let l = crate::tags::spec_render_discontinuity();
        assert(l[0] == '#') by {
            assert(l[0] == "#EXT-X-DISCONTINUITY"@[0]);
        }
        lemma_stream_single_tag(l, TagV::ExtXDiscontinuity);
    }
}

/// The program-date-time line of a segment reads back as its typed line.
pub proof fn lemma_stream_pdt_part(s: MediaSegmentV)
    ensures
        spec_line_stream(
            match s.program_date_time {
                Some(t) => seq![crate::tags::spec_render_program_date_time(t)],
                Option::None => Seq::<Seq<char>>::empty(),
            },
        ) == Result::<Seq<LineV>, ErrorKind>::Ok(
            match s.program_date_time {
                Some(t) => seq![LineV::Tag(TagV::ExtXProgramDateTime(t))],
                Option::None => Seq::<LineV>::empty(),
            },
        ),
{
    reveal_strlit("#EXT-X-PROGRAM-DATE-TIME:");
    match s.program_date_time {
        Some(t) => {
            crate::tags::lemma_program_date_time_roundtrip(t);
            let l = crate::tags::spec_render_program_date_time(t);
            assert(l[0] == '#') by {
                assert(l[0] == "#EXT-X-PROGRAM-DATE-TIME:"@[0]);
            }
            lemma_stream_single_tag(l, TagV::ExtXProgramDateTime(t));
        },
        Option::None => {},
    }
}

/// The lines of a well-formed segment read back as its typed lines.
#[verifier::rlimit(100)]
pub proof fn lemma_stream_segment(s: MediaSegmentV)
    requires
        wf_segment(s),
    ensures
        spec_line_stream(seg_lines(s)) == Result::<Seq<LineV>, ErrorKind>::Ok(seg_linevs(s)),
{
    reveal_strlit("#EXTINF:");
    let a1 = keys_lines(s.keys);
    let a2 = (match s.map_tag {
        Some(m) => seq![crate::tags::spec_render_map(m)],
        Option::None => Seq::<Seq<char>>::empty(),
    });
    let a3 = (match s.byte_range {
        Some(r) => seq![crate::tags::spec_render_byte_range_tag(r)],
        Option::None => Seq::<Seq<char>>::empty(),
    });
    let a4 = (match s.date_range {
        Some(t) => seq![crate::tags::spec_render_date_range(t)],
        Option::None => Seq::<Seq<char>>::empty(),
    });
    let a5 = (if s.discontinuity {
        seq![crate::tags::spec_render_discontinuity()]
    } else {
        Seq::<Seq<char>>::empty()
    });
    let a6 = (match s.program_date_time {
        Some(t) => seq![crate::tags::spec_render_program_date_time(t)],
        Option::None => Seq::<Seq<char>>::empty(),
    });
    let a7 = seq![crate::tags::spec_render_inf(s.inf), s.uri];
    let w6 = a6 + a7;
    let w5 = a5 + w6;
    let w4 = a4 + w5;
    let w3 = a3 + w4;
    let w2 = a2 + w3;
    lemma_seven_shape(a1, a2, a3, a4, a5, a6, a7);
    assert(seg_lines(s) == a1 + w2);
    lemma_stream_concat(a1, w2);
    lemma_stream_concat(a2, w3);
    lemma_stream_concat(a3, w4);
    lemma_stream_concat(a4, w5);
    lemma_stream_concat(a5, w6);
    lemma_stream_concat(a6, a7);
    lemma_stream_keys(s.keys);
    let e1 = key_linevs(s.keys);
    let e2 = (match s.map_tag {
        Some(m) => seq![
            LineV::Tag(TagV::ExtXMap(crate::tags::ExtXMapV { keys: Seq::empty(), ..m })),
        ],
        Option::None => Seq::<LineV>::empty(),
    });
    let e3 = (match s.byte_range {
        Some(r) => seq![LineV::Tag(TagV::ExtXByteRange(r))],
        Option::None => Seq::<LineV>::empty(),
    });
    let e4 = (match s.date_range {
        Some(t) => seq![LineV::Tag(TagV::ExtXDateRange(t))],
        Option::None => Seq::<LineV>::empty(),
    });
    let e5 = (if s.discontinuity {
        seq![LineV::Tag(TagV::ExtXDiscontinuity)]
    } else {
        Seq::<LineV>::empty()
    });
    let e6 = (match s.program_date_time {
        Some(t) => seq![LineV::Tag(TagV::ExtXProgramDateTime(t))],
        Option::None => Seq::<LineV>::empty(),
    });
    let e7 = seq![LineV::Tag(TagV::ExtInf(s.inf)), LineV::Uri(s.uri)];
    lemma_stream_map_part(s);
    assert(spec_line_stream(a2) == Result::<Seq<LineV>, ErrorKind>::Ok(e2));
    lemma_stream_byte_range_part(s);
    assert(spec_line_stream(a3) == Result::<Seq<LineV>, ErrorKind>::Ok(e3));
    lemma_stream_date_range_part(s);
    assert(spec_line_stream(a4) == Result::<Seq<LineV>, ErrorKind>::Ok(e4));
    lemma_stream_discontinuity_part(s);
    assert(spec_line_stream(a5) == Result::<Seq<LineV>, ErrorKind>::Ok(e5));
    lemma_stream_pdt_part(s);
    assert(spec_line_stream(a6) == Result::<Seq<LineV>, ErrorKind>::Ok(e6));
    // the duration line then the URI line
    crate::tags::lemma_inf_roundtrip(s.inf);
    let linf = crate::tags::spec_render_inf(s.inf);
    assert(linf[0] == '#') by {
        assert(linf[0] == "#EXTINF:"@[0]);
    }
    assert(a7 =~= seq![linf] + seq![s.uri]);
    lemma_stream_concat(seq![linf], seq![s.uri]);
    lemma_stream_single_tag(linf, TagV::ExtInf(s.inf));
    lemma_stream_single_uri(s.uri);
    assert(spec_line_stream(a7) == Result::<Seq<LineV>, ErrorKind>::Ok(
        seq![LineV::Tag(TagV::ExtInf(s.inf))] + seq![LineV::Uri(s.uri)],
    ));
    assert(seq![LineV::Tag(TagV::ExtInf(s.inf))] + seq![LineV::Uri(s.uri)] =~= e7);
    assert(spec_line_stream(seg_lines(s)) == Result::<Seq<LineV>, ErrorKind>::Ok(
        e1 + (e2 + (e3 + (e4 + (e5 + (e6 + e7))))),
    ));
    lemma_seven_shape(e1, e2, e3, e4, e5, e6, e7);
    assert(e1 + (e2 + (e3 + (e4 + (e5 + (e6 + e7))))) == seg_linevs(s));
}

/// The lines of a well-formed segment list read back as its typed lines.
pub proof fn lemma_stream_segments(segs: Seq<MediaSegmentV>)
    requires
        forall|i: int| 0 <= i < segs.len() ==> wf_segment(#[trigger] segs[i]),
    ensures
        spec_line_stream(segs_lines(segs)) == Result::<Seq<LineV>, ErrorKind>::Ok(
            segs_linevs(segs),
        ),
    decreases segs.len(),
{
    if segs.len() == 0 {
    } else {
        lemma_stream_concat(seg_lines(segs[0]), segs_lines(segs.drop_first()));
        lemma_stream_segment(segs[0]);
        assert(forall|i: int|
            0 <= i < segs.drop_first().len() ==> segs.drop_first()[i] == segs[i + 1]);
        lemma_stream_segments(segs.drop_first());
    }
}

/// Whether the key formats in a list are pairwise distinct: the
/// propagation rule keeps the active list that way.
pub open spec fn formats_unique(keys: Seq<ExtXKeyV>) -> bool {
    forall|i: int, j: int|
        0 <= i < j < keys.len() ==> (#[trigger] keys[i]).key_format != (#[trigger] keys[j]).key_format
}

/// Whether `a` is format-aligned below `b`: the active key list before a
/// segment relates this way to the segment's own key list.
pub open spec fn keys_aligned(a: Seq<ExtXKeyV>, b: Seq<ExtXKeyV>) -> bool {
    a.len() <= b.len() && forall|m: int|
        0 <= m < a.len() ==> (#[trigger] a[m]).key_format == b[m].key_format
}

/// Applying a list of keys to the active list, in order.
pub open spec fn spec_apply_all(active: Seq<ExtXKeyV>, keys: Seq<ExtXKeyV>) -> Seq<ExtXKeyV>
    decreases keys.len(),
{
    if keys.len() == 0 {
        active
    } else {
        spec_apply_all(
            crate::media_playlist::spec_apply_key(active, keys[0]),
            keys.drop_first(),
        )
    }
}

/// Once the whole aligned prefix has been replaced, each remaining key
/// appends.
pub proof fn lemma_apply_all_appends(keys: Seq<ExtXKeyV>, j: int)
    requires
        formats_unique(keys),
        0 <= j <= keys.len(),
    ensures
        spec_apply_all(keys.subrange(0, j), keys.skip(j)) == keys,
    decreases keys.len() - j,
{
    if j == keys.len() {
        assert(keys.subrange(0, j) =~= keys);
        assert(keys.skip(j) =~= Seq::<ExtXKeyV>::empty());
    } else {
        let cur = keys.subrange(0, j);
        assert(keys.skip(j)[0] == keys[j]);
        assert(forall|m: int|
            0 <= m < cur.len() ==> (#[trigger] cur[m]).key_format != keys[j].key_format);
        crate::media_playlist::lemma_apply_key_none(cur, keys[j]);
        assert(cur.push(keys[j]) =~= keys.subrange(0, j + 1));
        assert(keys.skip(j).drop_first() =~= keys.skip(j + 1));
        lemma_apply_all_appends(keys, j + 1);
    }
}

/// Applying a segment's keys over an aligned active list, key by key,
/// rebuilds exactly the segment's keys: aligned positions are replaced in
/// place, the rest append.
pub proof fn lemma_apply_all_aligned(active: Seq<ExtXKeyV>, keys: Seq<ExtXKeyV>, j: int)
    requires
        formats_unique(keys),
        keys_aligned(active, keys),
        0 <= j <= active.len(),
    ensures
        spec_apply_all(keys.subrange(0, j) + active.skip(j), keys.skip(j)) == keys,
    decreases active.len() - j,
{
    if j == active.len() {
        assert(keys.subrange(0, j) + active.skip(j) =~= keys.subrange(0, j));
        lemma_apply_all_appends(keys, j);
    } else {
        let cur = keys.subrange(0, j) + active.skip(j);
        assert(cur.len() == active.len());
        assert(cur[j] == active[j]);
        assert(cur[j].key_format == keys[j].key_format);
        assert forall|m: int| 0 <= m < j implies (#[trigger] cur[m]).key_format
            != keys[j].key_format by {
            assert(cur[m] == keys[m]);
        }
        crate::media_playlist::lemma_apply_key_at(cur, keys[j], j);
        assert(keys.skip(j)[0] == keys[j]);
        assert(cur.update(j, keys[j]) =~= keys.subrange(0, j + 1) + active.skip(j + 1));
        assert(keys.skip(j).drop_first() =~= keys.skip(j + 1));
        lemma_apply_all_aligned(active, keys, j + 1);
    }
}

/// Folding a segment's key lines updates the active list to the
/// segment's keys, when aligned.
pub proof fn lemma_fold_keys(
    keys: Seq<ExtXKeyV>,
    st: crate::media_playlist::AssemblerV,
)
    ensures
        crate::media_playlist::spec_fold_lines(key_linevs(keys), st) == Result::<
            crate::media_playlist::AssemblerV,
            ErrorKind,
        >::Ok(
            crate::media_playlist::AssemblerV {
                active_keys: spec_apply_all(st.active_keys, keys),
                has_partial: if keys.len() > 0 {
                    true
                } else {
                    st.has_partial
                },
                ..st
            },
        ),
    decreases keys.len(),
{
    if keys.len() == 0 {
        assert(key_linevs(keys) =~= Seq::<LineV>::empty());
        assert(crate::media_playlist::AssemblerV {
            active_keys: spec_apply_all(st.active_keys, keys),
            has_partial: st.has_partial,
            ..st
        } == st);
    } else {
        let l0 = LineV::Tag(TagV::ExtXKey(keys[0]));
        assert(key_linevs(keys)[0] == l0);
        assert(key_linevs(keys).drop_first() =~= key_linevs(keys.drop_first()));
        let st2 = crate::media_playlist::AssemblerV {
            active_keys: crate::media_playlist::spec_apply_key(st.active_keys, keys[0]),
            has_partial: true,
            ..st
        };
        assert(crate::media_playlist::spec_assemble_step(st, l0) == Result::<
            crate::media_playlist::AssemblerV,
            ErrorKind,
        >::Ok(st2));
        lemma_fold_keys(keys.drop_first(), st2);
    }
}

/// Folding one line takes one step.
pub proof fn lemma_fold_single(l: LineV, st: crate::media_playlist::AssemblerV)
    ensures
        crate::media_playlist::spec_fold_lines(seq![l], st) == (
        match crate::media_playlist::spec_assemble_step(st, l) {
            Ok(x) => Result::<crate::media_playlist::AssemblerV, ErrorKind>::Ok(x),
            Err(e) => Result::<crate::media_playlist::AssemblerV, ErrorKind>::Err(e),
        }),
{
    assert(seq![l][0] == l);
    assert(seq![l].drop_first() =~= Seq::<LineV>::empty());
    match crate::media_playlist::spec_assemble_step(st, l) {
        Ok(x) => {
            assert(crate::media_playlist::spec_fold_lines(Seq::<LineV>::empty(), x) == Result::<
                crate::media_playlist::AssemblerV,
                ErrorKind,
            >::Ok(x));
        },
        Err(_) => {},
    }
}

/// Folding a segment's lines after its key lines: the tag lines fill the
/// pending segment, and the URI line finishes it.
#[verifier::rlimit(100)]
proof fn lemma_fold_segment_tail(s: MediaSegmentV, st1: crate::media_playlist::AssemblerV)
    requires
        st1.pending == crate::media_segment::MediaSegmentBuilder::empty_view(),
        st1.active_keys == s.keys,
        wf_segment(s),
    ensures
        ({
            let e2 = (match s.map_tag {
                Some(m) => seq![
                    LineV::Tag(
                        TagV::ExtXMap(crate::tags::ExtXMapV { keys: Seq::empty(), ..m }),
                    ),
                ],
                Option::None => Seq::<LineV>::empty(),
            });
            let e3 = (match s.byte_range {
                Some(r) => seq![LineV::Tag(TagV::ExtXByteRange(r))],
                Option::None => Seq::<LineV>::empty(),
            });
            let e4 = (match s.date_range {
                Some(t) => seq![LineV::Tag(TagV::ExtXDateRange(t))],
                Option::None => Seq::<LineV>::empty(),
            });
            let e5 = (if s.discontinuity {
                seq![LineV::Tag(TagV::ExtXDiscontinuity)]
            } else {
                Seq::<LineV>::empty()
            });
            let e6 = (match s.program_date_time {
                Some(t) => seq![LineV::Tag(TagV::ExtXProgramDateTime(t))],
                Option::None => Seq::<LineV>::empty(),
            });
            let e7 = seq![LineV::Tag(TagV::ExtInf(s.inf)), LineV::Uri(s.uri)];
            crate::media_playlist::spec_fold_lines(e2 + (e3 + (e4 + (e5 + (e6 + e7)))), st1)
                == Result::<crate::media_playlist::AssemblerV, ErrorKind>::Ok(
                crate::media_playlist::AssemblerV {
                    b: crate::media_playlist::MediaPlaylistBuilderV {
                        segments: st1.b.segments.push(s),
                        ..st1.b
                    },
                    pending: crate::media_segment::MediaSegmentBuilder::empty_view(),
                    has_partial: false,
                    has_discontinuity: st1.has_discontinuity || s.discontinuity,
                    active_keys: s.keys,
                },
            )
        }),
{
    let e2 = (match s.map_tag {
        Some(m) => seq![
            LineV::Tag(TagV::ExtXMap(crate::tags::ExtXMapV { keys: Seq::empty(), ..m })),
        ],
        Option::None => Seq::<LineV>::empty(),
    });
    let e3 = (match s.byte_range {
        Some(r) => seq![LineV::Tag(TagV::ExtXByteRange(r))],
        Option::None => Seq::<LineV>::empty(),
    });
    let e4 = (match s.date_range {
        Some(t) => seq![LineV::Tag(TagV::ExtXDateRange(t))],
        Option::None => Seq::<LineV>::empty(),
    });
    let e5 = (if s.discontinuity {
        seq![LineV::Tag(TagV::ExtXDiscontinuity)]
    } else {
        Seq::<LineV>::empty()
    });
    let e6 = (match s.program_date_time {
        Some(t) => seq![LineV::Tag(TagV::ExtXProgramDateTime(t))],
        Option::None => Seq::<LineV>::empty(),
    });
    let e7 = seq![LineV::Tag(TagV::ExtInf(s.inf)), LineV::Uri(s.uri)];
    let w6 = e6 + e7;
    let w5 = e5 + w6;
    let w4 = e4 + w5;
    let w3 = e3 + w4;
    crate::media_playlist::lemma_fold_lines_concat(e2, w3, st1);
    let st2 = (match crate::media_playlist::spec_fold_lines(e2, st1) {
        Ok(x) => x,
        Err(_) => st1,
    });
    match s.map_tag {
        Some(m) => {
            lemma_fold_single(
                LineV::Tag(
                    TagV::ExtXMap(crate::tags::ExtXMapV { keys: Seq::empty(), ..m }),
                ),
                st1,
            );
        },
        Option::None => {},
    }
    assert(crate::media_playlist::spec_fold_lines(e2, st1) == Result::<
        crate::media_playlist::AssemblerV,
        ErrorKind,
    >::Ok(st2));
    crate::media_playlist::lemma_fold_lines_concat(e3, w4, st2);
    let st3 = (match crate::media_playlist::spec_fold_lines(e3, st2) {
        Ok(x) => x,
        Err(_) => st2,
    });
    match s.byte_range {
        Some(r) => {
            lemma_fold_single(LineV::Tag(TagV::ExtXByteRange(r)), st2);
        },
        Option::None => {},
    }
    assert(crate::media_playlist::spec_fold_lines(e3, st2) == Result::<
        crate::media_playlist::AssemblerV,
        ErrorKind,
    >::Ok(st3));
    crate::media_playlist::lemma_fold_lines_concat(e4, w5, st3);
    let st4 = (match crate::media_playlist::spec_fold_lines(e4, st3) {
        Ok(x) => x,
        Err(_) => st3,
    });
    match s.date_range {
        Some(t) => {
            lemma_fold_single(LineV::Tag(TagV::ExtXDateRange(t)), st3);
        },
        Option::None => {},
    }
    assert(crate::media_playlist::spec_fold_lines(e4, st3) == Result::<
        crate::media_playlist::AssemblerV,
        ErrorKind,
    >::Ok(st4));
    crate::media_playlist::lemma_fold_lines_concat(e5, w6, st4);
    let st5 = (match crate::media_playlist::spec_fold_lines(e5, st4) {
        Ok(x) => x,
        Err(_) => st4,
    });
    if s.discontinuity {
        lemma_fold_single(LineV::Tag(TagV::ExtXDiscontinuity), st4);
    }
    assert(crate::media_playlist::spec_fold_lines(e5, st4) == Result::<
        crate::media_playlist::AssemblerV,
        ErrorKind,
    >::Ok(st5));
    crate::media_playlist::lemma_fold_lines_concat(e6, e7, st5);
    let st6 = (match crate::media_playlist::spec_fold_lines(e6, st5) {
        Ok(x) => x,
        Err(_) => st5,
    });
    match s.program_date_time {
        Some(t) => {
            lemma_fold_single(LineV::Tag(TagV::ExtXProgramDateTime(t)), st5);
        },
        Option::None => {},
    }
    assert(crate::media_playlist::spec_fold_lines(e6, st5) == Result::<
        crate::media_playlist::AssemblerV,
        ErrorKind,
    >::Ok(st6));
    // the duration line, then the URI line that finishes the segment
    assert(e7[0] == LineV::Tag(TagV::ExtInf(s.inf)));
    assert(e7.drop_first() =~= seq![LineV::Uri(s.uri)]);
    let st7 = (match crate::media_playlist::spec_assemble_step(st6, e7[0]) {
        Ok(x) => x,
        Err(_) => st6,
    });
    assert(crate::media_playlist::spec_assemble_step(st6, e7[0]) == Result::<
        crate::media_playlist::AssemblerV,
        ErrorKind,
    >::Ok(st7));
    let pb = crate::media_segment::MediaSegmentBuilderV {
        keys: st7.active_keys,
        uri: Some(s.uri),
        ..st7.pending
    };
    assert(st7.pending.inf == Some(s.inf));
    match s.map_tag {
        Some(m) => {
            assert(st7.pending.map_tag == Some(
                crate::tags::ExtXMapV { keys: s.keys, ..m },
            ));
            assert(crate::tags::ExtXMapV { keys: s.keys, ..m } == m);
        },
        Option::None => {},
    }
    assert(crate::media_segment::MediaSegmentBuilder::spec_build(pb) == Result::<
        MediaSegmentV,
        ErrorKind,
    >::Ok(s));
    lemma_fold_single(LineV::Uri(s.uri), st7);
    let st8 = (match crate::media_playlist::spec_assemble_step(st7, LineV::Uri(s.uri)) {
        Ok(x) => x,
        Err(_) => st7,
    });
    assert(crate::media_playlist::spec_assemble_step(st7, LineV::Uri(s.uri)) == Result::<
        crate::media_playlist::AssemblerV,
        ErrorKind,
    >::Ok(st8));
    let fin = crate::media_playlist::AssemblerV {
        b: crate::media_playlist::MediaPlaylistBuilderV {
            segments: st1.b.segments.push(s),
            ..st1.b
        },
        pending: crate::media_segment::MediaSegmentBuilder::empty_view(),
        has_partial: false,
        has_discontinuity: st1.has_discontinuity || s.discontinuity,
        active_keys: s.keys,
    };
    assert(st8 == fin);
    // chain the folds back up to the whole tail
    assert(crate::media_playlist::spec_fold_lines(seq![LineV::Uri(s.uri)], st7) == Result::<
        crate::media_playlist::AssemblerV,
        ErrorKind,
    >::Ok(st8));
    assert(crate::media_playlist::spec_fold_lines(e7, st6) == Result::<
        crate::media_playlist::AssemblerV,
        ErrorKind,
    >::Ok(st8));
    assert(crate::media_playlist::spec_fold_lines(w6, st5) == Result::<
        crate::media_playlist::AssemblerV,
        ErrorKind,
    >::Ok(st8));
    assert(crate::media_playlist::spec_fold_lines(w5, st4) == Result::<
        crate::media_playlist::AssemblerV,
        ErrorKind,
    >::Ok(st8));
    assert(crate::media_playlist::spec_fold_lines(w4, st3) == Result::<
        crate::media_playlist::AssemblerV,
        ErrorKind,
    >::Ok(st8));
    assert(crate::media_playlist::spec_fold_lines(w3, st2) == Result::<
        crate::media_playlist::AssemblerV,
        ErrorKind,
    >::Ok(st8));
    assert(crate::media_playlist::spec_fold_lines(e2 + w3, st1) == Result::<
        crate::media_playlist::AssemblerV,
        ErrorKind,
    >::Ok(st8));
}

/// Folding a segment's typed lines over a state with no pending segment
/// appends exactly that segment, leaves the active keys at the segment's
/// keys, and remembers its discontinuity marker.
#[verifier::rlimit(100)]
pub proof fn lemma_fold_segment(s: MediaSegmentV, st: crate::media_playlist::AssemblerV)
    requires
        st.pending == crate::media_segment::MediaSegmentBuilder::empty_view(),
        wf_segment(s),
        formats_unique(s.keys),
        keys_aligned(st.active_keys, s.keys),
    ensures
        crate::media_playlist::spec_fold_lines(seg_linevs(s), st) == Result::<
            crate::media_playlist::AssemblerV,
            ErrorKind,
        >::Ok(
            crate::media_playlist::AssemblerV {
                b: crate::media_playlist::MediaPlaylistBuilderV {
                    segments: st.b.segments.push(s),
                    ..st.b
                },
                pending: crate::media_segment::MediaSegmentBuilder::empty_view(),
                has_partial: false,
                has_discontinuity: st.has_discontinuity || s.discontinuity,
                active_keys: s.keys,
            },
        ),
{
    let e1 = key_linevs(s.keys);
    let e2 = (match s.map_tag {
        Some(m) => seq![
            LineV::Tag(TagV::ExtXMap(crate::tags::ExtXMapV { keys: Seq::empty(), ..m })),
        ],
        Option::None => Seq::<LineV>::empty(),
    });
    let e3 = (match s.byte_range {
        Some(r) => seq![LineV::Tag(TagV::ExtXByteRange(r))],
        Option::None => Seq::<LineV>::empty(),
    });
    let e4 = (match s.date_range {
        Some(t) => seq![LineV::Tag(TagV::ExtXDateRange(t))],
        Option::None => Seq::<LineV>::empty(),
    });
    let e5 = (if s.discontinuity {
        seq![LineV::Tag(TagV::ExtXDiscontinuity)]
    } else {
        Seq::<LineV>::empty()
    });
    let e6 = (match s.program_date_time {
        Some(t) => seq![LineV::Tag(TagV::ExtXProgramDateTime(t))],
        Option::None => Seq::<LineV>::empty(),
    });
    let e7 = seq![LineV::Tag(TagV::ExtInf(s.inf)), LineV::Uri(s.uri)];
    let w2 = e2 + (e3 + (e4 + (e5 + (e6 + e7))));
    lemma_seven_shape(e1, e2, e3, e4, e5, e6, e7);
    assert(seg_linevs(s) == e1 + w2);
    crate::media_playlist::lemma_fold_lines_concat(e1, w2, st);
    lemma_fold_keys(s.keys, st);
    lemma_apply_all_aligned(st.active_keys, s.keys, 0);
    assert(s.keys.subrange(0, 0) + st.active_keys.skip(0) =~= st.active_keys);
    assert(s.keys.skip(0) =~= s.keys);
    assert(spec_apply_all(st.active_keys, s.keys) == s.keys);
    let st1 = crate::media_playlist::AssemblerV {
        active_keys: s.keys,
        has_partial: if s.keys.len() > 0 {
            true
        } else {
            st.has_partial
        },
        ..st
    };
    assert(crate::media_playlist::spec_fold_lines(e1, st) == Result::<
        crate::media_playlist::AssemblerV,
        ErrorKind,
    >::Ok(st1));
    lemma_fold_segment_tail(s, st1);
}

/// The chain condition over a segment list/// The chain condition over a segment list: every segment's key formats
/// are pairwise distinct, and each segment's key list is format-aligned
/// below the next one's, starting from the given active list.
pub open spec fn keys_chained(active: Seq<ExtXKeyV>, segs: Seq<MediaSegmentV>) -> bool
    decreases segs.len(),
{
    if segs.len() == 0 {
        true
    } else {
        formats_unique(segs[0].keys) && keys_aligned(active, segs[0].keys) && keys_chained(
            segs[0].keys,
            segs.drop_first(),
        )
    }
}

/// Folding a segment list's typed lines appends exactly those segments.
pub proof fn lemma_fold_segments(segs: Seq<MediaSegmentV>, st: crate::media_playlist::AssemblerV)
    requires
        st.pending == crate::media_segment::MediaSegmentBuilder::empty_view(),
        forall|i: int| 0 <= i < segs.len() ==> wf_segment(#[trigger] segs[i]),
        keys_chained(st.active_keys, segs),
    ensures
        ({
            let r = crate::media_playlist::spec_fold_lines(segs_linevs(segs), st);
            match r {
                Ok(st2) => {
                    &&& st2.b == crate::media_playlist::MediaPlaylistBuilderV {
                        segments: st.b.segments + segs,
                        ..st.b
                    }
                    &&& st2.pending == crate::media_segment::MediaSegmentBuilder::empty_view()
                    &&& st2.has_partial == false || (segs.len() == 0 && st2.has_partial
                        == st.has_partial)
                    &&& st2 == crate::media_playlist::AssemblerV {
                        b: crate::media_playlist::MediaPlaylistBuilderV {
                            segments: st.b.segments + segs,
                            ..st.b
                        },
                        pending: st2.pending,
                        has_partial: st2.has_partial,
                        has_discontinuity: st2.has_discontinuity,
                        active_keys: st2.active_keys,
                    }
                    &&& (segs.len() > 0 ==> st2.has_partial == false)
                    &&& (segs.len() == 0 ==> st2 == st)
                },
                Err(_) => false,
            }
        }),
    decreases segs.len(),
{
    if segs.len() == 0 {
        assert(segs_linevs(segs) =~= Seq::<LineV>::empty());
        assert(st.b.segments + segs =~= st.b.segments);
        assert(st.b == crate::media_playlist::MediaPlaylistBuilderV {
            segments: st.b.segments + segs,
            ..st.b
        });
    } else {
        crate::media_playlist::lemma_fold_lines_concat(
            seg_linevs(segs[0]),
            segs_linevs(segs.drop_first()),
            st,
        );
        lemma_fold_segment(segs[0], st);
        let st1 = crate::media_playlist::AssemblerV {
            b: crate::media_playlist::MediaPlaylistBuilderV {
                segments: st.b.segments.push(segs[0]),
                ..st.b
            },
            pending: crate::media_segment::MediaSegmentBuilder::empty_view(),
            has_partial: false,
            has_discontinuity: st.has_discontinuity || segs[0].discontinuity,
            active_keys: segs[0].keys,
        };
        assert(forall|i: int|
            0 <= i < segs.drop_first().len() ==> segs.drop_first()[i] == segs[i + 1]);
        lemma_fold_segments(segs.drop_first(), st1);
        assert(st.b.segments.push(segs[0]) + segs.drop_first() =~= st.b.segments + segs);
        if segs.len() == 1 {
            assert(segs.drop_first().len() == 0);
        }
    }
}

/// Concatenation regrouped for eleven-part lists.
#[verifier::rlimit(100)]
pub proof fn lemma_eleven_shape<A>(
    b1: Seq<A>,
    b2: Seq<A>,
    b3: Seq<A>,
    b4: Seq<A>,
    b5: Seq<A>,
    b6: Seq<A>,
    b7: Seq<A>,
    b8: Seq<A>,
    b9: Seq<A>,
    b10: Seq<A>,
    b11: Seq<A>,
)
    ensures
        b1 + b2 + b3 + b4 + b5 + b6 + b7 + b8 + b9 + b10 + b11 == b1 + (b2 + (b3 + (b4 + (b5 + (
        b6 + (b7 + (b8 + (b9 + (b10 + b11))))))))),
{
    assert(b1 + b2 + b3 + b4 + b5 + b6 + b7 + b8 + b9 + b10 + b11 =~= b1 + (b2 + (b3 + (b4 + (b5
        + (b6 + (b7 + (b8 + (b9 + (b10 + b11))))))))));
}

/// What a playlist must keep clear of for its text to read back as
/// itself: whole-second target duration, a representable start offset,
/// well-formed segments with consistently chained key formats, segments
/// that pass validation, and rendered lines that are line-shaped.
pub open spec fn wf_playlist(p: crate::media_playlist::MediaPlaylistV) -> bool {
    &&& p.target_duration_millis % 1000 == 0
    &&& match p.start {
        Some(st) => st.time_offset_millis > i64::MIN,
        Option::None => true,
    }
    &&& forall|i: int| 0 <= i < p.segments.len() ==> wf_segment(#[trigger] p.segments[i])
    &&& keys_chained(Seq::empty(), p.segments)
    &&& crate::media_playlist::spec_validate_segments(
        p.segments,
        p.target_duration_millis,
        p.allowable_excess_millis,
        Option::None,
    ) is Ok
    &&& forall|i: int|
        0 <= i < playlist_lines(p).len() ==> wf_doc_line(#[trigger] playlist_lines(p)[i])
}

/// The draft the round trip parses over: nothing set but the tolerance,
/// which must match the playlist's own.
pub open spec fn roundtrip_builder(p: crate::media_playlist::MediaPlaylistV)
    -> crate::media_playlist::MediaPlaylistBuilderV {
    crate::media_playlist::MediaPlaylistBuilderV {
        allowable_excess_millis: p.allowable_excess_millis,
        ..crate::media_playlist::MediaPlaylistBuilder::empty_view()
    }
}

/// The first document-level lines of a playlist read back as their tags:
/// the marker, the version directive, the target duration, the
/// media-sequence and discontinuity-sequence numbers.
#[verifier::rlimit(100)]
proof fn lemma_stream_doc_head(p: crate::media_playlist::MediaPlaylistV)
    requires
        wf_playlist(p),
    ensures
        spec_line_stream(seq![crate::tags::spec_render_extm3u()]) == Result::<
            Seq<LineV>,
            ErrorKind,
        >::Ok(seq![LineV::Tag(TagV::ExtM3u)]),
        ({
            let rv = crate::media_playlist::spec_playlist_required_version(p);
            spec_line_stream(
                if rv != crate::types::ProtocolVersion::V1 {
                    seq![crate::tags::spec_render_version(rv)]
                } else {
                    Seq::<Seq<char>>::empty()
                },
            ) == Result::<Seq<LineV>, ErrorKind>::Ok(
                if rv != crate::types::ProtocolVersion::V1 {
                    seq![LineV::Tag(TagV::ExtXVersion(rv))]
                } else {
                    Seq::<LineV>::empty()
                },
            )
        }),
        spec_line_stream(
            seq![crate::tags::spec_render_target_duration(p.target_duration_millis)],
        ) == Result::<Seq<LineV>, ErrorKind>::Ok(
            seq![LineV::Tag(TagV::ExtXTargetDuration(p.target_duration_millis))],
        ),
        spec_line_stream(
            match p.media_sequence {
                Some(n) => seq![crate::tags::spec_render_media_sequence(n)],
                Option::None => Seq::<Seq<char>>::empty(),
            },
        ) == Result::<Seq<LineV>, ErrorKind>::Ok(
            match p.media_sequence {
                Some(n) => seq![LineV::Tag(TagV::ExtXMediaSequence(n))],
                Option::None => Seq::<LineV>::empty(),
            },
        ),
        spec_line_stream(
            match p.discontinuity_sequence {
                Some(n) => seq![crate::tags::spec_render_discontinuity_sequence(n)],
                Option::None => Seq::<Seq<char>>::empty(),
            },
        ) == Result::<Seq<LineV>, ErrorKind>::Ok(
            match p.discontinuity_sequence {
                Some(n) => seq![LineV::Tag(TagV::ExtXDiscontinuitySequence(n))],
                Option::None => Seq::<LineV>::empty(),
            },
        ),
{
    reveal_strlit("#EXTM3U");
    reveal_strlit("#EXT-X-VERSION:");
    reveal_strlit("#EXT-X-TARGETDURATION:");
    reveal_strlit("#EXT-X-MEDIA-SEQUENCE:");
    reveal_strlit("#EXT-X-DISCONTINUITY-SEQUENCE:");
    let rv = crate::media_playlist::spec_playlist_required_version(p);
    crate::tags::lemma_extm3u_roundtrip();
    assert(crate::tags::spec_render_extm3u()[0] == '#') by {
        assert(crate::tags::spec_render_extm3u()[0] == "#EXTM3U"@[0]);
    }
    lemma_stream_single_tag(crate::tags::spec_render_extm3u(), TagV::ExtM3u);
    if rv != crate::types::ProtocolVersion::V1 {
        crate::tags::lemma_version_roundtrip(rv);
        let l = crate::tags::spec_render_version(rv);
        assert(l[0] == '#') by {
            assert(l[0] == "#EXT-X-VERSION:"@[0]);
        }
        lemma_stream_single_tag(l, TagV::ExtXVersion(rv));
    }
    crate::tags::lemma_target_duration_roundtrip(p.target_duration_millis);
    let ltd = crate::tags::spec_render_target_duration(p.target_duration_millis);
    assert(ltd[0] == '#') by {
        assert(ltd[0] == "#EXT-X-TARGETDURATION:"@[0]);
    }
    lemma_stream_single_tag(ltd, TagV::ExtXTargetDuration(p.target_duration_millis));
    match p.media_sequence {
        Some(n) => {
            crate::tags::lemma_media_sequence_roundtrip(n);
            let l = crate::tags::spec_render_media_sequence(n);
            assert(l[0] == '#') by {
                assert(l[0] == "#EXT-X-MEDIA-SEQUENCE:"@[0]);
            }
            lemma_stream_single_tag(l, TagV::ExtXMediaSequence(n));
        },
        Option::None => {},
    }
    match p.discontinuity_sequence {
        Some(n) => {
            crate::tags::lemma_discontinuity_sequence_roundtrip(n);
            let l = crate::tags::spec_render_discontinuity_sequence(n);
            assert(l[0] == '#') by {
                assert(l[0] == "#EXT-X-DISCONTINUITY-SEQUENCE:"@[0]);
            }
            lemma_stream_single_tag(l, TagV::ExtXDiscontinuitySequence(n));
        },
        Option::None => {},
    }
}

/// The remaining document-level lines of a playlist read back as their
/// tags: the playlist type, the two flag tags, the start tag and the
/// end-list tag.
#[verifier::rlimit(100)]
proof fn lemma_stream_doc_tail(p: crate::media_playlist::MediaPlaylistV)
    requires
        wf_playlist(p),
    ensures
        spec_line_stream(
            match p.playlist_type {
                Some(t) => seq![crate::tags::spec_render_playlist_type(t)],
                Option::None => Seq::<Seq<char>>::empty(),
            },
        ) == Result::<Seq<LineV>, ErrorKind>::Ok(
            match p.playlist_type {
                Some(t) => seq![LineV::Tag(TagV::ExtXPlaylistType(t))],
                Option::None => Seq::<LineV>::empty(),
            },
        ),
        spec_line_stream(
            if p.i_frames_only {
                seq![crate::tags::spec_render_i_frames_only()]
            } else {
                Seq::<Seq<char>>::empty()
            },
        ) == Result::<Seq<LineV>, ErrorKind>::Ok(
            if p.i_frames_only {
                seq![LineV::Tag(TagV::ExtXIFramesOnly)]
            } else {
                Seq::<LineV>::empty()
            },
        ),
        spec_line_stream(
            if p.independent_segments {
                seq![crate::tags::spec_render_independent_segments()]
            } else {
                Seq::<Seq<char>>::empty()
            },
        ) == Result::<Seq<LineV>, ErrorKind>::Ok(
            if p.independent_segments {
                seq![LineV::Tag(TagV::ExtXIndependentSegments)]
            } else {
                Seq::<LineV>::empty()
            },
        ),
        spec_line_stream(
            match p.start {
                Some(st) => seq![crate::tags::spec_render_start(st)],
                Option::None => Seq::<Seq<char>>::empty(),
            },
        ) == Result::<Seq<LineV>, ErrorKind>::Ok(
            match p.start {
                Some(st) => seq![LineV::Tag(TagV::ExtXStart(st))],
                Option::None => Seq::<LineV>::empty(),
            },
        ),
        spec_line_stream(
            if p.end_list {
                seq![crate::tags::spec_render_end_list()]
            } else {
                Seq::<Seq<char>>::empty()
            },
        ) == Result::<Seq<LineV>, ErrorKind>::Ok(
            if p.end_list {
                seq![LineV::Tag(TagV::ExtXEndList)]
            } else {
                Seq::<LineV>::empty()
            },
        ),
{
    reveal_strlit("#EXT-X-PLAYLIST-TYPE:");
    reveal_strlit("#EXT-X-I-FRAMES-ONLY");
    reveal_strlit("#EXT-X-INDEPENDENT-SEGMENTS");
    reveal_strlit("#EXT-X-START:");
    reveal_strlit("#EXT-X-ENDLIST");
    match p.playlist_type {
        Some(t) => {
            crate::tags::lemma_playlist_type_roundtrip(t);
            let l = crate::tags::spec_render_playlist_type(t);
            assert(l[0] == '#') by {
                assert(l[0] == "#EXT-X-PLAYLIST-TYPE:"@[0]);
            }
            lemma_stream_single_tag(l, TagV::ExtXPlaylistType(t));
        },
        Option::None => {},
    }
    if p.i_frames_only {
        crate::tags::lemma_i_frames_only_roundtrip();
        let l = crate::tags::spec_render_i_frames_only();
        assert(l[0] == '#') by {
            assert(l[0] == "#EXT-X-I-FRAMES-ONLY"@[0]);
        }
        lemma_stream_single_tag(l, TagV::ExtXIFramesOnly);
    }
    if p.independent_segments {
        crate::tags::lemma_independent_segments_roundtrip();
        let l = crate::tags::spec_render_independent_segments();
        assert(l[0] == '#') by {
            assert(l[0] == "#EXT-X-INDEPENDENT-SEGMENTS"@[0]);
        }
        lemma_stream_single_tag(l, TagV::ExtXIndependentSegments);
    }
    match p.start {
        Some(st) => {
            crate::tags::lemma_start_roundtrip(st);
            let l = crate::tags::spec_render_start(st);
            assert(l[0] == '#') by {
                assert(l[0] == "#EXT-X-START:"@[0]);
            }
            lemma_stream_single_tag(l, TagV::ExtXStart(st));
        },
        Option::None => {},
    }
    if p.end_list {
        crate::tags::lemma_end_list_roundtrip();
        let l = crate::tags::spec_render_end_list();
        assert(l[0] == '#') by {
            assert(l[0] == "#EXT-X-ENDLIST"@[0]);
        }
        lemma_stream_single_tag(l, TagV::ExtXEndList);
    }
}

/// The lines of a well-formed playlist read back as its typed lines.
#[verifier::rlimit(100)]
pub proof fn lemma_stream_playlist(p: crate::media_playlist::MediaPlaylistV)
    requires
        wf_playlist(p),
    ensures
        spec_line_stream(playlist_lines(p)) == Result::<Seq<LineV>, ErrorKind>::Ok(
            playlist_linevs(p),
        ),
{
    let rv = crate::media_playlist::spec_playlist_required_version(p);
    let b1 = seq![crate::tags::spec_render_extm3u()];
    let b2 = (if rv != crate::types::ProtocolVersion::V1 {
        seq![crate::tags::spec_render_version(rv)]
    } else {
        Seq::<Seq<char>>::empty()
    });
    let b3 = seq![crate::tags::spec_render_target_duration(p.target_duration_millis)];
    let b4 = (match p.media_sequence {
        Some(n) => seq![crate::tags::spec_render_media_sequence(n)],
        Option::None => Seq::<Seq<char>>::empty(),
    });
    let b5 = (match p.discontinuity_sequence {
        Some(n) => seq![crate::tags::spec_render_discontinuity_sequence(n)],
        Option::None => Seq::<Seq<char>>::empty(),
    });
    let b6 = (match p.playlist_type {
        Some(t) => seq![crate::tags::spec_render_playlist_type(t)],
        Option::None => Seq::<Seq<char>>::empty(),
    });
    let b7 = (if p.i_frames_only {
        seq![crate::tags::spec_render_i_frames_only()]
    } else {
        Seq::<Seq<char>>::empty()
    });
    let b8 = (if p.independent_segments {
        seq![crate::tags::spec_render_independent_segments()]
    } else {
        Seq::<Seq<char>>::empty()
    });
    let b9 = (match p.start {
        Some(st) => seq![crate::tags::spec_render_start(st)],
        Option::None => Seq::<Seq<char>>::empty(),
    });
    let b10 = segs_lines(p.segments);
    let b11 = (if p.end_list {
        seq![crate::tags::spec_render_end_list()]
    } else {
        Seq::<Seq<char>>::empty()
    });
    let e1 = seq![LineV::Tag(TagV::ExtM3u)];
    let e2 = (if rv != crate::types::ProtocolVersion::V1 {
        seq![LineV::Tag(TagV::ExtXVersion(rv))]
    } else {
        Seq::<LineV>::empty()
    });
    let e3 = seq![LineV::Tag(TagV::ExtXTargetDuration(p.target_duration_millis))];
    let e4 = (match p.media_sequence {
        Some(n) => seq![LineV::Tag(TagV::ExtXMediaSequence(n))],
        Option::None => Seq::<LineV>::empty(),
    });
    let e5 = (match p.discontinuity_sequence {
        Some(n) => seq![LineV::Tag(TagV::ExtXDiscontinuitySequence(n))],
        Option::None => Seq::<LineV>::empty(),
    });
    let e6 = (match p.playlist_type {
        Some(t) => seq![LineV::Tag(TagV::ExtXPlaylistType(t))],
        Option::None => Seq::<LineV>::empty(),
    });
    let e7 = (if p.i_frames_only {
        seq![LineV::Tag(TagV::ExtXIFramesOnly)]
    } else {
        Seq::<LineV>::empty()
    });
    let e8 = (if p.independent_segments {
        seq![LineV::Tag(TagV::ExtXIndependentSegments)]
    } else {
        Seq::<LineV>::empty()
    });
    let e9 = (match p.start {
        Some(st) => seq![LineV::Tag(TagV::ExtXStart(st))],
        Option::None => Seq::<LineV>::empty(),
    });
    let e10 = segs_linevs(p.segments);
    let e11 = (if p.end_list {
        seq![LineV::Tag(TagV::ExtXEndList)]
    } else {
        Seq::<LineV>::empty()
    });
    lemma_stream_doc_head(p);
    lemma_stream_doc_tail(p);
    lemma_stream_segments(p.segments);
    let w10 = b10 + b11;
    let w9 = b9 + w10;
    let w8 = b8 + w9;
    let w7 = b7 + w8;
    let w6 = b6 + w7;
    let w5 = b5 + w6;
    let w4 = b4 + w5;
    let w3 = b3 + w4;
    let w2 = b2 + w3;
    lemma_lines_shape(b1, b2, b3, b4, b5, b6, b7, b8, b9, b10, b11);
    assert(playlist_lines(p) == b1 + w2);
    lemma_stream_concat(b1, w2);
    lemma_stream_concat(b2, w3);
    lemma_stream_concat(b3, w4);
    lemma_stream_concat(b4, w5);
    lemma_stream_concat(b5, w6);
    lemma_stream_concat(b6, w7);
    lemma_stream_concat(b7, w8);
    lemma_stream_concat(b8, w9);
    lemma_stream_concat(b9, w10);
    lemma_stream_concat(b10, b11);
    assert(spec_line_stream(playlist_lines(p)) == Result::<Seq<LineV>, ErrorKind>::Ok(
        e1 + (e2 + (e3 + (e4 + (e5 + (e6 + (e7 + (e8 + (e9 + (e10 + e11))))))))),
    ));
    lemma_eleven_shape(e1, e2, e3, e4, e5, e6, e7, e8, e9, e10, e11);
    assert(e1 + (e2 + (e3 + (e4 + (e5 + (e6 + (e7 + (e8 + (e9 + (e10 + e11)))))))))
        == playlist_linevs(p));
}

/// The assembler's state once the document-level lines before the
/// segments have been folded.
pub open spec fn doc_state(p: crate::media_playlist::MediaPlaylistV)
    -> crate::media_playlist::AssemblerV {
    crate::media_playlist::AssemblerV {
        b: crate::media_playlist::MediaPlaylistBuilderV {
            target_duration_millis: Some(p.target_duration_millis),
            media_sequence: p.media_sequence,
            discontinuity_sequence: Option::None,
            playlist_type: p.playlist_type,
            i_frames_only: p.i_frames_only,
            independent_segments: p.independent_segments,
            start: p.start,
            end_list: false,
            segments: Seq::empty(),
            allowable_excess_millis: p.allowable_excess_millis,
        },
        pending: crate::media_segment::MediaSegmentBuilder::empty_view(),
        has_partial: false,
        has_discontinuity: false,
        active_keys: Seq::empty(),
    }
}

/// Folding the document-level lines before the segments sets exactly the
/// playlist's document fields, whatever lines follow.
#[verifier::rlimit(100)]
proof fn lemma_fold_doc_prefix(p: crate::media_playlist::MediaPlaylistV, rest: Seq<LineV>)
    requires
        p.discontinuity_sequence is None,
    ensures
        ({
            let rv = crate::media_playlist::spec_playlist_required_version(p);
            let e2 = (if rv != crate::types::ProtocolVersion::V1 {
                seq![LineV::Tag(TagV::ExtXVersion(rv))]
            } else {
                Seq::<LineV>::empty()
            });
            let e3 = seq![LineV::Tag(TagV::ExtXTargetDuration(p.target_duration_millis))];
            let e4 = (match p.media_sequence {
                Some(n) => seq![LineV::Tag(TagV::ExtXMediaSequence(n))],
                Option::None => Seq::<LineV>::empty(),
            });
            let e5 = Seq::<LineV>::empty();
            let e6 = (match p.playlist_type {
                Some(t) => seq![LineV::Tag(TagV::ExtXPlaylistType(t))],
                Option::None => Seq::<LineV>::empty(),
            });
            let e7 = (if p.i_frames_only {
                seq![LineV::Tag(TagV::ExtXIFramesOnly)]
            } else {
                Seq::<LineV>::empty()
            });
            let e8 = (if p.independent_segments {
                seq![LineV::Tag(TagV::ExtXIndependentSegments)]
            } else {
                Seq::<LineV>::empty()
            });
            let e9 = (match p.start {
                Some(st) => seq![LineV::Tag(TagV::ExtXStart(st))],
                Option::None => Seq::<LineV>::empty(),
            });
            crate::media_playlist::spec_fold_lines(
                e2 + (e3 + (e4 + (e5 + (e6 + (e7 + (e8 + (e9 + rest))))))),
                crate::media_playlist::asm_init(roundtrip_builder(p)),
            ) == crate::media_playlist::spec_fold_lines(rest, doc_state(p))
        }),
{
    let rv = crate::media_playlist::spec_playlist_required_version(p);
    let e2 = (if rv != crate::types::ProtocolVersion::V1 {
        seq![LineV::Tag(TagV::ExtXVersion(rv))]
    } else {
        Seq::<LineV>::empty()
    });
    let e3 = seq![LineV::Tag(TagV::ExtXTargetDuration(p.target_duration_millis))];
    let e4 = (match p.media_sequence {
        Some(n) => seq![LineV::Tag(TagV::ExtXMediaSequence(n))],
        Option::None => Seq::<LineV>::empty(),
    });
    let e5 = Seq::<LineV>::empty();
    let e6 = (match p.playlist_type {
        Some(t) => seq![LineV::Tag(TagV::ExtXPlaylistType(t))],
        Option::None => Seq::<LineV>::empty(),
    });
    let e7 = (if p.i_frames_only {
        seq![LineV::Tag(TagV::ExtXIFramesOnly)]
    } else {
        Seq::<LineV>::empty()
    });
    let e8 = (if p.independent_segments {
        seq![LineV::Tag(TagV::ExtXIndependentSegments)]
    } else {
        Seq::<LineV>::empty()
    });
    let e9 = (match p.start {
        Some(st) => seq![LineV::Tag(TagV::ExtXStart(st))],
        Option::None => Seq::<LineV>::empty(),
    });
    let w9 = e9 + rest;
    let w8 = e8 + w9;
    let w7 = e7 + w8;
    let w6 = e6 + w7;
    let w5 = e5 + w6;
    let w4 = e4 + w5;
    let w3 = e3 + w4;
    let st0 = crate::media_playlist::asm_init(roundtrip_builder(p));
    crate::media_playlist::lemma_fold_lines_concat(e2, w3, st0);
    let st1 = (match crate::media_playlist::spec_fold_lines(e2, st0) {
        Ok(x) => x,
        Err(_) => st0,
    });
    if rv != crate::types::ProtocolVersion::V1 {
        lemma_fold_single(LineV::Tag(TagV::ExtXVersion(rv)), st0);
    }
    assert(crate::media_playlist::spec_fold_lines(e2, st0) == Result::<
        crate::media_playlist::AssemblerV,
        ErrorKind,
    >::Ok(st1));
    assert(st1 == st0);
    crate::media_playlist::lemma_fold_lines_concat(e3, w4, st1);
    lemma_fold_single(LineV::Tag(TagV::ExtXTargetDuration(p.target_duration_millis)), st1);
    let st2 = (match crate::media_playlist::spec_fold_lines(e3, st1) {
        Ok(x) => x,
        Err(_) => st1,
    });
    assert(crate::media_playlist::spec_fold_lines(e3, st1) == Result::<
        crate::media_playlist::AssemblerV,
        ErrorKind,
    >::Ok(st2));
    crate::media_playlist::lemma_fold_lines_concat(e4, w5, st2);
    let st3 = (match crate::media_playlist::spec_fold_lines(e4, st2) {
        Ok(x) => x,
        Err(_) => st2,
    });
    match p.media_sequence {
        Some(n) => {
            lemma_fold_single(LineV::Tag(TagV::ExtXMediaSequence(n)), st2);
        },
        Option::None => {},
    }
    assert(crate::media_playlist::spec_fold_lines(e4, st2) == Result::<
        crate::media_playlist::AssemblerV,
        ErrorKind,
    >::Ok(st3));
    crate::media_playlist::lemma_fold_lines_concat(e5, w6, st3);
    assert(crate::media_playlist::spec_fold_lines(e5, st3) == Result::<
        crate::media_playlist::AssemblerV,
        ErrorKind,
    >::Ok(st3));
    crate::media_playlist::lemma_fold_lines_concat(e6, w7, st3);
    let st4 = (match crate::media_playlist::spec_fold_lines(e6, st3) {
        Ok(x) => x,
        Err(_) => st3,
    });
    match p.playlist_type {
        Some(t) => {
            lemma_fold_single(LineV::Tag(TagV::ExtXPlaylistType(t)), st3);
        },
        Option::None => {},
    }
    assert(crate::media_playlist::spec_fold_lines(e6, st3) == Result::<
        crate::media_playlist::AssemblerV,
        ErrorKind,
    >::Ok(st4));
    crate::media_playlist::lemma_fold_lines_concat(e7, w8, st4);
    let st5 = (match crate::media_playlist::spec_fold_lines(e7, st4) {
        Ok(x) => x,
        Err(_) => st4,
    });
    if p.i_frames_only {
        lemma_fold_single(LineV::Tag(TagV::ExtXIFramesOnly), st4);
    }
    assert(crate::media_playlist::spec_fold_lines(e7, st4) == Result::<
        crate::media_playlist::AssemblerV,
        ErrorKind,
    >::Ok(st5));
    crate::media_playlist::lemma_fold_lines_concat(e8, w9, st5);
    let st6 = (match crate::media_playlist::spec_fold_lines(e8, st5) {
        Ok(x) => x,
        Err(_) => st5,
    });
    if p.independent_segments {
        lemma_fold_single(LineV::Tag(TagV::ExtXIndependentSegments), st5);
    }
    assert(crate::media_playlist::spec_fold_lines(e8, st5) == Result::<
        crate::media_playlist::AssemblerV,
        ErrorKind,
    >::Ok(st6));
    crate::media_playlist::lemma_fold_lines_concat(e9, rest, st6);
    let st7 = (match crate::media_playlist::spec_fold_lines(e9, st6) {
        Ok(x) => x,
        Err(_) => st6,
    });
    match p.start {
        Some(st) => {
            lemma_fold_single(LineV::Tag(TagV::ExtXStart(st)), st6);
        },
        Option::None => {},
    }
    assert(crate::media_playlist::spec_fold_lines(e9, st6) == Result::<
        crate::media_playlist::AssemblerV,
        ErrorKind,
    >::Ok(st7));
    assert(st7 == doc_state(p));
}

/// Folding a playlist's typed lines after the start-of-file marker
/// rebuilds the playlist's own fields and segments.
#[verifier::rlimit(100)]
proof fn lemma_fold_playlist(p: crate::media_playlist::MediaPlaylistV)
    requires
        wf_playlist(p),
        p.discontinuity_sequence is None,
    ensures
        ({
            let st = crate::media_playlist::spec_fold_lines(
                playlist_linevs(p).drop_first(),
                crate::media_playlist::asm_init(roundtrip_builder(p)),
            );
            match st {
                Ok(st2) => crate::media_playlist::spec_finalize(st2) == Result::<
                    crate::media_playlist::MediaPlaylistV,
                    ErrorKind,
                >::Ok(p),
                Err(_) => false,
            }
        }),
{
    let rv = crate::media_playlist::spec_playlist_required_version(p);
    let e1 = seq![LineV::Tag(TagV::ExtM3u)];
    let e2 = (if rv != crate::types::ProtocolVersion::V1 {
        seq![LineV::Tag(TagV::ExtXVersion(rv))]
    } else {
        Seq::<LineV>::empty()
    });
    let e3 = seq![LineV::Tag(TagV::ExtXTargetDuration(p.target_duration_millis))];
    let e4 = (match p.media_sequence {
        Some(n) => seq![LineV::Tag(TagV::ExtXMediaSequence(n))],
        Option::None => Seq::<LineV>::empty(),
    });
    let e5 = Seq::<LineV>::empty();
    let e6 = (match p.playlist_type {
        Some(t) => seq![LineV::Tag(TagV::ExtXPlaylistType(t))],
        Option::None => Seq::<LineV>::empty(),
    });
    let e7 = (if p.i_frames_only {
        seq![LineV::Tag(TagV::ExtXIFramesOnly)]
    } else {
        Seq::<LineV>::empty()
    });
    let e8 = (if p.independent_segments {
        seq![LineV::Tag(TagV::ExtXIndependentSegments)]
    } else {
        Seq::<LineV>::empty()
    });
    let e9 = (match p.start {
        Some(st) => seq![LineV::Tag(TagV::ExtXStart(st))],
        Option::None => Seq::<LineV>::empty(),
    });
    let e10 = segs_linevs(p.segments);
    let e11 = (if p.end_list {
        seq![LineV::Tag(TagV::ExtXEndList)]
    } else {
        Seq::<LineV>::empty()
    });
    let rest = e10 + e11;
    let w2 = e2 + (e3 + (e4 + (e5 + (e6 + (e7 + (e8 + (e9 + rest)))))));
    lemma_eleven_shape(e1, e2, e3, e4, e5, e6, e7, e8, e9, e10, e11);
    assert(playlist_linevs(p) == e1 + w2);
    assert((e1 + w2).drop_first() =~= w2);
    lemma_fold_doc_prefix(p, rest);
    let st7 = doc_state(p);
    assert(st7.active_keys =~= Seq::<ExtXKeyV>::empty());
    assert(keys_chained(st7.active_keys, p.segments)) by {
        if p.segments.len() > 0 {
            assert(keys_aligned(Seq::empty(), p.segments[0].keys));
            assert(keys_aligned(st7.active_keys, p.segments[0].keys));
        }
    }
    crate::media_playlist::lemma_fold_lines_concat(e10, e11, st7);
    lemma_fold_segments(p.segments, st7);
    let st8 = (match crate::media_playlist::spec_fold_lines(e10, st7) {
        Ok(x) => x,
        Err(_) => st7,
    });
    assert(st8.b.segments =~= p.segments);
    assert(st8.has_partial == false);
    let st9 = (match crate::media_playlist::spec_fold_lines(e11, st8) {
        Ok(x) => x,
        Err(_) => st8,
    });
    if p.end_list {
        lemma_fold_single(LineV::Tag(TagV::ExtXEndList), st8);
    }
    assert(crate::media_playlist::spec_fold_lines(e11, st8) == Result::<
        crate::media_playlist::AssemblerV,
        ErrorKind,
    >::Ok(st9));
    assert(crate::media_playlist::spec_fold_lines(w2, crate::media_playlist::asm_init(
        roundtrip_builder(p),
    )) == Result::<crate::media_playlist::AssemblerV, ErrorKind>::Ok(st9));
    // finalizing rebuilds the playlist
    assert(st9.has_partial == false);
    assert(st9.b.target_duration_millis == Some(p.target_duration_millis));
    assert(st9.b.segments == p.segments);
    assert(st9.b.allowable_excess_millis == p.allowable_excess_millis);
    assert(crate::media_playlist::spec_build_playlist(st9.b) == Result::<
        crate::media_playlist::MediaPlaylistV,
        ErrorKind,
    >::Ok(p));
}

/// The round-trip law: any well-formed playlist, rendered to text and
/// parsed back over a fresh draft carrying the same tolerance, yields the
/// same playlist. A playlist carrying a discontinuity-sequence number is
/// left out: the serializer writes that tag ahead of the segments, where
/// the assembler does not accept it.
pub proof fn lemma_parse_render_roundtrip(p: crate::media_playlist::MediaPlaylistV)
    requires
        wf_playlist(p),
        p.discontinuity_sequence is None,
    ensures
        crate::media_playlist::spec_parse_media_playlist(
            crate::media_playlist::spec_render_media_playlist(p),
            roundtrip_builder(p),
        ) == Result::<crate::media_playlist::MediaPlaylistV, ErrorKind>::Ok(p),
{
    lemma_join_playlist(p);
    lemma_split_join(playlist_lines(p));
    lemma_stream_playlist(p);
    let ls = playlist_linevs(p);
    assert(ls[0] == LineV::Tag(TagV::ExtM3u)) by {
        assert(seq![LineV::Tag(TagV::ExtM3u)].len() == 1);
    }
    lemma_fold_playlist(p);
}

} // verus!
