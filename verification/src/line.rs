//! The line classifier: a document becomes an ordered stream of typed
//! directive lines and URI lines.
//!
//! The document is split at newlines; each line is trimmed; blank lines
//! and comments are dropped. A remaining line starting with `#` is a
//! directive and is decoded by the tag dispatcher; any other line is a
//! URI.

use vstd::prelude::*;
use crate::error::Error;
use crate::error::ErrorKind;
use crate::tags::Tag;
use crate::tags::TagV;
use crate::text::chars_to_string;
use crate::text::copy_range;
use crate::text::spec_significant_lines;
use crate::text::significant_lines;
use crate::text::str_to_chars;

verus! {

/// One significant line of a playlist document.
#[derive(Debug, Clone)]
pub enum Line {
    /// A directive line, decoded.
    Tag(Tag),
    /// A URI line, verbatim.
    Uri(String),
}

/// What a [`Line`] holds, at the specification level.
pub enum LineV {
    /// A directive line, decoded.
    Tag(TagV),
    /// A URI line, verbatim.
    Uri(Seq<char>),
}

impl View for Line {
    type V = LineV;

    open spec fn view(&self) -> LineV {
        match self {
            Line::Tag(t) => LineV::Tag(t@),
            Line::Uri(u) => LineV::Uri(u@),
        }
    }
}

/// The typed line a significant line stands for: directives go through
/// the dispatcher, everything else is a URI.
pub open spec fn spec_classify_line(t: Seq<char>) -> Result<LineV, ErrorKind> {
    if t.len() > 0 && t[0] == '#' {
        match crate::tags::spec_dispatch(t) {
            Ok(tag) => Ok(LineV::Tag(tag)),
            Err(e) => Err(e),
        }
    } else {
        Ok(LineV::Uri(t))
    }
}

/// The typed line stream of a sequence of significant lines, stopping at
/// the first malformed directive.
pub open spec fn spec_line_stream(ls: Seq<Seq<char>>) -> Result<Seq<LineV>, ErrorKind>
    decreases ls.len(),
{
    if ls.len() == 0 {
        Ok(Seq::empty())
    } else {
        match spec_classify_line(ls[0]) {
            Err(e) => Err(e),
            Ok(l) => match spec_line_stream(ls.drop_first()) {
                Err(e) => Err(e),
                Ok(r) => Ok(seq![l] + r),
            },
        }
    }
}

/// The views of a vector of lines.
pub open spec fn lines_view(v: Seq<Line>) -> Seq<LineV> {
    Seq::new(v.len(), |i: int| v[i]@)
}

/// Splits a document into its typed line stream.
pub fn parse_lines(input: &str) -> (r: Result<Vec<Line>, Error>)
    ensures
        match r {
            Ok(v) => spec_line_stream(spec_significant_lines(input@)) == Result::<
                Seq<LineV>,
                ErrorKind,
            >::Ok(lines_view(v@)),
            Err(e) => spec_line_stream(spec_significant_lines(input@)) == Result::<
                Seq<LineV>,
                ErrorKind,
            >::Err(e@),
        },
{
    let chars = str_to_chars(input);
    let ranges = significant_lines(&chars);
    let ghost sig = spec_significant_lines(input@);
    proof {
        assert(sig.len() == ranges@.len());
    }
    let mut out: Vec<Line> = Vec::new();
    let n = ranges.len();
    let mut k: usize = 0;
    proof {
        assert(sig.skip(0) =~= sig);
        assert(lines_view(out@) =~= Seq::<LineV>::empty());
    }
    while k < n
        invariant
            0 <= k <= n == ranges@.len() == sig.len(),
            chars@ == input@,
            sig == spec_significant_lines(input@),
            forall|i: int|
                0 <= i < ranges@.len() ==> #[trigger] ranges@[i].0 <= ranges@[i].1
                    <= chars@.len(),
            forall|i: int|
                0 <= i < sig.len() ==> #[trigger] sig[i] == chars@.subrange(
                    ranges@[i].0 as int,
                    ranges@[i].1 as int,
                ),
            out@.len() == k,
            spec_line_stream(sig) == match spec_line_stream(sig.skip(k as int)) {
                Ok(r) => Result::<Seq<LineV>, ErrorKind>::Ok(lines_view(out@) + r),
                Err(e) => Result::<Seq<LineV>, ErrorKind>::Err(e),
            },
        decreases n - k,
    {
        let (a, b) = ranges[k];
        let ghost t = sig[k as int];
        proof {
            assert(sig.skip(k as int)[0] == t);
            assert(sig.skip(k as int).drop_first() =~= sig.skip(k + 1));
        }
        let ghost out_pre = out@;
        if a < b && chars[a] == '#' {
            proof {
                assert(t[0] == chars@[a as int]);
            }
            match crate::tags::dispatch(&chars, a, b) {
                Ok(tag) => {
                    out.push(Line::Tag(tag));
                }
                Err(e) => {
                    return Err(e);
                }
            }
        } else {
            proof {
                if t.len() > 0 {
                    assert(t[0] == chars@[a as int]);
                }
            }
            out.push(Line::Uri(chars_to_string(&copy_range(&chars, a, b))));
        }
        proof {
            assert(lines_view(out@) =~= lines_view(out_pre) + seq![out@[out@.len() - 1]@]);
            let rnext = spec_line_stream(sig.skip(k + 1));
            if rnext is Ok {
                let rv = rnext->Ok_0;
                assert((lines_view(out_pre) + (seq![out@[out@.len() - 1]@] + rv)) =~= (
                lines_view(out@) + rv));
            }
        }
        k = k + 1;
    }
    proof {
        assert(sig.skip(n as int) =~= Seq::<Seq<char>>::empty());
        assert(lines_view(out@) + Seq::<LineV>::empty() =~= lines_view(out@));
    }
    Ok(out)
}

} // verus!
