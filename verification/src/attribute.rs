//! The attribute-list grammar: `NAME=VALUE,NAME=VALUE,...`.
//!
//! A value may be double-quoted; a quoted value may contain commas and is
//! kept with its quotes, so splitting on `,` never splits inside quotes.
//! Callers decide per attribute when to remove the quotes.

use vstd::prelude::*;
use crate::text::copy_range;
use crate::text::find_char_range;
use crate::text::spec_find;
use crate::text::lemma_find_char;
use crate::text::lemma_find_char_at;
use crate::text::lemma_find_char_none;

verus! {

/// Whether `n` can stand as an attribute name: non-empty, and free of the
/// characters that delimit the grammar.
pub open spec fn wf_attr_name(n: Seq<char>) -> bool {
    n.len() > 0 && forall|i: int|
        0 <= i < n.len() ==> #[trigger] n[i] != '=' && n[i] != ',' && n[i] != '"'
}

/// Whether `v` can stand as a raw attribute value: either quoted with a
/// quote-free interior, or free of quotes and commas.
pub open spec fn wf_attr_value(v: Seq<char>) -> bool {
    if v.len() >= 2 && v[0] == '"' && v.last() == '"' {
        forall|i: int| 1 <= i < v.len() - 1 ==> #[trigger] v[i] != '"'
    } else {
        forall|i: int| 0 <= i < v.len() ==> #[trigger] v[i] != '"' && v[i] != ','
    }
}

/// Whether `s` holds no double quote.
pub open spec fn quote_free(s: Seq<char>) -> bool {
    forall|i: int| 0 <= i < s.len() ==> #[trigger] s[i] != '"'
}

/// Whether `s` holds neither a double quote nor a comma, so that it can
/// stand unquoted as an attribute value.
pub open spec fn plain_value(s: Seq<char>) -> bool {
    forall|i: int| 0 <= i < s.len() ==> #[trigger] s[i] != '"' && s[i] != ','
}

/// A plain value is a well-formed raw attribute value.
pub proof fn lemma_plain_value_wf(s: Seq<char>)
    requires
        plain_value(s),
    ensures
        wf_attr_value(s),
{
    if s.len() >= 2 && s[0] == '"' && s.last() == '"' {
        assert(s[0] != '"');
    }
}

/// Whether every pair of `ps` is well-formed.
pub open spec fn wf_pairs(ps: Seq<(Seq<char>, Seq<char>)>) -> bool {
    forall|k: int|
        0 <= k < ps.len() ==> wf_attr_name(#[trigger] ps[k].0) && wf_attr_value(ps[k].1)
}

/// The `(name, raw value)` pairs of a non-empty attribute list, or `None`
/// when a name is not followed by `=`, quotes are unbalanced, or text other
/// than `,` follows a quoted value.
pub open spec fn spec_parse_pairs_from(s: Seq<char>) -> Option<Seq<(Seq<char>, Seq<char>)>>
    decreases s.len(),
{
    match spec_find(s, '=') {
        Option::None => Option::None,
        Some(e) => {
            if e == 0 || exists|i: int| 0 <= i < e && (#[trigger] s[i] == ',' || s[i] == '"') {
                Option::None
            } else {
                let name = s.subrange(0, e);
                let rest = s.subrange(e + 1, s.len() as int);
                if rest.len() > 0 && rest[0] == '"' {
                    match spec_find(rest.drop_first(), '"') {
                        Option::None => Option::None,
                        Some(q) => {
                            let value = rest.subrange(0, q + 2);
                            let after = rest.subrange(q + 2, rest.len() as int);
                            if after.len() == 0 {
                                Some(seq![(name, value)])
                            } else if after[0] == ',' && after.len() > 1 {
                                if after.drop_first().len() < s.len() {
                                    match spec_parse_pairs_from(after.drop_first()) {
                                        Some(ps) => Some(seq![(name, value)] + ps),
                                        Option::None => Option::None,
                                    }
                                } else {
                                    Option::None
                                }
                            } else {
                                Option::None
                            }
                        },
                    }
                } else {
                    match spec_find(rest, ',') {
                        Option::None => {
                            if exists|i: int| 0 <= i < rest.len() && #[trigger] rest[i] == '"' {
                                Option::None
                            } else {
                                Some(seq![(name, rest)])
                            }
                        },
                        Some(c) => {
                            let value = rest.subrange(0, c);
                            if exists|i: int| 0 <= i < value.len() && #[trigger] value[i] == '"' {
                                Option::None
                            } else if c + 1 == rest.len() {
                                Option::None
                            } else {
                                if rest.subrange(c + 1, rest.len() as int).len() < s.len() {
                                    match spec_parse_pairs_from(
                                        rest.subrange(c + 1, rest.len() as int),
                                    ) {
                                        Some(ps) => Some(seq![(name, value)] + ps),
                                        Option::None => Option::None,
                                    }
                                } else {
                                    Option::None
                                }
                            }
                        },
                    }
                }
            }
        },
    }
}

/// The `(name, raw value)` pairs of an attribute list; an empty list has no
/// pairs, which tags whose grammar requires attributes report themselves.
pub open spec fn spec_parse_pairs(s: Seq<char>) -> Option<Seq<(Seq<char>, Seq<char>)>> {
    if s.len() == 0 {
        Some(Seq::empty())
    } else {
        spec_parse_pairs_from(s)
    }
}

/// The canonical text of an attribute list: pairs joined with `,`.
pub open spec fn spec_render_pairs(ps: Seq<(Seq<char>, Seq<char>)>) -> Seq<char>
    decreases ps.len(),
{
    if ps.len() == 0 {
        Seq::empty()
    } else if ps.len() == 1 {
        ps[0].0 + seq!['='] + ps[0].1
    } else {
        ps[0].0 + seq!['='] + ps[0].1 + seq![','] + spec_render_pairs(ps.drop_first())
    }
}

/// Appending a pair to a non-empty list appends `,name=value` to the text.
pub proof fn lemma_render_pairs_snoc(ps: Seq<(Seq<char>, Seq<char>)>, p: (Seq<char>, Seq<char>))
    requires
        ps.len() > 0,
    ensures
        spec_render_pairs(ps.push(p)) == spec_render_pairs(ps) + seq![','] + p.0 + seq!['=']
            + p.1,
    decreases ps.len(),
{
    if ps.len() == 1 {
        assert(ps.push(p).drop_first() =~= seq![p]);
        assert(ps.push(p)[0] == ps[0]);
        assert(spec_render_pairs(seq![p]) == p.0 + seq!['='] + p.1);
        assert(spec_render_pairs(ps.push(p)) =~= spec_render_pairs(ps) + seq![','] + p.0 + seq![
            '=',
        ] + p.1);
    } else {
        lemma_render_pairs_snoc(ps.drop_first(), p);
        assert(ps.push(p).drop_first() =~= ps.drop_first().push(p));
        assert(ps.push(p)[0] == ps[0]);
        assert(ps.push(p).len() > 1);
        assert(spec_render_pairs(ps.push(p)) == ps[0].0 + seq!['='] + ps[0].1 + seq![',']
            + spec_render_pairs(ps.drop_first().push(p)));
        assert(spec_render_pairs(ps.push(p)) =~= spec_render_pairs(ps) + seq![','] + p.0 + seq![
            '=',
        ] + p.1);
    }
}

/// The value `v` with its surrounding quotes removed, when it has them.
pub open spec fn spec_unquote(v: Seq<char>) -> Seq<char> {
    if v.len() >= 2 && v[0] == '"' && v.last() == '"' {
        v.subrange(1, v.len() - 1)
    } else {
        v
    }
}

/// The value `s` surrounded by quotes.
pub open spec fn spec_quote(s: Seq<char>) -> Seq<char> {
    seq!['"'] + s + seq!['"']
}

/// A fresh vector holding `v` with its surrounding quotes removed.
pub fn unquote_vec(v: &Vec<char>) -> (r: Vec<char>)
    ensures
        r@ == spec_unquote(v@),
{
    let n = v.len();
    if n >= 2 && v[0] == '"' && v[n - 1] == '"' {
        copy_range(v, 1, n - 1)
    } else {
        let r = copy_range(v, 0, n);
        proof {
            assert(v@.subrange(0, n as int) =~= v@);
        }
        r
    }
}

/// Quoting a quote-free string is well-formed and unquotes to the string.
pub proof fn lemma_quote_unquote(s: Seq<char>)
    requires
        forall|i: int| 0 <= i < s.len() ==> #[trigger] s[i] != '"',
    ensures
        spec_unquote(spec_quote(s)) == s,
        wf_attr_value(spec_quote(s)),
{
    let q = spec_quote(s);
    assert(q[0] == '"');
    assert(q.last() == '"');
    assert(forall|i: int| 1 <= i < q.len() - 1 ==> q[i] == s[i - 1]);
    assert(q.subrange(1, q.len() - 1) =~= s);
}

/// Rendering a well-formed pair list and reading it back gives the same
/// pairs.
#[verifier::rlimit(80)]
pub proof fn lemma_parse_render_pairs(ps: Seq<(Seq<char>, Seq<char>)>)
    requires
        ps.len() > 0,
        wf_pairs(ps),
    ensures
        spec_parse_pairs_from(spec_render_pairs(ps)) == Some(ps),
    decreases ps.len(),
{
    let s = spec_render_pairs(ps);
    let n = ps[0].0;
    let v = ps[0].1;
    let nl = n.len() as int;
    let vl = v.len() as int;
    // the first `=` stands right after the first name
    assert(s[nl] == '=');
    assert(forall|j: int| 0 <= j < nl ==> s[j] == n[j]);
    lemma_find_char_at(s, '=', nl);
    assert(s.subrange(0, nl) =~= n);
    let rest = s.subrange(nl + 1, s.len() as int);
    if ps.len() == 1 {
        assert(rest =~= v);
        if v.len() >= 2 && v[0] == '"' && v.last() == '"' {
            // quoted value: the first quote after the opening one closes it
            let inner = rest.drop_first();
            assert(inner[vl - 2] == '"');
            assert(forall|j: int| 0 <= j < vl - 2 ==> inner[j] == v[j + 1] && inner[j] != '"');
            lemma_find_char_at(inner, '"', vl - 2);
            assert(rest.subrange(0, vl) =~= v);
            assert(rest.subrange(vl, rest.len() as int).len() == 0);
            assert(spec_parse_pairs_from(s) == Some(seq![(n, v)]));
        } else {
            if rest.len() > 0 {
                assert(rest[0] != '"');
            }
            lemma_find_char_none(rest, ',');
            assert(spec_parse_pairs_from(s) == Some(seq![(n, v)]));
        }
        assert(seq![(n, v)] =~= ps);
    } else {
        let tail = spec_render_pairs(ps.drop_first());
        lemma_parse_render_pairs(ps.drop_first());
        assert(rest =~= v + seq![','] + tail);
        if v.len() >= 2 && v[0] == '"' && v.last() == '"' {
            let inner = rest.drop_first();
            assert(inner[vl - 2] == '"');
            assert(forall|j: int| 0 <= j < vl - 2 ==> inner[j] == v[j + 1] && inner[j] != '"');
            lemma_find_char_at(inner, '"', vl - 2);
            assert(rest.subrange(0, vl) =~= v);
            let after = rest.subrange(vl, rest.len() as int);
            assert(after[0] == ',');
            assert(after.len() > 1);
            assert(after.drop_first() =~= tail);
            assert(spec_parse_pairs_from(s) == Some(seq![(n, v)] + ps.drop_first()));
        } else {
            if rest.len() > 0 && vl > 0 {
                assert(rest[0] == v[0]);
                assert(rest[0] != '"');
            }
            assert(rest[vl] == ',');
            assert(forall|j: int| 0 <= j < vl ==> rest[j] == v[j] && rest[j] != ',');
            lemma_find_char_at(rest, ',', vl);
            assert(rest.subrange(0, vl) =~= v);
            assert(forall|i: int| 0 <= i < vl ==> rest.subrange(0, vl)[i] != '"');
            assert(vl + 1 < rest.len());
            assert(rest.subrange(vl + 1, rest.len() as int) =~= tail);
            assert(spec_parse_pairs_from(s) == Some(seq![(n, v)] + ps.drop_first()));
        }
        assert(seq![(n, v)] + ps.drop_first() =~= ps);
    }
}

/// An attribute list whose first value is unquoted, runs to the end, and
/// holds a quote is malformed.
proof fn lemma_pairs_unquoted_trailing_quote(t: Seq<char>, e: int)
    requires
        spec_find(t, '=') == Some(e),
        0 < e < t.len(),
        !(t.subrange(e + 1, t.len() as int).len() > 0 && t.subrange(e + 1, t.len() as int)[0]
            == '"'),
        spec_find(t.subrange(e + 1, t.len() as int), ',') is None,
        exists|x: int|
            0 <= x < t.subrange(e + 1, t.len() as int).len() && #[trigger] t.subrange(
                e + 1,
                t.len() as int,
            )[x] == '"',
    ensures
        spec_parse_pairs_from(t) is None,
{
}

/// An attribute list whose first value is unquoted and holds a quote before
/// the next comma is malformed.
proof fn lemma_pairs_unquoted_inner_quote(t: Seq<char>, e: int, c: int)
    requires
        spec_find(t, '=') == Some(e),
        0 < e < t.len(),
        !(t.subrange(e + 1, t.len() as int).len() > 0 && t.subrange(e + 1, t.len() as int)[0]
            == '"'),
        spec_find(t.subrange(e + 1, t.len() as int), ',') == Some(c),
        0 <= c < t.subrange(e + 1, t.len() as int).len(),
        exists|x: int|
            0 <= x < c && #[trigger] t.subrange(e + 1, t.len() as int).subrange(0, c)[x] == '"',
    ensures
        spec_parse_pairs_from(t) is None,
{
}

/// The pairs `ps` seen at the specification level.
pub open spec fn pairs_view(ps: Seq<(Vec<char>, Vec<char>)>) -> Seq<(Seq<char>, Seq<char>)> {
    Seq::new(ps.len(), |k: int| (ps[k].0@, ps[k].1@))
}

/// Parses the characters of `s` in `[i, j)` as an attribute list.
#[verifier::rlimit(80)]
pub fn parse_pairs(s: &Vec<char>, i: usize, j: usize) -> (r: Option<Vec<(Vec<char>, Vec<char>)>>)
    requires
        i <= j <= s@.len(),
    ensures
        match r {
            Some(ps) => spec_parse_pairs(s@.subrange(i as int, j as int)) == Some(pairs_view(ps@)),
            Option::None => spec_parse_pairs(s@.subrange(i as int, j as int)) is None,
        },
{
    let ghost whole = s@.subrange(i as int, j as int);
    let mut out: Vec<(Vec<char>, Vec<char>)> = Vec::new();
    if i == j {
        proof {
            assert(pairs_view(out@) =~= Seq::<(Seq<char>, Seq<char>)>::empty());
        }
        return Some(out);
    }
    let mut cur: usize = i;
    loop
        invariant
            i <= cur <= j <= s@.len(),
            cur < j,
            whole == s@.subrange(i as int, j as int),
            whole.len() > 0,
            spec_parse_pairs_from(whole) == match spec_parse_pairs_from(
                s@.subrange(cur as int, j as int),
            ) {
                Some(ps) => Some(pairs_view(out@) + ps),
                Option::None => Option::None::<Seq<(Seq<char>, Seq<char>)>>,
            },
        decreases j - cur,
    {
        let ghost t = s@.subrange(cur as int, j as int);
        // the name runs to the first `=`
        let e = match find_char_range(s, cur, j, '=') {
            Some(e) => e,
            Option::None => {
                return Option::None;
            }
        };
        if e == cur {
            return Option::None;
        }
        if let Some(_) = find_char_range(s, cur, e, ',') {
            proof {
                lemma_find_char(s@.subrange(cur as int, e as int), ',');
                assert(exists|x: int|
                    0 <= x < e - cur && (#[trigger] t[x] == ',' || t[x] == '"'));
            }
            return Option::None;
        }
        if let Some(_) = find_char_range(s, cur, e, '"') {
            proof {
                lemma_find_char(s@.subrange(cur as int, e as int), '"');
                assert(exists|x: int|
                    0 <= x < e - cur && (#[trigger] t[x] == ',' || t[x] == '"'));
            }
            return Option::None;
        }
        proof {
            lemma_find_char(s@.subrange(cur as int, e as int), ',');
            lemma_find_char(s@.subrange(cur as int, e as int), '"');
            assert(forall|x: int|
                0 <= x < e - cur ==> !(#[trigger] t[x] == ',' || t[x] == '"'));
        }
        let name = copy_range(s, cur, e);
        let ghost rest = t.subrange(e - cur + 1, t.len() as int);
        proof {
            assert(rest =~= s@.subrange(e + 1, j as int));
            assert(t.subrange(0, e - cur) =~= s@.subrange(cur as int, e as int));
        }
        let vstart = e + 1;
        if vstart < j && s[vstart] == '"' {
            // quoted value: find the closing quote
            proof {
                assert(rest.len() == j - vstart);
                assert(rest[0] == s@[vstart as int]);
            }
            let q = match find_char_range(s, vstart + 1, j, '"') {
                Some(q) => q,
                Option::None => {
                    proof {
                        assert(rest.drop_first() =~= s@.subrange(vstart + 1, j as int));
                    }
                    return Option::None;
                }
            };
            proof {
                assert(rest.drop_first() =~= s@.subrange(vstart + 1, j as int));
                assert(spec_find(rest.drop_first(), '"') == Some(q - (vstart + 1)));
            }
            let value = copy_range(s, vstart, q + 1);
            proof {
                assert(rest.subrange(0, q - vstart + 1) =~= s@.subrange(vstart as int, q + 1));
                assert(rest.subrange(q - vstart + 1, rest.len() as int) =~= s@.subrange(
                    q + 1,
                    j as int,
                ));
            }
            let ghost out_pre = out@;
            if q + 1 == j {
                out.push((name, value));
                proof {
                    assert(spec_parse_pairs_from(t) == Some(seq![(name@, value@)]));
                    assert(pairs_view(out@) =~= pairs_view(out_pre) + seq![(name@, value@)]);
                    assert(pairs_view(out_pre) + seq![(name@, value@)] =~= pairs_view(out_pre)
                        + (seq![(name@, value@)] + Seq::<(Seq<char>, Seq<char>)>::empty()));
                }
                return Some(out);
            }
            if s[q + 1] != ',' || q + 2 == j {
                return Option::None;
            }
            out.push((name, value));
            proof {
                let after = rest.subrange(q - vstart + 1, rest.len() as int);
                assert(after[0] == ',');
                assert(after.len() > 1);
                assert(after.drop_first() =~= s@.subrange(q + 2, j as int));
                assert(pairs_view(out@) =~= pairs_view(out_pre) + seq![(name@, value@)]);
                let pnext = spec_parse_pairs_from(s@.subrange(q + 2, j as int));
                if pnext is Some {
                    let ps2 = pnext.unwrap();
                    assert((pairs_view(out_pre) + (seq![(name@, value@)] + ps2)) =~= (
                    pairs_view(out@) + ps2));
                }
            }
            cur = q + 2;
        } else {
            // unquoted value: runs to the next comma or the end
            let ghost out_pre = out@;
            proof {
                if rest.len() > 0 {
                    assert(rest[0] == s@[vstart as int]);
                }
            }
            match find_char_range(s, vstart, j, ',') {
                Option::None => {
                    if let Some(_) = find_char_range(s, vstart, j, '"') {
                        proof {
                            lemma_find_char(s@.subrange(vstart as int, j as int), '"');
                            assert(exists|x: int|
                                0 <= x < rest.len() && #[trigger] rest[x] == '"');
                            assert(rest.len() > 0 ==> rest[0] != '"');
                            assert(spec_find(rest, ',') is None);
                            assert(rest == t.subrange(e - cur + 1, t.len() as int));
                            lemma_pairs_unquoted_trailing_quote(t, e - cur);
                        }
                        return Option::None;
                    }
                    proof {
                        lemma_find_char(s@.subrange(vstart as int, j as int), '"');
                        if rest.len() > 0 {
                            assert(rest[0] == s@[vstart as int]);
                            assert(rest[0] != '"');
                        }
                        assert(forall|x: int|
                            0 <= x < rest.len() ==> #[trigger] rest[x] != '"');
                    }
                    let value = copy_range(s, vstart, j);
                    out.push((name, value));
                    proof {
                        assert(spec_parse_pairs_from(t) == Some(seq![(name@, value@)]));
                        assert(pairs_view(out@) =~= pairs_view(out_pre) + seq![
                            (name@, value@),
                        ]);
                        assert(pairs_view(out_pre) + seq![(name@, value@)] =~= pairs_view(
                            out_pre,
                        ) + (seq![(name@, value@)] + Seq::<(Seq<char>, Seq<char>)>::empty()));
                    }
                    return Some(out);
                }
                Some(c) => {
                    if let Some(_) = find_char_range(s, vstart, c, '"') {
                        proof {
                            lemma_find_char(s@.subrange(vstart as int, c as int), '"');
                            assert(rest.subrange(0, c - vstart) =~= s@.subrange(
                                vstart as int,
                                c as int,
                            ));
                            assert(exists|x: int|
                                0 <= x < c - vstart && #[trigger] rest.subrange(
                                    0,
                                    c - vstart,
                                )[x] == '"');
                            assert(rest == t.subrange(e - cur + 1, t.len() as int));
                            lemma_pairs_unquoted_inner_quote(t, e - cur, c - vstart);
                        }
                        return Option::None;
                    }
                    proof {
                        lemma_find_char(s@.subrange(vstart as int, c as int), '"');
                        assert(rest.subrange(0, c - vstart) =~= s@.subrange(
                            vstart as int,
                            c as int,
                        ));
                        assert(forall|x: int|
                            0 <= x < c - vstart ==> #[trigger] rest.subrange(
                                0,
                                c - vstart,
                            )[x] != '"');
                    }
                    if c + 1 == j {
                        return Option::None;
                    }
                    let value = copy_range(s, vstart, c);
                    out.push((name, value));
                    proof {
                        assert(rest.subrange(c - vstart + 1, rest.len() as int) =~= s@.subrange(
                            c + 1,
                            j as int,
                        ));
                        assert(pairs_view(out@) =~= pairs_view(out_pre) + seq![
                            (name@, value@),
                        ]);
                        let pnext = spec_parse_pairs_from(s@.subrange(c + 1, j as int));
                        if pnext is Some {
                            let ps2 = pnext.unwrap();
                            assert((pairs_view(out_pre) + (seq![(name@, value@)] + ps2)) =~= (
                            pairs_view(out@) + ps2));
                        }
                    }
                    cur = c + 1;
                }
            }
        }
    }
}

} // verus!
