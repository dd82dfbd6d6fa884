//! Character-level primitives: digits and numbers, whitespace trimming,
//! line splitting, and literal matching.
//!
//! Every executable function here is proved equal to a specification
//! function over sequences of characters; the specification functions are
//! what the higher layers' contracts are written in.

use vstd::prelude::*;
use vstd::string::*;

verus! {

/// Whether `c` is a decimal digit.
pub open spec fn is_digit(c: char) -> bool {
    '0' <= c && c <= '9'
}

/// The value of the digit `c`.
pub open spec fn digit_val(c: char) -> nat
    recommends
        is_digit(c),
{
    ((c as int) - ('0' as int)) as nat
}

/// The digit character for a value below ten.
pub open spec fn digit_char(d: nat) -> char
    recommends
        d < 10,
{
    if d == 0 {
        '0'
    } else if d == 1 {
        '1'
    } else if d == 2 {
        '2'
    } else if d == 3 {
        '3'
    } else if d == 4 {
        '4'
    } else if d == 5 {
        '5'
    } else if d == 6 {
        '6'
    } else if d == 7 {
        '7'
    } else if d == 8 {
        '8'
    } else {
        '9'
    }
}

/// Whether every character of `s` is a decimal digit.
pub open spec fn all_digits(s: Seq<char>) -> bool {
    forall|i: int| 0 <= i < s.len() ==> is_digit(#[trigger] s[i])
}

/// The number the digit string `s` denotes, most significant digit first.
pub open spec fn num_val(s: Seq<char>) -> nat
    decreases s.len(),
{
    if s.len() == 0 {
        0
    } else {
        num_val(s.drop_last()) * 10 + digit_val(s.last())
    }
}

/// A prefix of a digit string denotes no more than the whole string.
pub proof fn lemma_num_val_prefix(s: Seq<char>, k: int)
    requires
        0 <= k <= s.len(),
    ensures
        num_val(s.subrange(0, k)) <= num_val(s),
    decreases s.len() - k,
{
    if k < s.len() {
        lemma_num_val_prefix(s, k + 1);
        assert(s.subrange(0, k + 1).drop_last() =~= s.subrange(0, k));
        assert(num_val(s.subrange(0, k + 1)) == num_val(s.subrange(0, k)) * 10 + digit_val(
            s.subrange(0, k + 1).last(),
        ));
    } else {
        assert(s.subrange(0, k) =~= s);
    }
}

/// The number a digit string denotes, or `None` when the string is empty,
/// holds a non-digit, or denotes more than `u64::MAX`.
pub open spec fn spec_parse_u64(s: Seq<char>) -> Option<u64> {
    if s.len() > 0 && all_digits(s) && num_val(s) <= u64::MAX {
        Some(num_val(s) as u64)
    } else {
        None
    }
}

/// Parses the characters of `s` in `[i, j)` as a decimal number.
pub fn parse_u64_range(s: &Vec<char>, i: usize, j: usize) -> (r: Option<u64>)
    requires
        i <= j <= s@.len(),
    ensures
        r == spec_parse_u64(s@.subrange(i as int, j as int)),
{
    let ghost t = s@.subrange(i as int, j as int);
    if i == j {
        return None;
    }
    let mut acc: u64 = 0;
    let mut k: usize = i;
    while k < j
        invariant
            i <= k <= j <= s@.len(),
            t == s@.subrange(i as int, j as int),
            all_digits(t.subrange(0, k - i)),
            acc == num_val(t.subrange(0, k - i)),
        decreases j - k,
    {
        let c = s[k];
        assert(t[k - i] == c);
        if !('0' <= c && c <= '9') {
            assert(!is_digit(t[k - i]));
            return None;
        }
        let d: u64 = (c as u32 as u64) - ('0' as u32 as u64);
        assert(d == digit_val(c));
        proof {
            assert(t.subrange(0, k + 1 - i).drop_last() =~= t.subrange(0, k - i));
            assert(t.subrange(0, k + 1 - i).last() == c);
        }
        if acc > (u64::MAX - d) / 10 {
            proof {
                assert(num_val(t.subrange(0, k + 1 - i)) == acc * 10 + d);
                assert(acc * 10 + d > u64::MAX) by (nonlinear_arith)
                    requires
                        acc > (u64::MAX - d) / 10,
                        d < 10,
                ;
                lemma_num_val_prefix(t, k + 1 - i);
            }
            return None;
        }
        acc = acc * 10 + d;
        k = k + 1;
    }
    proof {
        assert(t.subrange(0, j - i) =~= t);
    }
    Some(acc)
}

/// The canonical decimal rendering of `n`, most significant digit first.
pub open spec fn spec_render_u64(n: nat) -> Seq<char>
    decreases n,
{
    if n < 10 {
        seq![digit_char(n)]
    } else {
        spec_render_u64(n / 10).push(digit_char(n % 10))
    }
}

/// A rendered number consists of digits and is non-empty.
pub proof fn lemma_render_u64_digits(n: nat)
    ensures
        spec_render_u64(n).len() > 0,
        all_digits(spec_render_u64(n)),
    decreases n,
{
    if n >= 10 {
        lemma_render_u64_digits(n / 10);
    }
}

/// Reading back the digit character for `d` gives `d`.
pub proof fn lemma_digit_roundtrip(d: nat)
    requires
        d < 10,
    ensures
        digit_val(digit_char(d)) == d,
        is_digit(digit_char(d)),
{
}

/// Rendering then reading a number gives the number back.
pub proof fn lemma_parse_render_u64(n: u64)
    ensures
        spec_parse_u64(spec_render_u64(n as nat)) == Some(n),
    decreases n,
{
    lemma_render_u64_digits(n as nat);
    if n < 10 {
        lemma_digit_roundtrip(n as nat);
        let s = spec_render_u64(n as nat);
        assert(s == seq![digit_char(n as nat)]);
        assert(s.last() == digit_char(n as nat));
        assert(s.drop_last() =~= Seq::<char>::empty());
        assert(num_val(Seq::<char>::empty()) == 0);
        assert(num_val(s) == num_val(s.drop_last()) * 10 + digit_val(s.last()));
        assert(num_val(s) == n);
    } else {
        lemma_digit_roundtrip((n % 10) as nat);
        lemma_parse_render_u64(n / 10);
        assert(spec_render_u64(n as nat).drop_last() =~= spec_render_u64((n / 10) as nat));
        assert(num_val(spec_render_u64(n as nat)) == num_val(spec_render_u64((n / 10) as nat)) * 10
            + digit_val(digit_char((n % 10) as nat)));
    }
}

/// Appends the digit character for `d` to `out`.
fn push_digit(out: &mut String, d: u64)
    requires
        d < 10,
    ensures
        final(out)@ == old(out)@ + seq![digit_char(d as nat)],
{
    proof {
        reveal_strlit("0");
        reveal_strlit("1");
        reveal_strlit("2");
        reveal_strlit("3");
        reveal_strlit("4");
        reveal_strlit("5");
        reveal_strlit("6");
        reveal_strlit("7");
        reveal_strlit("8");
        reveal_strlit("9");
    }
    if d == 0 {
        out.append("0");
    } else if d == 1 {
        out.append("1");
    } else if d == 2 {
        out.append("2");
    } else if d == 3 {
        out.append("3");
    } else if d == 4 {
        out.append("4");
    } else if d == 5 {
        out.append("5");
    } else if d == 6 {
        out.append("6");
    } else if d == 7 {
        out.append("7");
    } else if d == 8 {
        out.append("8");
    } else {
        out.append("9");
    }
    proof {
        assert(final(out)@ =~= old(out)@ + seq![digit_char(d as nat)]);
    }
}

/// Appends the canonical decimal rendering of `n` to `out`.
pub fn push_u64(out: &mut String, n: u64)
    ensures
        final(out)@ == old(out)@ + spec_render_u64(n as nat),
    decreases n,
{
    if n < 10 {
        push_digit(out, n);
    } else {
        push_u64(out, n / 10);
        push_digit(out, n % 10);
        proof {
            assert(final(out)@ =~= old(out)@ + spec_render_u64(n as nat));
        }
    }
}

/// Ten to the power `n`.
pub open spec fn pow10(n: nat) -> nat
    decreases n,
{
    if n == 0 {
        1
    } else {
        10 * pow10((n - 1) as nat)
    }
}

/// A digit string of length `n` denotes less than ten to the power `n`.
pub proof fn lemma_num_val_bound(s: Seq<char>)
    requires
        all_digits(s),
    ensures
        num_val(s) < pow10(s.len()),
    decreases s.len(),
{
    if s.len() > 0 {
        assert(all_digits(s.drop_last()));
        lemma_num_val_bound(s.drop_last());
        assert(digit_val(s.last()) <= 9);
    }
}

/// No character of a digit string equals a non-digit character.
pub proof fn lemma_digits_exclude(s: Seq<char>, c: char)
    requires
        all_digits(s),
        !is_digit(c),
    ensures
        forall|j: int| 0 <= j < s.len() ==> s[j] != c,
{
}

/// The position of the first occurrence of `c` in `s`, if any.
pub open spec fn spec_find(s: Seq<char>, c: char) -> Option<int>
    decreases s.len(),
{
    if s.len() == 0 {
        None
    } else if s[0] == c {
        Some(0)
    } else {
        match spec_find(s.drop_first(), c) {
            Some(i) => Some(i + 1),
            None => None,
        }
    }
}

/// What `spec_find` returns: the least position holding `c`, or `None` when
/// `c` does not occur.
pub proof fn lemma_find_char(s: Seq<char>, c: char)
    ensures
        match spec_find(s, c) {
            Some(i) => 0 <= i < s.len() && s[i] == c && (forall|j: int| 0 <= j < i ==> s[j] != c),
            None => forall|j: int| 0 <= j < s.len() ==> s[j] != c,
        },
    decreases s.len(),
{
    if s.len() > 0 && s[0] != c {
        lemma_find_char(s.drop_first(), c);
        match spec_find(s.drop_first(), c) {
            Some(i) => {
                assert(forall|j: int| 1 <= j < i + 1 ==> s[j] == s.drop_first()[j - 1]);
            }
            None => {
                assert(forall|j: int| 1 <= j < s.len() ==> s[j] == s.drop_first()[j - 1]);
            }
        }
    }
}

/// `spec_find` returns the position of `c` when one is known to be first.
pub proof fn lemma_find_char_at(s: Seq<char>, c: char, i: int)
    requires
        0 <= i < s.len(),
        s[i] == c,
        forall|j: int| 0 <= j < i ==> s[j] != c,
    ensures
        spec_find(s, c) == Some(i),
{
    lemma_find_char(s, c);
}

/// `spec_find` returns `None` when `c` occurs nowhere.
pub proof fn lemma_find_char_none(s: Seq<char>, c: char)
    requires
        forall|j: int| 0 <= j < s.len() ==> s[j] != c,
    ensures
        spec_find(s, c) is None,
{
    lemma_find_char(s, c);
}

/// Finds the first occurrence of `c` among the characters of `s` in
/// `[i, j)`, reported as an absolute position.
pub fn find_char_range(s: &Vec<char>, i: usize, j: usize, c: char) -> (r: Option<usize>)
    requires
        i <= j <= s@.len(),
    ensures
        match r {
            Some(k) => i <= k < j && spec_find(s@.subrange(i as int, j as int), c) == Some(
                k - i,
            ),
            None => spec_find(s@.subrange(i as int, j as int), c) is None,
        },
{
    let ghost t = s@.subrange(i as int, j as int);
    let mut k: usize = i;
    while k < j
        invariant
            i <= k <= j <= s@.len(),
            t == s@.subrange(i as int, j as int),
            forall|m: int| 0 <= m < k - i ==> t[m] != c,
        decreases j - k,
    {
        if s[k] == c {
            proof {
                lemma_find_char_at(t, c, k - i);
            }
            return Some(k);
        }
        k = k + 1;
    }
    proof {
        lemma_find_char_none(t, c);
    }
    None
}

/// Whether `c` is blank space for the purposes of line trimming.
pub open spec fn is_space(c: char) -> bool {
    c == ' ' || c == '\t' || c == '\r'
}

/// `s` with leading blank space removed.
pub open spec fn spec_trim_start(s: Seq<char>) -> Seq<char>
    decreases s.len(),
{
    if s.len() > 0 && is_space(s[0]) {
        spec_trim_start(s.drop_first())
    } else {
        s
    }
}

/// `s` with trailing blank space removed.
pub open spec fn spec_trim_end(s: Seq<char>) -> Seq<char>
    decreases s.len(),
{
    if s.len() > 0 && is_space(s.last()) {
        spec_trim_end(s.drop_last())
    } else {
        s
    }
}

/// `s` with leading and trailing blank space removed.
pub open spec fn spec_trim(s: Seq<char>) -> Seq<char> {
    spec_trim_end(spec_trim_start(s))
}

/// Trimming a string that neither starts nor ends with blank space leaves
/// it unchanged.
pub proof fn lemma_trim_fixed(s: Seq<char>)
    requires
        s.len() == 0 || (!is_space(s[0]) && !is_space(s.last())),
    ensures
        spec_trim(s) == s,
{
}

/// Narrows `[i, j)` to the sub-range holding the trimmed text of the
/// characters of `s` in `[i, j)`.
pub fn trim_range(s: &Vec<char>, i: usize, j: usize) -> (r: (usize, usize))
    requires
        i <= j <= s@.len(),
    ensures
        i <= r.0 <= r.1 <= j,
        s@.subrange(r.0 as int, r.1 as int) == spec_trim(s@.subrange(i as int, j as int)),
{
    let mut a: usize = i;
    while a < j && (s[a] == ' ' || s[a] == '\t' || s[a] == '\r')
        invariant
            i <= a <= j <= s@.len(),
            spec_trim_start(s@.subrange(i as int, j as int)) == spec_trim_start(
                s@.subrange(a as int, j as int),
            ),
        decreases j - a,
    {
        proof {
            assert(s@.subrange(a as int, j as int).drop_first() =~= s@.subrange(
                a + 1,
                j as int,
            ));
        }
        a = a + 1;
    }
    proof {
        assert(spec_trim_start(s@.subrange(a as int, j as int)) == s@.subrange(
            a as int,
            j as int,
        ));
    }
    let mut b: usize = j;
    while b > a && (s[b - 1] == ' ' || s[b - 1] == '\t' || s[b - 1] == '\r')
        invariant
            i <= a <= b <= j <= s@.len(),
            spec_trim_end(s@.subrange(a as int, j as int)) == spec_trim_end(
                s@.subrange(a as int, b as int),
            ),
        decreases b,
    {
        proof {
            assert(s@.subrange(a as int, b as int).drop_last() =~= s@.subrange(
                a as int,
                b - 1,
            ));
        }
        b = b - 1;
    }
    proof {
        assert(spec_trim_end(s@.subrange(a as int, b as int)) == s@.subrange(
            a as int,
            b as int,
        ));
    }
    (a, b)
}

/// Whether the characters of `s` in `[i, j)` equal the text of `lit`.
pub fn range_eq_str(s: &Vec<char>, i: usize, j: usize, lit: &str) -> (r: bool)
    requires
        i <= j <= s@.len(),
    ensures
        r == (s@.subrange(i as int, j as int) == lit@),
{
    let n = lit.unicode_len();
    if n != j - i {
        return false;
    }
    let mut k: usize = 0;
    while k < n
        invariant
            i <= j <= s@.len(),
            n == lit@.len(),
            n == j - i,
            0 <= k <= n,
            forall|m: int| 0 <= m < k ==> s@.subrange(i as int, j as int)[m] == lit@[m],
        decreases n - k,
    {
        if s[i + k] != lit.get_char(k) {
            proof {
                assert(s@.subrange(i as int, j as int)[k as int] != lit@[k as int]);
            }
            return false;
        }
        k = k + 1;
    }
    proof {
        assert(s@.subrange(i as int, j as int) =~= lit@);
    }
    true
}

/// Whether the characters of `v` equal the text of `lit`.
pub fn vec_eq_str(v: &Vec<char>, lit: &str) -> (r: bool)
    ensures
        r == (v@ == lit@),
{
    let r = range_eq_str(v, 0, v.len(), lit);
    proof {
        assert(v@.subrange(0, v@.len() as int) =~= v@);
    }
    r
}

/// Whether the characters of `s` in `[i, j)` start with the text of `lit`.
pub fn range_starts_with_str(s: &Vec<char>, i: usize, j: usize, lit: &str) -> (r: bool)
    requires
        i <= j <= s@.len(),
    ensures
        r == (j - i >= lit@.len() && s@.subrange(i as int, j as int).subrange(
            0,
            lit@.len() as int,
        ) == lit@),
{
    let n = lit.unicode_len();
    if n > j - i {
        return false;
    }
    let r = range_eq_str(s, i, i + n, lit);
    proof {
        assert(s@.subrange(i as int, j as int).subrange(0, n as int) =~= s@.subrange(
            i as int,
            i + n,
        ));
    }
    r
}

/// A fresh vector holding the characters of `s` in `[i, j)`.
pub fn copy_range(s: &Vec<char>, i: usize, j: usize) -> (r: Vec<char>)
    requires
        i <= j <= s@.len(),
    ensures
        r@ == s@.subrange(i as int, j as int),
{
    let mut r: Vec<char> = Vec::new();
    let mut k: usize = i;
    while k < j
        invariant
            i <= k <= j <= s@.len(),
            r@ == s@.subrange(i as int, k as int),
        decreases j - k,
    {
        r.push(s[k]);
        proof {
            assert(s@.subrange(i as int, k + 1) =~= s@.subrange(i as int, k as int).push(
                s@[k as int],
            ));
        }
        k = k + 1;
    }
    r
}

/// The characters of `s`, in order.
pub fn str_to_chars(s: &str) -> (r: Vec<char>)
    ensures
        r@ == s@,
{
    let n = s.unicode_len();
    let mut r: Vec<char> = Vec::new();
    let mut k: usize = 0;
    while k < n
        invariant
            n == s@.len(),
            0 <= k <= n,
            r@ == s@.subrange(0, k as int),
        decreases n - k,
    {
        r.push(s.get_char(k));
        proof {
            assert(s@.subrange(0, k + 1) =~= s@.subrange(0, k as int).push(s@[k as int]));
        }
        k = k + 1;
    }
    proof {
        assert(s@.subrange(0, n as int) =~= s@);
    }
    r
}

/// Relies on `String::push`: it appends exactly the one character `c` to
/// the string, leaving the earlier characters unchanged.
#[verifier::external_body]
pub fn push_char(out: &mut String, c: char)
    ensures
        final(out)@ == old(out)@ + seq![c],
{
    out.push(c);
}

/// The string holding exactly the characters of `v`.
pub fn chars_to_string(v: &Vec<char>) -> (r: String)
    ensures
        r@ == v@,
{
    let mut r = String::new();
    push_chars(&mut r, v);
    proof {
        assert(Seq::<char>::empty() + v@ =~= v@);
    }
    r
}

/// Appends the characters of `v` to `out`.
pub fn push_chars(out: &mut String, v: &Vec<char>)
    ensures
        final(out)@ == old(out)@ + v@,
{
    let n = v.len();
    let mut k: usize = 0;
    while k < n
        invariant
            n == v@.len(),
            0 <= k <= n,
            out@ == old(out)@ + v@.subrange(0, k as int),
        decreases n - k,
    {
        push_char(out, v[k]);
        proof {
            assert(old(out)@ + v@.subrange(0, k + 1) =~= (old(out)@ + v@.subrange(
                0,
                k as int,
            )).push(v@[k as int]));
        }
        k = k + 1;
    }
    proof {
        assert(v@.subrange(0, n as int) =~= v@);
    }
}

/// Whether every character of `s` in `[i, j)` is a decimal digit.
pub fn all_digits_range(s: &Vec<char>, i: usize, j: usize) -> (r: bool)
    requires
        i <= j <= s@.len(),
    ensures
        r == all_digits(s@.subrange(i as int, j as int)),
{
    let ghost t = s@.subrange(i as int, j as int);
    let mut k: usize = i;
    while k < j
        invariant
            i <= k <= j <= s@.len(),
            t == s@.subrange(i as int, j as int),
            forall|m: int| 0 <= m < k - i ==> is_digit(#[trigger] t[m]),
        decreases j - k,
    {
        let c = s[k];
        if !('0' <= c && c <= '9') {
            assert(!is_digit(t[k - i]));
            return false;
        }
        k = k + 1;
    }
    true
}

/// The fraction `f` read as milliseconds: the first three digits after the
/// decimal point count, shorter fractions are scaled up.
pub open spec fn frac_millis(f: Seq<char>) -> nat
    recommends
        f.len() > 0,
        all_digits(f),
{
    if f.len() >= 3 {
        num_val(f.subrange(0, 3))
    } else if f.len() == 2 {
        num_val(f) * 10
    } else {
        num_val(f) * 100
    }
}

/// The fraction of a duration is below one thousand milliseconds.
pub proof fn lemma_frac_millis_bound(f: Seq<char>)
    requires
        f.len() > 0,
        all_digits(f),
    ensures
        frac_millis(f) < 1000,
{
    assert(pow10(0) == 1);
    assert(pow10(1) == 10);
    assert(pow10(2) == 100);
    assert(pow10(3) == 1000);
    if f.len() >= 3 {
        assert(all_digits(f.subrange(0, 3)));
        lemma_num_val_bound(f.subrange(0, 3));
    } else {
        lemma_num_val_bound(f);
    }
}

/// The number of milliseconds a decimal-seconds string denotes: whole
/// seconds, optionally followed by `.` and a non-empty run of fraction
/// digits. `None` when the string is malformed or the value does not fit.
pub open spec fn spec_parse_duration(s: Seq<char>) -> Option<u64> {
    match spec_find(s, '.') {
        Option::None => match spec_parse_u64(s) {
            Some(v) => if v * 1000 <= u64::MAX {
                Some((v * 1000) as u64)
            } else {
                Option::None
            },
            Option::None => Option::None,
        },
        Some(i) => {
            let ip = s.subrange(0, i);
            let fp = s.subrange(i + 1, s.len() as int);
            if ip.len() > 0 && all_digits(ip) && fp.len() > 0 && all_digits(fp) && num_val(ip)
                * 1000 + frac_millis(fp) <= u64::MAX {
                Some((num_val(ip) * 1000 + frac_millis(fp)) as u64)
            } else {
                Option::None
            }
        },
    }
}

/// Parses the characters of `s` in `[i, j)` as decimal seconds, giving
/// milliseconds.
pub fn parse_duration_range(s: &Vec<char>, i: usize, j: usize) -> (r: Option<u64>)
    requires
        i <= j <= s@.len(),
    ensures
        r == spec_parse_duration(s@.subrange(i as int, j as int)),
{
    let ghost t = s@.subrange(i as int, j as int);
    match find_char_range(s, i, j, '.') {
        Option::None => {
            match parse_u64_range(s, i, j) {
                Some(v) => {
                    if v <= u64::MAX / 1000 {
                        proof {
                            assert(v * 1000 <= u64::MAX) by (nonlinear_arith)
                                requires
                                    v <= u64::MAX / 1000,
                            ;
                        }
                        Some(v * 1000)
                    } else {
                        proof {
                            assert(v * 1000 > u64::MAX) by (nonlinear_arith)
                                requires
                                    v > u64::MAX / 1000,
                            ;
                        }
                        Option::None
                    }
                }
                Option::None => Option::None,
            }
        }
        Some(k) => {
            let ghost ip = t.subrange(0, k - i);
            let ghost fp = t.subrange(k - i + 1, t.len() as int);
            proof {
                assert(ip =~= s@.subrange(i as int, k as int));
                assert(fp =~= s@.subrange(k + 1, j as int));
            }
            let secs_opt = parse_u64_range(s, i, k);
            if k + 1 == j {
                // empty fraction
                assert(fp.len() == 0);
                return Option::None;
            }
            if !all_digits_range(s, k + 1, j) {
                return Option::None;
            }
            match secs_opt {
                Option::None => {
                    proof {
                        if ip.len() > 0 && all_digits(ip) {
                            // the whole part alone already exceeds `u64::MAX`
                            assert(num_val(ip) > u64::MAX);
                        }
                    }
                    Option::None
                }
                Some(secs) => {
                    let flen = j - (k + 1);
                    let frac: u64 = if flen >= 3 {
                        proof {
                            assert(all_digits(fp.subrange(0, 3)));
                            lemma_num_val_bound(fp.subrange(0, 3));
                            assert(pow10(0) == 1);
                            assert(pow10(1) == 10);
                            assert(pow10(2) == 100);
                            assert(pow10(3) == 1000);
                            assert(fp.subrange(0, 3) =~= s@.subrange(k + 1, k + 4));
                        }
                        match parse_u64_range(s, k + 1, k + 4) {
                            Some(v) => v,
                            Option::None => {
                                proof {
                                    assert(false);
                                }
                                0
                            }
                        }
                    } else {
                        proof {
                            lemma_num_val_bound(fp);
                            assert(pow10(0) == 1);
                            assert(pow10(1) == 10);
                            assert(pow10(2) == 100);
                        }
                        match parse_u64_range(s, k + 1, j) {
                            Some(v) => {
                                if flen == 2 {
                                    v * 10
                                } else {
                                    v * 100
                                }
                            }
                            Option::None => {
                                proof {
                                    assert(false);
                                }
                                0
                            }
                        }
                    };
                    assert(frac == frac_millis(fp));
                    if secs > (u64::MAX - frac) / 1000 {
                        proof {
                            assert(secs * 1000 + frac > u64::MAX) by (nonlinear_arith)
                                requires
                                    secs > (u64::MAX - frac) / 1000,
                                    frac <= u64::MAX,
                            ;
                        }
                        Option::None
                    } else {
                        proof {
                            assert(secs * 1000 + frac <= u64::MAX) by (nonlinear_arith)
                                requires
                                    secs <= (u64::MAX - frac) / 1000,
                                    frac <= u64::MAX,
                            ;
                        }
                        Some(secs * 1000 + frac)
                    }
                }
            }
        }
    }
}

/// The canonical decimal-seconds rendering of `m` milliseconds: whole
/// seconds, then a three-digit fraction when one is present.
pub open spec fn spec_render_duration(m: u64) -> Seq<char> {
    if m % 1000 == 0 {
        spec_render_u64((m / 1000) as nat)
    } else {
        spec_render_u64((m / 1000) as nat) + seq!['.'] + seq![
            digit_char(((m % 1000) / 100) as nat),
            digit_char((((m % 1000) / 10) % 10) as nat),
            digit_char(((m % 1000) % 10) as nat),
        ]
    }
}

/// Appends the canonical decimal-seconds rendering of `m` milliseconds.
pub fn push_duration(out: &mut String, m: u64)
    ensures
        final(out)@ == old(out)@ + spec_render_duration(m),
{
    push_u64(out, m / 1000);
    let f = m % 1000;
    if f != 0 {
        proof {
            reveal_strlit(".");
        }
        out.append(".");
        push_digit(out, f / 100);
        push_digit(out, (f / 10) % 10);
        push_digit(out, f % 10);
        proof {
            assert(final(out)@ =~= old(out)@ + spec_render_duration(m));
        }
    }
}

/// Rendering then reading a duration gives the milliseconds back.
pub proof fn lemma_parse_render_duration(m: u64)
    ensures
        spec_parse_duration(spec_render_duration(m)) == Some(m),
{
    let t = spec_render_duration(m);
    lemma_render_u64_digits((m / 1000) as nat);
    if m % 1000 == 0 {
        lemma_digits_exclude(t, '.');
        lemma_find_char_none(t, '.');
        lemma_parse_render_u64(m / 1000);
        assert((m / 1000) * 1000 == m);
    } else {
        let a = spec_render_u64((m / 1000) as nat);
        let f = (m % 1000) as nat;
        let fp = seq![
            digit_char((f / 100) as nat),
            digit_char(((f / 10) % 10) as nat),
            digit_char((f % 10) as nat),
        ];
        lemma_digit_roundtrip(f / 100);
        lemma_digit_roundtrip((f / 10) % 10);
        lemma_digit_roundtrip(f % 10);
        lemma_digits_exclude(a, '.');
        assert(t[a.len() as int] == '.');
        assert(forall|j: int| 0 <= j < a.len() ==> t[j] == a[j] && t[j] != '.');
        lemma_find_char_at(t, '.', a.len() as int);
        assert(t.subrange(0, a.len() as int) =~= a);
        assert(t.subrange(a.len() as int + 1, t.len() as int) =~= fp);
        lemma_parse_render_u64(m / 1000);
        assert(all_digits(fp));
        // the three fraction digits read back as the fraction value
        assert(fp.subrange(0, 3) =~= fp);
        let d2 = seq![digit_char((f / 100) as nat), digit_char(((f / 10) % 10) as nat)];
        let d1 = seq![digit_char((f / 100) as nat)];
        assert(fp.drop_last() =~= d2);
        assert(d2.drop_last() =~= d1);
        assert(d1.drop_last() =~= Seq::<char>::empty());
        assert(d1.last() == digit_char((f / 100) as nat));
        assert(d2.last() == digit_char(((f / 10) % 10) as nat));
        assert(fp.last() == digit_char((f % 10) as nat));
        assert(num_val(Seq::<char>::empty()) == 0);
        assert(num_val(d1) == digit_val(d1.last()));
        assert(num_val(d2) == num_val(d1) * 10 + digit_val(d2.last()));
        assert(num_val(fp) == num_val(d2) * 10 + digit_val(fp.last()));
        assert(num_val(fp) == ((f / 100) * 10 + (f / 10) % 10) * 10 + f % 10);
        assert(f / 10 == (f / 100) * 10 + (f / 10) % 10);
        assert(f == (f / 10) * 10 + f % 10);
        assert(frac_millis(fp) == f);
        assert(num_val(a) * 1000 + frac_millis(fp) == m);
    }
}

/// The lines of `s`: the text between consecutive newline characters, with
/// the newlines themselves removed. There is always at least one line.
pub open spec fn spec_split_lines(s: Seq<char>) -> Seq<Seq<char>>
    decreases s.len(),
{
    if s.len() == 0 {
        seq![s]
    } else {
        match spec_find(s, '\n') {
            Some(i0) => {
                let i = if 0 <= i0 < s.len() {
                    i0
                } else {
                    0
                };
                seq![s.subrange(0, i)] + spec_split_lines(s.subrange(i + 1, s.len() as int))
            },
            Option::None => seq![s],
        }
    }
}

/// Splitting steps over the first newline.
pub proof fn lemma_split_lines_step(s: Seq<char>, i: int)
    requires
        0 <= i < s.len(),
        s[i] == '\n',
        forall|j: int| 0 <= j < i ==> s[j] != '\n',
    ensures
        spec_split_lines(s) == seq![s.subrange(0, i)] + spec_split_lines(
            s.subrange(i + 1, s.len() as int),
        ),
{
    lemma_find_char_at(s, '\n', i);
}

/// A string without newlines is a single line.
pub proof fn lemma_split_lines_none(s: Seq<char>)
    requires
        forall|j: int| 0 <= j < s.len() ==> s[j] != '\n',
    ensures
        spec_split_lines(s) == seq![s],
{
    lemma_find_char_none(s, '\n');
}

/// Whether a trimmed line carries content: it is non-empty, and it is not a
/// comment. A line starting with `#` is a directive when it starts with
/// `#EXT` and a comment otherwise.
pub open spec fn keep_line(t: Seq<char>) -> bool {
    t.len() > 0 && (t[0] != '#' || (t.len() >= 4 && t.subrange(0, 4) == "#EXT"@))
}

/// The trimmed content-bearing lines among `lines`, in order.
pub open spec fn sig_of(lines: Seq<Seq<char>>) -> Seq<Seq<char>>
    decreases lines.len(),
{
    if lines.len() == 0 {
        Seq::empty()
    } else {
        let t = spec_trim(lines[0]);
        let rest = sig_of(lines.drop_first());
        if keep_line(t) {
            seq![t] + rest
        } else {
            rest
        }
    }
}

/// The significant lines of a document: split at newlines, trimmed, blank
/// lines and comments dropped.
pub open spec fn spec_significant_lines(s: Seq<char>) -> Seq<Seq<char>> {
    sig_of(spec_split_lines(s))
}

/// The significant lines of the document `s`, as ranges into `s`.
pub fn significant_lines(s: &Vec<char>) -> (r: Vec<(usize, usize)>)
    ensures
        forall|k: int| 0 <= k < r@.len() ==> #[trigger] r@[k].0 <= r@[k].1 <= s@.len(),
        Seq::new(r@.len(), |k: int| s@.subrange(r@[k].0 as int, r@[k].1 as int))
            == spec_significant_lines(s@),
{
    let n = s.len();
    let mut out: Vec<(usize, usize)> = Vec::new();
    let mut pos: usize = 0;
    proof {
        assert(s@.subrange(0, n as int) =~= s@);
        assert(Seq::new(0, |k: int| s@.subrange(out@[k].0 as int, out@[k].1 as int))
            =~= Seq::<Seq<char>>::empty());
        assert(Seq::<Seq<char>>::empty() + sig_of(spec_split_lines(s@)) =~= sig_of(
            spec_split_lines(s@),
        ));
    }
    while pos < n
        invariant
            0 <= pos <= n == s@.len(),
            forall|k: int| 0 <= k < out@.len() ==> #[trigger] out@[k].0 <= out@[k].1 <= s@.len(),
            spec_significant_lines(s@) == Seq::new(
                out@.len(),
                |k: int| s@.subrange(out@[k].0 as int, out@[k].1 as int),
            ) + sig_of(spec_split_lines(s@.subrange(pos as int, n as int))),
        decreases n - pos,
    {
        let ghost rest = s@.subrange(pos as int, n as int);
        let ghost out_pre = out@;
        let line_end: usize;
        let next_pos: usize;
        match find_char_range(s, pos, n, '\n') {
            Some(k) => {
                proof {
                    lemma_find_char(rest, '\n');
                    lemma_split_lines_step(rest, k - pos);
                    assert(rest.subrange(0, k - pos) =~= s@.subrange(pos as int, k as int));
                    assert(rest.subrange(k - pos + 1, rest.len() as int) =~= s@.subrange(
                        k + 1,
                        n as int,
                    ));
                }
                line_end = k;
                next_pos = k + 1;
            }
            Option::None => {
                proof {
                    lemma_find_char(rest, '\n');
                    lemma_split_lines_none(rest);
                    assert(s@.subrange(n as int, n as int).len() == 0);
                    assert(spec_split_lines(s@.subrange(n as int, n as int)) == seq![
                        s@.subrange(n as int, n as int),
                    ]);
                }
                line_end = n;
                next_pos = n;
            }
        }
        let ghost line = s@.subrange(pos as int, line_end as int);
        // `spec_split_lines(rest)` is `[line] + spec_split_lines(rest')`
        // where `rest'` is the text after `next_pos` (or `[line]` alone at
        // the end, with an empty rest contributing nothing).
        let (a, b) = trim_range(s, pos, line_end);
        let ghost t = spec_trim(line);
        assert(s@.subrange(a as int, b as int) == t);
        let keep = if b == a {
            false
        } else if s[a] != '#' {
            true
        } else {
            range_starts_with_str(s, a, b, "#EXT")
        };
        proof {
            reveal_strlit("#EXT");
            assert(t.len() == b - a);
            if t.len() > 0 {
                assert(t[0] == s@[a as int]);
                if b - a >= 4 {
                    assert(t.subrange(0, 4) =~= s@.subrange(a as int, b as int).subrange(0, 4));
                }
            }
            assert(keep == keep_line(t));
        }
        if keep {
            out.push((a, b));
        }
        proof {
            let lines_rest = spec_split_lines(s@.subrange(next_pos as int, n as int));
            let split_rest = spec_split_lines(rest);
            let view_pre = Seq::new(
                out_pre.len(),
                |k: int| s@.subrange(out_pre[k].0 as int, out_pre[k].1 as int),
            );
            let sig_rest = sig_of(lines_rest);
            if next_pos == n && line_end == n {
                // final line without a newline; the empty remainder splits
                // into one blank line which carries nothing
                assert(split_rest == seq![line]);
                assert(split_rest[0] == line);
                assert(split_rest.drop_first() =~= Seq::<Seq<char>>::empty());
                assert(sig_of(split_rest.drop_first()) == Seq::<Seq<char>>::empty());
                let e = s@.subrange(n as int, n as int);
                assert(e.len() == 0);
                assert(lines_rest == seq![e]);
                assert(seq![e][0] == e);
                assert(spec_trim(e) == e);
                assert(!keep_line(spec_trim(e)));
                assert(seq![e].drop_first() =~= Seq::<Seq<char>>::empty());
                assert(sig_of(seq![e].drop_first()) == Seq::<Seq<char>>::empty());
                assert(sig_rest =~= Seq::<Seq<char>>::empty());
            } else {
                assert(split_rest == seq![line] + lines_rest);
                assert(split_rest[0] == line);
                assert(split_rest.drop_first() =~= lines_rest);
            }
            assert(sig_of(split_rest) == if keep_line(t) {
                seq![t] + sig_rest
            } else {
                sig_rest
            });
            let view_now = Seq::new(
                out@.len(),
                |k: int| s@.subrange(out@[k].0 as int, out@[k].1 as int),
            );
            if keep_line(t) {
                assert(view_now =~= view_pre + seq![t]);
                assert((view_pre + seq![t]) + sig_rest =~= view_pre + (seq![t] + sig_rest));
            } else {
                assert(view_now =~= view_pre);
            }
            assert(spec_significant_lines(s@) == view_now + sig_rest);
        }
        pos = next_pos;
    }
    proof {
        let e = s@.subrange(pos as int, n as int);
        assert(e.len() == 0);
        assert(spec_split_lines(e) == seq![e]);
        assert(seq![e][0] == e);
        assert(spec_trim(e) == e);
        assert(!keep_line(spec_trim(e)));
        assert(seq![e].drop_first() =~= Seq::<Seq<char>>::empty());
        assert(sig_of(seq![e].drop_first()) == Seq::<Seq<char>>::empty());
        assert(sig_of(spec_split_lines(e)) =~= Seq::<Seq<char>>::empty());
        assert(Seq::new(
            out@.len(),
            |k: int| s@.subrange(out@[k].0 as int, out@[k].1 as int),
        ) + sig_of(spec_split_lines(e)) =~= Seq::new(
            out@.len(),
            |k: int| s@.subrange(out@[k].0 as int, out@[k].1 as int),
        ));
    }
    out
}

} // verus!


