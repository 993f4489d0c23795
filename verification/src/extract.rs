//! The metadata extractor: the line grammar of a cue card document.
//!
//! A document is a Markdown file.  One pass over its lines finds
//! the title — the first line of the form `# <text>` — and the metadata
//! lines of the form `* **Key**: value`.  Metadata values that contain a
//! Markdown link on a `mailto:` target are rewritten to the link's visible
//! text, and the `phase` value is always decomposed into a canonical phase
//! token plus a `plusfigures` remainder.
//!
//! Every rule is stated as a spec function over `Seq<char>`; the executable
//! scanner is proved to produce exactly the mapping those rules denote.

use vstd::prelude::*;
use crate::text::{
    is_blank, blank_run_end, word_run_end, trim_trailing_blanks, lower,
    exec_is_blank, exec_blank_run_end, exec_word_run_end, exec_trim_trailing_blanks,
    sub_vec, lower_vec, chars_vec, chars_to_string,
};
use crate::meta::{
    MetaDataType, MetadataMap, value_or, phase_key, plusfigures_key, title_key, unphased_value,
};

verus! {

// ---------------------------------------------------------------------------
// Splitting a document into lines
// ---------------------------------------------------------------------------
/// A line with one trailing carriage return removed (line endings may be
/// either `\n` or `\r\n`).
pub open spec fn strip_cr(l: Seq<char>) -> Seq<char> {
    if l.len() > 0 && l.last() == '\r' {
        l.drop_last()
    } else {
        l
    }
}

/// The lines of `s[start..]`, where `s[start..i]` is already known to hold
/// no line break; a final empty segment after a trailing break is dropped.
pub open spec fn lines_from(s: Seq<char>, start: int, i: int) -> Seq<Seq<char>>
    decreases s.len() - i when 0 <= start <= i <= s.len()
{
    if i >= s.len() {
        if start < s.len() {
            seq![strip_cr(s.subrange(start, s.len() as int))]
        } else {
            Seq::empty()
        }
    } else if s[i] == '\n' {
        seq![strip_cr(s.subrange(start, i))] + lines_from(s, i + 1, i + 1)
    } else {
        lines_from(s, start, i + 1)
    }
}

/// The lines of a document.
pub open spec fn split_lines(s: Seq<char>) -> Seq<Seq<char>> {
    lines_from(s, 0, 0)
}

/// Splits the document into its lines.
pub fn exec_split_lines(v: &Vec<char>) -> (r: Vec<Vec<char>>)
    ensures
        r.deep_view() == split_lines(v@),
{
    let mut r: Vec<Vec<char>> = Vec::new();
    let mut start: usize = 0;
    let mut i: usize = 0;
    proof {
        assert(r.deep_view() + lines_from(v@, 0, 0) =~~= lines_from(v@, 0, 0));
    }
    while i < v.len()
        invariant
            0 <= start <= i <= v@.len(),
            r.deep_view() + lines_from(v@, start as int, i as int) == lines_from(v@, 0, 0),
        decreases v@.len() - i,
    {
        if v[i] == '\n' {
            let mut line = sub_vec(v, start, i);
            if line.len() > 0 && line[line.len() - 1] == '\r' {
                line.pop();
            }
            proof {
                assert(line@ =~= strip_cr(v@.subrange(start as int, i as int)));
            }
            let ghost old_dv = r.deep_view();
            r.push(line);
            proof {
                assert(r.deep_view() =~~= old_dv.push(
                    strip_cr(v@.subrange(start as int, i as int)),
                ));
                assert(r.deep_view() + lines_from(v@, i + 1, i + 1) =~~= lines_from(v@, 0, 0));
            }
            start = i + 1;
        }
        i += 1;
    }
    if start < v.len() {
        let mut line = sub_vec(v, start, v.len());
        if line.len() > 0 && line[line.len() - 1] == '\r' {
            line.pop();
        }
        proof {
            assert(line@ =~= strip_cr(v@.subrange(start as int, v@.len() as int)));
        }
        let ghost old_dv = r.deep_view();
        r.push(line);
        proof {
            assert(r.deep_view() =~~= old_dv.push(
                strip_cr(v@.subrange(start as int, v@.len() as int)),
            ));
            assert(r.deep_view() =~~= lines_from(v@, 0, 0));
        }
    } else {
        proof {
            assert(r.deep_view() + lines_from(v@, start as int, v@.len() as int) =~~= r.deep_view());
            assert(r.deep_view() =~~= lines_from(v@, 0, 0));
        }
    }
    r
}

// ---------------------------------------------------------------------------
// The title line: `# <text>`
// ---------------------------------------------------------------------------
/// A level-1 heading: a `#`, at least one blank, then the title text.
pub open spec fn is_title_line(s: Seq<char>) -> bool {
    s.len() >= 2 && s[0] == '#' && is_blank(s[1])
}

/// The text of a title line: everything after the blanks that follow `#`.
pub open spec fn title_of(s: Seq<char>) -> Seq<char> {
    s.subrange(blank_run_end(s, 1), s.len() as int)
}

/// Recognizes a title line and returns its text.
pub fn exec_title_line(v: &Vec<char>) -> (r: Option<Vec<char>>)
    ensures
        r is Some <==> is_title_line(v@),
        r is Some ==> r->0@ == title_of(v@),
{
    if v.len() >= 2 && v[0] == '#' && exec_is_blank(v[1]) {
        let b = exec_blank_run_end(v, 1);
        Some(sub_vec(v, b, v.len()))
    } else {
        None
    }
}

// ---------------------------------------------------------------------------
// A metadata line: `* **Key**: value`
// ---------------------------------------------------------------------------
/// Decomposes a metadata line into its raw key and its value (the text
/// after the colon, leading and trailing blanks removed); `None` when the
/// line is not a metadata line.
pub open spec fn meta_line_parts(s: Seq<char>) -> Option<(Seq<char>, Seq<char>)> {
    if s.len() < 1 || s[0] != '*' {
        None
    } else {
        let b = blank_run_end(s, 1);
        if b <= 1 || !(b + 2 <= s.len() && s[b] == '*' && s[b + 1] == '*') {
            None
        } else {
            let w = word_run_end(s, b + 2);
            if w <= b + 2 || !(w + 3 <= s.len() && s[w] == '*' && s[w + 1] == '*' && s[w + 2]
                == ':') {
                None
            } else {
                let e = blank_run_end(s, w + 3);
                if e <= w + 3 {
                    None
                } else {
                    Some(
                        (
                            s.subrange(b + 2, w),
                            trim_trailing_blanks(s.subrange(e, s.len() as int)),
                        ),
                    )
                }
            }
        }
    }
}

/// Recognizes a metadata line and returns its raw key and value.
pub fn exec_meta_line(v: &Vec<char>) -> (r: Option<(Vec<char>, Vec<char>)>)
    ensures
        r is Some <==> meta_line_parts(v@) is Some,
        r is Some ==> meta_line_parts(v@) == Some(((r->0).0@, (r->0).1@)),
{
    if v.len() < 1 || v[0] != '*' {
        return None;
    }
    let b = exec_blank_run_end(v, 1);
    if b <= 1 || v.len() < 2 || b > v.len() - 2 || v[b] != '*' || v[b + 1] != '*' {
        return None;
    }
    let w = exec_word_run_end(v, b + 2);
    if w <= b + 2 || v.len() < 3 || w > v.len() - 3 || v[w] != '*' || v[w + 1] != '*' || v[w + 2]
        != ':' {
        return None;
    }
    let e = exec_blank_run_end(v, w + 3);
    if e <= w + 3 {
        return None;
    }
    let key = sub_vec(v, b + 2, w);
    let value = exec_trim_trailing_blanks(v, e);
    Some((key, value))
}

// ---------------------------------------------------------------------------
// Stripping a mailto link from a metadata value
// ---------------------------------------------------------------------------
/// Position `j` closes a mailto link: a `]`, then `(mailto`, then a `)`
/// somewhere later.
pub open spec fn mail_end_ok(s: Seq<char>, j: int) -> bool {
    0 <= j && j + 8 < s.len() && s[j] == ']' && s[j + 1] == '(' && s[j + 2] == 'm' && s[j + 3]
        == 'a' && s[j + 4] == 'i' && s[j + 5] == 'l' && s[j + 6] == 't' && s[j + 7] == 'o'
        && exists|k: int| j + 8 <= k < s.len() && #[trigger] s[k] == ')'
}

/// A mailto link with its visible text between positions `i` and `j`.
pub open spec fn mail_match_at(s: Seq<char>, i: int, j: int) -> bool {
    0 <= i && i + 1 < j && s[i] == '[' && mail_end_ok(s, j)
}

/// The value contains a mailto link.
pub open spec fn has_mail(s: Seq<char>) -> bool {
    exists|i: int, j: int| #[trigger] mail_match_at(s, i, j)
}

/// The greatest position `<= hi` that closes a mailto link, or -1.
pub open spec fn last_end_from(s: Seq<char>, hi: int) -> int
    decreases hi + 1 when -1 <= hi < s.len()
{
    if hi < 0 {
        -1
    } else if mail_end_ok(s, hi) {
        hi
    } else {
        last_end_from(s, hi - 1)
    }
}

/// The closing position of the link: the greedy (greatest) one.
pub open spec fn mail_j(s: Seq<char>) -> int {
    last_end_from(s, s.len() - 1)
}

/// The first position at or after `i` that opens a link closed by `mail_j`.
pub open spec fn first_start_from(s: Seq<char>, i: int) -> int
    decreases s.len() - i when 0 <= i <= s.len()
{
    if i >= s.len() {
        s.len() as int
    } else if s[i] == '[' && i + 1 < mail_j(s) {
        i
    } else {
        first_start_from(s, i + 1)
    }
}

/// The opening position of the link: the leftmost one.
pub open spec fn mail_i(s: Seq<char>) -> int {
    first_start_from(s, 0)
}

/// A metadata value holding a mailto link is rewritten to the link's
/// visible text (the leftmost opening bracket, the greediest closing one);
/// any other value stays as it is.
pub open spec fn strip_mailto(s: Seq<char>) -> Seq<char> {
    if mail_i(s) < s.len() {
        s.subrange(mail_i(s) + 1, mail_j(s))
    } else {
        s
    }
}

proof fn lemma_last_end_eq(s: Seq<char>, hi: int, j: int)
    requires
        -1 <= hi < s.len(),
        0 <= j <= hi,
        mail_end_ok(s, j),
        forall|j2: int| j < j2 <= hi ==> !mail_end_ok(s, j2),
    ensures
        last_end_from(s, hi) == j,
    decreases hi,
{
    if hi > j {
        lemma_last_end_eq(s, hi - 1, j);
    }
}

proof fn lemma_last_end_none(s: Seq<char>, hi: int)
    requires
        -1 <= hi < s.len(),
        forall|j2: int| 0 <= j2 <= hi ==> !mail_end_ok(s, j2),
    ensures
        last_end_from(s, hi) == -1,
    decreases hi + 1,
{
    if hi >= 0 {
        lemma_last_end_none(s, hi - 1);
    }
}

proof fn lemma_first_start_eq(s: Seq<char>, k: int, i: int)
    requires
        0 <= k <= i < s.len(),
        s[i] == '[' && i + 1 < mail_j(s),
        forall|i2: int| k <= i2 < i ==> !(s[i2] == '[' && i2 + 1 < mail_j(s)),
    ensures
        first_start_from(s, k) == i,
    decreases i - k,
{
    if k < i {
        lemma_first_start_eq(s, k + 1, i);
    }
}

proof fn lemma_first_start_none(s: Seq<char>, k: int)
    requires
        0 <= k <= s.len(),
        forall|i2: int| k <= i2 < s.len() ==> !(s[i2] == '[' && i2 + 1 < mail_j(s)),
    ensures
        first_start_from(s, k) == s.len(),
    decreases s.len() - k,
{
    if k < s.len() {
        lemma_first_start_none(s, k + 1);
    }
}

/// The stripping rule fires exactly on the values that hold a mailto link.
pub proof fn lemma_strip_fires_iff_has_mail(s: Seq<char>)
    ensures
        has_mail(s) <==> mail_i(s) < s.len(),
{
    lemma_first_start_bounds(s, 0);
    if mail_i(s) < s.len() {
        lemma_first_start_hit(s, 0);
        lemma_last_end_hit(s);
        assert(mail_match_at(s, mail_i(s), mail_j(s)));
    }
    if has_mail(s) {
        let (i, j) = choose|i: int, j: int| #[trigger] mail_match_at(s, i, j);
        lemma_last_end_miss(s, j);
        assert(s[i] == '[' && i + 1 < mail_j(s));
        if mail_i(s) >= s.len() {
            lemma_first_start_misses(s, 0, i);
            assert(false);
        }
    }
}

proof fn lemma_first_start_bounds(s: Seq<char>, k: int)
    requires
        0 <= k <= s.len(),
    ensures
        k <= first_start_from(s, k) <= s.len(),
    decreases s.len() - k,
{
    if k < s.len() && !(s[k] == '[' && k + 1 < mail_j(s)) {
        lemma_first_start_bounds(s, k + 1);
    }
}

proof fn lemma_first_start_hit(s: Seq<char>, k: int)
    requires
        0 <= k <= s.len(),
        first_start_from(s, k) < s.len(),
    ensures
        s[first_start_from(s, k)] == '[',
        first_start_from(s, k) + 1 < mail_j(s),
    decreases s.len() - k,
{
    if k < s.len() && !(s[k] == '[' && k + 1 < mail_j(s)) {
        lemma_first_start_hit(s, k + 1);
    }
}

proof fn lemma_first_start_misses(s: Seq<char>, k: int, i: int)
    requires
        0 <= k <= i < s.len(),
        s[i] == '[' && i + 1 < mail_j(s),
    ensures
        first_start_from(s, k) <= i,
    decreases i - k,
{
    if k < i && !(s[k] == '[' && k + 1 < mail_j(s)) {
        lemma_first_start_misses(s, k + 1, i);
    }
}

proof fn lemma_last_end_hit(s: Seq<char>)
    requires
        mail_j(s) >= 0,
    ensures
        mail_end_ok(s, mail_j(s)),
        mail_j(s) < s.len(),
{
    lemma_last_end_hit_from(s, s.len() - 1);
}

proof fn lemma_last_end_hit_from(s: Seq<char>, hi: int)
    requires
        -1 <= hi < s.len(),
        last_end_from(s, hi) >= 0,
    ensures
        mail_end_ok(s, last_end_from(s, hi)),
        last_end_from(s, hi) <= hi,
    decreases hi + 1,
{
    if hi >= 0 && !mail_end_ok(s, hi) {
        lemma_last_end_hit_from(s, hi - 1);
    }
}

proof fn lemma_last_end_miss(s: Seq<char>, j: int)
    requires
        0 <= j < s.len(),
        mail_end_ok(s, j),
    ensures
        last_end_from(s, s.len() - 1) >= j,
{
    lemma_last_end_miss_from(s, s.len() - 1, j);
}

proof fn lemma_last_end_miss_from(s: Seq<char>, hi: int, j: int)
    requires
        0 <= j <= hi < s.len(),
        mail_end_ok(s, j),
    ensures
        last_end_from(s, hi) >= j,
    decreases hi,
{
    if hi > j && !mail_end_ok(s, hi) {
        lemma_last_end_miss_from(s, hi - 1, j);
    }
}

/// The greatest index holding `)` — the candidate end of a mailto link.
fn exec_last_paren(v: &Vec<char>) -> (r: Option<usize>)
    ensures
        match r {
            Some(l) => l < v@.len() && v@[l as int] == ')' && forall|k: int|
                l < k < v@.len() ==> v@[k] != ')',
            None => forall|k: int| 0 <= k < v@.len() ==> v@[k] != ')',
        },
{
    let mut i = v.len();
    while i > 0
        invariant
            i <= v@.len(),
            forall|k: int| i <= k < v@.len() ==> v@[k] != ')',
        decreases i,
    {
        i -= 1;
        if v[i] == ')' {
            return Some(i);
        }
    }
    None
}

/// Whether position `j` closes a mailto link, given the last `)` at `l`.
fn exec_end_ok_at(v: &Vec<char>, j: usize, l: usize) -> (r: bool)
    requires
        j + 8 <= l < v@.len(),
        v@[l as int] == ')',
    ensures
        r == mail_end_ok(v@, j as int),
{
    let r = v[j] == ']' && v[j + 1] == '(' && v[j + 2] == 'm' && v[j + 3] == 'a' && v[j + 4] == 'i'
        && v[j + 5] == 'l' && v[j + 6] == 't' && v[j + 7] == 'o';
    proof {
        if r {
            assert(v@[l as int] == ')');
            assert(mail_end_ok(v@, j as int));
        }
    }
    r
}

/// The greedy closing position, given the last `)` at position `l >= 8`.
fn exec_mail_j(v: &Vec<char>, l: usize) -> (r: Option<usize>)
    requires
        8 <= l < v@.len(),
        v@[l as int] == ')',
        forall|k: int| l < k < v@.len() ==> v@[k] != ')',
    ensures
        match r {
            Some(mj) => mj < v@.len() && mail_j(v@) == mj as int,
            None => mail_j(v@) == -1,
        },
{
    let ghost s = v@;
    proof {
        assert forall|j2: int| l - 8 < j2 < s.len() implies !mail_end_ok(s, j2) by {
            if mail_end_ok(s, j2) {
                let k = choose|k: int| j2 + 8 <= k < s.len() && #[trigger] s[k] == ')';
                assert(k <= l);
                assert(false);
            }
        }
    }
    let mut j = l - 8;
    loop
        invariant
            j <= l - 8,
            8 <= l < v@.len(),
            v@[l as int] == ')',
            s == v@,
            forall|j2: int| j < j2 < s.len() ==> !mail_end_ok(s, j2),
        decreases j + 1,
    {
        if exec_end_ok_at(v, j, l) {
            proof {
                lemma_last_end_eq(s, s.len() - 1, j as int);
            }
            return Some(j);
        }
        if j == 0 {
            proof {
                lemma_last_end_none(s, s.len() - 1);
            }
            return None;
        }
        j -= 1;
    }
}

/// Rewrites a value holding a mailto link to the link's visible text.
pub fn exec_strip_mailto(v: &Vec<char>) -> (r: Vec<char>)
    ensures
        r@ == strip_mailto(v@),
{
    let ghost s = v@;
    let l = match exec_last_paren(v) {
        Some(l) => l,
        None => {
            proof {
                assert forall|j2: int| 0 <= j2 < s.len() implies !mail_end_ok(s, j2) by {
                    if mail_end_ok(s, j2) {
                        let k = choose|k: int|
                            j2 + 8 <= k < s.len() && #[trigger] s[k] == ')';
                        assert(false);
                    }
                }
                if s.len() > 0 {
                    lemma_last_end_none(s, s.len() - 1);
                }
                lemma_first_start_none(s, 0);
            }
            return sub_vec(v, 0, v.len());
        },
    };
    if l < 8 {
        proof {
            assert forall|j2: int| 0 <= j2 < s.len() implies !mail_end_ok(s, j2) by {
                if mail_end_ok(s, j2) {
                    let k = choose|k: int| j2 + 8 <= k < s.len() && #[trigger] s[k] == ')';
                    assert(k <= l);
                    assert(false);
                }
            }
            lemma_last_end_none(s, s.len() - 1);
            lemma_first_start_none(s, 0);
        }
        return sub_vec(v, 0, v.len());
    }
    let mj = match exec_mail_j(v, l) {
        Some(mj) => mj,
        None => {
            proof {
                lemma_first_start_none(s, 0);
            }
            return sub_vec(v, 0, v.len());
        },
    };
    // scan up for the leftmost opening bracket
    let mut i: usize = 0;
    while i < v.len()
        invariant
            i <= v@.len(),
            s == v@,
            mail_j(s) == mj as int,
            mj < v@.len(),
            forall|i2: int| 0 <= i2 < i ==> !(s[i2] == '[' && i2 + 1 < mail_j(s)),
        decreases v@.len() - i,
    {
        if v[i] == '[' && i + 1 < mj {
            proof {
                lemma_first_start_eq(s, 0, i as int);
            }
            return sub_vec(v, i + 1, mj);
        }
        i += 1;
    }
    proof {
        lemma_first_start_none(s, 0);
    }
    sub_vec(v, 0, v.len())
}

// ---------------------------------------------------------------------------
// Phase decomposition
// ---------------------------------------------------------------------------
/// The accepted phase numerals, in the order in which they are tried.
pub open spec fn numeral(k: int) -> Seq<char> {
    if k == 1 {
        seq!['I']
    } else if k == 2 {
        seq!['I', 'I']
    } else if k == 3 {
        seq!['I', 'I', 'I']
    } else if k == 4 {
        seq!['I', 'V']
    } else if k == 5 {
        seq!['V']
    } else {
        seq!['V', 'I']
    }
}

/// After the numeral: blanks, then either the end or a `+` suffix.
pub open spec fn phase_rest_ok(s: Seq<char>, p: int) -> bool {
    0 <= p <= s.len() && {
        let b = blank_run_end(s, p);
        b == s.len() || s[b] == '+'
    }
}

/// Whether the phase value matches numeral `k` followed by an admissible rest.
pub open spec fn phase_match_k(s: Seq<char>, k: int) -> bool {
    numeral(k).len() <= s.len() && s.subrange(0, numeral(k).len() as int) == numeral(k)
        && phase_rest_ok(s, numeral(k).len() as int)
}

/// The first numeral, in trial order, that matches the phase value; 0 when
/// none does.
pub open spec fn phase_pick(s: Seq<char>) -> int {
    if phase_match_k(s, 1) {
        1
    } else if phase_match_k(s, 2) {
        2
    } else if phase_match_k(s, 3) {
        3
    } else if phase_match_k(s, 4) {
        4
    } else if phase_match_k(s, 5) {
        5
    } else if phase_match_k(s, 6) {
        6
    } else {
        0
    }
}

/// The canonical phase token of a phase value: the matched numeral, or the
/// `unphased` sentinel.
pub open spec fn phase_token(s: Seq<char>) -> Seq<char> {
    if phase_pick(s) != 0 {
        numeral(phase_pick(s))
    } else {
        unphased_value()
    }
}

/// The `plusfigures` remainder of a phase value: the `+` suffix (blanks
/// between the numeral and the `+` dropped), or empty.
pub open spec fn plusfigures_of(s: Seq<char>) -> Seq<char> {
    if phase_pick(s) != 0 {
        s.subrange(blank_run_end(s, numeral(phase_pick(s)).len() as int), s.len() as int)
    } else {
        Seq::empty()
    }
}

/// Whether `v` starts with the `k`-th numeral followed by an admissible rest.
fn exec_phase_match_k(v: &Vec<char>, k: u8) -> (r: bool)
    requires
        1 <= k <= 6,
    ensures
        r == phase_match_k(v@, k as int),
{
    let (c0, c1, n): (char, char, usize) = if k == 1 {
        ('I', 'I', 1)
    } else if k == 2 {
        ('I', 'I', 2)
    } else if k == 3 {
        ('I', 'I', 3)
    } else if k == 4 {
        ('I', 'V', 2)
    } else if k == 5 {
        ('V', 'V', 1)
    } else {
        ('V', 'I', 2)
    };
    if v.len() < n {
        return false;
    }
    let prefix_ok: bool = if k == 3 {
        v[0] == 'I' && v[1] == 'I' && v[2] == 'I'
    } else if n == 1 {
        v[0] == c0
    } else {
        v[0] == c0 && v[1] == c1
    };
    proof {
        assert(numeral(k as int).len() == n);
        if prefix_ok {
            assert(v@.subrange(0, n as int) =~= numeral(k as int));
        } else {
            assert(v@.subrange(0, n as int) != numeral(k as int)) by {
                if v@.subrange(0, n as int) == numeral(k as int) {
                    assert(v@[0] == numeral(k as int)[0]);
                    if n >= 2 {
                        assert(v@[1] == numeral(k as int)[1]);
                    }
                    if n >= 3 {
                        assert(v@[2] == numeral(k as int)[2]);
                    }
                }
            }
        }
    }
    if !prefix_ok {
        return false;
    }
    let b = exec_blank_run_end(v, n);
    b == v.len() || v[b] == '+'
}

/// Decomposes a phase value into its canonical token and its `plusfigures`
/// remainder.
pub fn resolve_phase(value: &Vec<char>) -> (r: (Vec<char>, Vec<char>))
    ensures
        r.0@ == phase_token(value@),
        r.1@ == plusfigures_of(value@),
{
    let mut k: u8 = 0;
    if exec_phase_match_k(value, 1) {
        k = 1;
    } else if exec_phase_match_k(value, 2) {
        k = 2;
    } else if exec_phase_match_k(value, 3) {
        k = 3;
    } else if exec_phase_match_k(value, 4) {
        k = 4;
    } else if exec_phase_match_k(value, 5) {
        k = 5;
    } else if exec_phase_match_k(value, 6) {
        k = 6;
    }
    if k == 0 {
        let mut unphased: Vec<char> = Vec::new();
        unphased.push('u');
        unphased.push('n');
        unphased.push('p');
        unphased.push('h');
        unphased.push('a');
        unphased.push('s');
        unphased.push('e');
        unphased.push('d');
        proof {
            assert(unphased@ =~= unphased_value());
        }
        (unphased, Vec::new())
    } else {
        let n: usize = if k == 1 {
            1
        } else if k == 2 {
            2
        } else if k == 3 {
            3
        } else if k == 4 {
            2
        } else if k == 5 {
            1
        } else {
            2
        };
        let token = sub_vec(value, 0, n);
        proof {
            assert(token@ =~= numeral(k as int));
        }
        let b = exec_blank_run_end(value, n);
        let plus = sub_vec(value, b, value.len());
        (token, plus)
    }
}

// ---------------------------------------------------------------------------
// The whole extraction pass
// ---------------------------------------------------------------------------
/// Whether one of the first `n` lines is a title line.
pub open spec fn scan_has_title(lines: Seq<Seq<char>>, n: int) -> bool
    decreases n when n >= 0
{
    if n <= 0 {
        false
    } else {
        scan_has_title(lines, n - 1) || is_title_line(lines[n - 1])
    }
}

/// The metadata mapping after scanning the first `n` lines: the first title
/// line sets the title, and every metadata line sets its lowercased key to
/// its mail-stripped value, the last write winning.
pub open spec fn scan_map(lines: Seq<Seq<char>>, n: int) -> Map<Seq<char>, Seq<char>>
    decreases n when n >= 0
{
    if n <= 0 {
        Map::empty()
    } else {
        let m = scan_map(lines, n - 1);
        let l = lines[n - 1];
        let m1 = if is_title_line(l) && !scan_has_title(lines, n - 1) {
            m.insert(title_key(), title_of(l))
        } else {
            m
        };
        match meta_line_parts(l) {
            Some(kv) => m1.insert(lower(kv.0), strip_mailto(kv.1)),
            None => m1,
        }
    }
}

/// The phase value that normalization reads: the extracted one, or the
/// `unphased` sentinel when no phase line was present.
pub open spec fn phase_source(m: Map<Seq<char>, Seq<char>>) -> Seq<char> {
    value_or(m, phase_key(), unphased_value())
}

/// Phase normalization always runs: the `phase` key is re-bound to the
/// canonical token and `plusfigures` to the remainder.
pub open spec fn normalized(m: Map<Seq<char>, Seq<char>>) -> Map<Seq<char>, Seq<char>> {
    m.insert(phase_key(), phase_token(phase_source(m))).insert(
        plusfigures_key(),
        plusfigures_of(phase_source(m)),
    )
}

/// The metadata mapping a document's text denotes.
pub open spec fn extracted(content: Seq<char>) -> Map<Seq<char>, Seq<char>> {
    normalized(scan_map(split_lines(content), split_lines(content).len() as int))
}

/// Whether the document has a title line.
pub open spec fn extracted_has_title(content: Seq<char>) -> bool {
    scan_has_title(split_lines(content), split_lines(content).len() as int)
}

/// Whatever the document says, the extracted metadata always binds both
/// the `phase` key and the `plusfigures` key: the normalization runs even
/// when no phase line was present, and an unmatched phase value resolves
/// to the `unphased` sentinel with an empty remainder.
pub proof fn lemma_phase_always_resolved(content: Seq<char>)
    ensures
        extracted(content).contains_key(phase_key()),
        extracted(content).contains_key(plusfigures_key()),
        phase_pick(phase_source(scan_map(split_lines(content), split_lines(content).len() as int)))
            == 0 ==> extracted(content)[phase_key()] == unphased_value() && extracted(content)[
            plusfigures_key()
        ] == Seq::<char>::empty(),
{
}

/// One document as the engine sees it: its text, its place under the base
/// directory, and the metadata extracted from the text.
pub struct IndexFileData {
    /// The full document text.
    pub content: String,
    /// The file's own name (the last path component).
    pub file_name: String,
    /// The path relative to the base directory: the document's stable key.
    pub file_path: String,
    /// The extracted (possibly sidecar-overridden) metadata.
    pub meta: MetadataMap,
    /// Whether the text held a title line.
    pub has_title: bool,
}

impl IndexFileData {
    pub open spec fn wf(&self) -> bool {
        self.meta.wf()
    }
}

/// Parses one document's text: a single pass over its lines, then the
/// phase normalization.
pub fn process(content: &str, file_name: String, file_path: String) -> (r: IndexFileData)
    ensures
        r.wf(),
        r.meta.as_map() == extracted(content@),
        r.has_title == extracted_has_title(content@),
        r.content@ == content@,
        r.file_name@ == file_name@,
        r.file_path@ == file_path@,
{
    let chars = chars_vec(content);
    let lines = exec_split_lines(&chars);
    let ghost lv = lines.deep_view();
    let mut meta = MetadataMap::new();
    let mut has_title = false;
    let mut i: usize = 0;
    while i < lines.len()
        invariant
            i <= lines@.len(),
            lv == lines.deep_view(),
            lv.len() == lines@.len(),
            meta.wf(),
            meta.as_map() == scan_map(lv, i as int),
            has_title == scan_has_title(lv, i as int),
        decreases lines@.len() - i,
    {
        proof {
            assert(lv[i as int] == lines@[i as int]@);
        }
        let line = &lines[i];
        if !has_title {
            match exec_title_line(line) {
                Some(t) => {
                    meta.insert(MetaDataType::Title, chars_to_string(&t));
                    has_title = true;
                },
                None => {},
            }
        }
        match exec_meta_line(line) {
            Some((k, v)) => {
                let kl = lower_vec(&k);
                let ks = chars_to_string(&kl);
                let key = MetaDataType::from_str(&ks);
                let vs = exec_strip_mailto(&v);
                meta.insert(key, chars_to_string(&vs));
            },
            None => {},
        }
        i += 1;
    }
    let phase_raw = meta.get_or(&MetaDataType::Phase, "unphased");
    proof {
        reveal_strlit("unphased");
        assert("unphased"@ =~= unphased_value());
        assert(phase_raw@ == phase_source(meta.as_map()));
    }
    let pv = chars_vec(phase_raw.as_str());
    let (tok, plus) = resolve_phase(&pv);
    meta.insert(MetaDataType::Phase, chars_to_string(&tok));
    meta.insert(MetaDataType::Plusfigures, chars_to_string(&plus));
    IndexFileData {
        content: String::from_str(content),
        file_name,
        file_path,
        meta,
        has_title,
    }
}

} // verus!
