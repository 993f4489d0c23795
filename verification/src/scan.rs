//! The directory scanner's file rules.
//!
//! A source document is a `.md` file (case-insensitively) whose name does
//! not carry the reserved marker prefix; the marker of a document lives in
//! the same directory under that prefix plus the document's own name, and
//! the sidecar metadata file replaces the document's extension with
//! `meta.json`.  Walking the directory tree is the binary's job; every
//! name rule is verified here.

use vstd::prelude::*;
use crate::text::{lower, chars_vec, lower_vec, chars_to_string, sub_vec, vec_starts_with};

verus! {

/// The reserved prefix of marker file names.
pub open spec fn marker_prefix() -> Seq<char> {
    seq!['.', 'm', 'a', 'r', 'k', 'e', 'r', '.']
}

/// A file name is eligible as a source document when, lowercased, it ends
/// in `.md` and does not start with the marker prefix.
pub open spec fn allowed_name(s: Seq<char>) -> bool {
    let t = lower(s);
    &&& t.len() >= 3
    &&& t.subrange(t.len() - 3, t.len() as int) == seq!['.', 'm', 'd']
    &&& !(t.len() >= 8 && t.subrange(0, 8) == marker_prefix())
}

/// Decides whether a file name names a source document.
pub fn is_allowed(filename: &str) -> (r: bool)
    ensures
        r == allowed_name(filename@),
{
    let chars = chars_vec(filename);
    let t = lower_vec(&chars);
    if t.len() < 3 {
        return false;
    }
    let n = t.len();
    let suffix_ok = t[n - 3] == '.' && t[n - 2] == 'm' && t[n - 1] == 'd';
    proof {
        if suffix_ok {
            assert(t@.subrange(n - 3, n as int) =~= seq!['.', 'm', 'd']);
        } else {
            if t@.subrange(n - 3, n as int) == seq!['.', 'm', 'd'] {
                assert(t@[n - 3] == '.' && t@[n - 2] == 'm' && t@[n - 1] == 'd');
            }
        }
    }
    if !suffix_ok {
        return false;
    }
    let mut prefix: Vec<char> = Vec::new();
    prefix.push('.');
    prefix.push('m');
    prefix.push('a');
    prefix.push('r');
    prefix.push('k');
    prefix.push('e');
    prefix.push('r');
    prefix.push('.');
    proof {
        assert(prefix@ =~= marker_prefix());
    }
    let marked = vec_starts_with(&t, &prefix);
    !marked
}

/// The marker file name of a document: the reserved prefix, then the
/// document's own file name.
pub fn marker_file_name(filename: &str) -> (r: String)
    ensures
        r@ == marker_prefix() + filename@,
{
    let mut r = String::from_str(".marker.");
    proof {
        reveal_strlit(".marker.");
        assert(r@ =~= marker_prefix());
    }
    r.append(filename);
    r
}

/// A marker file name is never itself an eligible source document.
pub proof fn lemma_marker_names_excluded(filename: Seq<char>)
    ensures
        !allowed_name(marker_prefix() + filename),
{
    let m = marker_prefix() + filename;
    let t = lower(m);
    assert(t.len() == m.len());
    if t.len() >= 8 {
        assert forall|k: int| 0 <= k < 8 implies t[k] == marker_prefix()[k] by {
            assert(m[k] == marker_prefix()[k]);
        }
        assert(t.subrange(0, 8) =~= marker_prefix());
    }
}

/// The greatest index in `[1, hi]` holding a dot, or -1: the split point
/// between a file name's stem and its extension (a dot in first position
/// marks a hidden file, not an extension).
pub open spec fn last_dot_from(s: Seq<char>, hi: int) -> int
    decreases hi when hi < s.len()
{
    if hi < 1 {
        -1
    } else if s[hi] == '.' {
        hi
    } else {
        last_dot_from(s, hi - 1)
    }
}

/// The sidecar metadata file name of a document: its extension — the part
/// after the last dot, a leading dot not counting — replaced by
/// `meta.json`.
pub open spec fn sidecar_name_of(s: Seq<char>) -> Seq<char> {
    let d = last_dot_from(s, s.len() - 1);
    let stem = if d >= 1 {
        s.subrange(0, d)
    } else {
        s
    };
    stem + seq!['.', 'm', 'e', 't', 'a', '.', 'j', 's', 'o', 'n']
}

/// The sidecar metadata file name next to a document.
pub fn sidecar_file_name(filename: &str) -> (r: String)
    ensures
        r@ == sidecar_name_of(filename@),
{
    let chars = chars_vec(filename);
    let ghost s = chars@;
    let mut stem_end = chars.len();
    let mut i = chars.len();
    let mut found = false;
    while i > 1 && !found
        invariant
            found ==> 1 <= stem_end < s.len() && s[stem_end as int] == '.' && last_dot_from(
                s,
                s.len() - 1,
            ) == stem_end as int,
            !found ==> i <= s.len() && (i as int) < s.len() ==> last_dot_from(s, s.len() - 1)
                == last_dot_from(s, i as int),
            !found ==> last_dot_from(s, s.len() - 1) == last_dot_from(s, i - 1),
            i <= s.len(),
            s == chars@,
        decreases i,
    {
        i -= 1;
        if chars[i] == '.' {
            stem_end = i;
            found = true;
        }
    }
    let stem = if found {
        sub_vec(&chars, 0, stem_end)
    } else {
        proof {
            if s.len() > 0 {
                assert(last_dot_from(s, s.len() - 1) == last_dot_from(s, 0));
            }
        }
        sub_vec(&chars, 0, chars.len())
    };
    let mut r = chars_to_string(&stem);
    let ghost stem_view = r@;
    r.append(".meta.json");
    proof {
        reveal_strlit(".meta.json");
        assert(".meta.json"@ =~= seq!['.', 'm', 'e', 't', 'a', '.', 'j', 's', 'o', 'n']);
        assert(s.subrange(0, s.len() as int) =~= s);
        assert(r@ == sidecar_name_of(filename@));
    }
    r
}

} // verus!
