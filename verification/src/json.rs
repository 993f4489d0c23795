//! Rendering metadata as JSON text.
//!
//! The serialized metadata travels in two places: the `meta` column of a
//! cue card record (a compact JSON object of every extracted entry, in
//! insertion order) and the sidecar metadata file (a pretty-printed object
//! of the fixed field set).  Both renderings are verified down to the
//! character against the spec functions here.

use vstd::prelude::*;
use crate::meta::MetadataMap;
use crate::text::chars_to_string;

verus! {

/// The lowercase hex digit for `d < 16`.
pub open spec fn hex_digit(d: u32) -> char {
    if d < 10 {
        ((('0' as u32) + d) as char)
    } else {
        ((('a' as u32) + (d - 10)) as char)
    }
}

/// The JSON escape of one character: the two-character escapes for quote,
/// backslash and the common control characters, `\u00..` for the other
/// control characters, and the character itself otherwise.
pub open spec fn esc_char(c: char) -> Seq<char> {
    if c == '"' {
        seq!['\\', '"']
    } else if c == '\\' {
        seq!['\\', '\\']
    } else if c == '\u{8}' {
        seq!['\\', 'b']
    } else if c == '\t' {
        seq!['\\', 't']
    } else if c == '\n' {
        seq!['\\', 'n']
    } else if c == '\u{c}' {
        seq!['\\', 'f']
    } else if c == '\r' {
        seq!['\\', 'r']
    } else if (c as u32) < 32 {
        seq!['\\', 'u', '0', '0', hex_digit((c as u32) / 16), hex_digit((c as u32) % 16)]
    } else {
        seq![c]
    }
}

/// The JSON escape of a string's characters.
pub open spec fn json_escape(s: Seq<char>) -> Seq<char>
    decreases s.len(),
{
    if s.len() == 0 {
        Seq::empty()
    } else {
        json_escape(s.drop_last()) + esc_char(s.last())
    }
}

/// A JSON string: the escaped characters between quotes.
pub open spec fn quoted(s: Seq<char>) -> Seq<char> {
    seq!['"'] + json_escape(s) + seq!['"']
}

/// One member of a compact JSON object.
pub open spec fn json_member(k: Seq<char>, v: Seq<char>) -> Seq<char> {
    quoted(k) + seq![':'] + quoted(v)
}

/// The members of a compact JSON object, comma-separated.
pub open spec fn json_members(es: Seq<(Seq<char>, Seq<char>)>) -> Seq<char>
    decreases es.len(),
{
    if es.len() == 0 {
        Seq::empty()
    } else if es.len() == 1 {
        json_member(es[0].0, es[0].1)
    } else {
        json_members(es.drop_last()) + seq![','] + json_member(es.last().0, es.last().1)
    }
}

/// A compact JSON object of string entries, in the order given.
pub open spec fn json_object_of(es: Seq<(Seq<char>, Seq<char>)>) -> Seq<char> {
    seq!['{'] + json_members(es) + seq!['}']
}

fn exec_hex_digit(d: u32) -> (r: char)
    requires
        d < 16,
    ensures
        r == hex_digit(d),
{
    if d == 0 {
        '0'
    } else if d == 1 {
        '1'
    } else if d == 2 {
        '2'
    } else if d == 3 {
        '3'
    } else if d == 4 {
        '4'
    } else if d == 5 {
        '5'
    } else if d == 6 {
        '6'
    } else if d == 7 {
        '7'
    } else if d == 8 {
        '8'
    } else if d == 9 {
        '9'
    } else if d == 10 {
        'a'
    } else if d == 11 {
        'b'
    } else if d == 12 {
        'c'
    } else if d == 13 {
        'd'
    } else if d == 14 {
        'e'
    } else {
        'f'
    }
}

/// Appends the JSON escape of one character.
pub fn push_esc_char(out: &mut Vec<char>, c: char)
    ensures
        final(out)@ == old(out)@ + esc_char(c),
{
    let ghost o = out@;
    if c == '"' {
        out.push('\\');
        out.push('"');
    } else if c == '\\' {
        out.push('\\');
        out.push('\\');
    } else if c == '\u{8}' {
        out.push('\\');
        out.push('b');
    } else if c == '\t' {
        out.push('\\');
        out.push('t');
    } else if c == '\n' {
        out.push('\\');
        out.push('n');
    } else if c == '\u{c}' {
        out.push('\\');
        out.push('f');
    } else if c == '\r' {
        out.push('\\');
        out.push('r');
    } else if (c as u32) < 32 {
        let d = c as u32;
        out.push('\\');
        out.push('u');
        out.push('0');
        out.push('0');
        out.push(exec_hex_digit(d / 16));
        out.push(exec_hex_digit(d % 16));
    } else {
        out.push(c);
    }
    proof {
        assert(out@ =~= o + esc_char(c));
    }
}

/// Appends the JSON escape of every character of `s`.
pub fn push_escaped(out: &mut Vec<char>, s: &Vec<char>)
    ensures
        final(out)@ == old(out)@ + json_escape(s@),
{
    let ghost o = out@;
    let mut i: usize = 0;
    while i < s.len()
        invariant
            i <= s@.len(),
            out@ == o + json_escape(s@.subrange(0, i as int)),
        decreases s@.len() - i,
    {
        proof {
            assert(s@.subrange(0, i + 1).drop_last() =~= s@.subrange(0, i as int));
            assert(s@.subrange(0, i + 1).last() == s@[i as int]);
        }
        push_esc_char(out, s[i]);
        i += 1;
    }
    proof {
        assert(s@.subrange(0, s@.len() as int) =~= s@);
    }
}

/// Appends `s` as a JSON string.
pub fn push_quoted(out: &mut Vec<char>, s: &Vec<char>)
    ensures
        final(out)@ == old(out)@ + quoted(s@),
{
    let ghost o = out@;
    out.push('"');
    push_escaped(out, s);
    out.push('"');
    proof {
        assert(out@ =~= o + quoted(s@));
    }
}

/// Renders a metadata mapping as a compact JSON object, entries in
/// insertion order.
pub fn meta_json(meta: &MetadataMap) -> (r: String)
    ensures
        r@ == json_object_of(meta.entries_seq()),
{
    let mut out: Vec<char> = Vec::new();
    out.push('{');
    let n = meta.entry_count();
    let mut i: usize = 0;
    while i < n
        invariant
            n == meta.entries_seq().len(),
            i <= n,
            out@ == seq!['{'] + json_members(meta.entries_seq().subrange(0, i as int)),
        decreases n - i,
    {
        let ghost es = meta.entries_seq();
        if i > 0 {
            out.push(',');
        }
        let (k, v) = meta.entry(i);
        let kc = crate::text::chars_vec(k.as_str());
        let vc = crate::text::chars_vec(v.as_str());
        push_quoted(&mut out, &kc);
        out.push(':');
        push_quoted(&mut out, &vc);
        proof {
            let pre = es.subrange(0, i as int);
            let cur = es.subrange(0, i + 1);
            assert(cur.drop_last() =~= pre);
            assert(cur.last() == es[i as int]);
            if i == 0 {
                assert(out@ =~= seq!['{'] + json_members(cur));
            } else {
                assert(out@ =~= seq!['{'] + json_members(cur));
            }
        }
        i += 1;
    }
    out.push('}');
    proof {
        assert(meta.entries_seq().subrange(0, meta.entries_seq().len() as int) =~= meta
            .entries_seq());
        assert(out@ =~= json_object_of(meta.entries_seq()));
    }
    chars_to_string(&out)
}

} // verus!
