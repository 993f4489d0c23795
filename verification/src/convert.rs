//! Assembling Markdown text out of an office document's text runs.
//!
//! The converter walks the XML body of an office document; the binary
//! pulls the XML events out of the archive and hands each one — element
//! start, text run, element end — to the verified transition here, which
//! collects text parts and renders them as Markdown: the first paragraph
//! becomes the title, headings and part titles become further headings,
//! and cue lines (those holding a semicolon) become quoted lines.

use vstd::prelude::*;
use crate::meta::string_is;
use crate::text::{lower, chars_vec, lower_vec, vec_starts_with, chars_to_string};

verus! {

/// The converter's running state.
pub struct State {
    pub has_title: bool,
    pub relevant_element: bool,
    pub ignore_content: bool,
    pub new_line: bool,
    pub new_part: bool,
    pub sequence: bool,
}

impl Default for State {
    /// The initial state: nothing seen yet.
    fn default() -> (r: State)
        ensures
            !r.has_title,
            !r.relevant_element,
            !r.ignore_content,
            !r.new_line,
            !r.new_part,
            !r.sequence,
    {
        State {
            has_title: false,
            relevant_element: false,
            ignore_content: false,
            new_line: false,
            new_part: false,
            sequence: false,
        }
    }
}

/// Whether a text run opens a named part of the choreography: it starts
/// (case-insensitively) with a part word such as `intro`, `part`, `bridge`
/// or `end`, an `int` abbreviation that is not `into`, or a single part
/// letter `a` through `f` followed by a space.
pub open spec fn part_title_spec(s: Seq<char>) -> bool {
    let t = lower(s);
    ||| "intro"@.is_prefix_of(t)
    ||| "part"@.is_prefix_of(t)
    ||| ("int"@.is_prefix_of(t) && !"into"@.is_prefix_of(t))
    ||| "bridge"@.is_prefix_of(t)
    ||| "bdg"@.is_prefix_of(t)
    ||| "end"@.is_prefix_of(t)
    ||| "a "@.is_prefix_of(t)
    ||| "b "@.is_prefix_of(t)
    ||| "c "@.is_prefix_of(t)
    ||| "d "@.is_prefix_of(t)
    ||| "e "@.is_prefix_of(t)
    ||| "f "@.is_prefix_of(t)
}

fn starts(t: &Vec<char>, lit: &str) -> (r: bool)
    ensures
        r == lit@.is_prefix_of(t@),
{
    let p = chars_vec(lit);
    vec_starts_with(t, &p)
}

fn part_title_chars(v: &Vec<char>) -> (r: bool)
    ensures
        r == part_title_spec(v@),
{
    let t = lower_vec(v);
    starts(&t, "intro") || starts(&t, "part") || (starts(&t, "int") && !starts(&t, "into"))
        || starts(&t, "bridge") || starts(&t, "bdg") || starts(&t, "end") || starts(&t, "a ")
        || starts(&t, "b ") || starts(&t, "c ") || starts(&t, "d ") || starts(&t, "e ") || starts(
        &t,
        "f ",
    )
}

/// Whether a text run opens a named part of the choreography.
pub fn matches_part_title(s: &str) -> (r: bool)
    ensures
        r == part_title_spec(s@),
{
    let v = chars_vec(s);
    part_title_chars(&v)
}

/// The collected text parts, concatenated.
pub open spec fn joined(parts: Seq<Seq<char>>) -> Seq<char>
    decreases parts.len(),
{
    if parts.len() == 0 {
        Seq::empty()
    } else {
        joined(parts.drop_last()) + parts.last()
    }
}

fn join_parts(parts: &Vec<String>) -> (r: Vec<char>)
    ensures
        r@ == joined(parts.deep_view()),
{
    let mut r: Vec<char> = Vec::new();
    let mut i: usize = 0;
    while i < parts.len()
        invariant
            i <= parts@.len(),
            r@ == joined(parts.deep_view().subrange(0, i as int)),
        decreases parts@.len() - i,
    {
        proof {
            assert(parts.deep_view().subrange(0, i + 1).drop_last() =~= parts
                .deep_view()
                .subrange(0, i as int));
            assert(parts.deep_view().subrange(0, i + 1).last() == parts@[i as int]@);
        }
        let mut pc = chars_vec(parts[i].as_str());
        r.append(&mut pc);
        i += 1;
    }
    proof {
        assert(parts.deep_view().subrange(0, parts.deep_view().len() as int) =~= parts
            .deep_view());
    }
    r
}

/// Whether the (lowercased) text mentions `seq` — the mark of a cue
/// sequence block.
pub open spec fn mentions_sequence(s: Seq<char>) -> bool {
    exists|i: int| 0 <= i && i + 3 <= lower(s).len() && #[trigger] lower(s).subrange(i, i + 3)
        == "seq"@
}

fn exec_mentions_sequence(v: &Vec<char>) -> (r: bool)
    ensures
        r == mentions_sequence(v@),
{
    let t = lower_vec(v);
    let ghost l = lower(v@);
    if t.len() < 3 {
        proof {
            assert forall|i: int| !(0 <= i && i + 3 <= l.len() && #[trigger] l.subrange(i, i + 3)
                == "seq"@) by {}
        }
        return false;
    }
    let mut i: usize = 0;
    let n = t.len();
    while i <= n - 3
        invariant
            t@ == l,
            l == lower(v@),
            n == t@.len(),
            n >= 3,
            i <= n,
            forall|k: int| 0 <= k < i ==> !(k + 3 <= l.len() && #[trigger] l.subrange(k, k + 3)
                == "seq"@),
        decreases t@.len() - i,
    {
        if t[i] == 's' && t[i + 1] == 'e' && t[i + 2] == 'q' {
            proof {
                reveal_strlit("seq");
                assert(i + 3 <= lower(v@).len());
                assert(lower(v@).subrange(i as int, i as int + 3) =~= "seq"@);
                assert(mentions_sequence(v@));
            }
            return true;
        }
        proof {
            reveal_strlit("seq");
            if l.subrange(i as int, i + 3) == "seq"@ {
                assert(l.subrange(i as int, i + 3)[0] == 's');
                assert(l.subrange(i as int, i + 3)[1] == 'e');
                assert(l.subrange(i as int, i + 3)[2] == 'q');
                assert(false);
            }
        }
        i += 1;
    }
    false
}

/// Whether the text holds a semicolon — the mark of a cue line.
pub open spec fn has_semicolon(s: Seq<char>) -> bool {
    exists|i: int| 0 <= i < s.len() && #[trigger] s[i] == ';'
}

fn exec_has_semicolon(v: &Vec<char>) -> (r: bool)
    ensures
        r == has_semicolon(v@),
{
    let mut i: usize = 0;
    while i < v.len()
        invariant
            i <= v@.len(),
            forall|k: int| 0 <= k < i ==> v@[k] != ';',
        decreases v@.len() - i,
    {
        if v[i] == ';' {
            return true;
        }
        i += 1;
    }
    false
}

/// The text without its line breaks.
pub open spec fn strip_breaks(s: Seq<char>) -> Seq<char>
    decreases s.len(),
{
    if s.len() == 0 {
        Seq::empty()
    } else if s.last() == '\n' || s.last() == '\r' {
        strip_breaks(s.drop_last())
    } else {
        strip_breaks(s.drop_last()).push(s.last())
    }
}

fn exec_strip_breaks(v: &Vec<char>) -> (r: Vec<char>)
    ensures
        r@ == strip_breaks(v@),
{
    let mut r: Vec<char> = Vec::new();
    let mut i: usize = 0;
    while i < v.len()
        invariant
            i <= v@.len(),
            r@ == strip_breaks(v@.subrange(0, i as int)),
        decreases v@.len() - i,
    {
        proof {
            assert(v@.subrange(0, i + 1).drop_last() =~= v@.subrange(0, i as int));
            assert(v@.subrange(0, i + 1).last() == v@[i as int]);
        }
        let c = v[i];
        if c != '\n' && c != '\r' {
            r.push(c);
        }
        i += 1;
    }
    proof {
        assert(v@.subrange(0, v@.len() as int) =~= v@);
    }
    r
}

/// The `sequence` flag after seeing the text.
pub open spec fn wtp_sequence(s: Seq<char>, st: State) -> bool {
    st.sequence || mentions_sequence(s)
}

/// What rendering the collected text appends to the output.
pub open spec fn wtp_out(s: Seq<char>, st: State) -> Seq<char> {
    let seq2 = wtp_sequence(s, st);
    if !st.has_title {
        seq!['#', ' '] + s + seq!['\n']
    } else if st.new_part {
        seq!['\n', '#', ' '] + s
    } else if part_title_spec(s) && !seq2 {
        seq!['\n', '#', ' '] + s
    } else if has_semicolon(s) {
        (if st.new_line {
            seq!['\n', '>', ' ']
        } else {
            Seq::empty()
        }) + strip_breaks(s)
    } else {
        (if st.new_line {
            seq!['\n']
        } else {
            Seq::empty()
        }) + strip_breaks(s)
    }
}

/// The state after rendering the collected text.
pub open spec fn wtp_state(s: Seq<char>, st: State) -> State {
    let seq2 = wtp_sequence(s, st);
    if !st.has_title {
        State { has_title: true, sequence: seq2, ..st }
    } else if st.new_part {
        State { new_part: false, sequence: seq2, ..st }
    } else if part_title_spec(s) && !seq2 {
        State { sequence: seq2, ..st }
    } else if has_semicolon(s) {
        State { new_line: false, sequence: seq2, ..st }
    } else {
        State { sequence: seq2, ..st }
    }
}

/// Renders the collected text parts into the output: the first text
/// becomes the title heading, a heading or part title a further heading,
/// a cue line a quoted line, anything else plain text.
pub fn write_text_parts(text_parts: &Vec<String>, out: &mut String, state: &mut State)
    ensures
        final(out)@ == old(out)@ + wtp_out(joined(text_parts.deep_view()), *old(state)),
        *final(state) == wtp_state(joined(text_parts.deep_view()), *old(state)),
{
    let ghost s0 = *state;
    let ghost o0 = out@;
    let s = join_parts(text_parts);
    let ghost sj = joined(text_parts.deep_view());
    if exec_mentions_sequence(&s) {
        state.sequence = true;
    }
    if !state.has_title {
        out.append("# ");
        out.append(chars_to_string(&s).as_str());
        out.append("\n");
        state.has_title = true;
        proof {
            reveal_strlit("# ");
            reveal_strlit("\n");
            assert("# "@ =~= seq!['#', ' ']);
            assert("\n"@ =~= seq!['\n']);
            assert(out@ =~= o0 + wtp_out(sj, s0));
        }
    } else if state.new_part {
        out.append("\n# ");
        out.append(chars_to_string(&s).as_str());
        state.new_part = false;
        proof {
            reveal_strlit("\n# ");
            assert("\n# "@ =~= seq!['\n', '#', ' ']);
            assert(out@ =~= o0 + wtp_out(sj, s0));
        }
    } else if part_title_chars(&s) && !state.sequence {
        out.append("\n# ");
        out.append(chars_to_string(&s).as_str());
        proof {
            reveal_strlit("\n# ");
            assert("\n# "@ =~= seq!['\n', '#', ' ']);
            assert(out@ =~= o0 + wtp_out(sj, s0));
        }
    } else if exec_has_semicolon(&s) {
        if state.new_line {
            out.append("\n> ");
            state.new_line = false;
            proof {
                reveal_strlit("\n> ");
                assert("\n> "@ =~= seq!['\n', '>', ' ']);
            }
        }
        let text = exec_strip_breaks(&s);
        out.append(chars_to_string(&text).as_str());
        proof {
            assert(out@ =~= o0 + wtp_out(sj, s0));
        }
    } else {
        if state.new_line {
            out.append("\n");
            proof {
                reveal_strlit("\n");
                assert("\n"@ =~= seq!['\n']);
            }
        }
        let text = exec_strip_breaks(&s);
        out.append(chars_to_string(&text).as_str());
        proof {
            assert(out@ =~= o0 + wtp_out(sj, s0));
        }
    }
}

/// One event of the office document's body: an element starts (by local
/// name), a text run, an element ends.
pub enum DocEvent {
    Start(String),
    Text(String),
    End(String),
}

/// The (state, collected parts, output) after one event.
pub open spec fn conv_step(
    ev: DocEvent,
    st: State,
    parts: Seq<Seq<char>>,
    out: Seq<char>,
) -> (State, Seq<Seq<char>>, Seq<char>) {
    match ev {
        DocEvent::Start(name) => {
            if name@ == "s"@ || name@ == "bookmark-start"@ || name@ == "span"@ {
                (State { relevant_element: true, ..st }, parts, out)
            } else if name@ == "tab"@ {
                (st, parts.push(" "@), out + " "@)
            } else if name@ == "a"@ {
                (State { ignore_content: true, ..st }, parts, out)
            } else if name@ == "p"@ {
                (State { relevant_element: true, new_line: true, ..st }, parts, out)
            } else if name@ == "h"@ {
                (State { relevant_element: true, new_part: true, ..st }, parts, out)
            } else {
                (st, parts, out)
            }
        },
        DocEvent::Text(s) => {
            if st.relevant_element && !st.ignore_content {
                (st, parts.push(s@), out)
            } else {
                (st, parts, out)
            }
        },
        DocEvent::End(name) => {
            if name@ == "a"@ {
                (State { ignore_content: false, ..st }, Seq::empty(), out)
            } else if name@ == "p"@ || name@ == "h"@ {
                let w = wtp_state(joined(parts), st);
                (
                    State { relevant_element: false, sequence: false, ..w },
                    Seq::empty(),
                    out + wtp_out(joined(parts), st) + seq!['\n'],
                )
            } else {
                (st, parts, out)
            }
        },
    }
}

/// Feeds one document event to the converter.
pub fn handle_event(ev: &DocEvent, state: &mut State, parts: &mut Vec<String>, out: &mut String)
    ensures
        ({
            let next = conv_step(*ev, *old(state), old(parts).deep_view(), old(out)@);
            &&& *final(state) == next.0
            &&& final(parts).deep_view() == next.1
            &&& final(out)@ == next.2
        }),
{
    let ghost st0 = *state;
    let ghost p0 = parts.deep_view();
    let ghost o0 = out@;
    match ev {
        DocEvent::Start(name) => {
            if string_is(name, "s") || string_is(name, "bookmark-start") || string_is(
                name,
                "span",
            ) {
                state.relevant_element = true;
            } else if string_is(name, "tab") {
                parts.push(String::from_str(" "));
                out.append(" ");
                proof {
                    assert(parts.deep_view() =~~= p0.push(" "@));
                }
            } else if string_is(name, "a") {
                state.ignore_content = true;
            } else if string_is(name, "p") {
                state.relevant_element = true;
                state.new_line = true;
            } else if string_is(name, "h") {
                state.relevant_element = true;
                state.new_part = true;
            }
        },
        DocEvent::Text(s) => {
            if state.relevant_element && !state.ignore_content {
                parts.push(s.clone());
                proof {
                    assert(parts.deep_view() =~~= p0.push(s@));
                }
            }
        },
        DocEvent::End(name) => {
            if string_is(name, "a") {
                state.ignore_content = false;
                *parts = Vec::new();
                proof {
                    assert(parts.deep_view() =~~= Seq::<Seq<char>>::empty());
                }
            } else if string_is(name, "p") || string_is(name, "h") {
                write_text_parts(parts, out, state);
                state.relevant_element = false;
                out.append("\n");
                state.sequence = false;
                *parts = Vec::new();
                proof {
                    reveal_strlit("\n");
                    assert("\n"@ =~= seq!['\n']);
                    assert(parts.deep_view() =~~= Seq::<Seq<char>>::empty());
                    assert(out@ =~= o0 + wtp_out(joined(p0), st0) + seq!['\n']);
                }
            }
        },
    }
}

} // verus!
