//! What the interception of the compiler captures: its arguments, its
//! environment and the arguments it handed to the linker.

use crate::argv::push_text;
use crate::command::joined_with;
use crate::text::{chars_of, texts};
use vstd::prelude::*;

verus! {

/// One captured compiler invocation.
#[derive(Clone, Debug)]
pub struct RustcArgs {
    /// The compiler's own arguments, the driver's name first.
    pub args: Vec<String>,
    /// The compiler's environment, in the order it was captured.
    pub envs: Vec<(String, String)>,
    /// The arguments the compiler handed to the linker.
    pub link_args: Vec<String>,
}

/// The views of a list of name and value pairs.
pub open spec fn pairs(v: Seq<(String, String)>) -> Seq<(Seq<char>, Seq<char>)> {
    v.map_values(|p: (String, String)| (p.0@, p.1@))
}

impl Default for RustcArgs {
    fn default() -> (r: RustcArgs)
        ensures
            r.args@.len() == 0,
            r.envs@.len() == 0,
            r.link_args@.len() == 0,
    {
        RustcArgs { args: Vec::new(), envs: Vec::new(), link_args: Vec::new() }
    }
}

/// Why a capture cannot be used.
#[derive(Clone, Copy, Debug, PartialEq, Eq, Structural)]
pub enum CaptureError {
    /// The captured compiler arguments are empty.
    NoArguments,
    /// The captured linker arguments are empty.
    NoLinkerArguments,
}

impl RustcArgs {
    /// Checks what a build that succeeded has captured: neither the
    /// compiler's nor the linker's arguments may be empty.
    pub fn check(&self) -> (out: Result<(), CaptureError>)
        ensures
            out == if self.args@.len() == 0 {
                Err::<(), CaptureError>(CaptureError::NoArguments)
            } else if self.link_args@.len() == 0 {
                Err::<(), CaptureError>(CaptureError::NoLinkerArguments)
            } else {
                Ok::<(), CaptureError>(())
            },
    {
        if self.args.len() == 0 {
            Err(CaptureError::NoArguments)
        } else if self.link_args.len() == 0 {
            Err(CaptureError::NoLinkerArguments)
        } else {
            Ok(())
        }
    }
}

/// A line without the carriage return at its end, where it has one.
pub open spec fn line_body(line: Seq<char>) -> Seq<char> {
    if line.len() > 0 && line.last() == '\r' {
        line.drop_last()
    } else {
        line
    }
}

/// The lines of `text` from position `pos` on, where the line that `pos`
/// lies in began at `start`. A line feed ends a line, and a carriage return
/// just before it is not part of the line; what follows the last line feed
/// is a line where it is not empty.
pub open spec fn lines_from(text: Seq<char>, start: int, pos: int) -> Seq<Seq<char>>
    decreases text.len() - pos,
{
    if pos >= text.len() {
        if start < text.len() {
            seq![text.subrange(start, text.len() as int)]
        } else {
            Seq::empty()
        }
    } else if text[pos] == '\n' {
        seq![line_body(text.subrange(start, pos))] + lines_from(text, pos + 1, pos + 1)
    } else {
        lines_from(text, start, pos + 1)
    }
}

/// The lines of `text`.
pub open spec fn lines_of(text: Seq<char>) -> Seq<Seq<char>> {
    lines_from(text, 0, 0)
}

/// Splits `text` into its lines: the arguments that the interception wrote,
/// one per line.
pub fn lines(text: &str) -> (out: Vec<String>)
    ensures
        texts(out@) == lines_of(text@),
{
    let v = chars_of(text);
    let mut out: Vec<String> = Vec::new();
    let mut start: usize = 0;
    let mut pos: usize = 0;
    while pos < v.len()
        invariant
            start <= pos <= v.len(),
            v@ == text@,
            lines_of(text@) =~= texts(out@) + lines_from(text@, start as int, pos as int),
        decreases v.len() - pos,
    {
        if v[pos] == '\n' {
            let end = if pos > start && v[pos - 1] == '\r' {
                pos - 1
            } else {
                pos
            };
            let ghost raw = text@.subrange(start as int, pos as int);
            assert(text@.subrange(start as int, end as int) =~= line_body(raw)) by {
                if pos > start {
                    assert(raw.last() == text@[pos - 1]);
                }
            }
            let ghost before = texts(out@);
            push_text(&mut out, text.substring_char(start, end));
            assert(before + (seq![line_body(raw)] + lines_from(text@, pos + 1, pos + 1))
                =~= before.push(line_body(raw)) + lines_from(text@, pos + 1, pos + 1));
            start = pos + 1;
        }
        pos += 1;
    }
    if start < v.len() {
        let ghost before = texts(out@);
        push_text(&mut out, text.substring_char(start, v.len()));
        assert(before + seq![text@.subrange(start as int, text@.len() as int)] =~= before.push(
            text@.subrange(start as int, text@.len() as int),
        ));
    } else {
        assert(texts(out@) + Seq::<Seq<char>>::empty() =~= texts(out@));
    }
    out
}

/// Appends a copy of the pair of `name` and `value`.
pub fn push_pair(out: &mut Vec<(String, String)>, name: &str, value: &str)
    ensures
        pairs(final(out)@) == pairs(old(out)@).push((name@, value@)),
{
    out.push((name.to_owned(), value.to_owned()));
    assert(pairs(out@) =~= pairs(old(out)@).push((name@, value@)));
}

/// `s` holds neither a line feed nor a carriage return.
pub open spec fn is_line(s: Seq<char>) -> bool {
    forall|i: int| 0 <= i < s.len() ==> s[i] != '\n' && s[i] != '\r'
}

/// Texts joined in a row begin with the first of them.
proof fn lemma_joined_front(parts: Seq<Seq<char>>, sep: Seq<char>)
    requires
        parts.len() >= 2,
    ensures
        joined_with(parts, sep) == parts[0] + sep + joined_with(parts.drop_first(), sep),
    decreases parts.len(),
{
    let rest = parts.drop_first();
    if parts.len() == 2 {
        assert(parts.drop_last().len() == 1);
        assert(joined_with(parts.drop_last(), sep) == parts[0]);
        assert(joined_with(rest, sep) == parts[1]);
    } else {
        lemma_joined_front(parts.drop_last(), sep);
        assert(parts.drop_last().drop_first() =~= rest.drop_last());
        assert(rest.last() == parts.last());
        assert(joined_with(parts, sep) =~= parts[0] + sep + joined_with(rest, sep));
    }
}

/// Where no line feed stands from `pos` up to `end`, the lines from `pos`
/// on are those from `end` on.
proof fn lemma_lines_skip(text: Seq<char>, start: int, pos: int, end: int)
    requires
        0 <= pos <= end <= text.len(),
        forall|j: int| pos <= j < end ==> text[j] != '\n',
    ensures
        lines_from(text, start, pos) == lines_from(text, start, end),
    decreases end - pos,
{
    if pos < end {
        lemma_lines_skip(text, start, pos + 1, end);
    }
}

/// The lines of a text that is made of `parts` from `start` on are `parts`.
proof fn lemma_lines_of_parts(text: Seq<char>, start: int, parts: Seq<Seq<char>>)
    requires
        0 <= start <= text.len(),
        parts.len() > 0,
        text.skip(start) == joined_with(parts, "\n"@),
        forall|i: int| 0 <= i < parts.len() ==> is_line(#[trigger] parts[i]),
        parts.last().len() > 0,
    ensures
        lines_from(text, start, start) == parts,
    decreases parts.len(),
{
    reveal_strlit("\n");
    let nl = "\n"@;
    assert(nl =~= seq!['\n']);
    let first = parts[0];
    let end = start + first.len();
    assert(is_line(first));
    if parts.len() == 1 {
        assert(joined_with(parts, nl) == first);
        assert(end == text.len());
        assert forall|j: int| start <= j < end implies text[j] != '\n' by {
            assert(text[j] == text.skip(start)[j - start]);
        }
        lemma_lines_skip(text, start, start, end);
        assert(text.subrange(start, text.len() as int) =~= first);
        assert(lines_from(text, start, end) =~= parts);
    } else {
        let rest = parts.drop_first();
        lemma_joined_front(parts, nl);
        let tail = joined_with(rest, nl);
        assert(text.skip(start) == first + nl + tail);
        assert(text.skip(start).len() == first.len() + 1 + tail.len());
        assert forall|j: int| start <= j < end implies text[j] != '\n' by {
            assert(text[j] == text.skip(start)[j - start]);
            assert((first + nl + tail)[j - start] == first[j - start]);
        }
        lemma_lines_skip(text, start, start, end);
        assert(text[end] == text.skip(start)[end - start]);
        assert((first + nl + tail)[first.len() as int] == '\n');
        assert(text.subrange(start, end) =~= first) by {
            assert forall|j: int| 0 <= j < first.len() implies text.subrange(start, end)[j]
                == first[j] by {
                assert(text[start + j] == text.skip(start)[j]);
                assert((first + nl + tail)[j] == first[j]);
            }
        }
        assert(line_body(first) == first);
        assert(text.skip(end + 1) =~= tail) by {
            assert forall|j: int| 0 <= j < tail.len() implies text.skip(end + 1)[j] == tail[j] by {
                assert(text[end + 1 + j] == text.skip(start)[first.len() + 1 + j]);
                assert((first + nl + tail)[first.len() + 1 + j] == tail[j]);
            }
        }
        assert forall|i: int| 0 <= i < rest.len() implies is_line(#[trigger] rest[i]) by {
            assert(rest[i] == parts[i + 1]);
        }
        assert(rest.last() == parts.last());
        lemma_lines_of_parts(text, end + 1, rest);
        assert(seq![first] + rest =~= parts);
    }
}

/// What is written is read back: the lines of texts that were joined by
/// line feeds are those texts, as long as none of them holds a line feed or
/// a carriage return and the last one is not empty.
pub proof fn lemma_lines_round_trip(parts: Seq<Seq<char>>)
    requires
        forall|i: int| 0 <= i < parts.len() ==> is_line(#[trigger] parts[i]),
        parts.len() > 0 ==> parts.last().len() > 0,
    ensures
        lines_of(joined_with(parts, "\n"@)) == parts,
{
    let text = joined_with(parts, "\n"@);
    if parts.len() == 0 {
        assert(lines_of(text) =~= parts);
    } else {
        assert(text.skip(0) =~= text);
        lemma_lines_of_parts(text, 0, parts);
    }
}

} // verus!
