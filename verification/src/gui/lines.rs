//! Lines of text with the tone they are shown in.
use vstd::prelude::*;

verus! {

/// The tone of a line.
#[derive(Clone, Copy, Debug, PartialEq, Eq, Structural)]
pub enum Tone {
    /// Something good, or the thing to do.
    Accent,
    /// Something settled.
    Cool,
    /// What matters.
    Bright,
    /// What explains.
    Dim,
    /// Something to look at.
    Warn,
    /// Something that went wrong, or cannot be undone.
    Hot,
}

/// A line of text.
#[derive(Clone, Debug)]
pub struct Line {
    pub tone: Tone,
    pub text: String,
}

/// What the lines hold.
pub open spec fn line_views(lines: Seq<Line>) -> Seq<(Tone, Seq<char>)> {
    lines.map_values(|l: Line| (l.tone, l.text@))
}

/// No line, or the given one.
pub open spec fn line_if(shown: bool, tone: Tone, text: Seq<char>) -> Seq<(Tone, Seq<char>)> {
    if shown {
        seq![(tone, text)]
    } else {
        Seq::empty()
    }
}

/// Puts a line behind the others.
pub fn push_line(lines: &mut Vec<Line>, tone: Tone, text: String)
    ensures
        line_views(final(lines)@) == line_views(old(lines)@).push((tone, text@)),
{
    let ghost before = lines@;
    lines.push(Line { tone, text });
    assert(line_views(lines@) =~= line_views(before).push((tone, text@)));
}

/// Puts a line behind the others, where it is to be shown.
pub fn push_line_if(lines: &mut Vec<Line>, shown: bool, tone: Tone, text: String)
    ensures
        line_views(final(lines)@) == line_views(old(lines)@) + line_if(shown, tone, text@),
{
    let ghost before = lines@;
    if shown {
        push_line(lines, tone, text);
    }
    assert(line_views(lines@) =~= line_views(before) + line_if(shown, tone, text@));
}

} // verus!
