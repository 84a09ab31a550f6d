//! Lines for the console, with the colours they are shown in.

use vstd::prelude::*;
use vstd::string::*;

verus! {

/// How a piece of a line is coloured.
#[derive(Clone, Copy, Debug, PartialEq, Eq, Structural)]
pub enum Tint {
    Plain,
    Yellow,
    Red,
    Green,
    Blue,
    Cyan,
    CyanBold,
}

/// A piece of a line in one colour.
#[derive(Debug)]
pub struct Span {
    pub tint: Tint,
    pub text: String,
}

/// One line, its pieces shown one right behind the other.
#[derive(Debug)]
pub struct Line {
    pub spans: Vec<Span>,
}

impl View for Span {
    type V = (Tint, Seq<char>);

    open spec fn view(&self) -> (Tint, Seq<char>) {
        (self.tint, self.text@)
    }
}

impl View for Line {
    type V = Seq<(Tint, Seq<char>)>;

    open spec fn view(&self) -> Seq<(Tint, Seq<char>)> {
        self.spans@.map_values(|s: Span| s@)
    }
}

/// What a list of lines shows.
pub open spec fn shown(lines: Seq<Line>) -> Seq<Seq<(Tint, Seq<char>)>> {
    lines.map_values(|l: Line| l@)
}

/// A coloured sign and the plain text behind it.
pub open spec fn signed(tint: Tint, sign: Seq<char>, text: Seq<char>) -> Seq<(Tint, Seq<char>)> {
    seq![(tint, sign), (Tint::Plain, text)]
}

impl Span {
    /// A piece of a line.
    pub fn new(tint: Tint, text: String) -> (span: Span)
        ensures
            span@ == (tint, text@),
    {
        Span { tint, text }
    }
}

impl Line {
    /// A line in a single colour.
    pub fn whole(tint: Tint, text: String) -> (line: Line)
        ensures
            line@ == seq![(tint, text@)],
    {
        let mut spans: Vec<Span> = Vec::new();
        spans.push(Span { tint, text });
        let line = Line { spans };
        assert(line@ =~= seq![(tint, text@)]);
        line
    }

    /// A coloured sign with plain text behind it.
    pub fn signed(tint: Tint, sign: &str, text: String) -> (line: Line)
        ensures
            line@ == signed(tint, sign@, text@),
    {
        let mut spans: Vec<Span> = Vec::new();
        spans.push(Span { tint, text: String::from_str(sign) });
        spans.push(Span { tint: Tint::Plain, text });
        let line = Line { spans };
        assert(line@ =~= signed(tint, sign@, text@));
        line
    }

    /// The line that reports a failure: its name, a colon and the message.
    pub fn failure(tint: Tint, sign: &str, what: &str, message: &str) -> (line: Line)
        ensures
            line@ == signed(tint, sign@, " "@ + what@ + " error: "@ + message@),
    {
        let mut text = String::from_str(" ");
        text.append(what);
        text.append(" error: ");
        text.append(message);
        Line::signed(tint, sign, text)
    }
}

} // verus!
