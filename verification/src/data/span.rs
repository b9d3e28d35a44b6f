//! Locations and ranges in a source text.

use crate::text::{digits, push_char, push_digits};
use vstd::prelude::*;

verus! {

/// A position in a text: a line, counted from 1, and a column.
#[derive(Debug, Clone, Copy, PartialEq, Eq, Structural)]
pub struct Loc {
    pub line: usize,
    pub col: usize,
}

impl Default for Loc {
    /// The position before the first character: line 1, column 0.
    fn default() -> (loc: Loc)
        ensures
            loc == (Loc { line: 1, col: 0 }),
    {
        Loc { line: 1, col: 0 }
    }
}

impl Loc {
    pub fn new(line: usize, col: usize) -> (loc: Loc)
        ensures
            loc == (Loc { line, col }),
    {
        Loc { line, col }
    }
}

/// A range of source text. Both ends belong to the range.
#[derive(Debug, Clone, Copy, PartialEq, Eq, Structural)]
pub struct Span {
    pub start: Loc,
    pub end: Loc,
}

impl Span {
    pub fn new(start: Loc, end: Loc) -> (span: Span)
        ensures
            span == (Span { start, end }),
    {
        Span { start, end }
    }

    /// How a range is shown: `line:col-col`, or `line:col-line:col` if it
    /// ends in another line than it starts in.
    pub open spec fn text(self) -> Seq<char> {
        digits(self.start.line as nat) + seq![':'] + digits(self.start.col as nat) + seq!['-'] + (
        if self.start.line == self.end.line {
            digits(self.end.col as nat)
        } else {
            digits(self.end.line as nat) + seq![':'] + digits(self.end.col as nat)
        })
    }

    /// How the range is shown.
    pub fn to_string(&self) -> (shown: String)
        ensures
            shown@ == self.text(),
    {
        let mut shown = String::new();
        push_digits(&mut shown, self.start.line as u64);
        push_char(&mut shown, ':');
        push_digits(&mut shown, self.start.col as u64);
        push_char(&mut shown, '-');
        if self.start.line != self.end.line {
            push_digits(&mut shown, self.end.line as u64);
            push_char(&mut shown, ':');
        }
        push_digits(&mut shown, self.end.col as u64);
        assert(shown@ =~= self.text());
        shown
    }

    /// The range from where `self` starts to where `last` ends.
    pub open spec fn to(self, last: Span) -> Span {
        Span { start: self.start, end: last.end }
    }

    /// The range from where `self` starts to where `last` ends.
    pub fn join(self, last: Span) -> (span: Span)
        ensures
            span == self.to(last),
    {
        Span { start: self.start, end: last.end }
    }
}

} // verus!
