//! The part of an error that shows where in the source text it lies.

use crate::context::checked_ast::TypeInfo;
use crate::context::source::Source;
use crate::data::meta::Meta;
use crate::data::span::Span;
use crate::text::{chars_of, digits, push_char, push_digits, repeat};
use vstd::prelude::*;
use vstd::string::StringExecFns;

verus! {

/// An extract of the source text with the place of an error underlined,
/// ready to be shown.
#[derive(Debug, Clone, Default, PartialEq)]
pub struct ErrorSpan(pub String);

impl View for ErrorSpan {
    type V = Seq<char>;

    open spec fn view(&self) -> Seq<char> {
        self.0@
    }
}

// =================================================================================================
// WHAT AN EXTRACT IS

/// How many characters the first line of a text has: those before the
/// first line feed.
pub open spec fn first_line(text: Seq<char>) -> nat
    decreases text.len(),
{
    if text.len() == 0 || text[0] == '\n' {
        0
    } else {
        1 + first_line(text.drop_first())
    }
}

/// `a - b`, or nothing where `b` is the larger.
pub open spec fn minus(a: nat, b: nat) -> nat {
    if a >= b {
        (a - b) as nat
    } else {
        0
    }
}

/// A line number as it stands before a line: pushed to the right in a
/// field of four characters.
pub open spec fn numbered(number: nat) -> Seq<char> {
    repeat(' ', minus(4, digits(number).len())) + digits(number)
}

/// What stands under a line to mark the columns `from` to `to`: carets,
/// pushed to the right by blanks.
pub open spec fn underline(from: nat, to: nat) -> Seq<char> {
    repeat(' ', minus(from, 1)) + repeat('^', minus(to + 1, from))
}

/// The extract of a line, which has the number `number`: the line behind
/// its number, and under it the mark. The mark starts in the column where the
/// range starts, if it starts in this line, and else in the first; it ends in
/// the column where the range ends, if it ends in this line, and else with the
/// line.
pub open spec fn line_extract(number: nat, line: Seq<char>, span: Span) -> Seq<char> {
    let from = if number == span.start.line {
        span.start.col as nat
    } else {
        1
    };
    let to = if number == span.end.line {
        span.end.col as nat
    } else {
        line.len()
    };
    numbered(number) + " | "@ + line + "\n"@ + "     | "@ + underline(from, to) + "\n"@
}

/// The extracts of the lines of `text` that the range touches, where the
/// first line of `text` has the number `number`.
pub open spec fn extract_from(text: Seq<char>, number: nat, span: Span) -> Seq<char>
    decreases text.len(),
{
    let n = first_line(text);
    let this = if span.start.line <= number <= span.end.line {
        line_extract(number, text.take(n as int), span)
    } else {
        Seq::empty()
    };
    if n >= text.len() {
        this
    } else {
        this + extract_from(text.skip(n as int + 1), number + 1, span)
    }
}

/// The extract of a text for a range: each line that the range touches,
/// with the touched columns marked. The lines are numbered from 1. An empty
/// text has an empty extract.
pub open spec fn extract(text: Seq<char>, span: Span) -> Seq<char> {
    if text.len() == 0 {
        Seq::empty()
    } else {
        extract_from(text, 1, span)
    }
}

/// The first line of a text ends before the text does.
pub proof fn lemma_first_line(text: Seq<char>)
    ensures
        first_line(text) <= text.len(),
        forall|i: int| 0 <= i < first_line(text) ==> text[i] != '\n',
        first_line(text) < text.len() ==> text[first_line(text) as int] == '\n',
    decreases text.len(),
{
    if text.len() != 0 && text[0] != '\n' {
        lemma_first_line(text.drop_first());
        assert forall|i: int| 0 <= i < first_line(text) implies text[i] != '\n' by {
            if i > 0 {
                assert(text[i] == text.drop_first()[i - 1]);
            }
        }
    }
}

/// The lines behind the range have no extract.
pub proof fn lemma_extract_behind(text: Seq<char>, number: nat, span: Span)
    requires
        number > span.end.line,
    ensures
        extract_from(text, number, span) == Seq::<char>::empty(),
    decreases text.len(),
{
    let n = first_line(text);
    lemma_first_line(text);
    if n < text.len() {
        lemma_extract_behind(text.skip(n as int + 1), number + 1, span);
        assert(Seq::<char>::empty() + Seq::<char>::empty() =~= Seq::<char>::empty());
    }
}

// =================================================================================================
// MAKING AN EXTRACT

/// How many digits the numeral of a number has.
pub proof fn lemma_digits_len(n: nat)
    ensures
        n < 10 ==> digits(n).len() == 1,
        10 <= n < 100 ==> digits(n).len() == 2,
        100 <= n < 1000 ==> digits(n).len() == 3,
        1000 <= n ==> digits(n).len() >= 4,
    decreases n,
{
    if n >= 10 {
        lemma_digits_len(n / 10);
    }
}

/// Appends the number of a line.
fn push_numbered(out: &mut String, number: usize)
    ensures
        final(out)@ == old(out)@ + numbered(number as nat),
{
    proof {
        lemma_digits_len(number as nat);
        reveal_strlit("   ");
        reveal_strlit("  ");
        reveal_strlit(" ");
    }
    if number < 10 {
        out.append("   ");
        assert(out@ =~= old(out)@ + repeat(' ', 3));
    } else if number < 100 {
        out.append("  ");
        assert(out@ =~= old(out)@ + repeat(' ', 2));
    } else if number < 1000 {
        out.append(" ");
        assert(out@ =~= old(out)@ + repeat(' ', 1));
    } else {
        assert(out@ =~= old(out)@ + repeat(' ', 0));
    }
    push_digits(out, number as u64);
    assert(out@ =~= old(out)@ + numbered(number as nat));
}

/// Appends `c` as often as there are numbers from `from` to `to`.
fn push_repeated(out: &mut String, c: char, from: usize, to: usize)
    ensures
        final(out)@ == old(out)@ + repeat(c, minus(to as nat + 1, from as nat)),
{
    if from > to {
        assert(out@ =~= old(out)@ + repeat(c, 0));
        return ;
    }
    let mut k: usize = from;
    assert(out@ =~= old(out)@ + repeat(c, 0));
    while k < to
        invariant
            from <= k <= to,
            out@ == old(out)@ + repeat(c, (k - from) as nat),
        decreases to - k,
    {
        push_char(out, c);
        k += 1;
        assert(out@ =~= old(out)@ + repeat(c, (k - from) as nat));
    }
    push_char(out, c);
    assert(out@ =~= old(out)@ + repeat(c, (to + 1 - from) as nat));
}

/// Appends the mark for the columns `from` to `to`.
fn push_underline(out: &mut String, from: usize, to: usize)
    ensures
        final(out)@ == old(out)@ + underline(from as nat, to as nat),
{
    if from >= 2 {
        push_repeated(out, ' ', 2, from);
    } else {
        assert(out@ =~= old(out)@ + repeat(' ', 0));
    }
    push_repeated(out, '^', from, to);
    assert(out@ =~= old(out)@ + underline(from as nat, to as nat));
}

/// Where the line ends that starts at `chars[begin]`.
fn line_end(chars: &Vec<char>, begin: usize) -> (end: usize)
    requires
        begin <= chars.len(),
    ensures
        begin <= end <= chars.len(),
        end - begin == first_line(chars@.skip(begin as int)),
{
    let ghost rest = chars@.skip(begin as int);
    proof {
        lemma_first_line(rest);
    }
    let mut end: usize = begin;
    while end < chars.len() && chars[end] != '\n'
        invariant
            begin <= end <= chars.len(),
            rest == chars@.skip(begin as int),
            end - begin <= first_line(rest),
            first_line(rest) <= rest.len(),
            forall|i: int| 0 <= i < first_line(rest) ==> rest[i] != '\n',
            first_line(rest) < rest.len() ==> rest[first_line(rest) as int] == '\n',
        decreases chars.len() - end,
    {
        proof {
            if end - begin == first_line(rest) {
                assert(rest[end - begin] == chars@[end as int]);
            }
        }
        end += 1;
    }
    proof {
        if end - begin < first_line(rest) {
            assert(rest[end - begin] == chars@[end as int]);
        }
    }
    end
}

/// Appends the extract of the line `chars[begin..end]`, which has the
/// number `number`.
fn push_line_extract(
    out: &mut String,
    chars: &Vec<char>,
    begin: usize,
    end: usize,
    number: usize,
    span: Span,
)
    requires
        begin <= end <= chars.len(),
    ensures
        final(out)@ == old(out)@ + line_extract(
            number as nat,
            chars@.subrange(begin as int, end as int),
            span,
        ),
{
    let from = if number == span.start.line {
        span.start.col
    } else {
        1
    };
    let to = if number == span.end.line {
        span.end.col
    } else {
        end - begin
    };
    push_numbered(out, number);
    out.append(" | ");
    let mut i: usize = begin;
    let ghost head = out@;
    assert(out@ =~= head + chars@.subrange(begin as int, begin as int));
    while i < end
        invariant
            begin <= i <= end <= chars.len(),
            out@ == head + chars@.subrange(begin as int, i as int),
        decreases end - i,
    {
        push_char(out, chars[i]);
        i += 1;
        assert(out@ =~= head + chars@.subrange(begin as int, i as int));
    }
    out.append("\n");
    out.append("     | ");
    push_underline(out, from, to);
    out.append("\n");
    assert(out@ =~= old(out)@ + line_extract(
        number as nat,
        chars@.subrange(begin as int, end as int),
        span,
    ));
}

/// The extract of a text for a range.
pub fn source_extract(source: &str, span: Span) -> (text: String)
    ensures
        text@ == extract(source@, span),
{
    let chars = chars_of(source);
    let mut out = String::new();
    if chars.len() == 0 {
        return out;
    }
    let ghost src = chars@;
    let mut begin: usize = 0;
    let mut number: usize = 1;
    assert(src.skip(0) =~= src);
    assert(out@ + extract_from(src, 1, span) =~= extract_from(src, 1, span));
    loop
        invariant_except_break
            begin <= chars.len(),
            src == chars@,
            extract(src, span) == out@ + extract_from(src.skip(begin as int), number as nat, span),
        ensures
            out@ == extract(src, span),
        decreases chars.len() - begin,
    {
        let ghost rest = src.skip(begin as int);
        let ghost before = out@;
        let end = line_end(&chars, begin);
        if span.start.line <= number && number <= span.end.line {
            push_line_extract(&mut out, &chars, begin, end, number, span);
        }
        proof {
            assert(src.subrange(begin as int, end as int) =~= rest.take(end - begin));
            let this = if span.start.line <= number <= span.end.line {
                line_extract(number as nat, rest.take(end - begin), span)
            } else {
                Seq::empty()
            };
            assert(out@ =~= before + this);
            if end < chars.len() {
                assert(rest.skip(end - begin + 1) =~= src.skip(end + 1));
                assert(before + (this + extract_from(src.skip(end + 1), number as nat + 1, span))
                    =~= (before + this) + extract_from(src.skip(end + 1), number as nat + 1, span));
            }
        }
        if end >= chars.len() {
            break ;
        }
        if number >= span.end.line {
            proof {
                lemma_extract_behind(src.skip(end + 1), number as nat + 1, span);
                assert(out@ + Seq::<char>::empty() =~= out@);
            }
            break ;
        }
        begin = end + 1;
        number += 1;
    }
    out
}

/// What has a place in the source text.
pub trait Spanned {
    /// The source range of the thing.
    spec fn span_of(&self) -> Span;

    fn span(&self) -> (span: Span)
        ensures
            span == self.span_of(),
    ;

    /// The extract of the source text that shows where the thing is.
    fn to_error(&self, source: &Source) -> (shown: ErrorSpan)
        ensures
            shown@ == extract(source@, self.span_of()),
    {
        ErrorSpan(source_extract(source.source(), self.span()))
    }
}

impl Spanned for Span {
    open spec fn span_of(&self) -> Span {
        *self
    }

    fn span(&self) -> Span {
        *self
    }
}

impl Spanned for TypeInfo {
    open spec fn span_of(&self) -> Span {
        self.span
    }

    fn span(&self) -> Span {
        self.span
    }
}

impl<K, M: Spanned> Spanned for Meta<K, M> {
    open spec fn span_of(&self) -> Span {
        self.meta.span_of()
    }

    fn span(&self) -> Span {
        self.meta.span()
    }
}

} // verus!
