//! Text: strings, decimal numerals, and output in which floating-point
//! numbers are still to be printed.

use crate::data::float::{literal_text, FloatExpr, FloatModel};
use vstd::string::StringExecFns;
use vstd::prelude::*;

verus! {

// =================================================================================================
// STRINGS

/// The characters of a string, in order.
pub fn chars_of(s: &str) -> (chars: Vec<char>)
    ensures
        chars@ == s@,
{
    let mut chars: Vec<char> = Vec::new();
    for c in it: s.chars()
        invariant
            it.seq() == s@,
            chars@ == it.seq().take(it.index()),
    {
        chars.push(c);
    }
    chars
}

/// Appends `c` to `s`.
///
/// This is `String::push` of the standard library. Its contract is taken
/// on trust: the string afterwards is the string before with the one
/// character `c` behind it.
#[verifier::external_body]
pub(crate) fn push_char(s: &mut String, c: char)
    ensures
        final(s)@ == old(s)@.push(c),
{
    s.push(c)
}

/// The string made of the characters `chars[from..to]`.
pub fn string_of(chars: &Vec<char>, from: usize, to: usize) -> (s: String)
    requires
        from <= to <= chars.len(),
    ensures
        s@ == chars@.subrange(from as int, to as int),
{
    let mut s = String::new();
    let mut i: usize = from;
    while i < to
        invariant
            from <= i <= to <= chars.len(),
            s@ == chars@.subrange(from as int, i as int),
        decreases to - i,
    {
        push_char(&mut s, chars[i]);
        i += 1;
        assert(chars@.subrange(from as int, i as int) == chars@.subrange(
            from as int,
            i as int - 1,
        ).push(chars@[i as int - 1]));
    }
    s
}

/// `n` copies of `c`.
pub open spec fn repeat(c: char, n: nat) -> Seq<char> {
    Seq::new(n, |i: int| c)
}

// =================================================================================================
// DECIMAL NUMERALS

/// The digit for a number below ten.
pub open spec fn digit(d: nat) -> char
    recommends
        d < 10,
{
    (('0' as nat) + d) as char
}

/// The decimal numeral of a natural number, without leading zeros.
pub open spec fn digits(n: nat) -> Seq<char>
    decreases n,
{
    if n < 10 {
        seq![digit(n)]
    } else {
        digits(n / 10).push(digit(n % 10))
    }
}

/// The decimal numeral of an integer: a minus sign before the numeral of a
/// negative number's magnitude.
pub open spec fn decimal(i: int) -> Seq<char> {
    if i < 0 {
        seq!['-'] + digits((-i) as nat)
    } else {
        digits(i as nat)
    }
}

/// Appends the decimal numeral of `n` to `s`.
pub fn push_digits(s: &mut String, n: u64)
    ensures
        final(s)@ == old(s)@ + digits(n as nat),
    decreases n,
{
    if n >= 10 {
        push_digits(s, n / 10);
    }
    let d: u8 = (n % 10) as u8;
    let c: char = (48u8 + d) as char;
    assert(c == digit((n % 10) as nat));
    push_char(s, c);
    assert(final(s)@ == old(s)@ + digits(n as nat)) by {
        if n >= 10 {
            assert(old(s)@ + digits(n as nat / 10).push(c) == (old(s)@ + digits(
                n as nat / 10,
            )).push(c));
        } else {
            assert(old(s)@ + seq![c] == old(s)@.push(c));
        }
    }
}

/// Appends the decimal numeral of `i` to `s`.
pub fn push_decimal(s: &mut String, i: i32)
    ensures
        final(s)@ == old(s)@ + decimal(i as int),
{
    if i < 0 {
        push_char(s, '-');
        let magnitude: u64 = (-(i as i64)) as u64;
        push_digits(s, magnitude);
        assert(final(s)@ == old(s)@ + (seq!['-'] + digits((-i) as nat)));
    } else {
        push_digits(s, i as u64);
    }
}

// =================================================================================================
// OUTPUT

/// A stretch of output: characters, or a floating-point number that takes
/// the place of its digits.
#[derive(Debug, PartialEq)]
pub enum Piece {
    Str(String),
    Float(FloatExpr),
}

/// One position of output: a character, or a floating-point number that
/// takes the place of its digits.
pub enum Glyph {
    Char(char),
    Float(FloatModel),
}

/// The output that consists of the character `c`.
pub open spec fn glyph(c: char) -> Glyph {
    Glyph::Char(c)
}

/// The output that consists of the characters of `s`.
pub open spec fn plain(s: Seq<char>) -> Seq<Glyph> {
    Seq::new(s.len(), |i: int| glyph(s[i]))
}

impl Piece {
    pub open spec fn glyphs(self) -> Seq<Glyph> {
        match self {
            Piece::Str(s) => plain(s@),
            Piece::Float(x) => seq![Glyph::Float(x.model())],
        }
    }
}

/// The output that a sequence of pieces spells.
pub open spec fn spell(pieces: Seq<Piece>) -> Seq<Glyph>
    decreases pieces.len(),
{
    if pieces.len() == 0 {
        Seq::empty()
    } else {
        spell(pieces.drop_last()) + pieces.last().glyphs()
    }
}

/// Output in which each floating-point number is still to be printed.
///
/// To get the final text, write the pieces in order, and for a
/// [`Piece::Float`] the shortest decimal numeral that reads back as the value
/// of its expression in double precision.
#[derive(Debug, PartialEq)]
pub struct Text {
    pub pieces: Vec<Piece>,
}

impl View for Text {
    type V = Seq<Glyph>;

    open spec fn view(&self) -> Seq<Glyph> {
        spell(self.pieces@)
    }
}

impl Text {
    /// The empty output.
    pub fn new() -> (text: Text)
        ensures
            text@ == Seq::<Glyph>::empty(),
    {
        Text { pieces: Vec::new() }
    }

    /// Appends the characters of `s`.
    pub fn push_string(&mut self, s: String)
        ensures
            final(self)@ == old(self)@ + plain(s@),
            final(self).pieces.len() == old(self).pieces.len() + 1,
    {
        self.pieces.push(Piece::Str(s));
        assert(self.pieces@.drop_last() == old(self).pieces@);
    }

    /// Appends the characters of `s`.
    pub fn push_str(&mut self, s: &str)
        ensures
            final(self)@ == old(self)@ + plain(s@),
            final(self).pieces.len() == old(self).pieces.len() + 1,
    {
        self.push_string(s.to_owned());
    }

    /// Appends a floating-point number.
    pub fn push_float(&mut self, x: FloatExpr)
        ensures
            final(self)@ == old(self)@.push(Glyph::Float(x.model())),
            final(self).pieces.len() == old(self).pieces.len() + 1,
    {
        self.pieces.push(Piece::Float(x));
        assert(self.pieces@.drop_last() == old(self).pieces@);
        assert(old(self)@ + seq![Glyph::Float(x.model())] == old(self)@.push(
            Glyph::Float(x.model()),
        ));
    }

    /// Appends the decimal numeral of `n`.
    pub fn push_number(&mut self, n: usize)
        ensures
            final(self)@ == old(self)@ + plain(digits(n as nat)),
            final(self).pieces.len() == old(self).pieces.len() + 1,
    {
        let mut s = String::new();
        push_digits(&mut s, n as u64);
        assert(s@ == digits(n as nat));
        self.push_string(s);
    }

    /// Appends another output.
    pub fn append(&mut self, other: Text)
        ensures
            final(self)@ == old(self)@ + other@,
            final(self).pieces.len() == old(self).pieces.len() + other.pieces.len(),
    {
        let mut other = other;
        proof {
            lemma_spell_concat(self.pieces@, other.pieces@);
        }
        self.pieces.append(&mut other.pieces);
    }

    /// Appends the decimal numeral of `i`.
    pub fn push_decimal(&mut self, i: i32)
        ensures
            final(self)@ == old(self)@ + plain(decimal(i as int)),
            final(self).pieces.len() == old(self).pieces.len() + 1,
    {
        let mut s = String::new();
        push_decimal(&mut s, i);
        assert(s@ == decimal(i as int));
        self.push_string(s);
    }
}

/// Pieces that are put together spell what they spell one after the other.
pub proof fn lemma_spell_concat(a: Seq<Piece>, b: Seq<Piece>)
    ensures
        spell(a + b) == spell(a) + spell(b),
    decreases b.len(),
{
    if b.len() == 0 {
        assert(a + b =~= a);
        assert(spell(a) + spell(b) =~= spell(a));
    } else {
        lemma_spell_concat(a, b.drop_last());
        assert((a + b).drop_last() =~= a + b.drop_last());
        assert(spell(a + b) =~= spell(a) + spell(b));
    }
}

// =================================================================================================
// OUTPUT AS IT WAS READ

/// The characters that stand for a glyph: a floating-point number that is
/// a literal is written as it was read.
pub open spec fn glyph_text(glyph: Glyph) -> Seq<char> {
    match glyph {
        Glyph::Char(c) => seq![c],
        Glyph::Float(x) => literal_text(x),
    }
}

/// The text of an output in which each floating-point number is written as
/// it was read.
pub open spec fn written(glyphs: Seq<Glyph>) -> Seq<char>
    decreases glyphs.len(),
{
    if glyphs.len() == 0 {
        Seq::empty()
    } else {
        written(glyphs.drop_last()) + glyph_text(glyphs.last())
    }
}

/// The text of two outputs, one after the other.
pub proof fn lemma_written_concat(a: Seq<Glyph>, b: Seq<Glyph>)
    ensures
        written(a + b) == written(a) + written(b),
    decreases b.len(),
{
    if b.len() == 0 {
        assert(a + b =~= a);
        assert(written(a) + written(b) =~= written(a));
    } else {
        lemma_written_concat(a, b.drop_last());
        assert((a + b).drop_last() =~= a + b.drop_last());
        assert(written(a + b) =~= written(a) + written(b));
    }
}

/// The text of an output of characters is these characters.
pub proof fn lemma_written_plain(s: Seq<char>)
    ensures
        written(plain(s)) == s,
    decreases s.len(),
{
    if s.len() > 0 {
        lemma_written_plain(s.drop_last());
        assert(plain(s).drop_last() =~= plain(s.drop_last()));
        assert(written(plain(s)) =~= s);
    }
}

/// The text of a single glyph.
pub proof fn lemma_written_one(glyph: Glyph)
    ensures
        written(seq![glyph]) == glyph_text(glyph),
{
    assert(seq![glyph].drop_last() =~= Seq::<Glyph>::empty());
    assert(written(Seq::<Glyph>::empty()) =~= Seq::<char>::empty());
    assert(written(seq![glyph]) =~= glyph_text(glyph));
}

/// Whether every floating-point number of an output is a literal.
pub open spec fn literal_only(glyphs: Seq<Glyph>) -> bool {
    forall|i: int|
        0 <= i < glyphs.len() ==> ((#[trigger] glyphs[i]) matches Glyph::Float(x) ==> x is Literal)
}

/// An output of literals and an output of literals.
pub proof fn lemma_literal_only_concat(a: Seq<Glyph>, b: Seq<Glyph>)
    ensures
        literal_only(a + b) <==> literal_only(a) && literal_only(b),
{
    if literal_only(a + b) {
        assert forall|i: int| 0 <= i < a.len() implies ((#[trigger] a[i]) matches Glyph::Float(x)
            ==> x is Literal) by {
            assert((a + b)[i] == a[i]);
        }
        assert forall|i: int| 0 <= i < b.len() implies ((#[trigger] b[i]) matches Glyph::Float(x)
            ==> x is Literal) by {
            assert((a + b)[i + a.len()] == b[i]);
        }
    }
}

impl Text {
    /// The text of the output, if every floating-point number in it is a
    /// literal: each is written as it was read.
    pub fn written(&self) -> (text: Option<String>)
        ensures
            match text {
                Some(s) => literal_only(self@) && s@ == written(self@),
                None => !literal_only(self@),
            },
    {
        let mut text = String::new();
        let mut i: usize = 0;
        assert(self.pieces@.take(0) =~= Seq::empty());
        while i < self.pieces.len()
            invariant
                i <= self.pieces.len(),
                literal_only(spell(self.pieces@.take(i as int))),
                text@ == written(spell(self.pieces@.take(i as int))),
            decreases self.pieces.len() - i,
        {
            let ghost before = self.pieces@.take(i as int);
            let ghost piece = self.pieces@[i as int];
            proof {
                assert(self.pieces@.take(i + 1).drop_last() =~= before);
                lemma_written_concat(spell(before), piece.glyphs());
                lemma_literal_only_concat(spell(before), piece.glyphs());
            }
            match &self.pieces[i] {
                Piece::Str(s) => {
                    proof {
                        lemma_written_plain(s@);
                    }
                    text.append(s.as_str());
                },
                Piece::Float(FloatExpr::Literal(s)) => {
                    proof {
                        lemma_written_one(Glyph::Float(FloatModel::Literal(s@)));
                    }
                    text.append(s.as_str());
                },
                Piece::Float(_) => {
                    proof {
                        let rest = self.pieces@.skip(i as int + 1);
                        assert(self.pieces@ =~= self.pieces@.take(i + 1) + rest);
                        lemma_spell_concat(self.pieces@.take(i + 1), rest);
                        lemma_literal_only_concat(spell(self.pieces@.take(i + 1)), spell(rest));
                        assert(!(piece.glyphs()[0] matches Glyph::Float(x) ==> x is Literal));
                    }
                    return None;
                },
            }
            i += 1;
        }
        assert(self.pieces@.take(i as int) =~= self.pieces@);
        Some(text)
    }
}

} // verus!
