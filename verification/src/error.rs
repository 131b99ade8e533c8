//! Why and where a parse failed.

use crate::token::{Delimiter, Tokens, TokenTree, TokenView, trees_view};
use vstd::prelude::*;

verus! {

/// What the parser needed at the point where it gave up.
#[derive(Clone, Copy, Debug, PartialEq, Eq, Hash, Structural)]
pub enum Expected {
    /// The start of a pattern.
    Pattern,
    /// A word usable as a name.
    Ident,
    /// A field designator: a name or a decimal index that fits 32 bits.
    Member,
    /// `:`
    Colon,
    /// `,`
    Comma,
    /// `::`
    PathSep,
    /// The `>` that closes an angle bracket.
    Gt,
    /// A type between `<` and `>`.
    Type,
    /// `..` or `..=`
    RangeLimits,
    /// A literal or a path, as a range bound or literal pattern.
    LiteralOrPath,
    /// The delimited body of a macro invocation.
    Delimiter,
    /// `( ... )`
    Paren,
    /// `[ ... ]`
    Bracket,
    /// `{ ... }`
    Brace,
    /// The word `box`.
    BoxWord,
    /// `_`
    Underscore,
    /// `&`
    And,
    /// `..`
    DotDot,
    /// The end of the enclosing group or of the input.
    End,
}

/// The kind of token that stood where the parser gave up.
#[derive(Clone, Copy, Debug, PartialEq, Eq, Hash, Structural)]
pub enum Found {
    /// No token: the input or the enclosing group had ended.
    End,
    Ident,
    Punct(char),
    Literal,
    Group(Delimiter),
}

/// A syntax error.
///
/// The position is given by `trail`, innermost first: `trail[0]` is the
/// number of tokens that were still unread, the offending one included, in
/// the sequence where parsing stopped; each further entry is the same count
/// for the next enclosing sequence, taken at the group that holds the
/// failure. The offending token of a sequence of length `n` therefore has
/// index `n - trail[k]` at its level.
#[derive(Debug, PartialEq, Eq, Hash)]
pub struct ParseError {
    pub expected: Expected,
    pub found: Found,
    pub trail: Vec<usize>,
}

/// The value of a [`ParseError`].
pub struct ParseErrorView {
    pub expected: Expected,
    pub found: Found,
    pub trail: Seq<nat>,
}

impl View for ParseError {
    type V = ParseErrorView;

    open spec fn view(&self) -> ParseErrorView {
        ParseErrorView {
            expected: self.expected,
            found: self.found,
            trail: Seq::new(self.trail@.len(), |i: int| self.trail@[i] as nat),
        }
    }
}

/// What a grammar rule yields on a token sequence: the value and the number
/// of tokens it took from the front, or the error.
pub type Parsed<V> = Result<(V, nat), ParseErrorView>;

/// The kind of the first token of `s`.
pub open spec fn found_at(s: Tokens) -> Found {
    if s.len() == 0 {
        Found::End
    } else {
        match s[0] {
            TokenView::Ident(_) => Found::Ident,
            TokenView::Punct(c, _) => Found::Punct(c),
            TokenView::Literal(_) => Found::Literal,
            TokenView::Group(d, _) => Found::Group(d),
        }
    }
}

/// The error for "`expected` was needed at the front of `s`".
pub open spec fn error_at(s: Tokens, expected: Expected) -> ParseErrorView {
    ParseErrorView { expected, found: found_at(s), trail: seq![s.len()] }
}

/// The failure "`expected` was needed at the front of `s`".
pub open spec fn fail<V>(s: Tokens, expected: Expected) -> Parsed<V> {
    Err(error_at(s, expected))
}

impl ParseErrorView {
    /// The same error seen from the sequence that holds the group in which
    /// it arose, where `remaining` tokens were unread.
    pub open spec fn nested(self, remaining: nat) -> ParseErrorView {
        ParseErrorView { trail: self.trail.push(remaining), ..self }
    }
}

/// The value of an executable parse result.
pub open spec fn parsed_view<T: View>(r: Result<(T, usize), ParseError>) -> Parsed<T::V> {
    match r {
        Ok((v, n)) => Ok((v@, n as nat)),
        Err(e) => Err(e@),
    }
}

impl ParseError {
    /// The error for "`expected` was needed at token `i` of `input`".
    pub fn at(input: &[TokenTree], i: usize, expected: Expected) -> (e: ParseError)
        requires
            i <= input.len(),
        ensures
            e@ == error_at(trees_view(input@).skip(i as int), expected),
            i == 0 ==> e@ == error_at(trees_view(input@), expected),
            i == input.len() ==> e@ == error_at(Seq::empty(), expected),
    {
        let found = if i < input.len() {
            match &input[i] {
                TokenTree::Ident(_) => Found::Ident,
                TokenTree::Punct(c, _) => Found::Punct(*c),
                TokenTree::Literal(_) => Found::Literal,
                TokenTree::Group(d, _) => Found::Group(*d),
            }
        } else {
            Found::End
        };
        let mut trail: Vec<usize> = Vec::new();
        trail.push(input.len() - i);
        let e = ParseError { expected, found, trail };
        proof {
            assert(e@.trail =~= seq![(input.len() - i) as nat]);
            assert(i == 0 ==> trees_view(input@).skip(0) =~= trees_view(input@));
            assert(i == input.len() ==> trees_view(input@).skip(i as int) =~= Seq::empty());
        }
        e
    }

    /// Records that the failure lies inside a group of a sequence in which
    /// `remaining` tokens were unread.
    pub fn nest(self, remaining: usize) -> (e: ParseError)
        ensures
            e@ == self@.nested(remaining as nat),
    {
        let mut trail = self.trail;
        trail.push(remaining);
        let e = ParseError { expected: self.expected, found: self.found, trail };
        proof {
            assert(e@.trail =~= self@.trail.push(remaining as nat));
        }
        e
    }
}

} // verus!
