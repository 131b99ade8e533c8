//! From source text to patterns, with `proc_macro2` as the lexer.

use crate::ast::{Pat, PatView};
use crate::canon::comma_before_rest;
use crate::error::{ParseError, ParseErrorView};
use crate::grammar;
use crate::laws::well_formed;
use crate::layout;
use crate::parsing::parse_pattern;
use crate::token::{
    Delimiter, Tokens, TokenTree, TokenView, lemma_group_decreases, lemma_trees_view_push,
    trees_view,
};
use crate::yields::lemma_round_trip;
use vstd::prelude::*;

verus! {

/// `proc_macro2::TokenStream`, taken as it is: nothing is known of a stream
/// but what the functions below say.
#[verifier::external_type_specification]
#[verifier::external_body]
pub struct ExTokenStream(proc_macro2::TokenStream);

/// The tokens that a `proc_macro2::TokenStream` holds, in order, as
/// iterating over it hands them out.
pub uninterp spec fn stream_tokens(ts: proc_macro2::TokenStream) -> Tokens;

/// The tokens that `proc_macro2` lexes from a text
/// (`TokenStream::from_str`); nothing where it rejects the text.
pub uninterp spec fn lexed(text: Seq<char>) -> Option<Tokens>;

/// One token of a `proc_macro2::TokenStream`, with the content of a group
/// still in the stream that `proc_macro2` keeps it in.
pub enum Piece {
    Ident(String),
    Punct(char, bool),
    Literal(String),
    Group(Delimiter, proc_macro2::TokenStream),
}

impl View for Piece {
    type V = TokenView;

    open spec fn view(&self) -> TokenView {
        match self {
            Piece::Ident(w) => TokenView::Ident(w@),
            Piece::Punct(c, joint) => TokenView::Punct(*c, *joint),
            Piece::Literal(w) => TokenView::Literal(w@),
            Piece::Group(d, inner) => TokenView::Group(*d, stream_tokens(*inner)),
        }
    }
}

/// `<proc_macro2::TokenStream as FromStr>::from_str`: lexes `text`.
///
/// Not proved: that the stream which comes back holds `lexed(text)`, and
/// that the lexer rejects the text exactly where `lexed(text)` is nothing.
/// Both say only that the result depends on the text alone. The lexer's own
/// error value is dropped.
#[verifier::external_body]
fn lex(text: &str) -> (r: Option<proc_macro2::TokenStream>)
    ensures
        match r {
            Some(ts) => lexed(text@) == Some(stream_tokens(ts)),
            None => lexed(text@) is None,
        },
{
    match <proc_macro2::TokenStream as std::str::FromStr>::from_str(text) {
        Ok(ts) => Some(ts),
        Err(_) => None,
    }
}

/// `proc_macro2::TokenStream::into_iter`, on a copy of the stream: hands out
/// the tokens in order. A word and a literal come as their text
/// (`to_string`), a punctuation character with its spacing (`as_char`,
/// `spacing`), a group with its delimiter and its inner stream
/// (`delimiter`, `stream`).
///
/// Not proved: that what comes out is, piece by piece, what
/// `stream_tokens` names for the stream.
#[verifier::external_body]
fn pieces(ts: &proc_macro2::TokenStream) -> (r: Vec<Piece>)
    ensures
        r@.len() == stream_tokens(*ts).len(),
        forall|i: int| 0 <= i < r@.len() ==> (#[trigger] r@[i])@ == stream_tokens(*ts)[i],
{
    ts.clone().into_iter().map(|tt| match tt {
        proc_macro2::TokenTree::Ident(i) => Piece::Ident(i.to_string()),
        proc_macro2::TokenTree::Punct(p) => Piece::Punct(p.as_char(), match p.spacing() {
            proc_macro2::Spacing::Joint => true,
            proc_macro2::Spacing::Alone => false,
        }),
        proc_macro2::TokenTree::Literal(l) => Piece::Literal(l.to_string()),
        proc_macro2::TokenTree::Group(g) => Piece::Group(match g.delimiter() {
            proc_macro2::Delimiter::Parenthesis => Delimiter::Parenthesis,
            proc_macro2::Delimiter::Brace => Delimiter::Brace,
            proc_macro2::Delimiter::Bracket => Delimiter::Bracket,
            proc_macro2::Delimiter::None => Delimiter::Invisible,
        }, g.stream()),
    }).collect()
}

/// The tokens of a stream as token trees, groups included.
pub fn trees_of(ts: &proc_macro2::TokenStream) -> (r: Vec<TokenTree>)
    ensures
        trees_view(r@) == stream_tokens(*ts),
    decreases stream_tokens(*ts),
{
    let ps = pieces(ts);
    let ghost all = stream_tokens(*ts);
    let mut out: Vec<TokenTree> = Vec::new();
    let mut i: usize = 0;
    assert(trees_view(out@) =~= all.take(0));
    while i < ps.len()
        invariant
            i <= ps.len(),
            all == stream_tokens(*ts),
            ps@.len() == all.len(),
            forall|j: int| 0 <= j < ps@.len() ==> (#[trigger] ps@[j])@ == all[j],
            trees_view(out@) == all.take(i as int),
        decreases ps.len() - i,
    {
        let t = match &ps[i] {
            Piece::Ident(w) => TokenTree::Ident(w.clone()),
            Piece::Punct(c, joint) => TokenTree::Punct(*c, *joint),
            Piece::Literal(w) => TokenTree::Literal(w.clone()),
            Piece::Group(d, inner) => {
                proof {
                    assert(ps@[i as int]@ == all[i as int]);
                    lemma_group_decreases(all, i as int);
                }
                TokenTree::Group(*d, trees_of(inner))
            },
        };
        proof {
            assert(ps@[i as int]@ == all[i as int]);
            assert(t@ == all[i as int]);
            lemma_trees_view_push(out@, t);
            assert(all.take(i as int).push(all[i as int]) =~= all.take(i + 1));
        }
        out.push(t);
        i = i + 1;
    }
    assert(all.take(all.len() as int) =~= all);
    out
}

/// Lexes `text` into token trees; nothing where the lexer rejects it.
pub fn tokenize(text: &str) -> (r: Option<Vec<TokenTree>>)
    ensures
        match r {
            Some(ts) => lexed(text@) == Some(trees_view(ts@)),
            None => lexed(text@) is None,
        },
{
    match lex(text) {
        Some(ts) => Some(trees_of(&ts)),
        None => None,
    }
}

/// Why a text is not a pattern.
#[derive(Debug, PartialEq, Eq)]
pub enum Error {
    /// The text is not a sequence of tokens.
    Lex,
    /// The tokens are not a pattern.
    Syntax(ParseError),
}

/// The value of a [`Error`].
pub enum ErrorView {
    Lex,
    Syntax(ParseErrorView),
}

impl View for Error {
    type V = ErrorView;

    open spec fn view(&self) -> ErrorView {
        match self {
            Error::Lex => ErrorView::Lex,
            Error::Syntax(e) => ErrorView::Syntax(e@),
        }
    }
}

/// The pattern that a text spells: the pattern of its tokens.
pub open spec fn pattern_of_text(text: Seq<char>) -> Result<PatView, ErrorView> {
    match lexed(text) {
        None => Err(ErrorView::Lex),
        Some(ts) => match grammar::pattern(ts) {
            Ok(p) => Ok(p),
            Err(e) => Err(ErrorView::Syntax(e)),
        },
    }
}

/// Parsing a text, printing the tree and parsing what was printed gives
/// the same tree again, provided that every `..` that ends a struct pattern
/// with fields has a comma before it.
pub proof fn lemma_text_round_trip(text: Seq<char>)
    requires
        pattern_of_text(text) is Ok,
        comma_before_rest(pattern_of_text(text)->Ok_0),
    ensures
        grammar::pattern(layout::pat(pattern_of_text(text)->Ok_0)) == Ok::<
            PatView,
            ParseErrorView,
        >(pattern_of_text(text)->Ok_0),
{
    lemma_round_trip(lexed(text)->0);
}

/// Parses a whole text as one pattern, alternatives included.
pub fn parse_str(text: &str) -> (r: Result<Pat, Error>)
    ensures
        match r {
            Ok(p) => pattern_of_text(text@) == Ok::<PatView, ErrorView>(p@) && well_formed(p@),
            Err(e) => pattern_of_text(text@) == Err::<PatView, ErrorView>(e@),
        },
{
    match tokenize(text) {
        None => Err(Error::Lex),
        Some(ts) => match parse_pattern(ts.as_slice()) {
            Ok(p) => Ok(p),
            Err(e) => Err(Error::Syntax(e)),
        },
    }
}

} // verus!
