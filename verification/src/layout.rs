//! The tokens that spell a syntax tree, as mathematical functions.
//!
//! Attributes come first, then the syntax of the node. An operator of
//! several characters is written with every character but the last joined
//! to the next; every other punctuation character stands alone.

use crate::ast::{
    AttributeView, AttrStyle, ExprView, FieldPatView, LitView, MacroDelimiter, MacroView,
    MemberView, PathArgumentsView, PathSegmentView, PathView, PatTupleView, PatView, QSelfView,
    RangeLimits,
};
use crate::index::decimal_digits;
use crate::token::{Delimiter, Tokens, TokenView};
use vstd::prelude::*;

verus! {

/// The word `w`.
pub open spec fn word(w: Seq<char>) -> Tokens {
    seq![TokenView::Ident(w)]
}

/// The punctuation character `c`, standing alone.
pub open spec fn punct(c: char) -> Tokens {
    seq![TokenView::Punct(c, false)]
}

/// A group bracketed by `d` that holds `inner`.
pub open spec fn group(d: Delimiter, inner: Tokens) -> Tokens {
    seq![TokenView::Group(d, inner)]
}

/// `::`
pub open spec fn colon2() -> Tokens {
    seq![TokenView::Punct(':', true), TokenView::Punct(':', false)]
}

/// `..`
pub open spec fn dot2() -> Tokens {
    seq![TokenView::Punct('.', true), TokenView::Punct('.', false)]
}

/// `..=`
pub open spec fn dot2_eq() -> Tokens {
    seq![TokenView::Punct('.', true), TokenView::Punct('.', true), TokenView::Punct('=', false)]
}

/// `tokens` if `present`, nothing otherwise.
pub open spec fn opt(present: bool, tokens: Tokens) -> Tokens {
    if present {
        tokens
    } else {
        Seq::empty()
    }
}

/// An outer attribute is `#` and its bracketed tokens; an inner attribute
/// is not part of a pattern's text.
pub open spec fn attr(a: AttributeView) -> Tokens {
    match a.style {
        AttrStyle::Outer => punct('#') + group(Delimiter::Bracket, a.tokens),
        AttrStyle::Inner => Seq::empty(),
    }
}

/// The outer attributes of a list, in order.
pub open spec fn attrs(a: Seq<AttributeView>) -> Tokens
    decreases a.len(),
{
    if a.len() == 0 {
        Seq::empty()
    } else {
        attr(a[0]) + attrs(a.skip(1))
    }
}

/// Generic arguments: nothing, or `::<` tokens `>`.
pub open spec fn path_arguments(a: PathArgumentsView) -> Tokens {
    match a {
        PathArgumentsView::Empty => Seq::empty(),
        PathArgumentsView::AngleBracketed(ts) => colon2() + punct('<') + ts + punct('>'),
    }
}

/// A name and its generic arguments.
pub open spec fn path_segment(x: PathSegmentView) -> Tokens {
    word(x.ident) + path_arguments(x.arguments)
}

/// Segments joined by `::`.
pub open spec fn path_segments(xs: Seq<PathSegmentView>) -> Tokens
    decreases xs.len(),
{
    if xs.len() == 0 {
        Seq::empty()
    } else {
        path_segment(xs[0]) + opt(xs.len() > 1, colon2()) + path_segments(xs.skip(1))
    }
}

/// A path: `::` if it leads, then the segments.
pub open spec fn path(p: PathView) -> Tokens {
    opt(p.leading_colon, colon2()) + path_segments(p.segments)
}

/// A path after its qualified self, if it has one: `<` tokens `>` path.
pub open spec fn qpath(qself: Option<QSelfView>, p: PathView) -> Tokens {
    match qself {
        Some(q) => punct('<') + q.tokens + punct('>') + path(p),
        None => path(p),
    }
}

/// A literal: `true`, `false`, or the literal token.
pub open spec fn lit(l: LitView) -> Tokens {
    match l {
        LitView::Bool(b) => word(
            if b {
                "true"@
            } else {
                "false"@
            },
        ),
        LitView::Verbatim(w) => seq![TokenView::Literal(w)],
    }
}

/// An expression: a literal, a path, or `-` and its operand.
pub open spec fn expr(e: ExprView) -> Tokens
    decreases e,
{
    match e {
        ExprView::Lit(l) => lit(l),
        ExprView::Path(p) => qpath(p.qself, p.path),
        ExprView::Unary(_, inner) => punct('-') + expr(*inner),
    }
}

/// `..` or `..=`.
pub open spec fn range_limits(l: RangeLimits) -> Tokens {
    match l {
        RangeLimits::HalfOpen => dot2(),
        RangeLimits::Closed => dot2_eq(),
    }
}

/// A field designator: the name, or the index in decimal.
pub open spec fn member(m: MemberView) -> Tokens {
    match m {
        MemberView::Named(w) => word(w),
        MemberView::Unnamed(i) => seq![TokenView::Literal(decimal_digits(i as nat))],
    }
}

/// The delimiter of the group that holds the body of a macro invocation.
pub open spec fn macro_delimiter(d: MacroDelimiter) -> Delimiter {
    match d {
        MacroDelimiter::Paren => Delimiter::Parenthesis,
        MacroDelimiter::Brace => Delimiter::Brace,
        MacroDelimiter::Bracket => Delimiter::Bracket,
    }
}

/// A macro invocation: path, `!`, and the body in its delimiters.
pub open spec fn mac(m: MacroView) -> Tokens {
    path(m.path) + punct('!') + group(macro_delimiter(m.delimiter), m.tokens)
}

/// The tokens of a pattern.
pub open spec fn pat(p: PatView) -> Tokens
    decreases p,
{
    match p {
        PatView::Box(x) => attrs(x.attrs) + word("box"@) + pat(*x.pat),
        PatView::Ident(x) => attrs(x.attrs) + opt(x.by_ref, word("ref"@)) + opt(
            x.mutability,
            word("mut"@),
        ) + word(x.ident) + (match x.subpat {
            Some(sub) => punct('@') + pat(*sub),
            None => Seq::empty(),
        }),
        PatView::Lit(x) => attrs(x.attrs) + expr(x.expr),
        PatView::Macro(x) => attrs(x.attrs) + mac(x.mac),
        PatView::Or(x) => attrs(x.attrs) + opt(x.leading_vert, punct('|')) + cases(x.cases),
        PatView::Path(x) => attrs(x.attrs) + qpath(x.qself, x.path),
        PatView::Range(x) => attrs(x.attrs) + expr(x.lo) + range_limits(x.limits) + expr(x.hi),
        PatView::Reference(x) => attrs(x.attrs) + punct('&') + opt(x.mutability, word("mut"@))
            + pat(*x.pat),
        PatView::Rest(x) => attrs(x.attrs) + dot2(),
        PatView::Slice(x) => attrs(x.attrs) + group(
            Delimiter::Bracket,
            list(x.elems, x.trailing_comma),
        ),
        PatView::Struct(x) => attrs(x.attrs) + path(x.path) + group(
            Delimiter::Brace,
            field_list(x.fields, x.trailing_comma) + opt(
                x.dot2_token && x.fields.len() > 0 && !x.trailing_comma,
                punct(','),
            ) + opt(x.dot2_token, dot2()),
        ),
        PatView::Tuple(x) => attrs(x.attrs) + group(
            Delimiter::Parenthesis,
            list(x.elems, x.trailing_comma),
        ),
        PatView::TupleStruct(x) => attrs(x.attrs) + path(x.path) + attrs(x.pat.attrs) + group(
            Delimiter::Parenthesis,
            list(x.pat.elems, x.pat.trailing_comma),
        ),
        PatView::Type(x) => attrs(x.attrs) + pat(*x.pat) + punct(':') + x.ty,
        PatView::Verbatim(ts) => ts,
        PatView::Wild(x) => attrs(x.attrs) + word("_"@),
    }
}

/// Patterns separated by commas, with a comma after the last one if
/// `trailing` says so.
pub open spec fn list(ps: Seq<PatView>, trailing: bool) -> Tokens
    decreases ps,
{
    if ps.len() == 0 {
        Seq::empty()
    } else {
        pat(ps[0]) + opt(ps.len() > 1 || trailing, punct(',')) + list(ps.skip(1), trailing)
    }
}

/// Alternatives separated by `|`.
pub open spec fn cases(ps: Seq<PatView>) -> Tokens
    decreases ps,
{
    if ps.len() == 0 {
        Seq::empty()
    } else {
        pat(ps[0]) + opt(ps.len() > 1, punct('|')) + cases(ps.skip(1))
    }
}

/// A field is its pattern alone in the short form, and designator, `:`,
/// pattern otherwise.
pub open spec fn field(f: FieldPatView) -> Tokens
    decreases f,
{
    attrs(f.attrs) + opt(f.colon_token, member(f.member) + punct(':')) + pat(*f.pat)
}

/// Fields separated by commas, with a comma after the last one if
/// `trailing` says so.
pub open spec fn field_list(fs: Seq<FieldPatView>, trailing: bool) -> Tokens
    decreases fs,
{
    if fs.len() == 0 {
        Seq::empty()
    } else {
        field(fs[0]) + opt(fs.len() > 1 || trailing, punct(',')) + field_list(fs.skip(1), trailing)
    }
}

/// The tokens of a tuple pattern.
pub open spec fn pat_tuple(x: PatTupleView) -> Tokens {
    attrs(x.attrs) + group(Delimiter::Parenthesis, list(x.elems, x.trailing_comma))
}

} // verus!
