//! Canonical trees: the syntax trees that the parser can yield.
//!
//! A canonical tree carries no attributes, keeps to the restricted forms of
//! paths and bounds, and is built so that the first tokens of its text lead
//! the parser back to the variant it is.

use crate::ast::{
    ExprView, FieldPatView, MemberView, PathArgumentsView, PathSegmentView, PathView, PatView,
    QSelfView,
};
use crate::grammar::{angle_step, closes_at, has_arguments};
use crate::token::{Tokens, is_keyword, is_path_keyword, joint_at, punct_at};
use vstd::prelude::*;

verus! {

// ---------------------------------------------------------------------
// Angle brackets
// ---------------------------------------------------------------------

/// How many angle brackets are open after `ts`, when `depth` were open
/// before it, and whether `ts` ends in a `-` joined to what follows;
/// nothing if `ts` holds a `>` that closes more than was opened. `arrow`
/// says whether a joined `-` comes just before `ts`.
pub open spec fn angle_depth(ts: Tokens, depth: nat, arrow: bool) -> Option<(nat, bool)>
    decreases ts.len(),
{
    if ts.len() == 0 {
        Some((depth, arrow))
    } else if closes_at(ts, arrow) && depth == 0 {
        None
    } else {
        angle_depth(ts.skip(1), angle_step(ts, depth, arrow), joint_at(ts, 0, '-'))
    }
}

/// Every `<` in `ts` has its `>` in `ts`, and the other way round, and
/// `ts` does not end in a `-` that would join a `>` after it.
pub open spec fn balanced(ts: Tokens) -> bool {
    angle_depth(ts, 0, false) == Some((0nat, false))
}

// ---------------------------------------------------------------------
// Paths and bounds
// ---------------------------------------------------------------------

/// The name of a segment is `Self`, a path keyword or no keyword at all;
/// a path keyword takes no generic arguments; generic arguments are
/// balanced.
pub open spec fn segment_ok(x: PathSegmentView) -> bool {
    if is_path_keyword(x.ident) {
        x.arguments is Empty
    } else {
        (x.ident == "Self"@ || !is_keyword(x.ident)) && (x.arguments matches PathArgumentsView::AngleBracketed(
            ts,
        ) ==> balanced(ts))
    }
}

/// Every segment of the list is canonical.
pub open spec fn segments_ok(xs: Seq<PathSegmentView>) -> bool
    decreases xs.len(),
{
    xs.len() == 0 || (segment_ok(xs[0]) && segments_ok(xs.skip(1)))
}

/// The path has a segment, and every segment is canonical.
pub open spec fn path_ok(p: PathView) -> bool {
    p.segments.len() >= 1 && segments_ok(p.segments)
}

/// A qualified self is not empty and balanced, and the path after it
/// starts with `::`.
pub open spec fn qpath_ok(qself: Option<QSelfView>, p: PathView) -> bool {
    path_ok(p) && (qself matches Some(q) ==> q.tokens.len() > 0 && balanced(q.tokens)
        && p.leading_colon)
}

/// The path is not the single word `self`, which read alone is a binding.
pub open spec fn head_named(p: PathView) -> bool {
    p.leading_colon || !(p.segments.len() == 1 && p.segments[0].ident == "self"@)
}

/// The path can stand alone as a pattern: read alone, a single plain name
/// or `self` would be a binding.
pub open spec fn head_alone(p: PathView) -> bool {
    ||| p.leading_colon
    ||| p.segments.len() >= 2
    ||| !(p.segments[0].arguments is Empty)
    ||| p.segments[0].ident == "Self"@
    ||| p.segments[0].ident == "super"@
    ||| p.segments[0].ident == "crate"@
}

/// A literal, or a path in canonical form.
pub open spec fn atom_ok(e: ExprView) -> bool {
    match e {
        ExprView::Lit(_) => true,
        ExprView::Path(x) => qpath_ok(x.qself, x.path),
        ExprView::Unary(_, _) => false,
    }
}

/// An atom or the negation of one.
pub open spec fn bound_ok(e: ExprView) -> bool {
    match e {
        ExprView::Unary(_, inner) => atom_ok(*inner),
        _ => atom_ok(e),
    }
}

// ---------------------------------------------------------------------
// Patterns
// ---------------------------------------------------------------------

/// The name of a binding, given the words before it: without `ref` and
/// `mut` it is `self` or no keyword; after `ref` alone it is not `mut`.
pub open spec fn binding_ok(by_ref: bool, mutability: bool, name: Seq<char>) -> bool {
    if mutability {
        true
    } else if by_ref {
        name != "mut"@
    } else {
        name == "self"@ || !is_keyword(name)
    }
}

/// A binding that starts with the word `mut`.
pub open spec fn mut_binding(p: PatView) -> bool {
    p matches PatView::Ident(x) && !x.by_ref && x.mutability
}

/// A binding of `name` without sub-pattern, or such a binding in a box.
pub open spec fn is_shorthand(p: PatView, name: Seq<char>) -> bool {
    match p {
        PatView::Ident(x) => x.attrs.len() == 0 && x.ident == name && x.subpat is None,
        PatView::Box(b) => b.attrs.len() == 0 && (*b.pat matches PatView::Ident(x) && x.attrs.len()
            == 0 && x.ident == name && x.subpat is None),
        _ => false,
    }
}

/// Whether the parser can yield `p` for a pattern without alternatives.
pub open spec fn canon(p: PatView) -> bool
    decreases p,
{
    match p {
        PatView::Box(x) => x.attrs.len() == 0 && canon(*x.pat),
        PatView::Ident(x) => x.attrs.len() == 0 && binding_ok(x.by_ref, x.mutability, x.ident) && (
        match x.subpat {
            Some(sub) => canon(*sub),
            None => true,
        }),
        PatView::Lit(x) => x.attrs.len() == 0 && bound_ok(x.expr) && !(x.expr is Path),
        PatView::Macro(x) => x.attrs.len() == 0 && path_ok(x.mac.path) && head_named(x.mac.path)
            && !has_arguments(x.mac.path.segments),
        PatView::Or(_) => false,
        PatView::Path(x) => x.attrs.len() == 0 && qpath_ok(x.qself, x.path) && (x.qself is Some
            || head_alone(x.path)),
        PatView::Range(x) => x.attrs.len() == 0 && bound_ok(x.lo) && bound_ok(x.hi) && (
        x.lo matches ExprView::Path(l) ==> l.qself is Some || head_named(l.path)),
        PatView::Reference(x) => x.attrs.len() == 0 && canon(*x.pat) && (x.mutability
            || !mut_binding(*x.pat)),
        PatView::Rest(x) => x.attrs.len() == 0,
        PatView::Slice(x) => x.attrs.len() == 0 && (x.trailing_comma ==> x.elems.len() > 0)
            && all_canon(x.elems),
        PatView::Struct(x) => x.attrs.len() == 0 && path_ok(x.path) && head_named(x.path) && (
        x.trailing_comma ==> x.fields.len() > 0) && (x.dot2_token && x.fields.len() > 0
            ==> x.trailing_comma) && fields_ok(x.fields),
        PatView::Tuple(x) => x.attrs.len() == 0 && (x.trailing_comma ==> x.elems.len() > 0)
            && all_canon(x.elems),
        PatView::TupleStruct(x) => x.attrs.len() == 0 && path_ok(x.path) && head_named(x.path)
            && x.pat.attrs.len() == 0 && (x.pat.trailing_comma ==> x.pat.elems.len() > 0)
            && all_canon(x.pat.elems),
        PatView::Type(_) => false,
        PatView::Verbatim(_) => false,
        PatView::Wild(x) => x.attrs.len() == 0,
    }
}

/// Every pattern of the list is canonical.
pub open spec fn all_canon(ps: Seq<PatView>) -> bool
    decreases ps,
{
    ps.len() == 0 || (canon(ps[0]) && all_canon(ps.skip(1)))
}

/// A field in canonical form: written out, its designator is a plain name
/// or an index and its pattern is canonical; in the short form, its pattern
/// binds the plain name that designates it.
pub open spec fn field_ok(f: FieldPatView) -> bool
    decreases f,
{
    f.attrs.len() == 0 && (if f.colon_token {
        (f.member matches MemberView::Named(name) ==> !is_keyword(name)) && canon(*f.pat)
    } else {
        f.member matches MemberView::Named(name) && !is_keyword(name) && is_shorthand(*f.pat, name)
    })
}

/// Every field of the list is canonical.
pub open spec fn fields_ok(fs: Seq<FieldPatView>) -> bool
    decreases fs,
{
    fs.len() == 0 || (field_ok(fs[0]) && fields_ok(fs.skip(1)))
}

/// Whether the parser can yield `p` for a whole input: a canonical pattern,
/// or canonical alternatives, which are two or more unless a `|` leads.
pub open spec fn canon_top(p: PatView) -> bool {
    canon(p) || (p matches PatView::Or(x) && x.attrs.len() == 0 && x.cases.len() >= 1 && (
    x.leading_vert || x.cases.len() >= 2) && all_canon(x.cases))
}

/// What may follow a pattern: the end of the input, a comma, or `|`.
pub open spec fn follow_ok(rest: Tokens) -> bool {
    rest.len() == 0 || punct_at(rest, 0, ',') || punct_at(rest, 0, '|')
}

// ---------------------------------------------------------------------
// The comma before `..`
// ---------------------------------------------------------------------

/// Every struct pattern in `p` that has fields and ends in `..` has a comma
/// after its last field.
///
/// The parser accepts `..` straight after a field; the printer always puts
/// a comma between them.
pub open spec fn comma_before_rest(p: PatView) -> bool
    decreases p,
{
    match p {
        PatView::Box(x) => comma_before_rest(*x.pat),
        PatView::Ident(x) => match x.subpat {
            Some(sub) => comma_before_rest(*sub),
            None => true,
        },
        PatView::Or(x) => all_comma_before_rest(x.cases),
        PatView::Reference(x) => comma_before_rest(*x.pat),
        PatView::Slice(x) => all_comma_before_rest(x.elems),
        PatView::Struct(x) => !(x.dot2_token && x.fields.len() > 0 && !x.trailing_comma)
            && fields_comma_before_rest(x.fields),
        PatView::Tuple(x) => all_comma_before_rest(x.elems),
        PatView::TupleStruct(x) => all_comma_before_rest(x.pat.elems),
        PatView::Type(x) => comma_before_rest(*x.pat),
        _ => true,
    }
}

/// Every pattern of the list has its commas before `..`.
pub open spec fn all_comma_before_rest(ps: Seq<PatView>) -> bool
    decreases ps,
{
    ps.len() == 0 || (comma_before_rest(ps[0]) && all_comma_before_rest(ps.skip(1)))
}

/// The pattern of every field of the list has its commas before `..`.
pub open spec fn fields_comma_before_rest(fs: Seq<FieldPatView>) -> bool
    decreases fs,
{
    fs.len() == 0 || (comma_before_rest(*fs[0].pat) && fields_comma_before_rest(fs.skip(1)))
}

} // verus!
