//! Printing a canonical tree and parsing the tokens gives the tree back.

use crate::ast::{
    ExprView, FieldPatView, LitView, MemberView, PatBoxView, PathArgumentsView, PathSegmentView,
    PathView, PatIdentView, PatLitView, PatMacroView, PatPathView, PatRangeView, PatReferenceView,
    PatRestView, PatSliceView, PatStructView, PatTupleStructView, PatTupleView, PatView,
    PatWildView, QSelfView, RangeLimits, UnOp,
};
use crate::canon::{
    all_canon, angle_depth, atom_ok, balanced, bound_ok, canon, canon_top, field_ok, fields_ok,
    follow_ok, head_named, mut_binding, path_ok, qpath_ok, segment_ok, segments_ok,
};
use crate::error::ParseErrorView;
use crate::grammar;
use crate::index::lemma_decimal_round_trip;
use crate::layout;
use crate::parsing::after_fields;
use crate::token::{
    Delimiter, Tokens, TokenView, bang_at, colon2_at, dot2_at, group_at, is_keyword, joint_at,
    lemma_keywords, lemma_words_distinct, lit_at, path_start_at, punct_at, word_at,
};
use vstd::prelude::*;

verus! {

// ---------------------------------------------------------------------
// Angle brackets
// ---------------------------------------------------------------------

/// Looking for the closing `>` in `ts` followed by `rest` is looking for
/// it in `rest`, with as many brackets open as `ts` leaves open.
pub proof fn lemma_angle_close_after(ts: Tokens, rest: Tokens, depth: nat, arrow: bool)
    requires
        angle_depth(ts, depth, arrow) is Some,
    ensures
        grammar::angle_close(ts + rest, depth, arrow) == (match angle_depth(ts, depth, arrow) {
            Some((open, joined)) => match grammar::angle_close(rest, open, joined) {
                Some(n) => Some(n + ts.len()),
                None => None,
            },
            None => None,
        }),
    decreases ts.len(),
{
    if ts.len() == 0 {
        assert(ts + rest =~= rest);
    } else {
        let s = ts + rest;
        assert(s[0] == ts[0]);
        assert(s.skip(1) =~= ts.skip(1) + rest);
        lemma_angle_close_after(
            ts.skip(1),
            rest,
            grammar::angle_step(ts, depth, arrow),
            joint_at(ts, 0, '-'),
        );
    }
}

/// Balanced tokens followed by `>` are closed by that `>`.
pub proof fn lemma_balanced_closes(ts: Tokens, rest: Tokens)
    requires
        balanced(ts),
        punct_at(rest, 0, '>'),
    ensures
        grammar::angle_close(ts + rest, 0, false) == Some(ts.len()),
{
    lemma_angle_close_after(ts, rest, 0, false);
}

// ---------------------------------------------------------------------
// Paths
// ---------------------------------------------------------------------

/// The text of a canonical segment reads back as the segment.
pub proof fn lemma_segment(x: PathSegmentView, rest: Tokens)
    requires
        segment_ok(x),
        x.arguments is Empty ==> !(colon2_at(rest, 0) && punct_at(rest, 2, '<')),
    ensures
        grammar::path_segment(layout::path_segment(x) + rest) == Ok::<
            (PathSegmentView, nat),
            ParseErrorView,
        >((x, layout::path_segment(x).len())),
{
    reveal(grammar::path_segment);
    lemma_keywords();
    lemma_words_distinct();
    let s = layout::path_segment(x) + rest;
    assert(s[0] == TokenView::Ident(x.ident));
    match x.arguments {
        PathArgumentsView::Empty => {
            assert(layout::path_segment(x) =~= layout::word(x.ident));
            assert(colon2_at(s, 1) == colon2_at(rest, 0));
            assert(punct_at(s, 3, '<') == punct_at(rest, 2, '<'));
        },
        PathArgumentsView::AngleBracketed(ts) => {
            let close = layout::punct('>') + rest;
            assert(layout::path_segment(x) =~= layout::word(x.ident) + layout::colon2()
                + layout::punct('<') + ts + layout::punct('>'));
            assert(s.skip(4) =~= ts + close);
            lemma_balanced_closes(ts, close);
            assert(s.subrange(4, (4 + ts.len()) as int) =~= ts);
            assert(colon2_at(s, 1));
            assert(punct_at(s, 3, '<'));
        },
    }
}

/// The text of a segment starts with its name.
pub proof fn lemma_segment_first(x: PathSegmentView)
    ensures
        layout::path_segment(x).len() >= 1,
        layout::path_segment(x)[0] == TokenView::Ident(x.ident),
{
}

/// The text of canonical segments reads back as the segments, and starts
/// with the name of the first.
pub proof fn lemma_segments(xs: Seq<PathSegmentView>, rest: Tokens)
    requires
        xs.len() >= 1,
        segments_ok(xs),
        !colon2_at(rest, 0),
    ensures
        grammar::path_segments(layout::path_segments(xs) + rest) == Ok::<
            (Seq<PathSegmentView>, nat),
            ParseErrorView,
        >((xs, layout::path_segments(xs).len())),
        layout::path_segments(xs).len() >= 1,
        layout::path_segments(xs)[0] == TokenView::Ident(xs[0].ident),
    decreases xs.len(),
{
    reveal(grammar::path_segments);
    let s = layout::path_segments(xs) + rest;
    let head = layout::path_segment(xs[0]);
    let n = head.len();
    let tail = xs.skip(1);
    lemma_segment_first(xs[0]);
    if xs.len() == 1 {
        assert(layout::path_segments(tail) =~= Seq::<TokenView>::empty());
        assert(layout::path_segments(xs) =~= head);
        assert(s =~= head + rest);
        lemma_segment(xs[0], rest);
        assert(colon2_at(s, n as int) == colon2_at(rest, 0));
        assert(seq![xs[0]] =~= xs);
    } else {
        let after = layout::colon2() + layout::path_segments(tail) + rest;
        assert(layout::path_segments(xs) =~= head + layout::colon2() + layout::path_segments(tail));
        assert(s =~= head + after);
        lemma_segments(tail, rest);
        assert(after[2] == layout::path_segments(tail)[0]);
        lemma_segment(xs[0], after);
        assert(colon2_at(s, n as int));
        assert(s.skip((n + 2) as int) =~= layout::path_segments(tail) + rest);
        assert(seq![xs[0]] + tail =~= xs);
    }
}

/// The text of a canonical path reads back as the path.
pub proof fn lemma_path(p: PathView, rest: Tokens)
    requires
        path_ok(p),
        !colon2_at(rest, 0),
    ensures
        grammar::path(layout::path(p) + rest) == Ok::<(PathView, nat), ParseErrorView>(
            (p, layout::path(p).len()),
        ),
        layout::path(p).len() >= 1,
        p.leading_colon ==> colon2_at(layout::path(p), 0),
        !p.leading_colon ==> layout::path(p)[0] == TokenView::Ident(p.segments[0].ident),
{
    reveal(grammar::path);
    let s = layout::path(p) + rest;
    lemma_segments(p.segments, rest);
    if p.leading_colon {
        assert(layout::path(p) =~= layout::colon2() + layout::path_segments(p.segments));
        assert(colon2_at(s, 0));
        assert(s.skip(2) =~= layout::path_segments(p.segments) + rest);
    } else {
        assert(layout::path(p) =~= layout::path_segments(p.segments));
        assert(!colon2_at(s, 0));
        assert(s.skip(0) =~= layout::path_segments(p.segments) + rest);
    }
}

/// The text of a canonical path with its qualified self reads back as both.
pub proof fn lemma_qpath(qself: Option<QSelfView>, p: PathView, rest: Tokens)
    requires
        qpath_ok(qself, p),
        !colon2_at(rest, 0),
    ensures
        grammar::qpath(layout::qpath(qself, p) + rest) == Ok::<
            ((Option<QSelfView>, PathView), nat),
            ParseErrorView,
        >(((qself, p), layout::qpath(qself, p).len())),
        layout::qpath(qself, p).len() >= 1,
        qself is Some ==> punct_at(layout::qpath(qself, p), 0, '<'),
        qself is None ==> layout::qpath(qself, p) == layout::path(p),
{
    reveal(grammar::qpath);
    let s = layout::qpath(qself, p) + rest;
    lemma_path(p, rest);
    match qself {
        Some(q) => {
            let ts = q.tokens;
            let n = ts.len();
            let close = layout::punct('>') + layout::path(p) + rest;
            assert(layout::qpath(qself, p) =~= layout::punct('<') + ts + layout::punct('>')
                + layout::path(p));
            assert(s.skip(1) =~= ts + close);
            lemma_balanced_closes(ts, close);
            assert(s.subrange(1, (n + 1) as int) =~= ts);
            assert(layout::path(p) =~= layout::colon2() + layout::path_segments(p.segments));
            assert(colon2_at(s, (n + 2) as int));
            assert(s.skip((n + 4) as int) =~= layout::path_segments(p.segments) + rest);
            lemma_segments(p.segments, rest);
        },
        None => {
            assert(!punct_at(s, 0, '<'));
        },
    }
}

// ---------------------------------------------------------------------
// Literals and bounds
// ---------------------------------------------------------------------

/// The text of a canonical bound reads back as the bound.
pub proof fn lemma_bound(e: ExprView, rest: Tokens)
    requires
        bound_ok(e),
        !colon2_at(rest, 0),
    ensures
        grammar::pat_lit_expr(layout::expr(e) + rest) == Ok::<(ExprView, nat), ParseErrorView>(
            (e, layout::expr(e).len()),
        ),
        layout::expr(e).len() >= 1,
        !punct_at(layout::expr(e), 0, ','),
        !punct_at(layout::expr(e), 0, '.'),
        !punct_at(layout::expr(e), 0, '|'),
        !word_at(layout::expr(e), 0, "mut"@),
        e is Unary ==> punct_at(layout::expr(e), 0, '-'),
        e is Lit ==> lit_at(layout::expr(e), 0),
        e is Path ==> layout::expr(e) == layout::qpath(e->Path_0.qself, e->Path_0.path),
{
    reveal(grammar::pat_lit_expr);
    reveal_with_fuel(layout::expr, 2);
    lemma_keywords();
    lemma_words_distinct();
    let s = layout::expr(e) + rest;
    match e {
        ExprView::Unary(op, inner) => {
            let atom = *inner;
            assert(layout::expr(e) =~= layout::punct('-') + layout::expr(atom));
            assert(s.skip(1) =~= layout::expr(atom) + rest);
            lemma_atom(atom, rest);
            assert(op == UnOp::Neg);
        },
        _ => {
            lemma_atom(e, rest);
            assert(s.skip(0) =~= s);
        },
    }
}

/// A literal or path, read where a bound may start.
pub proof fn lemma_atom(e: ExprView, rest: Tokens)
    requires
        atom_ok(e),
        !colon2_at(rest, 0),
    ensures
        layout::expr(e).len() >= 1,
        !punct_at(layout::expr(e), 0, '-'),
        !punct_at(layout::expr(e), 0, ','),
        !punct_at(layout::expr(e), 0, '.'),
        !punct_at(layout::expr(e), 0, '|'),
        !word_at(layout::expr(e), 0, "mut"@),
        e is Lit ==> lit_at(layout::expr(e) + rest, 0) && lit_at(layout::expr(e), 0)
            && layout::expr(e).len() == 1 && ExprView::Lit(
            grammar::lit_of((layout::expr(e) + rest)[0]),
        ) == e,
        e is Path ==> !lit_at(layout::expr(e) + rest, 0) && path_start_at(
            layout::expr(e) + rest,
            0,
        ) && grammar::qpath(layout::expr(e) + rest) == Ok::<
            ((Option<QSelfView>, PathView), nat),
            ParseErrorView,
        >(((e->Path_0.qself, e->Path_0.path), layout::expr(e).len())),
{
    lemma_keywords();
    lemma_words_distinct();
    let s = layout::expr(e) + rest;
    match e {
        ExprView::Lit(l) => {
            match l {
                LitView::Bool(b) => {
                    assert(s[0] == layout::expr(e)[0]);
                },
                LitView::Verbatim(w) => {
                    assert(s[0] == TokenView::Literal(w));
                },
            }
        },
        ExprView::Path(x) => {
            lemma_qpath(x.qself, x.path, rest);
            lemma_path(x.path, rest);
            let first = x.path.segments[0];
            assert(segment_ok(first));
            assert(s[0] == layout::expr(e)[0]);
            if x.qself is None && !x.path.leading_colon {
                assert(s[0] == TokenView::Ident(first.ident));
                reveal(is_keyword);
            } else if x.qself is None {
                assert(colon2_at(s, 0));
            } else {
                assert(punct_at(s, 0, '<'));
            }
        },
        ExprView::Unary(_, _) => {},
    }
}

/// The text of a range operator reads back as the operator.
pub proof fn lemma_range_limits(l: RangeLimits, rest: Tokens)
    ensures
        grammar::range_limits(layout::range_limits(l) + rest) == Ok::<
            (RangeLimits, nat),
            ParseErrorView,
        >((l, layout::range_limits(l).len())),
        dot2_at(layout::range_limits(l) + rest, 0),
{
    reveal(grammar::range_limits);
}

// ---------------------------------------------------------------------
// Patterns without sub-patterns
// ---------------------------------------------------------------------

/// Parsing the text of `p`, followed by `rest`, yields `p` and takes
/// exactly its text.
pub open spec fn reads_back(p: PatView, rest: Tokens) -> bool {
    grammar::pat(layout::pat(p) + rest) == Ok::<(PatView, nat), ParseErrorView>(
        (p, layout::pat(p).len()),
    )
}

/// `_` reads back.
pub proof fn lemma_wild(x: PatWildView, rest: Tokens)
    requires
        canon(PatView::Wild(x)),
    ensures
        reads_back(PatView::Wild(x), rest),
{
    reveal(grammar::path_family_start);
    reveal(grammar::pat_wild);
    lemma_keywords();
    lemma_words_distinct();
    let t = layout::pat(PatView::Wild(x));
    let s = t + rest;
    assert(x.attrs =~= Seq::empty());
    assert(t =~= layout::word("_"@));
    assert(s[0] == TokenView::Ident("_"@));
}

/// `..` reads back.
pub proof fn lemma_rest(x: PatRestView, rest: Tokens)
    requires
        canon(PatView::Rest(x)),
        follow_ok(rest),
    ensures
        reads_back(PatView::Rest(x), rest),
{
    reveal(grammar::path_family_start);
    reveal(grammar::pat_rest);
    let t = layout::pat(PatView::Rest(x));
    let s = t + rest;
    assert(x.attrs =~= Seq::empty());
    assert(t =~= layout::dot2());
    assert(s[0] == TokenView::Punct('.', true));
    assert(s[1] == TokenView::Punct('.', false));
}

/// A canonical literal pattern reads back.
pub proof fn lemma_lit(x: PatLitView, rest: Tokens)
    requires
        canon(PatView::Lit(x)),
        follow_ok(rest),
    ensures
        reads_back(PatView::Lit(x), rest),
{
    reveal(grammar::path_family_start);
    reveal(grammar::pat_lit_or_range);
    lemma_keywords();
    lemma_words_distinct();
    let t = layout::pat(PatView::Lit(x));
    let s = t + rest;
    assert(x.attrs =~= Seq::empty());
    assert(t =~= layout::expr(x.expr));
    lemma_bound(x.expr, rest);
    assert(s[0] == t[0]);
    assert(!dot2_at(s, t.len() as int));
}

/// A canonical range pattern reads back.
pub proof fn lemma_range(x: PatRangeView, rest: Tokens)
    requires
        canon(PatView::Range(x)),
        follow_ok(rest),
    ensures
        reads_back(PatView::Range(x), rest),
{
    reveal(grammar::path_family_start);
    reveal(grammar::binding_before_rest);
    reveal(grammar::pat_lit_or_range);
    reveal(grammar::pat_range);
    reveal(grammar::range_limits);
    lemma_keywords();
    lemma_words_distinct();
    let t = layout::pat(PatView::Range(x));
    let s = t + rest;
    let lo = layout::expr(x.lo);
    let op = layout::range_limits(x.limits);
    let hi = layout::expr(x.hi);
    let after_lo = op + hi + rest;
    let after_op = hi + rest;
    assert(x.attrs =~= Seq::empty());
    assert(t =~= lo + op + hi);
    assert(s =~= lo + after_lo);
    assert(after_lo =~= op + after_op);
    lemma_bound(x.lo, after_lo);
    lemma_bound(x.hi, rest);
    lemma_range_limits(x.limits, after_op);
    assert(s[0] == lo[0]);
    assert(s.skip(lo.len() as int) =~= after_lo);
    assert(after_lo.skip(op.len() as int) =~= after_op);
    assert(s.skip((lo.len() + op.len()) as int) =~= after_op);
    assert(dot2_at(s, lo.len() as int));
    assert(after_op[0] == hi[0]);
    match x.lo {
        ExprView::Path(l) => {
            reveal(grammar::pat_lit_expr);
            lemma_qpath(l.qself, l.path, after_lo);
            lemma_path(l.path, after_lo);
            let first = l.path.segments[0];
            assert(segment_ok(first));
            if l.qself is None && !l.path.leading_colon {
                assert(s[0] == TokenView::Ident(first.ident));
                lemma_path_second(l.path, after_lo);
            }
        },
        _ => {},
    }
}

/// In the text of a path that starts with a plain name, the name is
/// followed by `::` unless the path is that name alone.
pub proof fn lemma_path_second(p: PathView, rest: Tokens)
    requires
        path_ok(p),
        !p.leading_colon,
    ensures
        p.segments.len() >= 2 || !(p.segments[0].arguments is Empty) ==> colon2_at(
            layout::path(p) + rest,
            1,
        ),
        p.segments.len() == 1 && p.segments[0].arguments is Empty ==> layout::path(p).len() == 1,
{
    let xs = p.segments;
    let head = layout::path_segment(xs[0]);
    let tail = xs.skip(1);
    reveal_with_fuel(layout::path_segments, 2);
    assert(layout::path(p) =~= layout::path_segments(xs));
    if xs.len() == 1 {
        assert(layout::path_segments(tail) =~= Seq::<TokenView>::empty());
        assert(layout::path_segments(xs) =~= head);
    } else {
        assert(layout::path_segments(xs) =~= head + layout::colon2() + layout::path_segments(tail));
    }
    match xs[0].arguments {
        PathArgumentsView::Empty => {
            assert(head =~= layout::word(xs[0].ident));
        },
        PathArgumentsView::AngleBracketed(ts) => {
            assert(head =~= layout::word(xs[0].ident) + layout::colon2() + layout::punct('<') + ts
                + layout::punct('>'));
        },
    }
}

// ---------------------------------------------------------------------
// Patterns that start with a path
// ---------------------------------------------------------------------

/// The text of a path that can head a struct, tuple struct or macro leads
/// the parser to the rule for paths when `!`, `{ }` or `( )` follows it.
pub proof fn lemma_head(p: PathView, after: Tokens)
    requires
        path_ok(p),
        head_named(p),
        punct_at(after, 0, '!') || group_at(after, 0, Delimiter::Brace) || group_at(
            after,
            0,
            Delimiter::Parenthesis,
        ),
    ensures
        grammar::path_family_start(layout::path(p) + after),
{
    reveal(grammar::path_family_start);
    lemma_keywords();
    lemma_words_distinct();
    let s = layout::path(p) + after;
    lemma_path(p, after);
    assert(s[0] == layout::path(p)[0]);
    if !p.leading_colon {
        let first = p.segments[0];
        assert(segment_ok(first));
        assert(s[0] == TokenView::Ident(first.ident));
        lemma_path_second(p, after);
        if p.segments.len() == 1 && first.arguments is Empty {
            assert(s[1] == after[0]);
            reveal(is_keyword);
        } else {
            reveal(is_keyword);
        }
    } else {
        assert(colon2_at(s, 0));
    }
}

/// A canonical path pattern reads back.
pub proof fn lemma_path_pat(x: PatPathView, rest: Tokens)
    requires
        canon(PatView::Path(x)),
        follow_ok(rest),
    ensures
        reads_back(PatView::Path(x), rest),
{
    reveal(grammar::path_family_start);
    lemma_keywords();
    lemma_words_distinct();
    let t = layout::pat(PatView::Path(x));
    let s = t + rest;
    assert(x.attrs =~= Seq::empty());
    assert(t =~= layout::qpath(x.qself, x.path));
    lemma_qpath(x.qself, x.path, rest);
    lemma_path(x.path, rest);
    assert(s[0] == t[0]);
    assert(s.skip(t.len() as int) =~= rest);
    if x.qself is None {
        if !x.path.leading_colon {
            let first = x.path.segments[0];
            assert(segment_ok(first));
            assert(s[0] == TokenView::Ident(first.ident));
            lemma_path_second(x.path, rest);
            reveal(is_keyword);
        } else {
            assert(colon2_at(s, 0));
        }
    } else {
        assert(punct_at(s, 0, '<'));
    }
}

/// A canonical macro pattern reads back.
pub proof fn lemma_macro(x: PatMacroView, rest: Tokens)
    requires
        canon(PatView::Macro(x)),
    ensures
        reads_back(PatView::Macro(x), rest),
{
    reveal(grammar::qpath);
    reveal(grammar::macro_body);
    let t = layout::pat(PatView::Macro(x));
    let s = t + rest;
    let m = x.mac;
    let body = layout::group(layout::macro_delimiter(m.delimiter), m.tokens);
    let after = layout::punct('!') + body + rest;
    let n = layout::path(m.path).len();
    assert(x.attrs =~= Seq::empty());
    assert(t =~= layout::path(m.path) + layout::punct('!') + body);
    assert(s =~= layout::path(m.path) + after);
    lemma_head(m.path, after);
    lemma_path(m.path, after);
    assert(!punct_at(s, 0, '<')) by {
        assert(s[0] == layout::path(m.path)[0]);
    }
    assert(s.skip(n as int) =~= after);
    assert(s.skip(n as int).skip(1) =~= body + rest);
    assert(bang_at(after, 0));
    assert(!dot2_at(after, 0));
}

// ---------------------------------------------------------------------
// The first token of a pattern
// ---------------------------------------------------------------------

/// The text of a canonical pattern is not empty; it starts with neither a
/// comma nor `|`, and it starts with the word `mut` only if the pattern is
/// a binding that is mutable and not by reference.
pub proof fn lemma_first_token(p: PatView)
    requires
        canon(p),
    ensures
        layout::pat(p).len() >= 1,
        !punct_at(layout::pat(p), 0, ','),
        !punct_at(layout::pat(p), 0, '|'),
        word_at(layout::pat(p), 0, "mut"@) ==> mut_binding(p),
{
    lemma_keywords();
    lemma_words_distinct();
    let t = layout::pat(p);
    let none = Seq::<TokenView>::empty();
    match p {
        PatView::Box(x) => {
            assert(t[0] == TokenView::Ident("box"@));
        },
        PatView::Ident(x) => {
            if x.by_ref {
                assert(t[0] == TokenView::Ident("ref"@));
            } else if x.mutability {
                assert(t[0] == TokenView::Ident("mut"@));
            } else {
                assert(t[0] == TokenView::Ident(x.ident));
            }
        },
        PatView::Lit(x) => {
            lemma_bound(x.expr, none);
            assert(t =~= layout::expr(x.expr));
        },
        PatView::Macro(x) => {
            lemma_path(x.mac.path, none);
            assert(t[0] == layout::path(x.mac.path)[0]);
            lemma_path_word(x.mac.path);
        },
        PatView::Path(x) => {
            lemma_qpath(x.qself, x.path, none);
            lemma_path(x.path, none);
            assert(t =~= layout::qpath(x.qself, x.path));
            lemma_path_word(x.path);
        },
        PatView::Range(x) => {
            lemma_bound(x.lo, none);
            assert(t[0] == layout::expr(x.lo)[0]);
        },
        PatView::Reference(x) => {
            assert(t[0] == TokenView::Punct('&', false));
        },
        PatView::Rest(x) => {
            assert(t[0] == TokenView::Punct('.', true));
        },
        PatView::Slice(x) => {
            assert(t[0] is Group);
        },
        PatView::Struct(x) => {
            lemma_path(x.path, none);
            assert(t[0] == layout::path(x.path)[0]);
            lemma_path_word(x.path);
        },
        PatView::Tuple(x) => {
            assert(t[0] is Group);
        },
        PatView::TupleStruct(x) => {
            lemma_path(x.path, none);
            assert(t[0] == layout::path(x.path)[0]);
            lemma_path_word(x.path);
        },
        PatView::Wild(x) => {
            assert(t[0] == TokenView::Ident("_"@));
        },
        _ => {},
    }
}

/// The text of a path starts with `::` or with a word that is not `mut`.
pub proof fn lemma_path_word(p: PathView)
    requires
        path_ok(p),
    ensures
        !word_at(layout::path(p), 0, "mut"@),
        !punct_at(layout::path(p), 0, ','),
        !punct_at(layout::path(p), 0, '|'),
        !punct_at(layout::path(p), 0, '.'),
{
    lemma_keywords();
    lemma_words_distinct();
    lemma_path(p, Seq::<TokenView>::empty());
    assert(segment_ok(p.segments[0]));
    reveal(is_keyword);
}

// ---------------------------------------------------------------------
// Patterns with sub-patterns
// ---------------------------------------------------------------------

/// Every canonical pattern reads back, whatever may follow a pattern comes
/// after it.
pub proof fn lemma_pat(p: PatView, rest: Tokens)
    requires
        canon(p),
        follow_ok(rest),
    ensures
        reads_back(p, rest),
        layout::pat(p).len() >= 1,
    decreases p, 0nat,
{
    lemma_first_token(p);
    match p {
        PatView::Box(x) => lemma_box(x, rest),
        PatView::Ident(x) => lemma_ident(x, rest),
        PatView::Lit(x) => lemma_lit(x, rest),
        PatView::Macro(x) => lemma_macro(x, rest),
        PatView::Path(x) => lemma_path_pat(x, rest),
        PatView::Range(x) => lemma_range(x, rest),
        PatView::Reference(x) => lemma_reference(x, rest),
        PatView::Rest(x) => lemma_rest(x, rest),
        PatView::Slice(x) => lemma_slice(x, rest),
        PatView::Struct(x) => lemma_struct(x, rest),
        PatView::Tuple(x) => lemma_tuple(x, rest),
        PatView::TupleStruct(x) => lemma_tuple_struct(x, rest),
        PatView::Wild(x) => lemma_wild(x, rest),
        _ => {},
    }
}

/// A canonical box pattern reads back.
pub proof fn lemma_box(x: PatBoxView, rest: Tokens)
    requires
        canon(PatView::Box(x)),
        follow_ok(rest),
    ensures
        reads_back(PatView::Box(x), rest),
    decreases x, 0nat,
{
    reveal(grammar::path_family_start);
    lemma_keywords();
    lemma_words_distinct();
    let t = layout::pat(PatView::Box(x));
    let s = t + rest;
    assert(x.attrs =~= Seq::empty());
    assert(t =~= layout::word("box"@) + layout::pat(*x.pat));
    assert(s[0] == TokenView::Ident("box"@));
    assert(s.skip(1) =~= layout::pat(*x.pat) + rest);
    lemma_pat(*x.pat, rest);
}

/// A canonical reference pattern reads back.
pub proof fn lemma_reference(x: PatReferenceView, rest: Tokens)
    requires
        canon(PatView::Reference(x)),
        follow_ok(rest),
    ensures
        reads_back(PatView::Reference(x), rest),
    decreases x, 0nat,
{
    reveal(grammar::path_family_start);
    lemma_keywords();
    lemma_words_distinct();
    let t = layout::pat(PatView::Reference(x));
    let s = t + rest;
    let inner = layout::pat(*x.pat);
    assert(x.attrs =~= Seq::empty());
    assert(t =~= layout::punct('&') + layout::opt(x.mutability, layout::word("mut"@)) + inner);
    assert(s[0] == TokenView::Punct('&', false));
    lemma_pat(*x.pat, rest);
    lemma_first_token(*x.pat);
    if x.mutability {
        assert(s[1] == TokenView::Ident("mut"@));
        assert(s.skip(2) =~= inner + rest);
    } else {
        assert(s[1] == inner[0]);
        assert(s.skip(1) =~= inner + rest);
    }
}

/// A canonical binding reads back.
pub proof fn lemma_ident(x: PatIdentView, rest: Tokens)
    requires
        canon(PatView::Ident(x)),
        follow_ok(rest),
    ensures
        reads_back(PatView::Ident(x), rest),
    decreases x, 0nat,
{
    reveal(grammar::path_family_start);
    reveal(grammar::binding_start);
    lemma_keywords();
    lemma_words_distinct();
    let t = layout::pat(PatView::Ident(x));
    let s = t + rest;
    let sub = match x.subpat {
        Some(inner) => layout::punct('@') + layout::pat(*inner),
        None => Seq::<TokenView>::empty(),
    };
    let k: int = (if x.by_ref {
        1int
    } else {
        0int
    }) + (if x.mutability {
        1int
    } else {
        0int
    });
    assert(x.attrs =~= Seq::empty());
    assert(t =~= layout::opt(x.by_ref, layout::word("ref"@)) + layout::opt(
        x.mutability,
        layout::word("mut"@),
    ) + layout::word(x.ident) + sub);
    assert(s[k] == TokenView::Ident(x.ident));
    if x.by_ref {
        assert(s[0] == TokenView::Ident("ref"@));
    }
    if x.mutability {
        assert(s[k - 1] == TokenView::Ident("mut"@));
    }
    match x.subpat {
        Some(inner) => {
            assert(s[k + 1] == TokenView::Punct('@', false));
            assert(s.skip(k + 2) =~= layout::pat(*inner) + rest);
            lemma_pat(*inner, rest);
        },
        None => {
            assert(t.len() == k + 1);
            if rest.len() > 0 {
                assert(s[k + 1] == rest[0]);
            }
        },
    }
    reveal(is_keyword);
}

/// Parsing the text of a list of canonical patterns gives the list back,
/// and tells whether it ended in a comma.
pub proof fn lemma_list(es: Seq<PatView>, trailing: bool)
    requires
        all_canon(es),
    ensures
        grammar::elems(layout::list(es, trailing)) == Ok::<(Seq<PatView>, bool), ParseErrorView>(
            (es, trailing && es.len() > 0),
        ),
    decreases es, 0nat,
{
    let c = layout::list(es, trailing);
    if es.len() == 0 {
        assert(es =~= Seq::empty());
    } else {
        let head = layout::pat(es[0]);
        let tail = es.skip(1);
        let comma = es.len() > 1 || trailing;
        let after = layout::opt(comma, layout::punct(',')) + layout::list(tail, trailing);
        assert(c =~= head + after);
        if !comma {
            assert(tail.len() == 0);
            assert(after =~= Seq::<TokenView>::empty());
        } else {
            assert(after[0] == TokenView::Punct(',', false));
        }
        lemma_pat(es[0], after);
        let n = head.len();
        if comma {
            assert(c[n as int] == after[0]);
            assert(c.skip((n + 1) as int) =~= layout::list(tail, trailing));
            lemma_list(tail, trailing);
            assert(seq![es[0]] + tail =~= es);
        } else {
            assert(c.len() == n);
            assert(seq![es[0]] =~= es);
        }
    }
}

/// A canonical tuple pattern reads back.
pub proof fn lemma_tuple(x: PatTupleView, rest: Tokens)
    requires
        canon(PatView::Tuple(x)),
    ensures
        reads_back(PatView::Tuple(x), rest),
    decreases x, 0nat,
{
    reveal(grammar::path_family_start);
    let t = layout::pat(PatView::Tuple(x));
    let s = t + rest;
    let inner = layout::list(x.elems, x.trailing_comma);
    assert(x.attrs =~= Seq::empty());
    assert(t =~= layout::group(Delimiter::Parenthesis, inner));
    assert(s[0] == TokenView::Group(Delimiter::Parenthesis, inner));
    lemma_list(x.elems, x.trailing_comma);
}

/// A canonical slice pattern reads back.
pub proof fn lemma_slice(x: PatSliceView, rest: Tokens)
    requires
        canon(PatView::Slice(x)),
    ensures
        reads_back(PatView::Slice(x), rest),
    decreases x, 0nat,
{
    reveal(grammar::path_family_start);
    let t = layout::pat(PatView::Slice(x));
    let s = t + rest;
    let inner = layout::list(x.elems, x.trailing_comma);
    assert(x.attrs =~= Seq::empty());
    assert(t =~= layout::group(Delimiter::Bracket, inner));
    assert(s[0] == TokenView::Group(Delimiter::Bracket, inner));
    lemma_list(x.elems, x.trailing_comma);
}

/// A canonical tuple struct pattern reads back.
pub proof fn lemma_tuple_struct(x: PatTupleStructView, rest: Tokens)
    requires
        canon(PatView::TupleStruct(x)),
    ensures
        reads_back(PatView::TupleStruct(x), rest),
    decreases x, 0nat,
{
    reveal(grammar::qpath);
    let t = layout::pat(PatView::TupleStruct(x));
    let s = t + rest;
    let inner = layout::list(x.pat.elems, x.pat.trailing_comma);
    let body = layout::group(Delimiter::Parenthesis, inner);
    let after = body + rest;
    let n = layout::path(x.path).len();
    assert(x.attrs =~= Seq::empty());
    assert(x.pat.attrs =~= Seq::empty());
    assert(t =~= layout::path(x.path) + body);
    assert(s =~= layout::path(x.path) + after);
    lemma_head(x.path, after);
    lemma_path(x.path, after);
    assert(!punct_at(s, 0, '<')) by {
        assert(s[0] == layout::path(x.path)[0]);
    }
    assert(s.skip(n as int) =~= after);
    assert(s[n as int] == after[0]);
    assert(!dot2_at(after, 0));
    assert(!bang_at(after, 0));
    lemma_list(x.pat.elems, x.pat.trailing_comma);
    assert(grammar::pat_tuple(after) == Ok::<(PatTupleView, nat), ParseErrorView>((x.pat, 1)));
    assert(grammar::pat_tuple_struct(after, x.path) == Ok::<
        (PatTupleStructView, nat),
        ParseErrorView,
    >((x, 1)));
    assert(grammar::pat_path_or_macro_or_struct_or_range(s) == Ok::<(PatView, nat), ParseErrorView>(
        (PatView::TupleStruct(x), n + 1),
    ));
}

// ---------------------------------------------------------------------
// Struct patterns
// ---------------------------------------------------------------------

/// A canonical field reads back, a comma or nothing coming after it.
pub proof fn lemma_field(f: FieldPatView, rest: Tokens)
    requires
        field_ok(f),
        rest.len() == 0 || punct_at(rest, 0, ','),
    ensures
        field_reads_back(f, rest),
        layout::field(f).len() >= 1,
        !punct_at(layout::field(f), 0, '.'),
    decreases f, 0nat,
{
    assert(f.attrs =~= Seq::empty());
    if f.colon_token {
        lemma_pat(*f.pat, rest);
        lemma_field_written(f, rest);
    } else {
        let name = f.member->Named_0;
        match *f.pat {
            PatView::Ident(x) => {
                assert(x.attrs =~= Seq::empty());
                lemma_shorthand(false, x, name, rest);
            },
            PatView::Box(b) => {
                let x = b.pat->Ident_0;
                assert(b.attrs =~= Seq::empty());
                assert(x.attrs =~= Seq::empty());
                lemma_shorthand(true, x, name, rest);
            },
            _ => {},
        }
    }
}

/// A field written out: designator, `:`, then a pattern that reads back.
pub proof fn lemma_field_written(f: FieldPatView, rest: Tokens)
    requires
        f.attrs.len() == 0,
        f.colon_token,
        f.member matches MemberView::Named(name) ==> !is_keyword(name),
        reads_back(*f.pat, rest),
    ensures
        field_reads_back(f, rest),
        layout::field(f).len() >= 1,
        !punct_at(layout::field(f), 0, '.'),
{
    reveal(field_reads_back);
    reveal(grammar::member);
    lemma_keywords();
    let t = layout::field(f);
    let s = t + rest;
    let inner = layout::pat(*f.pat);
    assert(f.attrs =~= Seq::empty());
    assert(t =~= layout::member(f.member) + layout::punct(':') + inner);
    assert(s[1] == TokenView::Punct(':', false));
    assert(s.skip(2) =~= inner + rest);
    assert(s.skip(0) =~= s);
    match f.member {
        MemberView::Named(name) => {
            assert(s[0] == TokenView::Ident(name));
        },
        MemberView::Unnamed(i) => {
            lemma_decimal_round_trip(i as nat);
            assert(s[0] is Literal);
        },
    }
}

/// The short form of a field: the words `box`, `ref`, `mut` as far as
/// present, then the name.
pub proof fn lemma_shorthand(boxed: bool, x: PatIdentView, name: Seq<char>, rest: Tokens)
    requires
        !is_keyword(name),
        x.attrs.len() == 0,
        x.ident == name,
        x.subpat is None,
        rest.len() == 0 || punct_at(rest, 0, ','),
    ensures
        ({
            let p = grammar::shorthand(boxed, x.by_ref, x.mutability, name);
            let f = FieldPatView {
                attrs: Seq::empty(),
                member: MemberView::Named(name),
                colon_token: false,
                pat: Box::new(p),
            };
            &&& field_reads_back(f, rest)
            &&& layout::field(f).len() >= 1
            &&& !punct_at(layout::field(f), 0, '.')
            &&& (boxed ==> p == PatView::Box(
                PatBoxView { attrs: Seq::empty(), pat: Box::new(PatView::Ident(x)) },
            ))
            &&& (!boxed ==> p == PatView::Ident(x))
        }),
{
    reveal(field_reads_back);
    reveal(grammar::member);
    reveal_with_fuel(layout::pat, 2);
    lemma_keywords();
    lemma_words_distinct();
    let p = grammar::shorthand(boxed, x.by_ref, x.mutability, name);
    let f = FieldPatView {
        attrs: Seq::empty(),
        member: MemberView::Named(name),
        colon_token: false,
        pat: Box::new(p),
    };
    let t = layout::field(f);
    let s = t + rest;
    assert(x.attrs =~= Seq::empty());
    let k: int = (if boxed {
        1int
    } else {
        0int
    }) + (if x.by_ref {
        1int
    } else {
        0int
    }) + (if x.mutability {
        1int
    } else {
        0int
    });
    assert(t =~= layout::opt(boxed, layout::word("box"@)) + layout::opt(
        x.by_ref,
        layout::word("ref"@),
    ) + layout::opt(x.mutability, layout::word("mut"@)) + layout::word(name));
    assert(s[k] == TokenView::Ident(name));
    assert(s.skip(k)[0] == s[k]);
    assert(t.len() == k + 1);
    if rest.len() > 0 {
        assert(s[k + 1] == rest[0]);
    }
    reveal(is_keyword);
}

/// Parsing the text of the field `f`, followed by `rest`, yields `f` and
/// takes exactly its text.
#[verifier::opaque]
pub open spec fn field_reads_back(f: FieldPatView, rest: Tokens) -> bool {
    grammar::field_pat(layout::field(f) + rest) == Ok::<(FieldPatView, nat), ParseErrorView>(
        (f, layout::field(f).len()),
    )
}

/// One step of reading fields: a field, then a comma and more fields, or
/// the end of the fields.
pub proof fn lemma_fields_step(f: FieldPatView, after: Tokens)
    requires
        field_reads_back(f, after),
        layout::field(f).len() >= 1,
        !punct_at(layout::field(f), 0, '.'),
    ensures
        grammar::fields(layout::field(f) + after) == (if punct_at(after, 0, ',') {
            after_fields(
                seq![f],
                true,
                layout::field(f).len() + 1,
                grammar::fields(after.skip(1)),
            )
        } else {
            Ok::<((Seq<FieldPatView>, bool), nat), ParseErrorView>(
                ((seq![f], false), layout::field(f).len()),
            )
        }),
{
    reveal(field_reads_back);
    let head = layout::field(f);
    let c = head + after;
    let n = head.len();
    assert(c[0] == head[0]);
    assert(!dot2_at(c, 0));
    assert(punct_at(c, n as int, ',') == punct_at(after, 0, ','));
    if punct_at(after, 0, ',') {
        assert(c.skip((n + 1) as int) =~= after.skip(1));
    }
}

/// Parsing the text of canonical fields, followed by nothing or by `..`,
/// gives the fields back and stops before the dots.
pub proof fn lemma_fields(fs: Seq<FieldPatView>, trailing: bool, tail: Tokens)
    requires
        fields_ok(fs),
        tail.len() == 0 || tail == layout::dot2(),
        tail.len() > 0 && fs.len() > 0 ==> trailing,
    ensures
        grammar::fields(layout::field_list(fs, trailing) + tail) == Ok::<
            ((Seq<FieldPatView>, bool), nat),
            ParseErrorView,
        >(((fs, trailing && fs.len() > 0), layout::field_list(fs, trailing).len())),
    decreases fs, 0nat,
{
    let c = layout::field_list(fs, trailing) + tail;
    if fs.len() == 0 {
        assert(fs =~= Seq::empty());
        assert(c =~= tail);
    } else {
        let head = layout::field(fs[0]);
        let more = fs.skip(1);
        let comma = fs.len() > 1 || trailing;
        let after = layout::opt(comma, layout::punct(',')) + layout::field_list(more, trailing)
            + tail;
        assert(c =~= head + after);
        if !comma {
            assert(more.len() == 0);
            assert(after =~= Seq::<TokenView>::empty());
        } else {
            assert(after[0] == TokenView::Punct(',', false));
        }
        lemma_field(fs[0], after);
        lemma_fields_step(fs[0], after);
        if comma {
            assert(after.skip(1) =~= layout::field_list(more, trailing) + tail);
            lemma_fields(more, trailing, tail);
            assert(seq![fs[0]] + more =~= fs);
        } else {
            assert(seq![fs[0]] =~= fs);
        }
    }
}

/// The inside of the braces of a canonical struct pattern.
pub open spec fn struct_inside(x: PatStructView) -> Tokens {
    layout::field_list(x.fields, x.trailing_comma) + layout::opt(x.dot2_token, layout::dot2())
}

/// The inside of the braces of a canonical struct pattern reads back as its
/// fields and its `..`.
pub proof fn lemma_struct_body(x: PatStructView)
    requires
        canon(PatView::Struct(x)),
    ensures
        grammar::struct_body(struct_inside(x)) == Ok::<
            (Seq<FieldPatView>, bool, bool),
            ParseErrorView,
        >((x.fields, x.trailing_comma, x.dot2_token)),
        layout::pat(PatView::Struct(x)) == layout::path(x.path) + layout::group(
            Delimiter::Brace,
            struct_inside(x),
        ),
    decreases x, 0nat,
{
    let tail = layout::opt(x.dot2_token, layout::dot2());
    let list = layout::field_list(x.fields, x.trailing_comma);
    let inner = list + tail;
    assert(x.attrs =~= Seq::empty());
    assert(layout::opt(
        x.dot2_token && x.fields.len() > 0 && !x.trailing_comma,
        layout::punct(','),
    ) =~= Seq::<TokenView>::empty());
    assert(list + Seq::<TokenView>::empty() + tail =~= inner);
    assert(layout::pat(PatView::Struct(x)) =~= layout::path(x.path) + layout::group(
        Delimiter::Brace,
        inner,
    ));
    lemma_fields(x.fields, x.trailing_comma, tail);
    assert(dot2_at(inner, list.len() as int) == x.dot2_token) by {
        if x.dot2_token {
            assert(inner[list.len() as int] == tail[0]);
            assert(inner[(list.len() + 1) as int] == tail[1]);
        }
    }
}

/// A canonical struct pattern reads back.
#[verifier::rlimit(50)]
pub proof fn lemma_struct(x: PatStructView, rest: Tokens)
    requires
        canon(PatView::Struct(x)),
    ensures
        reads_back(PatView::Struct(x), rest),
    decreases x, 1nat,
{
    reveal(grammar::qpath);
    let t = layout::pat(PatView::Struct(x));
    let s = t + rest;
    let inner = struct_inside(x);
    let body = layout::group(Delimiter::Brace, inner);
    let after = body + rest;
    let n = layout::path(x.path).len();
    lemma_struct_body(x);
    assert(x.attrs =~= Seq::empty());
    assert(after[0] == TokenView::Group(Delimiter::Brace, inner));
    assert(s =~= layout::path(x.path) + after);
    lemma_head(x.path, after);
    lemma_path(x.path, after);
    assert(!punct_at(s, 0, '<')) by {
        assert(s[0] == layout::path(x.path)[0]);
    }
    assert(s.skip(n as int) =~= after);
    assert(s[n as int] == after[0]);
    assert(!dot2_at(after, 0));
    assert(!bang_at(after, 0));
    assert(grammar::pat_struct(after, x.path) == Ok::<(PatStructView, nat), ParseErrorView>(
        (x, 1),
    ));
    assert(grammar::pat_path_or_macro_or_struct_or_range(s) == Ok::<(PatView, nat), ParseErrorView>(
        (PatView::Struct(x), n + 1),
    ));
}

// ---------------------------------------------------------------------
// Alternatives and whole inputs
// ---------------------------------------------------------------------

/// Parsing `|` and the text of canonical alternatives, for each of them,
/// gives the alternatives back.
pub proof fn lemma_more_cases(ps: Seq<PatView>)
    requires
        all_canon(ps),
    ensures
        ({
            let text = layout::opt(ps.len() > 0, layout::punct('|')) + layout::cases(ps);
            grammar::more_cases(text) == Ok::<(Seq<PatView>, nat), ParseErrorView>(
                (ps, text.len()),
            )
        }),
    decreases ps, 0nat,
{
    reveal(grammar::more_cases);
    let text = layout::opt(ps.len() > 0, layout::punct('|')) + layout::cases(ps);
    if ps.len() == 0 {
        assert(text =~= Seq::<TokenView>::empty());
        assert(ps =~= Seq::empty());
    } else {
        let head = layout::pat(ps[0]);
        let tail = ps.skip(1);
        let after = layout::opt(tail.len() > 0, layout::punct('|')) + layout::cases(tail);
        assert(text =~= layout::punct('|') + head + after);
        assert(text[0] == TokenView::Punct('|', false));
        assert(text.skip(1) =~= head + after);
        if tail.len() > 0 {
            assert(after[0] == TokenView::Punct('|', false));
        } else {
            assert(after =~= Seq::<TokenView>::empty());
        }
        lemma_pat(ps[0], after);
        assert(text.skip((1 + head.len()) as int) =~= after);
        lemma_more_cases(tail);
        assert(seq![ps[0]] + tail =~= ps);
    }
}

/// Printing a tree that the parser can yield and parsing the tokens gives
/// the tree back.
#[verifier::rlimit(50)]
pub proof fn lemma_print_then_parse(p: PatView)
    requires
        canon_top(p),
    ensures
        grammar::pattern(layout::pat(p)) == Ok::<PatView, ParseErrorView>(p),
{
    reveal(grammar::pattern);
    reveal(grammar::multi_pat);
    let t = layout::pat(p);
    let none = Seq::<TokenView>::empty();
    match p {
        PatView::Or(x) => {
            let first = x.cases[0];
            let head = layout::pat(first);
            let tail = x.cases.skip(1);
            let after = layout::opt(tail.len() > 0, layout::punct('|')) + layout::cases(tail);
            let k: int = if x.leading_vert {
                1
            } else {
                0
            };
            assert(x.attrs =~= Seq::empty());
            assert(layout::cases(x.cases) =~= head + after);
            assert(t =~= layout::opt(x.leading_vert, layout::punct('|')) + head + after);
            lemma_first_token(first);
            if x.leading_vert {
                assert(t[0] == TokenView::Punct('|', false));
            } else {
                assert(t[0] == head[0]);
            }
            assert(t.skip(k) =~= head + after);
            if tail.len() > 0 {
                assert(after[0] == TokenView::Punct('|', false));
            } else {
                assert(after =~= none);
            }
            lemma_pat(first, after);
            assert(t.skip(k + head.len()) =~= after);
            if after.len() > 0 {
                assert(t[k + head.len()] == after[0]);
            }
            lemma_more_cases(tail);
            assert(seq![first] + tail =~= x.cases);
        },
        _ => {
            lemma_first_token(p);
            lemma_pat(p, none);
            assert(t + none =~= t);
            assert(t.skip(0) =~= t);
        },
    }
}

} // verus!
