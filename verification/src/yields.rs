//! What the parser yields is canonical.

use crate::ast::{FieldPatView, PathArgumentsView, PathSegmentView, PathView, PatView};
use crate::canon::{
    all_canon, all_comma_before_rest, angle_depth, balanced, bound_ok, canon, canon_top,
    comma_before_rest, field_ok, fields_comma_before_rest, fields_ok, follow_ok, head_alone,
    head_named, mut_binding, path_ok, qpath_ok, segment_ok, segments_ok,
};
use crate::error::ParseErrorView;
use crate::error::Parsed;
use crate::grammar;
use crate::layout;
use crate::roundtrip::lemma_print_then_parse;
use crate::token::{
    Delimiter, Tokens, TokenView, bang_at, colon2_at, dot2_at, group_at, is_keyword,
    is_path_keyword, joint_at, lemma_keywords, lemma_words_distinct, lit_at, punct_at, vert_at,
    wild_at, word_at,
};
use vstd::prelude::*;

verus! {

// ---------------------------------------------------------------------
// Angle brackets
// ---------------------------------------------------------------------

/// The tokens before the closing `>` are balanced.
pub proof fn lemma_closed_is_balanced(s: Tokens, depth: nat, arrow: bool)
    requires
        grammar::angle_close(s, depth, arrow) is Some,
    ensures
        ({
            let n = grammar::angle_close(s, depth, arrow)->0;
            &&& n < s.len()
            &&& punct_at(s, n as int, '>')
            &&& angle_depth(s.take(n as int), depth, arrow) == Some((0nat, false))
        }),
    decreases s.len(),
{
    let n = grammar::angle_close(s, depth, arrow)->0;
    if grammar::closes_at(s, arrow) && depth == 0 {
        assert(s.take(0) =~= Seq::<TokenView>::empty());
    } else {
        let inner = grammar::angle_step(s, depth, arrow);
        let next = joint_at(s, 0, '-');
        lemma_closed_is_balanced(s.skip(1), inner, next);
        let m = grammar::angle_close(s.skip(1), inner, next)->0;
        assert(s.take(n as int).skip(1) =~= s.skip(1).take(m as int));
        assert(s.take(n as int)[0] == s[0]);
    }
}

// ---------------------------------------------------------------------
// Paths
// ---------------------------------------------------------------------

/// A segment that the parser reads is canonical and starts at the word
/// that names it.
pub proof fn lemma_segment_yield(s: Tokens)
    requires
        grammar::path_segment(s) is Ok,
    ensures
        ({
            let (x, n) = grammar::path_segment(s)->Ok_0;
            &&& segment_ok(x)
            &&& 1 <= n <= s.len()
            &&& s[0] == TokenView::Ident(x.ident)
            &&& (x.arguments is Empty ==> n == 1 && !(colon2_at(s, 1) && punct_at(s, 3, '<')
                && !is_path_keyword(x.ident)))
            &&& (!(x.arguments is Empty) ==> n >= 5 && colon2_at(s, 1))
        }),
{
    reveal(grammar::path_segment);
    lemma_keywords();
    lemma_words_distinct();
    let (x, n) = grammar::path_segment(s)->Ok_0;
    match x.arguments {
        PathArgumentsView::Empty => {},
        PathArgumentsView::AngleBracketed(ts) => {
            lemma_closed_is_balanced(s.skip(4), 0, false);
            let m = grammar::angle_close(s.skip(4), 0, false)->0;
            assert(s.skip(4).take(m as int) =~= s.subrange(4, (4 + m) as int));
        },
    }
}

/// Segments that the parser reads are canonical, and no `::` follows them.
pub proof fn lemma_segments_yield(s: Tokens)
    requires
        grammar::path_segments(s) is Ok,
    ensures
        ({
            let (xs, n) = grammar::path_segments(s)->Ok_0;
            &&& xs.len() >= 1
            &&& segments_ok(xs)
            &&& 1 <= n <= s.len()
            &&& !colon2_at(s, n as int)
            &&& s[0] == TokenView::Ident(xs[0].ident)
            &&& (xs.len() == 1 && xs[0].arguments is Empty ==> n == 1)
            &&& (xs.len() >= 2 || !(xs[0].arguments is Empty) ==> colon2_at(s, 1))
        }),
    decreases s.len(),
{
    reveal(grammar::path_segments);
    lemma_segment_yield(s);
    let (x, n0) = grammar::path_segment(s)->Ok_0;
    let (xs, n) = grammar::path_segments(s)->Ok_0;
    if colon2_at(s, n0 as int) {
        let t = s.skip((n0 + 2) as int);
        lemma_segments_yield(t);
        let (rest, m) = grammar::path_segments(t)->Ok_0;
        assert(xs =~= seq![x] + rest);
        assert(xs.skip(1) =~= rest);
        assert(colon2_at(t, m as int) == colon2_at(s, (n0 + 2 + m) as int));
    } else {
        assert(xs =~= seq![x]);
        assert(xs.skip(1) =~= Seq::<PathSegmentView>::empty());
        assert(segments_ok(xs.skip(1)));
    }
}

/// A path that the parser reads is canonical, and no `::` follows it.
pub proof fn lemma_path_yield(s: Tokens)
    requires
        grammar::path(s) is Ok,
    ensures
        ({
            let (p, n) = grammar::path(s)->Ok_0;
            &&& path_ok(p)
            &&& 1 <= n <= s.len()
            &&& !colon2_at(s, n as int)
            &&& p.leading_colon == colon2_at(s, 0)
            &&& (!p.leading_colon ==> s[0] == TokenView::Ident(p.segments[0].ident))
            &&& (!p.leading_colon && p.segments.len() == 1 && p.segments[0].arguments is Empty
                ==> n == 1)
            &&& (!p.leading_colon && (p.segments.len() >= 2 || !(p.segments[0].arguments is Empty))
                ==> colon2_at(s, 1))
        }),
{
    reveal(grammar::path);
    let k: int = if colon2_at(s, 0) {
        2
    } else {
        0
    };
    let t = s.skip(k);
    lemma_segments_yield(t);
    let (xs, m) = grammar::path_segments(t)->Ok_0;
    assert(colon2_at(t, m as int) == colon2_at(s, k + m));
    if k == 0 {
        assert(t =~= s);
    }
}

/// A path with its qualified self that the parser reads is canonical, and
/// no `::` follows it.
pub proof fn lemma_qpath_yield(s: Tokens)
    requires
        grammar::qpath(s) is Ok,
    ensures
        ({
            let ((q, p), n) = grammar::qpath(s)->Ok_0;
            &&& qpath_ok(q, p)
            &&& 1 <= n <= s.len()
            &&& !colon2_at(s, n as int)
            &&& (q is Some) == punct_at(s, 0, '<')
            &&& (q is None ==> grammar::path(s) == Ok::<(PathView, nat), ParseErrorView>((p, n)))
        }),
{
    reveal(grammar::qpath);
    if punct_at(s, 0, '<') {
        lemma_closed_is_balanced(s.skip(1), 0, false);
        let m = grammar::angle_close(s.skip(1), 0, false)->0;
        assert(s.skip(1).take(m as int) =~= s.subrange(1, (m + 1) as int));
        let t = s.skip((m + 4) as int);
        lemma_segments_yield(t);
        let (xs, k) = grammar::path_segments(t)->Ok_0;
        assert(colon2_at(t, k as int) == colon2_at(s, (m + 4 + k) as int));
    } else {
        lemma_path_yield(s);
    }
}

// ---------------------------------------------------------------------
// Bounds
// ---------------------------------------------------------------------

/// A bound that the parser reads is canonical; it is a negation where the
/// input starts with `-`, and a literal where it starts with one.
pub proof fn lemma_bound_yield(s: Tokens)
    requires
        grammar::pat_lit_expr(s) is Ok,
    ensures
        ({
            let (e, n) = grammar::pat_lit_expr(s)->Ok_0;
            &&& bound_ok(e)
            &&& 1 <= n <= s.len()
            &&& (punct_at(s, 0, '-') ==> e is Unary)
            &&& (!punct_at(s, 0, '-') && lit_at(s, 0) ==> e is Lit)
        }),
{
    reveal(grammar::pat_lit_expr);
    let k: int = if punct_at(s, 0, '-') {
        1
    } else {
        0
    };
    let t = s.skip(k);
    if k == 0 {
        assert(t =~= s);
    }
    if lit_at(t, 0) {
    } else {
        lemma_qpath_yield(t);
    }
}

/// A range operator takes two or three tokens, the first two being `..`.
pub proof fn lemma_range_limits_yield(s: Tokens)
    requires
        grammar::range_limits(s) is Ok,
    ensures
        ({
            let (l, n) = grammar::range_limits(s)->Ok_0;
            2 <= n <= s.len() && dot2_at(s, 0)
        }),
{
    reveal(grammar::range_limits);
}

// ---------------------------------------------------------------------
// Patterns
// ---------------------------------------------------------------------

/// A successful result stays within the input, and is canonical if what
/// follows it may follow a pattern and every `..` in it has its comma.
pub open spec fn yields_canon(r: Parsed<PatView>, s: Tokens) -> bool {
    r matches Ok((p, n)) ==> 1 <= n <= s.len() && (follow_ok(s.skip(n as int))
        && comma_before_rest(p) ==> canon(p))
}

/// Where the rule for paths applies and the path read is a single name
/// without arguments, the name is not `self` and `!`, `{ }`, `( )` or `..`
/// comes next.
pub proof fn lemma_head_yield(s: Tokens)
    requires
        grammar::path_family_start(s),
        grammar::qpath(s) is Ok,
        grammar::qpath(s)->Ok_0.0.0 is None,
    ensures
        ({
            let ((q, p), n) = grammar::qpath(s)->Ok_0;
            &&& head_named(p)
            &&& (!head_alone(p) ==> n == 1 && (punct_at(s, 1, '!') || group_at(
                s,
                1,
                Delimiter::Brace,
            ) || group_at(s, 1, Delimiter::Parenthesis) || dot2_at(s, 1)))
        }),
{
    reveal(grammar::path_family_start);
    lemma_keywords();
    lemma_words_distinct();
    lemma_qpath_yield(s);
    lemma_path_yield(s);
    let ((q, p), n) = grammar::qpath(s)->Ok_0;
    assert(segment_ok(p.segments[0]));
    reveal(is_keyword);
}

/// What the rule for literals and ranges yields is canonical.
pub proof fn lemma_lit_or_range_yield(s: Tokens)
    requires
        punct_at(s, 0, '-') || lit_at(s, 0),
    ensures
        yields_canon(grammar::pat_lit_or_range(s), s),
{
    reveal(grammar::pat_lit_or_range);
    if grammar::pat_lit_or_range(s) is Ok {
        lemma_bound_yield(s);
        let (lo, n) = grammar::pat_lit_expr(s)->Ok_0;
        if dot2_at(s, n as int) {
            let t = s.skip(n as int);
            lemma_range_limits_yield(t);
            let (l, r) = grammar::range_limits(t)->Ok_0;
            assert(t.skip(r as int) =~= s.skip((n + r) as int));
            lemma_bound_yield(s.skip((n + r) as int));
        }
    }
}

/// A mutable binding that is not by reference is read only where the
/// input starts with the word `mut`.
pub proof fn lemma_mut_yield(s: Tokens)
    requires
        grammar::pat(s) is Ok,
        mut_binding(grammar::pat(s)->Ok_0.0),
    ensures
        word_at(s, 0, "mut"@),
{
    reveal(grammar::pat_lit_or_range);
    reveal(grammar::pat_wild);
    reveal(grammar::pat_rest);
}

/// What the parser yields for one pattern is canonical.
pub proof fn lemma_pat_yield(s: Tokens)
    ensures
        yields_canon(grammar::pat(s), s),
    decreases s, 3nat,
{
    reveal(grammar::binding_start);
    reveal(grammar::pat_wild);
    reveal(grammar::pat_rest);
    if grammar::path_family_start(s) {
        lemma_path_family_yield(s);
    } else if wild_at(s, 0) {
    } else if word_at(s, 0, "box"@) {
        lemma_box_yield(s);
    } else if punct_at(s, 0, '-') || lit_at(s, 0) {
        lemma_lit_or_range_yield(s);
    } else if grammar::binding_start(s) {
        lemma_ident_yield(s);
    } else if punct_at(s, 0, '&') {
        lemma_reference_yield(s);
    } else if group_at(s, 0, Delimiter::Parenthesis) {
        lemma_elems_yield(s[0]->Group_1);
    } else if group_at(s, 0, Delimiter::Bracket) {
        lemma_elems_yield(s[0]->Group_1);
    } else {
    }
}

/// What the rule for box patterns yields is canonical.
pub proof fn lemma_box_yield(s: Tokens)
    requires
        word_at(s, 0, "box"@),
    ensures
        grammar::pat_box(s) matches Ok((x, n)) ==> yields_canon(
            Ok::<(PatView, nat), ParseErrorView>((PatView::Box(x), n)),
            s,
        ),
    decreases s, 0nat,
{
    let t = s.skip(1);
    lemma_pat_yield(t);
    if grammar::pat(t) is Ok {
        let (p, n) = grammar::pat(t)->Ok_0;
        assert(t.skip(n as int) =~= s.skip((1 + n) as int));
    }
}

/// What the rule for reference patterns yields is canonical.
pub proof fn lemma_reference_yield(s: Tokens)
    requires
        punct_at(s, 0, '&'),
    ensures
        grammar::pat_reference(s) matches Ok((x, n)) ==> yields_canon(
            Ok::<(PatView, nat), ParseErrorView>((PatView::Reference(x), n)),
            s,
        ),
    decreases s, 0nat,
{
    let k: int = if word_at(s, 1, "mut"@) {
        2
    } else {
        1
    };
    let t = s.skip(k);
    lemma_pat_yield(t);
    if grammar::pat(t) is Ok {
        let (p, n) = grammar::pat(t)->Ok_0;
        assert(t.skip(n as int) =~= s.skip(k + n));
        if mut_binding(p) {
            lemma_mut_yield(t);
            assert(t[0] == s[k]);
        }
    }
}

/// What the rule for bindings yields is canonical, where the input starts
/// a binding.
pub proof fn lemma_ident_yield(s: Tokens)
    requires
        grammar::binding_start(s),
    ensures
        grammar::pat_ident(s) matches Ok((x, n)) ==> yields_canon(
            Ok::<(PatView, nat), ParseErrorView>((PatView::Ident(x), n)),
            s,
        ),
    decreases s, 0nat,
{
    reveal(grammar::binding_start);
    lemma_keywords();
    lemma_words_distinct();
    let k1: int = if word_at(s, 0, "ref"@) {
        1
    } else {
        0
    };
    let k2: int = if word_at(s, k1, "mut"@) {
        k1 + 1
    } else {
        k1
    };
    if grammar::pat_ident(s) is Ok {
        if punct_at(s, k2 + 1, '@') {
            let t = s.skip(k2 + 2);
            lemma_pat_yield(t);
            let (p, n) = grammar::pat(t)->Ok_0;
            assert(t.skip(n as int) =~= s.skip(k2 + 2 + n));
        }
    }
}

/// The patterns that fill a group are canonical, and only a list with
/// elements ends in a comma.
pub proof fn lemma_elems_yield(c: Tokens)
    ensures
        grammar::elems(c) matches Ok((es, trailing)) ==> (trailing ==> es.len() > 0) && (
        all_comma_before_rest(es) ==> all_canon(es)),
    decreases c, 4nat,
{
    if c.len() > 0 && grammar::elems(c) is Ok {
        lemma_pat_yield(c);
        let (p, n) = grammar::pat(c)->Ok_0;
        if n >= c.len() {
            assert(c.skip(n as int) =~= Seq::<TokenView>::empty());
            let es = seq![p];
            assert(es.skip(1) =~= Seq::<PatView>::empty());
            assert(all_canon(es.skip(1)));
            assert(all_comma_before_rest(es) ==> comma_before_rest(p));
        } else {
            assert(c.skip(n as int)[0] == c[n as int]);
            let t = c.skip((n + 1) as int);
            lemma_elems_yield(t);
            let (rest, tr) = grammar::elems(t)->Ok_0;
            let es = seq![p] + rest;
            assert(es.skip(1) =~= rest);
            assert(es[0] == p);
        }
    }
}

/// What the rule for paths yields is canonical, where the input leads to
/// that rule.
pub proof fn lemma_path_family_yield(s: Tokens)
    requires
        grammar::path_family_start(s),
    ensures
        yields_canon(grammar::pat_path_or_macro_or_struct_or_range(s), s),
    decreases s, 2nat,
{
    reveal(grammar::pat_range);
    reveal(grammar::macro_body);
    if grammar::qpath(s) is Ok {
        lemma_qpath_yield(s);
        let ((q, p), n) = grammar::qpath(s)->Ok_0;
        let t = s.skip(n as int);
        if q is None {
            lemma_head_yield(s);
        }
        if dot2_at(t, 0) {
            if grammar::pat_range(t, q, p) is Ok {
                lemma_range_limits_yield(t);
                let (l, r) = grammar::range_limits(t)->Ok_0;
                lemma_bound_yield(t.skip(r as int));
            }
        } else if q is Some {
        } else if bang_at(t, 0) && !grammar::has_arguments(p.segments) {
        } else if group_at(s, n as int, Delimiter::Brace) {
            lemma_struct_yield(t, p);
        } else if group_at(s, n as int, Delimiter::Parenthesis) {
            lemma_elems_yield(t[0]->Group_1);
        } else {
            if !head_alone(p) && follow_ok(t) {
                assert(t[0] == s[1]);
                assert(false);
            }
        }
    }
}

/// What the rule for struct patterns yields is canonical, given a canonical
/// path.
pub proof fn lemma_struct_yield(s: Tokens, path: PathView)
    requires
        path_ok(path),
        head_named(path),
        group_at(s, 0, Delimiter::Brace),
    ensures
        grammar::pat_struct(s, path) matches Ok((x, n)) ==> n == 1 && (comma_before_rest(
            PatView::Struct(x),
        ) ==> canon(PatView::Struct(x))),
    decreases s, 0nat,
{
    let c = s[0]->Group_1;
    if grammar::struct_body(c) is Ok {
        lemma_fields_yield(c);
    }
}

/// Fields that the parser reads are canonical, provided that the input ends
/// where a last field without comma ends.
pub proof fn lemma_fields_yield(c: Tokens)
    ensures
        grammar::fields(c) matches Ok(((fs, trailing), n)) ==> n <= c.len() && (trailing
            ==> fs.len() > 0) && ((fs.len() > 0 && !trailing ==> n >= c.len())
            && fields_comma_before_rest(fs) ==> fields_ok(fs)),
    decreases c, 2nat,
{
    if !(c.len() == 0 || dot2_at(c, 0)) && grammar::fields(c) is Ok {
        lemma_field_yield(c);
        let (f, n) = grammar::field_pat(c)->Ok_0;
        if !punct_at(c, n as int, ',') {
            let fs = seq![f];
            assert(fs.skip(1) =~= Seq::<FieldPatView>::empty());
            assert(fields_ok(fs.skip(1)));
            if n >= c.len() {
                assert(c.skip(n as int) =~= Seq::<TokenView>::empty());
            }
            assert(fields_comma_before_rest(fs) ==> comma_before_rest(*f.pat));
        } else {
            assert(c.skip(n as int)[0] == c[n as int]);
            let t = c.skip((n + 1) as int);
            lemma_fields_yield(t);
            let ((rest, tr), m) = grammar::fields(t)->Ok_0;
            let fs = seq![f] + rest;
            assert(fs.skip(1) =~= rest);
            assert(fs[0] == f);
        }
    }
}

/// A field that the parser reads is canonical.
pub proof fn lemma_field_yield(c: Tokens)
    ensures
        grammar::field_pat(c) matches Ok((f, n)) ==> 1 <= n <= c.len() && (follow_ok(
            c.skip(n as int),
        ) && comma_before_rest(*f.pat) ==> field_ok(f)),
    decreases c, 0nat,
{
    reveal(grammar::member);
    lemma_keywords();
    lemma_words_distinct();
    let k1: int = if word_at(c, 0, "box"@) {
        1
    } else {
        0
    };
    let k2: int = if word_at(c, k1, "ref"@) {
        k1 + 1
    } else {
        k1
    };
    let k3: int = if word_at(c, k2, "mut"@) {
        k2 + 1
    } else {
        k2
    };
    if grammar::field_pat(c) is Ok {
        let (f, n) = grammar::field_pat(c)->Ok_0;
        assert(c.skip(k3)[0] == c[k3]);
        if f.colon_token {
            let t = c.skip(k3 + 2);
            lemma_pat_yield(t);
            let (p, m) = grammar::pat(t)->Ok_0;
            assert(t.skip(m as int) =~= c.skip(k3 + 2 + m));
        }
    }
}

// ---------------------------------------------------------------------
// Alternatives and whole inputs
// ---------------------------------------------------------------------

/// Alternatives that the parser reads up to the end of the input are
/// canonical.
pub proof fn lemma_more_cases_yield(s: Tokens)
    ensures
        grammar::more_cases(s) matches Ok((ps, n)) ==> (vert_at(s, 0) ==> ps.len() >= 1) && (n
            >= s.len() && all_comma_before_rest(ps) ==> all_canon(ps)),
    decreases s.len(),
{
    reveal(grammar::more_cases);
    if vert_at(s, 0) && grammar::more_cases(s) is Ok {
        let t = s.skip(1);
        lemma_pat_yield(t);
        let (p, n) = grammar::pat(t)->Ok_0;
        let u = s.skip((1 + n) as int);
        assert(t.skip(n as int) =~= u);
        lemma_more_cases_yield(u);
        let (rest, m) = grammar::more_cases(u)->Ok_0;
        let ps = seq![p] + rest;
        assert(ps.skip(1) =~= rest);
        assert(ps[0] == p);
        if !vert_at(u, 0) {
            if 1 + n >= s.len() {
                assert(u =~= Seq::<TokenView>::empty());
            }
        } else {
            assert(punct_at(u, 0, '|'));
        }
    }
}

/// What the parser yields for a whole input is canonical, provided that
/// every `..` that ends a struct pattern with fields has a comma before it.
pub proof fn lemma_parse_yields_canon(s: Tokens)
    requires
        grammar::pattern(s) is Ok,
        comma_before_rest(grammar::pattern(s)->Ok_0),
    ensures
        canon_top(grammar::pattern(s)->Ok_0),
{
    reveal(grammar::pattern);
    reveal(grammar::multi_pat);
    reveal(grammar::more_cases);
    let k: int = if punct_at(s, 0, '|') {
        1
    } else {
        0
    };
    let t = s.skip(k);
    lemma_pat_yield(t);
    let (p, n) = grammar::pat(t)->Ok_0;
    let u = s.skip(k + n);
    assert(t.skip(n as int) =~= u);
    if punct_at(s, 0, '|') || vert_at(s, k + n) {
        lemma_more_cases_yield(u);
        let (rest, m) = grammar::more_cases(u)->Ok_0;
        let cases = seq![p] + rest;
        assert(cases.skip(1) =~= rest);
        assert(cases[0] == p);
        assert(vert_at(u, 0) == vert_at(s, k + n));
        if !vert_at(u, 0) {
            assert(u =~= Seq::<TokenView>::empty());
        } else {
            assert(punct_at(u, 0, '|'));
        }
        let whole = grammar::pattern(s)->Ok_0;
        assert(whole->Or_0.cases == cases);
        assert(all_comma_before_rest(cases));
        assert(comma_before_rest(p));
        assert(all_comma_before_rest(rest));
        assert(follow_ok(u));
        assert(canon(p));
        assert(m >= u.len());
        assert(all_canon(rest));
        assert(all_canon(cases));
    } else {
        assert(u =~= Seq::<TokenView>::empty());
    }
}

/// Parsing a token sequence, printing the tree and parsing what was
/// printed gives the same tree again, provided that every `..` that ends a
/// struct pattern with fields has a comma before it.
pub proof fn lemma_round_trip(s: Tokens)
    requires
        grammar::pattern(s) is Ok,
        comma_before_rest(grammar::pattern(s)->Ok_0),
    ensures
        grammar::pattern(layout::pat(grammar::pattern(s)->Ok_0)) == grammar::pattern(s),
{
    lemma_parse_yields_canon(s);
    lemma_print_then_parse(grammar::pattern(s)->Ok_0);
}

} // verus!
