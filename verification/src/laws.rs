//! What holds of every tree that the parser yields, and of the two ways of
//! writing a struct field.

use crate::ast::{FieldPatView, MemberView, PatIdentView, PatView};
use crate::canon::is_shorthand;
use crate::error::ParseErrorView;
use crate::grammar;
use crate::layout;
use crate::roundtrip::{field_reads_back, lemma_field_written, lemma_ident, lemma_shorthand};
use crate::token::{
    Delimiter, Tokens, TokenView, bang_at, dot2_at, group_at, is_keyword, lit_at, punct_at, vert_at,
    wild_at, word_at,
};
use crate::yields::lemma_pat_yield;
use vstd::prelude::*;

verus! {

// ---------------------------------------------------------------------
// Well-formed trees
// ---------------------------------------------------------------------

/// The invariant of the syntax tree.
///
/// An or-pattern has at least one alternative; only a list with elements
/// ends in a comma; a literal pattern and the bounds of a range are
/// literals or paths, negated or not; a field in the short form binds the
/// name that designates it.
pub open spec fn well_formed(p: PatView) -> bool
    decreases p,
{
    match p {
        PatView::Box(x) => well_formed(*x.pat),
        PatView::Ident(x) => match x.subpat {
            Some(sub) => well_formed(*sub),
            None => true,
        },
        PatView::Lit(x) => x.expr.is_bound(),
        PatView::Or(x) => x.cases.len() >= 1 && all_well_formed(x.cases),
        PatView::Range(x) => x.lo.is_bound() && x.hi.is_bound(),
        PatView::Reference(x) => well_formed(*x.pat),
        PatView::Slice(x) => (x.trailing_comma ==> x.elems.len() > 0) && all_well_formed(x.elems),
        PatView::Struct(x) => (x.trailing_comma ==> x.fields.len() > 0) && fields_well_formed(
            x.fields,
        ),
        PatView::Tuple(x) => (x.trailing_comma ==> x.elems.len() > 0) && all_well_formed(x.elems),
        PatView::TupleStruct(x) => (x.pat.trailing_comma ==> x.pat.elems.len() > 0)
            && all_well_formed(x.pat.elems),
        PatView::Type(x) => well_formed(*x.pat),
        _ => true,
    }
}

/// Every pattern of the list is well formed.
pub open spec fn all_well_formed(ps: Seq<PatView>) -> bool
    decreases ps,
{
    ps.len() == 0 || (well_formed(ps[0]) && all_well_formed(ps.skip(1)))
}

/// The pattern of the field is well formed, and in the short form it binds
/// the name that designates the field.
pub open spec fn field_well_formed(f: FieldPatView) -> bool
    decreases f,
{
    well_formed(*f.pat) && (f.colon_token || (f.member matches MemberView::Named(name)
        && is_shorthand(*f.pat, name)))
}

/// Every field of the list is well formed.
pub open spec fn fields_well_formed(fs: Seq<FieldPatView>) -> bool
    decreases fs,
{
    fs.len() == 0 || (field_well_formed(fs[0]) && fields_well_formed(fs.skip(1)))
}

/// A bound that the parser reads is a literal or a path, negated or not.
pub proof fn lemma_bound_shape(s: Tokens)
    ensures
        grammar::pat_lit_expr(s) matches Ok((e, _)) ==> e.is_bound(),
{
    reveal(grammar::pat_lit_expr);
}

/// Every pattern that the parser reads is well formed, and none is an
/// or-pattern.
pub proof fn lemma_pat_well_formed(s: Tokens)
    ensures
        grammar::pat(s) matches Ok((p, _)) ==> well_formed(p) && !(p is Or),
    decreases s, 3nat,
{
    reveal(grammar::pat_wild);
    reveal(grammar::pat_rest);
    if grammar::path_family_start(s) {
        lemma_path_family_well_formed(s);
    } else if wild_at(s, 0) {
    } else if word_at(s, 0, "box"@) {
        lemma_pat_well_formed(s.skip(1));
    } else if punct_at(s, 0, '-') || lit_at(s, 0) {
        lemma_lit_or_range_well_formed(s);
    } else if grammar::binding_start(s) {
        lemma_ident_well_formed(s);
    } else if punct_at(s, 0, '&') {
        let k: int = if word_at(s, 1, "mut"@) {
            2
        } else {
            1
        };
        lemma_pat_well_formed(s.skip(k));
    } else if group_at(s, 0, Delimiter::Parenthesis) {
        lemma_elems_well_formed(s[0]->Group_1);
    } else if group_at(s, 0, Delimiter::Bracket) {
        lemma_elems_well_formed(s[0]->Group_1);
    } else {
    }
}

/// What the rule for literals and ranges yields is well formed.
pub proof fn lemma_lit_or_range_well_formed(s: Tokens)
    ensures
        grammar::pat_lit_or_range(s) matches Ok((p, _)) ==> well_formed(p) && !(p is Or),
{
    reveal(grammar::pat_lit_or_range);
    reveal(grammar::range_limits);
    lemma_bound_shape(s);
    if grammar::pat_lit_expr(s) is Ok {
        let (lo, n) = grammar::pat_lit_expr(s)->Ok_0;
        if dot2_at(s, n as int) && grammar::range_limits(s.skip(n as int)) is Ok {
            let (l, r) = grammar::range_limits(s.skip(n as int))->Ok_0;
            lemma_bound_shape(s.skip((n + r) as int));
        }
    }
}

/// What the rule for bindings yields is well formed.
pub proof fn lemma_ident_well_formed(s: Tokens)
    ensures
        grammar::pat_ident(s) matches Ok((x, _)) ==> well_formed(PatView::Ident(x)),
    decreases s, 0nat,
{
    let k1: int = if word_at(s, 0, "ref"@) {
        1
    } else {
        0
    };
    let k2: int = if word_at(s, k1, "mut"@) {
        k1 + 1
    } else {
        k1
    };
    if grammar::pat_ident(s) is Ok && punct_at(s, k2 + 1, '@') {
        lemma_pat_well_formed(s.skip(k2 + 2));
    }
}

/// What the rule for the elements of a group yields is well formed.
pub proof fn lemma_elems_well_formed(c: Tokens)
    ensures
        grammar::elems(c) matches Ok((es, trailing)) ==> (trailing ==> es.len() > 0)
            && all_well_formed(es),
    decreases c, 4nat,
{
    if c.len() > 0 && grammar::elems(c) is Ok {
        lemma_pat_well_formed(c);
        let (p, n) = grammar::pat(c)->Ok_0;
        if n >= c.len() {
            let es = seq![p];
            assert(es.skip(1) =~= Seq::<PatView>::empty());
            assert(all_well_formed(es.skip(1)));
        } else {
            let t = c.skip((n + 1) as int);
            lemma_elems_well_formed(t);
            let (rest, tr) = grammar::elems(t)->Ok_0;
            let es = seq![p] + rest;
            assert(es.skip(1) =~= rest);
            assert(es[0] == p);
        }
    }
}

/// What the rule for paths yields is well formed.
pub proof fn lemma_path_family_well_formed(s: Tokens)
    ensures
        grammar::pat_path_or_macro_or_struct_or_range(s) matches Ok((p, _)) ==> well_formed(p)
            && !(p is Or),
    decreases s, 2nat,
{
    reveal(grammar::pat_range);
    reveal(grammar::range_limits);
    reveal(grammar::macro_body);
    if grammar::qpath(s) is Ok {
        let ((q, p), n) = grammar::qpath(s)->Ok_0;
        let t = s.skip(n as int);
        if dot2_at(t, 0) {
            if grammar::range_limits(t) is Ok {
                let (l, r) = grammar::range_limits(t)->Ok_0;
                lemma_bound_shape(t.skip(r as int));
            }
        } else if q is Some {
        } else if bang_at(t, 0) && !grammar::has_arguments(p.segments) {
        } else if group_at(s, n as int, Delimiter::Brace) {
            if grammar::struct_body(t[0]->Group_1) is Ok {
                lemma_fields_well_formed(t[0]->Group_1);
            }
        } else if group_at(s, n as int, Delimiter::Parenthesis) {
            lemma_elems_well_formed(t[0]->Group_1);
        } else {
        }
    }
}

/// What the rule for fields yields is well formed.
pub proof fn lemma_fields_well_formed(c: Tokens)
    ensures
        grammar::fields(c) matches Ok(((fs, trailing), _)) ==> (trailing ==> fs.len() > 0)
            && fields_well_formed(fs),
    decreases c, 2nat,
{
    if !(c.len() == 0 || dot2_at(c, 0)) && grammar::fields(c) is Ok {
        lemma_field_well_formed(c);
        let (f, n) = grammar::field_pat(c)->Ok_0;
        if !punct_at(c, n as int, ',') {
            let fs = seq![f];
            assert(fs.skip(1) =~= Seq::<FieldPatView>::empty());
            assert(fields_well_formed(fs.skip(1)));
        } else {
            let t = c.skip((n + 1) as int);
            lemma_fields_well_formed(t);
            let ((rest, tr), m) = grammar::fields(t)->Ok_0;
            let fs = seq![f] + rest;
            assert(fs.skip(1) =~= rest);
            assert(fs[0] == f);
        }
    }
}

/// What the rule for one field yields is well formed.
pub proof fn lemma_field_well_formed(c: Tokens)
    ensures
        grammar::field_pat(c) matches Ok((f, _)) ==> field_well_formed(f),
    decreases c, 0nat,
{
    reveal(grammar::member);
    let k1: int = if word_at(c, 0, "box"@) {
        1
    } else {
        0
    };
    let k2: int = if word_at(c, k1, "ref"@) {
        k1 + 1
    } else {
        k1
    };
    let k3: int = if word_at(c, k2, "mut"@) {
        k2 + 1
    } else {
        k2
    };
    if grammar::field_pat(c) is Ok {
        let (f, n) = grammar::field_pat(c)->Ok_0;
        if f.colon_token {
            lemma_pat_well_formed(c.skip(k3 + 2));
        }
    }
}

/// What the rule for further alternatives yields is well formed.
pub proof fn lemma_more_cases_well_formed(s: Tokens)
    ensures
        grammar::more_cases(s) matches Ok((ps, _)) ==> all_well_formed(ps),
    decreases s.len(),
{
    reveal(grammar::more_cases);
    if vert_at(s, 0) && grammar::more_cases(s) is Ok {
        let t = s.skip(1);
        lemma_pat_well_formed(t);
        let (p, n) = grammar::pat(t)->Ok_0;
        let u = s.skip((1 + n) as int);
        if vert_at(s, (1 + n) as int) {
            lemma_more_cases_well_formed(u);
            let (rest, m) = grammar::more_cases(u)->Ok_0;
            let ps = seq![p] + rest;
            assert(ps.skip(1) =~= rest);
            assert(ps[0] == p);
        } else {
            let ps = seq![p];
            assert(ps.skip(1) =~= Seq::<PatView>::empty());
            assert(all_well_formed(ps.skip(1)));
        }
    }
}

/// A pattern with alternatives that the parser reads is well formed; it is
/// an or-pattern exactly when the input starts with `|` or a `|` follows
/// the first alternative, and it then records whether a `|` led.
pub proof fn lemma_multi_pat_well_formed(s: Tokens)
    ensures
        grammar::multi_pat(s) matches Ok((p, _)) ==> well_formed(p) && (p matches PatView::Or(x)
            ==> x.cases.len() >= 1 && x.leading_vert == punct_at(s, 0, '|') && (x.leading_vert
            || x.cases.len() >= 2)),
{
    reveal(grammar::multi_pat);
    reveal(grammar::more_cases);
    let k: int = if punct_at(s, 0, '|') {
        1
    } else {
        0
    };
    let t = s.skip(k);
    lemma_pat_well_formed(t);
    lemma_pat_yield(t);
    if grammar::multi_pat(s) is Ok {
        let (p, n) = grammar::pat(t)->Ok_0;
        assert(k + n <= s.len());
        if punct_at(s, 0, '|') || vert_at(s, k + n) {
            let u = s.skip(k + n);
            lemma_more_cases_well_formed(u);
            let (rest, m) = grammar::more_cases(u)->Ok_0;
            let cases = seq![p] + rest;
            assert(cases.skip(1) =~= rest);
            assert(cases[0] == p);
            assert(vert_at(u, 0) == vert_at(s, k + n));
            if vert_at(u, 0) {
                assert(rest.len() >= 1);
            }
            let whole = grammar::multi_pat(s)->Ok_0.0;
            assert(whole->Or_0.cases == cases);
            assert(all_well_formed(rest));
            assert(all_well_formed(cases));
        }
    }
}

/// Every tree that the parser yields for a whole input is well formed.
pub proof fn lemma_parse_well_formed(s: Tokens)
    ensures
        grammar::pattern(s) matches Ok(p) ==> well_formed(p),
{
    reveal(grammar::pattern);
    lemma_multi_pat_well_formed(s);
}

/// The text `|` alone is no pattern.
pub proof fn lemma_lone_vert_is_rejected(joint: bool)
    ensures
        grammar::pattern(seq![TokenView::Punct('|', joint)]) is Err,
{
    reveal(grammar::pattern);
    reveal(grammar::multi_pat);
    reveal(grammar::path_family_start);
    reveal(grammar::binding_start);
    let s = seq![TokenView::Punct('|', joint)];
    let t = s.skip(1);
    assert(t.len() == 0);
}

// ---------------------------------------------------------------------
// The two ways of writing a field
// ---------------------------------------------------------------------

/// The field that the short form `name` stands for.
pub open spec fn short_field(name: Seq<char>) -> FieldPatView {
    FieldPatView {
        attrs: Seq::empty(),
        member: MemberView::Named(name),
        colon_token: false,
        pat: Box::new(
            PatView::Ident(
                PatIdentView {
                    attrs: Seq::empty(),
                    by_ref: false,
                    mutability: false,
                    ident: name,
                    subpat: None,
                },
            ),
        ),
    }
}

/// For a plain name `x`, the fields `x` and `x: x` are read as the same
/// designator and the same pattern; the trees differ in the record of the
/// colon and in nothing else. The short form is printed as `x` alone, the
/// written-out form with its colon.
pub proof fn lemma_shorthand_equivalence(name: Seq<char>, rest: Tokens)
    requires
        !is_keyword(name),
        rest.len() == 0 || punct_at(rest, 0, ','),
    ensures
        grammar::field_pat(layout::word(name) + rest) == Ok::<(FieldPatView, nat), ParseErrorView>(
            (short_field(name), 1),
        ),
        grammar::field_pat(layout::word(name) + layout::punct(':') + layout::word(name) + rest)
            == Ok::<(FieldPatView, nat), ParseErrorView>(
            (FieldPatView { colon_token: true, ..short_field(name) }, 3),
        ),
        layout::field(short_field(name)) == layout::word(name),
        layout::field(FieldPatView { colon_token: true, ..short_field(name) }) == layout::word(name)
            + layout::punct(':') + layout::word(name),
{
    reveal(field_reads_back);
    let x = PatIdentView {
        attrs: Seq::empty(),
        by_ref: false,
        mutability: false,
        ident: name,
        subpat: None,
    };
    let short = short_field(name);
    let long = FieldPatView { colon_token: true, ..short };
    let none = Seq::<TokenView>::empty();
    assert(layout::pat(PatView::Ident(x)) =~= layout::word(name));
    assert(layout::field(short) =~= layout::word(name));
    assert(layout::field(long) =~= layout::word(name) + layout::punct(':') + layout::word(name));
    lemma_shorthand(false, x, name, rest);
    lemma_ident(x, rest);
    lemma_field_written(long, rest);
}

} // verus!
