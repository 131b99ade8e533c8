//! The pattern parser.
//!
//! Every function takes the unread tokens and returns what it read together
//! with the number of tokens it took, exactly as the rule of the same name
//! in [`crate::grammar`] says. No function consumes, changes or keeps its
//! input, so a caller is free to try another rule on the same tokens.

use crate::ast::{
    Expr, ExprPath, FieldPat, FieldPatView, Lit, Macro, MacroDelimiter, Member, Pat, PatBox, Path,
    PathArguments, PatIdent, PatLit, PatMacro, PatOr, PatPath, PatRange, PatReference, PatRest,
    PatSlice, PatStruct, PatTuple, PatTupleStruct, PatView, PatWild, QSelf, RangeLimits, UnOp,
    expr_view, fields_view, no_attrs, pats_view, qself_view,
};
use crate::error::{Expected, ParseError, ParseErrorView, parsed_view};
use crate::grammar;
use crate::index::parse_index;
use crate::laws::{
    lemma_multi_pat_well_formed, lemma_parse_well_formed, lemma_pat_well_formed, well_formed,
};
use crate::path::{after, qpath};
use crate::token::{
    Delimiter, Tokens, TokenTree, advance, clone_trees, dot2_at, lemma_group_decreases, peek_bang,
    peek_colon2, peek_dot2, peek_dot2_eq, peek_dot3, peek_group, peek_lit, peek_path_start,
    peek_plain_ident, peek_punct, peek_vert, peek_wild, peek_word, same_text, trees_view,
};
use vstd::prelude::*;

verus! {

// ---------------------------------------------------------------------
// Literals, bounds, members
// ---------------------------------------------------------------------

/// Reads a literal or a path, optionally negated.
pub fn pat_lit_expr(input: &[TokenTree]) -> (r: Result<(Expr, usize), ParseError>)
    ensures
        parsed_view(r) == grammar::pat_lit_expr(trees_view(input@)),
        r matches Ok((_, n)) ==> 1 <= n <= input.len(),
{
    reveal(grammar::pat_lit_expr);
    proof {
        reveal_with_fuel(expr_view, 2);
    }
    let neg = peek_punct(input, 0, '-');
    let k: usize = if neg {
        1
    } else {
        0
    };
    let rest = advance(input, k);
    if rest.len() > 0 && peek_lit(rest, 0) {
        let lit = match &rest[0] {
            TokenTree::Literal(w) => Lit::Verbatim(w.clone()),
            TokenTree::Ident(w) => Lit::Bool(same_text(w.as_str(), "true")),
            _ => Lit::Bool(false),
        };
        let atom = Expr::Lit(lit);
        if neg {
            Ok((Expr::Unary(UnOp::Neg, Box::new(atom)), k + 1))
        } else {
            Ok((atom, k + 1))
        }
    } else if peek_path_start(rest, 0) {
        match qpath(rest) {
            Err(e) => Err(e),
            Ok(((qself, path), n)) => {
                let atom = Expr::Path(ExprPath { qself, path });
                if neg {
                    Ok((Expr::Unary(UnOp::Neg, Box::new(atom)), k + n))
                } else {
                    Ok((atom, k + n))
                }
            },
        }
    } else {
        Err(ParseError::at(rest, 0, Expected::LiteralOrPath))
    }
}

/// Reads a range operator.
pub fn range_limits(input: &[TokenTree]) -> (r: Result<(RangeLimits, usize), ParseError>)
    ensures
        match r {
            Ok((limits, n)) => grammar::range_limits(trees_view(input@)) == Ok::<
                (RangeLimits, nat),
                ParseErrorView,
            >((limits, n as nat)) && 2 <= n <= input.len(),
            Err(e) => grammar::range_limits(trees_view(input@)) == Err::<
                (RangeLimits, nat),
                ParseErrorView,
            >(e@),
        },
{
    reveal(grammar::range_limits);
    if peek_dot2_eq(input, 0) || peek_dot3(input, 0) {
        Ok((RangeLimits::Closed, 3))
    } else if peek_dot2(input, 0) {
        Ok((RangeLimits::HalfOpen, 2))
    } else {
        Err(ParseError::at(input, 0, Expected::RangeLimits))
    }
}

/// Reads a field designator.
pub fn member(input: &[TokenTree]) -> (r: Result<(Member, usize), ParseError>)
    ensures
        parsed_view(r) == grammar::member(trees_view(input@)),
        r matches Ok((_, n)) ==> n == 1 && n <= input.len(),
{
    reveal(grammar::member);
    if input.len() == 0 {
        return Err(ParseError::at(input, 0, Expected::Member));
    }
    match &input[0] {
        TokenTree::Ident(name) => {
            if peek_plain_ident(input, 0) {
                Ok((Member::Named(name.clone()), 1))
            } else {
                Err(ParseError::at(input, 0, Expected::Member))
            }
        },
        TokenTree::Literal(w) => {
            match parse_index(w.as_str()) {
                Some(i) => Ok((Member::Unnamed(i), 1)),
                None => Err(ParseError::at(input, 0, Expected::Member)),
            }
        },
        _ => Err(ParseError::at(input, 0, Expected::Member)),
    }
}

// ---------------------------------------------------------------------
// Patterns without sub-patterns
// ---------------------------------------------------------------------

/// Reads `_`.
pub fn pat_wild(input: &[TokenTree]) -> (r: Result<(PatWild, usize), ParseError>)
    ensures
        parsed_view(r) == grammar::pat_wild(trees_view(input@)),
        r matches Ok((_, n)) ==> 1 <= n <= input.len(),
{
    reveal(grammar::pat_wild);
    if peek_wild(input, 0) {
        Ok((PatWild { attrs: no_attrs() }, 1))
    } else {
        Err(ParseError::at(input, 0, Expected::Underscore))
    }
}

/// Reads `..`.
pub fn pat_rest(input: &[TokenTree]) -> (r: Result<(PatRest, usize), ParseError>)
    ensures
        parsed_view(r) == grammar::pat_rest(trees_view(input@)),
        r matches Ok((_, n)) ==> 1 <= n <= input.len(),
{
    reveal(grammar::pat_rest);
    if peek_dot2(input, 0) {
        Ok((PatRest { attrs: no_attrs() }, 2))
    } else {
        Err(ParseError::at(input, 0, Expected::DotDot))
    }
}

/// Reads the operator and the high bound of a range whose low bound is the
/// path given.
pub fn pat_range(input: &[TokenTree], qself: Option<QSelf>, path: Path) -> (r: Result<
    (PatRange, usize),
    ParseError,
>)
    ensures
        parsed_view(r) == grammar::pat_range(trees_view(input@), qself_view(qself), path@),
        r matches Ok((_, n)) ==> 1 <= n <= input.len(),
{
    reveal(grammar::pat_range);
    match range_limits(input) {
        Err(e) => Err(e),
        Ok((limits, n)) => {
            let rest = advance(input, n);
            match pat_lit_expr(rest) {
                Err(e) => Err(e),
                Ok((hi, m)) => Ok(
                    (
                        PatRange {
                            attrs: no_attrs(),
                            lo: Box::new(Expr::Path(ExprPath { qself, path })),
                            limits,
                            hi: Box::new(hi),
                        },
                        n + m,
                    ),
                ),
            }
        },
    }
}

/// Reads a literal pattern, or a range that starts with `-` or a literal.
pub fn pat_lit_or_range(input: &[TokenTree]) -> (r: Result<(Pat, usize), ParseError>)
    ensures
        parsed_view(r) == grammar::pat_lit_or_range(trees_view(input@)),
        r matches Ok((_, n)) ==> 1 <= n <= input.len(),
{
    reveal(grammar::pat_lit_or_range);
    match pat_lit_expr(input) {
        Err(e) => Err(e),
        Ok((lo, n)) => {
            if peek_dot2(input, n) {
                let after_lo = advance(input, n);
                match range_limits(after_lo) {
                    Err(e) => Err(e),
                    Ok((limits, r)) => {
                        let rest = advance(input, n + r);
                        match pat_lit_expr(rest) {
                            Err(e) => Err(e),
                            Ok((hi, m)) => Ok(
                                (
                                    Pat::Range(
                                        PatRange {
                                            attrs: no_attrs(),
                                            lo: Box::new(lo),
                                            limits,
                                            hi: Box::new(hi),
                                        },
                                    ),
                                    n + r + m,
                                ),
                            ),
                        }
                    },
                }
            } else {
                Ok((Pat::Lit(PatLit { attrs: no_attrs(), expr: Box::new(lo) }), n))
            }
        },
    }
}

/// Reads the delimited body of a macro invocation.
pub fn macro_body(input: &[TokenTree]) -> (r: Result<
    ((MacroDelimiter, Vec<TokenTree>), usize),
    ParseError,
>)
    ensures
        match r {
            Ok(((d, ts), n)) => grammar::macro_body(trees_view(input@)) == Ok::<
                ((MacroDelimiter, Tokens), nat),
                ParseErrorView,
            >(((d, trees_view(ts@)), n as nat)) && n == 1 && n <= input.len(),
            Err(e) => grammar::macro_body(trees_view(input@)) == Err::<
                ((MacroDelimiter, Tokens), nat),
                ParseErrorView,
            >(e@),
        },
{
    reveal(grammar::macro_body);
    if input.len() == 0 {
        return Err(ParseError::at(input, 0, Expected::Delimiter));
    }
    match &input[0] {
        TokenTree::Group(d, content) => {
            match d {
                Delimiter::Parenthesis => Ok(
                    ((MacroDelimiter::Paren, clone_trees(content.as_slice())), 1),
                ),
                Delimiter::Brace => Ok(((MacroDelimiter::Brace, clone_trees(content.as_slice())), 1)),
                Delimiter::Bracket => Ok(
                    ((MacroDelimiter::Bracket, clone_trees(content.as_slice())), 1),
                ),
                Delimiter::Invisible => Err(ParseError::at(input, 0, Expected::Delimiter)),
            }
        },
        _ => Err(ParseError::at(input, 0, Expected::Delimiter)),
    }
}

/// Whether any segment of `path` has generic arguments.
pub fn has_arguments(path: &Path) -> (r: bool)
    ensures
        r == grammar::has_arguments(path@.segments),
{
    let mut i: usize = 0;
    while i < path.segments.len()
        invariant
            i <= path.segments.len(),
            forall|j: int| 0 <= j < i ==> (#[trigger] path@.segments[j].arguments) is Empty,
        decreases path.segments.len() - i,
    {
        match &path.segments[i].arguments {
            PathArguments::Empty => {},
            PathArguments::AngleBracketed(_) => {
                assert(!(path@.segments[i as int].arguments is Empty));
                return true;
            },
        }
        i = i + 1;
    }
    false
}

// ---------------------------------------------------------------------
// Looking ahead
// ---------------------------------------------------------------------

/// Whether an identifier and a range operator are followed by the end of
/// the input or a comma.
pub fn binding_before_rest(input: &[TokenTree]) -> (r: bool)
    ensures
        r == grammar::binding_before_rest(trees_view(input@)),
{
    reveal(grammar::binding_before_rest);
    let r: usize = if peek_dot2_eq(input, 1) || peek_dot3(input, 1) {
        3
    } else {
        2
    };
    input.len() == 1 + r || peek_punct(input, 1 + r, ',')
}

/// Whether the input starts a path, macro, struct, tuple struct or range
/// whose low bound is a path.
pub fn path_family_start(input: &[TokenTree]) -> (r: bool)
    ensures
        r == grammar::path_family_start(trees_view(input@)),
{
    reveal(grammar::path_family_start);
    (peek_plain_ident(input, 0) && (peek_colon2(input, 1) || peek_punct(input, 1, '!')
        || peek_group(input, 1, Delimiter::Brace) || peek_group(input, 1, Delimiter::Parenthesis)
        || (peek_dot2(input, 1) && !binding_before_rest(input)))) || (peek_word(input, 0, "self")
        && peek_colon2(input, 1)) || peek_colon2(input, 0) || peek_punct(input, 0, '<')
        || peek_word(input, 0, "Self") || peek_word(input, 0, "super") || peek_word(
        input,
        0,
        "crate",
    )
}

/// Whether the input starts a binding.
pub fn binding_start(input: &[TokenTree]) -> (r: bool)
    ensures
        r == grammar::binding_start(trees_view(input@)),
{
    peek_word(input, 0, "ref") || peek_word(input, 0, "mut") || peek_word(input, 0, "self")
        || peek_plain_ident(input, 0)
}

// ---------------------------------------------------------------------
// Patterns
// ---------------------------------------------------------------------

impl Pat {
    /// Reads one pattern from the front of `input`.
    ///
    /// The first one or two tokens decide which kind of pattern follows;
    /// where an identifier is followed by a range operator, the tokens
    /// after the operator decide between a range and a binding.
    pub fn parse(input: &[TokenTree]) -> (r: Result<(Pat, usize), ParseError>)
        ensures
            parsed_view(r) == grammar::pat(trees_view(input@)),
            r matches Ok((_, n)) ==> 1 <= n <= input.len(),
            r matches Ok((p, _)) ==> well_formed(p@),
        decreases trees_view(input@), 3nat,
    {
        proof {
            lemma_pat_well_formed(trees_view(input@));
        }
        if path_family_start(input) {
            pat_path_or_macro_or_struct_or_range(input)
        } else if peek_wild(input, 0) {
            match pat_wild(input) {
                Err(e) => Err(e),
                Ok((x, n)) => Ok((Pat::Wild(x), n)),
            }
        } else if peek_word(input, 0, "box") {
            match pat_box(input) {
                Err(e) => Err(e),
                Ok((x, n)) => Ok((Pat::Box(x), n)),
            }
        } else if peek_punct(input, 0, '-') || peek_lit(input, 0) {
            pat_lit_or_range(input)
        } else if binding_start(input) {
            match pat_ident(input) {
                Err(e) => Err(e),
                Ok((x, n)) => Ok((Pat::Ident(x), n)),
            }
        } else if peek_punct(input, 0, '&') {
            match pat_reference(input) {
                Err(e) => Err(e),
                Ok((x, n)) => Ok((Pat::Reference(x), n)),
            }
        } else if peek_group(input, 0, Delimiter::Parenthesis) {
            match pat_tuple(input) {
                Err(e) => Err(e),
                Ok((x, n)) => Ok((Pat::Tuple(x), n)),
            }
        } else if peek_group(input, 0, Delimiter::Bracket) {
            match pat_slice(input) {
                Err(e) => Err(e),
                Ok((x, n)) => Ok((Pat::Slice(x), n)),
            }
        } else if peek_dot2(input, 0) && !peek_dot3(input, 0) {
            match pat_rest(input) {
                Err(e) => Err(e),
                Ok((x, n)) => Ok((Pat::Rest(x), n)),
            }
        } else {
            Err(ParseError::at(input, 0, Expected::Pattern))
        }
    }
}

/// Reads what begins with a path: a range, a qualified path, a macro
/// invocation, a struct, a tuple struct, or the path alone.
pub fn pat_path_or_macro_or_struct_or_range(input: &[TokenTree]) -> (r: Result<
    (Pat, usize),
    ParseError,
>)
    ensures
        parsed_view(r) == grammar::pat_path_or_macro_or_struct_or_range(trees_view(input@)),
        r matches Ok((_, n)) ==> 1 <= n <= input.len(),
    decreases trees_view(input@), 2nat,
{
    match qpath(input) {
        Err(e) => Err(e),
        Ok(((qself, path), n)) => {
            let rest = advance(input, n);
            if peek_dot2(rest, 0) {
                match pat_range(rest, qself, path) {
                    Err(e) => Err(e),
                    Ok((x, m)) => Ok((Pat::Range(x), n + m)),
                }
            } else if qself.is_some() {
                Ok((Pat::Path(PatPath { attrs: no_attrs(), qself, path }), n))
            } else if peek_bang(rest, 0) && !has_arguments(&path) {
                let body = advance(rest, 1);
                match macro_body(body) {
                    Err(e) => Err(e),
                    Ok(((delimiter, tokens), m)) => Ok(
                        (
                            Pat::Macro(
                                PatMacro { attrs: no_attrs(), mac: Macro { path, delimiter, tokens } },
                            ),
                            n + 1 + m,
                        ),
                    ),
                }
            } else if peek_group(input, n, Delimiter::Brace) {
                match pat_struct(rest, path) {
                    Err(e) => Err(e),
                    Ok((x, m)) => Ok((Pat::Struct(x), n + m)),
                }
            } else if peek_group(input, n, Delimiter::Parenthesis) {
                match pat_tuple_struct(rest, path) {
                    Err(e) => Err(e),
                    Ok((x, m)) => Ok((Pat::TupleStruct(x), n + m)),
                }
            } else {
                Ok((Pat::Path(PatPath { attrs: no_attrs(), qself, path }), n))
            }
        },
    }
}

/// Reads `box` and a pattern.
pub fn pat_box(input: &[TokenTree]) -> (r: Result<(PatBox, usize), ParseError>)
    ensures
        parsed_view(r) == grammar::pat_box(trees_view(input@)),
        r matches Ok((_, n)) ==> 1 <= n <= input.len(),
    decreases trees_view(input@), 0nat,
{
    if !peek_word(input, 0, "box") {
        return Err(ParseError::at(input, 0, Expected::BoxWord));
    }
    let rest = advance(input, 1);
    match Pat::parse(rest) {
        Err(e) => Err(e),
        Ok((p, n)) => Ok((PatBox { attrs: no_attrs(), pat: Box::new(p) }, 1 + n)),
    }
}

/// Reads a binding: `ref`? `mut`? name (`@` pattern)?.
pub fn pat_ident(input: &[TokenTree]) -> (r: Result<(PatIdent, usize), ParseError>)
    ensures
        parsed_view(r) == grammar::pat_ident(trees_view(input@)),
        r matches Ok((_, n)) ==> 1 <= n <= input.len(),
    decreases trees_view(input@), 0nat,
{
    let by_ref = peek_word(input, 0, "ref");
    let k1: usize = if by_ref {
        1
    } else {
        0
    };
    let mutability = peek_word(input, k1, "mut");
    let k2: usize = if mutability {
        k1 + 1
    } else {
        k1
    };
    if k2 >= input.len() {
        return Err(ParseError::at(input, k2, Expected::Ident));
    }
    match &input[k2] {
        TokenTree::Ident(name) => {
            if peek_punct(input, k2 + 1, '@') {
                let rest = advance(input, k2 + 2);
                match Pat::parse(rest) {
                    Err(e) => Err(e),
                    Ok((p, n)) => Ok(
                        (
                            PatIdent {
                                attrs: no_attrs(),
                                by_ref,
                                mutability,
                                ident: name.clone(),
                                subpat: Some(Box::new(p)),
                            },
                            k2 + 2 + n,
                        ),
                    ),
                }
            } else {
                Ok(
                    (
                        PatIdent {
                            attrs: no_attrs(),
                            by_ref,
                            mutability,
                            ident: name.clone(),
                            subpat: None,
                        },
                        k2 + 1,
                    ),
                )
            }
        },
        _ => Err(ParseError::at(input, k2, Expected::Ident)),
    }
}

/// Reads `&` `mut`? pattern.
pub fn pat_reference(input: &[TokenTree]) -> (r: Result<(PatReference, usize), ParseError>)
    ensures
        parsed_view(r) == grammar::pat_reference(trees_view(input@)),
        r matches Ok((_, n)) ==> 1 <= n <= input.len(),
    decreases trees_view(input@), 0nat,
{
    if !peek_punct(input, 0, '&') {
        return Err(ParseError::at(input, 0, Expected::And));
    }
    let mutability = peek_word(input, 1, "mut");
    let k: usize = if mutability {
        2
    } else {
        1
    };
    let rest = advance(input, k);
    match Pat::parse(rest) {
        Err(e) => Err(e),
        Ok((p, n)) => Ok((PatReference { attrs: no_attrs(), mutability, pat: Box::new(p) }, k + n)),
    }
}

/// The result of the element rule on the rest of a group, seen from its
/// start: `acc` was read before, and `comma` says whether a comma followed
/// the last of them.
pub open spec fn after_elems(
    acc: Seq<PatView>,
    comma: bool,
    r: Result<(Seq<PatView>, bool), ParseErrorView>,
) -> Result<(Seq<PatView>, bool), ParseErrorView> {
    match r {
        Ok((rest, trailing)) => Ok(
            (
                acc + rest,
                if rest.len() == 0 {
                    comma
                } else {
                    trailing
                },
            ),
        ),
        Err(e) => Err(e),
    }
}

/// Reads the patterns that fill a group, separated by commas.
pub fn elems(content: &[TokenTree]) -> (r: Result<(Vec<Pat>, bool), ParseError>)
    ensures
        match r {
            Ok((v, trailing)) => grammar::elems(trees_view(content@)) == Ok::<
                (Seq<PatView>, bool),
                ParseErrorView,
            >((pats_view(v@), trailing)),
            Err(e) => grammar::elems(trees_view(content@)) == Err::<
                (Seq<PatView>, bool),
                ParseErrorView,
            >(e@),
        },
    decreases trees_view(content@), 4nat,
{
    let ghost c = trees_view(content@);
    let mut out: Vec<Pat> = Vec::new();
    let mut pos: usize = 0;
    proof {
        assert(c.skip(0) =~= c);
        assert(pats_view(out@) =~= Seq::<PatView>::empty());
        match grammar::elems(c) {
            Ok((rest, _)) => {
                assert(Seq::<PatView>::empty() + rest =~= rest);
            },
            Err(_) => {},
        }
    }
    while pos < content.len()
        invariant
            pos <= content.len(),
            c == trees_view(content@),
            grammar::elems(c) == after_elems(
                pats_view(out@),
                pos > 0,
                grammar::elems(c.skip(pos as int)),
            ),
        decreases content.len() - pos,
    {
        let rest = advance(content, pos);
        let ghost acc = pats_view(out@);
        proof {
            if pos == 0 {
                assert(c.skip(0) =~= c);
            }
        }
        match Pat::parse(rest) {
            Err(e) => {
                return Err(e);
            },
            Ok((p, n)) => {
                let ghost pv = p@;
                out.push(p);
                proof {
                    assert(pats_view(out@) =~= acc.push(pv));
                    assert(acc + seq![pv] =~= acc.push(pv));
                }
                if n >= rest.len() {
                    return Ok((out, false));
                }
                if !peek_punct(rest, n, ',') {
                    return Err(ParseError::at(rest, n, Expected::Comma));
                }
                proof {
                    assert(c.skip(pos as int).skip((n + 1) as int) =~= c.skip(pos + n + 1));
                    match grammar::elems(c.skip(pos + n + 1)) {
                        Ok((more, _)) => {
                            assert(acc + (seq![pv] + more) =~= acc.push(pv) + more);
                        },
                        Err(_) => {},
                    }
                }
                pos = pos + n + 1;
            },
        }
    }
    proof {
        assert(pats_view(out@) + Seq::<PatView>::empty() =~= pats_view(out@));
    }
    Ok((out, pos > 0))
}

/// Reads a tuple pattern.
pub fn pat_tuple(input: &[TokenTree]) -> (r: Result<(PatTuple, usize), ParseError>)
    ensures
        parsed_view(r) == grammar::pat_tuple(trees_view(input@)),
        r matches Ok((_, n)) ==> 1 <= n <= input.len(),
    decreases trees_view(input@), 0nat,
{
    if input.len() == 0 {
        return Err(ParseError::at(input, 0, Expected::Paren));
    }
    match &input[0] {
        TokenTree::Group(Delimiter::Parenthesis, content) => {
            proof {
                lemma_group_decreases(trees_view(input@), 0);
            }
            match elems(content.as_slice()) {
                Err(e) => Err(e.nest(input.len())),
                Ok((elems, trailing_comma)) => Ok(
                    (PatTuple { attrs: no_attrs(), elems, trailing_comma }, 1),
                ),
            }
        },
        _ => Err(ParseError::at(input, 0, Expected::Paren)),
    }
}

/// Reads a slice pattern.
pub fn pat_slice(input: &[TokenTree]) -> (r: Result<(PatSlice, usize), ParseError>)
    ensures
        parsed_view(r) == grammar::pat_slice(trees_view(input@)),
        r matches Ok((_, n)) ==> 1 <= n <= input.len(),
    decreases trees_view(input@), 0nat,
{
    if input.len() == 0 {
        return Err(ParseError::at(input, 0, Expected::Bracket));
    }
    match &input[0] {
        TokenTree::Group(Delimiter::Bracket, content) => {
            proof {
                lemma_group_decreases(trees_view(input@), 0);
            }
            match elems(content.as_slice()) {
                Err(e) => Err(e.nest(input.len())),
                Ok((elems, trailing_comma)) => Ok(
                    (PatSlice { attrs: no_attrs(), elems, trailing_comma }, 1),
                ),
            }
        },
        _ => Err(ParseError::at(input, 0, Expected::Bracket)),
    }
}

/// Reads the tuple of a tuple struct pattern whose path is given.
pub fn pat_tuple_struct(input: &[TokenTree], path: Path) -> (r: Result<
    (PatTupleStruct, usize),
    ParseError,
>)
    ensures
        parsed_view(r) == grammar::pat_tuple_struct(trees_view(input@), path@),
        r matches Ok((_, n)) ==> 1 <= n <= input.len(),
    decreases trees_view(input@), 1nat,
{
    match pat_tuple(input) {
        Err(e) => Err(e),
        Ok((pat, n)) => Ok((PatTupleStruct { attrs: no_attrs(), path, pat }, n)),
    }
}

/// Reads one field of a struct pattern.
pub fn field_pat(input: &[TokenTree]) -> (r: Result<(FieldPat, usize), ParseError>)
    ensures
        parsed_view(r) == grammar::field_pat(trees_view(input@)),
        r matches Ok((_, n)) ==> 1 <= n <= input.len(),
    decreases trees_view(input@), 0nat,
{
    let boxed = peek_word(input, 0, "box");
    let k1: usize = if boxed {
        1
    } else {
        0
    };
    let by_ref = peek_word(input, k1, "ref");
    let k2: usize = if by_ref {
        k1 + 1
    } else {
        k1
    };
    let mutability = peek_word(input, k2, "mut");
    let k3: usize = if mutability {
        k2 + 1
    } else {
        k2
    };
    let at_member = advance(input, k3);
    match member(at_member) {
        Err(e) => Err(e),
        Ok((m, _)) => {
            let k4: usize = k3 + 1;
            let colon = peek_punct(input, k4, ':');
            match m {
                Member::Named(name) => {
                    if !boxed && !by_ref && !mutability && colon {
                        let rest = advance(input, k4 + 1);
                        match Pat::parse(rest) {
                            Err(e) => Err(e),
                            Ok((p, n)) => Ok(
                                (
                                    FieldPat {
                                        attrs: no_attrs(),
                                        member: Member::Named(name),
                                        colon_token: true,
                                        pat: Box::new(p),
                                    },
                                    k4 + 1 + n,
                                ),
                            ),
                        }
                    } else {
                        let binding = Pat::Ident(
                            PatIdent {
                                attrs: no_attrs(),
                                by_ref,
                                mutability,
                                ident: name.clone(),
                                subpat: None,
                            },
                        );
                        let pat = if boxed {
                            Pat::Box(PatBox { attrs: no_attrs(), pat: Box::new(binding) })
                        } else {
                            binding
                        };
                        Ok(
                            (
                                FieldPat {
                                    attrs: no_attrs(),
                                    member: Member::Named(name),
                                    colon_token: false,
                                    pat: Box::new(pat),
                                },
                                k4,
                            ),
                        )
                    }
                },
                Member::Unnamed(index) => {
                    if !colon {
                        Err(ParseError::at(input, k4, Expected::Colon))
                    } else {
                        let rest = advance(input, k4 + 1);
                        match Pat::parse(rest) {
                            Err(e) => Err(e),
                            Ok((p, n)) => Ok(
                                (
                                    FieldPat {
                                        attrs: no_attrs(),
                                        member: Member::Unnamed(index),
                                        colon_token: true,
                                        pat: Box::new(p),
                                    },
                                    k4 + 1 + n,
                                ),
                            ),
                        }
                    }
                },
            }
        },
    }
}

/// The result of the field rule on the rest of a group, seen from its
/// start: `acc` was read before, in `k` tokens, the last followed by a
/// comma if `comma` says so.
pub open spec fn after_fields(
    acc: Seq<FieldPatView>,
    comma: bool,
    k: nat,
    r: Result<((Seq<FieldPatView>, bool), nat), ParseErrorView>,
) -> Result<((Seq<FieldPatView>, bool), nat), ParseErrorView> {
    match r {
        Ok(((rest, trailing), m)) => Ok(
            (
                (
                    acc + rest,
                    if rest.len() == 0 {
                        comma
                    } else {
                        trailing
                    },
                ),
                k + m,
            ),
        ),
        Err(e) => Err(e),
    }
}

/// Reading fields one after another gives what reading them in two parts
/// gives.
pub proof fn lemma_after_fields(
    acc: Seq<FieldPatView>,
    comma: bool,
    k: nat,
    f: FieldPatView,
    n: nat,
    r: Result<((Seq<FieldPatView>, bool), nat), ParseErrorView>,
)
    ensures
        after_fields(acc, comma, k, after_fields(seq![f], true, n, r)) == after_fields(
            acc.push(f),
            true,
            k + n,
            r,
        ),
{
    match r {
        Ok(((more, _), _)) => {
            assert(acc + (seq![f] + more) =~= acc.push(f) + more);
        },
        Err(_) => {},
    }
}

/// Reads one field and looks for the comma after it.
fn field_step(rest: &[TokenTree]) -> (r: Result<(FieldPat, usize, bool), ParseError>)
    requires
        rest.len() > 0,
        !dot2_at(trees_view(rest@), 0),
    ensures
        match r {
            Ok((f, n, comma)) => 1 <= n <= rest.len() && (comma ==> n < rest.len())
                && grammar::fields(trees_view(rest@)) == (if comma {
                after_fields(
                    seq![f@],
                    true,
                    (n + 1) as nat,
                    grammar::fields(trees_view(rest@).skip(n + 1)),
                )
            } else {
                Ok::<((Seq<FieldPatView>, bool), nat), ParseErrorView>(
                    ((seq![f@], false), n as nat),
                )
            }),
            Err(e) => grammar::fields(trees_view(rest@)) == Err::<
                ((Seq<FieldPatView>, bool), nat),
                ParseErrorView,
            >(e@),
        },
    decreases trees_view(rest@), 1nat,
{
    match field_pat(rest) {
        Err(e) => Err(e),
        Ok((f, n)) => {
            let comma = peek_punct(rest, n, ',');
            Ok((f, n, comma))
        },
    }
}

/// Reads the fields of a struct pattern, separated by commas, up to a `..`
/// or the end of the group.
pub fn fields(content: &[TokenTree]) -> (r: Result<((Vec<FieldPat>, bool), usize), ParseError>)
    ensures
        match r {
            Ok(((v, trailing), n)) => grammar::fields(trees_view(content@)) == Ok::<
                ((Seq<FieldPatView>, bool), nat),
                ParseErrorView,
            >(((fields_view(v@), trailing), n as nat)) && n <= content.len(),
            Err(e) => grammar::fields(trees_view(content@)) == Err::<
                ((Seq<FieldPatView>, bool), nat),
                ParseErrorView,
            >(e@),
        },
    decreases trees_view(content@), 2nat,
{
    let ghost c = trees_view(content@);
    let mut out: Vec<FieldPat> = Vec::new();
    let mut pos: usize = 0;
    proof {
        assert(c.skip(0) =~= c);
        assert(fields_view(out@) =~= Seq::<FieldPatView>::empty());
        match grammar::fields(c) {
            Ok(((rest, _), _)) => {
                assert(Seq::<FieldPatView>::empty() + rest =~= rest);
            },
            Err(_) => {},
        }
    }
    while pos < content.len() && !peek_dot2(content, pos)
        invariant
            pos <= content.len(),
            c == trees_view(content@),
            grammar::fields(c) == after_fields(
                fields_view(out@),
                pos > 0,
                pos as nat,
                grammar::fields(c.skip(pos as int)),
            ),
        decreases content.len() - pos,
    {
        let rest = advance(content, pos);
        let ghost acc = fields_view(out@);
        proof {
            if pos == 0 {
                assert(c.skip(0) =~= c);
            }
        }
        match field_step(rest) {
            Err(e) => {
                return Err(e);
            },
            Ok((f, n, comma)) => {
                let ghost fv = f@;
                out.push(f);
                proof {
                    assert(fields_view(out@) =~= acc.push(fv));
                    assert(acc + seq![fv] =~= acc.push(fv));
                }
                if !comma {
                    return Ok(((out, false), pos + n));
                }
                proof {
                    assert(c.skip(pos as int).skip((n + 1) as int) =~= c.skip(pos + n + 1));
                    lemma_after_fields(
                        acc,
                        pos > 0,
                        pos as nat,
                        fv,
                        (n + 1) as nat,
                        grammar::fields(c.skip(pos + n + 1)),
                    );
                }
                pos = pos + n + 1;
            },
        }
    }
    proof {
        assert(fields_view(out@) + Seq::<FieldPatView>::empty() =~= fields_view(out@));
    }
    Ok(((out, pos > 0), pos))
}

/// Reads the inside of the braces of a struct pattern.
pub fn struct_body(content: &[TokenTree]) -> (r: Result<(Vec<FieldPat>, bool, bool), ParseError>)
    ensures
        match r {
            Ok((v, trailing, rest)) => grammar::struct_body(trees_view(content@)) == Ok::<
                (Seq<FieldPatView>, bool, bool),
                ParseErrorView,
            >((fields_view(v@), trailing, rest)),
            Err(e) => grammar::struct_body(trees_view(content@)) == Err::<
                (Seq<FieldPatView>, bool, bool),
                ParseErrorView,
            >(e@),
        },
    decreases trees_view(content@), 3nat,
{
    match fields(content) {
        Err(e) => Err(e),
        Ok(((fs, trailing), n)) => {
            let rest = peek_dot2(content, n);
            let m: usize = if rest {
                n + 2
            } else {
                n
            };
            if m < content.len() {
                Err(ParseError::at(content, m, Expected::End))
            } else {
                Ok((fs, trailing, rest))
            }
        },
    }
}

/// Reads the braces of a struct pattern whose path is given.
pub fn pat_struct(input: &[TokenTree], path: Path) -> (r: Result<(PatStruct, usize), ParseError>)
    ensures
        parsed_view(r) == grammar::pat_struct(trees_view(input@), path@),
        r matches Ok((_, n)) ==> 1 <= n <= input.len(),
    decreases trees_view(input@), 0nat,
{
    if input.len() == 0 {
        return Err(ParseError::at(input, 0, Expected::Brace));
    }
    match &input[0] {
        TokenTree::Group(Delimiter::Brace, content) => {
            proof {
                lemma_group_decreases(trees_view(input@), 0);
            }
            match struct_body(content.as_slice()) {
                Err(e) => Err(e.nest(input.len())),
                Ok((fields, trailing_comma, dot2_token)) => Ok(
                    (PatStruct { attrs: no_attrs(), path, fields, trailing_comma, dot2_token }, 1),
                ),
            }
        },
        _ => Err(ParseError::at(input, 0, Expected::Brace)),
    }
}

// ---------------------------------------------------------------------
// Alternatives and whole inputs
// ---------------------------------------------------------------------

/// Reads zero or more repetitions of `|` pattern and appends the patterns
/// to `cases`.
pub fn more_cases(input: &[TokenTree], cases: &mut Vec<Pat>) -> (r: Result<usize, ParseError>)
    ensures
        match r {
            Ok(n) => grammar::more_cases(trees_view(input@)) matches Ok((more, m)) && m == n && n
                <= input.len() && pats_view(final(cases)@) == pats_view(old(cases)@) + more,
            Err(e) => grammar::more_cases(trees_view(input@)) == Err::<
                (Seq<PatView>, nat),
                ParseErrorView,
            >(e@),
        },
{
    reveal(grammar::more_cases);
    let ghost s = trees_view(input@);
    let ghost before = pats_view(cases@);
    let ghost mut acc: Seq<PatView> = Seq::empty();
    let mut pos: usize = 0;
    proof {
        assert(s.skip(0) =~= s);
        assert(before + acc =~= before);
        match grammar::more_cases(s) {
            Ok((rest, _)) => {
                assert(acc + rest =~= rest);
            },
            Err(_) => {},
        }
    }
    while peek_vert(input, pos)
        invariant
            pos <= input.len(),
            s == trees_view(input@),
            pats_view(cases@) == before + acc,
            grammar::more_cases(s) == after(
                acc,
                pos as nat,
                grammar::more_cases(s.skip(pos as int)),
            ),
        decreases input.len() - pos,
    {
        reveal(grammar::more_cases);
        let rest = advance(input, pos + 1);
        let ghost shown = pats_view(cases@);
        proof {
            assert(s.skip(pos as int).skip(1) =~= s.skip(pos + 1));
        }
        match Pat::parse(rest) {
            Err(e) => {
                return Err(e);
            },
            Ok((p, n)) => {
                let ghost pv = p@;
                cases.push(p);
                proof {
                    assert(pats_view(cases@) =~= shown.push(pv));
                    assert(before + acc.push(pv) =~= shown.push(pv));
                    assert(s.skip(pos as int).skip((1 + n) as int) =~= s.skip(pos + 1 + n));
                    match grammar::more_cases(s.skip(pos + 1 + n)) {
                        Ok((more, _)) => {
                            assert(acc + (seq![pv] + more) =~= acc.push(pv) + more);
                        },
                        Err(_) => {},
                    }
                    acc = acc.push(pv);
                }
                pos = pos + 1 + n;
            },
        }
    }
    proof {
        assert(acc + Seq::<PatView>::empty() =~= acc);
    }
    Ok(pos)
}

/// Reads a pattern with alternatives: `|`? pattern (`|` pattern)*.
///
/// A single pattern without any `|` comes back as it is; otherwise the
/// result is an or-pattern that holds the alternatives in order.
pub fn multi_pat(input: &[TokenTree]) -> (r: Result<(Pat, usize), ParseError>)
    ensures
        parsed_view(r) == grammar::multi_pat(trees_view(input@)),
        r matches Ok((_, n)) ==> 1 <= n <= input.len(),
        r matches Ok((p, _)) ==> well_formed(p@),
{
    reveal(grammar::multi_pat);
    proof {
        lemma_multi_pat_well_formed(trees_view(input@));
    }
    let leading_vert = peek_punct(input, 0, '|');
    let k: usize = if leading_vert {
        1
    } else {
        0
    };
    let rest = advance(input, k);
    match Pat::parse(rest) {
        Err(e) => Err(e),
        Ok((p, n)) => {
            if leading_vert || peek_vert(input, k + n) {
                let ghost pv = p@;
                let mut cases: Vec<Pat> = Vec::new();
                cases.push(p);
                proof {
                    assert(pats_view(cases@) =~= seq![pv]);
                }
                let tail = advance(input, k + n);
                match more_cases(tail, &mut cases) {
                    Err(e) => Err(e),
                    Ok(m) => Ok(
                        (Pat::Or(PatOr { attrs: no_attrs(), leading_vert, cases }), k + n + m),
                    ),
                }
            } else {
                Ok((p, k + n))
            }
        },
    }
}

/// Parses a whole token sequence as one pattern, alternatives included.
pub fn parse_pattern(tokens: &[TokenTree]) -> (r: Result<Pat, ParseError>)
    ensures
        match r {
            Ok(p) => grammar::pattern(trees_view(tokens@)) == Ok::<PatView, ParseErrorView>(p@)
                && well_formed(p@),
            Err(e) => grammar::pattern(trees_view(tokens@)) == Err::<PatView, ParseErrorView>(e@),
        },
{
    reveal(grammar::pattern);
    proof {
        lemma_parse_well_formed(trees_view(tokens@));
    }
    match multi_pat(tokens) {
        Err(e) => Err(e),
        Ok((p, n)) => {
            if n < tokens.len() {
                Err(ParseError::at(tokens, n, Expected::End))
            } else {
                Ok(p)
            }
        },
    }
}

} // verus!
