//! The concrete syntax of patterns, as mathematical functions on token
//! sequences.
//!
//! Each rule takes the unread tokens and yields the value it recognises at
//! their front together with the number of tokens that belong to it, or the
//! error that says what was missing and where.

use crate::ast::{
    ExprPathView, ExprView, FieldPatView, LitView, MacroDelimiter, MacroView, MemberView,
    PatBoxView, PathArgumentsView, PathSegmentView, PathView, PatIdentView, PatLitView,
    PatMacroView, PatOrView, PatPathView, PatRangeView, PatReferenceView, PatRestView,
    PatSliceView, PatStructView, PatTupleStructView, PatTupleView, PatView, PatWildView, QSelfView,
    RangeLimits, UnOp,
};
use crate::error::{Expected, Parsed, ParseErrorView, error_at, fail};
use crate::token::{
    Delimiter, Tokens, TokenView, bang_at, colon2_at, dot2_at, dot2_eq_at, dot3_at, group_at,
    ident_at, is_keyword, joint_at, is_path_keyword, lit_at, path_start_at, plain_ident_at, punct_at,
    vert_at, wild_at, word_at,
};
use vstd::prelude::*;

verus! {

// ---------------------------------------------------------------------
// Angle brackets
// ---------------------------------------------------------------------

/// The `>` at the front of `s` closes an angle bracket. It does not where
/// `arrow` says that it comes straight after a `-` joined to it: the two
/// are then the arrow `->` of a function type.
pub open spec fn closes_at(s: Tokens, arrow: bool) -> bool {
    punct_at(s, 0, '>') && !arrow
}

/// How many angle brackets are open after the first token of `s`, when
/// `depth` are open before it.
pub open spec fn angle_step(s: Tokens, depth: nat, arrow: bool) -> nat {
    if punct_at(s, 0, '<') {
        depth + 1
    } else if closes_at(s, arrow) {
        (depth - 1) as nat
    } else {
        depth
    }
}

/// The number of tokens of `s` before the `>` that closes an angle bracket
/// opened just before `s`, when `depth` more brackets have been opened
/// since, and `arrow` says whether a joined `-` comes just before `s`.
/// Only the characters `<` and `>` count; brackets inside a group are out
/// of sight.
pub open spec fn angle_close(s: Tokens, depth: nat, arrow: bool) -> Option<nat>
    decreases s.len(),
{
    if s.len() == 0 {
        None
    } else if closes_at(s, arrow) && depth == 0 {
        Some(0)
    } else {
        match angle_close(s.skip(1), angle_step(s, depth, arrow), joint_at(s, 0, '-')) {
            Some(n) => Some(n + 1),
            None => None,
        }
    }
}

// ---------------------------------------------------------------------
// Paths
// ---------------------------------------------------------------------

/// One path segment: a name, and generic arguments if `::<` follows it.
#[verifier::opaque]
pub open spec fn path_segment(s: Tokens) -> Parsed<PathSegmentView> {
    if !ident_at(s, 0) {
        fail(s, Expected::Ident)
    } else {
        let name = s[0]->Ident_0;
        if is_path_keyword(name) {
            Ok((PathSegmentView { ident: name, arguments: PathArgumentsView::Empty }, 1))
        } else if is_keyword(name) && name != "Self"@ {
            fail(s, Expected::Ident)
        } else if colon2_at(s, 1) && punct_at(s, 3, '<') {
            match angle_close(s.skip(4), 0, false) {
                Some(n) => Ok(
                    (
                        PathSegmentView {
                            ident: name,
                            arguments: PathArgumentsView::AngleBracketed(s.subrange(4, (4 + n) as int)),
                        },
                        (5 + n) as nat,
                    ),
                ),
                None => fail(Seq::empty(), Expected::Gt),
            }
        } else {
            Ok((PathSegmentView { ident: name, arguments: PathArgumentsView::Empty }, 1))
        }
    }
}

/// Path segments separated by `::`, at least one.
#[verifier::opaque]
pub open spec fn path_segments(s: Tokens) -> Parsed<Seq<PathSegmentView>>
    decreases s.len(),
{
    match path_segment(s) {
        Err(e) => Err(e),
        Ok((segment, n)) => if colon2_at(s, n as int) {
            match path_segments(s.skip((n + 2) as int)) {
                Err(e) => Err(e),
                Ok((rest, m)) => Ok((seq![segment] + rest, n + 2 + m)),
            }
        } else {
            Ok((seq![segment], n))
        },
    }
}

/// A path: an optional leading `::` and its segments.
#[verifier::opaque]
pub open spec fn path(s: Tokens) -> Parsed<PathView> {
    let lead = colon2_at(s, 0);
    let k: nat = if lead {
        2
    } else {
        0
    };
    match path_segments(s.skip(k as int)) {
        Err(e) => Err(e),
        Ok((segments, n)) => Ok((PathView { leading_colon: lead, segments }, k + n)),
    }
}

/// A path, optionally qualified: `<` tokens `>` `::` segments.
#[verifier::opaque]
pub open spec fn qpath(s: Tokens) -> Parsed<(Option<QSelfView>, PathView)> {
    if punct_at(s, 0, '<') {
        match angle_close(s.skip(1), 0, false) {
            None => fail(Seq::empty(), Expected::Gt),
            Some(n) => if n == 0 {
                fail(s.skip(1), Expected::Type)
            } else if !colon2_at(s, (n + 2) as int) {
                fail(s.skip((n + 2) as int), Expected::PathSep)
            } else {
                match path_segments(s.skip((n + 4) as int)) {
                    Err(e) => Err(e),
                    Ok((segments, m)) => Ok(
                        (
                            (
                                Some(QSelfView { tokens: s.subrange(1, (n + 1) as int) }),
                                PathView { leading_colon: true, segments },
                            ),
                            n + 4 + m,
                        ),
                    ),
                }
            },
        }
    } else {
        match path(s) {
            Err(e) => Err(e),
            Ok((p, n)) => Ok(((None, p), n)),
        }
    }
}

/// Whether any segment of the path has generic arguments.
pub open spec fn has_arguments(segments: Seq<PathSegmentView>) -> bool {
    exists|i: int| 0 <= i < segments.len() && !(#[trigger] segments[i].arguments is Empty)
}

// ---------------------------------------------------------------------
// Literals, bounds, members
// ---------------------------------------------------------------------

/// The literal that a literal token stands for.
pub open spec fn lit_of(t: TokenView) -> LitView {
    match t {
        TokenView::Literal(w) => LitView::Verbatim(w),
        TokenView::Ident(w) => LitView::Bool(w == "true"@),
        _ => LitView::Bool(false),
    }
}

/// A literal or a path, optionally negated: a range bound or the content
/// of a literal pattern. Nothing else is an expression here.
#[verifier::opaque]
pub open spec fn pat_lit_expr(s: Tokens) -> Parsed<ExprView> {
    let neg = punct_at(s, 0, '-');
    let k: nat = if neg {
        1
    } else {
        0
    };
    let t = s.skip(k as int);
    if lit_at(t, 0) {
        let atom = ExprView::Lit(lit_of(t[0]));
        Ok((negated(neg, atom), k + 1))
    } else if path_start_at(t, 0) {
        match qpath(t) {
            Err(e) => Err(e),
            Ok(((qself, path), n)) => Ok(
                (negated(neg, ExprView::Path(ExprPathView { qself, path })), k + n),
            ),
        }
    } else {
        fail(t, Expected::LiteralOrPath)
    }
}

/// `atom` itself, or its negation.
pub open spec fn negated(neg: bool, atom: ExprView) -> ExprView {
    if neg {
        ExprView::Unary(UnOp::Neg, Box::new(atom))
    } else {
        atom
    }
}

/// `..=` and `...` are closed, `..` is half-open.
#[verifier::opaque]
pub open spec fn range_limits(s: Tokens) -> Parsed<RangeLimits> {
    if dot2_eq_at(s, 0) || dot3_at(s, 0) {
        Ok((RangeLimits::Closed, 3))
    } else if dot2_at(s, 0) {
        Ok((RangeLimits::HalfOpen, 2))
    } else {
        fail(s, Expected::RangeLimits)
    }
}

/// A decimal digit.
pub open spec fn is_digit(c: char) -> bool {
    '0' <= c <= '9'
}

/// The number that a decimal digit denotes.
pub open spec fn digit_value(c: char) -> nat {
    (c as nat - '0' as nat) as nat
}

/// The number that a run of decimal digits denotes; nothing for the empty
/// run or one that holds another character.
pub open spec fn decimal_value(w: Seq<char>) -> Option<nat>
    decreases w.len(),
{
    if w.len() == 0 || !is_digit(w.last()) {
        None
    } else if w.len() == 1 {
        Some(digit_value(w.last()))
    } else {
        match decimal_value(w.drop_last()) {
            Some(v) => Some(v * 10 + digit_value(w.last())),
            None => None,
        }
    }
}

/// The field index that a literal denotes.
pub open spec fn index_value(w: Seq<char>) -> Option<u32> {
    match decimal_value(w) {
        Some(v) => if v <= u32::MAX {
            Some(v as u32)
        } else {
            None
        },
        None => None,
    }
}

/// A field designator: a plain identifier or a decimal index.
#[verifier::opaque]
pub open spec fn member(s: Tokens) -> Parsed<MemberView> {
    if plain_ident_at(s, 0) {
        Ok((MemberView::Named(s[0]->Ident_0), 1))
    } else if s.len() > 0 && s[0] is Literal && index_value(s[0]->Literal_0) is Some {
        Ok((MemberView::Unnamed(index_value(s[0]->Literal_0)->0), 1))
    } else {
        fail(s, Expected::Member)
    }
}

// ---------------------------------------------------------------------
// Patterns
// ---------------------------------------------------------------------

/// `_`
#[verifier::opaque]
pub open spec fn pat_wild(s: Tokens) -> Parsed<PatWildView> {
    if wild_at(s, 0) {
        Ok((PatWildView { attrs: Seq::empty() }, 1))
    } else {
        fail(s, Expected::Underscore)
    }
}

/// `..`
#[verifier::opaque]
pub open spec fn pat_rest(s: Tokens) -> Parsed<PatRestView> {
    if dot2_at(s, 0) {
        Ok((PatRestView { attrs: Seq::empty() }, 2))
    } else {
        fail(s, Expected::DotDot)
    }
}

/// After an identifier and a range operator the input ends or a comma
/// follows: the identifier is then a binding and the dots a rest pattern,
/// not the start of a range.
#[verifier::opaque]
pub open spec fn binding_before_rest(s: Tokens) -> bool {
    let r: int = if dot2_eq_at(s, 1) || dot3_at(s, 1) {
        3
    } else {
        2
    };
    s.len() == 1 + r || punct_at(s, 1 + r, ',')
}

/// The input starts a path, macro, struct, tuple struct or range whose low
/// bound is a path.
#[verifier::opaque]
pub open spec fn path_family_start(s: Tokens) -> bool {
    ||| plain_ident_at(s, 0) && (colon2_at(s, 1) || punct_at(s, 1, '!') || group_at(
        s,
        1,
        Delimiter::Brace,
    ) || group_at(s, 1, Delimiter::Parenthesis) || (dot2_at(s, 1) && !binding_before_rest(s)))
    ||| word_at(s, 0, "self"@) && colon2_at(s, 1)
    ||| colon2_at(s, 0)
    ||| punct_at(s, 0, '<')
    ||| word_at(s, 0, "Self"@)
    ||| word_at(s, 0, "super"@)
    ||| word_at(s, 0, "crate"@)
}

/// The input starts a binding: `ref`, `mut`, `self` or a plain identifier.
pub open spec fn binding_start(s: Tokens) -> bool {
    word_at(s, 0, "ref"@) || word_at(s, 0, "mut"@) || word_at(s, 0, "self"@) || plain_ident_at(
        s,
        0,
    )
}

/// One pattern at the front of `s`.
pub open spec fn pat(s: Tokens) -> Parsed<PatView>
    decreases s, 3nat,
{
    if path_family_start(s) {
        pat_path_or_macro_or_struct_or_range(s)
    } else if wild_at(s, 0) {
        match pat_wild(s) {
            Err(e) => Err(e),
            Ok((x, n)) => Ok((PatView::Wild(x), n)),
        }
    } else if word_at(s, 0, "box"@) {
        match pat_box(s) {
            Err(e) => Err(e),
            Ok((x, n)) => Ok((PatView::Box(x), n)),
        }
    } else if punct_at(s, 0, '-') || lit_at(s, 0) {
        pat_lit_or_range(s)
    } else if binding_start(s) {
        match pat_ident(s) {
            Err(e) => Err(e),
            Ok((x, n)) => Ok((PatView::Ident(x), n)),
        }
    } else if punct_at(s, 0, '&') {
        match pat_reference(s) {
            Err(e) => Err(e),
            Ok((x, n)) => Ok((PatView::Reference(x), n)),
        }
    } else if group_at(s, 0, Delimiter::Parenthesis) {
        match pat_tuple(s) {
            Err(e) => Err(e),
            Ok((x, n)) => Ok((PatView::Tuple(x), n)),
        }
    } else if group_at(s, 0, Delimiter::Bracket) {
        match pat_slice(s) {
            Err(e) => Err(e),
            Ok((x, n)) => Ok((PatView::Slice(x), n)),
        }
    } else if dot2_at(s, 0) && !dot3_at(s, 0) {
        match pat_rest(s) {
            Err(e) => Err(e),
            Ok((x, n)) => Ok((PatView::Rest(x), n)),
        }
    } else {
        fail(s, Expected::Pattern)
    }
}

/// What begins with a path: a range, a qualified path, a macro invocation,
/// a struct, a tuple struct, or the path alone.
pub open spec fn pat_path_or_macro_or_struct_or_range(s: Tokens) -> Parsed<PatView>
    decreases s, 2nat,
{
    match qpath(s) {
        Err(e) => Err(e),
        Ok(((qself, path), n)) => {
            let t = s.skip(n as int);
            if dot2_at(t, 0) {
                match pat_range(t, qself, path) {
                    Err(e) => Err(e),
                    Ok((x, m)) => Ok((PatView::Range(x), n + m)),
                }
            } else if qself is Some {
                Ok((PatView::Path(PatPathView { attrs: Seq::empty(), qself, path }), n))
            } else if bang_at(t, 0) && !has_arguments(path.segments) {
                match macro_body(t.skip(1)) {
                    Err(e) => Err(e),
                    Ok(((delimiter, tokens), m)) => Ok(
                        (
                            PatView::Macro(
                                PatMacroView {
                                    attrs: Seq::empty(),
                                    mac: MacroView { path, delimiter, tokens },
                                },
                            ),
                            n + 1 + m,
                        ),
                    ),
                }
            } else if group_at(s, n as int, Delimiter::Brace) {
                proof {
                    assert(n == 0 ==> t =~= s);
                }
                match pat_struct(t, path) {
                    Err(e) => Err(e),
                    Ok((x, m)) => Ok((PatView::Struct(x), n + m)),
                }
            } else if group_at(s, n as int, Delimiter::Parenthesis) {
                proof {
                    assert(n == 0 ==> t =~= s);
                }
                match pat_tuple_struct(t, path) {
                    Err(e) => Err(e),
                    Ok((x, m)) => Ok((PatView::TupleStruct(x), n + m)),
                }
            } else {
                Ok((PatView::Path(PatPathView { attrs: Seq::empty(), qself, path }), n))
            }
        },
    }
}

/// The delimited body of a macro invocation.
#[verifier::opaque]
pub open spec fn macro_body(s: Tokens) -> Parsed<(MacroDelimiter, Tokens)> {
    if group_at(s, 0, Delimiter::Parenthesis) {
        Ok(((MacroDelimiter::Paren, s[0]->Group_1), 1))
    } else if group_at(s, 0, Delimiter::Brace) {
        Ok(((MacroDelimiter::Brace, s[0]->Group_1), 1))
    } else if group_at(s, 0, Delimiter::Bracket) {
        Ok(((MacroDelimiter::Bracket, s[0]->Group_1), 1))
    } else {
        fail(s, Expected::Delimiter)
    }
}

/// `box` and a pattern.
pub open spec fn pat_box(s: Tokens) -> Parsed<PatBoxView>
    decreases s, 0nat,
{
    if !word_at(s, 0, "box"@) {
        fail(s, Expected::BoxWord)
    } else {
        match pat(s.skip(1)) {
            Err(e) => Err(e),
            Ok((p, n)) => Ok((PatBoxView { attrs: Seq::empty(), pat: Box::new(p) }, 1 + n)),
        }
    }
}

/// `ref`? `mut`? name (`@` pattern)?
pub open spec fn pat_ident(s: Tokens) -> Parsed<PatIdentView>
    decreases s, 0nat,
{
    let by_ref = word_at(s, 0, "ref"@);
    let k1: int = if by_ref {
        1
    } else {
        0
    };
    let mutability = word_at(s, k1, "mut"@);
    let k2: int = if mutability {
        k1 + 1
    } else {
        k1
    };
    if !ident_at(s, k2) {
        fail(s.skip(k2), Expected::Ident)
    } else {
        let ident = s[k2]->Ident_0;
        if punct_at(s, k2 + 1, '@') {
            match pat(s.skip(k2 + 2)) {
                Err(e) => Err(e),
                Ok((p, n)) => Ok(
                    (
                        PatIdentView {
                            attrs: Seq::empty(),
                            by_ref,
                            mutability,
                            ident,
                            subpat: Some(Box::new(p)),
                        },
                        (k2 + 2 + n) as nat,
                    ),
                ),
            }
        } else {
            Ok(
                (
                    PatIdentView { attrs: Seq::empty(), by_ref, mutability, ident, subpat: None },
                    (k2 + 1) as nat,
                ),
            )
        }
    }
}

/// `&` `mut`? pattern
pub open spec fn pat_reference(s: Tokens) -> Parsed<PatReferenceView>
    decreases s, 0nat,
{
    if !punct_at(s, 0, '&') {
        fail(s, Expected::And)
    } else {
        let mutability = word_at(s, 1, "mut"@);
        let k: int = if mutability {
            2
        } else {
            1
        };
        match pat(s.skip(k)) {
            Err(e) => Err(e),
            Ok((p, n)) => Ok(
                (
                    PatReferenceView { attrs: Seq::empty(), mutability, pat: Box::new(p) },
                    (k + n) as nat,
                ),
            ),
        }
    }
}

/// Patterns separated by commas, filling a group: the elements and whether
/// a comma follows the last one.
pub open spec fn elems(c: Tokens) -> Result<(Seq<PatView>, bool), ParseErrorView>
    decreases c, 4nat,
{
    if c.len() == 0 {
        Ok((Seq::empty(), false))
    } else {
        match pat(c) {
            Err(e) => Err(e),
            Ok((p, n)) => if n >= c.len() {
                Ok((seq![p], false))
            } else if !punct_at(c, n as int, ',') {
                Err(error_at(c.skip(n as int), Expected::Comma))
            } else {
                match elems(c.skip((n + 1) as int)) {
                    Err(e) => Err(e),
                    Ok((rest, trailing)) => Ok((seq![p] + rest, rest.len() == 0 || trailing)),
                }
            },
        }
    }
}

/// `( elements )`
pub open spec fn pat_tuple(s: Tokens) -> Parsed<PatTupleView>
    decreases s, 0nat,
{
    if !group_at(s, 0, Delimiter::Parenthesis) {
        fail(s, Expected::Paren)
    } else {
        match elems(s[0]->Group_1) {
            Err(e) => Err(e.nested(s.len())),
            Ok((elems, trailing_comma)) => Ok(
                (PatTupleView { attrs: Seq::empty(), elems, trailing_comma }, 1),
            ),
        }
    }
}

/// `[ elements ]`
pub open spec fn pat_slice(s: Tokens) -> Parsed<PatSliceView>
    decreases s, 0nat,
{
    if !group_at(s, 0, Delimiter::Bracket) {
        fail(s, Expected::Bracket)
    } else {
        match elems(s[0]->Group_1) {
            Err(e) => Err(e.nested(s.len())),
            Ok((elems, trailing_comma)) => Ok(
                (PatSliceView { attrs: Seq::empty(), elems, trailing_comma }, 1),
            ),
        }
    }
}

/// A tuple pattern after the path that names the tuple struct.
pub open spec fn pat_tuple_struct(s: Tokens, path: PathView) -> Parsed<PatTupleStructView>
    decreases s, 1nat,
{
    match pat_tuple(s) {
        Err(e) => Err(e),
        Ok((pat, n)) => Ok((PatTupleStructView { attrs: Seq::empty(), path, pat }, n)),
    }
}

/// One field of a struct pattern.
///
/// With no `box`, `ref` or `mut` in front and a `:` after the name, or with
/// a positional designator, the field is `member : pattern`. Otherwise it
/// is the short form, which binds the field's name.
pub open spec fn field_pat(s: Tokens) -> Parsed<FieldPatView>
    decreases s, 0nat,
{
    let boxed = word_at(s, 0, "box"@);
    let k1: int = if boxed {
        1
    } else {
        0
    };
    let by_ref = word_at(s, k1, "ref"@);
    let k2: int = if by_ref {
        k1 + 1
    } else {
        k1
    };
    let mutability = word_at(s, k2, "mut"@);
    let k3: int = if mutability {
        k2 + 1
    } else {
        k2
    };
    match member(s.skip(k3)) {
        Err(e) => Err(e),
        Ok((m, _)) => {
            let k4 = k3 + 1;
            if (!boxed && !by_ref && !mutability && punct_at(s, k4, ':')) || m is Unnamed {
                if !punct_at(s, k4, ':') {
                    fail(s.skip(k4), Expected::Colon)
                } else {
                    match pat(s.skip(k4 + 1)) {
                        Err(e) => Err(e),
                        Ok((p, n)) => Ok(
                            (
                                FieldPatView {
                                    attrs: Seq::empty(),
                                    member: m,
                                    colon_token: true,
                                    pat: Box::new(p),
                                },
                                (k4 + 1 + n) as nat,
                            ),
                        ),
                    }
                }
            } else {
                Ok(
                    (
                        FieldPatView {
                            attrs: Seq::empty(),
                            member: m,
                            colon_token: false,
                            pat: Box::new(shorthand(boxed, by_ref, mutability, m->Named_0)),
                        },
                        k4 as nat,
                    ),
                )
            }
        },
    }
}

/// The pattern that the short form of a field stands for.
pub open spec fn shorthand(boxed: bool, by_ref: bool, mutability: bool, name: Seq<char>) -> PatView {
    let binding = PatView::Ident(
        PatIdentView { attrs: Seq::empty(), by_ref, mutability, ident: name, subpat: None },
    );
    if boxed {
        PatView::Box(PatBoxView { attrs: Seq::empty(), pat: Box::new(binding) })
    } else {
        binding
    }
}

/// Field patterns separated by commas, up to a `..` or the end of the
/// group: the fields, whether a comma follows the last one, and the tokens
/// taken.
pub open spec fn fields(c: Tokens) -> Parsed<(Seq<FieldPatView>, bool)>
    decreases c, 2nat,
{
    if c.len() == 0 || dot2_at(c, 0) {
        Ok(((Seq::empty(), false), 0))
    } else {
        match field_pat(c) {
            Err(e) => Err(e),
            Ok((f, n)) => if !punct_at(c, n as int, ',') {
                Ok(((seq![f], false), n))
            } else {
                match fields(c.skip((n + 1) as int)) {
                    Err(e) => Err(e),
                    Ok(((rest, trailing), m)) => Ok(
                        ((seq![f] + rest, rest.len() == 0 || trailing), n + 1 + m),
                    ),
                }
            },
        }
    }
}

/// The inside of the braces of a struct pattern: the fields, then an
/// optional `..`, then nothing more.
pub open spec fn struct_body(c: Tokens) -> Result<
    (Seq<FieldPatView>, bool, bool),
    ParseErrorView,
>
    decreases c, 3nat,
{
    match fields(c) {
        Err(e) => Err(e),
        Ok(((fs, trailing), n)) => {
            let rest = dot2_at(c, n as int);
            let m = if rest {
                n + 2
            } else {
                n
            };
            if m < c.len() {
                Err(error_at(c.skip(m as int), Expected::End))
            } else {
                Ok((fs, trailing, rest))
            }
        },
    }
}

/// `{ fields }` after the path that names the struct.
pub open spec fn pat_struct(s: Tokens, path: PathView) -> Parsed<PatStructView>
    decreases s, 0nat,
{
    if !group_at(s, 0, Delimiter::Brace) {
        fail(s, Expected::Brace)
    } else {
        match struct_body(s[0]->Group_1) {
            Err(e) => Err(e.nested(s.len())),
            Ok((fields, trailing_comma, dot2_token)) => Ok(
                (
                    PatStructView {
                        attrs: Seq::empty(),
                        path,
                        fields,
                        trailing_comma,
                        dot2_token,
                    },
                    1,
                ),
            ),
        }
    }
}

/// A range whose low bound, a path, has been read: the operator and the
/// high bound.
#[verifier::opaque]
pub open spec fn pat_range(s: Tokens, qself: Option<QSelfView>, path: PathView) -> Parsed<
    PatRangeView,
> {
    match range_limits(s) {
        Err(e) => Err(e),
        Ok((limits, r)) => match pat_lit_expr(s.skip(r as int)) {
            Err(e) => Err(e),
            Ok((hi, m)) => Ok(
                (
                    PatRangeView {
                        attrs: Seq::empty(),
                        lo: ExprView::Path(ExprPathView { qself, path }),
                        limits,
                        hi,
                    },
                    r + m,
                ),
            ),
        },
    }
}

/// A literal pattern, or a range whose low bound starts with `-` or a
/// literal.
#[verifier::opaque]
pub open spec fn pat_lit_or_range(s: Tokens) -> Parsed<PatView> {
    match pat_lit_expr(s) {
        Err(e) => Err(e),
        Ok((lo, n)) => if dot2_at(s, n as int) {
            match range_limits(s.skip(n as int)) {
                Err(e) => Err(e),
                Ok((limits, r)) => match pat_lit_expr(s.skip((n + r) as int)) {
                    Err(e) => Err(e),
                    Ok((hi, m)) => Ok(
                        (
                            PatView::Range(PatRangeView { attrs: Seq::empty(), lo, limits, hi }),
                            n + r + m,
                        ),
                    ),
                },
            }
        } else {
            Ok((PatView::Lit(PatLitView { attrs: Seq::empty(), expr: lo }), n))
        },
    }
}

// ---------------------------------------------------------------------
// Alternatives and whole inputs
// ---------------------------------------------------------------------

/// Zero or more repetitions of `|` pattern.
#[verifier::opaque]
pub open spec fn more_cases(s: Tokens) -> Parsed<Seq<PatView>>
    decreases s.len(),
{
    if !vert_at(s, 0) {
        Ok((Seq::empty(), 0))
    } else {
        match pat(s.skip(1)) {
            Err(e) => Err(e),
            Ok((p, n)) => if vert_at(s, (1 + n) as int) {
                match more_cases(s.skip((1 + n) as int)) {
                    Err(e) => Err(e),
                    Ok((rest, m)) => Ok((seq![p] + rest, 1 + n + m)),
                }
            } else {
                Ok((seq![p], 1 + n))
            },
        }
    }
}

/// A pattern with alternatives: `|`? pattern (`|` pattern)*.
///
/// A single pattern without any `|` is that pattern itself; otherwise the
/// alternatives are gathered in an or-pattern.
#[verifier::opaque]
pub open spec fn multi_pat(s: Tokens) -> Parsed<PatView> {
    let leading_vert = punct_at(s, 0, '|');
    let k: nat = if leading_vert {
        1
    } else {
        0
    };
    match pat(s.skip(k as int)) {
        Err(e) => Err(e),
        Ok((p, n)) => if leading_vert || vert_at(s, (k + n) as int) {
            match more_cases(s.skip((k + n) as int)) {
                Err(e) => Err(e),
                Ok((rest, m)) => Ok(
                    (
                        PatView::Or(
                            PatOrView { attrs: Seq::empty(), leading_vert, cases: seq![p] + rest },
                        ),
                        k + n + m,
                    ),
                ),
            }
        } else {
            Ok((p, k + n))
        },
    }
}

/// The pattern that the whole of `s` spells.
#[verifier::opaque]
pub open spec fn pattern(s: Tokens) -> Result<PatView, ParseErrorView> {
    match multi_pat(s) {
        Err(e) => Err(e),
        Ok((p, n)) => if n < s.len() {
            Err(error_at(s.skip(n as int), Expected::End))
        } else {
            Ok(p)
        },
    }
}

} // verus!
