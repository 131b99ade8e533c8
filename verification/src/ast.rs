//! The syntax tree of patterns.
//!
//! Every executable type has a mathematical counterpart whose name ends in
//! `View`; contracts are stated over those. Keyword and operator tokens that
//! carry no information are not stored; an optional token is a `bool`.

use crate::token::{Tokens, TokenTree, trees_view};
use vstd::prelude::*;

verus! {

/// The values of a run of items, element by element.
pub open spec fn views<T: View>(s: Seq<T>) -> Seq<T::V> {
    Seq::new(s.len(), |i: int| s[i]@)
}

// ---------------------------------------------------------------------
// Attributes
// ---------------------------------------------------------------------

/// Where an attribute is written relative to the item it belongs to.
#[derive(Clone, Copy, Debug, PartialEq, Eq, Hash, Structural)]
pub enum AttrStyle {
    /// `#[...]`, before the item.
    Outer,
    /// `#![...]`, inside the item.
    Inner,
}

/// An attribute: the tokens between its square brackets, uninterpreted.
#[derive(Debug, PartialEq, Eq, Hash)]
pub struct Attribute {
    pub style: AttrStyle,
    pub tokens: Vec<TokenTree>,
}

/// The value of a [`Attribute`].
pub struct AttributeView {
    pub style: AttrStyle,
    pub tokens: Tokens,
}

impl View for Attribute {
    type V = AttributeView;

    open spec fn view(&self) -> AttributeView {
        AttributeView { style: self.style, tokens: trees_view(self.tokens@) }
    }
}

/// An empty list of attributes.
pub fn no_attrs() -> (r: Vec<Attribute>)
    ensures
        views(r@) == Seq::<AttributeView>::empty(),
{
    let r: Vec<Attribute> = Vec::new();
    assert(views(r@) =~= Seq::<AttributeView>::empty());
    r
}

// ---------------------------------------------------------------------
// Paths
// ---------------------------------------------------------------------

/// The generic arguments of a path segment.
#[derive(Debug, PartialEq, Eq, Hash)]
pub enum PathArguments {
    /// No arguments, as in `Foo`.
    Empty,
    /// `::<...>`: the tokens between the angle brackets, uninterpreted.
    AngleBracketed(Vec<TokenTree>),
}

/// The value of a [`PathArguments`].
pub enum PathArgumentsView {
    Empty,
    AngleBracketed(Tokens),
}

impl View for PathArguments {
    type V = PathArgumentsView;

    open spec fn view(&self) -> PathArgumentsView {
        match self {
            PathArguments::Empty => PathArgumentsView::Empty,
            PathArguments::AngleBracketed(ts) => PathArgumentsView::AngleBracketed(
                trees_view(ts@),
            ),
        }
    }
}

/// One segment of a path: a name and its generic arguments.
#[derive(Debug, PartialEq, Eq, Hash)]
pub struct PathSegment {
    pub ident: String,
    pub arguments: PathArguments,
}

/// The value of a [`PathSegment`].
pub struct PathSegmentView {
    pub ident: Seq<char>,
    pub arguments: PathArgumentsView,
}

impl View for PathSegment {
    type V = PathSegmentView;

    open spec fn view(&self) -> PathSegmentView {
        PathSegmentView { ident: self.ident@, arguments: self.arguments@ }
    }
}

/// A scoped name such as `a::b::<T>::c`, with or without a leading `::`.
#[derive(Debug, PartialEq, Eq, Hash)]
pub struct Path {
    pub leading_colon: bool,
    pub segments: Vec<PathSegment>,
}

/// The value of a [`Path`].
pub struct PathView {
    pub leading_colon: bool,
    pub segments: Seq<PathSegmentView>,
}

impl View for Path {
    type V = PathView;

    open spec fn view(&self) -> PathView {
        PathView { leading_colon: self.leading_colon, segments: views(self.segments@) }
    }
}

/// The qualified-self part of a path such as `<T as Trait>::CONST`: the
/// tokens between `<` and the matching `>`, uninterpreted.
#[derive(Debug, PartialEq, Eq, Hash)]
pub struct QSelf {
    pub tokens: Vec<TokenTree>,
}

/// The value of a [`QSelf`].
pub struct QSelfView {
    pub tokens: Tokens,
}

impl View for QSelf {
    type V = QSelfView;

    open spec fn view(&self) -> QSelfView {
        QSelfView { tokens: trees_view(self.tokens@) }
    }
}

/// The value of an optional qualified self.
pub open spec fn qself_view(q: Option<QSelf>) -> Option<QSelfView> {
    match q {
        Some(q) => Some(q@),
        None => None,
    }
}

// ---------------------------------------------------------------------
// Expressions that patterns embed
// ---------------------------------------------------------------------

/// A literal.
#[derive(Debug, PartialEq, Eq, Hash)]
pub enum Lit {
    /// `true` or `false`.
    Bool(bool),
    /// Any other literal, kept as its source text.
    Verbatim(String),
}

/// The value of a [`Lit`].
pub enum LitView {
    Bool(bool),
    Verbatim(Seq<char>),
}

impl View for Lit {
    type V = LitView;

    open spec fn view(&self) -> LitView {
        match self {
            Lit::Bool(b) => LitView::Bool(*b),
            Lit::Verbatim(w) => LitView::Verbatim(w@),
        }
    }
}

/// A path used as an expression.
#[derive(Debug, PartialEq, Eq, Hash)]
pub struct ExprPath {
    pub qself: Option<QSelf>,
    pub path: Path,
}

/// The value of a [`ExprPath`].
pub struct ExprPathView {
    pub qself: Option<QSelfView>,
    pub path: PathView,
}

impl View for ExprPath {
    type V = ExprPathView;

    open spec fn view(&self) -> ExprPathView {
        ExprPathView { qself: qself_view(self.qself), path: self.path@ }
    }
}

/// A unary operator.
#[derive(Clone, Copy, Debug, PartialEq, Eq, Hash, Structural)]
pub enum UnOp {
    /// `-`
    Neg,
}

/// The expressions that occur in patterns: literals, paths, and negations.
#[derive(Debug, PartialEq, Eq, Hash)]
pub enum Expr {
    Lit(Lit),
    Path(ExprPath),
    Unary(UnOp, Box<Expr>),
}

/// The value of a [`Expr`].
pub enum ExprView {
    Lit(LitView),
    Path(ExprPathView),
    Unary(UnOp, Box<ExprView>),
}

/// The value of an expression.
pub open spec fn expr_view(e: Expr) -> ExprView
    decreases e,
{
    match e {
        Expr::Lit(l) => ExprView::Lit(l@),
        Expr::Path(p) => ExprView::Path(p@),
        Expr::Unary(op, inner) => ExprView::Unary(op, Box::new(expr_view(*inner))),
    }
}

impl View for Expr {
    type V = ExprView;

    open spec fn view(&self) -> ExprView {
        expr_view(*self)
    }
}

impl ExprView {
    /// A literal or a path.
    pub open spec fn is_atom(self) -> bool {
        self is Lit || self is Path
    }

    /// A literal or a path, or the negation of one: what may bound a range
    /// or stand as a literal pattern.
    pub open spec fn is_bound(self) -> bool {
        self.is_atom() || (self matches ExprView::Unary(_, inner) && inner.is_atom())
    }
}

/// Whether a range includes its upper bound.
#[derive(Clone, Copy, Debug, PartialEq, Eq, Hash, Structural)]
pub enum RangeLimits {
    /// `..`
    HalfOpen,
    /// `..=`
    Closed,
}

// ---------------------------------------------------------------------
// Macros
// ---------------------------------------------------------------------

/// The brackets around the body of a macro invocation.
#[derive(Clone, Copy, Debug, PartialEq, Eq, Hash, Structural)]
pub enum MacroDelimiter {
    Paren,
    Brace,
    Bracket,
}

/// A macro invocation `path!( ... )`; the body is not interpreted.
#[derive(Debug, PartialEq, Eq, Hash)]
pub struct Macro {
    pub path: Path,
    pub delimiter: MacroDelimiter,
    pub tokens: Vec<TokenTree>,
}

/// The value of a [`Macro`].
pub struct MacroView {
    pub path: PathView,
    pub delimiter: MacroDelimiter,
    pub tokens: Tokens,
}

impl View for Macro {
    type V = MacroView;

    open spec fn view(&self) -> MacroView {
        MacroView {
            path: self.path@,
            delimiter: self.delimiter,
            tokens: trees_view(self.tokens@),
        }
    }
}

// ---------------------------------------------------------------------
// Struct fields
// ---------------------------------------------------------------------

/// How a field of a struct pattern is designated.
#[derive(Debug, PartialEq, Eq, Hash)]
pub enum Member {
    /// By name, as in `x: pat`.
    Named(String),
    /// By position, as in `0: pat`.
    Unnamed(u32),
}

/// The value of a [`Member`].
pub enum MemberView {
    Named(Seq<char>),
    Unnamed(u32),
}

impl View for Member {
    type V = MemberView;

    open spec fn view(&self) -> MemberView {
        match self {
            Member::Named(w) => MemberView::Named(w@),
            Member::Unnamed(i) => MemberView::Unnamed(*i),
        }
    }
}

impl Member {
    /// Whether the field is designated by position.
    pub fn is_unnamed(&self) -> (r: bool)
        ensures
            r == (self@ is Unnamed),
    {
        match self {
            Member::Named(_) => false,
            Member::Unnamed(_) => true,
        }
    }
}

// ---------------------------------------------------------------------
// Patterns
// ---------------------------------------------------------------------

/// A box pattern: `box v`.
#[derive(Debug, PartialEq, Eq, Hash)]
pub struct PatBox {
    pub attrs: Vec<Attribute>,
    pub pat: Box<Pat>,
}

/// A pattern that binds a variable: `ref mut binding @ SUBPATTERN`.
#[derive(Debug, PartialEq, Eq, Hash)]
pub struct PatIdent {
    pub attrs: Vec<Attribute>,
    pub by_ref: bool,
    pub mutability: bool,
    pub ident: String,
    pub subpat: Option<Box<Pat>>,
}

/// A literal pattern: `0`, `-1`.
///
/// A negative number is the negation of a literal, never a signed literal.
#[derive(Debug, PartialEq, Eq, Hash)]
pub struct PatLit {
    pub attrs: Vec<Attribute>,
    pub expr: Box<Expr>,
}

/// A macro in pattern position.
#[derive(Debug, PartialEq, Eq, Hash)]
pub struct PatMacro {
    pub attrs: Vec<Attribute>,
    pub mac: Macro,
}

/// A pattern that matches any one of several alternatives: `a | b`.
#[derive(Debug, PartialEq, Eq, Hash)]
pub struct PatOr {
    pub attrs: Vec<Attribute>,
    pub leading_vert: bool,
    pub cases: Vec<Pat>,
}

/// A path pattern such as `Color::Red`, optionally with a qualified self.
#[derive(Debug, PartialEq, Eq, Hash)]
pub struct PatPath {
    pub attrs: Vec<Attribute>,
    pub qself: Option<QSelf>,
    pub path: Path,
}

/// A range pattern: `1..=2`.
#[derive(Debug, PartialEq, Eq, Hash)]
pub struct PatRange {
    pub attrs: Vec<Attribute>,
    pub lo: Box<Expr>,
    pub limits: RangeLimits,
    pub hi: Box<Expr>,
}

/// A reference pattern: `&mut var`.
#[derive(Debug, PartialEq, Eq, Hash)]
pub struct PatReference {
    pub attrs: Vec<Attribute>,
    pub mutability: bool,
    pub pat: Box<Pat>,
}

/// The dots in a tuple or slice pattern: `[0, 1, ..]`.
#[derive(Debug, PartialEq, Eq, Hash)]
pub struct PatRest {
    pub attrs: Vec<Attribute>,
}

/// A slice pattern: `[a, b, ref i @ .., y, z]`.
#[derive(Debug, PartialEq, Eq, Hash)]
pub struct PatSlice {
    pub attrs: Vec<Attribute>,
    pub elems: Vec<Pat>,
    /// Whether a comma follows the last element.
    pub trailing_comma: bool,
}

/// A struct or struct variant pattern: `Variant { x, y, .. }`.
#[derive(Debug, PartialEq, Eq, Hash)]
pub struct PatStruct {
    pub attrs: Vec<Attribute>,
    pub path: Path,
    pub fields: Vec<FieldPat>,
    /// Whether a comma follows the last field.
    pub trailing_comma: bool,
    /// Whether the pattern ends in `..`.
    pub dot2_token: bool,
}

/// A tuple pattern: `(a, b)`.
#[derive(Debug, PartialEq, Eq, Hash)]
pub struct PatTuple {
    pub attrs: Vec<Attribute>,
    pub elems: Vec<Pat>,
    /// Whether a comma follows the last element.
    pub trailing_comma: bool,
}

/// A tuple struct or tuple variant pattern: `Variant(x, y, .., z)`.
#[derive(Debug, PartialEq, Eq, Hash)]
pub struct PatTupleStruct {
    pub attrs: Vec<Attribute>,
    pub path: Path,
    pub pat: PatTuple,
}

/// A type ascription pattern: `foo: f64`; the type is not interpreted.
#[derive(Debug, PartialEq, Eq, Hash)]
pub struct PatType {
    pub attrs: Vec<Attribute>,
    pub pat: Box<Pat>,
    pub ty: Vec<TokenTree>,
}

/// A pattern that matches any value: `_`.
#[derive(Debug, PartialEq, Eq, Hash)]
pub struct PatWild {
    pub attrs: Vec<Attribute>,
}

/// A single field in a struct pattern.
///
/// `Foo { x, ref y, box z }` means `x: x, y: ref y, z: box z`, but the tree
/// keeps apart the two ways of writing it: in the short form `colon_token`
/// is false and `pat` binds the name in `member`.
#[derive(Debug, PartialEq, Eq, Hash)]
pub struct FieldPat {
    pub attrs: Vec<Attribute>,
    pub member: Member,
    pub colon_token: bool,
    pub pat: Box<Pat>,
}

/// A pattern in a local binding, function signature, match arm and so on.
#[derive(Debug, Hash)]
#[non_exhaustive]
pub enum Pat {
    Box(PatBox),
    Ident(PatIdent),
    Lit(PatLit),
    Macro(PatMacro),
    Or(PatOr),
    Path(PatPath),
    Range(PatRange),
    Reference(PatReference),
    Rest(PatRest),
    Slice(PatSlice),
    Struct(PatStruct),
    Tuple(PatTuple),
    TupleStruct(PatTupleStruct),
    Type(PatType),
    /// Tokens in pattern position that no other variant accounts for.
    Verbatim(Vec<TokenTree>),
    Wild(PatWild),
}

/// The value of a [`PatBox`].
pub struct PatBoxView {
    pub attrs: Seq<AttributeView>,
    pub pat: Box<PatView>,
}

/// The value of a [`PatIdent`].
pub struct PatIdentView {
    pub attrs: Seq<AttributeView>,
    pub by_ref: bool,
    pub mutability: bool,
    pub ident: Seq<char>,
    pub subpat: Option<Box<PatView>>,
}

/// The value of a [`PatLit`].
pub struct PatLitView {
    pub attrs: Seq<AttributeView>,
    pub expr: ExprView,
}

/// The value of a [`PatMacro`].
pub struct PatMacroView {
    pub attrs: Seq<AttributeView>,
    pub mac: MacroView,
}

/// The value of a [`PatOr`].
pub struct PatOrView {
    pub attrs: Seq<AttributeView>,
    pub leading_vert: bool,
    pub cases: Seq<PatView>,
}

/// The value of a [`PatPath`].
pub struct PatPathView {
    pub attrs: Seq<AttributeView>,
    pub qself: Option<QSelfView>,
    pub path: PathView,
}

/// The value of a [`PatRange`].
pub struct PatRangeView {
    pub attrs: Seq<AttributeView>,
    pub lo: ExprView,
    pub limits: RangeLimits,
    pub hi: ExprView,
}

/// The value of a [`PatReference`].
pub struct PatReferenceView {
    pub attrs: Seq<AttributeView>,
    pub mutability: bool,
    pub pat: Box<PatView>,
}

/// The value of a [`PatRest`].
pub struct PatRestView {
    pub attrs: Seq<AttributeView>,
}

/// The value of a [`PatSlice`].
pub struct PatSliceView {
    pub attrs: Seq<AttributeView>,
    pub elems: Seq<PatView>,
    pub trailing_comma: bool,
}

/// The value of a [`PatStruct`].
pub struct PatStructView {
    pub attrs: Seq<AttributeView>,
    pub path: PathView,
    pub fields: Seq<FieldPatView>,
    pub trailing_comma: bool,
    pub dot2_token: bool,
}

/// The value of a [`PatTuple`].
pub struct PatTupleView {
    pub attrs: Seq<AttributeView>,
    pub elems: Seq<PatView>,
    pub trailing_comma: bool,
}

/// The value of a [`PatTupleStruct`].
pub struct PatTupleStructView {
    pub attrs: Seq<AttributeView>,
    pub path: PathView,
    pub pat: PatTupleView,
}

/// The value of a [`PatType`].
pub struct PatTypeView {
    pub attrs: Seq<AttributeView>,
    pub pat: Box<PatView>,
    pub ty: Tokens,
}

/// The value of a [`PatWild`].
pub struct PatWildView {
    pub attrs: Seq<AttributeView>,
}

/// The value of a [`FieldPat`].
pub struct FieldPatView {
    pub attrs: Seq<AttributeView>,
    pub member: MemberView,
    pub colon_token: bool,
    pub pat: Box<PatView>,
}

/// The value of a [`Pat`].
pub enum PatView {
    Box(PatBoxView),
    Ident(PatIdentView),
    Lit(PatLitView),
    Macro(PatMacroView),
    Or(PatOrView),
    Path(PatPathView),
    Range(PatRangeView),
    Reference(PatReferenceView),
    Rest(PatRestView),
    Slice(PatSliceView),
    Struct(PatStructView),
    Tuple(PatTupleView),
    TupleStruct(PatTupleStructView),
    Type(PatTypeView),
    Verbatim(Tokens),
    Wild(PatWildView),
}

/// The value of a pattern.
pub open spec fn pat_view(p: Pat) -> PatView
    decreases p,
{
    match p {
        Pat::Box(x) => PatView::Box(
            PatBoxView { attrs: views(x.attrs@), pat: Box::new(pat_view(*x.pat)) },
        ),
        Pat::Ident(x) => PatView::Ident(
            PatIdentView {
                attrs: views(x.attrs@),
                by_ref: x.by_ref,
                mutability: x.mutability,
                ident: x.ident@,
                subpat: match x.subpat {
                    Some(sub) => Some(Box::new(pat_view(*sub))),
                    None => None,
                },
            },
        ),
        Pat::Lit(x) => PatView::Lit(PatLitView { attrs: views(x.attrs@), expr: expr_view(*x.expr) }),
        Pat::Macro(x) => PatView::Macro(PatMacroView { attrs: views(x.attrs@), mac: x.mac@ }),
        Pat::Or(x) => PatView::Or(
            PatOrView {
                attrs: views(x.attrs@),
                leading_vert: x.leading_vert,
                cases: pats_view(x.cases@),
            },
        ),
        Pat::Path(x) => PatView::Path(
            PatPathView { attrs: views(x.attrs@), qself: qself_view(x.qself), path: x.path@ },
        ),
        Pat::Range(x) => PatView::Range(
            PatRangeView {
                attrs: views(x.attrs@),
                lo: expr_view(*x.lo),
                limits: x.limits,
                hi: expr_view(*x.hi),
            },
        ),
        Pat::Reference(x) => PatView::Reference(
            PatReferenceView {
                attrs: views(x.attrs@),
                mutability: x.mutability,
                pat: Box::new(pat_view(*x.pat)),
            },
        ),
        Pat::Rest(x) => PatView::Rest(PatRestView { attrs: views(x.attrs@) }),
        Pat::Slice(x) => PatView::Slice(
            PatSliceView {
                attrs: views(x.attrs@),
                elems: pats_view(x.elems@),
                trailing_comma: x.trailing_comma,
            },
        ),
        Pat::Struct(x) => PatView::Struct(
            PatStructView {
                attrs: views(x.attrs@),
                path: x.path@,
                fields: fields_view(x.fields@),
                trailing_comma: x.trailing_comma,
                dot2_token: x.dot2_token,
            },
        ),
        Pat::Tuple(x) => PatView::Tuple(
            PatTupleView {
                attrs: views(x.attrs@),
                elems: pats_view(x.elems@),
                trailing_comma: x.trailing_comma,
            },
        ),
        Pat::TupleStruct(x) => PatView::TupleStruct(
            PatTupleStructView {
                attrs: views(x.attrs@),
                path: x.path@,
                pat: PatTupleView {
                    attrs: views(x.pat.attrs@),
                    elems: pats_view(x.pat.elems@),
                    trailing_comma: x.pat.trailing_comma,
                },
            },
        ),
        Pat::Type(x) => PatView::Type(
            PatTypeView {
                attrs: views(x.attrs@),
                pat: Box::new(pat_view(*x.pat)),
                ty: trees_view(x.ty@),
            },
        ),
        Pat::Verbatim(ts) => PatView::Verbatim(trees_view(ts@)),
        Pat::Wild(x) => PatView::Wild(PatWildView { attrs: views(x.attrs@) }),
    }
}

/// The values of a run of patterns, element by element.
pub open spec fn pats_view(ps: Seq<Pat>) -> Seq<PatView>
    decreases ps,
{
    Seq::new(
        ps.len(),
        |i: int|
            if 0 <= i < ps.len() {
                pat_view(ps[i])
            } else {
                PatView::Verbatim(Seq::empty())
            },
    )
}

/// The value of a field pattern.
pub open spec fn field_view(f: FieldPat) -> FieldPatView
    decreases f,
{
    FieldPatView {
        attrs: views(f.attrs@),
        member: f.member@,
        colon_token: f.colon_token,
        pat: Box::new(pat_view(*f.pat)),
    }
}

/// The values of a run of field patterns, element by element.
pub open spec fn fields_view(fs: Seq<FieldPat>) -> Seq<FieldPatView>
    decreases fs,
{
    Seq::new(
        fs.len(),
        |i: int|
            if 0 <= i < fs.len() {
                field_view(fs[i])
            } else {
                FieldPatView {
                    attrs: Seq::empty(),
                    member: MemberView::Unnamed(0),
                    colon_token: false,
                    pat: Box::new(PatView::Verbatim(Seq::empty())),
                }
            },
    )
}

impl View for Pat {
    type V = PatView;

    open spec fn view(&self) -> PatView {
        pat_view(*self)
    }
}

impl View for FieldPat {
    type V = FieldPatView;

    open spec fn view(&self) -> FieldPatView {
        field_view(*self)
    }
}

impl View for PatBox {
    type V = PatBoxView;

    open spec fn view(&self) -> PatBoxView {
        PatBoxView { attrs: views(self.attrs@), pat: Box::new(pat_view(*self.pat)) }
    }
}

impl View for PatIdent {
    type V = PatIdentView;

    open spec fn view(&self) -> PatIdentView {
        PatIdentView {
            attrs: views(self.attrs@),
            by_ref: self.by_ref,
            mutability: self.mutability,
            ident: self.ident@,
            subpat: match self.subpat {
                Some(sub) => Some(Box::new(pat_view(*sub))),
                None => None,
            },
        }
    }
}

impl View for PatLit {
    type V = PatLitView;

    open spec fn view(&self) -> PatLitView {
        PatLitView { attrs: views(self.attrs@), expr: expr_view(*self.expr) }
    }
}

impl View for PatMacro {
    type V = PatMacroView;

    open spec fn view(&self) -> PatMacroView {
        PatMacroView { attrs: views(self.attrs@), mac: self.mac@ }
    }
}

impl View for PatOr {
    type V = PatOrView;

    open spec fn view(&self) -> PatOrView {
        PatOrView {
            attrs: views(self.attrs@),
            leading_vert: self.leading_vert,
            cases: pats_view(self.cases@),
        }
    }
}

impl View for PatPath {
    type V = PatPathView;

    open spec fn view(&self) -> PatPathView {
        PatPathView { attrs: views(self.attrs@), qself: qself_view(self.qself), path: self.path@ }
    }
}

impl View for PatRange {
    type V = PatRangeView;

    open spec fn view(&self) -> PatRangeView {
        PatRangeView {
            attrs: views(self.attrs@),
            lo: expr_view(*self.lo),
            limits: self.limits,
            hi: expr_view(*self.hi),
        }
    }
}

impl View for PatReference {
    type V = PatReferenceView;

    open spec fn view(&self) -> PatReferenceView {
        PatReferenceView {
            attrs: views(self.attrs@),
            mutability: self.mutability,
            pat: Box::new(pat_view(*self.pat)),
        }
    }
}

impl View for PatRest {
    type V = PatRestView;

    open spec fn view(&self) -> PatRestView {
        PatRestView { attrs: views(self.attrs@) }
    }
}

impl View for PatSlice {
    type V = PatSliceView;

    open spec fn view(&self) -> PatSliceView {
        PatSliceView {
            attrs: views(self.attrs@),
            elems: pats_view(self.elems@),
            trailing_comma: self.trailing_comma,
        }
    }
}

impl View for PatStruct {
    type V = PatStructView;

    open spec fn view(&self) -> PatStructView {
        PatStructView {
            attrs: views(self.attrs@),
            path: self.path@,
            fields: fields_view(self.fields@),
            trailing_comma: self.trailing_comma,
            dot2_token: self.dot2_token,
        }
    }
}

impl View for PatTuple {
    type V = PatTupleView;

    open spec fn view(&self) -> PatTupleView {
        PatTupleView {
            attrs: views(self.attrs@),
            elems: pats_view(self.elems@),
            trailing_comma: self.trailing_comma,
        }
    }
}

impl View for PatTupleStruct {
    type V = PatTupleStructView;

    open spec fn view(&self) -> PatTupleStructView {
        PatTupleStructView { attrs: views(self.attrs@), path: self.path@, pat: self.pat@ }
    }
}

impl View for PatType {
    type V = PatTypeView;

    open spec fn view(&self) -> PatTypeView {
        PatTypeView {
            attrs: views(self.attrs@),
            pat: Box::new(pat_view(*self.pat)),
            ty: trees_view(self.ty@),
        }
    }
}

impl View for PatWild {
    type V = PatWildView;

    open spec fn view(&self) -> PatWildView {
        PatWildView { attrs: views(self.attrs@) }
    }
}

} // verus!
