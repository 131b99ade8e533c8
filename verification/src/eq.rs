//! Equality of syntax trees: two trees are the same when they have the same
//! value, token for token and field for field.

use crate::ast::{
    Attribute, Expr, ExprPath, FieldPat, Lit, Macro, Member, Pat, PatBox, Path, PathArguments,
    PathSegment, PatIdent, PatLit, PatMacro, PatOr, PatPath, PatRange, PatReference, PatRest,
    PatSlice, PatStruct, PatTuple, PatTupleStruct, PatType, PatWild, QSelf, fields_view, pats_view,
    qself_view, views,
};
use crate::token::{TokenTree, same_text, tree_view, trees_view};
use vstd::prelude::*;

verus! {

// ---------------------------------------------------------------------
// Tokens
// ---------------------------------------------------------------------

/// Whether two tokens have the same value.
pub fn tree_same(a: &TokenTree, b: &TokenTree) -> (r: bool)
    ensures
        r == (a@ == b@),
    decreases *a,
{
    match a {
        TokenTree::Ident(x) => match b {
            TokenTree::Ident(y) => same_text(x.as_str(), y.as_str()),
            _ => false,
        },
        TokenTree::Punct(c, j) => match b {
            TokenTree::Punct(d, k) => *c == *d && *j == *k,
            _ => false,
        },
        TokenTree::Literal(x) => match b {
            TokenTree::Literal(y) => same_text(x.as_str(), y.as_str()),
            _ => false,
        },
        TokenTree::Group(d, xs) => match b {
            TokenTree::Group(e, ys) => *d == *e && trees_same(xs, ys),
            _ => false,
        },
    }
}

/// Whether two runs of tokens have the same value.
pub fn trees_same(a: &Vec<TokenTree>, b: &Vec<TokenTree>) -> (r: bool)
    ensures
        r == (trees_view(a@) == trees_view(b@)),
    decreases a@,
{
    if a.len() != b.len() {
        assert(trees_view(a@).len() != trees_view(b@).len());
        return false;
    }
    let mut i: usize = 0;
    while i < a.len()
        invariant
            i <= a.len(),
            a.len() == b.len(),
            forall|j: int| 0 <= j < i ==> tree_view(a@[j]) == tree_view(b@[j]),
        decreases a.len() - i,
    {
        if !tree_same(&a[i], &b[i]) {
            assert(trees_view(a@)[i as int] != trees_view(b@)[i as int]);
            return false;
        }
        i = i + 1;
    }
    assert(trees_view(a@) =~= trees_view(b@));
    true
}

// ---------------------------------------------------------------------
// Attributes, paths, expressions
// ---------------------------------------------------------------------

impl Attribute {
    /// Whether the two have the same value.
    pub fn same(&self, other: &Attribute) -> (r: bool)
        ensures
            r == (self@ == other@),
    {
        self.style == other.style && trees_same(&self.tokens, &other.tokens)
    }
}

/// Whether two lists of attributes have the same value.
pub fn attrs_same(a: &Vec<Attribute>, b: &Vec<Attribute>) -> (r: bool)
    ensures
        r == (views(a@) == views(b@)),
{
    if a.len() != b.len() {
        assert(views(a@).len() != views(b@).len());
        return false;
    }
    let mut i: usize = 0;
    while i < a.len()
        invariant
            i <= a.len(),
            a.len() == b.len(),
            forall|j: int| 0 <= j < i ==> a@[j]@ == b@[j]@,
        decreases a.len() - i,
    {
        if !a[i].same(&b[i]) {
            assert(views(a@)[i as int] != views(b@)[i as int]);
            return false;
        }
        i = i + 1;
    }
    assert(views(a@) =~= views(b@));
    true
}

impl PathArguments {
    /// Whether the two have the same value.
    pub fn same(&self, other: &PathArguments) -> (r: bool)
        ensures
            r == (self@ == other@),
    {
        match self {
            PathArguments::Empty => match other {
                PathArguments::Empty => true,
                _ => false,
            },
            PathArguments::AngleBracketed(xs) => match other {
                PathArguments::AngleBracketed(ys) => trees_same(xs, ys),
                _ => false,
            },
        }
    }
}

impl PathSegment {
    /// Whether the two have the same value.
    pub fn same(&self, other: &PathSegment) -> (r: bool)
        ensures
            r == (self@ == other@),
    {
        same_text(self.ident.as_str(), other.ident.as_str()) && self.arguments.same(
            &other.arguments,
        )
    }
}

/// Whether two lists of path segments have the same value.
pub fn segments_same(a: &Vec<PathSegment>, b: &Vec<PathSegment>) -> (r: bool)
    ensures
        r == (views(a@) == views(b@)),
{
    if a.len() != b.len() {
        assert(views(a@).len() != views(b@).len());
        return false;
    }
    let mut i: usize = 0;
    while i < a.len()
        invariant
            i <= a.len(),
            a.len() == b.len(),
            forall|j: int| 0 <= j < i ==> a@[j]@ == b@[j]@,
        decreases a.len() - i,
    {
        if !a[i].same(&b[i]) {
            assert(views(a@)[i as int] != views(b@)[i as int]);
            return false;
        }
        i = i + 1;
    }
    assert(views(a@) =~= views(b@));
    true
}

impl Path {
    /// Whether the two have the same value.
    pub fn same(&self, other: &Path) -> (r: bool)
        ensures
            r == (self@ == other@),
    {
        self.leading_colon == other.leading_colon && segments_same(&self.segments, &other.segments)
    }
}

/// Whether two optional qualified selves have the same value.
pub fn qself_same(a: &Option<QSelf>, b: &Option<QSelf>) -> (r: bool)
    ensures
        r == (qself_view(*a) == qself_view(*b)),
{
    match a {
        Some(x) => match b {
            Some(y) => trees_same(&x.tokens, &y.tokens),
            None => false,
        },
        None => match b {
            Some(_) => false,
            None => true,
        },
    }
}

impl Lit {
    /// Whether the two have the same value.
    pub fn same(&self, other: &Lit) -> (r: bool)
        ensures
            r == (self@ == other@),
    {
        match self {
            Lit::Bool(x) => match other {
                Lit::Bool(y) => *x == *y,
                _ => false,
            },
            Lit::Verbatim(x) => match other {
                Lit::Verbatim(y) => same_text(x.as_str(), y.as_str()),
                _ => false,
            },
        }
    }
}

impl ExprPath {
    /// Whether the two have the same value.
    pub fn same(&self, other: &ExprPath) -> (r: bool)
        ensures
            r == (self@ == other@),
    {
        qself_same(&self.qself, &other.qself) && self.path.same(&other.path)
    }
}

impl Expr {
    /// Whether the two have the same value.
    pub fn same(&self, other: &Expr) -> (r: bool)
        ensures
            r == (self@ == other@),
        decreases self,
    {
        match self {
            Expr::Lit(x) => match other {
                Expr::Lit(y) => x.same(y),
                _ => false,
            },
            Expr::Path(x) => match other {
                Expr::Path(y) => x.same(y),
                _ => false,
            },
            Expr::Unary(op, x) => match other {
                Expr::Unary(oq, y) => *op == *oq && x.same(y),
                _ => false,
            },
        }
    }
}

impl Macro {
    /// Whether the two have the same value.
    pub fn same(&self, other: &Macro) -> (r: bool)
        ensures
            r == (self@ == other@),
    {
        self.path.same(&other.path) && self.delimiter == other.delimiter && trees_same(
            &self.tokens,
            &other.tokens,
        )
    }
}

impl Member {
    /// Whether the two have the same value.
    pub fn same(&self, other: &Member) -> (r: bool)
        ensures
            r == (self@ == other@),
    {
        match self {
            Member::Named(x) => match other {
                Member::Named(y) => same_text(x.as_str(), y.as_str()),
                _ => false,
            },
            Member::Unnamed(x) => match other {
                Member::Unnamed(y) => *x == *y,
                _ => false,
            },
        }
    }
}

// ---------------------------------------------------------------------
// Patterns
// ---------------------------------------------------------------------

impl PatWild {
    /// Whether the two have the same value.
    pub fn same(&self, other: &PatWild) -> (r: bool)
        ensures
            r == (self@ == other@),
    {
        attrs_same(&self.attrs, &other.attrs)
    }
}

impl PatRest {
    /// Whether the two have the same value.
    pub fn same(&self, other: &PatRest) -> (r: bool)
        ensures
            r == (self@ == other@),
    {
        attrs_same(&self.attrs, &other.attrs)
    }
}

impl PatLit {
    /// Whether the two have the same value.
    pub fn same(&self, other: &PatLit) -> (r: bool)
        ensures
            r == (self@ == other@),
    {
        attrs_same(&self.attrs, &other.attrs) && self.expr.same(&other.expr)
    }
}

impl PatRange {
    /// Whether the two have the same value.
    pub fn same(&self, other: &PatRange) -> (r: bool)
        ensures
            r == (self@ == other@),
    {
        attrs_same(&self.attrs, &other.attrs) && self.lo.same(&other.lo) && self.limits
            == other.limits && self.hi.same(&other.hi)
    }
}

impl PatPath {
    /// Whether the two have the same value.
    pub fn same(&self, other: &PatPath) -> (r: bool)
        ensures
            r == (self@ == other@),
    {
        attrs_same(&self.attrs, &other.attrs) && qself_same(&self.qself, &other.qself)
            && self.path.same(&other.path)
    }
}

impl PatMacro {
    /// Whether the two have the same value.
    pub fn same(&self, other: &PatMacro) -> (r: bool)
        ensures
            r == (self@ == other@),
    {
        attrs_same(&self.attrs, &other.attrs) && self.mac.same(&other.mac)
    }
}

impl PatBox {
    /// Whether the two have the same value.
    pub fn same(&self, other: &PatBox) -> (r: bool)
        ensures
            r == (self@ == other@),
        decreases self,
    {
        attrs_same(&self.attrs, &other.attrs) && self.pat.same(&other.pat)
    }
}

impl PatIdent {
    /// Whether the two have the same value.
    pub fn same(&self, other: &PatIdent) -> (r: bool)
        ensures
            r == (self@ == other@),
        decreases self,
    {
        let sub = match &self.subpat {
            Some(x) => match &other.subpat {
                Some(y) => x.same(y),
                None => false,
            },
            None => match &other.subpat {
                Some(_) => false,
                None => true,
            },
        };
        sub && attrs_same(&self.attrs, &other.attrs) && self.by_ref == other.by_ref
            && self.mutability == other.mutability && same_text(
            self.ident.as_str(),
            other.ident.as_str(),
        )
    }
}

impl PatReference {
    /// Whether the two have the same value.
    pub fn same(&self, other: &PatReference) -> (r: bool)
        ensures
            r == (self@ == other@),
        decreases self,
    {
        attrs_same(&self.attrs, &other.attrs) && self.mutability == other.mutability
            && self.pat.same(&other.pat)
    }
}

impl PatType {
    /// Whether the two have the same value.
    pub fn same(&self, other: &PatType) -> (r: bool)
        ensures
            r == (self@ == other@),
        decreases self,
    {
        attrs_same(&self.attrs, &other.attrs) && self.pat.same(&other.pat) && trees_same(
            &self.ty,
            &other.ty,
        )
    }
}

/// Whether two lists of patterns have the same value.
pub fn pats_same(a: &Vec<Pat>, b: &Vec<Pat>) -> (r: bool)
    ensures
        r == (pats_view(a@) == pats_view(b@)),
    decreases a,
{
    if a.len() != b.len() {
        assert(pats_view(a@).len() != pats_view(b@).len());
        return false;
    }
    let mut i: usize = 0;
    while i < a.len()
        invariant
            i <= a.len(),
            a.len() == b.len(),
            forall|j: int| 0 <= j < i ==> a@[j]@ == b@[j]@,
        decreases a.len() - i,
    {
        if !a[i].same(&b[i]) {
            assert(pats_view(a@)[i as int] != pats_view(b@)[i as int]);
            return false;
        }
        i = i + 1;
    }
    assert(pats_view(a@) =~= pats_view(b@));
    true
}

impl PatTuple {
    /// Whether the two have the same value.
    pub fn same(&self, other: &PatTuple) -> (r: bool)
        ensures
            r == (self@ == other@),
        decreases self,
    {
        attrs_same(&self.attrs, &other.attrs) && self.trailing_comma == other.trailing_comma
            && pats_same(&self.elems, &other.elems)
    }
}

impl PatSlice {
    /// Whether the two have the same value.
    pub fn same(&self, other: &PatSlice) -> (r: bool)
        ensures
            r == (self@ == other@),
        decreases self,
    {
        attrs_same(&self.attrs, &other.attrs) && self.trailing_comma == other.trailing_comma
            && pats_same(&self.elems, &other.elems)
    }
}

impl PatTupleStruct {
    /// Whether the two have the same value.
    pub fn same(&self, other: &PatTupleStruct) -> (r: bool)
        ensures
            r == (self@ == other@),
        decreases self,
    {
        attrs_same(&self.attrs, &other.attrs) && self.path.same(&other.path) && self.pat.same(
            &other.pat,
        )
    }
}

impl PatOr {
    /// Whether the two have the same value.
    pub fn same(&self, other: &PatOr) -> (r: bool)
        ensures
            r == (self@ == other@),
        decreases self,
    {
        attrs_same(&self.attrs, &other.attrs) && self.leading_vert == other.leading_vert
            && pats_same(&self.cases, &other.cases)
    }
}

impl FieldPat {
    /// Whether the two have the same value.
    pub fn same(&self, other: &FieldPat) -> (r: bool)
        ensures
            r == (self@ == other@),
        decreases self,
    {
        attrs_same(&self.attrs, &other.attrs) && self.member.same(&other.member)
            && self.colon_token == other.colon_token && self.pat.same(&other.pat)
    }
}

/// Whether two lists of field patterns have the same value.
pub fn fields_same(a: &Vec<FieldPat>, b: &Vec<FieldPat>) -> (r: bool)
    ensures
        r == (fields_view(a@) == fields_view(b@)),
    decreases a,
{
    if a.len() != b.len() {
        assert(fields_view(a@).len() != fields_view(b@).len());
        return false;
    }
    let mut i: usize = 0;
    while i < a.len()
        invariant
            i <= a.len(),
            a.len() == b.len(),
            forall|j: int| 0 <= j < i ==> a@[j]@ == b@[j]@,
        decreases a.len() - i,
    {
        if !a[i].same(&b[i]) {
            assert(fields_view(a@)[i as int] != fields_view(b@)[i as int]);
            return false;
        }
        i = i + 1;
    }
    assert(fields_view(a@) =~= fields_view(b@));
    true
}

impl PatStruct {
    /// Whether the two have the same value.
    pub fn same(&self, other: &PatStruct) -> (r: bool)
        ensures
            r == (self@ == other@),
        decreases self,
    {
        attrs_same(&self.attrs, &other.attrs) && self.path.same(&other.path)
            && self.trailing_comma == other.trailing_comma && self.dot2_token == other.dot2_token
            && fields_same(&self.fields, &other.fields)
    }
}

impl Pat {
    /// Whether two patterns have the same value: the same variant, and in
    /// it the same fields.
    pub fn same(&self, other: &Pat) -> (r: bool)
        ensures
            r == (self@ == other@),
        decreases self,
    {
        match self {
            Pat::Box(x) => match other {
                Pat::Box(y) => x.same(y),
                _ => false,
            },
            Pat::Ident(x) => match other {
                Pat::Ident(y) => x.same(y),
                _ => false,
            },
            Pat::Lit(x) => match other {
                Pat::Lit(y) => x.same(y),
                _ => false,
            },
            Pat::Macro(x) => match other {
                Pat::Macro(y) => x.same(y),
                _ => false,
            },
            Pat::Or(x) => match other {
                Pat::Or(y) => x.same(y),
                _ => false,
            },
            Pat::Path(x) => match other {
                Pat::Path(y) => x.same(y),
                _ => false,
            },
            Pat::Range(x) => match other {
                Pat::Range(y) => x.same(y),
                _ => false,
            },
            Pat::Reference(x) => match other {
                Pat::Reference(y) => x.same(y),
                _ => false,
            },
            Pat::Rest(x) => match other {
                Pat::Rest(y) => x.same(y),
                _ => false,
            },
            Pat::Slice(x) => match other {
                Pat::Slice(y) => x.same(y),
                _ => false,
            },
            Pat::Struct(x) => match other {
                Pat::Struct(y) => x.same(y),
                _ => false,
            },
            Pat::Tuple(x) => match other {
                Pat::Tuple(y) => x.same(y),
                _ => false,
            },
            Pat::TupleStruct(x) => match other {
                Pat::TupleStruct(y) => x.same(y),
                _ => false,
            },
            Pat::Type(x) => match other {
                Pat::Type(y) => x.same(y),
                _ => false,
            },
            Pat::Verbatim(x) => match other {
                Pat::Verbatim(y) => trees_same(x, y),
                _ => false,
            },
            Pat::Wild(x) => match other {
                Pat::Wild(y) => x.same(y),
                _ => false,
            },
        }
    }
}

} // verus!
