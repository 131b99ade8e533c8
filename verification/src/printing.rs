//! The printer: appends the tokens of a syntax tree to a token sequence.
//!
//! Every `to_tokens` leaves what the sequence held before in place and adds
//! exactly the tokens that [`crate::layout`] gives for the node.

use crate::ast::{
    Attribute, AttrStyle, Expr, FieldPat, Lit, Macro, MacroDelimiter, Member, Pat, PatBox, Path,
    PathArguments, PathSegment, PatIdent, PatLit, PatMacro, PatOr, PatPath, PatRange, PatReference,
    PatRest, PatSlice, PatStruct, PatTuple, PatTupleStruct, PatType, PatView, PatWild, QSelf,
    RangeLimits, fields_view, pats_view, qself_view, views,
};
use crate::index::index_text;
use crate::layout;
use crate::token::{Delimiter, TokenTree, clone_tree, lemma_trees_view_push, trees_view};
use vstd::prelude::*;
use vstd::string::StringExecFns;

verus! {

// ---------------------------------------------------------------------
// Single tokens
// ---------------------------------------------------------------------

/// Appends one token.
pub fn push_tree(tokens: &mut Vec<TokenTree>, t: TokenTree)
    ensures
        trees_view(final(tokens)@) == trees_view(old(tokens)@) + seq![t@],
{
    proof {
        lemma_trees_view_push(tokens@, t);
        assert(trees_view(tokens@).push(t@) =~= trees_view(tokens@) + seq![t@]);
    }
    tokens.push(t);
}

/// Appends the word `w`.
pub fn push_word(tokens: &mut Vec<TokenTree>, w: &str)
    ensures
        trees_view(final(tokens)@) == trees_view(old(tokens)@) + layout::word(w@),
{
    push_tree(tokens, TokenTree::Ident(String::from_str(w)));
}

/// Appends the punctuation character `c`, standing alone.
pub fn push_punct(tokens: &mut Vec<TokenTree>, c: char)
    ensures
        trees_view(final(tokens)@) == trees_view(old(tokens)@) + layout::punct(c),
{
    push_tree(tokens, TokenTree::Punct(c, false));
}

/// Appends `::`.
pub fn push_colon2(tokens: &mut Vec<TokenTree>)
    ensures
        trees_view(final(tokens)@) == trees_view(old(tokens)@) + layout::colon2(),
{
    push_tree(tokens, TokenTree::Punct(':', true));
    push_tree(tokens, TokenTree::Punct(':', false));
    assert(trees_view(tokens@) =~= trees_view(old(tokens)@) + layout::colon2());
}

/// Appends `..`.
pub fn push_dot2(tokens: &mut Vec<TokenTree>)
    ensures
        trees_view(final(tokens)@) == trees_view(old(tokens)@) + layout::dot2(),
{
    push_tree(tokens, TokenTree::Punct('.', true));
    push_tree(tokens, TokenTree::Punct('.', false));
    assert(trees_view(tokens@) =~= trees_view(old(tokens)@) + layout::dot2());
}

/// Appends `..=`.
pub fn push_dot2_eq(tokens: &mut Vec<TokenTree>)
    ensures
        trees_view(final(tokens)@) == trees_view(old(tokens)@) + layout::dot2_eq(),
{
    push_tree(tokens, TokenTree::Punct('.', true));
    push_tree(tokens, TokenTree::Punct('.', true));
    push_tree(tokens, TokenTree::Punct('=', false));
    assert(trees_view(tokens@) =~= trees_view(old(tokens)@) + layout::dot2_eq());
}

/// Appends a group that holds `inner`.
pub fn push_group(tokens: &mut Vec<TokenTree>, d: Delimiter, inner: Vec<TokenTree>)
    ensures
        trees_view(final(tokens)@) == trees_view(old(tokens)@) + layout::group(
            d,
            trees_view(inner@),
        ),
{
    push_tree(tokens, TokenTree::Group(d, inner));
}

/// Appends copies of the tokens `ts`.
pub fn append_trees(tokens: &mut Vec<TokenTree>, ts: &Vec<TokenTree>)
    ensures
        trees_view(final(tokens)@) == trees_view(old(tokens)@) + trees_view(ts@),
{
    let ghost before = trees_view(tokens@);
    let mut i: usize = 0;
    assert(before + trees_view(ts@).take(0) =~= before);
    while i < ts.len()
        invariant
            i <= ts.len(),
            trees_view(tokens@) == before + trees_view(ts@).take(i as int),
        decreases ts.len() - i,
    {
        let t = clone_tree(&ts[i]);
        push_tree(tokens, t);
        assert(before + trees_view(ts@).take(i as int) + seq![t@] =~= before + trees_view(
            ts@,
        ).take(i + 1));
        i = i + 1;
    }
    assert(trees_view(ts@).take(ts.len() as int) =~= trees_view(ts@));
}

// ---------------------------------------------------------------------
// Attributes, paths, expressions
// ---------------------------------------------------------------------

impl Attribute {
    /// Appends the tokens of the node to `tokens`.
    pub fn to_tokens(&self, tokens: &mut Vec<TokenTree>)
        ensures
            trees_view(final(tokens)@) == trees_view(old(tokens)@) + layout::attr(self@),
    {
        match self.style {
            AttrStyle::Outer => {
                push_punct(tokens, '#');
                let mut inner: Vec<TokenTree> = Vec::new();
                append_trees(&mut inner, &self.tokens);
                assert(trees_view(inner@) =~= trees_view(self.tokens@));
                push_group(tokens, Delimiter::Bracket, inner);
                assert(trees_view(tokens@) =~= trees_view(old(tokens)@) + layout::attr(self@));
            },
            AttrStyle::Inner => {
                assert(trees_view(tokens@) =~= trees_view(old(tokens)@) + layout::attr(self@));
            },
        }
    }
}

/// Appends the outer attributes among `attrs`.
pub fn attrs_to_tokens(attrs: &Vec<Attribute>, tokens: &mut Vec<TokenTree>)
    ensures
        trees_view(final(tokens)@) == trees_view(old(tokens)@) + layout::attrs(views(attrs@)),
{
    let ghost before = trees_view(tokens@);
    let ghost all = views(attrs@);
    let mut i: usize = 0;
    assert(all.skip(0) =~= all);
    while i < attrs.len()
        invariant
            i <= attrs.len(),
            all == views(attrs@),
            trees_view(tokens@) + layout::attrs(all.skip(i as int)) == before + layout::attrs(all),
        decreases attrs.len() - i,
    {
        let ghost shown = trees_view(tokens@);
        attrs[i].to_tokens(tokens);
        proof {
            let rest = all.skip(i as int);
            assert(rest[0] == attrs@[i as int]@);
            assert(rest.skip(1) =~= all.skip(i + 1));
            assert(shown + (layout::attr(rest[0]) + layout::attrs(rest.skip(1))) =~= (shown
                + layout::attr(rest[0])) + layout::attrs(rest.skip(1)));
        }
        i = i + 1;
    }
    assert(trees_view(tokens@) + Seq::empty() =~= trees_view(tokens@));
}

impl PathSegment {
    /// Appends the tokens of the node to `tokens`.
    pub fn to_tokens(&self, tokens: &mut Vec<TokenTree>)
        ensures
            trees_view(final(tokens)@) == trees_view(old(tokens)@) + layout::path_segment(self@),
    {
        push_tree(tokens, TokenTree::Ident(self.ident.clone()));
        match &self.arguments {
            PathArguments::Empty => {},
            PathArguments::AngleBracketed(ts) => {
                push_colon2(tokens);
                push_punct(tokens, '<');
                append_trees(tokens, ts);
                push_punct(tokens, '>');
            },
        }
        assert(trees_view(tokens@) =~= trees_view(old(tokens)@) + layout::path_segment(self@));
    }
}

/// Appends path segments joined by `::`.
pub fn path_segments_to_tokens(segments: &Vec<PathSegment>, tokens: &mut Vec<TokenTree>)
    ensures
        trees_view(final(tokens)@) == trees_view(old(tokens)@) + layout::path_segments(
            views(segments@),
        ),
{
    let ghost before = trees_view(tokens@);
    let ghost all = views(segments@);
    let mut i: usize = 0;
    assert(all.skip(0) =~= all);
    while i < segments.len()
        invariant
            i <= segments.len(),
            all == views(segments@),
            trees_view(tokens@) + layout::path_segments(all.skip(i as int)) == before
                + layout::path_segments(all),
        decreases segments.len() - i,
    {
        let ghost shown = trees_view(tokens@);
        segments[i].to_tokens(tokens);
        if i + 1 < segments.len() {
            push_colon2(tokens);
        }
        proof {
            let rest = all.skip(i as int);
            assert(rest[0] == segments@[i as int]@);
            assert(rest.skip(1) =~= all.skip(i + 1));
            let head = layout::path_segment(rest[0]) + layout::opt(
                rest.len() > 1,
                layout::colon2(),
            );
            assert(trees_view(tokens@) =~= shown + head);
            assert(shown + (head + layout::path_segments(rest.skip(1))) =~= (shown + head)
                + layout::path_segments(rest.skip(1)));
        }
        i = i + 1;
    }
    assert(trees_view(tokens@) + Seq::empty() =~= trees_view(tokens@));
}

impl Path {
    /// Appends the tokens of the node to `tokens`.
    pub fn to_tokens(&self, tokens: &mut Vec<TokenTree>)
        ensures
            trees_view(final(tokens)@) == trees_view(old(tokens)@) + layout::path(self@),
    {
        if self.leading_colon {
            push_colon2(tokens);
        }
        path_segments_to_tokens(&self.segments, tokens);
        assert(trees_view(tokens@) =~= trees_view(old(tokens)@) + layout::path(self@));
    }
}

/// Appends a path with its qualified self, if it has one.
pub fn print_path(tokens: &mut Vec<TokenTree>, qself: &Option<QSelf>, path: &Path)
    ensures
        trees_view(final(tokens)@) == trees_view(old(tokens)@) + layout::qpath(
            qself_view(*qself),
            path@,
        ),
{
    match qself {
        Some(q) => {
            push_punct(tokens, '<');
            append_trees(tokens, &q.tokens);
            push_punct(tokens, '>');
            path.to_tokens(tokens);
        },
        None => {
            path.to_tokens(tokens);
        },
    }
    assert(trees_view(tokens@) =~= trees_view(old(tokens)@) + layout::qpath(
        qself_view(*qself),
        path@,
    ));
}

impl Lit {
    /// Appends the tokens of the node to `tokens`.
    pub fn to_tokens(&self, tokens: &mut Vec<TokenTree>)
        ensures
            trees_view(final(tokens)@) == trees_view(old(tokens)@) + layout::lit(self@),
    {
        match self {
            Lit::Bool(b) => {
                if *b {
                    push_word(tokens, "true");
                } else {
                    push_word(tokens, "false");
                }
            },
            Lit::Verbatim(w) => {
                push_tree(tokens, TokenTree::Literal(w.clone()));
            },
        }
    }
}

impl Expr {
    /// Appends the tokens of the node to `tokens`.
    pub fn to_tokens(&self, tokens: &mut Vec<TokenTree>)
        ensures
            trees_view(final(tokens)@) == trees_view(old(tokens)@) + layout::expr(self@),
        decreases self,
    {
        match self {
            Expr::Lit(l) => {
                l.to_tokens(tokens);
            },
            Expr::Path(p) => {
                print_path(tokens, &p.qself, &p.path);
            },
            Expr::Unary(_, inner) => {
                push_punct(tokens, '-');
                inner.to_tokens(tokens);
                assert(trees_view(tokens@) =~= trees_view(old(tokens)@) + layout::expr(self@));
            },
        }
    }
}

impl RangeLimits {
    /// Appends the tokens of the node to `tokens`.
    pub fn to_tokens(&self, tokens: &mut Vec<TokenTree>)
        ensures
            trees_view(final(tokens)@) == trees_view(old(tokens)@) + layout::range_limits(*self),
    {
        match self {
            RangeLimits::HalfOpen => push_dot2(tokens),
            RangeLimits::Closed => push_dot2_eq(tokens),
        }
    }
}

impl Member {
    /// Appends the tokens of the node to `tokens`.
    pub fn to_tokens(&self, tokens: &mut Vec<TokenTree>)
        ensures
            trees_view(final(tokens)@) == trees_view(old(tokens)@) + layout::member(self@),
    {
        match self {
            Member::Named(w) => {
                push_tree(tokens, TokenTree::Ident(w.clone()));
            },
            Member::Unnamed(i) => {
                push_tree(tokens, TokenTree::Literal(index_text(*i)));
            },
        }
    }
}

impl Macro {
    /// Appends the tokens of the node to `tokens`.
    pub fn to_tokens(&self, tokens: &mut Vec<TokenTree>)
        ensures
            trees_view(final(tokens)@) == trees_view(old(tokens)@) + layout::mac(self@),
    {
        self.path.to_tokens(tokens);
        push_punct(tokens, '!');
        let mut inner: Vec<TokenTree> = Vec::new();
        append_trees(&mut inner, &self.tokens);
        assert(trees_view(inner@) =~= trees_view(self.tokens@));
        let d = match self.delimiter {
            MacroDelimiter::Paren => Delimiter::Parenthesis,
            MacroDelimiter::Brace => Delimiter::Brace,
            MacroDelimiter::Bracket => Delimiter::Bracket,
        };
        push_group(tokens, d, inner);
        assert(trees_view(tokens@) =~= trees_view(old(tokens)@) + layout::mac(self@));
    }
}

// ---------------------------------------------------------------------
// Patterns
// ---------------------------------------------------------------------

impl PatWild {
    /// Appends the tokens of the node to `tokens`.
    pub fn to_tokens(&self, tokens: &mut Vec<TokenTree>)
        ensures
            trees_view(final(tokens)@) == trees_view(old(tokens)@) + layout::pat(
                PatView::Wild(self@),
            ),
    {
        attrs_to_tokens(&self.attrs, tokens);
        push_word(tokens, "_");
        assert(trees_view(tokens@) =~= trees_view(old(tokens)@) + layout::pat(
            PatView::Wild(self@),
        ));
    }
}

impl PatRest {
    /// Appends the tokens of the node to `tokens`.
    pub fn to_tokens(&self, tokens: &mut Vec<TokenTree>)
        ensures
            trees_view(final(tokens)@) == trees_view(old(tokens)@) + layout::pat(
                PatView::Rest(self@),
            ),
    {
        attrs_to_tokens(&self.attrs, tokens);
        push_dot2(tokens);
        assert(trees_view(tokens@) =~= trees_view(old(tokens)@) + layout::pat(
            PatView::Rest(self@),
        ));
    }
}

impl PatLit {
    /// Appends the tokens of the node to `tokens`.
    pub fn to_tokens(&self, tokens: &mut Vec<TokenTree>)
        ensures
            trees_view(final(tokens)@) == trees_view(old(tokens)@) + layout::pat(
                PatView::Lit(self@),
            ),
    {
        attrs_to_tokens(&self.attrs, tokens);
        self.expr.to_tokens(tokens);
        assert(trees_view(tokens@) =~= trees_view(old(tokens)@) + layout::pat(
            PatView::Lit(self@),
        ));
    }
}

impl PatRange {
    /// Appends the tokens of the node to `tokens`.
    pub fn to_tokens(&self, tokens: &mut Vec<TokenTree>)
        ensures
            trees_view(final(tokens)@) == trees_view(old(tokens)@) + layout::pat(
                PatView::Range(self@),
            ),
    {
        attrs_to_tokens(&self.attrs, tokens);
        self.lo.to_tokens(tokens);
        self.limits.to_tokens(tokens);
        self.hi.to_tokens(tokens);
        assert(trees_view(tokens@) =~= trees_view(old(tokens)@) + layout::pat(
            PatView::Range(self@),
        ));
    }
}

impl PatPath {
    /// Appends the tokens of the node to `tokens`.
    pub fn to_tokens(&self, tokens: &mut Vec<TokenTree>)
        ensures
            trees_view(final(tokens)@) == trees_view(old(tokens)@) + layout::pat(
                PatView::Path(self@),
            ),
    {
        attrs_to_tokens(&self.attrs, tokens);
        print_path(tokens, &self.qself, &self.path);
        assert(trees_view(tokens@) =~= trees_view(old(tokens)@) + layout::pat(
            PatView::Path(self@),
        ));
    }
}

impl PatMacro {
    /// Appends the tokens of the node to `tokens`.
    pub fn to_tokens(&self, tokens: &mut Vec<TokenTree>)
        ensures
            trees_view(final(tokens)@) == trees_view(old(tokens)@) + layout::pat(
                PatView::Macro(self@),
            ),
    {
        attrs_to_tokens(&self.attrs, tokens);
        self.mac.to_tokens(tokens);
        assert(trees_view(tokens@) =~= trees_view(old(tokens)@) + layout::pat(
            PatView::Macro(self@),
        ));
    }
}

impl PatBox {
    /// Appends the tokens of the node to `tokens`.
    pub fn to_tokens(&self, tokens: &mut Vec<TokenTree>)
        ensures
            trees_view(final(tokens)@) == trees_view(old(tokens)@) + layout::pat(
                PatView::Box(self@),
            ),
        decreases self,
    {
        attrs_to_tokens(&self.attrs, tokens);
        push_word(tokens, "box");
        self.pat.to_tokens(tokens);
        assert(trees_view(tokens@) =~= trees_view(old(tokens)@) + layout::pat(
            PatView::Box(self@),
        ));
    }
}

impl PatIdent {
    /// Appends the tokens of the node to `tokens`.
    pub fn to_tokens(&self, tokens: &mut Vec<TokenTree>)
        ensures
            trees_view(final(tokens)@) == trees_view(old(tokens)@) + layout::pat(
                PatView::Ident(self@),
            ),
        decreases self,
    {
        attrs_to_tokens(&self.attrs, tokens);
        if self.by_ref {
            push_word(tokens, "ref");
        }
        if self.mutability {
            push_word(tokens, "mut");
        }
        push_tree(tokens, TokenTree::Ident(self.ident.clone()));
        match &self.subpat {
            Some(sub) => {
                push_punct(tokens, '@');
                sub.to_tokens(tokens);
            },
            None => {},
        }
        assert(trees_view(tokens@) =~= trees_view(old(tokens)@) + layout::pat(
            PatView::Ident(self@),
        ));
    }
}

impl PatReference {
    /// Appends the tokens of the node to `tokens`.
    pub fn to_tokens(&self, tokens: &mut Vec<TokenTree>)
        ensures
            trees_view(final(tokens)@) == trees_view(old(tokens)@) + layout::pat(
                PatView::Reference(self@),
            ),
        decreases self,
    {
        attrs_to_tokens(&self.attrs, tokens);
        push_punct(tokens, '&');
        if self.mutability {
            push_word(tokens, "mut");
        }
        self.pat.to_tokens(tokens);
        assert(trees_view(tokens@) =~= trees_view(old(tokens)@) + layout::pat(
            PatView::Reference(self@),
        ));
    }
}

impl PatType {
    /// Appends the tokens of the node to `tokens`.
    pub fn to_tokens(&self, tokens: &mut Vec<TokenTree>)
        ensures
            trees_view(final(tokens)@) == trees_view(old(tokens)@) + layout::pat(
                PatView::Type(self@),
            ),
        decreases self,
    {
        attrs_to_tokens(&self.attrs, tokens);
        self.pat.to_tokens(tokens);
        push_punct(tokens, ':');
        append_trees(tokens, &self.ty);
        assert(trees_view(tokens@) =~= trees_view(old(tokens)@) + layout::pat(
            PatView::Type(self@),
        ));
    }
}

/// Appends patterns separated by commas, with a comma after the last one
/// if `trailing` says so.
pub fn list_to_tokens(ps: &Vec<Pat>, trailing: bool, tokens: &mut Vec<TokenTree>)
    ensures
        trees_view(final(tokens)@) == trees_view(old(tokens)@) + layout::list(
            pats_view(ps@),
            trailing,
        ),
    decreases ps,
{
    let ghost before = trees_view(tokens@);
    let ghost all = pats_view(ps@);
    let mut i: usize = 0;
    assert(all.skip(0) =~= all);
    while i < ps.len()
        invariant
            i <= ps.len(),
            all == pats_view(ps@),
            trees_view(tokens@) + layout::list(all.skip(i as int), trailing) == before
                + layout::list(all, trailing),
        decreases ps.len() - i,
    {
        let ghost shown = trees_view(tokens@);
        ps[i].to_tokens(tokens);
        if i + 1 < ps.len() || trailing {
            push_punct(tokens, ',');
        }
        proof {
            let rest = all.skip(i as int);
            assert(rest[0] == ps@[i as int]@);
            assert(rest.skip(1) =~= all.skip(i + 1));
            let head = layout::pat(rest[0]) + layout::opt(
                rest.len() > 1 || trailing,
                layout::punct(','),
            );
            assert(trees_view(tokens@) =~= shown + head);
            assert(shown + (head + layout::list(rest.skip(1), trailing)) =~= (shown + head)
                + layout::list(rest.skip(1), trailing));
        }
        i = i + 1;
    }
    assert(trees_view(tokens@) + Seq::empty() =~= trees_view(tokens@));
}

/// Appends alternatives separated by `|`.
pub fn cases_to_tokens(ps: &Vec<Pat>, tokens: &mut Vec<TokenTree>)
    ensures
        trees_view(final(tokens)@) == trees_view(old(tokens)@) + layout::cases(pats_view(ps@)),
    decreases ps,
{
    let ghost before = trees_view(tokens@);
    let ghost all = pats_view(ps@);
    let mut i: usize = 0;
    assert(all.skip(0) =~= all);
    while i < ps.len()
        invariant
            i <= ps.len(),
            all == pats_view(ps@),
            trees_view(tokens@) + layout::cases(all.skip(i as int)) == before + layout::cases(
                all,
            ),
        decreases ps.len() - i,
    {
        let ghost shown = trees_view(tokens@);
        ps[i].to_tokens(tokens);
        if i + 1 < ps.len() {
            push_punct(tokens, '|');
        }
        proof {
            let rest = all.skip(i as int);
            assert(rest[0] == ps@[i as int]@);
            assert(rest.skip(1) =~= all.skip(i + 1));
            let head = layout::pat(rest[0]) + layout::opt(rest.len() > 1, layout::punct('|'));
            assert(trees_view(tokens@) =~= shown + head);
            assert(shown + (head + layout::cases(rest.skip(1))) =~= (shown + head)
                + layout::cases(rest.skip(1)));
        }
        i = i + 1;
    }
    assert(trees_view(tokens@) + Seq::empty() =~= trees_view(tokens@));
}

impl PatTuple {
    /// Appends the tokens of the node to `tokens`.
    pub fn to_tokens(&self, tokens: &mut Vec<TokenTree>)
        ensures
            trees_view(final(tokens)@) == trees_view(old(tokens)@) + layout::pat_tuple(self@),
        decreases self,
    {
        attrs_to_tokens(&self.attrs, tokens);
        let mut inner: Vec<TokenTree> = Vec::new();
        list_to_tokens(&self.elems, self.trailing_comma, &mut inner);
        assert(trees_view(inner@) =~= layout::list(pats_view(self.elems@), self.trailing_comma));
        push_group(tokens, Delimiter::Parenthesis, inner);
        assert(trees_view(tokens@) =~= trees_view(old(tokens)@) + layout::pat_tuple(self@));
    }
}

impl PatSlice {
    /// Appends the tokens of the node to `tokens`.
    pub fn to_tokens(&self, tokens: &mut Vec<TokenTree>)
        ensures
            trees_view(final(tokens)@) == trees_view(old(tokens)@) + layout::pat(
                PatView::Slice(self@),
            ),
        decreases self,
    {
        attrs_to_tokens(&self.attrs, tokens);
        let mut inner: Vec<TokenTree> = Vec::new();
        list_to_tokens(&self.elems, self.trailing_comma, &mut inner);
        assert(trees_view(inner@) =~= layout::list(pats_view(self.elems@), self.trailing_comma));
        push_group(tokens, Delimiter::Bracket, inner);
        assert(trees_view(tokens@) =~= trees_view(old(tokens)@) + layout::pat(
            PatView::Slice(self@),
        ));
    }
}

impl PatTupleStruct {
    /// Appends the tokens of the node to `tokens`.
    pub fn to_tokens(&self, tokens: &mut Vec<TokenTree>)
        ensures
            trees_view(final(tokens)@) == trees_view(old(tokens)@) + layout::pat(
                PatView::TupleStruct(self@),
            ),
        decreases self,
    {
        attrs_to_tokens(&self.attrs, tokens);
        self.path.to_tokens(tokens);
        self.pat.to_tokens(tokens);
        assert(trees_view(tokens@) =~= trees_view(old(tokens)@) + layout::pat(
            PatView::TupleStruct(self@),
        ));
    }
}

impl PatOr {
    /// Appends the tokens of the node to `tokens`.
    pub fn to_tokens(&self, tokens: &mut Vec<TokenTree>)
        ensures
            trees_view(final(tokens)@) == trees_view(old(tokens)@) + layout::pat(
                PatView::Or(self@),
            ),
        decreases self,
    {
        attrs_to_tokens(&self.attrs, tokens);
        if self.leading_vert {
            push_punct(tokens, '|');
        }
        cases_to_tokens(&self.cases, tokens);
        assert(trees_view(tokens@) =~= trees_view(old(tokens)@) + layout::pat(
            PatView::Or(self@),
        ));
    }
}

impl FieldPat {
    /// Appends the tokens of the node to `tokens`.
    pub fn to_tokens(&self, tokens: &mut Vec<TokenTree>)
        ensures
            trees_view(final(tokens)@) == trees_view(old(tokens)@) + layout::field(self@),
        decreases self,
    {
        attrs_to_tokens(&self.attrs, tokens);
        if self.colon_token {
            self.member.to_tokens(tokens);
            push_punct(tokens, ':');
        }
        self.pat.to_tokens(tokens);
        assert(trees_view(tokens@) =~= trees_view(old(tokens)@) + layout::field(self@));
    }
}

/// Appends fields separated by commas, with a comma after the last one if
/// `trailing` says so.
pub fn field_list_to_tokens(fs: &Vec<FieldPat>, trailing: bool, tokens: &mut Vec<TokenTree>)
    ensures
        trees_view(final(tokens)@) == trees_view(old(tokens)@) + layout::field_list(
            fields_view(fs@),
            trailing,
        ),
    decreases fs,
{
    let ghost before = trees_view(tokens@);
    let ghost all = fields_view(fs@);
    let mut i: usize = 0;
    assert(all.skip(0) =~= all);
    while i < fs.len()
        invariant
            i <= fs.len(),
            all == fields_view(fs@),
            trees_view(tokens@) + layout::field_list(all.skip(i as int), trailing) == before
                + layout::field_list(all, trailing),
        decreases fs.len() - i,
    {
        let ghost shown = trees_view(tokens@);
        fs[i].to_tokens(tokens);
        if i + 1 < fs.len() || trailing {
            push_punct(tokens, ',');
        }
        proof {
            let rest = all.skip(i as int);
            assert(rest[0] == fs@[i as int]@);
            assert(rest.skip(1) =~= all.skip(i + 1));
            let head = layout::field(rest[0]) + layout::opt(
                rest.len() > 1 || trailing,
                layout::punct(','),
            );
            assert(trees_view(tokens@) =~= shown + head);
            assert(shown + (head + layout::field_list(rest.skip(1), trailing)) =~= (shown + head)
                + layout::field_list(rest.skip(1), trailing));
        }
        i = i + 1;
    }
    assert(trees_view(tokens@) + Seq::empty() =~= trees_view(tokens@));
}

impl PatStruct {
    /// Prints the fields in their stored order. Where the pattern ends in
    /// `..` and the last field has no comma after it, one is put before
    /// the dots.
    pub fn to_tokens(&self, tokens: &mut Vec<TokenTree>)
        ensures
            trees_view(final(tokens)@) == trees_view(old(tokens)@) + layout::pat(
                PatView::Struct(self@),
            ),
        decreases self,
    {
        attrs_to_tokens(&self.attrs, tokens);
        self.path.to_tokens(tokens);
        let mut inner: Vec<TokenTree> = Vec::new();
        field_list_to_tokens(&self.fields, self.trailing_comma, &mut inner);
        if self.dot2_token && self.fields.len() > 0 && !self.trailing_comma {
            push_punct(&mut inner, ',');
        }
        if self.dot2_token {
            push_dot2(&mut inner);
        }
        proof {
            let x = self@;
            assert(trees_view(inner@) =~= layout::field_list(x.fields, x.trailing_comma)
                + layout::opt(
                x.dot2_token && x.fields.len() > 0 && !x.trailing_comma,
                layout::punct(','),
            ) + layout::opt(x.dot2_token, layout::dot2()));
        }
        push_group(tokens, Delimiter::Brace, inner);
        assert(trees_view(tokens@) =~= trees_view(old(tokens)@) + layout::pat(
            PatView::Struct(self@),
        ));
    }
}

impl Pat {
    /// Appends the tokens of the pattern to `tokens`.
    pub fn to_tokens(&self, tokens: &mut Vec<TokenTree>)
        ensures
            trees_view(final(tokens)@) == trees_view(old(tokens)@) + layout::pat(self@),
        decreases self,
    {
        match self {
            Pat::Box(x) => x.to_tokens(tokens),
            Pat::Ident(x) => x.to_tokens(tokens),
            Pat::Lit(x) => x.to_tokens(tokens),
            Pat::Macro(x) => x.to_tokens(tokens),
            Pat::Or(x) => x.to_tokens(tokens),
            Pat::Path(x) => x.to_tokens(tokens),
            Pat::Range(x) => x.to_tokens(tokens),
            Pat::Reference(x) => x.to_tokens(tokens),
            Pat::Rest(x) => x.to_tokens(tokens),
            Pat::Slice(x) => x.to_tokens(tokens),
            Pat::Struct(x) => x.to_tokens(tokens),
            Pat::Tuple(x) => {
                x.to_tokens(tokens);
                assert(layout::pat(PatView::Tuple(x@)) == layout::pat_tuple(x@));
            },
            Pat::TupleStruct(x) => x.to_tokens(tokens),
            Pat::Type(x) => x.to_tokens(tokens),
            Pat::Verbatim(ts) => append_trees(tokens, ts),
            Pat::Wild(x) => x.to_tokens(tokens),
        }
    }

    /// The tokens of the pattern.
    pub fn tokens(&self) -> (r: Vec<TokenTree>)
        ensures
            trees_view(r@) == layout::pat(self@),
    {
        let mut out: Vec<TokenTree> = Vec::new();
        self.to_tokens(&mut out);
        assert(trees_view(out@) =~= layout::pat(self@));
        out
    }
}

} // verus!
