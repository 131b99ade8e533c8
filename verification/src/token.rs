//! Token trees: the input of the pattern parser and the output of the printer.
//!
//! A token is an identifier (keywords included), a single punctuation
//! character, a literal, or a delimited group holding further tokens.
//! Multi-character operators such as `..=` are runs of punctuation
//! characters in which every character but the last is marked joint.

use vstd::prelude::*;
use vstd::slice::slice_subrange;

verus! {

/// How a group of tokens is bracketed.
#[derive(Clone, Copy, Debug, PartialEq, Eq, Hash, Structural)]
pub enum Delimiter {
    /// `( ... )`
    Parenthesis,
    /// `{ ... }`
    Brace,
    /// `[ ... ]`
    Bracket,
    /// A group without visible brackets.
    Invisible,
}

/// One token, owning the tokens nested in it.
#[derive(Debug, PartialEq, Eq, Hash)]
pub enum TokenTree {
    /// A word: an identifier, a keyword or `_`.
    Ident(String),
    /// One punctuation character; the flag says whether the next token
    /// follows it without a space and so may belong to the same operator.
    Punct(char, bool),
    /// A literal, kept as its source text.
    Literal(String),
    /// Tokens enclosed by a pair of delimiters.
    Group(Delimiter, Vec<TokenTree>),
}

/// The mathematical value of a [`TokenTree`].
pub enum TokenView {
    Ident(Seq<char>),
    Punct(char, bool),
    Literal(Seq<char>),
    Group(Delimiter, Seq<TokenView>),
}

/// A sequence of token values.
pub type Tokens = Seq<TokenView>;

/// The value of one token.
pub open spec fn tree_view(t: TokenTree) -> TokenView
    decreases t,
{
    match t {
        TokenTree::Ident(w) => TokenView::Ident(w@),
        TokenTree::Punct(c, joint) => TokenView::Punct(c, joint),
        TokenTree::Literal(w) => TokenView::Literal(w@),
        TokenTree::Group(d, ts) => TokenView::Group(d, trees_view(ts@)),
    }
}

/// The values of a run of tokens, element by element.
pub open spec fn trees_view(ts: Seq<TokenTree>) -> Tokens
    decreases ts,
{
    Seq::new(
        ts.len(),
        |i: int|
            if 0 <= i < ts.len() {
                tree_view(ts[i])
            } else {
                TokenView::Punct(' ', false)
            },
    )
}

impl View for TokenTree {
    type V = TokenView;

    open spec fn view(&self) -> TokenView {
        tree_view(*self)
    }
}

/// The values of the tokens after the first `k` are the values after the
/// first `k`.
pub proof fn lemma_trees_view_skip(ts: Seq<TokenTree>, k: int)
    requires
        0 <= k <= ts.len(),
    ensures
        trees_view(ts.skip(k)) == trees_view(ts).skip(k),
{
    assert(trees_view(ts.skip(k)) =~= trees_view(ts).skip(k));
}

/// The values of a stretch of tokens are that stretch of the values.
pub proof fn lemma_trees_view_subrange(ts: Seq<TokenTree>, i: int, j: int)
    requires
        0 <= i <= j <= ts.len(),
    ensures
        trees_view(ts.subrange(i, j)) == trees_view(ts).subrange(i, j),
{
    assert(trees_view(ts.subrange(i, j)) =~= trees_view(ts).subrange(i, j));
}

/// The values of tokens with one more token at the end.
pub proof fn lemma_trees_view_push(ts: Seq<TokenTree>, t: TokenTree)
    ensures
        trees_view(ts.push(t)) == trees_view(ts).push(tree_view(t)),
{
    assert(trees_view(ts.push(t)) =~= trees_view(ts).push(tree_view(t)));
}

/// The tokens inside a group are smaller than any sequence holding the group.
pub proof fn lemma_group_decreases(s: Tokens, i: int)
    requires
        0 <= i < s.len(),
        s[i] is Group,
    ensures
        decreases_to!(s => s[i]->Group_1),
{
    assert(decreases_to!(s => s[i]));
    assert(decreases_to!(s[i] => s[i]->Group_1));
}

// ---------------------------------------------------------------------
// Reserved words
// ---------------------------------------------------------------------

/// Words that cannot be used as plain identifiers.
#[verifier::opaque]
pub open spec fn is_keyword(w: Seq<char>) -> bool {
    ||| w == "_"@
    ||| w == "abstract"@
    ||| w == "as"@
    ||| w == "become"@
    ||| w == "box"@
    ||| w == "break"@
    ||| w == "const"@
    ||| w == "continue"@
    ||| w == "crate"@
    ||| w == "do"@
    ||| w == "else"@
    ||| w == "enum"@
    ||| w == "extern"@
    ||| w == "false"@
    ||| w == "final"@
    ||| w == "fn"@
    ||| w == "for"@
    ||| w == "if"@
    ||| w == "impl"@
    ||| w == "in"@
    ||| w == "let"@
    ||| w == "loop"@
    ||| w == "macro"@
    ||| w == "match"@
    ||| w == "mod"@
    ||| w == "move"@
    ||| w == "mut"@
    ||| w == "override"@
    ||| w == "priv"@
    ||| w == "pub"@
    ||| w == "ref"@
    ||| w == "return"@
    ||| w == "Self"@
    ||| w == "self"@
    ||| w == "static"@
    ||| w == "struct"@
    ||| w == "super"@
    ||| w == "trait"@
    ||| w == "true"@
    ||| w == "type"@
    ||| w == "typeof"@
    ||| w == "unsafe"@
    ||| w == "unsized"@
    ||| w == "use"@
    ||| w == "virtual"@
    ||| w == "where"@
    ||| w == "while"@
    ||| w == "yield"@
}

/// The keywords that may stand as a path segment by themselves and never
/// take generic arguments.
pub open spec fn is_path_keyword(w: Seq<char>) -> bool {
    w == "super"@ || w == "self"@ || w == "crate"@
}

/// The words that the pattern grammar looks for are pairwise different.
pub proof fn lemma_words_distinct()
    ensures
        "_"@ != "box"@,
        "_"@ != "ref"@,
        "_"@ != "mut"@,
        "_"@ != "self"@,
        "_"@ != "Self"@,
        "_"@ != "super"@,
        "_"@ != "crate"@,
        "_"@ != "true"@,
        "_"@ != "false"@,
        "box"@ != "ref"@,
        "box"@ != "mut"@,
        "box"@ != "self"@,
        "box"@ != "Self"@,
        "box"@ != "super"@,
        "box"@ != "crate"@,
        "box"@ != "true"@,
        "box"@ != "false"@,
        "ref"@ != "mut"@,
        "ref"@ != "self"@,
        "ref"@ != "Self"@,
        "ref"@ != "super"@,
        "ref"@ != "crate"@,
        "ref"@ != "true"@,
        "ref"@ != "false"@,
        "mut"@ != "self"@,
        "mut"@ != "Self"@,
        "mut"@ != "super"@,
        "mut"@ != "crate"@,
        "mut"@ != "true"@,
        "mut"@ != "false"@,
        "self"@ != "Self"@,
        "self"@ != "super"@,
        "self"@ != "crate"@,
        "self"@ != "true"@,
        "self"@ != "false"@,
        "Self"@ != "super"@,
        "Self"@ != "crate"@,
        "Self"@ != "true"@,
        "Self"@ != "false"@,
        "super"@ != "crate"@,
        "super"@ != "true"@,
        "super"@ != "false"@,
        "crate"@ != "true"@,
        "crate"@ != "false"@,
        "true"@ != "false"@,
{
    reveal_strlit("_");
    reveal_strlit("box");
    reveal_strlit("ref");
    reveal_strlit("mut");
    reveal_strlit("self");
    reveal_strlit("Self");
    reveal_strlit("super");
    reveal_strlit("crate");
    reveal_strlit("true");
    reveal_strlit("false");
    assert("_"@.len() == 1);
    assert("box"@.len() == 3 && "box"@[0] == 'b');
    assert("ref"@.len() == 3 && "ref"@[0] == 'r');
    assert("mut"@.len() == 3 && "mut"@[0] == 'm');
    assert("self"@.len() == 4 && "self"@[0] == 's');
    assert("Self"@.len() == 4 && "Self"@[0] == 'S');
    assert("true"@.len() == 4 && "true"@[0] == 't');
    assert("super"@.len() == 5 && "super"@[0] == 's');
    assert("crate"@.len() == 5 && "crate"@[0] == 'c');
    assert("false"@.len() == 5 && "false"@[0] == 'f');
}

/// The words that the pattern grammar looks for are reserved.
pub proof fn lemma_keywords()
    ensures
        is_keyword("_"@),
        is_keyword("box"@),
        is_keyword("ref"@),
        is_keyword("mut"@),
        is_keyword("self"@),
        is_keyword("Self"@),
        is_keyword("super"@),
        is_keyword("crate"@),
        is_keyword("true"@),
        is_keyword("false"@),
{
    reveal(is_keyword);
}

/// `<str as PartialEq>::eq` of the standard library.
///
/// Not proved: that it answers true exactly when the two slices hold the
/// same characters.
#[verifier::external_body]
pub(crate) fn same_text(a: &str, b: &str) -> (r: bool)
    ensures
        r == (a@ == b@),
{
    a == b
}

/// Whether `w` is a reserved word.
pub fn keyword(w: &str) -> (r: bool)
    ensures
        r == is_keyword(w@),
{
    reveal(is_keyword);
    same_text(w, "_") || same_text(w, "abstract") || same_text(w, "as") || same_text(w, "become")
        || same_text(w, "box") || same_text(w, "break") || same_text(w, "const") || same_text(
        w,
        "continue",
    ) || same_text(w, "crate") || same_text(w, "do") || same_text(w, "else") || same_text(
        w,
        "enum",
    ) || same_text(w, "extern") || same_text(w, "false") || same_text(w, "final") || same_text(
        w,
        "fn",
    ) || same_text(w, "for") || same_text(w, "if") || same_text(w, "impl") || same_text(w, "in")
        || same_text(w, "let") || same_text(w, "loop") || same_text(w, "macro") || same_text(
        w,
        "match",
    ) || same_text(w, "mod") || same_text(w, "move") || same_text(w, "mut") || same_text(
        w,
        "override",
    ) || same_text(w, "priv") || same_text(w, "pub") || same_text(w, "ref") || same_text(
        w,
        "return",
    ) || same_text(w, "Self") || same_text(w, "self") || same_text(w, "static") || same_text(
        w,
        "struct",
    ) || same_text(w, "super") || same_text(w, "trait") || same_text(w, "true") || same_text(
        w,
        "type",
    ) || same_text(w, "typeof") || same_text(w, "unsafe") || same_text(w, "unsized")
        || same_text(w, "use") || same_text(w, "virtual") || same_text(w, "where") || same_text(
        w,
        "while",
    ) || same_text(w, "yield")
}

/// Whether `w` is one of `super`, `self`, `crate`.
pub fn path_keyword(w: &str) -> (r: bool)
    ensures
        r == is_path_keyword(w@),
{
    same_text(w, "super") || same_text(w, "self") || same_text(w, "crate")
}

// ---------------------------------------------------------------------
// Looking ahead in a token sequence
// ---------------------------------------------------------------------

/// Token `i` is the punctuation character `c`.
pub open spec fn punct_at(s: Tokens, i: int, c: char) -> bool {
    0 <= i < s.len() && s[i] is Punct && s[i]->Punct_0 == c
}

/// Token `i` is the punctuation character `c`, joined to the next token.
pub open spec fn joint_at(s: Tokens, i: int, c: char) -> bool {
    punct_at(s, i, c) && s[i]->Punct_1
}

/// The operator `::` starts at token `i`.
pub open spec fn colon2_at(s: Tokens, i: int) -> bool {
    joint_at(s, i, ':') && punct_at(s, i + 1, ':')
}

/// The operator `..` starts at token `i` (as in `..`, `..=` and `...`).
pub open spec fn dot2_at(s: Tokens, i: int) -> bool {
    joint_at(s, i, '.') && punct_at(s, i + 1, '.')
}

/// The operator `...` starts at token `i`.
pub open spec fn dot3_at(s: Tokens, i: int) -> bool {
    joint_at(s, i, '.') && joint_at(s, i + 1, '.') && punct_at(s, i + 2, '.')
}

/// The operator `..=` starts at token `i`.
pub open spec fn dot2_eq_at(s: Tokens, i: int) -> bool {
    joint_at(s, i, '.') && joint_at(s, i + 1, '.') && punct_at(s, i + 2, '=')
}

/// A lone `!` stands at token `i`: a `!` that does not begin `!=`.
pub open spec fn bang_at(s: Tokens, i: int) -> bool {
    punct_at(s, i, '!') && !(joint_at(s, i, '!') && punct_at(s, i + 1, '='))
}

/// A lone `|` stands at token `i`: one that begins neither `||` nor `|=`.
pub open spec fn vert_at(s: Tokens, i: int) -> bool {
    punct_at(s, i, '|') && !(joint_at(s, i, '|') && (punct_at(s, i + 1, '|') || punct_at(
        s,
        i + 1,
        '=',
    )))
}

/// Token `i` is a word of any kind.
pub open spec fn ident_at(s: Tokens, i: int) -> bool {
    0 <= i < s.len() && s[i] is Ident
}

/// Token `i` is the word `w`.
pub open spec fn word_at(s: Tokens, i: int, w: Seq<char>) -> bool {
    0 <= i < s.len() && s[i] == TokenView::Ident(w)
}

/// Token `i` is a word that is not reserved.
pub open spec fn plain_ident_at(s: Tokens, i: int) -> bool {
    ident_at(s, i) && !is_keyword(s[i]->Ident_0)
}

/// Token `i` is the wildcard `_`, lexed either as a word or as punctuation.
pub open spec fn wild_at(s: Tokens, i: int) -> bool {
    word_at(s, i, "_"@) || punct_at(s, i, '_')
}

/// Token `i` is a literal: a literal token or one of the words `true`, `false`.
pub open spec fn lit_at(s: Tokens, i: int) -> bool {
    (0 <= i < s.len() && s[i] is Literal) || word_at(s, i, "true"@) || word_at(s, i, "false"@)
}

/// Token `i` is a group bracketed by `d`.
pub open spec fn group_at(s: Tokens, i: int, d: Delimiter) -> bool {
    0 <= i < s.len() && s[i] is Group && s[i]->Group_0 == d
}

/// Token `i` begins a path: a plain identifier, `::`, `<`, or one of the
/// words `self`, `Self`, `super`, `crate`.
pub open spec fn path_start_at(s: Tokens, i: int) -> bool {
    ||| plain_ident_at(s, i)
    ||| colon2_at(s, i)
    ||| punct_at(s, i, '<')
    ||| word_at(s, i, "self"@)
    ||| word_at(s, i, "Self"@)
    ||| word_at(s, i, "super"@)
    ||| word_at(s, i, "crate"@)
}

/// Whether token `i` is the punctuation character `c`.
pub fn peek_punct(input: &[TokenTree], i: usize, c: char) -> (r: bool)
    ensures
        r == punct_at(trees_view(input@), i as int, c),
        r ==> i < input.len(),
{
    if i < input.len() {
        match &input[i] {
            TokenTree::Punct(ch, _) => *ch == c,
            _ => false,
        }
    } else {
        false
    }
}

/// Whether token `i` is the punctuation character `c`, joined to the next
/// token.
pub fn peek_joint(input: &[TokenTree], i: usize, c: char) -> (r: bool)
    ensures
        r == joint_at(trees_view(input@), i as int, c),
        r ==> i < input.len(),
{
    if i < input.len() {
        match &input[i] {
            TokenTree::Punct(ch, joint) => *ch == c && *joint,
            _ => false,
        }
    } else {
        false
    }
}

/// Whether `::` starts at token `i`.
pub fn peek_colon2(input: &[TokenTree], i: usize) -> (r: bool)
    ensures
        r == colon2_at(trees_view(input@), i as int),
        r ==> i + 1 < input.len(),
{
    peek_joint(input, i, ':') && peek_punct(input, i + 1, ':')
}

/// Whether `..` starts at token `i`.
pub fn peek_dot2(input: &[TokenTree], i: usize) -> (r: bool)
    ensures
        r == dot2_at(trees_view(input@), i as int),
        r ==> i + 1 < input.len(),
{
    peek_joint(input, i, '.') && peek_punct(input, i + 1, '.')
}

/// Whether `...` starts at token `i`.
pub fn peek_dot3(input: &[TokenTree], i: usize) -> (r: bool)
    ensures
        r == dot3_at(trees_view(input@), i as int),
        r ==> i + 2 < input.len(),
{
    peek_joint(input, i, '.') && peek_joint(input, i + 1, '.') && peek_punct(input, i + 2, '.')
}

/// Whether `..=` starts at token `i`.
pub fn peek_dot2_eq(input: &[TokenTree], i: usize) -> (r: bool)
    ensures
        r == dot2_eq_at(trees_view(input@), i as int),
        r ==> i + 2 < input.len(),
{
    peek_joint(input, i, '.') && peek_joint(input, i + 1, '.') && peek_punct(input, i + 2, '=')
}

/// Whether a lone `!` stands at token `i`.
pub fn peek_bang(input: &[TokenTree], i: usize) -> (r: bool)
    ensures
        r == bang_at(trees_view(input@), i as int),
        r ==> i < input.len(),
{
    peek_punct(input, i, '!') && !(peek_joint(input, i, '!') && peek_punct(input, i + 1, '='))
}

/// Whether a lone `|` stands at token `i`.
pub fn peek_vert(input: &[TokenTree], i: usize) -> (r: bool)
    ensures
        r == vert_at(trees_view(input@), i as int),
        r ==> i < input.len(),
{
    peek_punct(input, i, '|') && !(peek_joint(input, i, '|') && (peek_punct(input, i + 1, '|')
        || peek_punct(input, i + 1, '=')))
}

/// Whether token `i` is the word `w`.
pub fn peek_word(input: &[TokenTree], i: usize, w: &str) -> (r: bool)
    ensures
        r == word_at(trees_view(input@), i as int, w@),
        r ==> i < input.len(),
{
    if i < input.len() {
        match &input[i] {
            TokenTree::Ident(name) => same_text(name.as_str(), w),
            _ => false,
        }
    } else {
        false
    }
}

/// Whether token `i` is a word that is not reserved.
pub fn peek_plain_ident(input: &[TokenTree], i: usize) -> (r: bool)
    ensures
        r == plain_ident_at(trees_view(input@), i as int),
        r ==> i < input.len(),
{
    if i < input.len() {
        match &input[i] {
            TokenTree::Ident(name) => !keyword(name.as_str()),
            _ => false,
        }
    } else {
        false
    }
}

/// Whether token `i` is `_`.
pub fn peek_wild(input: &[TokenTree], i: usize) -> (r: bool)
    ensures
        r == wild_at(trees_view(input@), i as int),
        r ==> i < input.len(),
{
    peek_word(input, i, "_") || peek_punct(input, i, '_')
}

/// Whether token `i` is a literal.
pub fn peek_lit(input: &[TokenTree], i: usize) -> (r: bool)
    ensures
        r == lit_at(trees_view(input@), i as int),
        r ==> i < input.len(),
{
    if i < input.len() {
        match &input[i] {
            TokenTree::Literal(_) => true,
            TokenTree::Ident(name) => same_text(name.as_str(), "true") || same_text(
                name.as_str(),
                "false",
            ),
            _ => false,
        }
    } else {
        false
    }
}

/// Whether token `i` is a group bracketed by `d`.
pub fn peek_group(input: &[TokenTree], i: usize, d: Delimiter) -> (r: bool)
    ensures
        r == group_at(trees_view(input@), i as int, d),
        r ==> i < input.len(),
{
    if i < input.len() {
        match &input[i] {
            TokenTree::Group(delimiter, _) => *delimiter == d,
            _ => false,
        }
    } else {
        false
    }
}

/// Whether token `i` begins a path.
pub fn peek_path_start(input: &[TokenTree], i: usize) -> (r: bool)
    ensures
        r == path_start_at(trees_view(input@), i as int),
        r ==> i < input.len(),
{
    peek_plain_ident(input, i) || peek_colon2(input, i) || peek_punct(input, i, '<') || peek_word(
        input,
        i,
        "self",
    ) || peek_word(input, i, "Self") || peek_word(input, i, "super") || peek_word(
        input,
        i,
        "crate",
    )
}

/// The input without its first `n` tokens.
pub fn advance(input: &[TokenTree], n: usize) -> (rest: &[TokenTree])
    requires
        n <= input.len(),
    ensures
        rest@ == input@.skip(n as int),
        trees_view(rest@) == trees_view(input@).skip(n as int),
{
    let rest = slice_subrange(input, n, input.len());
    proof {
        assert(rest@ =~= input@.skip(n as int));
        lemma_trees_view_skip(input@, n as int);
    }
    rest
}

// ---------------------------------------------------------------------
// Copying tokens
// ---------------------------------------------------------------------

/// A copy of one token, nested tokens included.
pub fn clone_tree(t: &TokenTree) -> (r: TokenTree)
    ensures
        r@ == t@,
    decreases *t,
{
    match t {
        TokenTree::Ident(w) => TokenTree::Ident(w.clone()),
        TokenTree::Punct(c, joint) => TokenTree::Punct(*c, *joint),
        TokenTree::Literal(w) => TokenTree::Literal(w.clone()),
        TokenTree::Group(d, ts) => TokenTree::Group(*d, clone_trees(ts.as_slice())),
    }
}

impl Clone for TokenTree {
    fn clone(&self) -> (r: Self)
        ensures
            r@ == self@,
    {
        clone_tree(self)
    }
}

/// A copy of a run of tokens.
pub fn clone_trees(ts: &[TokenTree]) -> (r: Vec<TokenTree>)
    ensures
        trees_view(r@) == trees_view(ts@),
    decreases ts@,
{
    let mut out: Vec<TokenTree> = Vec::new();
    let mut i: usize = 0;
    while i < ts.len()
        invariant
            i <= ts.len(),
            out.len() == i,
            forall|j: int| 0 <= j < i ==> tree_view(out@[j]) == tree_view(ts@[j]),
        decreases ts.len() - i,
    {
        let t = clone_tree(&ts[i]);
        out.push(t);
        i = i + 1;
    }
    proof {
        assert(trees_view(out@) =~= trees_view(ts@));
    }
    out
}

} // verus!
