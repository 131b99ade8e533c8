//! Reading paths: scoped names with optional generic arguments and an
//! optional qualified self.

use crate::ast::{
    Path, PathArguments, PathSegment, PathSegmentView, PathView, QSelf, QSelfView, qself_view,
    views,
};
use crate::error::{Expected, Parsed, ParseError, ParseErrorView, parsed_view};
use crate::grammar;
use crate::token::{
    TokenTree, advance, clone_trees, joint_at, keyword, lemma_trees_view_subrange, path_keyword,
    peek_colon2, peek_joint, peek_punct, punct_at, same_text, trees_view,
};
use vstd::prelude::*;
use vstd::slice::slice_subrange;

verus! {

/// The result of a rule on the rest of the input, seen from the start:
/// `acc` was read before it, in `k` tokens.
pub open spec fn after<V>(acc: Seq<V>, k: nat, r: Parsed<Seq<V>>) -> Parsed<Seq<V>> {
    match r {
        Ok((rest, m)) => Ok((acc + rest, k + m)),
        Err(e) => Err(e),
    }
}

/// Finds the `>` that closes an angle bracket opened just before token
/// `start`, and returns how many tokens lie between.
pub fn angle_end(input: &[TokenTree], start: usize) -> (r: Option<usize>)
    requires
        start <= input.len(),
    ensures
        match r {
            Some(n) => grammar::angle_close(trees_view(input@).skip(start as int), 0, false)
                == Some(n as nat) && start + n < input.len(),
            None => grammar::angle_close(trees_view(input@).skip(start as int), 0, false) is None,
        },
{
    let ghost s = trees_view(input@);
    let mut i: usize = start;
    let mut depth: usize = 0;
    let mut arrow = false;
    while i < input.len()
        invariant
            start <= i <= input.len(),
            depth <= i - start,
            s == trees_view(input@),
            grammar::angle_close(s.skip(start as int), 0, false) == (match grammar::angle_close(
                s.skip(i as int),
                depth as nat,
                arrow,
            ) {
                Some(n) => Some((n + i - start) as nat),
                None => None,
            }),
        decreases input.len() - i,
    {
        let close = peek_punct(input, i, '>') && !arrow;
        proof {
            assert(s.skip(i as int).skip(1) =~= s.skip(i + 1));
            assert(punct_at(s.skip(i as int), 0, '>') == punct_at(s, i as int, '>'));
            assert(punct_at(s.skip(i as int), 0, '<') == punct_at(s, i as int, '<'));
            assert(joint_at(s.skip(i as int), 0, '-') == joint_at(s, i as int, '-'));
        }
        if close && depth == 0 {
            return Some(i - start);
        }
        if peek_punct(input, i, '<') {
            depth = depth + 1;
        } else if close {
            depth = depth - 1;
        }
        arrow = peek_joint(input, i, '-');
        i = i + 1;
    }
    None
}

/// Reads one path segment.
pub fn path_segment(input: &[TokenTree]) -> (r: Result<(PathSegment, usize), ParseError>)
    ensures
        parsed_view(r) == grammar::path_segment(trees_view(input@)),
        r matches Ok((_, n)) ==> 1 <= n <= input.len(),
{
    reveal(grammar::path_segment);
    if input.len() == 0 {
        return Err(ParseError::at(input, 0, Expected::Ident));
    }
    match &input[0] {
        TokenTree::Ident(name) => {
            if path_keyword(name.as_str()) {
                Ok((PathSegment { ident: name.clone(), arguments: PathArguments::Empty }, 1))
            } else if keyword(name.as_str()) && !same_text(name.as_str(), "Self") {
                Err(ParseError::at(input, 0, Expected::Ident))
            } else if peek_colon2(input, 1) && peek_punct(input, 3, '<') {
                match angle_end(input, 4) {
                    Some(n) => {
                        let inner = slice_subrange(input, 4, 4 + n);
                        let tokens = clone_trees(inner);
                        proof {
                            lemma_trees_view_subrange(input@, 4, 4 + n);
                        }
                        Ok(
                            (
                                PathSegment {
                                    ident: name.clone(),
                                    arguments: PathArguments::AngleBracketed(tokens),
                                },
                                5 + n,
                            ),
                        )
                    },
                    None => Err(ParseError::at(input, input.len(), Expected::Gt)),
                }
            } else {
                Ok((PathSegment { ident: name.clone(), arguments: PathArguments::Empty }, 1))
            }
        },
        _ => Err(ParseError::at(input, 0, Expected::Ident)),
    }
}

/// Reads path segments separated by `::`.
pub fn path_segments(input: &[TokenTree]) -> (r: Result<(Vec<PathSegment>, usize), ParseError>)
    ensures
        match r {
            Ok((v, n)) => grammar::path_segments(trees_view(input@)) == Ok::<
                (Seq<PathSegmentView>, nat),
                ParseErrorView,
            >((views(v@), n as nat)) && 1 <= n <= input.len(),
            Err(e) => grammar::path_segments(trees_view(input@)) == Err::<
                (Seq<PathSegmentView>, nat),
                ParseErrorView,
            >(e@),
        },
{
    reveal(grammar::path_segments);
    let ghost s = trees_view(input@);
    let mut segments: Vec<PathSegment> = Vec::new();
    let mut pos: usize = 0;
    proof {
        assert(s.skip(0) =~= s);
        assert(views(segments@) =~= Seq::<PathSegmentView>::empty());
        match grammar::path_segments(s) {
            Ok((rest, m)) => {
                assert(Seq::<PathSegmentView>::empty() + rest =~= rest);
            },
            Err(_) => {},
        }
    }
    loop
        invariant
            pos <= input.len(),
            s == trees_view(input@),
            grammar::path_segments(s) == after(
                views(segments@),
                pos as nat,
                grammar::path_segments(s.skip(pos as int)),
            ),
        decreases input.len() - pos,
    {
        reveal(grammar::path_segments);
        let rest = advance(input, pos);
        let ghost acc = views(segments@);
        match path_segment(rest) {
            Err(e) => {
                return Err(e);
            },
            Ok((segment, n)) => {
                let ghost seg = segment@;
                segments.push(segment);
                proof {
                    assert(views(segments@) =~= acc.push(seg));
                    assert(acc + seq![seg] =~= acc.push(seg));
                }
                if peek_colon2(rest, n) {
                    proof {
                        assert(s.skip(pos as int).skip((n + 2) as int) =~= s.skip(pos + n + 2));
                        match grammar::path_segments(s.skip(pos + n + 2)) {
                            Ok((more, m)) => {
                                assert(acc + (seq![seg] + more) =~= acc.push(seg) + more);
                            },
                            Err(_) => {},
                        }
                    }
                    pos = pos + n + 2;
                } else {
                    return Ok((segments, pos + n));
                }
            },
        }
    }
}

/// Reads a path.
pub fn path(input: &[TokenTree]) -> (r: Result<(Path, usize), ParseError>)
    ensures
        parsed_view(r) == grammar::path(trees_view(input@)),
        r matches Ok((_, n)) ==> 1 <= n <= input.len(),
{
    reveal(grammar::path);
    let leading_colon = peek_colon2(input, 0);
    let k: usize = if leading_colon {
        2
    } else {
        0
    };
    let rest = advance(input, k);
    match path_segments(rest) {
        Err(e) => Err(e),
        Ok((segments, n)) => Ok((Path { leading_colon, segments }, k + n)),
    }
}

/// The value of an optional qualified self together with a path.
pub open spec fn qpath_view(v: (Option<QSelf>, Path)) -> (Option<QSelfView>, PathView) {
    (qself_view(v.0), v.1@)
}

/// Reads a path that may start with a qualified self.
pub fn qpath(input: &[TokenTree]) -> (r: Result<((Option<QSelf>, Path), usize), ParseError>)
    ensures
        match r {
            Ok((v, n)) => grammar::qpath(trees_view(input@)) == Ok::<
                ((Option<QSelfView>, PathView), nat),
                ParseErrorView,
            >((qpath_view(v), n as nat)) && 1 <= n <= input.len(),
            Err(e) => grammar::qpath(trees_view(input@)) == Err::<
                ((Option<QSelfView>, PathView), nat),
                ParseErrorView,
            >(e@),
        },
{
    reveal(grammar::qpath);
    if peek_punct(input, 0, '<') {
        match angle_end(input, 1) {
            None => Err(ParseError::at(input, input.len(), Expected::Gt)),
            Some(n) => {
                if n == 0 {
                    Err(ParseError::at(input, 1, Expected::Type))
                } else if !peek_colon2(input, n + 2) {
                    if n + 2 <= input.len() {
                        Err(ParseError::at(input, n + 2, Expected::PathSep))
                    } else {
                        Err(ParseError::at(input, input.len(), Expected::PathSep))
                    }
                } else {
                    let rest = advance(input, n + 4);
                    match path_segments(rest) {
                        Err(e) => Err(e),
                        Ok((segments, m)) => {
                            let inner = slice_subrange(input, 1, n + 1);
                            let tokens = clone_trees(inner);
                            proof {
                                lemma_trees_view_subrange(input@, 1, n + 1);
                            }
                            Ok(
                                (
                                    (Some(QSelf { tokens }), Path { leading_colon: true, segments }),
                                    n + 4 + m,
                                ),
                            )
                        },
                    }
                }
            },
        }
    } else {
        match path(input) {
            Err(e) => Err(e),
            Ok((p, n)) => Ok(((None, p), n)),
        }
    }
}

} // verus!
