use pattern_syntax::ast::Pat;
use pattern_syntax::lex::{parse_str, tokenize};
use pattern_syntax::parsing::parse_pattern;

fn reparse(text: &str) -> (Pat, Pat) {
    let first = parse_str(text).unwrap();
    let printed = first.tokens();
    let second = parse_pattern(&printed).unwrap();
    (first, second)
}

fn stable(text: &str) {
    let (first, second) = reparse(text);
    assert_eq!(first, second, "{}", text);
    assert_eq!(second.tokens(), first.tokens(), "{}", text);
}

#[test]
fn round_trip_simple_patterns() {
    stable("_");
    stable("x");
    stable("ref x");
    stable("mut x");
    stable("ref mut x");
    stable("self");
    stable("x @ 1..=5");
    stable("..");
    stable("box x");
    stable("&x");
    stable("&mut x");
    stable("&&x");
    stable("&mut mut x");
}

#[test]
fn round_trip_literals_and_ranges() {
    stable("1");
    stable("-1");
    stable("\"text\"");
    stable("'c'");
    stable("true");
    stable("false");
    stable("-a::B");
    stable("1..2");
    stable("1..=2");
    stable("-1..=5");
    stable("a..=b");
    stable("A::B..C::D");
    stable("Self::MIN..=Self::MAX");
    stable("<T as Trait>::LOW..=<T as Trait>::HIGH");
}

#[test]
fn round_trip_paths_and_macros() {
    stable("a::b");
    stable("::a::b");
    stable("self::a");
    stable("Self");
    stable("crate::a::B");
    stable("super::A");
    stable("Option::<u8>::None");
    stable("<T as Trait>::CONST");
    stable("<Vec<Vec<u8>>>::EMPTY");
    stable("Table::<fn(u8) -> u8>::IDENTITY");
    stable("<fn() -> T as Maker>::DEFAULT");
    stable("vec![1, 2, 3]");
    stable("path::to::mac!{ any tokens ; at all }");
    stable("m!()");
}

#[test]
fn round_trip_tuples_slices_structs() {
    stable("()");
    stable("(a)");
    stable("(a,)");
    stable("(a, b)");
    stable("(a, .., b)");
    stable("[]");
    stable("[a, b, ..]");
    stable("[first, rest @ ..]");
    stable("Some(x)");
    stable("Some(ref mut x,)");
    stable("a::B(_, (c, d), [e])");
    stable("Point { x, y }");
    stable("Point { x, y, }");
    stable("Point { x, .. }");
    stable("Point { .. }");
    stable("Point {}");
    stable("Point { x: 0, y: (a, b), box z, ref w, ref mut v, mut u }");
    stable("Pair { 0: a, 1: _ }");
    stable("Wide::<T> { inner: Inner { deep: [1, 2], .. }, .. }");
}

#[test]
fn round_trip_alternatives() {
    stable("a | b");
    stable("| a");
    stable("| a | b | c");
    stable("Some(1) | None | Wrapper { x: 1..=2, .. }");
}

#[test]
fn round_trip_keeps_one_and_one_with_comma_apart() {
    let (plain, plain_again) = reparse("(a)");
    let (comma, comma_again) = reparse("(a,)");
    assert_eq!(plain, plain_again);
    assert_eq!(comma, comma_again);
    assert_ne!(plain, comma);
    assert_eq!(plain.tokens(), tokenize("(a)").unwrap());
    assert_eq!(comma.tokens(), tokenize("(a,)").unwrap());
}

#[test]
fn round_trip_after_one_printing_where_the_comma_before_the_dots_was_left_out() {
    let bare = parse_str("Point { x .. }").unwrap();
    let with_comma = parse_str("Point { x, .. }").unwrap();
    assert_ne!(bare, with_comma);
    assert_eq!(bare.tokens(), tokenize("Point { x, .. }").unwrap());
    let again = parse_pattern(&bare.tokens()).unwrap();
    assert_eq!(again, with_comma);
    assert_eq!(parse_pattern(&again.tokens()).unwrap(), again);
}

#[test]
fn printing_keeps_what_the_sink_held() {
    let pat = parse_str("(a, b)").unwrap();
    let mut sink = tokenize("x y").unwrap();
    pat.to_tokens(&mut sink);
    assert_eq!(sink, tokenize("x y (a, b)").unwrap());
}

#[test]
fn triple_dot_is_read_as_closed_and_printed_as_dot_dot_eq() {
    let pat = parse_str("1...2").unwrap();
    assert_eq!(pat, parse_str("1..=2").unwrap());
    assert_eq!(pat.tokens(), tokenize("1..=2").unwrap());
}
