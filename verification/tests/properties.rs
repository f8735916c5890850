//! Concrete checks of the library's stated behaviour: failure leaves the
//! input untouched, success leaves a suffix, and the combinator laws hold
//! on sample inputs.

use parser_combinators::combinators::{identity, left, one_or_more, pair, zero_or_more};
use parser_combinators::derived::{quoted_string, space0, space1, whitespace_char};
use parser_combinators::parser::Parser;
use parser_combinators::primitives::{
    any_char, identifier, match_literal, the_letter_a, AnyChar, Identifier,
};

#[test]
fn literal_consumes_exactly_its_text() {
    let parser = match_literal("abra");
    assert_eq!(Ok(("kadabra", ())), parser.parse("abrakadabra"));
}

#[test]
fn letter_a_matches_and_fails_cleanly() {
    assert_eq!(Ok(("bc", ())), the_letter_a("abc"));
    assert_eq!(Err("xyz"), the_letter_a("xyz"));
    assert_eq!(Err(""), the_letter_a(""));
}

#[test]
fn any_char_takes_one_character() {
    assert_eq!(Ok(("ctazooka", 'o')), any_char("octazooka"));
    assert_eq!(Err(""), any_char(""));
}

#[test]
fn failure_returns_input_unchanged() {
    assert_eq!(Err("!abc"), identifier("!abc"));
    assert_eq!(Err("pikachu"), match_literal("abra").parse("pikachu"));
    assert_eq!(Err("x"), space1().parse("x"));
}

#[test]
fn success_leaves_a_suffix() {
    let input = "a b-c-d";
    let (remainder, matched) = identifier(input).expect("leading letter must match");
    assert!(input.ends_with(remainder));
    assert_eq!(input, format!("{}{}", matched, remainder));
}

#[test]
fn zero_or_more_never_fails() {
    for input in ["lelele", "delelele", "", "le", "xyz"] {
        assert!(zero_or_more(match_literal("le")).parse(input).is_ok());
        assert!(space0().parse(input).is_ok());
    }
}

#[test]
fn one_or_more_fails_exactly_when_zero_or_more_is_empty() {
    for input in ["lelele", "delelele", "", "le", "lex"] {
        let failed = one_or_more(match_literal("le")).parse(input).is_err();
        let empty = zero_or_more(match_literal("le"))
            .parse(input)
            .expect("zero_or_more never fails")
            .1
            .is_empty();
        assert_eq!(failed, empty);
    }
}

#[test]
fn map_identity_changes_nothing() {
    for input in ["octo", "", "a"] {
        assert_eq!(AnyChar.parse(input), parser_combinators::combinators::map(AnyChar, identity()).parse(input));
    }
}

#[test]
fn left_keeps_the_first_value() {
    let parser = left(Identifier, match_literal("/>"));
    assert_eq!(Ok(("", "br".to_string())), parser.parse("br/>"));
    assert_eq!(Err("<br>"), parser.parse("<br>"));
}

#[test]
fn whitespace_parsers_split_on_blanks() {
    assert_eq!(Ok(("z", '\t')), whitespace_char().parse("\tz"));
    assert_eq!(Ok(("x", vec![' '])), space1().parse(" x"));
    assert_eq!(Ok(("x", vec![])), space0().parse("x"));
    assert_eq!(Ok(("", vec![' ', '\n'])), space1().parse(" \n"));
}

#[test]
fn identifier_accepts_letters_digits_and_hyphens() {
    assert_eq!(Ok((" x", "h9-llo".to_string())), identifier("h9-llo x"));
    assert_eq!(Ok((" x", "héllo-1".to_string())), identifier("héllo-1 x"));
    assert_eq!(Err("9skip"), identifier("9skip"));
}

#[test]
fn quoted_string_requires_both_quotes() {
    assert_eq!(Ok(("", "".to_string())), quoted_string().parse("\"\""));
    assert_eq!(Ok(("!", "hi".to_string())), quoted_string().parse("\"hi\"!"));
    assert_eq!(Err("no quotes"), quoted_string().parse("no quotes"));
    // with no closing quote the failure arises in the second step of a
    // sequence, whose surface by then is the empty remainder
    assert_eq!(Err(""), quoted_string().parse("\"abc"));
}

#[test]
fn pair_failure_surfaces_intermediate_input() {
    let parser = pair(match_literal("a"), match_literal("b"));
    assert_eq!(Err("c"), parser.parse("ac"));
    assert_eq!(Err("xy"), parser.parse("xy"));
}
