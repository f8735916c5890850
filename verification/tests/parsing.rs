//! The combinator scenarios: concrete inputs with their expected outcomes.

use parser_combinators::combinators::{one_or_more, pair, pred, right, zero_or_more};
use parser_combinators::derived::{quoted_string, CharEq};
use parser_combinators::parser::Parser;
use parser_combinators::primitives::{
    identifier, match_literal, match_literal_improved, AnyChar, Identifier,
};

#[test]
fn literal_parser() {
    let parser = match_literal("abra");
    assert_eq!(Ok(("", ())), parser.parse("abra"));
    assert_eq!(
        Ok(("kadabraalakazam", ())),
        parser.parse("abrakadabraalakazam")
    );
    assert_eq!(Err(""), parser.parse(""));
    assert_eq!(Err("abc"), parser.parse("abc"));
    assert_eq!(Err("pikachu"), parser.parse("pikachu"));
}

#[test]
fn literal_parser_improved() {
    let parser = match_literal_improved("abra");
    assert_eq!(Ok(("", ())), parser.parse("abra"));
    assert_eq!(
        Ok(("kadabraalakazam", ())),
        parser.parse("abrakadabraalakazam")
    );
    assert_eq!(Err(""), parser.parse(""));
    assert_eq!(Err("abc"), parser.parse("abc"));
    assert_eq!(Err("pikachu"), parser.parse("pikachu"));
}

#[test]
fn identifier_parser() {
    assert_eq!(Ok(("", "a-b-c-d".to_string())), identifier("a-b-c-d"));
    assert_eq!(Ok((" b-c-d", "a".to_string())), identifier("a b-c-d"));
    assert_eq!(Err("!a-b-c-d"), identifier("!a-b-c-d"));
}

#[test]
fn pair_combinator() {
    let tag_opener = pair(match_literal("<"), Identifier);
    assert_eq!(
        Ok(("/>", ((), "br".to_string()))),
        tag_opener.parse("<br/>")
    );
    assert_eq!(Err("oh no"), tag_opener.parse("oh no"));
    assert_eq!(
        Err("!-- I'm just a comment! -->"),
        tag_opener.parse("<!-- I'm just a comment! -->")
    );
}

#[test]
fn right_combinator() {
    let tag_opener = right(match_literal("<"), Identifier);
    assert_eq!(Ok(("/>", "br".to_string())), tag_opener.parse("<br/>"));
    assert_eq!(Err("oh no"), tag_opener.parse("oh no"));
    assert_eq!(
        Err("!-- I'm just a comment! -->"),
        tag_opener.parse("<!-- I'm just a comment! -->")
    );
}

#[test]
fn one_or_more_combinator() {
    let parser = one_or_more(match_literal("le"));
    assert_eq!(Ok(("", vec![(), (), ()])), parser.parse("lelele"));
    assert_eq!(
        Err("delelelelelewhooop"),
        parser.parse("delelelelelewhooop")
    );
    assert_eq!(Err(""), parser.parse(""));
}

#[test]
fn zero_or_more_combinator() {
    let parser = zero_or_more(match_literal("le"));
    assert_eq!(Ok(("", vec![(), (), ()])), parser.parse("lelele"));
    assert_eq!(
        Ok(("delelelelelewhooop", vec![])),
        parser.parse("delelelelelewhooop")
    );
    assert_eq!(Ok(("", vec![])), parser.parse(""));
}

#[test]
fn predicate_combinator() {
    let parser = pred(AnyChar, CharEq { expected: 'o' });
    assert_eq!(Ok(("ctazooka", 'o')), parser.parse("octazooka"));
    assert_eq!(Err("bazooka"), parser.parse("bazooka"));
}

#[test]
fn quoted_string_parser() {
    assert_eq!(
        Ok(("", "value".to_string())),
        quoted_string().parse("\"value\"")
    );
}
