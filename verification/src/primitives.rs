//! The primitive parsers: the leaves every combinator builds on.

use crate::chars::{char_alphabetic, char_alphanumeric};
use crate::parser::{lemma_suffix_refl, lemma_suffix_skip, ParseResult, Parser, SpecResult};
use vstd::prelude::*;
use vstd::string::StrSliceExecFns;

verus! {

/// Matches the single character `'a'` at the head of the input; what
/// `match_literal("a")` essentially does, written out by hand.
pub fn the_letter_a(input: &str) -> (r: ParseResult<()>)
    ensures
        input@.len() > 0 && input@[0] == 'a' ==> (r matches Ok(p) && p.0@ == input@.skip(1)
            && p.1 == ()),
        !(input@.len() > 0 && input@[0] == 'a') ==> (r matches Err(e) && e@ == input@),
{
    let len = input.unicode_len();
    if len > 0 && input.get_char(0) == 'a' {
        Ok((input.substring_char(1, len), ()))
    } else {
        Err(input)
    }
}

/// `expected` stands at the head of `s`.
pub open spec fn literal_matches(expected: Seq<char>, s: Seq<char>) -> bool {
    expected.len() <= s.len() && s.take(expected.len() as int) == expected
}

/// A parser that matches a fixed literal at the head of the input and
/// yields `()`, consuming exactly the literal.
pub struct Literal {
    pub expected: &'static str,
}

impl Parser for Literal {
    type Output = ();

    open spec fn spec_parse(&self, s: Seq<char>) -> SpecResult<()> {
        if literal_matches(self.expected@, s) {
            Ok((s.skip(self.expected@.len() as int), ()))
        } else {
            Err(s)
        }
    }

    proof fn lemma_parse_suffix(&self, s: Seq<char>) {
        if literal_matches(self.expected@, s) {
            lemma_suffix_skip(s, self.expected@.len() as int);
        } else {
            lemma_suffix_refl(s);
        }
    }

    fn parse<'a>(&self, input: &'a str) -> (r: ParseResult<'a, ()>) {
        let n = self.expected.unicode_len();
        let len = input.unicode_len();
        if n > len {
            return Err(input);
        }
        let mut i: usize = 0;
        while i < n
            invariant
                i <= n <= len,
                n == self.expected@.len(),
                len == input@.len(),
                forall|j: int| 0 <= j < i ==> input@[j] == self.expected@[j],
            decreases n - i,
        {
            if input.get_char(i) != self.expected.get_char(i) {
                proof {
                    assert(input@.take(n as int)[i as int] == input@[i as int]);
                }
                return Err(input);
            }
            i += 1;
        }
        proof {
            assert(input@.take(n as int) =~= self.expected@);
        }
        Ok((input.substring_char(n, len), ()))
    }
}

/// Returns a parser that matches `expected` at the head of the input.
pub fn match_literal(expected: &'static str) -> (p: Literal)
    ensures
        p.expected == expected,
{
    Literal { expected }
}

/// A second name for the literal matcher, the shape it takes when written
/// by stripping the expected prefix rather than by slicing; the parser it
/// returns behaves identically to the one from [`match_literal`].
pub fn match_literal_improved(expected: &'static str) -> (p: Literal)
    ensures
        p.expected == expected,
{
    Literal { expected }
}

/// A parser that consumes exactly one character, any character, and yields
/// it; it fails only on empty input.
pub struct AnyChar;

impl Parser for AnyChar {
    type Output = char;

    open spec fn spec_parse(&self, s: Seq<char>) -> SpecResult<char> {
        if s.len() > 0 {
            Ok((s.skip(1), s[0]))
        } else {
            Err(s)
        }
    }

    proof fn lemma_parse_suffix(&self, s: Seq<char>) {
        if s.len() > 0 {
            lemma_suffix_skip(s, 1);
        } else {
            lemma_suffix_refl(s);
        }
    }

    fn parse<'a>(&self, input: &'a str) -> (r: ParseResult<'a, char>) {
        let len = input.unicode_len();
        if len > 0 {
            let c = input.get_char(0);
            Ok((input.substring_char(1, len), c))
        } else {
            Err(input)
        }
    }
}

/// Consumes one character of `input`, failing only on empty input.
pub fn any_char(input: &str) -> (r: ParseResult<char>)
    ensures
        input@.len() > 0 ==> (r matches Ok(p) && p.0@ == input@.skip(1) && p.1 == input@[0]),
        input@.len() == 0 ==> (r matches Err(e) && e@ == input@),
{
    AnyChar.parse(input)
}

/// A character that may continue an identifier.
pub open spec fn ident_continue(c: char) -> bool {
    char_alphanumeric(c) || c == '-'
}

/// The index at which an identifier that is still running at position `i`
/// stops: the first position at or after `i` holding a character that does
/// not continue an identifier, or the end of the input.
pub open spec fn ident_end(s: Seq<char>, i: int) -> int
    decreases s.len() - i when 0 <= i <= s.len()
{
    if i < s.len() && ident_continue(s[i]) {
        ident_end(s, i + 1)
    } else {
        i
    }
}

/// Position and content of the identifier run starting at `i`.
pub proof fn lemma_ident_end(s: Seq<char>, i: int)
    requires
        0 <= i <= s.len(),
    ensures
        i <= ident_end(s, i) <= s.len(),
        forall|j: int| i <= j < ident_end(s, i) ==> ident_continue(s[j]),
        ident_end(s, i) < s.len() ==> !ident_continue(s[ident_end(s, i)]),
    decreases s.len() - i,
{
    if i < s.len() && ident_continue(s[i]) {
        lemma_ident_end(s, i + 1);
    }
}

/// Matches one alphabetic character followed by zero or more alphanumeric
/// characters or hyphens, yielding the matched text; fails, returning the
/// original input, when the first character is not alphabetic.
pub fn identifier(input: &str) -> (r: ParseResult<String>)
    ensures
        input@.len() > 0 && char_alphabetic(input@[0]) ==> (r matches Ok(p) && p.0@
            == input@.skip(ident_end(input@, 1)) && p.1@ == input@.take(ident_end(input@, 1))),
        !(input@.len() > 0 && char_alphabetic(input@[0])) ==> (r matches Err(e) && e@ == input@),
{
    let len = input.unicode_len();
    if len == 0 {
        return Err(input);
    }
    if !input.get_char(0).is_alphabetic() {
        return Err(input);
    }
    let mut i: usize = 1;
    while i < len
        invariant_except_break
            1 <= i <= len,
            len == input@.len(),
            ident_end(input@, 1) == ident_end(input@, i as int),
        ensures
            i as int == ident_end(input@, 1),
            i <= len,
            len == input@.len(),
        decreases len - i,
    {
        if !(input.get_char(i).is_alphanumeric() || input.get_char(i) == '-') {
            break;
        }
        i += 1;
    }
    let matched = input.substring_char(0, i);
    Ok((input.substring_char(i, len), matched.to_owned()))
}

/// A parser with the behaviour of [`identifier`], for use as a combinator
/// argument.
pub struct Identifier;

impl Parser for Identifier {
    type Output = String;

    open spec fn spec_parse(&self, s: Seq<char>) -> SpecResult<Seq<char>> {
        if s.len() > 0 && char_alphabetic(s[0]) {
            Ok((s.skip(ident_end(s, 1)), s.take(ident_end(s, 1))))
        } else {
            Err(s)
        }
    }

    proof fn lemma_parse_suffix(&self, s: Seq<char>) {
        if s.len() > 0 && char_alphabetic(s[0]) {
            lemma_ident_end(s, 1);
            lemma_suffix_skip(s, ident_end(s, 1));
        } else {
            lemma_suffix_refl(s);
        }
    }

    fn parse<'a>(&self, input: &'a str) -> (r: ParseResult<'a, String>) {
        proof {
            if input@.len() > 0 && char_alphabetic(input@[0]) {
                lemma_ident_end(input@, 1);
            }
        }
        identifier(input)
    }
}

} // verus!
