//! Parsers built purely from the primitives and combinators: whitespace
//! runs and quoted strings.

use crate::chars::char_whitespace;
use crate::combinators::{
    pred, repetition, MapFn, Mapped, OneOrMore, Pair, Pred, TakeLeft, TakeRight, ValuePred,
    ZeroOrMore,
};
use crate::parser::{Parser, SpecResult};
use crate::primitives::{match_literal, AnyChar, Literal};
use vstd::prelude::*;

verus! {

/// Keeps a parsed character only when it is whitespace.
pub struct IsWhitespace;

impl ValuePred for IsWhitespace {
    type Val = char;

    open spec fn spec_test(&self, a: char) -> bool {
        char_whitespace(a)
    }

    fn test(&self, a: &char) -> (r: bool) {
        a.is_whitespace()
    }
}

/// Keeps a parsed character only when it equals `expected`.
pub struct CharEq {
    pub expected: char,
}

impl ValuePred for CharEq {
    type Val = char;

    open spec fn spec_test(&self, a: char) -> bool {
        a == self.expected
    }

    fn test(&self, a: &char) -> (r: bool) {
        *a == self.expected
    }
}

/// Keeps a parsed character only when it differs from `forbidden`.
pub struct CharNe {
    pub forbidden: char,
}

impl ValuePred for CharNe {
    type Val = char;

    open spec fn spec_test(&self, a: char) -> bool {
        a != self.forbidden
    }

    fn test(&self, a: &char) -> (r: bool) {
        *a != self.forbidden
    }
}

/// Matches one whitespace character.
pub fn whitespace_char() -> (p: Pred<AnyChar, IsWhitespace>)
    ensures
        p == (Pred { parser: AnyChar, predicate: IsWhitespace }),
{
    pred(AnyChar, IsWhitespace)
}

/// Matches one or more whitespace characters.
pub fn space1() -> (p: OneOrMore<Pred<AnyChar, IsWhitespace>>)
    ensures
        p.parser == (Pred { parser: AnyChar, predicate: IsWhitespace }),
{
    OneOrMore { parser: whitespace_char() }
}

/// Matches zero or more whitespace characters; never fails.
pub fn space0() -> (p: ZeroOrMore<Pred<AnyChar, IsWhitespace>>)
    ensures
        p.parser == (Pred { parser: AnyChar, predicate: IsWhitespace }),
{
    ZeroOrMore { parser: whitespace_char() }
}

/// Relies on `String::push` from the standard library: it appends the
/// given character to the end of the string.
pub assume_specification[ String::push ](s: &mut String, c: char)
    ensures
        final(s)@ == old(s)@.push(c),
;

/// Concatenates a sequence of parsed characters into a string.
pub struct CollectString;

impl MapFn for CollectString {
    type In = Vec<char>;

    type Out = String;

    open spec fn spec_apply(&self, a: Seq<char>) -> Seq<char> {
        a
    }

    fn apply(&self, a: Vec<char>) -> (b: String) {
        let mut s = String::new();
        let mut i: usize = 0;
        while i < a.len()
            invariant
                i <= a@.len(),
                s@ == a@.take(i as int),
            decreases a@.len() - i,
        {
            s.push(a[i]);
            proof {
                assert(a@.take(i as int).push(a@[i as int]) =~= a@.take(i + 1));
            }
            i += 1;
        }
        proof {
            assert(a@.take(a@.len() as int) =~= a@);
            assert(a.deep_view() =~= a@);
        }
        s
    }
}

/// The number of leading characters of `s` that are not a double quote.
pub open spec fn quote_run(s: Seq<char>) -> int
    decreases s.len(),
{
    if s.len() > 0 && s[0] != '"' {
        1 + quote_run(s.skip(1))
    } else {
        0
    }
}

/// What [`quoted_string`] means, stated directly: a double quote, then the
/// run of characters up to the next double quote as the value, then the
/// closing quote, all three consumed. Without an opening quote it fails
/// with the input unchanged; without a closing quote the failure arises in
/// the second step of a sequence, so it surfaces the intermediate input,
/// which by then is empty.
pub open spec fn spec_quoted_string(s: Seq<char>) -> SpecResult<Seq<char>> {
    if s.len() > 0 && s[0] == '"' {
        let body = s.skip(1);
        let n = quote_run(body);
        if n < body.len() {
            Ok((body.skip(n + 1), body.take(n)))
        } else {
            Err(Seq::<char>::empty())
        }
    } else {
        Err(s)
    }
}

/// Repeating "any character other than a double quote" consumes exactly
/// the quote run and yields exactly those characters.
proof fn lemma_quote_run(s: Seq<char>)
    ensures
        0 <= quote_run(s) <= s.len(),
        quote_run(s) < s.len() ==> s[quote_run(s)] == '"',
        repetition((Pred { parser: AnyChar, predicate: CharNe { forbidden: '"' } }), s).0
            == s.skip(quote_run(s)),
        repetition((Pred { parser: AnyChar, predicate: CharNe { forbidden: '"' } }), s).1
            == s.take(quote_run(s)),
    decreases s.len(),
{
    let inner = Pred { parser: AnyChar, predicate: CharNe { forbidden: '"' } };
    if s.len() > 0 && s[0] != '"' {
        lemma_quote_run(s.skip(1));
        let n = quote_run(s.skip(1));
        assert(s.skip(1).skip(n) =~= s.skip(1 + n));
        assert(seq![s[0]] + s.skip(1).take(n) =~= s.take(1 + n));
    } else {
        assert(s.skip(0) =~= s);
        assert(s.take(0) =~= Seq::<char>::empty());
    }
}

/// Matches a double quote, then zero or more characters other than a
/// double quote, then a closing double quote; the value is the inner
/// characters collected into a string, the surrounding quotes discarded.
pub fn quoted_string() -> (p: Mapped<
    Mapped<
        Pair<
            Literal,
            Mapped<
                Pair<ZeroOrMore<Pred<AnyChar, CharNe>>, Literal>,
                TakeLeft<Vec<char>, ()>,
            >,
        >,
        TakeRight<(), Vec<char>>,
    >,
    CollectString,
>)
    ensures
        forall|s: Seq<char>| #[trigger] p.spec_parse(s) == spec_quoted_string(s),
{
    let p = crate::combinators::map(
        crate::combinators::right(
            match_literal("\""),
            crate::combinators::left(
                crate::combinators::zero_or_more(pred(AnyChar, CharNe { forbidden: '"' })),
                match_literal("\""),
            ),
        ),
        CollectString,
    );
    proof {
        reveal_strlit("\"");
        assert forall|s: Seq<char>| #[trigger] p.spec_parse(s) == spec_quoted_string(s) by {
            lemma_quote_run(s.skip(1));
            if s.len() > 0 && s[0] == '"' {
                assert(s.take(1) =~= "\""@);
                let body = s.skip(1);
                let n = quote_run(body);
                if n < body.len() {
                    assert(body.skip(n).take(1) =~= "\""@);
                    assert(body.skip(n).skip(1) =~= body.skip(n + 1));
                } else {
                    assert(body.skip(n) =~= Seq::<char>::empty());
                }
            } else {
                if s.len() > 0 {
                    assert(s.take(1)[0] == s[0]);
                }
            }
        }
    }
    p
}

} // verus!
