//! The combinators: operators that turn parsers into new parsers without
//! inspecting input themselves.

use crate::parser::{
    is_suffix_of, lemma_suffix_refl, lemma_suffix_trans, ParseResult, Parser, SpecResult,
};
use core::marker::PhantomData;
use vstd::prelude::*;
use vstd::string::StrSliceExecFns;

verus! {

/// A total transformation of parsed values, given by its meaning on deep
/// views; the executable `apply` must realise exactly that meaning.
pub trait MapFn {
    /// The value the transformation consumes.
    type In: DeepView;

    /// The value the transformation produces.
    type Out: DeepView;

    /// The meaning of the transformation on deep views.
    spec fn spec_apply(&self, a: <Self::In as DeepView>::V) -> <Self::Out as DeepView>::V;

    /// Apply the transformation; it is total, so there is no precondition.
    fn apply(&self, a: Self::In) -> (b: Self::Out)
        ensures
            b.deep_view() == self.spec_apply(a.deep_view()),
    ;
}

/// Runs the inner parser and, on success, applies a transformation to the
/// value, leaving the remainder untouched; failure propagates unchanged.
pub struct Mapped<P, F> {
    pub parser: P,
    pub mapper: F,
}

impl<P: Parser, F: MapFn<In = P::Output>> Parser for Mapped<P, F> {
    type Output = F::Out;

    open spec fn spec_parse(&self, s: Seq<char>) -> SpecResult<<F::Out as DeepView>::V> {
        match self.parser.spec_parse(s) {
            Ok(p) => Ok((p.0, self.mapper.spec_apply(p.1))),
            Err(t) => Err(t),
        }
    }

    proof fn lemma_parse_suffix(&self, s: Seq<char>) {
        self.parser.lemma_parse_suffix(s);
    }

    fn parse<'a>(&self, input: &'a str) -> (r: ParseResult<'a, F::Out>) {
        match self.parser.parse(input) {
            Ok((next, value)) => Ok((next, self.mapper.apply(value))),
            Err(e) => Err(e),
        }
    }
}

/// Wraps `parser` so that every successful value is transformed by
/// `map_fn`.
pub fn map<P: Parser, F: MapFn<In = P::Output>>(parser: P, map_fn: F) -> (p: Mapped<P, F>)
    ensures
        p.parser == parser,
        p.mapper == map_fn,
{
    Mapped { parser, mapper: map_fn }
}

/// Runs one parser, then a second one on the remainder; succeeds with the
/// pair of both values only when both succeed. A failing step reports the
/// input it received, so a failure of the second parser surfaces the
/// intermediate input, not the original: sequencing deliberately does not
/// backtrack.
pub struct Pair<P1, P2> {
    pub first: P1,
    pub second: P2,
}

impl<P1: Parser, P2: Parser> Parser for Pair<P1, P2> {
    type Output = (P1::Output, P2::Output);

    open spec fn spec_parse(&self, s: Seq<char>) -> SpecResult<
        (<P1::Output as DeepView>::V, <P2::Output as DeepView>::V),
    > {
        match self.first.spec_parse(s) {
            Ok(p1) => match self.second.spec_parse(p1.0) {
                Ok(p2) => Ok((p2.0, (p1.1, p2.1))),
                Err(t) => Err(t),
            },
            Err(t) => Err(t),
        }
    }

    proof fn lemma_parse_suffix(&self, s: Seq<char>) {
        self.first.lemma_parse_suffix(s);
        if let Ok(p1) = self.first.spec_parse(s) {
            self.second.lemma_parse_suffix(p1.0);
            match self.second.spec_parse(p1.0) {
                Ok(p2) => lemma_suffix_trans(p2.0, p1.0, s),
                Err(t) => lemma_suffix_trans(t, p1.0, s),
            }
        }
    }

    fn parse<'a>(&self, input: &'a str) -> (r: ParseResult<'a, (P1::Output, P2::Output)>) {
        match self.first.parse(input) {
            Ok((next, value1)) => match self.second.parse(next) {
                Ok((last, value2)) => Ok((last, (value1, value2))),
                Err(e) => Err(e),
            },
            Err(e) => Err(e),
        }
    }
}

/// Sequences two parsers, keeping both values as a pair.
pub fn pair<P1: Parser, P2: Parser>(parser1: P1, parser2: P2) -> (p: Pair<P1, P2>)
    ensures
        p.first == parser1,
        p.second == parser2,
{
    Pair { first: parser1, second: parser2 }
}

/// The projection that keeps the first component of a parsed pair.
pub struct TakeLeft<A, B> {
    pub marker: PhantomData<(A, B)>,
}

impl<A: DeepView, B: DeepView> MapFn for TakeLeft<A, B> {
    type In = (A, B);

    type Out = A;

    open spec fn spec_apply(&self, a: (<A as DeepView>::V, <B as DeepView>::V)) -> <A as DeepView>::V {
        a.0
    }

    fn apply(&self, a: (A, B)) -> (b: A) {
        a.0
    }
}

/// The projection that keeps the second component of a parsed pair.
pub struct TakeRight<A, B> {
    pub marker: PhantomData<(A, B)>,
}

impl<A: DeepView, B: DeepView> MapFn for TakeRight<A, B> {
    type In = (A, B);

    type Out = B;

    open spec fn spec_apply(&self, a: (<A as DeepView>::V, <B as DeepView>::V)) -> <B as DeepView>::V {
        a.1
    }

    fn apply(&self, a: (A, B)) -> (b: B) {
        a.1
    }
}

/// Sequences two parsers and keeps only the first value: `map` over `pair`
/// with a projection, adding no matching logic of its own.
pub fn left<P1: Parser, P2: Parser>(parser1: P1, parser2: P2) -> (p: Mapped<
    Pair<P1, P2>,
    TakeLeft<P1::Output, P2::Output>,
>)
    ensures
        p.parser.first == parser1,
        p.parser.second == parser2,
{
    map(pair(parser1, parser2), TakeLeft { marker: PhantomData })
}

/// Sequences two parsers and keeps only the second value: `map` over
/// `pair` with a projection, adding no matching logic of its own.
pub fn right<P1: Parser, P2: Parser>(parser1: P1, parser2: P2) -> (p: Mapped<
    Pair<P1, P2>,
    TakeRight<P1::Output, P2::Output>,
>)
    ensures
        p.parser.first == parser1,
        p.parser.second == parser2,
{
    map(pair(parser1, parser2), TakeRight { marker: PhantomData })
}

/// The identity transformation; mapping a parser through it leaves the
/// parser's behaviour unchanged.
pub struct IdentityFn<A> {
    pub marker: PhantomData<A>,
}

impl<A: DeepView> MapFn for IdentityFn<A> {
    type In = A;

    type Out = A;

    open spec fn spec_apply(&self, a: <A as DeepView>::V) -> <A as DeepView>::V {
        a
    }

    fn apply(&self, a: A) -> (b: A) {
        a
    }
}

/// Returns the identity transformation.
pub fn identity<A: DeepView>() -> (f: IdentityFn<A>) {
    IdentityFn { marker: PhantomData }
}

/// A boolean test on parsed values, given by its meaning on deep views;
/// the executable `test` must realise exactly that meaning.
pub trait ValuePred {
    /// The value the test inspects.
    type Val: DeepView;

    /// The meaning of the test on deep views.
    spec fn spec_test(&self, a: <Self::Val as DeepView>::V) -> bool;

    /// Run the test; it is total, so there is no precondition.
    fn test(&self, a: &Self::Val) -> (r: bool)
        ensures
            r == self.spec_test(a.deep_view()),
    ;
}

/// Runs the inner parser and keeps its success only when the value
/// satisfies the predicate; otherwise — whether the inner parser failed or
/// the predicate rejected the value — fails with the original input, so
/// a rejection never reports partial consumption.
pub struct Pred<P, F> {
    pub parser: P,
    pub predicate: F,
}

impl<P: Parser, F: ValuePred<Val = P::Output>> Parser for Pred<P, F> {
    type Output = P::Output;

    open spec fn spec_parse(&self, s: Seq<char>) -> SpecResult<<P::Output as DeepView>::V> {
        match self.parser.spec_parse(s) {
            Ok(p) => if self.predicate.spec_test(p.1) {
                Ok(p)
            } else {
                Err(s)
            },
            Err(_) => Err(s),
        }
    }

    proof fn lemma_parse_suffix(&self, s: Seq<char>) {
        self.parser.lemma_parse_suffix(s);
        lemma_suffix_refl(s);
    }

    fn parse<'a>(&self, input: &'a str) -> (r: ParseResult<'a, P::Output>) {
        match self.parser.parse(input) {
            Ok((next, value)) => if self.predicate.test(&value) {
                Ok((next, value))
            } else {
                Err(input)
            },
            Err(_) => Err(input),
        }
    }
}

/// Restricts `parser` to the values that satisfy `predicate`.
pub fn pred<P: Parser, F: ValuePred<Val = P::Output>>(parser: P, predicate: F) -> (p: Pred<P, F>)
    ensures
        p.parser == parser,
        p.predicate == predicate,
{
    Pred { parser, predicate }
}

/// What repeated application of `p` to successive remainders yields: the
/// final remainder and the collected values, stopping at the first failure
/// without consuming anything for the failed attempt. An inner success
/// that consumes nothing is collected once and ends the repetition, which
/// keeps every repetition finite; the inner parsers of this library all
/// consume on success, so the guard is never reached through them.
pub open spec fn repetition<P: Parser>(p: P, s: Seq<char>) -> (
    Seq<char>,
    Seq<<P::Output as DeepView>::V>,
)
    decreases s.len(),
{
    match p.spec_parse(s) {
        Err(_) => (s, Seq::<<P::Output as DeepView>::V>::empty()),
        Ok(q) => if q.0.len() < s.len() {
            let rest = repetition(p, q.0);
            (rest.0, seq![q.1] + rest.1)
        } else {
            (s, seq![q.1])
        },
    }
}

/// The remainder of a repetition is a suffix of the input.
pub proof fn lemma_repetition_suffix<P: Parser>(p: P, s: Seq<char>)
    ensures
        is_suffix_of(repetition(p, s).0, s),
    decreases s.len(),
{
    match p.spec_parse(s) {
        Err(_) => lemma_suffix_refl(s),
        Ok(q) => {
            if q.0.len() < s.len() {
                p.lemma_parse_suffix(s);
                lemma_repetition_suffix(p, q.0);
                lemma_suffix_trans(repetition(p, q.0).0, q.0, s);
            } else {
                lemma_suffix_refl(s);
            }
        },
    }
}

/// Applies `p` to successive remainders until it fails, returning the final
/// remainder and every collected value; never fails.
fn parse_repeated<'a, P: Parser>(p: &P, input: &'a str) -> (r: (&'a str, Vec<P::Output>))
    ensures
        r.0@ == repetition(*p, input@).0,
        r.1.deep_view() == repetition(*p, input@).1,
{
    let mut cur: &'a str = input;
    let mut result: Vec<P::Output> = Vec::new();
    loop
        invariant_except_break
            repetition(*p, input@).0 == repetition(*p, cur@).0,
            repetition(*p, input@).1 == result.deep_view() + repetition(*p, cur@).1,
        ensures
            cur@ == repetition(*p, input@).0,
            result.deep_view() == repetition(*p, input@).1,
        decreases cur@.len(),
    {
        let ghost prev = cur@;
        let ghost prev_values = result.deep_view();
        match p.parse(cur) {
            Err(_) => {
                proof {
                    assert(repetition(*p, prev).0 == prev);
                    assert(repetition(*p, prev).1 =~= Seq::<
                        <P::Output as DeepView>::V,
                    >::empty());
                    assert(prev_values + repetition(*p, prev).1 =~= prev_values);
                }
                break;
            },
            Ok((next, value)) => {
                let next_len = next.unicode_len();
                let cur_len = cur.unicode_len();
                let ghost value_view = value.deep_view();
                result.push(value);
                proof {
                    assert(result.deep_view() =~= prev_values.push(value_view));
                }
                if next_len == cur_len {
                    proof {
                        p.lemma_parse_suffix(prev);
                        assert(next@ == prev.skip(0));
                        assert(prev.skip(0) =~= prev);
                        assert(repetition(*p, prev).1 == seq![value_view]);
                        assert(prev_values + seq![value_view] =~= prev_values.push(value_view));
                    }
                    break;
                }
                cur = next;
                proof {
                    p.lemma_parse_suffix(prev);
                    assert(repetition(*p, prev).0 == repetition(*p, cur@).0);
                    assert(repetition(*p, prev).1 == seq![value_view] + repetition(*p, cur@).1);
                    assert(prev_values + (seq![value_view] + repetition(*p, cur@).1)
                        =~= prev_values.push(value_view) + repetition(*p, cur@).1);
                }
            },
        }
    }
    (cur, result)
}

/// Applies the inner parser repeatedly, collecting every value; always
/// succeeds, with an empty sequence and the original input as remainder
/// when the first attempt fails.
pub struct ZeroOrMore<P> {
    pub parser: P,
}

impl<P: Parser> Parser for ZeroOrMore<P> {
    type Output = Vec<P::Output>;

    open spec fn spec_parse(&self, s: Seq<char>) -> SpecResult<Seq<<P::Output as DeepView>::V>> {
        Ok(repetition(self.parser, s))
    }

    proof fn lemma_parse_suffix(&self, s: Seq<char>) {
        lemma_repetition_suffix(self.parser, s);
    }

    fn parse<'a>(&self, input: &'a str) -> (r: ParseResult<'a, Vec<P::Output>>) {
        let (rem, values) = parse_repeated(&self.parser, input);
        Ok((rem, values))
    }
}

/// Repeats the inner parser any number of times, zero included.
pub fn zero_or_more<P: Parser>(parser: P) -> (p: ZeroOrMore<P>)
    ensures
        p.parser == parser,
{
    ZeroOrMore { parser }
}

/// Applies the inner parser repeatedly, collecting every value; fails with
/// the original input when even the first attempt fails.
pub struct OneOrMore<P> {
    pub parser: P,
}

impl<P: Parser> Parser for OneOrMore<P> {
    type Output = Vec<P::Output>;

    open spec fn spec_parse(&self, s: Seq<char>) -> SpecResult<Seq<<P::Output as DeepView>::V>> {
        match self.parser.spec_parse(s) {
            Err(_) => Err(s),
            Ok(_) => Ok(repetition(self.parser, s)),
        }
    }

    proof fn lemma_parse_suffix(&self, s: Seq<char>) {
        lemma_repetition_suffix(self.parser, s);
        lemma_suffix_refl(s);
    }

    fn parse<'a>(&self, input: &'a str) -> (r: ParseResult<'a, Vec<P::Output>>) {
        match self.parser.parse(input) {
            Err(_) => Err(input),
            Ok((next, first_item)) => {
                let next_len = next.unicode_len();
                let input_len = input.unicode_len();
                let ghost first_view = first_item.deep_view();
                let mut result: Vec<P::Output> = Vec::new();
                result.push(first_item);
                proof {
                    assert(result.deep_view() =~= seq![first_view]);
                }
                if next_len == input_len {
                    proof {
                        self.parser.lemma_parse_suffix(input@);
                        assert(next@ == input@.skip(0));
                        assert(input@.skip(0) =~= input@);
                        assert(repetition(self.parser, input@).1 == seq![first_view]);
                    }
                    Ok((next, result))
                } else {
                    let (rem, mut values) = parse_repeated(&self.parser, next);
                    let ghost rest_values = values.deep_view();
                    result.append(&mut values);
                    proof {
                        self.parser.lemma_parse_suffix(input@);
                        assert(result.deep_view() =~= seq![first_view] + rest_values);
                        assert(repetition(self.parser, input@).0 == repetition(
                            self.parser,
                            next@,
                        ).0);
                        assert(repetition(self.parser, input@).1 == seq![first_view] + repetition(
                            self.parser,
                            next@,
                        ).1);
                    }
                    Ok((rem, result))
                }
            },
        }
    }
}

/// Repeats the inner parser at least once.
pub fn one_or_more<P: Parser>(parser: P) -> (p: OneOrMore<P>)
    ensures
        p.parser == parser,
{
    OneOrMore { parser }
}

} // verus!
