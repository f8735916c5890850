//! The laws the combinators obey, stated over their mathematical meanings
//! and proved once for every inner parser and every input.

use crate::combinators::{IdentityFn, Mapped, OneOrMore, Pair, Pred, ValuePred, ZeroOrMore};
use crate::parser::{is_suffix_of, lemma_suffix_split, Parser};
use crate::primitives::{AnyChar, Identifier, Literal};
use vstd::prelude::*;

verus! {

/// Suffix invariant: when a parser succeeds, the remainder is never longer
/// than the input, and the input is exactly some consumed prefix followed
/// by the remainder.
pub proof fn lemma_success_splits_input<P: Parser>(p: P, s: Seq<char>)
    ensures
        (match p.spec_parse(s) {
            Ok(q) => q.0.len() <= s.len() && s == s.take(s.len() - q.0.len()) + q.0,
            Err(_) => true,
        }),
{
    p.lemma_parse_suffix(s);
    if let Ok(q) = p.spec_parse(s) {
        lemma_suffix_split(q.0, s);
    }
}

/// Whatever the outcome, the sequence a parser hands back is a suffix of
/// the input: no parser invents characters, even when reporting failure
/// from the middle of a sequence.
pub proof fn lemma_outcome_is_suffix<P: Parser>(p: P, s: Seq<char>)
    ensures
        (match p.spec_parse(s) {
            Ok(q) => is_suffix_of(q.0, s),
            Err(t) => is_suffix_of(t, s),
        }),
{
    p.lemma_parse_suffix(s);
}

/// No consumption on failure: a failing literal match returns the input
/// unchanged.
pub proof fn lemma_literal_no_consumption_on_failure(p: Literal, s: Seq<char>)
    ensures
        (p.spec_parse(s) matches Err(t) ==> t == s),
{
}

/// No consumption on failure: a failing [`AnyChar`] returns the input
/// unchanged.
pub proof fn lemma_any_char_no_consumption_on_failure(p: AnyChar, s: Seq<char>)
    ensures
        (p.spec_parse(s) matches Err(t) ==> t == s),
{
}

/// No consumption on failure: a failing [`Identifier`] returns the input
/// unchanged.
pub proof fn lemma_identifier_no_consumption_on_failure(p: Identifier, s: Seq<char>)
    ensures
        (p.spec_parse(s) matches Err(t) ==> t == s),
{
}

/// No consumption on failure: whether the inner parser failed or the
/// predicate rejected the value, a failing [`Pred`] returns the original
/// input, not the inner parser's remainder.
pub proof fn lemma_pred_no_consumption_on_failure<P: Parser, F: ValuePred<Val = P::Output>>(
    p: Pred<P, F>,
    s: Seq<char>,
)
    ensures
        (p.spec_parse(s) matches Err(t) ==> t == s),
{
}

/// No consumption on failure: [`OneOrMore`] fails only when the very
/// first attempt fails, and then returns the original input.
pub proof fn lemma_one_or_more_no_consumption_on_failure<P: Parser>(p: OneOrMore<P>, s: Seq<char>)
    ensures
        (p.spec_parse(s) matches Err(t) ==> t == s),
{
}

/// The one deliberate exception to no-consumption-on-failure: a failing
/// [`Pair`] propagates exactly what its failing step reported. When the
/// first step fails that is the first step's own failure surface; when
/// the second step fails it is that step's failure surface on the
/// intermediate remainder the first step left, not the original input —
/// sequencing does not backtrack.
pub proof fn lemma_pair_failure_surface<P1: Parser, P2: Parser>(p: Pair<P1, P2>, s: Seq<char>)
    ensures
        (match p.spec_parse(s) {
            Err(t) => (match p.first.spec_parse(s) {
                Err(u) => t == u,
                Ok(q) => p.second.spec_parse(q.0) matches Err(v) && v == t,
            }),
            Ok(_) => true,
        }),
{
    let r = p.spec_parse(s);
    match p.first.spec_parse(s) {
        Err(u) => {
            assert(r matches Err(t) && t == u);
        },
        Ok(q) => {
            match p.second.spec_parse(q.0) {
                Err(v) => {
                    assert(r matches Err(t) && t == v);
                },
                Ok(_) => {
                    assert(r is Ok);
                },
            }
        },
    }
}

/// Totality of [`ZeroOrMore`]: it never fails, whatever the inner parser
/// and the input.
pub proof fn lemma_zero_or_more_total<P: Parser>(p: ZeroOrMore<P>, s: Seq<char>)
    ensures
        p.spec_parse(s) is Ok,
{
}

/// [`OneOrMore`] fails exactly when [`ZeroOrMore`] of the same inner
/// parser succeeds with an empty sequence of values.
pub proof fn lemma_one_or_more_vs_zero_or_more<P: Parser>(p: P, s: Seq<char>)
    ensures
        ((OneOrMore { parser: p }).spec_parse(s) is Err) <==> ((ZeroOrMore {
            parser: p,
        }).spec_parse(s) matches Ok(q) && q.1.len() == 0),
{
}

/// Map identity law: mapping a parser through the identity transformation
/// leaves its behaviour unchanged, on success and on failure alike.
pub proof fn lemma_map_identity<P: Parser>(q: Mapped<P, IdentityFn<P::Output>>, s: Seq<char>)
    ensures
        q.spec_parse(s) == q.parser.spec_parse(s),
{
    if let Ok(p) = q.parser.spec_parse(s) {
        assert((p.0, p.1) == p);
    }
}

} // verus!
