//! The parser abstraction: the contract every parser satisfies.

use vstd::prelude::*;

verus! {

/// What a parse attempt yields: on success, the unconsumed suffix of the
/// input together with the typed value; on failure, the input that the
/// failing step received.
pub type ParseResult<'a, Output> = Result<(&'a str, Output), &'a str>;

/// The same shape over mathematical values: character sequences in place of
/// borrowed slices, and deep views in place of executable values.
pub type SpecResult<V> = Result<(Seq<char>, V), Seq<char>>;

/// `r` is `s` with some (possibly empty) prefix removed.
pub open spec fn is_suffix_of(r: Seq<char>, s: Seq<char>) -> bool {
    r.len() <= s.len() && r == s.skip(s.len() - r.len())
}

/// Every sequence is a suffix of itself.
pub proof fn lemma_suffix_refl(s: Seq<char>)
    ensures
        is_suffix_of(s, s),
{
    assert(s.skip(0) =~= s);
}

/// Skipping a prefix leaves a suffix.
pub proof fn lemma_suffix_skip(s: Seq<char>, n: int)
    requires
        0 <= n <= s.len(),
    ensures
        is_suffix_of(s.skip(n), s),
{
    assert(s.skip(s.len() - s.skip(n).len()) =~= s.skip(n));
}

/// A suffix of a suffix is a suffix.
pub proof fn lemma_suffix_trans(r: Seq<char>, m: Seq<char>, s: Seq<char>)
    requires
        is_suffix_of(r, m),
        is_suffix_of(m, s),
    ensures
        is_suffix_of(r, s),
{
    assert(s.skip(s.len() - r.len()) =~= m.skip(m.len() - r.len()));
}

/// A suffix splits its sequence: `s` is the consumed prefix followed by `r`.
pub proof fn lemma_suffix_split(r: Seq<char>, s: Seq<char>)
    requires
        is_suffix_of(r, s),
    ensures
        s == s.take(s.len() - r.len()) + r,
{
    assert(s.take(s.len() - r.len()) + r =~= s);
}

/// The contract every parser satisfies: a value callable on an input slice,
/// returning either the unconsumed remainder with a typed result, or the
/// input that the failing step received.
///
/// The meaning of a parser is its `spec_parse` function; the executable
/// `parse` must agree with it exactly, on success and on failure alike.
/// Whatever the outcome, what comes back is a suffix of the input, so a
/// successful remainder never grows and a reported failure never invents
/// characters.
pub trait Parser {
    /// The typed value a successful parse produces.
    type Output: DeepView;

    /// The mathematical meaning of this parser: for every input, whether it
    /// matches, what remains, and the deep view of the value produced.
    spec fn spec_parse(&self, s: Seq<char>) -> SpecResult<<Self::Output as DeepView>::V>;

    /// Whatever the outcome, the returned sequence is a suffix of the input.
    /// On success this is the suffix invariant: the remainder is never
    /// longer than the input and the input is some consumed prefix followed
    /// by the remainder.
    proof fn lemma_parse_suffix(&self, s: Seq<char>)
        ensures
            (match self.spec_parse(s) {
                Ok(p) => is_suffix_of(p.0, s),
                Err(t) => is_suffix_of(t, s),
            }),
    ;

    /// Run the parser on `input`.
    fn parse<'a>(&self, input: &'a str) -> (r: ParseResult<'a, Self::Output>)
        ensures
            (match r {
                Ok(p) => self.spec_parse(input@) matches Ok(q) && q.0 == p.0@ && q.1
                    == p.1.deep_view(),
                Err(e) => self.spec_parse(input@) matches Err(t) && t == e@,
            }),
    ;
}

} // verus!
