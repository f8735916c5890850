//! A minimal parser-combinator library, verified with Verus.
//!
//! A parser is a value with one operation, `parse`, which consumes a prefix
//! of a borrowed input slice and either succeeds with the unconsumed
//! remainder and a typed value, or fails returning the input that the
//! failing step received. Primitive matchers are combined through `pair`,
//! `map`, `left`, `right`, `pred`, `one_or_more` and `zero_or_more` into
//! higher-level parsers such as `identifier` and `quoted_string`.

pub mod chars;
pub mod combinators;
pub mod derived;
pub mod element;
pub mod laws;
pub mod parser;
pub mod primitives;

pub use element::Element;

pub use derived::quoted_string;
pub use derived::space0;
pub use derived::space1;
pub use derived::whitespace_char;
pub use derived::CharEq;
pub use derived::CharNe;
pub use derived::CollectString;
pub use derived::IsWhitespace;

pub use combinators::identity;
pub use combinators::left;
pub use combinators::one_or_more;
pub use combinators::pair;
pub use combinators::pred;
pub use combinators::right;
pub use combinators::zero_or_more;
pub use combinators::IdentityFn;
pub use combinators::MapFn;
pub use combinators::Mapped;
pub use combinators::OneOrMore;
pub use combinators::Pair;
pub use combinators::Pred;
pub use combinators::TakeLeft;
pub use combinators::TakeRight;
pub use combinators::ValuePred;
pub use combinators::ZeroOrMore;

pub use primitives::any_char;
pub use primitives::identifier;
pub use primitives::match_literal;
pub use primitives::match_literal_improved;
pub use primitives::the_letter_a;
pub use primitives::AnyChar;
pub use primitives::Identifier;
pub use primitives::Literal;

pub use parser::ParseResult;
pub use parser::Parser;
pub use parser::SpecResult;
pub use parser::is_suffix_of;
