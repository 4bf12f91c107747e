//! One matcher chosen among the built-in strategies, so that differently
//! shaped matchers can stand together in one priority list.

use vstd::prelude::*;

use crate::errors::LexError;
use crate::matcher::MatchOutcome;
use crate::matcher::Matcher;
use crate::matchers::constant::ConstantMatcher;
use crate::matchers::identifier::IdentifierMatcher;
use crate::matchers::int_literal::IntLiteralMatcher;
use crate::matchers::string_literal::StringLiteralMatcher;
use crate::matchers::whitespace::WhitespaceMatcher;
use crate::token::Token;
use crate::tokenizer::Tokenizer;

verus! {

/// A closed sum of the built-in strategies. Each variant matches exactly
/// as the strategy it wraps.
pub enum MatcherChoice {
    Whitespace(WhitespaceMatcher),
    IntLiteral(IntLiteralMatcher),
    StringLiteral(StringLiteralMatcher),
    Constant(ConstantMatcher),
    Identifier(IdentifierMatcher),
}

impl Matcher for MatcherChoice {
    open spec fn spec_match(&self, input: Seq<char>, pos: int) -> MatchOutcome {
        match self {
            MatcherChoice::Whitespace(m) => m.spec_match(input, pos),
            MatcherChoice::IntLiteral(m) => m.spec_match(input, pos),
            MatcherChoice::StringLiteral(m) => m.spec_match(input, pos),
            MatcherChoice::Constant(m) => m.spec_match(input, pos),
            MatcherChoice::Identifier(m) => m.spec_match(input, pos),
        }
    }

    fn try_match(&self, t: &mut Tokenizer) -> (r: Result<Option<Token>, LexError>) {
        match self {
            MatcherChoice::Whitespace(m) => m.try_match(t),
            MatcherChoice::IntLiteral(m) => m.try_match(t),
            MatcherChoice::StringLiteral(m) => m.try_match(t),
            MatcherChoice::Constant(m) => m.try_match(t),
            MatcherChoice::Identifier(m) => m.try_match(t),
        }
    }
}

} // verus!
