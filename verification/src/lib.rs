//! A small, composable lexical-analysis toolkit.
//!
//! A [`Tokenizer`] is a character cursor over an in-memory input. A [`Lexer`]
//! drives an ordered list of [`Matcher`] strategies over that cursor: at each
//! step the first matcher that accepts a prefix of the remaining input
//! produces one [`Token`]; when no matcher accepts, lexing stops with a typed
//! error at the offending position.
//!
//! Every matcher's behaviour is pinned to a specification-level model of the
//! input (a sequence of characters and a cursor offset), and the lexing loop
//! is proved to produce exactly the token sequence that the model describes.

pub mod chars;
pub mod errors;
pub mod laws;
pub mod lexer;
pub mod matcher;
pub mod matchers;
pub mod numerals;
pub mod text;
pub mod token;
pub mod tokenizer;

pub use errors::LexError;
pub use lexer::Lexer;
pub use matcher::Matcher;
pub use matchers::choice::MatcherChoice;
pub use matchers::constant::ConstantMatcher;
pub use matchers::identifier::IdentifierMatcher;
pub use matchers::int_literal::IntLiteralMatcher;
pub use matchers::string_literal::StringLiteralMatcher;
pub use matchers::whitespace::WhitespaceMatcher;
pub use token::Token;
pub use token::TokenType;
pub use tokenizer::Tokenizer;
