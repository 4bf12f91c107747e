//! Tokens and their classification tags.

use vstd::prelude::*;
use vstd::string::StringExecFns;

use crate::numerals::dec_rep;
use crate::numerals::dec_string;

verus! {

/// The classification tag of a token.
///
/// The built-in matchers produce the first five variants. A
/// `ConstantMatcher` stamps its tokens with whatever variant its caller
/// supplies, so fixed symbols and keywords can be told apart from the
/// built-in classes; `Custom` leaves room for further caller-defined
/// classes.
#[derive(Clone, Copy, Debug, PartialEq, Eq, Structural)]
pub enum TokenType {
    Whitespace,
    IntLiteral,
    CharLiteral,
    StringLiteral,
    Identifier,
    Symbol,
    Keyword,
    Custom(u64),
}

/// The mathematical content of a [`Token`]: its tag, the cursor offset just
/// past the matched text, and the captured text.
pub ghost struct TokenV {
    pub kind: TokenType,
    pub position: int,
    pub lexeme: Seq<char>,
}

/// A classified, positioned fragment of matched input text.
///
/// `position` is the cursor offset immediately *after* the matched text: the
/// tokenizer's last position at the moment the match completed.
#[derive(Clone, Debug)]
pub struct Token {
    pub kind: TokenType,
    pub position: usize,
    pub lexeme: String,
}

impl View for Token {
    type V = TokenV;

    open spec fn view(&self) -> TokenV {
        TokenV { kind: self.kind, position: self.position as int, lexeme: self.lexeme@ }
    }
}

impl Token {
    /// Bundles a tag, a position and a lexeme into a token.
    pub fn new(kind: TokenType, position: usize, lexeme: String) -> (t: Token)
        ensures
            t@ == (TokenV { kind, position: position as int, lexeme: lexeme@ }),
    {
        Token { kind, position, lexeme }
    }

    /// A textual representation of the token, carrying its tag, its
    /// lexeme and its position.
    pub fn describe(&self) -> (r: String)
        ensures
            r@ == token_text(self@),
    {
        let mut s = kind_label(self.kind);
        s.append("(");
        s.append(self.lexeme.as_str());
        s.append(") at ");
        s.append(dec_string(self.position as u64).as_str());
        s
    }
}

/// The text of a token's tag.
pub open spec fn kind_text(k: TokenType) -> Seq<char> {
    match k {
        TokenType::Whitespace => "Whitespace"@,
        TokenType::IntLiteral => "IntLiteral"@,
        TokenType::CharLiteral => "CharLiteral"@,
        TokenType::StringLiteral => "StringLiteral"@,
        TokenType::Identifier => "Identifier"@,
        TokenType::Symbol => "Symbol"@,
        TokenType::Keyword => "Keyword"@,
        TokenType::Custom(n) => "Custom:"@ + dec_rep(n as int),
    }
}

/// The text a [`Token::describe`] call produces: the tag's text, then the
/// lexeme in parentheses, then the position.
pub open spec fn token_text(tv: TokenV) -> Seq<char> {
    kind_text(tv.kind) + "("@ + tv.lexeme + ") at "@ + dec_rep(tv.position)
}

/// The text of one tag.
fn kind_label(k: TokenType) -> (r: String)
    ensures
        r@ == kind_text(k),
{
    match k {
        TokenType::Whitespace => String::from_str("Whitespace"),
        TokenType::IntLiteral => String::from_str("IntLiteral"),
        TokenType::CharLiteral => String::from_str("CharLiteral"),
        TokenType::StringLiteral => String::from_str("StringLiteral"),
        TokenType::Identifier => String::from_str("Identifier"),
        TokenType::Symbol => String::from_str("Symbol"),
        TokenType::Keyword => String::from_str("Keyword"),
        TokenType::Custom(n) => {
            let mut s = String::from_str("Custom:");
            s.append(dec_string(n).as_str());
            s
        },
    }
}

} // verus!
