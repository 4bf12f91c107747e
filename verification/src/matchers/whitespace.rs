//! The whitespace strategy.

use vstd::prelude::*;

use crate::chars::is_space;
use crate::chars::is_space_char;
use crate::errors::LexError;
use crate::matcher::MatchOutcome;
use crate::matcher::Matcher;
use crate::token::Token;
use crate::token::TokenType;
use crate::token::TokenV;
use crate::tokenizer::Tokenizer;

verus! {

/// The offset of the first non-whitespace character at or after `pos`, or
/// the end of the input.
pub open spec fn space_run_end(input: Seq<char>, pos: int) -> int
    decreases input.len() - pos,
{
    if 0 <= pos < input.len() && is_space_char(input[pos]) {
        space_run_end(input, pos + 1)
    } else {
        pos
    }
}

/// Where a whitespace run ends: within bounds, made of whitespace
/// throughout, and stopped only by the end of the input or a
/// non-whitespace character.
pub proof fn lemma_space_run_end(input: Seq<char>, pos: int)
    requires
        0 <= pos <= input.len(),
    ensures
        pos <= space_run_end(input, pos) <= input.len(),
        forall|i: int| pos <= i < space_run_end(input, pos) ==> is_space_char(#[trigger] input[i]),
        space_run_end(input, pos) < input.len() ==> !is_space_char(
            input[space_run_end(input, pos)],
        ),
    decreases input.len() - pos,
{
    if pos < input.len() && is_space_char(input[pos]) {
        lemma_space_run_end(input, pos + 1);
    }
}

/// The modelled outcome of the whitespace strategy: one token for a
/// non-empty maximal whitespace run, with an empty lexeme, else a decline.
pub open spec fn whitespace_outcome(input: Seq<char>, pos: int) -> MatchOutcome {
    let e = space_run_end(input, pos);
    if e > pos {
        MatchOutcome::Matched(
            TokenV { kind: TokenType::Whitespace, position: e, lexeme: Seq::empty() },
        )
    } else {
        MatchOutcome::Decline
    }
}

/// A matcher that consumes a maximal run of one or more whitespace
/// characters. The whitespace text itself is not retained: the token's
/// lexeme is empty, recording only that whitespace occurred here.
pub struct WhitespaceMatcher {}

impl Matcher for WhitespaceMatcher {
    open spec fn spec_match(&self, input: Seq<char>, pos: int) -> MatchOutcome {
        whitespace_outcome(input, pos)
    }

    fn try_match(&self, t: &mut Tokenizer) -> (r: Result<Option<Token>, LexError>) {
        let ghost input = t@.input;
        let ghost pos0 = t@.pos;
        proof {
            lemma_space_run_end(input, pos0);
        }
        let mut found = false;
        loop
            invariant
                t.wf(),
                t@.input == input,
                pos0 <= t@.pos <= input.len(),
                space_run_end(input, t@.pos) == space_run_end(input, pos0),
                found == (t@.pos > pos0),
            ensures
                t.wf(),
                t@.input == input,
                pos0 <= t@.pos <= input.len(),
                t@.pos == space_run_end(input, pos0),
                found == (t@.pos > pos0),
            decreases input.len() - t@.pos,
        {
            if t.end() {
                break;
            }
            let c = t.peek().unwrap();
            if is_space(c) {
                t.next();
                found = true;
            } else {
                break;
            }
        }
        if found {
            Ok(Some(Token::new(TokenType::Whitespace, t.last_position(), String::new())))
        } else {
            Ok(None)
        }
    }
}

} // verus!
