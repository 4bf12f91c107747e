//! The identifier strategy.

use vstd::prelude::*;

use crate::chars::is_alnum_char;
use crate::chars::is_alpha_char;
use crate::chars::is_space;
use crate::chars::is_space_char;
use crate::errors::LexError;
use crate::matcher::MatchOutcome;
use crate::matcher::Matcher;
use crate::token::Token;
use crate::token::TokenType;
use crate::token::TokenV;
use crate::tokenizer::Tokenizer;

verus! {

/// Whether a character may continue an identifier: any non-whitespace
/// character that is alphanumeric, an underscore, `?` or `!`.
pub open spec fn ident_continue(c: char) -> bool {
    !is_space_char(c) && (c == '_' || c == '?' || c == '!' || is_alnum_char(c))
}

/// Whether a character may open an identifier: alphabetic or an
/// underscore.
pub open spec fn ident_start(c: char) -> bool {
    is_alpha_char(c) || c == '_'
}

/// The offset of the first character at or after `pos` that cannot
/// continue an identifier, or the end of the input.
pub open spec fn ident_run_end(input: Seq<char>, pos: int) -> int
    decreases input.len() - pos,
{
    if 0 <= pos < input.len() && ident_continue(input[pos]) {
        ident_run_end(input, pos + 1)
    } else {
        pos
    }
}

/// Where an identifier run ends: within bounds, identifier characters
/// throughout, and stopped only by the end of the input or a character
/// that cannot continue an identifier.
pub proof fn lemma_ident_run_end(input: Seq<char>, pos: int)
    requires
        0 <= pos <= input.len(),
    ensures
        pos <= ident_run_end(input, pos) <= input.len(),
        forall|i: int| pos <= i < ident_run_end(input, pos) ==> ident_continue(#[trigger] input[i]),
        ident_run_end(input, pos) < input.len() ==> !ident_continue(
            input[ident_run_end(input, pos)],
        ),
    decreases input.len() - pos,
{
    if pos < input.len() && ident_continue(input[pos]) {
        lemma_ident_run_end(input, pos + 1);
    }
}

/// The modelled outcome of the identifier strategy: one token for an
/// opening character followed by a maximal run of continuing characters,
/// else a decline.
pub open spec fn identifier_outcome(input: Seq<char>, pos: int) -> MatchOutcome {
    if 0 <= pos < input.len() && ident_start(input[pos]) {
        let e = ident_run_end(input, pos + 1);
        MatchOutcome::Matched(
            TokenV { kind: TokenType::Identifier, position: e, lexeme: input.subrange(pos, e) },
        )
    } else {
        MatchOutcome::Decline
    }
}

/// A matcher that consumes identifiers: one alphabetic or underscore
/// character, then a maximal run of non-whitespace characters drawn from
/// the alphanumerics, `_`, `?` and `!`. Declining consumes nothing.
pub struct IdentifierMatcher {}

impl Matcher for IdentifierMatcher {
    open spec fn spec_match(&self, input: Seq<char>, pos: int) -> MatchOutcome {
        identifier_outcome(input, pos)
    }

    fn try_match(&self, t: &mut Tokenizer) -> (r: Result<Option<Token>, LexError>) {
        let ghost input = t@.input;
        let ghost pos0 = t@.pos;
        let c0 = match t.peek() {
            Some(c) => c,
            None => { return Ok(None) },
        };
        if !(c0.is_alphabetic() || c0 == '_') {
            return Ok(None);
        }
        proof {
            lemma_ident_run_end(input, pos0 + 1);
        }
        t.next();
        let mut accum = String::new();
        accum.push(c0);
        proof {
            assert(accum@ =~= input.subrange(pos0, pos0 + 1));
        }
        loop
            invariant
                t.wf(),
                t@.input == input,
                0 <= pos0,
                pos0 + 1 <= t@.pos <= input.len(),
                ident_run_end(input, t@.pos) == ident_run_end(input, pos0 + 1),
                accum@ == input.subrange(pos0, t@.pos),
            ensures
                t.wf(),
                t@.input == input,
                t@.pos == ident_run_end(input, pos0 + 1),
                accum@ == input.subrange(pos0, t@.pos),
            decreases input.len() - t@.pos,
        {
            if t.end() {
                break;
            }
            let c = t.peek().unwrap();
            if !is_space(c) && (c == '_' || c == '?' || c == '!' || c.is_alphanumeric()) {
                let ghost p = t@.pos;
                t.next();
                accum.push(c);
                proof {
                    assert(input.subrange(pos0, p).push(input[p]) =~= input.subrange(
                        pos0,
                        p + 1,
                    ));
                }
            } else {
                break;
            }
        }
        Ok(Some(Token::new(TokenType::Identifier, t.last_position(), accum)))
    }
}

} // verus!
