//! The matching capability: one strategy that may consume a token-shaped
//! prefix of the remaining input.

use vstd::prelude::*;

use crate::errors::LexError;
use crate::errors::LexErrorV;
use crate::token::Token;
use crate::token::TokenV;
use crate::tokenizer::Tokenizer;

verus! {

/// What one attempt of a matcher does to the cursor, at the level of the
/// model: decline and stand still, produce a token, or fail.
pub ghost enum MatchOutcome {
    /// The matcher does not accept the input here; the cursor must not
    /// move.
    Decline,
    /// The matcher commits: the token's `position` is the cursor offset
    /// just past the consumed text.
    Matched(TokenV),
    /// The matcher commits and then meets a malformed input; the cursor
    /// stops at the given offset.
    Failed(LexErrorV, int),
}

/// How an executable attempt must relate to its modelled outcome, given the
/// input, the offset `pos0` where the attempt began and the offset `pos1`
/// where it left the cursor.
pub open spec fn match_post(
    outcome: MatchOutcome,
    input: Seq<char>,
    pos0: int,
    pos1: int,
    r: Result<Option<Token>, LexError>,
) -> bool {
    match outcome {
        MatchOutcome::Decline => r matches Ok(None) && pos1 == pos0,
        MatchOutcome::Matched(tv) => {
            &&& r matches Ok(Some(t)) && t@ == tv
            &&& pos1 == tv.position
            &&& pos0 < pos1 <= input.len()
        },
        MatchOutcome::Failed(err, stop) => {
            &&& r matches Err(e) && e@ == err
            &&& pos1 == stop
            &&& pos0 <= pos1 <= input.len()
        },
    }
}

/// A strategy that attempts to consume one token's worth of input.
///
/// Each implementation pins its runtime behaviour to a specification-level
/// outcome, `spec_match`: a pure function of the input text and the cursor
/// offset. Declining leaves the cursor exactly where it stood, so the lexer
/// can hand an unconsumed cursor to the next strategy; a produced token
/// always covers at least one character, so lexing makes progress.
pub trait Matcher: Sized {
    /// The modelled outcome of attempting this matcher at offset `pos` of
    /// `input`.
    spec fn spec_match(&self, input: Seq<char>, pos: int) -> MatchOutcome;

    /// Attempts to consume one token here. Returns `Ok(Some(token))` on a
    /// match, `Ok(None)` to decline without consuming anything, and
    /// `Err(error)` when committed input turns out malformed.
    fn try_match(&self, t: &mut Tokenizer) -> (r: Result<Option<Token>, LexError>)
        requires
            old(t).wf(),
        ensures
            final(t).wf(),
            final(t)@.input == old(t)@.input,
            match_post(
                self.spec_match(old(t)@.input, old(t)@.pos),
                old(t)@.input,
                old(t)@.pos,
                final(t)@.pos,
                r,
            ),
    ;
}

} // verus!
