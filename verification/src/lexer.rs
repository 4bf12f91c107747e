//! The driving loop: an ordered list of matchers over one cursor.

use vstd::prelude::*;

use crate::errors::LexError;
use crate::errors::LexErrorV;
use crate::matcher::MatchOutcome;
use crate::matcher::Matcher;
use crate::matcher::match_post;
use crate::token::Token;
use crate::token::TokenV;
use crate::tokenizer::Tokenizer;
use crate::tokenizer::TokenizerV;

verus! {

/// The outcome of one lexing step at `pos`: the first matcher, in
/// registration order, that does not decline decides; when every matcher
/// declines, the step fails with `UnrecognizedInput` at `pos` and the
/// cursor stands still.
pub open spec fn step_outcome<M: Matcher>(ms: Seq<M>, input: Seq<char>, pos: int) -> MatchOutcome
    decreases ms.len(),
{
    if ms.len() == 0 {
        MatchOutcome::Failed(LexErrorV::UnrecognizedInput(pos), pos)
    } else {
        match ms[0].spec_match(input, pos) {
            MatchOutcome::Decline => step_outcome(ms.drop_first(), input, pos),
            MatchOutcome::Matched(tv) => MatchOutcome::Matched(tv),
            MatchOutcome::Failed(e, stop) => MatchOutcome::Failed(e, stop),
        }
    }
}

/// The token sequence and final error, if any, of lexing `input` from
/// `pos` to exhaustion with the matchers `ms`. Reaching the end of the
/// input ends the sequence without an error; a failed step ends it with
/// that step's error and keeps every token produced before it.
pub open spec fn spec_lex_from<M: Matcher>(ms: Seq<M>, input: Seq<char>, pos: int) -> (
    Seq<TokenV>,
    Option<LexErrorV>,
)
    decreases input.len() - pos,
{
    if !(0 <= pos < input.len()) {
        (Seq::empty(), None)
    } else {
        match step_outcome(ms, input, pos) {
            // a step never declines as a whole: declining matchers fall
            // through, and a step with no matcher left fails instead
            MatchOutcome::Decline => (Seq::empty(), None),
            MatchOutcome::Failed(e, _) => (Seq::empty(), Some(e)),
            MatchOutcome::Matched(tv) => {
                if pos < tv.position <= input.len() {
                    let rest = spec_lex_from(ms, input, tv.position);
                    (seq![tv] + rest.0, rest.1)
                } else {
                    // a match consumes at least one character, so this
                    // branch is never taken
                    (seq![tv], None)
                }
            },
        }
    }
}

/// The view of a produced token vector.
pub open spec fn tokens_view(ts: Seq<Token>) -> Seq<TokenV> {
    ts.map_values(|t: Token| t@)
}

/// The view of an optional error.
pub open spec fn err_view(e: Option<LexError>) -> Option<LexErrorV> {
    match e {
        Some(err) => Some(err@),
        None => None,
    }
}

/// The driver: an ordered list of matchers and the one cursor they share.
/// Matchers are tried in registration order, and the first that does not
/// decline decides each step.
pub struct Lexer<M: Matcher> {
    matchers: Vec<M>,
    tokenizer: Tokenizer,
}

impl<M: Matcher> Lexer<M> {
    /// The registered matchers, in priority order.
    pub closed spec fn matchers_seq(&self) -> Seq<M> {
        self.matchers@
    }

    /// The state of the cursor this lexer drives.
    pub closed spec fn cursor(&self) -> TokenizerV {
        self.tokenizer@
    }

    /// The cursor stands inside its input.
    pub open spec fn wf(&self) -> bool {
        0 <= self.cursor().pos <= self.cursor().input.len()
    }

    /// Wraps a cursor, with no matchers registered yet.
    pub fn new(tokenizer: Tokenizer) -> (l: Lexer<M>)
        ensures
            l.matchers_seq() == Seq::<M>::empty(),
            l.cursor() == tokenizer@,
    {
        Lexer { matchers: Vec::new(), tokenizer }
    }

    /// Appends a matcher to the priority list. Registration order is
    /// load-bearing: earlier matchers win.
    pub fn register(&mut self, m: M)
        ensures
            final(self).matchers_seq() == old(self).matchers_seq().push(m),
            final(self).cursor() == old(self).cursor(),
    {
        self.matchers.push(m);
    }

    /// The cursor's current offset.
    pub fn position(&self) -> (r: usize)
        ensures
            r as int == self.cursor().pos,
    {
        self.tokenizer.last_position()
    }

    /// One lexing step: `Ok(None)` at the end of the input, one token on
    /// the first accepting matcher, and an error when a matcher fails or
    /// none accepts.
    pub fn next_token(&mut self) -> (r: Result<Option<Token>, LexError>)
        requires
            old(self).wf(),
        ensures
            final(self).wf(),
            final(self).matchers_seq() == old(self).matchers_seq(),
            final(self).cursor().input == old(self).cursor().input,
            old(self).cursor().pos >= old(self).cursor().input.len() ==> (r matches Ok(None)
                && final(self).cursor() == old(self).cursor()),
            old(self).cursor().pos < old(self).cursor().input.len() ==> match_post(
                step_outcome(
                    old(self).matchers_seq(),
                    old(self).cursor().input,
                    old(self).cursor().pos,
                ),
                old(self).cursor().input,
                old(self).cursor().pos,
                final(self).cursor().pos,
                r,
            ),
    {
        if self.tokenizer.end() {
            return Ok(None);
        }
        let ghost input = self.tokenizer@.input;
        let ghost pos0 = self.tokenizer@.pos;
        let ghost ms = self.matchers@;
        let n = self.matchers.len();
        let mut i: usize = 0;
        proof {
            assert(ms.skip(0) =~= ms);
        }
        while i < n
            invariant
                i <= n,
                n == self.matchers.len(),
                self.matchers@ == ms,
                self.tokenizer.wf(),
                self.tokenizer@.input == input,
                self.tokenizer@.pos == pos0,
                ms == old(self).matchers_seq(),
                input == old(self).cursor().input,
                pos0 == old(self).cursor().pos,
                0 <= pos0 < input.len(),
                step_outcome(ms.skip(i as int), input, pos0) == step_outcome(ms, input, pos0),
            decreases n - i,
        {
            let ghost mi = ms[i as int];
            proof {
                assert(ms.skip(i as int)[0] == mi);
            }
            let r = self.matchers[i].try_match(&mut self.tokenizer);
            match r {
                Ok(None) => {
                    proof {
                        assert(mi.spec_match(input, pos0) is Decline);
                        assert(ms.skip(i as int).drop_first() =~= ms.skip(i + 1));
                    }
                    i = i + 1;
                },
                Ok(Some(tok)) => {
                    proof {
                        assert(mi.spec_match(input, pos0) matches MatchOutcome::Matched(tv));
                        assert(step_outcome(ms.skip(i as int), input, pos0) == mi.spec_match(
                            input,
                            pos0,
                        ));
                    }
                    return Ok(Some(tok));
                },
                Err(e) => {
                    proof {
                        assert(mi.spec_match(input, pos0) matches MatchOutcome::Failed(ev, stop));
                        assert(step_outcome(ms.skip(i as int), input, pos0) == mi.spec_match(
                            input,
                            pos0,
                        ));
                    }
                    return Err(e);
                },
            }
        }
        proof {
            assert(ms.skip(n as int) =~= Seq::<M>::empty());
        }
        let p = self.tokenizer.last_position();
        Err(LexError::UnrecognizedInput(p))
    }

    /// Lexes to exhaustion: every token produced before the end of the
    /// input or the first failure, and that failure, if one occurred.
    /// The result is exactly what the specification-level model of the
    /// registered matchers describes for this input.
    pub fn lex_all(&mut self) -> (r: (Vec<Token>, Option<LexError>))
        requires
            old(self).wf(),
        ensures
            final(self).wf(),
            final(self).matchers_seq() == old(self).matchers_seq(),
            final(self).cursor().input == old(self).cursor().input,
            (tokens_view(r.0@), err_view(r.1)) == spec_lex_from(
                old(self).matchers_seq(),
                old(self).cursor().input,
                old(self).cursor().pos,
            ),
    {
        let ghost input = self.tokenizer@.input;
        let ghost pos_start = self.tokenizer@.pos;
        let ghost ms = self.matchers@;
        let mut toks: Vec<Token> = Vec::new();
        proof {
            assert(Seq::<TokenV>::empty() + spec_lex_from(ms, input, pos_start).0 =~= spec_lex_from(
                ms,
                input,
                pos_start,
            ).0);
            assert(tokens_view(toks@) =~= Seq::<TokenV>::empty());
        }
        loop
            invariant
                self.wf(),
                self.matchers_seq() == ms,
                self.cursor().input == input,
                ms == old(self).matchers_seq(),
                input == old(self).cursor().input,
                pos_start == old(self).cursor().pos,
                0 <= pos_start <= self.cursor().pos <= input.len(),
                spec_lex_from(ms, input, pos_start).0 == tokens_view(toks@) + spec_lex_from(
                    ms,
                    input,
                    self.cursor().pos,
                ).0,
                spec_lex_from(ms, input, pos_start).1 == spec_lex_from(
                    ms,
                    input,
                    self.cursor().pos,
                ).1,
            decreases input.len() - self.cursor().pos,
        {
            let ghost cur = self.cursor().pos;
            let r = self.next_token();
            match r {
                Ok(Some(tok)) => {
                    proof {
                        assert(step_outcome(ms, input, cur) matches MatchOutcome::Matched(tv)
                            && tv == tok@);
                        assert(tokens_view(toks@.push(tok)) =~= tokens_view(toks@).push(tok@));
                        assert(tokens_view(toks@) + (seq![tok@] + spec_lex_from(
                            ms,
                            input,
                            tok@.position,
                        ).0) =~= tokens_view(toks@).push(tok@) + spec_lex_from(
                            ms,
                            input,
                            tok@.position,
                        ).0);
                    }
                    toks.push(tok);
                },
                Ok(None) => {
                    proof {
                        assert(tokens_view(toks@) + Seq::<TokenV>::empty() =~= tokens_view(toks@));
                    }
                    return (toks, None);
                },
                Err(e) => {
                    proof {
                        assert(tokens_view(toks@) + Seq::<TokenV>::empty() =~= tokens_view(toks@));
                    }
                    return (toks, Some(e));
                },
            }
        }
    }
}

} // verus!
