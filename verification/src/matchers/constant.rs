//! The fixed-constant strategy: symbols and keywords.

use vstd::prelude::*;

use crate::errors::LexError;
use crate::matcher::MatchOutcome;
use crate::matcher::Matcher;
use crate::text::str_chars;
use crate::token::Token;
use crate::token::TokenType;
use crate::token::TokenV;
use crate::tokenizer::Tokenizer;

verus! {

/// Whether the input at `pos` starts with the constant text `c`. An empty
/// constant never matches: it would denote a zero-length token.
pub open spec fn constant_matches(c: Seq<char>, input: Seq<char>, pos: int) -> bool {
    &&& c.len() > 0
    &&& 0 <= pos
    &&& pos + c.len() <= input.len()
    &&& input.subrange(pos, pos + c.len()) == c
}

/// The modelled outcome of trying the constants in order: the first one
/// whose text starts the remaining input wins, and a decline follows only
/// when every constant has failed.
pub open spec fn constants_outcome(
    kind: TokenType,
    cs: Seq<Seq<char>>,
    input: Seq<char>,
    pos: int,
) -> MatchOutcome
    decreases cs.len(),
{
    if cs.len() == 0 {
        MatchOutcome::Decline
    } else if constant_matches(cs[0], input, pos) {
        MatchOutcome::Matched(TokenV { kind, position: pos + cs[0].len(), lexeme: cs[0] })
    } else {
        constants_outcome(kind, cs.drop_first(), input, pos)
    }
}

/// A matcher that recognizes fixed strings, in a caller-supplied priority
/// order, and stamps each token with a caller-supplied tag.
///
/// The order is load-bearing: when constants share a prefix, an earlier
/// constant wins over a later one, so longer constants must be registered
/// before their prefixes.
pub struct ConstantMatcher {
    token_type: TokenType,
    constants: Vec<String>,
}

impl ConstantMatcher {
    /// The tag this matcher stamps on its tokens.
    pub closed spec fn kind(&self) -> TokenType {
        self.token_type
    }

    /// The fixed texts this matcher recognizes, in priority order.
    pub closed spec fn constants_view(&self) -> Seq<Seq<char>> {
        self.constants@.map_values(|s: String| s@)
    }

    /// Bundles a tag and an ordered list of constant texts into a matcher.
    pub fn new(token_type: TokenType, constants: Vec<String>) -> (m: ConstantMatcher)
        ensures
            m.kind() == token_type,
            m.constants_view() == constants@.map_values(|s: String| s@),
    {
        ConstantMatcher { token_type, constants }
    }
}

impl Matcher for ConstantMatcher {
    open spec fn spec_match(&self, input: Seq<char>, pos: int) -> MatchOutcome {
        constants_outcome(self.kind(), self.constants_view(), input, pos)
    }

    fn try_match(&self, t: &mut Tokenizer) -> (r: Result<Option<Token>, LexError>) {
        let ghost input = t@.input;
        let ghost pos0 = t@.pos;
        let ghost cs = self.constants_view();
        let n = self.constants.len();
        let mut i: usize = 0;
        proof {
            assert(cs.skip(0) =~= cs);
        }
        while i < n
            invariant
                i <= n,
                n == self.constants.len(),
                t.wf(),
                t@.input == input,
                t@.pos == pos0,
                0 <= pos0,
                input == old(t)@.input,
                pos0 == old(t)@.pos,
                cs == self.constants_view(),
                constants_outcome(self.kind(), cs.skip(i as int), input, pos0)
                    == constants_outcome(self.kind(), cs, input, pos0),
            decreases n - i,
        {
            let cv = str_chars(self.constants[i].as_str());
            let ghost cseq = cs[i as int];
            proof {
                assert(cv@ == cseq);
                assert(cs.skip(i as int)[0] == cseq);
            }
            if cv.len() > 0 {
                let mut j: usize = 0;
                let mut ok = true;
                while j < cv.len() && ok
                    invariant
                        j <= cv.len(),
                        cv@ == cseq,
                        t.wf(),
                        t@.input == input,
                        t@.pos == pos0,
                        0 <= pos0,
                        input == old(t)@.input,
                        pos0 == old(t)@.pos,
                        cs == self.constants_view(),
                        cseq == cs[i as int],
                        ok ==> pos0 + j <= input.len(),
                        ok ==> forall|k: int| 0 <= k < j ==> input[pos0 + k] == cseq[k],
                        !ok ==> !constant_matches(cseq, input, pos0),
                    decreases cv.len() - j + (if ok { 1int } else { 0int }),
                {
                    match t.peek_n(j) {
                        Some(ch) => {
                            if ch == cv[j] {
                                j = j + 1;
                            } else {
                                proof {
                                    if constant_matches(cseq, input, pos0) {
                                        assert(input.subrange(pos0, pos0 + cseq.len())[j as int]
                                            == input[pos0 + j]);
                                    }
                                }
                                ok = false;
                            }
                        },
                        None => {
                            ok = false;
                        },
                    }
                }
                if ok {
                    proof {
                        assert forall|k: int| 0 <= k < cseq.len() implies input.subrange(
                            pos0,
                            pos0 + cseq.len(),
                        )[k] == cseq[k] by {
                            assert(input[pos0 + k] == cseq[k]);
                        }
                        assert(input.subrange(pos0, pos0 + cseq.len()) =~= cseq);
                        assert(constant_matches(cseq, input, pos0));
                    }
                    t.advance(cv.len());
                    let lexeme = self.constants[i].clone();
                    return Ok(
                        Some(Token::new(self.token_type, t.last_position(), lexeme)),
                    );
                }
            }
            proof {
                assert(!constant_matches(cseq, input, pos0));
                assert(cs.skip(i as int).drop_first() =~= cs.skip(i + 1));
            }
            i = i + 1;
        }
        proof {
            assert(cs.skip(n as int) =~= Seq::<Seq<char>>::empty());
        }
        Ok(None)
    }
}

} // verus!
