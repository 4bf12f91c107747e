//! The integer-literal strategy.

use vstd::prelude::*;

use crate::chars::digit_in_base;
use crate::chars::digit_val;
use crate::chars::digit_value;
use crate::errors::LexError;
use crate::errors::LexErrorV;
use crate::matcher::MatchOutcome;
use crate::matcher::Matcher;
use crate::numerals::dec_rep;
use crate::numerals::dec_string;
use crate::numerals::digits_val;
use crate::numerals::lemma_digits_val_grows;
use crate::numerals::lemma_digits_val_push;
use crate::text::chars_to_string;
use crate::token::Token;
use crate::token::TokenType;
use crate::token::TokenV;
use crate::tokenizer::Tokenizer;

verus! {

/// The base a literal at `pos` is written in: 16 after a `0x` prefix, 2
/// after a `0b` prefix, 10 otherwise.
pub open spec fn int_base(input: Seq<char>, pos: int) -> int {
    if input[pos] == '0' && pos + 1 < input.len() {
        if input[pos + 1] == 'x' {
            16
        } else if input[pos + 1] == 'b' {
            2
        } else {
            10
        }
    } else {
        10
    }
}

/// The offset of the first character at or after `pos` that is not a digit
/// of `base`, or the end of the input.
pub open spec fn digit_run_end(input: Seq<char>, pos: int, base: int) -> int
    decreases input.len() - pos,
{
    if 0 <= pos < input.len() && digit_in_base(input[pos], base) {
        digit_run_end(input, pos + 1, base)
    } else {
        pos
    }
}

/// Where a digit run ends: within bounds, digits of the base throughout,
/// and stopped only by the end of the input or a non-digit.
pub proof fn lemma_digit_run_end(input: Seq<char>, pos: int, base: int)
    requires
        0 <= pos <= input.len(),
    ensures
        pos <= digit_run_end(input, pos, base) <= input.len(),
        forall|i: int|
            pos <= i < digit_run_end(input, pos, base) ==> digit_in_base(
                #[trigger] input[i],
                base,
            ),
        digit_run_end(input, pos, base) < input.len() ==> !digit_in_base(
            input[digit_run_end(input, pos, base)],
            base,
        ),
    decreases input.len() - pos,
{
    if pos < input.len() && digit_in_base(input[pos], base) {
        lemma_digit_run_end(input, pos + 1, base);
    }
}

/// The modelled outcome of the integer-literal strategy. A maximal digit
/// run in the detected base, taken after the two prefix characters when a
/// base prefix is present, is read as an unsigned 64-bit value and
/// rendered as its canonical decimal text; an empty run declines without
/// consuming anything, and a run whose value does not fit 64 bits fails.
pub open spec fn int_outcome(input: Seq<char>, pos: int) -> MatchOutcome {
    if !(0 <= pos < input.len()) {
        MatchOutcome::Decline
    } else {
        let base = int_base(input, pos);
        let start = if base == 10 { pos } else { pos + 2 };
        let e = digit_run_end(input, start, base);
        if e == start {
            MatchOutcome::Decline
        } else {
            let v = digits_val(input.subrange(start, e), base);
            if v <= u64::MAX {
                MatchOutcome::Matched(
                    TokenV { kind: TokenType::IntLiteral, position: e, lexeme: dec_rep(v) },
                )
            } else {
                MatchOutcome::Failed(LexErrorV::NumericOverflow(input.subrange(start, e)), e)
            }
        }
    }
}

/// A matcher that consumes decimal literals, and hexadecimal or binary
/// literals introduced by `0x` or `0b`. The stored lexeme is the value's
/// canonical base-10 text, whatever base the literal was written in.
pub struct IntLiteralMatcher {}

impl Matcher for IntLiteralMatcher {
    open spec fn spec_match(&self, input: Seq<char>, pos: int) -> MatchOutcome {
        int_outcome(input, pos)
    }

    fn try_match(&self, t: &mut Tokenizer) -> (r: Result<Option<Token>, LexError>) {
        let ghost input = t@.input;
        let ghost pos0 = t@.pos;
        let c0 = match t.peek() {
            Some(c) => c,
            None => { return Ok(None) },
        };
        let base: u64 = if c0 == '0' {
            match t.peek_n(1) {
                Some('x') => 16,
                Some('b') => 2,
                _ => 10,
            }
        } else {
            10
        };
        proof {
            assert(base as int == int_base(input, pos0));
        }
        let prefix: usize = if base != 10 {
            2
        } else {
            0
        };
        let ghost start = pos0 + prefix;
        match t.peek_n(prefix) {
            Some(c) => {
                if digit_value(c) >= base {
                    return Ok(None);
                }
            },
            None => { return Ok(None) },
        }
        t.advance(prefix);
        proof {
            lemma_digit_run_end(input, start, base as int);
        }
        let ghost e = digit_run_end(input, start, base as int);
        let mut digits: Vec<char> = Vec::new();
        let mut acc: u64 = 0;
        let mut over = false;
        loop
            invariant
                t.wf(),
                t@.input == input,
                input == old(t)@.input,
                0 <= start <= t@.pos <= input.len(),
                pos0 == old(t)@.pos,
                pos0 <= start,
                2 <= base <= 16,
                e == digit_run_end(input, start, base as int),
                digit_run_end(input, t@.pos, base as int) == e,
                t@.pos <= e,
                digits@ == input.subrange(start, t@.pos),
                !over ==> acc as int == digits_val(digits@, base as int),
                over ==> digits_val(digits@, base as int) > u64::MAX,
            ensures
                t.wf(),
                t@.input == input,
                t@.pos == e,
                digits@ == input.subrange(start, e),
                !over ==> acc as int == digits_val(digits@, base as int),
                over ==> digits_val(digits@, base as int) > u64::MAX,
            decreases input.len() - t@.pos,
        {
            if t.end() {
                break;
            }
            let c = t.peek().unwrap();
            let d = digit_value(c);
            if d >= base {
                break;
            }
            let ghost p = t@.pos;
            let ghost prev = digits@;
            t.next();
            digits.push(c);
            proof {
                assert(input.subrange(start, p).push(input[p]) =~= input.subrange(start, p + 1));
                lemma_digits_val_push(prev, c, base as int);
                assert(digit_in_base(input[p], base as int));
                assert(digit_run_end(input, p, base as int) == digit_run_end(
                    input,
                    p + 1,
                    base as int,
                ));
                lemma_digit_run_end(input, p + 1, base as int);
            }
            if !over {
                proof {
                    assert((acc as int) * (base as int) + (d as int) <= 0xffff_ffff_ffff_ffff * 16
                        + 15) by (nonlinear_arith)
                        requires
                            0 <= acc as int <= 0xffff_ffff_ffff_ffff,
                            0 <= base as int <= 16,
                            0 <= d as int <= 15,
                    ;
                }
                let wide: u128 = (acc as u128) * (base as u128) + (d as u128);
                if wide > u64::MAX as u128 {
                    over = true;
                } else {
                    acc = wide as u64;
                }
            } else {
                proof {
                    lemma_digits_val_grows(prev, c, base as int);
                }
            }
        }
        proof {
            assert(e > start) by {
                assert(digit_in_base(input[start], base as int));
            }
        }
        if over {
            let text = chars_to_string(&digits);
            return Err(LexError::NumericOverflow(text));
        }
        let lexeme = dec_string(acc);
        Ok(Some(Token::new(TokenType::IntLiteral, t.last_position(), lexeme)))
    }
}

} // verus!
