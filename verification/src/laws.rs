//! Laws of the lexer as a whole, stated over the specification-level
//! model that `Lexer::lex_all` is proved to compute.

use vstd::prelude::*;

use crate::chars::digit_val;
use crate::chars::is_space_char;
use crate::errors::LexErrorV;
use crate::lexer::spec_lex_from;
use crate::lexer::step_outcome;
use crate::matcher::MatchOutcome;
use crate::matcher::Matcher;
use crate::matchers::choice::MatcherChoice;
use crate::matchers::constant::constant_matches;
use crate::matchers::constant::constants_outcome;
use crate::matchers::int_literal::digit_run_end;
use crate::matchers::int_literal::int_base;
use crate::matchers::int_literal::lemma_digit_run_end;
use crate::matchers::whitespace::lemma_space_run_end;
use crate::matchers::whitespace::space_run_end;
use crate::numerals::digits_val;
use crate::numerals::lemma_dec_rep_strip;
use crate::numerals::strip_zeros;
use crate::token::TokenType;
use crate::token::TokenV;

verus! {

/// An input of one or more characters that is whitespace throughout is
/// lexed, by any matcher list that opens with the whitespace matcher,
/// into exactly one Whitespace token — stamped at the end of the input,
/// with an empty lexeme — followed by the end of the stream, no error.
pub proof fn lemma_whitespace_only(ms: Seq<MatcherChoice>, input: Seq<char>)
    requires
        ms.len() >= 1,
        ms[0] matches MatcherChoice::Whitespace(_),
        input.len() >= 1,
        forall|i: int| 0 <= i < input.len() ==> is_space_char(#[trigger] input[i]),
    ensures
        spec_lex_from(ms, input, 0) == (
            seq![
                TokenV {
                    kind: TokenType::Whitespace,
                    position: input.len() as int,
                    lexeme: Seq::<char>::empty(),
                },
            ],
            None::<LexErrorV>,
        ),
{
    lemma_space_run_end(input, 0);
    let e = space_run_end(input, 0);
    assert(e == input.len());
    let tv = TokenV {
        kind: TokenType::Whitespace,
        position: input.len() as int,
        lexeme: Seq::<char>::empty(),
    };
    assert(ms[0].spec_match(input, 0) == MatchOutcome::Matched(tv));
    assert(step_outcome(ms, input, 0) == MatchOutcome::Matched(tv));
    assert(spec_lex_from(ms, input, e) == (Seq::<TokenV>::empty(), None::<LexErrorV>));
    assert(seq![tv] + Seq::<TokenV>::empty() =~= seq![tv]);
}

/// A non-empty string of decimal digits whose value fits an unsigned
/// 64-bit integer is lexed, by any matcher list that opens with the
/// integer-literal matcher, into exactly one IntLiteral token whose
/// lexeme is the string with its leading zeros normalized away, followed
/// by the end of the stream, no error. A digit string never carries a
/// base prefix, so the whole string is read in base ten.
pub proof fn lemma_decimal_digits(ms: Seq<MatcherChoice>, input: Seq<char>)
    requires
        ms.len() >= 1,
        ms[0] matches MatcherChoice::IntLiteral(_),
        input.len() >= 1,
        forall|i: int| 0 <= i < input.len() ==> digit_val(#[trigger] input[i]) < 10,
        digits_val(input, 10) <= u64::MAX,
    ensures
        spec_lex_from(ms, input, 0) == (
            seq![
                TokenV {
                    kind: TokenType::IntLiteral,
                    position: input.len() as int,
                    lexeme: strip_zeros(input),
                },
            ],
            None::<LexErrorV>,
        ),
{
    assert(int_base(input, 0) == 10) by {
        if input.len() > 1 {
            assert(digit_val(input[1]) < 10);
        }
    }
    lemma_digit_run_end(input, 0, 10);
    let e = digit_run_end(input, 0, 10);
    assert(e == input.len());
    assert(input.subrange(0, input.len() as int) =~= input);
    lemma_dec_rep_strip(input);
    let tv = TokenV {
        kind: TokenType::IntLiteral,
        position: input.len() as int,
        lexeme: strip_zeros(input),
    };
    assert(ms[0].spec_match(input, 0) == MatchOutcome::Matched(tv));
    assert(step_outcome(ms, input, 0) == MatchOutcome::Matched(tv));
    assert(spec_lex_from(ms, input, e) == (Seq::<TokenV>::empty(), None::<LexErrorV>));
    assert(seq![tv] + Seq::<TokenV>::empty() =~= seq![tv]);
}

/// Lexing is a pure function of the matcher list and the input: two
/// lexers configured with equal matcher lists over equal fresh inputs
/// yield the identical token sequence and the identical final error.
/// `Lexer::lex_all`'s contract pins its runtime result to this function,
/// so no hidden mutable state can make two runs differ.
pub proof fn lemma_lex_deterministic<M: Matcher>(
    ms1: Seq<M>,
    ms2: Seq<M>,
    in1: Seq<char>,
    in2: Seq<char>,
)
    requires
        ms1 == ms2,
        in1 == in2,
    ensures
        spec_lex_from(ms1, in1, 0) == spec_lex_from(ms2, in2, 0),
{
}

/// The constant matcher never fails: each of its attempts either matches
/// a constant or declines.
proof fn lemma_constants_never_fail(
    kind: TokenType,
    cs: Seq<Seq<char>>,
    input: Seq<char>,
    pos: int,
)
    ensures
        !(constants_outcome(kind, cs, input, pos) is Failed),
    decreases cs.len(),
{
    if cs.len() > 0 && !constant_matches(cs[0], input, pos) {
        lemma_constants_never_fail(kind, cs.drop_first(), input, pos);
    }
}

/// No built-in matcher reports `UnrecognizedInput` itself: that error
/// belongs to the driving loop alone.
proof fn lemma_choice_failure_kinds(m: MatcherChoice, input: Seq<char>, pos: int)
    ensures
        m.spec_match(input, pos) matches MatchOutcome::Failed(e, s) ==> !(e
            is UnrecognizedInput),
{
    match m {
        MatcherChoice::Constant(c) => {
            lemma_constants_never_fail(c.kind(), c.constants_view(), input, pos);
        },
        _ => {},
    }
}

/// When a whole lexing step fails with `UnrecognizedInput`, the reported
/// offset is the step's own offset and every registered matcher declines
/// there.
proof fn lemma_step_unrecognized(ms: Seq<MatcherChoice>, input: Seq<char>, pos: int, p: int)
    requires
        step_outcome(ms, input, pos) matches MatchOutcome::Failed(e, s) && e
            == LexErrorV::UnrecognizedInput(p),
    ensures
        p == pos,
        forall|i: int| 0 <= i < ms.len() ==> ms[i].spec_match(input, pos) is Decline,
    decreases ms.len(),
{
    if ms.len() > 0 {
        lemma_choice_failure_kinds(ms[0], input, pos);
        assert(ms[0].spec_match(input, pos) is Decline);
        lemma_step_unrecognized(ms.drop_first(), input, pos, p);
        assert(forall|i: int|
            1 <= i < ms.len() ==> ms.drop_first()[i - 1] == #[trigger] ms[i]);
    }
}

/// A failure case never loses ground: when lexing from `pos` ends with
/// `UnrecognizedInput(p)`, the offset `p` lies inside the input, every
/// registered matcher declines at `p`, and the model still hands back
/// every token produced before `p` beside the error.
pub proof fn lemma_unrecognized_position(
    ms: Seq<MatcherChoice>,
    input: Seq<char>,
    pos: int,
    p: int,
)
    requires
        0 <= pos,
        spec_lex_from(ms, input, pos).1 == Some(LexErrorV::UnrecognizedInput(p)),
    ensures
        0 <= p < input.len(),
        forall|i: int| 0 <= i < ms.len() ==> ms[i].spec_match(input, p) is Decline,
    decreases input.len() - pos,
{
    assert(0 <= pos < input.len());
    match step_outcome(ms, input, pos) {
        MatchOutcome::Failed(e, s) => {
            lemma_step_unrecognized(ms, input, pos, p);
        },
        MatchOutcome::Matched(tv) => {
            if pos < tv.position <= input.len() {
                lemma_unrecognized_position(ms, input, tv.position, p);
            }
        },
        MatchOutcome::Decline => {
        },
    }
}

} // verus!
