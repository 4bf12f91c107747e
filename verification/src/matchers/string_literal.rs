//! The string-literal and char-literal strategy.

use vstd::prelude::*;

use crate::errors::LexError;
use crate::errors::LexErrorV;
use crate::matcher::MatchOutcome;
use crate::matcher::Matcher;
use crate::text::chars_to_string;
use crate::token::Token;
use crate::token::TokenType;
use crate::token::TokenV;
use crate::tokenizer::Tokenizer;

verus! {

/// The translation of a character found after a backslash inside a
/// double-quoted literal; `None` marks an unsupported escape code.
pub open spec fn escape_char(c: char) -> Option<char> {
    if c == '\\' {
        Some('\\')
    } else if c == '"' {
        Some('"')
    } else if c == 'n' {
        Some('\n')
    } else if c == 'r' {
        Some('\r')
    } else if c == 't' {
        Some('\t')
    } else {
        None
    }
}

/// The offset of the first single quote at or after `pos`, or the end of
/// the input.
pub open spec fn sq_run_end(input: Seq<char>, pos: int) -> int
    decreases input.len() - pos,
{
    if 0 <= pos < input.len() && input[pos] != '\'' {
        sq_run_end(input, pos + 1)
    } else {
        pos
    }
}

/// Where a single-quoted scan ends: within bounds, and stopped only by the
/// end of the input or a single quote.
pub proof fn lemma_sq_run_end(input: Seq<char>, pos: int)
    requires
        0 <= pos <= input.len(),
    ensures
        pos <= sq_run_end(input, pos) <= input.len(),
        sq_run_end(input, pos) < input.len() ==> input[sq_run_end(input, pos)] == '\'',
    decreases input.len() - pos,
{
    if pos < input.len() && input[pos] != '\'' {
        lemma_sq_run_end(input, pos + 1);
    }
}

/// What scanning double-quoted content from `pos` produces: the translated
/// content, the offset where scanning stopped, and the offending character
/// of an invalid escape, if one was met.
pub ghost struct DqScan {
    pub content: Seq<char>,
    pub stop: int,
    pub bad: Option<char>,
}

/// Scanning double-quoted content: characters are taken verbatim until an
/// unescaped double quote or the end of the input; a backslash consumes
/// the following character and stores its translation, and an unsupported
/// escape code stops the scan with that code as the offender.
pub open spec fn dq_scan(input: Seq<char>, pos: int) -> DqScan
    decreases input.len() - pos,
{
    if !(0 <= pos < input.len()) {
        DqScan { content: Seq::empty(), stop: pos, bad: None }
    } else if input[pos] == '"' {
        DqScan { content: Seq::empty(), stop: pos, bad: None }
    } else if input[pos] == '\\' {
        if pos + 1 >= input.len() {
            DqScan { content: Seq::empty(), stop: pos + 1, bad: None }
        } else {
            match escape_char(input[pos + 1]) {
                Some(tr) => {
                    let rest = dq_scan(input, pos + 2);
                    DqScan { content: seq![tr] + rest.content, stop: rest.stop, bad: rest.bad }
                },
                None => DqScan {
                    content: Seq::empty(),
                    stop: pos + 2,
                    bad: Some(input[pos + 1]),
                },
            }
        }
    } else {
        let rest = dq_scan(input, pos + 1);
        DqScan { content: seq![input[pos]] + rest.content, stop: rest.stop, bad: rest.bad }
    }
}

/// A double-quoted scan stops within bounds.
pub proof fn lemma_dq_scan(input: Seq<char>, pos: int)
    requires
        0 <= pos <= input.len(),
    ensures
        pos <= dq_scan(input, pos).stop <= input.len(),
    decreases input.len() - pos,
{
    if 0 <= pos < input.len() && input[pos] != '"' {
        if input[pos] == '\\' {
            if pos + 1 < input.len() && escape_char(input[pos + 1]) is Some {
                lemma_dq_scan(input, pos + 2);
            }
        } else {
            lemma_dq_scan(input, pos + 1);
        }
    }
}

/// The tag of a quoted literal: content of exactly one character collapses
/// to a char literal, whatever delimiter was used.
pub open spec fn lit_kind(content: Seq<char>) -> TokenType {
    if content.len() == 1 {
        TokenType::CharLiteral
    } else {
        TokenType::StringLiteral
    }
}

/// The modelled outcome of the quoted-literal strategy. A single-quoted
/// literal takes its content verbatim until the next single quote; a
/// double-quoted literal translates escapes until an unescaped double
/// quote. The closing delimiter is consumed when present; an input that
/// ends first silently ends the literal.
pub open spec fn string_outcome(input: Seq<char>, pos: int) -> MatchOutcome {
    if !(0 <= pos < input.len()) {
        MatchOutcome::Decline
    } else if input[pos] == '\'' {
        let e = sq_run_end(input, pos + 1);
        let content = input.subrange(pos + 1, e);
        let fin = if e < input.len() {
            e + 1
        } else {
            e
        };
        MatchOutcome::Matched(TokenV { kind: lit_kind(content), position: fin, lexeme: content })
    } else if input[pos] == '"' {
        let sc = dq_scan(input, pos + 1);
        match sc.bad {
            Some(c) => MatchOutcome::Failed(LexErrorV::InvalidEscapeSequence(c), sc.stop),
            None => {
                let fin = if sc.stop < input.len() {
                    sc.stop + 1
                } else {
                    sc.stop
                };
                MatchOutcome::Matched(
                    TokenV { kind: lit_kind(sc.content), position: fin, lexeme: sc.content },
                )
            },
        }
    } else {
        MatchOutcome::Decline
    }
}

/// A matcher that consumes string and char literals. Double-quoted
/// literals translate the escapes `\\`, `\"`, `\n`, `\r` and `\t`;
/// single-quoted literals take their content verbatim. Content of exactly
/// one character is emitted as a char literal.
pub struct StringLiteralMatcher {}

impl Matcher for StringLiteralMatcher {
    open spec fn spec_match(&self, input: Seq<char>, pos: int) -> MatchOutcome {
        string_outcome(input, pos)
    }

    fn try_match(&self, t: &mut Tokenizer) -> (r: Result<Option<Token>, LexError>) {
        let ghost input = t@.input;
        let ghost pos0 = t@.pos;
        let c0 = match t.peek() {
            Some(c) => c,
            None => { return Ok(None) },
        };
        if c0 == '\'' {
            t.advance(1);
            proof {
                lemma_sq_run_end(input, pos0 + 1);
            }
            let ghost e = sq_run_end(input, pos0 + 1);
            let mut content: Vec<char> = Vec::new();
            loop
                invariant
                    t.wf(),
                    t@.input == input,
                    0 <= pos0,
                    pos0 + 1 <= t@.pos <= input.len(),
                    e == sq_run_end(input, pos0 + 1),
                    sq_run_end(input, t@.pos) == e,
                    t@.pos <= e,
                    content@ == input.subrange(pos0 + 1, t@.pos),
                ensures
                    t.wf(),
                    t@.input == input,
                    t@.pos == e,
                    content@ == input.subrange(pos0 + 1, e),
                decreases input.len() - t@.pos,
            {
                if t.end() {
                    break;
                }
                let c = t.peek().unwrap();
                if c == '\'' {
                    break;
                }
                let ghost p = t@.pos;
                t.next();
                content.push(c);
                proof {
                    assert(input.subrange(pos0 + 1, p).push(input[p]) =~= input.subrange(
                        pos0 + 1,
                        p + 1,
                    ));
                    lemma_sq_run_end(input, p + 1);
                }
            }
            t.advance(1);
            let kind = if content.len() == 1 {
                TokenType::CharLiteral
            } else {
                TokenType::StringLiteral
            };
            let lexeme = chars_to_string(&content);
            Ok(Some(Token::new(kind, t.last_position(), lexeme)))
        } else if c0 == '"' {
            t.advance(1);
            proof {
                lemma_dq_scan(input, pos0 + 1);
            }
            let ghost full = dq_scan(input, pos0 + 1);
            let mut content: Vec<char> = Vec::new();
            loop
                invariant
                    t.wf(),
                    t@.input == input,
                    input == old(t)@.input,
                    pos0 == old(t)@.pos,
                    0 <= pos0 < input.len(),
                    input[pos0] == '"',
                    pos0 + 1 <= t@.pos <= input.len(),
                    full == dq_scan(input, pos0 + 1),
                    full.content == content@ + dq_scan(input, t@.pos).content,
                    full.stop == dq_scan(input, t@.pos).stop,
                    full.bad == dq_scan(input, t@.pos).bad,
                ensures
                    t.wf(),
                    t@.input == input,
                    t@.pos == full.stop,
                    content@ == full.content,
                    full.bad is None,
                    pos0 + 1 <= t@.pos <= input.len(),
                decreases input.len() - t@.pos,
            {
                if t.end() {
                    break;
                }
                let c = t.peek().unwrap();
                if c == '"' {
                    break;
                }
                let ghost p = t@.pos;
                let ghost before = content@;
                t.next();
                if c == '\\' {
                    match t.next() {
                        None => {
                            proof {
                                assert(content@ + Seq::<char>::empty() =~= content@);
                            }
                            break;
                        },
                        Some(ec) => {
                            let tr = match ec {
                                '\\' => '\\',
                                '"' => '"',
                                'n' => '\n',
                                'r' => '\r',
                                't' => '\t',
                                _ => {
                                    return Err(LexError::InvalidEscapeSequence(ec));
                                },
                            };
                            content.push(tr);
                            proof {
                                assert(before + (seq![tr] + dq_scan(input, p + 2).content)
                                    =~= before.push(tr) + dq_scan(input, p + 2).content);
                                lemma_dq_scan(input, p + 2);
                            }
                        },
                    }
                } else {
                    content.push(c);
                    proof {
                        assert(before + (seq![c] + dq_scan(input, p + 1).content) =~= before.push(
                            c,
                        ) + dq_scan(input, p + 1).content);
                        lemma_dq_scan(input, p + 1);
                    }
                }
            }
            t.advance(1);
            let kind = if content.len() == 1 {
                TokenType::CharLiteral
            } else {
                TokenType::StringLiteral
            };
            let lexeme = chars_to_string(&content);
            Ok(Some(Token::new(kind, t.last_position(), lexeme)))
        } else {
            Ok(None)
        }
    }
}

} // verus!
