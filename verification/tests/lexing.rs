use libsmac::ConstantMatcher;
use libsmac::IdentifierMatcher;
use libsmac::IntLiteralMatcher;
use libsmac::LexError;
use libsmac::Lexer;
use libsmac::MatcherChoice;
use libsmac::StringLiteralMatcher;
use libsmac::Token;
use libsmac::TokenType;
use libsmac::Tokenizer;
use libsmac::WhitespaceMatcher;

fn chars(s: &str) -> Vec<char> {
    s.chars().collect()
}

fn standard_lexer(input: &str) -> Lexer<MatcherChoice> {
    let mut lexer = Lexer::new(Tokenizer::new(chars(input)));
    lexer.register(MatcherChoice::Whitespace(WhitespaceMatcher {}));
    lexer.register(MatcherChoice::IntLiteral(IntLiteralMatcher {}));
    lexer.register(MatcherChoice::StringLiteral(StringLiteralMatcher {}));
    lexer.register(MatcherChoice::Identifier(IdentifierMatcher {}));
    lexer
}

fn summary(tokens: &[Token]) -> Vec<(TokenType, String, usize)> {
    tokens
        .iter()
        .map(|t| (t.kind, t.lexeme.clone(), t.position))
        .collect()
}

#[test]
fn whitespace_only_yields_one_token() {
    let (tokens, err) = standard_lexer("  \t\n").lex_all();
    assert_eq!(err, None);
    assert_eq!(
        summary(&tokens),
        vec![(TokenType::Whitespace, String::new(), 4)]
    );
}

#[test]
fn decimal_leading_zeros_are_normalized() {
    let (tokens, err) = standard_lexer("007").lex_all();
    assert_eq!(err, None);
    assert_eq!(summary(&tokens), vec![(TokenType::IntLiteral, "7".to_string(), 3)]);

    let (tokens, err) = standard_lexer("42").lex_all();
    assert_eq!(err, None);
    assert_eq!(summary(&tokens), vec![(TokenType::IntLiteral, "42".to_string(), 2)]);

    let (tokens, err) = standard_lexer("0").lex_all();
    assert_eq!(err, None);
    assert_eq!(summary(&tokens), vec![(TokenType::IntLiteral, "0".to_string(), 1)]);
}

#[test]
fn hex_and_binary_literals_become_decimal() {
    let (tokens, err) = standard_lexer("0x1A").lex_all();
    assert_eq!(err, None);
    assert_eq!(summary(&tokens), vec![(TokenType::IntLiteral, "26".to_string(), 4)]);

    let (tokens, err) = standard_lexer("0b101").lex_all();
    assert_eq!(err, None);
    assert_eq!(summary(&tokens), vec![(TokenType::IntLiteral, "5".to_string(), 5)]);
}

#[test]
fn one_character_content_collapses_to_char_literal() {
    let (tokens, err) = standard_lexer("\"hello\"").lex_all();
    assert_eq!(err, None);
    assert_eq!(
        summary(&tokens),
        vec![(TokenType::StringLiteral, "hello".to_string(), 7)]
    );

    let (tokens, err) = standard_lexer("\"h\"").lex_all();
    assert_eq!(err, None);
    assert_eq!(summary(&tokens), vec![(TokenType::CharLiteral, "h".to_string(), 3)]);

    let (tokens, err) = standard_lexer("'h'").lex_all();
    assert_eq!(err, None);
    assert_eq!(summary(&tokens), vec![(TokenType::CharLiteral, "h".to_string(), 3)]);
}

#[test]
fn single_quotes_take_content_verbatim() {
    // 'a\nb' : the backslash and the n stay two separate characters
    let (tokens, err) = standard_lexer("'a\\nb'").lex_all();
    assert_eq!(err, None);
    assert_eq!(
        summary(&tokens),
        vec![(TokenType::StringLiteral, "a\\nb".to_string(), 6)]
    );

    // "a\nb" : the escape is translated to an actual newline
    let (tokens, err) = standard_lexer("\"a\\nb\"").lex_all();
    assert_eq!(err, None);
    assert_eq!(
        summary(&tokens),
        vec![(TokenType::StringLiteral, "a\nb".to_string(), 6)]
    );
}

#[test]
fn double_quote_escapes_are_translated() {
    let (tokens, err) = standard_lexer("\"a\\\\b\\t\\r\\\"\"").lex_all();
    assert_eq!(err, None);
    assert_eq!(tokens.len(), 1);
    assert_eq!(tokens[0].lexeme, "a\\b\t\r\"");
}

#[test]
fn symbols_then_literals_in_source_order() {
    let mut lexer = Lexer::new(Tokenizer::new(chars("(1 2)")));
    lexer.register(MatcherChoice::Constant(ConstantMatcher::new(
        TokenType::Symbol,
        vec!["(".to_string(), ")".to_string()],
    )));
    lexer.register(MatcherChoice::Identifier(IdentifierMatcher {}));
    lexer.register(MatcherChoice::IntLiteral(IntLiteralMatcher {}));
    lexer.register(MatcherChoice::Whitespace(WhitespaceMatcher {}));
    let (tokens, err) = lexer.lex_all();
    assert_eq!(err, None);
    assert_eq!(
        summary(&tokens),
        vec![
            (TokenType::Symbol, "(".to_string(), 1),
            (TokenType::IntLiteral, "1".to_string(), 2),
            (TokenType::Whitespace, String::new(), 3),
            (TokenType::IntLiteral, "2".to_string(), 4),
            (TokenType::Symbol, ")".to_string(), 5),
        ]
    );
}

#[test]
fn earlier_constant_wins_over_its_prefix() {
    let mut lexer = Lexer::new(Tokenizer::new(chars("==")));
    lexer.register(MatcherChoice::Constant(ConstantMatcher::new(
        TokenType::Symbol,
        vec!["==".to_string(), "=".to_string()],
    )));
    let (tokens, err) = lexer.lex_all();
    assert_eq!(err, None);
    assert_eq!(summary(&tokens), vec![(TokenType::Symbol, "==".to_string(), 2)]);
}

#[test]
fn relexing_fresh_input_yields_identical_tokens() {
    let first = standard_lexer("1 \"two\" three?").lex_all();
    let second = standard_lexer("1 \"two\" three?").lex_all();
    assert_eq!(first.1, second.1);
    assert_eq!(summary(&first.0), summary(&second.0));
}

#[test]
fn unrecognized_input_keeps_earlier_tokens() {
    let mut lexer = Lexer::new(Tokenizer::new(chars("1 @")));
    lexer.register(MatcherChoice::Whitespace(WhitespaceMatcher {}));
    lexer.register(MatcherChoice::IntLiteral(IntLiteralMatcher {}));
    let (tokens, err) = lexer.lex_all();
    assert_eq!(err, Some(LexError::UnrecognizedInput(2)));
    assert_eq!(
        summary(&tokens),
        vec![
            (TokenType::IntLiteral, "1".to_string(), 1),
            (TokenType::Whitespace, String::new(), 2),
        ]
    );
}

#[test]
fn invalid_escape_reports_the_offending_character() {
    let (tokens, err) = standard_lexer("\"a\\qb\"").lex_all();
    assert_eq!(err, Some(LexError::InvalidEscapeSequence('q')));
    assert_eq!(tokens.len(), 0);
}

#[test]
fn numeric_overflow_reports_the_digit_run() {
    let (tokens, err) = standard_lexer("99999999999999999999").lex_all();
    assert_eq!(
        err,
        Some(LexError::NumericOverflow("99999999999999999999".to_string()))
    );
    assert_eq!(tokens.len(), 0);
}

#[test]
fn largest_value_still_fits() {
    let (tokens, err) = standard_lexer("18446744073709551615").lex_all();
    assert_eq!(err, None);
    assert_eq!(tokens[0].lexeme, "18446744073709551615");
}

#[test]
fn identifiers_allow_marks_and_underscores() {
    let (tokens, err) = standard_lexer("working? _works wo_rk!?").lex_all();
    assert_eq!(err, None);
    assert_eq!(
        summary(&tokens),
        vec![
            (TokenType::Identifier, "working?".to_string(), 8),
            (TokenType::Whitespace, String::new(), 9),
            (TokenType::Identifier, "_works".to_string(), 15),
            (TokenType::Whitespace, String::new(), 16),
            (TokenType::Identifier, "wo_rk!?".to_string(), 23),
        ]
    );
}

#[test]
fn identifier_declines_without_consuming() {
    let mut lexer = Lexer::new(Tokenizer::new(chars("9a")));
    lexer.register(MatcherChoice::Identifier(IdentifierMatcher {}));
    lexer.register(MatcherChoice::IntLiteral(IntLiteralMatcher {}));
    let (tokens, err) = lexer.lex_all();
    assert_eq!(err, None);
    assert_eq!(
        summary(&tokens),
        vec![
            (TokenType::IntLiteral, "9".to_string(), 1),
            (TokenType::Identifier, "a".to_string(), 2),
        ]
    );
}

#[test]
fn empty_constant_never_matches() {
    let mut lexer = Lexer::new(Tokenizer::new(chars("x")));
    lexer.register(MatcherChoice::Constant(ConstantMatcher::new(
        TokenType::Symbol,
        vec![String::new(), "x".to_string()],
    )));
    let (tokens, err) = lexer.lex_all();
    assert_eq!(err, None);
    assert_eq!(summary(&tokens), vec![(TokenType::Symbol, "x".to_string(), 1)]);
}

#[test]
fn constant_needs_enough_remaining_input() {
    let mut lexer = Lexer::new(Tokenizer::new(chars(")")));
    lexer.register(MatcherChoice::Constant(ConstantMatcher::new(
        TokenType::Symbol,
        vec!["))".to_string()],
    )));
    let (tokens, err) = lexer.lex_all();
    assert_eq!(err, Some(LexError::UnrecognizedInput(0)));
    assert_eq!(tokens.len(), 0);
}

#[test]
fn unterminated_literal_ends_silently() {
    let (tokens, err) = standard_lexer("\"abc").lex_all();
    assert_eq!(err, None);
    assert_eq!(
        summary(&tokens),
        vec![(TokenType::StringLiteral, "abc".to_string(), 4)]
    );

    let (tokens, err) = standard_lexer("'").lex_all();
    assert_eq!(err, None);
    assert_eq!(summary(&tokens), vec![(TokenType::StringLiteral, String::new(), 1)]);
}

#[test]
fn trailing_backslash_is_dropped() {
    let (tokens, err) = standard_lexer("\"ab\\").lex_all();
    assert_eq!(err, None);
    assert_eq!(
        summary(&tokens),
        vec![(TokenType::StringLiteral, "ab".to_string(), 4)]
    );
}

#[test]
fn base_prefix_without_digits_declines_cleanly() {
    let mut lexer = Lexer::new(Tokenizer::new(chars("0x")));
    lexer.register(MatcherChoice::IntLiteral(IntLiteralMatcher {}));
    let (tokens, err) = lexer.lex_all();
    assert_eq!(err, Some(LexError::UnrecognizedInput(0)));
    assert_eq!(tokens.len(), 0);
}

#[test]
fn next_token_is_done_after_exhaustion() {
    let mut lexer = standard_lexer("hi");
    assert!(matches!(lexer.next_token(), Ok(Some(_))));
    assert!(matches!(lexer.next_token(), Ok(None)));
    assert!(matches!(lexer.next_token(), Ok(None)));
}

#[test]
fn describe_carries_kind_lexeme_and_position() {
    let (tokens, err) = standard_lexer("42").lex_all();
    assert_eq!(err, None);
    assert_eq!(tokens[0].describe(), "IntLiteral(42) at 2");

    let custom = Token::new(TokenType::Custom(7), 3, "odd".to_string());
    assert_eq!(custom.describe(), "Custom:7(odd) at 3");
}
