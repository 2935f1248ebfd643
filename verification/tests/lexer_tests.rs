use bwq_linter::error::LintError;
use bwq_linter::lexer::{lex, Lexer, TokenType};

#[test]
fn test_basic_tokenization() {
    let mut lexer = Lexer::new("apple AND juice");
    let tokens = lexer.tokenize().unwrap();

    assert_eq!(tokens.len(), 4);
    assert!(matches!(tokens[0].token_type, TokenType::Word(ref w) if w == "apple"));
    assert!(matches!(tokens[1].token_type, TokenType::And));
    assert!(matches!(tokens[2].token_type, TokenType::Word(ref w) if w == "juice"));
    assert!(matches!(tokens[3].token_type, TokenType::Eof));
}

#[test]
fn test_quoted_string() {
    let mut lexer = Lexer::new("\"apple juice\"");
    let tokens = lexer.tokenize().unwrap();

    assert_eq!(tokens.len(), 2);
    assert!(
        matches!(tokens[0].token_type, TokenType::QuotedString(ref s) if s == "apple juice")
    );
}

#[test]
fn test_proximity_operators() {
    let mut lexer = Lexer::new("NEAR/5 NEAR/3f");
    let tokens = lexer.tokenize().unwrap();

    assert_eq!(tokens.len(), 3);
    assert!(matches!(tokens[0].token_type, TokenType::Near(5)));
    assert!(matches!(tokens[1].token_type, TokenType::NearForward(3)));
}

#[test]
fn test_near_with_letters_stays_a_word() {
    let tokens = lex("NEAR/abc").unwrap();
    assert_eq!(tokens.len(), 2);
    assert!(matches!(tokens[0].token_type, TokenType::Word(ref w) if w == "NEAR/abc"));
}

#[test]
fn test_near_bare_prefix_stays_a_word() {
    let tokens = lex("NEAR/ NEAR/5ff").unwrap();
    assert!(matches!(tokens[0].token_type, TokenType::Word(ref w) if w == "NEAR/"));
    assert!(matches!(tokens[1].token_type, TokenType::Word(ref w) if w == "NEAR/5ff"));
}

#[test]
fn test_unterminated_quote_is_fatal() {
    let result = lex("\"abc");
    match result {
        Err(LintError::LexerError { position, message }) => {
            assert_eq!(position.line, 1);
            assert_eq!(position.column, 1);
            assert_eq!(position.offset, 0);
            assert_eq!(message, "Unterminated quoted string");
        }
        other => panic!("expected a lexer error, got {:?}", other),
    }
}

#[test]
fn test_unexpected_character() {
    let result = lex("apple % juice");
    match result {
        Err(LintError::LexerError { position, message }) => {
            assert_eq!(position.offset, 6);
            assert_eq!(message, "Unexpected character '%'");
        }
        other => panic!("expected a lexer error, got {:?}", other),
    }
}

#[test]
fn test_lexing_is_idempotent() {
    let first = lex("title:(apple OR juice) AND #fresh").unwrap();
    let second = lex("title:(apple OR juice) AND #fresh").unwrap();
    assert_eq!(first, second);
}

#[test]
fn test_spans_address_raw_text() {
    let input = "apple  (juice) #tag @user [0 TO 9]";
    let tokens = lex(input).unwrap();
    for t in &tokens {
        let start = t.span.start.offset;
        let end = t.span.end.offset;
        assert_eq!(&input[start..end], t.raw.as_str());
    }
    assert!(matches!(tokens[tokens.len() - 1].token_type, TokenType::Eof));
}

#[test]
fn test_whitespace_is_dropped_and_lines_counted() {
    let tokens = lex("apple\njuice").unwrap();
    assert_eq!(tokens.len(), 3);
    assert_eq!(tokens[0].span.start.line, 1);
    assert_eq!(tokens[1].span.start.line, 2);
    assert_eq!(tokens[1].span.start.column, 1);
}

#[test]
fn test_number_and_bare_minus() {
    let tokens = lex("-3.14 42").unwrap();
    assert!(matches!(tokens[0].token_type, TokenType::Number(ref v) if v == "-3.14"));
    assert!(matches!(tokens[1].token_type, TokenType::Number(ref v) if v == "42"));

    let result = lex("- x");
    match result {
        Err(LintError::LexerError { position, message }) => {
            assert_eq!(position.offset, 0);
            assert_eq!(message, "Unexpected character '-'");
        }
        other => panic!("expected a lexer error, got {:?}", other),
    }
}

#[test]
fn test_comment_delimiters_and_tags() {
    let tokens = lex("<<< >>> #fresh @press").unwrap();
    assert!(matches!(tokens[0].token_type, TokenType::CommentStart));
    assert!(matches!(tokens[1].token_type, TokenType::CommentEnd));
    assert!(matches!(tokens[2].token_type, TokenType::Hashtag(ref h) if h == "fresh"));
    assert!(matches!(tokens[3].token_type, TokenType::Mention(ref m) if m == "press"));
    assert_eq!(tokens[2].raw, "#fresh");
    assert_eq!(tokens[3].raw, "@press");
}

#[test]
fn test_describe() {
    assert_eq!(TokenType::Near(5).describe(), "NEAR/5");
    assert_eq!(TokenType::NearForward(12).describe(), "NEAR/12f");
    assert_eq!(TokenType::Word(String::from("apple")).describe(), "word 'apple'");
    assert_eq!(TokenType::LeftBrace.describe(), "{");
    assert_eq!(TokenType::Eof.describe(), "end of file");
}

#[test]
fn test_near_distance_bounds() {
    let tokens = lex("NEAR/4294967295").unwrap();
    assert!(matches!(tokens[0].token_type, TokenType::Near(4294967295)));

    let tokens = lex("NEAR/4294967296").unwrap();
    assert!(matches!(tokens[0].token_type, TokenType::Word(ref w) if w == "NEAR/4294967296"));
}
