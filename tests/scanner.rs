use rlox::runtime_status::{Diagnostic, RuntimeStatus};
use rlox::scanner::Scanner;
use rlox::token::{Literal, Token};
use rlox::token_type::TokenType;

fn scan_with(source: &str, status: &mut RuntimeStatus) -> Vec<Token> {
    let mut scanner = Scanner::new(source.to_string());
    scanner.scan_tokens(status).clone()
}

fn scan(source: &str) -> (Vec<Token>, RuntimeStatus) {
    let mut status = RuntimeStatus::new();
    let tokens = scan_with(source, &mut status);
    (tokens, status)
}

fn types(tokens: &[Token]) -> Vec<TokenType> {
    tokens.iter().map(|t| t.token_type()).collect()
}

fn plain(token_type: TokenType, lexeme: &str, line: i32) -> Token {
    Token::new(token_type, lexeme.to_string(), None, line)
}

fn eof(line: i32) -> Token {
    plain(TokenType::EOF, "", line)
}

#[test]
fn empty_source_gives_only_eof() {
    let (tokens, status) = scan("");
    assert_eq!(tokens, vec![eof(1)]);
    assert!(!status.had_error);
    assert!(status.reports.is_empty());
}

#[test]
fn left_paren_alone() {
    let (tokens, status) = scan("(");
    assert_eq!(tokens, vec![plain(TokenType::LEFT_PAREN, "(", 1), eof(1)]);
    assert_eq!(tokens[0].lexeme(), "(");
    assert!(!status.had_error);
}

#[test]
fn every_punctuation_character() {
    let (tokens, _) = scan("(){},.-+;*/");
    assert_eq!(
        types(&tokens),
        vec![
            TokenType::LEFT_PAREN,
            TokenType::RIGHT_PAREN,
            TokenType::LEFT_BRACE,
            TokenType::RIGHT_BRACE,
            TokenType::COMMA,
            TokenType::DOT,
            TokenType::MINUS,
            TokenType::PLUS,
            TokenType::SEMICOLON,
            TokenType::STAR,
            TokenType::SLASH,
            TokenType::EOF,
        ]
    );
}

#[test]
fn bang_equal_and_bang() {
    let (tokens, _) = scan("!=");
    assert_eq!(tokens, vec![plain(TokenType::BANG_EQUAL, "!=", 1), eof(1)]);
    let (tokens, _) = scan("!");
    assert_eq!(tokens, vec![plain(TokenType::BANG, "!", 1), eof(1)]);
}

#[test]
fn longest_operator_is_taken() {
    let (tokens, _) = scan("== = <= < >= > !!=");
    assert_eq!(
        tokens,
        vec![
            plain(TokenType::EQUAL_EQUAL, "==", 1),
            plain(TokenType::EQUAL, "=", 1),
            plain(TokenType::LESS_EQUAL, "<=", 1),
            plain(TokenType::LESS, "<", 1),
            plain(TokenType::GREATER_EQUAL, ">=", 1),
            plain(TokenType::GREATER, ">", 1),
            plain(TokenType::BANG, "!", 1),
            plain(TokenType::BANG_EQUAL, "!=", 1),
            eof(1),
        ]
    );
}

#[test]
fn comment_then_plus_on_next_line() {
    let (tokens, status) = scan("// comment\n+");
    assert_eq!(tokens, vec![plain(TokenType::PLUS, "+", 2), eof(2)]);
    assert!(!status.had_error);
}

#[test]
fn comment_at_end_of_input() {
    let (tokens, _) = scan("+ // no newline after this");
    assert_eq!(tokens, vec![plain(TokenType::PLUS, "+", 1), eof(1)]);
}

#[test]
fn whitespace_is_skipped_and_newlines_counted() {
    let (tokens, _) = scan(" \t\r\n\n  ;\n");
    assert_eq!(tokens, vec![plain(TokenType::SEMICOLON, ";", 3), eof(4)]);
}

#[test]
fn string_spanning_two_lines() {
    let (tokens, status) = scan("\"hello\nworld\"");
    assert_eq!(tokens.len(), 2);
    assert_eq!(tokens[0].token_type(), TokenType::STRING);
    assert_eq!(tokens[0].lexeme(), "\"hello\nworld\"");
    assert_eq!(
        tokens[0].literal(),
        &Some(Literal::Str("hello\nworld".to_string()))
    );
    assert_eq!(tokens[0].line(), 2);
    assert_eq!(tokens[1], eof(2));
    assert!(!status.had_error);
}

#[test]
fn empty_string_literal() {
    let (tokens, _) = scan("\"\"");
    assert_eq!(
        tokens[0],
        Token::new(
            TokenType::STRING,
            "\"\"".to_string(),
            Some(Literal::Str(String::new())),
            1
        )
    );
}

#[test]
fn string_with_non_ascii_characters() {
    let (tokens, _) = scan("\"héllo ✓\"+");
    assert_eq!(tokens[0].lexeme(), "\"héllo ✓\"");
    assert_eq!(
        tokens[0].literal(),
        &Some(Literal::Str("héllo ✓".to_string()))
    );
    assert_eq!(tokens[1], plain(TokenType::PLUS, "+", 1));
}

#[test]
fn number_with_fraction() {
    let (tokens, _) = scan("123.45");
    assert_eq!(tokens.len(), 2);
    assert_eq!(tokens[0].token_type(), TokenType::NUMBER);
    assert_eq!(tokens[0].lexeme(), "123.45");
    match tokens[0].literal() {
        Some(Literal::Number(text)) => {
            assert_eq!(text, "123.45");
            assert_eq!(text.parse::<f64>().unwrap(), 123.45);
        }
        other => panic!("expected a number literal, got {:?}", other),
    }
}

#[test]
fn number_then_trailing_dot() {
    let (tokens, _) = scan("123.");
    assert_eq!(
        tokens,
        vec![
            Token::new(
                TokenType::NUMBER,
                "123".to_string(),
                Some(Literal::Number("123".to_string())),
                1
            ),
            plain(TokenType::DOT, ".", 1),
            eof(1),
        ]
    );
    match tokens[0].literal() {
        Some(Literal::Number(text)) => assert_eq!(text.parse::<f64>().unwrap(), 123.0),
        other => panic!("expected a number literal, got {:?}", other),
    }
}

#[test]
fn number_with_two_dots() {
    let (tokens, _) = scan("1.2.3");
    assert_eq!(types(&tokens), vec![TokenType::NUMBER, TokenType::DOT, TokenType::NUMBER, TokenType::EOF]);
    assert_eq!(tokens[0].lexeme(), "1.2");
    assert_eq!(tokens[2].lexeme(), "3");
}

#[test]
fn unterminated_string_reports_at_last_line() {
    let (tokens, status) = scan("\"unterminated");
    assert_eq!(tokens, vec![eof(1)]);
    assert!(status.had_error);
    assert_eq!(
        status.reports,
        vec![Diagnostic { line: 1, message: "Unterminated string.".to_string() }]
    );
    let (tokens, status) = scan("\"a\nb\nc");
    assert_eq!(tokens, vec![eof(3)]);
    assert_eq!(status.reports[0].line, 3);
}

#[test]
fn unexpected_character_is_reported_and_skipped() {
    let (tokens, status) = scan("@");
    assert_eq!(tokens, vec![eof(1)]);
    assert!(status.had_error);
    let (tokens, status) = scan("@+");
    assert_eq!(tokens, vec![plain(TokenType::PLUS, "+", 1), eof(1)]);
    assert!(status.had_error);
    assert_eq!(
        status.reports,
        vec![Diagnostic { line: 1, message: "Unexpected character: @".to_string() }]
    );
}

#[test]
fn non_ascii_unexpected_character() {
    let (tokens, status) = scan("\n é");
    assert_eq!(tokens, vec![eof(2)]);
    assert_eq!(
        status.reports,
        vec![Diagnostic { line: 2, message: "Unexpected character: é".to_string() }]
    );
}

#[test]
fn status_is_never_cleared_by_a_scan() {
    let mut status = RuntimeStatus::new();
    scan_with("#", &mut status);
    assert!(status.had_error);
    let tokens = scan_with("+", &mut status);
    assert_eq!(tokens, vec![plain(TokenType::PLUS, "+", 1), eof(1)]);
    assert!(status.had_error);
    assert_eq!(status.reports.len(), 1);
    scan_with("\"", &mut status);
    assert_eq!(status.reports.len(), 2);
    assert_eq!(status.reports[1].message, "Unterminated string.");
}

#[test]
fn eof_is_last_and_only_once() {
    for source in ["", "(", "1 + 2", "\"s\" // c", "@@", "\"open", "a\nb", "1.\n."] {
        let (tokens, _) = scan(source);
        let last = tokens.last().unwrap();
        assert_eq!(last.token_type(), TokenType::EOF);
        assert_eq!(last.lexeme(), "");
        assert_eq!(last.literal(), &None);
        assert_eq!(
            tokens.iter().filter(|t| t.token_type() == TokenType::EOF).count(),
            1
        );
    }
}

#[test]
fn lexemes_and_skipped_text_rebuild_the_source() {
    let source = "( ) // c\n+\"a b\"\t12.5;";
    let (tokens, _) = scan(source);
    let lexemes: Vec<&str> = tokens.iter().map(|t| t.lexeme().as_str()).collect();
    assert_eq!(lexemes, vec!["(", ")", "+", "\"a b\"", "12.5", ";", ""]);
    // Each lexeme is found in the source after the previous one, and the
    // text between them is whitespace or a comment.
    let mut rest = source;
    let mut skipped = String::new();
    for lexeme in &lexemes[..lexemes.len() - 1] {
        let at = rest.find(lexeme).unwrap();
        skipped.push_str(&rest[..at]);
        rest = &rest[at + lexeme.len()..];
    }
    skipped.push_str(rest);
    assert_eq!(skipped, "  // c\n\t");
}

#[test]
fn rescanning_gives_the_same_result() {
    let source = "(1.5 != \"x\")\n@ // done\n\"open";
    let (first, first_status) = scan(source);
    let (second, second_status) = scan(source);
    assert_eq!(first, second);
    assert_eq!(first_status.reports, second_status.reports);
    assert_eq!(first_status.had_error, second_status.had_error);
}

#[test]
fn token_new_keeps_its_fields() {
    let token = Token::new(
        TokenType::NUMBER,
        "7".to_string(),
        Some(Literal::Number("7".to_string())),
        4,
    );
    assert_eq!(token.token_type(), TokenType::NUMBER);
    assert_eq!(token.lexeme(), "7");
    assert_eq!(token.literal(), &Some(Literal::Number("7".to_string())));
    assert_eq!(token.line(), 4);
}

#[test]
fn scanning_again_adds_a_second_eof() {
    let mut status = RuntimeStatus::new();
    let mut scanner = Scanner::new("+".to_string());
    let first = scanner.scan_tokens(&mut status).clone();
    assert_eq!(first, vec![plain(TokenType::PLUS, "+", 1), eof(1)]);
    let second = scanner.scan_tokens(&mut status).clone();
    assert_eq!(second, vec![plain(TokenType::PLUS, "+", 1), eof(1), eof(1)]);
}

#[test]
fn error_marks_status_and_records_report() {
    let mut status = RuntimeStatus::new();
    rlox::error::error(&mut status, 7, "Something broke.");
    assert!(status.had_error);
    assert_eq!(
        status.reports,
        vec![Diagnostic { line: 7, message: "Something broke.".to_string() }]
    );
}
