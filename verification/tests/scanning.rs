use rlox_twi::error::LoxError;
use rlox_twi::scanner::Scanner;
use rlox_twi::token::Literal;
use rlox_twi::token::Token;
use rlox_twi::token::TokenType;

fn scan(src: &str) -> Result<Vec<Token>, LoxError> {
    Scanner::new(src.as_bytes().to_vec()).scan_tokens()
}

fn number_bits(t: &Token) -> u64 {
    match t.literal {
        Some(Literal::Number(n)) => n,
        _ => panic!("expected a number literal"),
    }
}

#[test]
fn scans_integer_literal() {
    let tokens = scan("42").unwrap();
    assert_eq!(tokens.len(), 2);
    assert_eq!(tokens[0].token_type, TokenType::Number);
    assert_eq!(tokens[0].lexeme, b"42".to_vec());
    assert_eq!(number_bits(&tokens[0]), (42.0f64).to_bits());
    assert_eq!(tokens[1].token_type, TokenType::EOF);
}

#[test]
fn scans_fractional_literal() {
    let tokens = scan("123.45").unwrap();
    assert_eq!(tokens.len(), 2);
    assert_eq!(tokens[0].token_type, TokenType::Number);
    assert_eq!(number_bits(&tokens[0]), ("123.45".parse::<f64>().unwrap()).to_bits());
    assert_eq!(tokens[1].token_type, TokenType::EOF);
}

#[test]
fn dot_without_following_digit_is_not_part_of_number() {
    let tokens = scan("3.").unwrap();
    let kinds: Vec<TokenType> = tokens.iter().map(|t| t.token_type).collect();
    assert_eq!(kinds, vec![TokenType::Number, TokenType::Dot, TokenType::EOF]);
    assert_eq!(number_bits(&tokens[0]), (3.0f64).to_bits());
}

#[test]
fn comment_produces_no_token_and_line_advances_once() {
    let tokens = scan("// comment\n1").unwrap();
    assert_eq!(tokens.len(), 2);
    assert_eq!(tokens[0].token_type, TokenType::Number);
    assert_eq!(number_bits(&tokens[0]), (1.0f64).to_bits());
    assert_eq!(tokens[0].line, 2);
    assert_eq!(tokens[1].token_type, TokenType::EOF);
    assert_eq!(tokens[1].line, 2);
}

#[test]
fn comment_at_end_of_input_without_newline() {
    let tokens = scan("1 // trailing").unwrap();
    let kinds: Vec<TokenType> = tokens.iter().map(|t| t.token_type).collect();
    assert_eq!(kinds, vec![TokenType::Number, TokenType::EOF]);
}

#[test]
fn unterminated_string_is_one_error_and_no_token() {
    match scan("\"abc") {
        Err(LoxError::Lexer(errors)) => {
            assert_eq!(errors.len(), 1);
            assert_eq!(errors[0].msg, "Unterminated string");
            assert_eq!(errors[0].line, 1);
        },
        _ => panic!("expected a lexical error"),
    }
}

#[test]
fn unterminated_string_reports_line_where_termination_failed() {
    match scan("\"a\nb") {
        Err(LoxError::Lexer(errors)) => {
            assert_eq!(errors.len(), 1);
            assert_eq!(errors[0].msg, "Unterminated string");
            assert_eq!(errors[0].line, 2);
        },
        _ => panic!("expected a lexical error"),
    }
}

#[test]
fn string_literal_carries_text_between_quotes() {
    let tokens = scan("\"hi\"").unwrap();
    assert_eq!(tokens[0].token_type, TokenType::String);
    assert_eq!(tokens[0].lexeme, b"\"hi\"".to_vec());
    match &tokens[0].literal {
        Some(Literal::String(s)) => assert_eq!(s, &b"hi".to_vec()),
        _ => panic!("expected a string literal"),
    }
}

#[test]
fn string_with_embedded_newline_counts_lines() {
    let tokens = scan("\"a\nb\"").unwrap();
    assert_eq!(tokens[0].token_type, TokenType::String);
    assert_eq!(tokens[0].line, 2);
    match &tokens[0].literal {
        Some(Literal::String(s)) => assert_eq!(s, &b"a\nb".to_vec()),
        _ => panic!("expected a string literal"),
    }
}

#[test]
fn unexpected_character_is_collected_and_scanning_continues() {
    match scan("@#1") {
        Err(LoxError::Lexer(errors)) => {
            assert_eq!(errors.len(), 2);
            assert_eq!(errors[0].msg, "Unexpected character");
            assert_eq!(errors[1].msg, "Unexpected character");
        },
        _ => panic!("expected lexical errors"),
    }
}

#[test]
fn scans_all_punctuation_and_operators() {
    let tokens = scan("(){},.-+;*! != = == < <= > >= /").unwrap();
    let kinds: Vec<TokenType> = tokens.iter().map(|t| t.token_type).collect();
    assert_eq!(
        kinds,
        vec![
            TokenType::LeftParen,
            TokenType::RightParen,
            TokenType::LeftBrace,
            TokenType::RightBrace,
            TokenType::Comma,
            TokenType::Dot,
            TokenType::Minus,
            TokenType::Plus,
            TokenType::Semicolon,
            TokenType::Star,
            TokenType::Bang,
            TokenType::BangEqual,
            TokenType::Equal,
            TokenType::EqualEqual,
            TokenType::Less,
            TokenType::LessEqual,
            TokenType::Greater,
            TokenType::GreaterEqual,
            TokenType::Slash,
            TokenType::EOF,
        ]
    );
}

#[test]
fn keywords_and_identifiers() {
    let tokens = scan("and class else false fun for if nil or print return super this true var while andy").unwrap();
    let kinds: Vec<TokenType> = tokens.iter().map(|t| t.token_type).collect();
    assert_eq!(
        kinds,
        vec![
            TokenType::And,
            TokenType::Class,
            TokenType::Else,
            TokenType::False,
            TokenType::Fun,
            TokenType::For,
            TokenType::If,
            TokenType::Nil,
            TokenType::Or,
            TokenType::Print,
            TokenType::Return,
            TokenType::Super,
            TokenType::This,
            TokenType::True,
            TokenType::Var,
            TokenType::While,
            TokenType::Identifier,
            TokenType::EOF,
        ]
    );
}

#[test]
fn underscore_begins_but_does_not_continue_identifiers() {
    let tokens = scan("a_b").unwrap();
    let kinds: Vec<TokenType> = tokens.iter().map(|t| t.token_type).collect();
    assert_eq!(kinds, vec![TokenType::Identifier, TokenType::Identifier, TokenType::EOF]);
    assert_eq!(tokens[0].lexeme, b"a".to_vec());
    assert_eq!(tokens[1].lexeme, b"_b".to_vec());
}

#[test]
fn eof_token_has_empty_lexeme_and_final_line() {
    let tokens = scan("1\n2\n").unwrap();
    let eof = tokens.last().unwrap();
    assert_eq!(eof.token_type, TokenType::EOF);
    assert_eq!(eof.lexeme, Vec::<u8>::new());
    assert_eq!(eof.line, 3);
}

#[test]
fn deep_clone_duplicates_a_token() {
    let tokens = scan("\"xy\"").unwrap();
    let copy = tokens[0].deep_clone();
    assert_eq!(copy.token_type, tokens[0].token_type);
    assert_eq!(copy.lexeme, tokens[0].lexeme);
    assert_eq!(copy.line, tokens[0].line);
    match (&copy.literal, &tokens[0].literal) {
        (Some(Literal::String(a)), Some(Literal::String(b))) => assert_eq!(a, b),
        _ => panic!("expected matching string literals"),
    }
}
