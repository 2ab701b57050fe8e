use funk::lexer::{LexErrorKind, Lexer};
use funk::token::TokenType;

fn kinds(source: &str) -> Vec<TokenType> {
    let tokens = Lexer::new(source.to_string()).lex().unwrap();
    tokens.iter().map(|token| token.token_type).collect()
}

fn lexemes(source: &str) -> Vec<String> {
    let tokens = Lexer::new(source.to_string()).lex().unwrap();
    tokens.iter().map(|token| token.lexeme.clone()).collect()
}

#[test]
fn an_empty_text_is_the_end_of_input() {
    let tokens = Lexer::new(String::new()).lex().unwrap();
    assert_eq!(tokens.len(), 1);
    assert_eq!(tokens[0].token_type, TokenType::EOF);
    assert_eq!(tokens[0].lexeme, "");
    assert_eq!(tokens[0].line, 0);
}

#[test]
fn scans_the_keywords() {
    assert_eq!(
        kinds("true false nil print make if else and or while funk return with as for in"),
        vec![
            TokenType::Boolean,
            TokenType::Boolean,
            TokenType::Nil,
            TokenType::Print,
            TokenType::Make,
            TokenType::If,
            TokenType::Else,
            TokenType::And,
            TokenType::Or,
            TokenType::While,
            TokenType::Funk,
            TokenType::Return,
            TokenType::With,
            TokenType::As,
            TokenType::For,
            TokenType::In,
            TokenType::EOF,
        ]
    );
}

#[test]
fn scans_the_punctuation() {
    assert_eq!(
        kinds("( ) { } [ ] , ; . : = ! < > + - * / == != >= <="),
        vec![
            TokenType::LParen,
            TokenType::RParen,
            TokenType::LBrace,
            TokenType::RBrace,
            TokenType::LBracket,
            TokenType::RBracket,
            TokenType::Comma,
            TokenType::Semicolon,
            TokenType::Dot,
            TokenType::Colon,
            TokenType::Equal,
            TokenType::Bang,
            TokenType::Less,
            TokenType::Greater,
            TokenType::Plus,
            TokenType::Minus,
            TokenType::Star,
            TokenType::Slash,
            TokenType::EqualEqual,
            TokenType::BangEqual,
            TokenType::GreaterEqual,
            TokenType::LessEqual,
            TokenType::EOF,
        ]
    );
}

#[test]
fn a_word_that_is_no_keyword_is_an_identifier() {
    assert_eq!(kinds("trues printer x_1 iff"), vec![
        TokenType::Identifier,
        TokenType::Identifier,
        TokenType::Identifier,
        TokenType::Identifier,
        TokenType::EOF,
    ]);
    assert_eq!(lexemes("trues printer x_1 iff"), vec!["trues", "printer", "x_1", "iff", ""]);
}

#[test]
fn an_underscore_starts_no_token() {
    let error = Lexer::new("_x".to_string()).lex().unwrap_err();
    assert_eq!(error.kind, LexErrorKind::UnexpectedCharacter);
}

#[test]
fn scans_numbers_with_and_without_a_fraction() {
    assert_eq!(lexemes("12 3.25 7.x 8."), vec!["12", "3.25", "7", ".", "x", "8", ".", ""]);
    assert_eq!(
        kinds("12 3.25 7.x"),
        vec![
            TokenType::Number,
            TokenType::Number,
            TokenType::Number,
            TokenType::Dot,
            TokenType::Identifier,
            TokenType::EOF,
        ]
    );
}

#[test]
fn scans_strings_in_three_kinds_of_quotes() {
    assert_eq!(lexemes("\"a b\" 'c\"d' `e'f`"), vec!["a b", "c\"d", "e'f", ""]);
    assert_eq!(
        kinds("\"a b\" 'c' `e`"),
        vec![TokenType::String, TokenType::String, TokenType::String, TokenType::EOF]
    );
}

#[test]
fn counts_lines_from_zero() {
    let tokens = Lexer::new("a\nb\n\nc \"x\ny\" d".to_string()).lex().unwrap();
    let lines: Vec<u32> = tokens.iter().map(|token| token.line).collect();
    assert_eq!(lines, vec![0, 1, 3, 4, 4, 4]);
    assert_eq!(tokens[3].lexeme, "x\ny");
}

#[test]
fn skips_comments_up_to_the_end_of_the_line() {
    assert_eq!(lexemes("a // b c\n d / e //"), vec!["a", "d", "/", "e", ""]);
}

#[test]
fn two_character_operators_are_one_token() {
    assert_eq!(lexemes("a<=b ==!= = = >=>"), vec!["a", "<=", "b", "==", "!=", "=", "=", ">=", ">", ""]);
}

#[test]
fn an_unexpected_character_is_an_error() {
    let error = Lexer::new("a\n b @ c".to_string()).lex().unwrap_err();
    assert_eq!(error.kind, LexErrorKind::UnexpectedCharacter);
    assert_eq!(error.line, 1);
}

#[test]
fn an_unterminated_string_is_an_error() {
    let error = Lexer::new("a \"bc\nd".to_string()).lex().unwrap_err();
    assert_eq!(error.kind, LexErrorKind::UnterminatedString);
    assert_eq!(error.line, 1);
}

#[test]
fn the_tokens_are_kept_in_the_lexer() {
    let mut lexer = Lexer::new("make x;".to_string());
    let tokens = lexer.lex().unwrap();
    assert_eq!(lexer.tokens, tokens);
    assert_eq!(tokens.len(), 4);
}

#[test]
fn text_beyond_ascii_is_kept_in_strings() {
    assert_eq!(lexemes("\"héllo wörld\" x"), vec!["héllo wörld", "x", ""]);
}
