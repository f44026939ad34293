use mscript::lexer::Lexer;
use mscript::token::{Token, TokenType};

fn kinds(src: &str) -> Vec<TokenType> {
    Lexer::new(src).lex().iter().map(|t| t.token_type).collect()
}

fn texts(src: &str) -> Vec<String> {
    Lexer::new(src).lex().iter().map(|t| t.literal.clone()).collect()
}

#[test]
fn lex_assignment() {
    let toks = Lexer::new("x = 42;").lex();
    assert_eq!(
        toks.iter().map(|t| t.token_type).collect::<Vec<_>>(),
        vec![TokenType::Identifier, TokenType::Equal, TokenType::Number, TokenType::Semicolon, TokenType::EOF]
    );
    assert_eq!(toks[0].literal, "x");
    assert_eq!(toks[2].literal, "42");
    assert_eq!(toks[4].literal, "");
}

#[test]
fn lex_keywords() {
    assert_eq!(
        kinds("fn return true false if else for in while transformer and or not use fnx"),
        vec![
            TokenType::Fn,
            TokenType::Return,
            TokenType::True,
            TokenType::False,
            TokenType::If,
            TokenType::Else,
            TokenType::For,
            TokenType::In,
            TokenType::While,
            TokenType::Transformer,
            TokenType::And,
            TokenType::Or,
            TokenType::Not,
            TokenType::Use,
            TokenType::Identifier,
            TokenType::EOF,
        ]
    );
}

#[test]
fn lex_operators() {
    assert_eq!(
        kinds("<= >= == != < > = ! + - * / % ( ) [ ] { } , ; ."),
        vec![
            TokenType::LessThanEqual,
            TokenType::GreaterThanEqual,
            TokenType::EqualEqual,
            TokenType::BangEqual,
            TokenType::LessThan,
            TokenType::GreaterThan,
            TokenType::Equal,
            TokenType::Plus,
            TokenType::Minus,
            TokenType::Multiply,
            TokenType::Divide,
            TokenType::Modulo,
            TokenType::LeftParen,
            TokenType::RightParen,
            TokenType::LeftBracket,
            TokenType::RightBracket,
            TokenType::LeftBrace,
            TokenType::RightBrace,
            TokenType::Comma,
            TokenType::Semicolon,
            TokenType::Dot,
            TokenType::EOF,
        ]
    );
    assert_eq!(texts("<=!=")[..2].to_vec(), vec!["<=".to_string(), "!=".to_string()]);
}

#[test]
fn lex_comment_skipped() {
    assert_eq!(texts("1 // two three\n4"), vec!["1", "4", ""]);
    assert_eq!(kinds("// only a comment"), vec![TokenType::EOF]);
}

#[test]
fn lex_strings() {
    let toks = Lexer::new("\"hello world\" \"abc").lex();
    assert_eq!(toks[0].token_type, TokenType::String);
    assert_eq!(toks[0].literal, "hello world");
    assert_eq!(toks[1].token_type, TokenType::String);
    assert_eq!(toks[1].literal, "abc");
    assert_eq!(toks[2].token_type, TokenType::EOF);
}

#[test]
fn lex_numbers_with_dots() {
    assert_eq!(texts("3.14 1.2.3 7."), vec!["3.14", "1.2.3", "7.", ""]);
}

#[test]
fn lex_discards_unknown_characters() {
    assert_eq!(texts("@#$ x_1 ~"), vec!["x_1", ""]);
    assert_eq!(texts("a\u{e9}b"), vec!["a", "b", ""]);
}

#[test]
fn lex_empty_input() {
    assert_eq!(kinds(""), vec![TokenType::EOF]);
    assert_eq!(kinds(" \t\r\n"), vec![TokenType::EOF]);
}

#[test]
fn lex_ends_with_single_eof_and_is_repeatable() {
    let src = "fn fib(n) { if n < 2 { return n } else { return fib(n-1) + fib(n-2) } } print(fib(10))";
    let a = kinds(src);
    let b = kinds(src);
    assert_eq!(a, b);
    assert_eq!(texts(src), texts(src));
    assert_eq!(*a.last().unwrap(), TokenType::EOF);
    assert_eq!(a.iter().filter(|k| **k == TokenType::EOF).count(), 1);
}

#[test]
fn lex_lines_separately() {
    let lexer = Lexer { line: vec!["\"ab".to_string(), "cd\"".to_string()] };
    let toks = lexer.lex();
    assert_eq!(toks.len(), 4);
    assert_eq!(toks[0].literal, "ab");
    assert_eq!(toks[1].literal, "cd");
    assert_eq!(toks[2].token_type, TokenType::String);
    assert_eq!(toks[2].literal, "");
}

#[test]
fn tokenize_never_fails() {
    let toks = Lexer::new("x = 1").tokenize().unwrap();
    assert_eq!(toks.len(), 4);
}

#[test]
fn token_repr() {
    let t = Token { token_type: TokenType::Number, literal: "42".to_string() };
    assert_eq!(t.repr(), "Number '42'");
    let e = Token { token_type: TokenType::EOF, literal: String::new() };
    assert_eq!(e.repr(), "EOF ''");
    assert_eq!(TokenType::GreaterThanEqual.name(), "GreaterThanEqual");
}
