use mscript::ast::Expr;
use mscript::lexer::Lexer;
use mscript::parser::{is_numeral_text, Parser};
use mscript::token::{Token, TokenType};

fn parse(src: &str) -> Result<Expr, String> {
    let tokens = Lexer::new(src).lex();
    Parser::new(tokens).parse()
}

fn number(e: &Expr) -> &str {
    match e {
        Expr::Number(s) => s,
        other => panic!("not a number: {:?}", other),
    }
}

#[test]
fn parse_precedence() {
    let e = parse("1 + 2 * 3").unwrap();
    match e {
        Expr::Binary { left, operator, right } => {
            assert_eq!(operator.token_type, TokenType::Plus);
            assert_eq!(number(&left), "1");
            match *right {
                Expr::Binary { left, operator, right } => {
                    assert_eq!(operator.token_type, TokenType::Multiply);
                    assert_eq!(number(&left), "2");
                    assert_eq!(number(&right), "3");
                }
                other => panic!("unexpected {:?}", other),
            }
        }
        other => panic!("unexpected {:?}", other),
    }
}

#[test]
fn parse_left_associative_minus() {
    match parse("5 - 2 - 1").unwrap() {
        Expr::Binary { left, right, .. } => {
            assert!(matches!(*left, Expr::Binary { .. }));
            assert_eq!(number(&right), "1");
        }
        other => panic!("unexpected {:?}", other),
    }
}

#[test]
fn parse_logic_binds_looser_than_comparison() {
    match parse("a < 1 or b == 2 and c").unwrap() {
        Expr::Binary { operator, left, right } => {
            assert_eq!(operator.token_type, TokenType::Or);
            assert!(matches!(*left, Expr::Binary { .. }));
            match *right {
                Expr::Binary { operator, .. } => assert_eq!(operator.token_type, TokenType::And),
                other => panic!("unexpected {:?}", other),
            }
        }
        other => panic!("unexpected {:?}", other),
    }
}

#[test]
fn parse_assignment_is_right_associative() {
    match parse("a = b = 1").unwrap() {
        Expr::Assign { name, value } => {
            assert_eq!(name, "a");
            match *value {
                Expr::Assign { name, value } => {
                    assert_eq!(name, "b");
                    assert_eq!(number(&value), "1");
                }
                other => panic!("unexpected {:?}", other),
            }
        }
        other => panic!("unexpected {:?}", other),
    }
}

#[test]
fn parse_invalid_assignment_target() {
    assert_eq!(parse("1 = 2").unwrap_err(), "Invalid assignment target");
}

#[test]
fn parse_expected_expression() {
    assert_eq!(parse(")").unwrap_err(), "Expected expression");
    assert_eq!(parse("1 +").unwrap_err(), "Expected expression");
}

#[test]
fn parse_unary() {
    match parse("- - 3").unwrap() {
        Expr::Unary { operator, right } => {
            assert_eq!(operator.token_type, TokenType::Minus);
            assert!(matches!(*right, Expr::Unary { .. }));
        }
        other => panic!("unexpected {:?}", other),
    }
    assert!(matches!(parse("not true").unwrap(), Expr::Unary { .. }));
}

#[test]
fn parse_calls_index_and_apply() {
    match parse("f(1, x)[0].g(2)").unwrap() {
        Expr::Apply { object, transformer, arguments } => {
            assert_eq!(transformer, "g");
            assert_eq!(arguments.len(), 1);
            match *object {
                Expr::Index { object, index } => {
                    assert_eq!(number(&index), "0");
                    match *object {
                        Expr::Call { callee, arguments } => {
                            assert_eq!(callee, "f");
                            assert_eq!(arguments.len(), 2);
                        }
                        other => panic!("unexpected {:?}", other),
                    }
                }
                other => panic!("unexpected {:?}", other),
            }
        }
        other => panic!("unexpected {:?}", other),
    }
}

#[test]
fn parse_call_errors() {
    assert_eq!(parse("1(2)").unwrap_err(), "Expected function name");
    assert_eq!(parse("f(1").unwrap_err(), "Expected ')' after arguments");
    assert_eq!(parse("x.1").unwrap_err(), "Expected identifier after '.'");
    assert_eq!(parse("x.f").unwrap_err(), "Expected '(' after transformer name");
    assert_eq!(parse("a[1").unwrap_err(), "Expected ']' after index");
    assert_eq!(parse("[1, 2").unwrap_err(), "Expected ']' after array elements");
    assert_eq!(parse("(1").unwrap_err(), "Expected ')' after expression");
}

#[test]
fn parse_array_literal() {
    match parse("[1, \"two\", true]").unwrap() {
        Expr::Array(items) => {
            assert_eq!(items.len(), 3);
            assert!(matches!(&items[1], Expr::String(s) if s == "two"));
            assert!(matches!(items[2], Expr::Boolean(true)));
        }
        other => panic!("unexpected {:?}", other),
    }
    assert!(matches!(parse("[]").unwrap(), Expr::Array(v) if v.is_empty()));
}

#[test]
fn parse_statements_form_block() {
    match parse("a = 1; b = 2;; c").unwrap() {
        Expr::Block(items) => assert_eq!(items.len(), 3),
        other => panic!("unexpected {:?}", other),
    }
    assert!(matches!(parse("").unwrap(), Expr::Block(v) if v.is_empty()));
    assert!(matches!(parse("x;").unwrap(), Expr::Variable(n) if n == "x"));
}

#[test]
fn parse_if_else() {
    match parse("if x { 1 } else { 2 3 }").unwrap() {
        Expr::If { condition, then_branch, else_branch } => {
            assert!(matches!(*condition, Expr::Variable(_)));
            assert_eq!(number(&then_branch), "1");
            assert!(matches!(*else_branch.unwrap(), Expr::Block(v) if v.len() == 2));
        }
        other => panic!("unexpected {:?}", other),
    }
    assert!(matches!(parse("if x { }").unwrap(), Expr::If { else_branch: None, .. }));
    assert_eq!(parse("if x 1").unwrap_err(), "Expected '{' after if condition");
    assert_eq!(parse("if x { 1").unwrap_err(), "Expected '}' after then branch");
    assert_eq!(parse("if x { 1 } else 2").unwrap_err(), "Expected '{' after else");
}

#[test]
fn parse_loops() {
    match parse("for i in range(1, 6) { s = s + i }").unwrap() {
        Expr::For { variable, iterable, body } => {
            assert_eq!(variable, "i");
            assert!(matches!(*iterable, Expr::Call { .. }));
            assert!(matches!(*body, Expr::Block(v) if v.len() == 1));
        }
        other => panic!("unexpected {:?}", other),
    }
    assert_eq!(parse("for 1 in x {}").unwrap_err(), "Expected variable name");
    assert_eq!(parse("for i x {}").unwrap_err(), "Expected 'in' after variable");
    assert!(matches!(parse("while a < 3 { a = a + 1 }").unwrap(), Expr::While { .. }));
    assert_eq!(parse("while a { a").unwrap_err(), "Expected '}' after while loop body");
}

#[test]
fn parse_definitions() {
    match parse("fn add(a, b) { return a + b }").unwrap() {
        Expr::Function { name, params, body } => {
            assert_eq!(name, "add");
            assert_eq!(params, vec!["a".to_string(), "b".to_string()]);
            assert!(matches!(&body[0], Expr::Return { value: Some(_) }));
        }
        other => panic!("unexpected {:?}", other),
    }
    match parse("transformer square() { return applied * applied }").unwrap() {
        Expr::Transformer { name, params, body } => {
            assert_eq!(name, "square");
            assert!(params.is_empty());
            assert_eq!(body.len(), 1);
        }
        other => panic!("unexpected {:?}", other),
    }
    assert_eq!(parse("fn (a) {}").unwrap_err(), "Expected function name");
    assert_eq!(parse("fn f(a,) {}").unwrap_err(), "Expected parameter name");
    assert_eq!(parse("transformer t(a,) {}").unwrap_err(), "Expected parameter name");
    assert_eq!(parse("transformer t(1) {}").unwrap_err(), "Expected parameter name");
    assert_eq!(parse("fn f(a) a").unwrap_err(), "Expected '{' before function body");
    assert_eq!(parse("transformer t {}").unwrap_err(), "Expected '(' after transformer name");
}

#[test]
fn parse_use_and_return() {
    assert!(matches!(parse("use \"lib.m\";").unwrap(), Expr::Use { path } if path == "lib.m"));
    assert_eq!(parse("use lib").unwrap_err(), "Expected string path after 'use'");
    assert!(matches!(parse("return;").unwrap(), Expr::Return { value: None }));
    assert!(matches!(parse("return 1").unwrap(), Expr::Return { value: Some(_) }));
}

#[test]
fn parse_number_literals() {
    assert_eq!(number(&parse("3.25").unwrap()), "3.25");
    assert_eq!(parse("1.2.3").unwrap_err(), "Invalid number literal");
    assert!(is_numeral_text(&"10".to_string()));
    assert!(is_numeral_text(&"7.".to_string()));
    assert!(!is_numeral_text(&".".to_string()));
    assert!(!is_numeral_text(&"1a".to_string()));
    assert!(!is_numeral_text(&"".to_string()));
}

#[test]
fn parse_is_repeatable() {
    let src = "fn fib(n) { if n < 2 { return n } else { return fib(n-1) + fib(n-2) } } print(fib(10))";
    let a = format!("{:?}", parse(src));
    let b = format!("{:?}", parse(src));
    assert_eq!(a, b);
}

#[test]
fn parse_fibonacci_program() {
    let src = "fn fib(n) { if n < 2 { return n } else { return fib(n-1) + fib(n-2) } } print(fib(10))";
    match parse(src).unwrap() {
        Expr::Block(items) => {
            assert_eq!(items.len(), 2);
            assert!(matches!(&items[0], Expr::Function { name, .. } if name == "fib"));
            assert!(matches!(&items[1], Expr::Call { callee, .. } if callee == "print"));
        }
        other => panic!("unexpected {:?}", other),
    }
}

#[test]
fn parse_scenario_programs() {
    let programs = [
        "s = 0; for i in range(1, 6) { s = s + i } print(s)",
        "transformer square() { return applied * applied } x = 4 x.square() print(x)",
        "print(\"7\".to_number() + 1)",
        "out = \"\" for c in \"abc\" { out = out + c + \"-\" } print(out)",
        "print([1, \"two\", true].to_json())",
    ];
    let sizes = [3, 4, 1, 3, 1];
    for (src, n) in programs.iter().zip(sizes.iter()) {
        match parse(src).unwrap() {
            Expr::Block(items) => assert_eq!(items.len(), *n),
            Expr::Call { .. } => assert_eq!(*n, 1),
            other => panic!("unexpected {:?}", other),
        }
    }
}

#[test]
fn parse_adds_missing_end_marker() {
    let tokens = vec![
        Token { token_type: TokenType::Identifier, literal: "x".to_string() },
        Token { token_type: TokenType::Equal, literal: "=".to_string() },
        Token { token_type: TokenType::Number, literal: "2".to_string() },
    ];
    assert!(matches!(Parser::new(tokens).parse().unwrap(), Expr::Assign { .. }));
    assert!(matches!(Parser::new(Vec::new()).parse().unwrap(), Expr::Block(v) if v.is_empty()));
}
