use vstd::prelude::*;

use crate::ast::SExpr;
use crate::token::TokenType;

verus! {

/// A token as the grammar sees it: its kind and its text.
pub type TokView = (TokenType, Seq<char>);

/// What a parsing step gives: a value and the position after it, or an error message.
pub type Step<A> = Result<(A, int), Seq<char>>;

/// The kind of the token at `p`; past either end the input reads as ended.
pub open spec fn kind_at(t: Seq<TokView>, p: int) -> TokenType {
    if 0 <= p < t.len() {
        t[p].0
    } else {
        TokenType::EOF
    }
}

pub open spec fn text_at(t: Seq<TokView>, p: int) -> Seq<char> {
    if 0 <= p < t.len() {
        t[p].1
    } else {
        Seq::empty()
    }
}

pub open spec fn at_end(t: Seq<TokView>, p: int) -> bool {
    kind_at(t, p) == TokenType::EOF
}

/// Whether the token at `p` has kind `k` (never true at the end).
pub open spec fn check(t: Seq<TokView>, p: int, k: TokenType) -> bool {
    !at_end(t, p) && kind_at(t, p) == k
}

/// The position after an optional token of kind `k` at `p`.
pub open spec fn skip(t: Seq<TokView>, p: int, k: TokenType) -> int {
    if check(t, p, k) {
        p + 1
    } else {
        p
    }
}

/// The position after a run of separators (semicolons) starting at `p`.
pub open spec fn skip_separators(t: Seq<TokView>, p: int) -> int
    decreases left(t, p),
{
    if check(t, p, TokenType::Semicolon) && 0 <= p {
        skip_separators(t, p + 1)
    } else {
        p
    }
}

pub proof fn lemma_skip_separators(t: Seq<TokView>, p: int)
    requires
        0 <= p <= t.len(),
    ensures
        p <= skip_separators(t, p) <= t.len(),
    decreases left(t, p),
{
    if check(t, p, TokenType::Semicolon) {
        lemma_skip_separators(t, p + 1);
    }
}

/// The number of tokens left from `p` on.
pub open spec fn left(t: Seq<TokView>, p: int) -> nat {
    if 0 <= p <= t.len() {
        (t.len() - p) as nat
    } else {
        0
    }
}

pub open spec fn moved(t: Seq<TokView>, p: int, q: int) -> bool {
    0 <= p < q <= t.len()
}

pub open spec fn within(t: Seq<TokView>, p: int, q: int) -> bool {
    0 <= p <= q <= t.len()
}

/// The message of a parse that stopped advancing; the parser never gives it.
pub open spec fn stalled() -> Seq<char> {
    "parser made no progress"@
}

/// A statement list as one tree: its only statement, or a block.
pub open spec fn unwrap_single(es: Seq<SExpr>) -> SExpr {
    if es.len() == 1 {
        es[0]
    } else {
        SExpr::Block(es)
    }
}

/// Binary levels, loosest first: 0 `or`, 1 `and`, 2 assignment, 3 equality,
/// 4 comparison, 5 additive, 6 multiplicative; 7 is the unary level.
pub open spec fn binary_op(lvl: nat, k: TokenType) -> bool {
    if lvl == 0 {
        k == TokenType::Or
    } else if lvl == 1 {
        k == TokenType::And
    } else if lvl == 3 {
        k == TokenType::EqualEqual || k == TokenType::BangEqual
    } else if lvl == 4 {
        k == TokenType::LessThan || k == TokenType::LessThanEqual || k == TokenType::GreaterThan
            || k == TokenType::GreaterThanEqual
    } else if lvl == 5 {
        k == TokenType::Plus || k == TokenType::Minus
    } else if lvl == 6 {
        k == TokenType::Multiply || k == TokenType::Divide || k == TokenType::Modulo
    } else {
        false
    }
}

pub open spec fn level_rank(lvl: nat) -> int {
    if lvl >= 7 {
        86
    } else {
        100 - 2 * lvl
    }
}

/// Counts of digits and of dots in a text.
pub open spec fn digits(s: Seq<char>) -> nat
    decreases s.len(),
{
    if s.len() == 0 {
        0
    } else {
        digits(s.drop_last()) + if '0' <= s.last() && s.last() <= '9' {
            1nat
        } else {
            0nat
        }
    }
}

pub open spec fn dots(s: Seq<char>) -> nat
    decreases s.len(),
{
    if s.len() == 0 {
        0
    } else {
        dots(s.drop_last()) + if s.last() == '.' {
            1nat
        } else {
            0nat
        }
    }
}

/// A decimal numeral: digits with at most one dot, and at least one digit.
pub open spec fn is_numeral(s: Seq<char>) -> bool {
    digits(s) > 0 && dots(s) <= 1 && digits(s) + dots(s) == s.len()
}

/// A statement at `p`.
pub open spec fn p_statement(t: Seq<TokView>, p: int) -> Step<SExpr>
    decreases left(t, p), 200int,
{
    if check(t, p, TokenType::Fn) {
        p_function(t, p + 1)
    } else if check(t, p, TokenType::Transformer) {
        p_transformer(t, p + 1)
    } else if check(t, p, TokenType::Use) {
        p_use(t, p + 1)
    } else if check(t, p, TokenType::Return) {
        p_return(t, p + 1)
    } else if check(t, p, TokenType::If) {
        p_if(t, p + 1)
    } else if check(t, p, TokenType::For) {
        p_for(t, p + 1)
    } else if check(t, p, TokenType::While) {
        p_while(t, p + 1)
    } else {
        p_level(t, p, 0)
    }
}

/// The rest of a `return` statement, after the keyword.
pub open spec fn p_return(t: Seq<TokView>, p: int) -> Step<SExpr>
    decreases left(t, p), 201int,
{
    if check(t, p, TokenType::Semicolon) {
        Ok((SExpr::Return { value: None }, p + 1))
    } else {
        match p_statement(t, p) {
            Ok((e, q)) => Ok((SExpr::Return { value: Some(Box::new(e)) }, skip(t, q, TokenType::Semicolon))),
            Err(m) => Err(m),
        }
    }
}

/// The rest of a `use` statement, after the keyword.
pub open spec fn p_use(t: Seq<TokView>, p: int) -> Step<SExpr> {
    if check(t, p, TokenType::String) {
        Ok((SExpr::Use { path: text_at(t, p) }, skip(t, p + 1, TokenType::Semicolon)))
    } else {
        Err("Expected string path after 'use'"@)
    }
}

/// Statements up to a closing brace or the end, separated by optional runs
/// of semicolons, appended to `acc`.
pub open spec fn p_body(t: Seq<TokView>, p: int, acc: Seq<SExpr>) -> Step<Seq<SExpr>>
    decreases left(t, p), 202int,
{
    if check(t, p, TokenType::RightBrace) || at_end(t, p) {
        Ok((acc, p))
    } else {
        match p_statement(t, p) {
            Ok((e, q)) => if moved(t, p, q) {
                proof {
                    lemma_skip_separators(t, q);
                }
                p_body(t, skip_separators(t, q), acc.push(e))
            } else {
                Err(stalled())
            },
            Err(m) => Err(m),
        }
    }
}

/// A statement list in braces.
pub open spec fn p_braced(t: Seq<TokView>, p: int, open_msg: Seq<char>, close_msg: Seq<char>) -> Step<Seq<SExpr>>
    decreases left(t, p), 203int,
{
    if !check(t, p, TokenType::LeftBrace) {
        Err(open_msg)
    } else {
        match p_body(t, p + 1, Seq::empty()) {
            Ok((es, q)) => if check(t, q, TokenType::RightBrace) {
                Ok((es, q + 1))
            } else {
                Err(close_msg)
            },
            Err(m) => Err(m),
        }
    }
}

/// The rest of an `if` statement, after the keyword.
pub open spec fn p_if(t: Seq<TokView>, p: int) -> Step<SExpr>
    decreases left(t, p), 190int,
{
    match p_level(t, p, 0) {
        Ok((c, q)) => if moved(t, p, q) {
            match p_braced(t, q, "Expected '{' after if condition"@, "Expected '}' after then branch"@) {
                Ok((es, r)) => if within(t, p, r) {
                    p_else(t, r, c, unwrap_single(es))
                } else {
                    Err(stalled())
                },
                Err(m) => Err(m),
            }
        } else {
            Err(stalled())
        },
        Err(m) => Err(m),
    }
}

/// An optional `else` part at `p`, completing an `if` with the given condition and branch.
pub open spec fn p_else(t: Seq<TokView>, p: int, c: SExpr, then_branch: SExpr) -> Step<SExpr>
    decreases left(t, p), 189int,
{
    if check(t, p, TokenType::Else) {
        match p_braced(t, p + 1, "Expected '{' after else"@, "Expected '}' after else branch"@) {
            Ok((es, r)) => Ok((
                SExpr::If {
                    condition: Box::new(c),
                    then_branch: Box::new(then_branch),
                    else_branch: Some(Box::new(unwrap_single(es))),
                },
                r,
            )),
            Err(m) => Err(m),
        }
    } else {
        Ok((SExpr::If { condition: Box::new(c), then_branch: Box::new(then_branch), else_branch: None }, p))
    }
}

/// The rest of a `for` loop, after the keyword.
pub open spec fn p_for(t: Seq<TokView>, p: int) -> Step<SExpr>
    decreases left(t, p), 190int,
{
    if !check(t, p, TokenType::Identifier) {
        Err("Expected variable name"@)
    } else if !check(t, p + 1, TokenType::In) {
        Err("Expected 'in' after variable"@)
    } else {
        match p_level(t, p + 2, 0) {
            Ok((it, q)) => if moved(t, p, q) {
                match p_braced(t, q, "Expected '{' after iterable"@, "Expected '}' after for loop body"@) {
                    Ok((es, r)) => Ok((
                        SExpr::For {
                            variable: text_at(t, p),
                            iterable: Box::new(it),
                            body: Box::new(SExpr::Block(es)),
                        },
                        r,
                    )),
                    Err(m) => Err(m),
                }
            } else {
                Err(stalled())
            },
            Err(m) => Err(m),
        }
    }
}

/// The rest of a `while` loop, after the keyword.
pub open spec fn p_while(t: Seq<TokView>, p: int) -> Step<SExpr>
    decreases left(t, p), 190int,
{
    match p_level(t, p, 0) {
        Ok((c, q)) => if moved(t, p, q) {
            match p_braced(t, q, "Expected '{' after while condition"@, "Expected '}' after while loop body"@) {
                Ok((es, r)) => Ok((SExpr::While { condition: Box::new(c), body: Box::new(SExpr::Block(es)) }, r)),
                Err(m) => Err(m),
            }
        } else {
            Err(stalled())
        },
        Err(m) => Err(m),
    }
}

/// Function parameters: an optional first name, then `, name` pairs.
pub open spec fn p_fn_params(t: Seq<TokView>, p: int) -> Step<Seq<Seq<char>>> {
    if check(t, p, TokenType::RightParen) {
        Ok((Seq::empty(), p))
    } else if check(t, p, TokenType::Identifier) {
        p_param_rest(t, p + 1, seq![text_at(t, p)])
    } else {
        p_param_rest(t, p, Seq::empty())
    }
}

pub open spec fn p_param_rest(t: Seq<TokView>, p: int, acc: Seq<Seq<char>>) -> Step<Seq<Seq<char>>>
    decreases left(t, p),
{
    if check(t, p, TokenType::Comma) {
        if check(t, p + 1, TokenType::Identifier) {
            p_param_rest(t, p + 2, acc.push(text_at(t, p + 1)))
        } else {
            Err("Expected parameter name"@)
        }
    } else {
        Ok((acc, p))
    }
}

/// Transformer parameters: names separated by commas.
pub open spec fn p_tr_params(t: Seq<TokView>, p: int) -> Step<Seq<Seq<char>>> {
    if check(t, p, TokenType::RightParen) {
        Ok((Seq::empty(), p))
    } else {
        p_tr_param_list(t, p, Seq::empty())
    }
}

pub open spec fn p_tr_param_list(t: Seq<TokView>, p: int, acc: Seq<Seq<char>>) -> Step<Seq<Seq<char>>>
    decreases left(t, p),
{
    if check(t, p, TokenType::Identifier) {
        if check(t, p + 1, TokenType::Comma) {
            p_tr_param_list(t, p + 2, acc.push(text_at(t, p)))
        } else {
            Ok((acc.push(text_at(t, p)), p + 1))
        }
    } else {
        Err("Expected parameter name"@)
    }
}

/// The rest of a function definition, after `fn`.
pub open spec fn p_function(t: Seq<TokView>, p: int) -> Step<SExpr>
    decreases left(t, p), 190int,
{
    if !check(t, p, TokenType::Identifier) {
        Err("Expected function name"@)
    } else if !check(t, p + 1, TokenType::LeftParen) {
        Err("Expected '(' after function name"@)
    } else {
        match p_fn_params(t, p + 2) {
            Ok((params, q)) => if !check(t, q, TokenType::RightParen) {
                Err("Expected ')' after parameters"@)
            } else if within(t, p, q) {
                match p_braced(t, q + 1, "Expected '{' before function body"@, "Expected '}' after function body"@) {
                    Ok((body, r)) => Ok((SExpr::Function { name: text_at(t, p), params, body }, r)),
                    Err(m) => Err(m),
                }
            } else {
                Err(stalled())
            },
            Err(m) => Err(m),
        }
    }
}

/// The rest of a transformer definition, after `transformer`.
pub open spec fn p_transformer(t: Seq<TokView>, p: int) -> Step<SExpr>
    decreases left(t, p), 190int,
{
    if !check(t, p, TokenType::Identifier) {
        Err("Expected transformer name"@)
    } else if !check(t, p + 1, TokenType::LeftParen) {
        Err("Expected '(' after transformer name"@)
    } else {
        match p_tr_params(t, p + 2) {
            Ok((params, q)) => if !check(t, q, TokenType::RightParen) {
                Err("Expected ')' after parameters"@)
            } else if within(t, p, q) {
                match p_braced(
                    t,
                    q + 1,
                    "Expected '{' before transformer body"@,
                    "Expected '}' after transformer body"@,
                ) {
                    Ok((body, r)) => Ok((SExpr::Transformer { name: text_at(t, p), params, body }, r)),
                    Err(m) => Err(m),
                }
            } else {
                Err(stalled())
            },
            Err(m) => Err(m),
        }
    }
}

/// An expression at precedence level `lvl` (see `binary_op`).
pub open spec fn p_level(t: Seq<TokView>, p: int, lvl: nat) -> Step<SExpr>
    decreases left(t, p), level_rank(lvl),
{
    if lvl >= 7 {
        if check(t, p, TokenType::Minus) || check(t, p, TokenType::Not) {
            match p_level(t, p + 1, 7) {
                Ok((r, q)) => Ok((SExpr::Unary { operator: t[p], right: Box::new(r) }, q)),
                Err(m) => Err(m),
            }
        } else {
            p_call(t, p)
        }
    } else if lvl == 2 {
        match p_level(t, p, 3) {
            Ok((e, q)) => if check(t, q, TokenType::Equal) {
                if within(t, p, q) {
                    match p_level(t, q + 1, 2) {
                        Ok((v, r)) => match e {
                            SExpr::Variable(name) => Ok((SExpr::Assign { name, value: Box::new(v) }, r)),
                            _ => Err("Invalid assignment target"@),
                        },
                        Err(m) => Err(m),
                    }
                } else {
                    Err(stalled())
                }
            } else {
                Ok((e, q))
            },
            Err(m) => Err(m),
        }
    } else {
        match p_level(t, p, lvl + 1) {
            Ok((e, q)) => if within(t, p, q) {
                p_chain(t, q, lvl, e)
            } else {
                Err(stalled())
            },
            Err(m) => Err(m),
        }
    }
}

/// Left-associative operators of level `lvl` after the operand `acc`.
pub open spec fn p_chain(t: Seq<TokView>, p: int, lvl: nat, acc: SExpr) -> Step<SExpr>
    decreases left(t, p), level_rank(lvl) - 1,
{
    if !at_end(t, p) && binary_op(lvl, kind_at(t, p)) {
        match p_level(t, p + 1, lvl + 1) {
            Ok((r, q)) => if within(t, p + 1, q) {
                p_chain(t, q, lvl, SExpr::Binary { left: Box::new(acc), operator: t[p], right: Box::new(r) })
            } else {
                Err(stalled())
            },
            Err(m) => Err(m),
        }
    } else {
        Ok((acc, p))
    }
}

/// A primary expression and what follows it.
pub open spec fn p_call(t: Seq<TokView>, p: int) -> Step<SExpr>
    decreases left(t, p), 85int,
{
    match p_primary(t, p) {
        Ok((e, q)) => if within(t, p, q) {
            p_postfix(t, q, e)
        } else {
            Err(stalled())
        },
        Err(m) => Err(m),
    }
}

/// Calls, indexing and dot-applications after the expression `acc`.
pub open spec fn p_postfix(t: Seq<TokView>, p: int, acc: SExpr) -> Step<SExpr>
    decreases left(t, p), 80int,
{
    if check(t, p, TokenType::LeftParen) {
        match p_finish_call(t, p + 1, acc) {
            Ok((e, q)) => if within(t, p + 1, q) {
                p_postfix(t, q, e)
            } else {
                Err(stalled())
            },
            Err(m) => Err(m),
        }
    } else if check(t, p, TokenType::LeftBracket) {
        match p_level(t, p + 1, 0) {
            Ok((i, q)) => if !check(t, q, TokenType::RightBracket) {
                Err("Expected ']' after index"@)
            } else if within(t, p + 1, q) {
                p_postfix(t, q + 1, SExpr::Index { object: Box::new(acc), index: Box::new(i) })
            } else {
                Err(stalled())
            },
            Err(m) => Err(m),
        }
    } else if check(t, p, TokenType::Dot) {
        if !check(t, p + 1, TokenType::Identifier) {
            Err("Expected identifier after '.'"@)
        } else if !check(t, p + 2, TokenType::LeftParen) {
            Err("Expected '(' after transformer name"@)
        } else {
            match p_list(t, p + 3, TokenType::RightParen) {
                Ok((args, q)) => if !check(t, q, TokenType::RightParen) {
                    Err("Expected ')' after arguments"@)
                } else if within(t, p + 3, q) {
                    p_postfix(
                        t,
                        q + 1,
                        SExpr::Apply { object: Box::new(acc), transformer: text_at(t, p + 1), arguments: args },
                    )
                } else {
                    Err(stalled())
                },
                Err(m) => Err(m),
            }
        }
    } else {
        Ok((acc, p))
    }
}

/// The arguments and closing parenthesis of a call of `callee`.
pub open spec fn p_finish_call(t: Seq<TokView>, p: int, callee: SExpr) -> Step<SExpr>
    decreases left(t, p), 191int,
{
    match p_list(t, p, TokenType::RightParen) {
        Ok((args, q)) => if !check(t, q, TokenType::RightParen) {
            Err("Expected ')' after arguments"@)
        } else {
            match callee {
                SExpr::Variable(name) => Ok((SExpr::Call { callee: name, arguments: args }, q + 1)),
                _ => Err("Expected function name"@),
            }
        },
        Err(m) => Err(m),
    }
}

/// A comma-separated, possibly empty, list of expressions ended by (but not
/// including) a token of kind `close`.
pub open spec fn p_list(t: Seq<TokView>, p: int, close: TokenType) -> Step<Seq<SExpr>>
    decreases left(t, p), 190int,
{
    if check(t, p, close) {
        Ok((Seq::empty(), p))
    } else {
        match p_level(t, p, 0) {
            Ok((e, q)) => if within(t, p, q) {
                p_list_rest(t, q, seq![e])
            } else {
                Err(stalled())
            },
            Err(m) => Err(m),
        }
    }
}

pub open spec fn p_list_rest(t: Seq<TokView>, p: int, acc: Seq<SExpr>) -> Step<Seq<SExpr>>
    decreases left(t, p), 189int,
{
    if check(t, p, TokenType::Comma) {
        match p_level(t, p + 1, 0) {
            Ok((e, q)) => if within(t, p + 1, q) {
                p_list_rest(t, q, acc.push(e))
            } else {
                Err(stalled())
            },
            Err(m) => Err(m),
        }
    } else {
        Ok((acc, p))
    }
}

/// Whether a token of kind `k` can start a primary expression.
pub open spec fn starts_primary(k: TokenType) -> bool {
    k == TokenType::Number || k == TokenType::String || k == TokenType::True || k == TokenType::False
        || k == TokenType::Identifier || k == TokenType::LeftBracket || k == TokenType::LeftParen
        || k == TokenType::Return
}

/// The rest of an array literal, after `[`.
pub open spec fn p_array(t: Seq<TokView>, p: int) -> Step<SExpr>
    decreases left(t, p), 191int,
{
    match p_list(t, p, TokenType::RightBracket) {
        Ok((es, q)) => if check(t, q, TokenType::RightBracket) {
            Ok((SExpr::Array(es), q + 1))
        } else {
            Err("Expected ']' after array elements"@)
        },
        Err(m) => Err(m),
    }
}

/// A primary expression.
pub open spec fn p_primary(t: Seq<TokView>, p: int) -> Step<SExpr>
    decreases left(t, p), 70int,
{
    if check(t, p, TokenType::Number) {
        if is_numeral(text_at(t, p)) {
            Ok((SExpr::Number(text_at(t, p)), p + 1))
        } else {
            Err("Invalid number literal"@)
        }
    } else if check(t, p, TokenType::String) {
        Ok((SExpr::String(text_at(t, p)), p + 1))
    } else if check(t, p, TokenType::True) {
        Ok((SExpr::Boolean(true), p + 1))
    } else if check(t, p, TokenType::False) {
        Ok((SExpr::Boolean(false), p + 1))
    } else if check(t, p, TokenType::Identifier) {
        Ok((SExpr::Variable(text_at(t, p)), p + 1))
    } else if check(t, p, TokenType::LeftBracket) {
        p_array(t, p + 1)
    } else if check(t, p, TokenType::LeftParen) {
        match p_level(t, p + 1, 0) {
            Ok((e, q)) => if check(t, q, TokenType::RightParen) {
                Ok((e, q + 1))
            } else {
                Err("Expected ')' after expression"@)
            },
            Err(m) => Err(m),
        }
    } else if check(t, p, TokenType::Return) {
        p_return(t, p + 1)
    } else {
        Err("Expected expression"@)
    }
}

/// Statements up to the end of input, separated by optional runs of semicolons.
pub open spec fn p_program(t: Seq<TokView>, p: int, acc: Seq<SExpr>) -> Result<Seq<SExpr>, Seq<char>>
    decreases left(t, p),
{
    if at_end(t, p) {
        Ok(acc)
    } else {
        match p_statement(t, p) {
            Ok((e, q)) => if moved(t, p, q) {
                proof {
                    lemma_skip_separators(t, q);
                }
                p_program(t, skip_separators(t, q), acc.push(e))
            } else {
                Err(stalled())
            },
            Err(m) => Err(m),
        }
    }
}

/// The tree of a whole token sequence read from `p`: its only statement, or a
/// block of all of them.
pub open spec fn parse_spec(t: Seq<TokView>, p: int) -> Result<SExpr, Seq<char>> {
    match p_program(t, p, Seq::empty()) {
        Ok(es) => Ok(unwrap_single(es)),
        Err(m) => Err(m),
    }
}

} // verus!
