use vstd::prelude::*;

use crate::ast::{exprs_view, lemma_exprs_view_index, lemma_exprs_view_push, strings_view, Expr, SExpr};
use crate::grammar::{
    at_end, binary_op, check, digits, dots, is_numeral, kind_at, left, level_rank, p_array, p_body, p_braced, p_call,
    p_chain, p_finish_call, p_fn_params, p_for, p_function, p_if, p_level, p_list, p_list_rest, p_param_rest,
    p_postfix, p_primary, p_program, p_return, p_statement, p_tr_param_list, p_tr_params, p_transformer, p_use,
    p_while, parse_spec, skip_separators, starts_primary, unwrap_single, Step, TokView,
};
use crate::lexer::eof_token;
use crate::text::chars_of;
use crate::token::{tokens_view, Token, TokenType};

verus! {

/// How an executable parse result stands to a grammar step: the same tree or
/// message, and on success the parser left at the step's position.
pub open spec fn outcome(r: Result<Expr, String>, s: Step<SExpr>, q: int) -> bool {
    match s {
        Ok((e, p)) => r is Ok && r->Ok_0.view() == e && q == p,
        Err(m) => r is Err && r->Err_0@ == m,
    }
}

pub open spec fn outcome_list(r: Result<Vec<Expr>, String>, s: Step<Seq<SExpr>>, q: int) -> bool {
    match s {
        Ok((es, p)) => r is Ok && exprs_view(r->Ok_0@) == es && q == p,
        Err(m) => r is Err && r->Err_0@ == m,
    }
}

pub open spec fn outcome_names(r: Result<Vec<String>, String>, s: Step<Seq<Seq<char>>>, q: int) -> bool {
    match s {
        Ok((ns, p)) => r is Ok && strings_view(r->Ok_0@) == ns && q == p,
        Err(m) => r is Err && r->Err_0@ == m,
    }
}

/// A token sequence with the end-of-input marker at its end: as it is when
/// it ends with one, else with one added.
pub open spec fn terminated(ts: Seq<TokView>) -> Seq<TokView> {
    if ts.len() > 0 && ts.last().0 == TokenType::EOF {
        ts
    } else {
        ts.push(eof_token())
    }
}

/// How the result of a whole parse stands to the grammar: the same tree or message.
pub open spec fn parse_outcome(r: Result<Expr, String>, t: Seq<TokView>, p: int) -> bool {
    match parse_spec(t, p) {
        Ok(e) => r is Ok && r->Ok_0.view() == e,
        Err(m) => r is Err && r->Err_0@ == m,
    }
}

/// Parsing is deterministic: two parses of the same tokens from the same
/// position both succeed with the same tree, or both fail with the same message.
pub proof fn law_parse_deterministic(t: Seq<TokView>, p: int, a: Result<Expr, String>, b: Result<Expr, String>)
    requires
        parse_outcome(a, t, p),
        parse_outcome(b, t, p),
    ensures
        a is Ok <==> b is Ok,
        a is Ok ==> a->Ok_0.view() == b->Ok_0.view(),
        a is Err ==> a->Err_0@ == b->Err_0@,
{
}

/// A recursive-descent parser over a token sequence ending with the
/// end-of-input marker.
pub struct Parser {
    tokens: Vec<Token>,
    current: usize,
}

/// Whether the text is a decimal numeral (see `is_numeral`).
pub fn is_numeral_text(s: &String) -> (r: bool)
    ensures
        r == is_numeral(s@),
{
    let cs = chars_of(s.as_str());
    let mut n_digits: usize = 0;
    let mut n_dots: usize = 0;
    let mut i: usize = 0;
    while i < cs.len()
        invariant
            cs@ == s@,
            i <= cs@.len(),
            n_digits == digits(cs@.take(i as int)),
            n_dots == dots(cs@.take(i as int)),
            n_digits + n_dots <= i,
        decreases cs@.len() - i,
    {
        let c = cs[i];
        assert(cs@.take(i + 1).drop_last() =~= cs@.take(i as int));
        if '0' <= c && c <= '9' {
            n_digits = n_digits + 1;
        } else if c == '.' {
            n_dots = n_dots + 1;
        }
        i = i + 1;
    }
    assert(cs@.take(i as int) =~= s@);
    n_digits > 0 && n_dots <= 1 && n_digits + n_dots == cs.len()
}

/// The one statement of a list, or a block of the list.
fn unwrap_statements(mut v: Vec<Expr>) -> (r: Expr)
    ensures
        r.view() == unwrap_single(exprs_view(v@)),
{
    proof {
        lemma_exprs_view_index(v@);
    }
    if v.len() == 1 {
        v.remove(0)
    } else {
        Expr::Block(v)
    }
}

impl Parser {
    /// The tokens as the grammar sees them.
    pub closed spec fn toks(&self) -> Seq<TokView> {
        tokens_view(self.tokens@)
    }

    /// The position of the next token.
    pub closed spec fn pos(&self) -> int {
        self.current as int
    }

    /// Tokens end with the end-of-input marker and the position is on a token.
    pub closed spec fn wf(&self) -> bool {
        &&& self.tokens@.len() > 0
        &&& self.tokens@.last().token_type == TokenType::EOF
        &&& self.current < self.tokens@.len()
    }

    /// A parser at the start of `tokens`; an end-of-input marker is added
    /// when they do not end with one.
    pub fn new(tokens: Vec<Token>) -> (r: Parser)
        ensures
            r.wf(),
            r.toks() == terminated(tokens_view(tokens@)),
            r.pos() == 0,
    {
        let mut tokens = tokens;
        let n = tokens.len();
        if n == 0 || tokens[n - 1].token_type != TokenType::EOF {
            let ghost before = tokens@;
            tokens.push(Token::new(TokenType::EOF, String::new()));
            assert(tokens_view(tokens@) =~= tokens_view(before).push(eof_token()));
        }
        Parser { tokens, current: 0 }
    }

    /// Parses statements up to the end of input: the only statement, or a
    /// block of all of them; or the first syntax error.
    pub fn parse(&mut self) -> (r: Result<Expr, String>)
        requires
            old(self).wf(),
        ensures
            final(self).wf(),
            final(self).toks() == old(self).toks(),
            parse_outcome(r, old(self).toks(), old(self).pos()),
    {
        let ghost t = self.toks();
        let ghost p0 = self.pos();
        let mut expressions: Vec<Expr> = Vec::new();
        while !self.is_at_end()
            invariant
                self.wf(),
                self.toks() == t,
                t == old(self).toks(),
                p0 == old(self).pos(),
                p_program(t, p0, Seq::empty()) == p_program(t, self.pos(), exprs_view(expressions@)),
            decreases left(t, self.pos()),
        {
            let e = self.statement()?;
            proof {
                lemma_exprs_view_push(expressions@, e);
            }
            expressions.push(e);
            self.skip_separators();
        }
        Ok(unwrap_statements(expressions))
    }

    fn statement(&mut self) -> (r: Result<Expr, String>)
        requires
            old(self).wf(),
        ensures
            final(self).wf(),
            final(self).toks() == old(self).toks(),
            outcome(r, p_statement(old(self).toks(), old(self).pos()), final(self).pos()),
            r is Ok ==> old(self).pos() < final(self).pos(),
        decreases left(old(self).toks(), old(self).pos()), 200int,
    {
        if self.check(TokenType::Fn) {
            self.advance();
            return self.function_definition();
        }
        if self.check(TokenType::Transformer) {
            self.advance();
            return self.transformer_definition();
        }
        if self.check(TokenType::Use) {
            self.advance();
            return self.use_statement();
        }
        if self.check(TokenType::Return) {
            self.advance();
            return self.return_statement();
        }
        if self.check(TokenType::If) {
            self.advance();
            return self.if_statement();
        }
        if self.check(TokenType::For) {
            self.advance();
            return self.for_loop();
        }
        if self.check(TokenType::While) {
            self.advance();
            return self.while_loop();
        }
        self.expression()
    }

    fn expression(&mut self) -> (r: Result<Expr, String>)
        requires
            old(self).wf(),
        ensures
            final(self).wf(),
            final(self).toks() == old(self).toks(),
            outcome(r, p_level(old(self).toks(), old(self).pos(), 0), final(self).pos()),
            r is Ok ==> old(self).pos() < final(self).pos(),
        decreases left(old(self).toks(), old(self).pos()), 101int,
    {
        self.binary(0)
    }

    /// A left-associative chain of the operators of level `lvl` (see
    /// `binary_op`), or, for the assignment and unary levels, that form.
    fn binary(&mut self, lvl: u8) -> (r: Result<Expr, String>)
        requires
            old(self).wf(),
            lvl <= 7,
        ensures
            final(self).wf(),
            final(self).toks() == old(self).toks(),
            outcome(r, p_level(old(self).toks(), old(self).pos(), lvl as nat), final(self).pos()),
            r is Ok ==> old(self).pos() < final(self).pos(),
        decreases left(old(self).toks(), old(self).pos()), level_rank(lvl as nat),
    {
        if lvl >= 7 {
            return self.unary();
        }
        if lvl == 2 {
            return self.assignment();
        }
        let ghost t = self.toks();
        let ghost p0 = self.pos();
        let mut expr = self.binary(lvl + 1)?;
        while !self.is_at_end() && is_binary_op(lvl, self.peek().token_type)
            invariant
                self.wf(),
                self.toks() == t,
                t == old(self).toks(),
                p0 == old(self).pos(),
                0 <= p0 < self.pos(),
                lvl < 7,
                lvl != 2,
                p_level(t, p0, lvl as nat) == p_chain(t, self.pos(), lvl as nat, expr.view()),
            decreases left(t, self.pos()),
        {
            let operator = self.peek().duplicate();
            self.advance();
            let right = self.binary(lvl + 1)?;
            expr = Expr::Binary { left: Box::new(expr), operator, right: Box::new(right) };
        }
        Ok(expr)
    }

    fn assignment(&mut self) -> (r: Result<Expr, String>)
        requires
            old(self).wf(),
        ensures
            final(self).wf(),
            final(self).toks() == old(self).toks(),
            outcome(r, p_level(old(self).toks(), old(self).pos(), 2), final(self).pos()),
            r is Ok ==> old(self).pos() < final(self).pos(),
        decreases left(old(self).toks(), old(self).pos()), 95int,
    {
        let expr = self.binary(3)?;
        if self.match_tokens(&[TokenType::Equal]) {
            let value = Box::new(self.assignment()?);
            if let Expr::Variable(name) = expr {
                return Ok(Expr::Assign { name, value });
            }
            return Err("Invalid assignment target".to_string());
        }
        Ok(expr)
    }

    fn unary(&mut self) -> (r: Result<Expr, String>)
        requires
            old(self).wf(),
        ensures
            final(self).wf(),
            final(self).toks() == old(self).toks(),
            outcome(r, p_level(old(self).toks(), old(self).pos(), 7), final(self).pos()),
            r is Ok ==> old(self).pos() < final(self).pos(),
        decreases left(old(self).toks(), old(self).pos()), 85int,
    {
        if self.match_tokens(&[TokenType::Minus, TokenType::Not]) {
            let operator = self.previous().duplicate();
            let right = self.unary()?;
            return Ok(Expr::Unary { operator, right: Box::new(right) });
        }
        self.call()
    }

    #[verifier::rlimit(40)]
    fn call(&mut self) -> (r: Result<Expr, String>)
        requires
            old(self).wf(),
        ensures
            final(self).wf(),
            final(self).toks() == old(self).toks(),
            outcome(r, p_call(old(self).toks(), old(self).pos()), final(self).pos()),
            r is Ok ==> old(self).pos() < final(self).pos(),
        decreases left(old(self).toks(), old(self).pos()), 84int,
    {
        let ghost t = self.toks();
        let ghost p0 = self.pos();
        let mut expr = self.primary()?;
        loop
            invariant
                self.wf(),
                self.toks() == t,
                t == old(self).toks(),
                p0 == old(self).pos(),
                0 <= p0 < self.pos(),
                p_call(t, p0) == p_postfix(t, self.pos(), expr.view()),
            ensures
                self.wf(),
                self.toks() == t,
                0 <= p0 < self.pos(),
                p_call(t, p0) == Ok::<(SExpr, int), Seq<char>>((expr.view(), self.pos())),
            decreases left(t, self.pos()),
        {
            if self.match_tokens(&[TokenType::LeftParen]) {
                expr = self.finish_call(expr)?;
            } else if self.match_tokens(&[TokenType::LeftBracket]) {
                let index = self.expression()?;
                self.consume(TokenType::RightBracket, "Expected ']' after index")?;
                expr = Expr::Index { object: Box::new(expr), index: Box::new(index) };
            } else if self.match_tokens(&[TokenType::Dot]) {
                if self.match_tokens(&[TokenType::Identifier]) {
                    let transformer_name = self.previous().literal.clone();
                    self.consume(TokenType::LeftParen, "Expected '(' after transformer name")?;
                    let arguments = self.arguments(TokenType::RightParen)?;
                    self.consume(TokenType::RightParen, "Expected ')' after arguments")?;
                    expr = Expr::Apply { object: Box::new(expr), transformer: transformer_name, arguments };
                } else {
                    return Err("Expected identifier after '.'".to_string());
                }
            } else {
                break;
            }
        }
        Ok(expr)
    }

    fn finish_call(&mut self, callee: Expr) -> (r: Result<Expr, String>)
        requires
            old(self).wf(),
        ensures
            final(self).wf(),
            final(self).toks() == old(self).toks(),
            outcome(r, p_finish_call(old(self).toks(), old(self).pos(), callee.view()), final(self).pos()),
            r is Ok ==> old(self).pos() < final(self).pos(),
        decreases left(old(self).toks(), old(self).pos()), 192int,
    {
        let arguments = self.arguments(TokenType::RightParen)?;
        self.consume(TokenType::RightParen, "Expected ')' after arguments")?;
        match callee {
            Expr::Variable(name) => Ok(Expr::Call { callee: name, arguments }),
            _ => Err("Expected function name".to_string()),
        }
    }

    /// A comma-separated, possibly empty, list of expressions, up to (but not
    /// including) a token of kind `close`.
    fn arguments(&mut self, close: TokenType) -> (r: Result<Vec<Expr>, String>)
        requires
            old(self).wf(),
        ensures
            final(self).wf(),
            final(self).toks() == old(self).toks(),
            outcome_list(r, p_list(old(self).toks(), old(self).pos(), close), final(self).pos()),
            r is Ok ==> old(self).pos() <= final(self).pos(),
        decreases left(old(self).toks(), old(self).pos()), 190int,
    {
        let ghost t = self.toks();
        let ghost p0 = self.pos();
        let mut args: Vec<Expr> = Vec::new();
        if !self.check(close) {
            let first = self.expression()?;
            proof {
                lemma_exprs_view_push(args@, first);
                assert(exprs_view(args@.push(first)) =~= seq![first.view()]);
            }
            args.push(first);
            while self.check(TokenType::Comma)
                invariant
                    self.wf(),
                    self.toks() == t,
                    t == old(self).toks(),
                    p0 == old(self).pos(),
                    0 <= p0 < self.pos(),
                    p_list(t, p0, close) == p_list_rest(t, self.pos(), exprs_view(args@)),
                decreases left(t, self.pos()),
            {
                self.advance();
                let e = self.expression()?;
                proof {
                    lemma_exprs_view_push(args@, e);
                }
                args.push(e);
            }
        }
        Ok(args)
    }

    fn primary(&mut self) -> (r: Result<Expr, String>)
        requires
            old(self).wf(),
        ensures
            final(self).wf(),
            final(self).toks() == old(self).toks(),
            outcome(r, p_primary(old(self).toks(), old(self).pos()), final(self).pos()),
            r is Ok ==> old(self).pos() < final(self).pos(),
            !starts_primary(kind_at(old(self).toks(), old(self).pos())) ==> r is Err && r->Err_0@
                == "Expected expression"@ && final(self).pos() == old(self).pos(),
        decreases left(old(self).toks(), old(self).pos()), 70int,
    {
        if self.match_tokens(&[TokenType::Number]) {
            let value = self.previous().literal.clone();
            if is_numeral_text(&value) {
                return Ok(Expr::Number(value));
            }
            return Err("Invalid number literal".to_string());
        }
        if self.match_tokens(&[TokenType::String]) {
            let value = self.previous().literal.clone();
            return Ok(Expr::String(value));
        }
        if self.match_tokens(&[TokenType::True]) {
            return Ok(Expr::Boolean(true));
        }
        if self.match_tokens(&[TokenType::False]) {
            return Ok(Expr::Boolean(false));
        }
        if self.match_tokens(&[TokenType::Identifier]) {
            return Ok(Expr::Variable(self.previous().literal.clone()));
        }
        if self.match_tokens(&[TokenType::LeftBracket]) {
            return self.array();
        }
        if self.match_tokens(&[TokenType::LeftParen]) {
            let expr = self.expression()?;
            self.consume(TokenType::RightParen, "Expected ')' after expression")?;
            return Ok(expr);
        }
        if self.match_tokens(&[TokenType::Return]) {
            return self.return_statement();
        }
        Err("Expected expression".to_string())
    }

    fn array(&mut self) -> (r: Result<Expr, String>)
        requires
            old(self).wf(),
        ensures
            final(self).wf(),
            final(self).toks() == old(self).toks(),
            outcome(r, p_array(old(self).toks(), old(self).pos()), final(self).pos()),
            r is Ok ==> old(self).pos() < final(self).pos(),
        decreases left(old(self).toks(), old(self).pos()), 191int,
    {
        let elements = self.arguments(TokenType::RightBracket)?;
        self.consume(TokenType::RightBracket, "Expected ']' after array elements")?;
        Ok(Expr::Array(elements))
    }

    fn block_body(&mut self) -> (r: Result<Vec<Expr>, String>)
        requires
            old(self).wf(),
        ensures
            final(self).wf(),
            final(self).toks() == old(self).toks(),
            outcome_list(r, p_body(old(self).toks(), old(self).pos(), Seq::empty()), final(self).pos()),
            r is Ok ==> old(self).pos() <= final(self).pos(),
        decreases left(old(self).toks(), old(self).pos()), 202int,
    {
        let ghost t = self.toks();
        let ghost p0 = self.pos();
        let mut statements: Vec<Expr> = Vec::new();
        while !self.check(TokenType::RightBrace) && !self.is_at_end()
            invariant
                self.wf(),
                self.toks() == t,
                t == old(self).toks(),
                p0 == old(self).pos(),
                0 <= p0 <= self.pos(),
                p_body(t, p0, Seq::empty()) == p_body(t, self.pos(), exprs_view(statements@)),
            decreases left(t, self.pos()),
        {
            let e = self.statement()?;
            proof {
                lemma_exprs_view_push(statements@, e);
            }
            statements.push(e);
            self.skip_separators();
        }
        Ok(statements)
    }

    /// A statement list in braces.
    fn braced(&mut self, open_msg: &str, close_msg: &str) -> (r: Result<Vec<Expr>, String>)
        requires
            old(self).wf(),
        ensures
            final(self).wf(),
            final(self).toks() == old(self).toks(),
            outcome_list(r, p_braced(old(self).toks(), old(self).pos(), open_msg@, close_msg@), final(self).pos()),
            r is Ok ==> old(self).pos() < final(self).pos(),
        decreases left(old(self).toks(), old(self).pos()), 203int,
    {
        self.consume(TokenType::LeftBrace, open_msg)?;
        let body = self.block_body()?;
        self.consume(TokenType::RightBrace, close_msg)?;
        Ok(body)
    }

    fn if_statement(&mut self) -> (r: Result<Expr, String>)
        requires
            old(self).wf(),
        ensures
            final(self).wf(),
            final(self).toks() == old(self).toks(),
            outcome(r, p_if(old(self).toks(), old(self).pos()), final(self).pos()),
            r is Ok ==> old(self).pos() < final(self).pos(),
        decreases left(old(self).toks(), old(self).pos()), 190int,
    {
        let condition = Box::new(self.expression()?);
        let then_statements = self.braced("Expected '{' after if condition", "Expected '}' after then branch")?;
        let then_branch = Box::new(unwrap_statements(then_statements));
        let else_branch = if self.match_tokens(&[TokenType::Else]) {
            let else_statements = self.braced("Expected '{' after else", "Expected '}' after else branch")?;
            Some(Box::new(unwrap_statements(else_statements)))
        } else {
            None
        };
        Ok(Expr::If { condition, then_branch, else_branch })
    }

    fn for_loop(&mut self) -> (r: Result<Expr, String>)
        requires
            old(self).wf(),
        ensures
            final(self).wf(),
            final(self).toks() == old(self).toks(),
            outcome(r, p_for(old(self).toks(), old(self).pos()), final(self).pos()),
            r is Ok ==> old(self).pos() < final(self).pos(),
        decreases left(old(self).toks(), old(self).pos()), 190int,
    {
        let variable = if self.match_tokens(&[TokenType::Identifier]) {
            self.previous().literal.clone()
        } else {
            return Err("Expected variable name".to_string());
        };
        self.consume(TokenType::In, "Expected 'in' after variable")?;
        let iterable = Box::new(self.expression()?);
        let body = self.braced("Expected '{' after iterable", "Expected '}' after for loop body")?;
        let block = Expr::Block(body);
        assert(block.view() == SExpr::Block(exprs_view(body@)));
        Ok(Expr::For { variable, iterable, body: Box::new(block) })
    }

    fn while_loop(&mut self) -> (r: Result<Expr, String>)
        requires
            old(self).wf(),
        ensures
            final(self).wf(),
            final(self).toks() == old(self).toks(),
            outcome(r, p_while(old(self).toks(), old(self).pos()), final(self).pos()),
            r is Ok ==> old(self).pos() < final(self).pos(),
        decreases left(old(self).toks(), old(self).pos()), 190int,
    {
        let condition = Box::new(self.expression()?);
        let body = self.braced("Expected '{' after while condition", "Expected '}' after while loop body")?;
        let block = Expr::Block(body);
        assert(block.view() == SExpr::Block(exprs_view(body@)));
        Ok(Expr::While { condition, body: Box::new(block) })
    }

    /// Function parameters: an optional first name, then `, name` pairs.
    fn function_params(&mut self) -> (r: Result<Vec<String>, String>)
        requires
            old(self).wf(),
        ensures
            final(self).wf(),
            final(self).toks() == old(self).toks(),
            outcome_names(r, p_fn_params(old(self).toks(), old(self).pos()), final(self).pos()),
            r is Ok ==> old(self).pos() <= final(self).pos(),
    {
        let ghost t = self.toks();
        let ghost p0 = self.pos();
        let mut params: Vec<String> = Vec::new();
        assert(strings_view(params@) =~= Seq::<Seq<char>>::empty());
        if !self.check(TokenType::RightParen) {
            if self.match_tokens(&[TokenType::Identifier]) {
                params.push(self.previous().literal.clone());
                assert(strings_view(params@) =~= seq![params@[0]@]);
            } else {
                assert(strings_view(params@) =~= Seq::<Seq<char>>::empty());
            }
            assert(p_fn_params(t, p0) == p_param_rest(t, self.pos(), strings_view(params@)));
            while self.check(TokenType::Comma)
                invariant
                    self.wf(),
                    self.toks() == t,
                    t == old(self).toks(),
                    p0 == old(self).pos(),
                    0 <= p0 <= self.pos(),
                    p_fn_params(t, p0) == p_param_rest(t, self.pos(), strings_view(params@)),
                decreases left(t, self.pos()),
            {
                self.advance();
                if self.match_tokens(&[TokenType::Identifier]) {
                    let ghost before = params@;
                    params.push(self.previous().literal.clone());
                    assert(strings_view(params@) =~= strings_view(before).push(params@.last()@));
                } else {
                    return Err("Expected parameter name".to_string());
                }
            }
        }
        Ok(params)
    }

    /// Transformer parameters: names separated by commas.
    fn transformer_params(&mut self) -> (r: Result<Vec<String>, String>)
        requires
            old(self).wf(),
        ensures
            final(self).wf(),
            final(self).toks() == old(self).toks(),
            outcome_names(r, p_tr_params(old(self).toks(), old(self).pos()), final(self).pos()),
            r is Ok ==> old(self).pos() <= final(self).pos(),
    {
        let ghost t = self.toks();
        let ghost p0 = self.pos();
        let mut params: Vec<String> = Vec::new();
        assert(strings_view(params@) =~= Seq::<Seq<char>>::empty());
        if !self.check(TokenType::RightParen) {
            loop
                invariant_except_break
                    p_tr_params(t, p0) == p_tr_param_list(t, self.pos(), strings_view(params@)),
                invariant
                    self.wf(),
                    self.toks() == t,
                    t == old(self).toks(),
                    p0 == old(self).pos(),
                    0 <= p0 <= self.pos(),
                ensures
                    self.wf(),
                    self.toks() == t,
                    t == old(self).toks(),
                    p0 == old(self).pos(),
                    0 <= p0 <= self.pos(),
                    p_tr_params(t, p0) == Ok::<(Seq<Seq<char>>, int), Seq<char>>((strings_view(params@), self.pos())),
                decreases left(t, self.pos()),
            {
                if self.match_tokens(&[TokenType::Identifier]) {
                    let ghost before = params@;
                    params.push(self.previous().literal.clone());
                    assert(strings_view(params@) =~= strings_view(before).push(params@.last()@));
                } else {
                    return Err("Expected parameter name".to_string());
                }
                if !self.match_tokens(&[TokenType::Comma]) {
                    break;
                }
            }
        }
        Ok(params)
    }

    fn function_definition(&mut self) -> (r: Result<Expr, String>)
        requires
            old(self).wf(),
        ensures
            final(self).wf(),
            final(self).toks() == old(self).toks(),
            outcome(r, p_function(old(self).toks(), old(self).pos()), final(self).pos()),
            r is Ok ==> old(self).pos() < final(self).pos(),
        decreases left(old(self).toks(), old(self).pos()), 190int,
    {
        let name = if self.match_tokens(&[TokenType::Identifier]) {
            self.previous().literal.clone()
        } else {
            return Err("Expected function name".to_string());
        };
        self.consume(TokenType::LeftParen, "Expected '(' after function name")?;
        let params = self.function_params()?;
        self.consume(TokenType::RightParen, "Expected ')' after parameters")?;
        let body = self.braced("Expected '{' before function body", "Expected '}' after function body")?;
        Ok(Expr::Function { name, params, body })
    }

    fn transformer_definition(&mut self) -> (r: Result<Expr, String>)
        requires
            old(self).wf(),
        ensures
            final(self).wf(),
            final(self).toks() == old(self).toks(),
            outcome(r, p_transformer(old(self).toks(), old(self).pos()), final(self).pos()),
            r is Ok ==> old(self).pos() < final(self).pos(),
        decreases left(old(self).toks(), old(self).pos()), 190int,
    {
        let name = if self.match_tokens(&[TokenType::Identifier]) {
            self.previous().literal.clone()
        } else {
            return Err("Expected transformer name".to_string());
        };
        self.consume(TokenType::LeftParen, "Expected '(' after transformer name")?;
        let params = self.transformer_params()?;
        self.consume(TokenType::RightParen, "Expected ')' after parameters")?;
        let body = self.braced("Expected '{' before transformer body", "Expected '}' after transformer body")?;
        Ok(Expr::Transformer { name, params, body })
    }

    fn return_statement(&mut self) -> (r: Result<Expr, String>)
        requires
            old(self).wf(),
        ensures
            final(self).wf(),
            final(self).toks() == old(self).toks(),
            outcome(r, p_return(old(self).toks(), old(self).pos()), final(self).pos()),
            r is Ok ==> old(self).pos() < final(self).pos(),
        decreases left(old(self).toks(), old(self).pos()), 201int,
    {
        let value = if self.check(TokenType::Semicolon) {
            None
        } else {
            Some(Box::new(self.statement()?))
        };
        self.match_tokens(&[TokenType::Semicolon]);
        Ok(Expr::Return { value })
    }

    fn use_statement(&mut self) -> (r: Result<Expr, String>)
        requires
            old(self).wf(),
        ensures
            final(self).wf(),
            final(self).toks() == old(self).toks(),
            outcome(r, p_use(old(self).toks(), old(self).pos()), final(self).pos()),
            r is Ok ==> old(self).pos() < final(self).pos(),
    {
        if self.match_tokens(&[TokenType::String]) {
            let path = self.previous().literal.clone();
            self.match_tokens(&[TokenType::Semicolon]);
            Ok(Expr::Use { path })
        } else {
            Err("Expected string path after 'use'".to_string())
        }
    }

    /// Steps over a run of semicolons.
    fn skip_separators(&mut self)
        requires
            old(self).wf(),
        ensures
            final(self).wf(),
            final(self).toks() == old(self).toks(),
            final(self).pos() == skip_separators(old(self).toks(), old(self).pos()),
            old(self).pos() <= final(self).pos(),
    {
        while self.match_tokens(&[TokenType::Semicolon])
            invariant
                self.wf(),
                self.toks() == old(self).toks(),
                skip_separators(self.toks(), self.pos()) == skip_separators(old(self).toks(), old(self).pos()),
                old(self).pos() <= self.pos(),
            decreases left(self.toks(), self.pos()),
        {
        }
    }

    /// If the next token has one of the given kinds, steps over it.
    fn match_tokens(&mut self, types: &[TokenType]) -> (r: bool)
        requires
            old(self).wf(),
        ensures
            final(self).wf(),
            final(self).toks() == old(self).toks(),
            r == (!at_end(old(self).toks(), old(self).pos()) && types@.contains(
                kind_at(old(self).toks(), old(self).pos()),
            )),
            final(self).pos() == if r {
                old(self).pos() + 1
            } else {
                old(self).pos()
            },
    {
        let mut i: usize = 0;
        while i < types.len()
            invariant
                self.wf(),
                *self == *old(self),
                i <= types@.len(),
                forall|j: int| 0 <= j < i ==> !check(self.toks(), self.pos(), #[trigger] types@[j]),
            decreases types@.len() - i,
        {
            if self.check(types[i]) {
                self.advance();
                return true;
            }
            i = i + 1;
        }
        false
    }

    fn check(&self, token_type: TokenType) -> (r: bool)
        requires
            self.wf(),
        ensures
            r == check(self.toks(), self.pos(), token_type),
    {
        if self.is_at_end() {
            return false;
        }
        self.peek().token_type == token_type
    }

    /// Steps over the next token, unless the input has ended.
    fn advance(&mut self)
        requires
            old(self).wf(),
        ensures
            final(self).wf(),
            final(self).toks() == old(self).toks(),
            final(self).pos() == if at_end(old(self).toks(), old(self).pos()) {
                old(self).pos()
            } else {
                old(self).pos() + 1
            },
    {
        let n = self.tokens.len();
        if !self.is_at_end() {
            assert(self.tokens@[self.current as int]@ == self.toks()[self.pos()]);
            assert(self.tokens@.last() == self.tokens@[self.tokens@.len() - 1]);
            assert(self.current + 1 < self.tokens@.len());
            self.current = self.current + 1;
        }
    }

    fn is_at_end(&self) -> (r: bool)
        requires
            self.wf(),
        ensures
            r == at_end(self.toks(), self.pos()),
    {
        self.peek().token_type == TokenType::EOF
    }

    fn peek(&self) -> (r: &Token)
        requires
            self.wf(),
        ensures
            r@ == self.toks()[self.pos()],
    {
        &self.tokens[self.current]
    }

    fn previous(&self) -> (r: &Token)
        requires
            self.wf(),
            self.pos() > 0,
        ensures
            r@ == self.toks()[self.pos() - 1],
    {
        &self.tokens[self.current - 1]
    }

    /// Steps over a token of kind `token_type`, or fails with `message`.
    fn consume(&mut self, token_type: TokenType, message: &str) -> (r: Result<(), String>)
        requires
            old(self).wf(),
        ensures
            final(self).wf(),
            final(self).toks() == old(self).toks(),
            check(old(self).toks(), old(self).pos(), token_type) ==> r is Ok && final(self).pos()
                == old(self).pos() + 1,
            !check(old(self).toks(), old(self).pos(), token_type) ==> r is Err && r->Err_0@ == message@
                && final(self).pos() == old(self).pos(),
    {
        if self.check(token_type) {
            self.advance();
            Ok(())
        } else {
            Err(message.to_string())
        }
    }
}

fn is_binary_op(lvl: u8, k: TokenType) -> (r: bool)
    ensures
        r == binary_op(lvl as nat, k),
{
    match lvl {
        0 => k == TokenType::Or,
        1 => k == TokenType::And,
        3 => k == TokenType::EqualEqual || k == TokenType::BangEqual,
        4 => k == TokenType::LessThan || k == TokenType::LessThanEqual || k == TokenType::GreaterThan
            || k == TokenType::GreaterThanEqual,
        5 => k == TokenType::Plus || k == TokenType::Minus,
        6 => k == TokenType::Multiply || k == TokenType::Divide || k == TokenType::Modulo,
        _ => false,
    }
}

} // verus!
