use vstd::prelude::*;

use crate::token::Token;

verus! {

/// A node of the syntax tree. Every form is an expression.
#[derive(Debug)]
pub enum Expr {
    /// A decimal numeral, as written in the source.
    Number(String),
    String(String),
    Boolean(bool),
    Array(Vec<Expr>),
    Variable(String),
    Binary { left: Box<Expr>, operator: Token, right: Box<Expr> },
    Unary { operator: Token, right: Box<Expr> },
    Assign { name: String, value: Box<Expr> },
    Call { callee: String, arguments: Vec<Expr> },
    Function { name: String, params: Vec<String>, body: Vec<Expr> },
    Return { value: Option<Box<Expr>> },
    Block(Vec<Expr>),
    If { condition: Box<Expr>, then_branch: Box<Expr>, else_branch: Option<Box<Expr>> },
    For { variable: String, iterable: Box<Expr>, body: Box<Expr> },
    Index { object: Box<Expr>, index: Box<Expr> },
    While { condition: Box<Expr>, body: Box<Expr> },
    Transformer { name: String, params: Vec<String>, body: Vec<Expr> },
    Apply { object: Box<Expr>, transformer: String, arguments: Vec<Expr> },
    Use { path: String },
}

/// The mathematical form of a syntax tree: texts as character sequences,
/// lists as sequences, tokens as (kind, text) pairs.
pub enum SExpr {
    Number(Seq<char>),
    String(Seq<char>),
    Boolean(bool),
    Array(Seq<SExpr>),
    Variable(Seq<char>),
    Binary { left: Box<SExpr>, operator: (crate::token::TokenType, Seq<char>), right: Box<SExpr> },
    Unary { operator: (crate::token::TokenType, Seq<char>), right: Box<SExpr> },
    Assign { name: Seq<char>, value: Box<SExpr> },
    Call { callee: Seq<char>, arguments: Seq<SExpr> },
    Function { name: Seq<char>, params: Seq<Seq<char>>, body: Seq<SExpr> },
    Return { value: Option<Box<SExpr>> },
    Block(Seq<SExpr>),
    If { condition: Box<SExpr>, then_branch: Box<SExpr>, else_branch: Option<Box<SExpr>> },
    For { variable: Seq<char>, iterable: Box<SExpr>, body: Box<SExpr> },
    Index { object: Box<SExpr>, index: Box<SExpr> },
    While { condition: Box<SExpr>, body: Box<SExpr> },
    Transformer { name: Seq<char>, params: Seq<Seq<char>>, body: Seq<SExpr> },
    Apply { object: Box<SExpr>, transformer: Seq<char>, arguments: Seq<SExpr> },
    Use { path: Seq<char> },
}

/// The texts of a sequence of strings.
pub open spec fn strings_view(s: Seq<String>) -> Seq<Seq<char>> {
    s.map_values(|x: String| x@)
}

/// The views of a sequence of syntax trees.
pub open spec fn exprs_view(s: Seq<Expr>) -> Seq<SExpr>
    decreases s,
{
    if s.len() == 0 {
        Seq::empty()
    } else {
        exprs_view(s.subrange(0, s.len() - 1)).push(s[s.len() - 1].view())
    }
}

impl Expr {
    /// The mathematical form of this tree.
    pub open spec fn view(&self) -> SExpr
        decreases self,
    {
        match self {
            Expr::Number(s) => SExpr::Number(s@),
            Expr::String(s) => SExpr::String(s@),
            Expr::Boolean(b) => SExpr::Boolean(*b),
            Expr::Array(v) => SExpr::Array(exprs_view(v@)),
            Expr::Variable(s) => SExpr::Variable(s@),
            Expr::Binary { left, operator, right } => SExpr::Binary {
                left: Box::new(left.view()),
                operator: operator@,
                right: Box::new(right.view()),
            },
            Expr::Unary { operator, right } => SExpr::Unary {
                operator: operator@,
                right: Box::new(right.view()),
            },
            Expr::Assign { name, value } => SExpr::Assign {
                name: name@,
                value: Box::new(value.view()),
            },
            Expr::Call { callee, arguments } => SExpr::Call {
                callee: callee@,
                arguments: exprs_view(arguments@),
            },
            Expr::Function { name, params, body } => SExpr::Function {
                name: name@,
                params: strings_view(params@),
                body: exprs_view(body@),
            },
            Expr::Return { value } => SExpr::Return {
                value: match value {
                    Some(v) => Some(Box::new(v.view())),
                    None => None,
                },
            },
            Expr::Block(v) => SExpr::Block(exprs_view(v@)),
            Expr::If { condition, then_branch, else_branch } => SExpr::If {
                condition: Box::new(condition.view()),
                then_branch: Box::new(then_branch.view()),
                else_branch: match else_branch {
                    Some(e) => Some(Box::new(e.view())),
                    None => None,
                },
            },
            Expr::For { variable, iterable, body } => SExpr::For {
                variable: variable@,
                iterable: Box::new(iterable.view()),
                body: Box::new(body.view()),
            },
            Expr::Index { object, index } => SExpr::Index {
                object: Box::new(object.view()),
                index: Box::new(index.view()),
            },
            Expr::While { condition, body } => SExpr::While {
                condition: Box::new(condition.view()),
                body: Box::new(body.view()),
            },
            Expr::Transformer { name, params, body } => SExpr::Transformer {
                name: name@,
                params: strings_view(params@),
                body: exprs_view(body@),
            },
            Expr::Apply { object, transformer, arguments } => SExpr::Apply {
                object: Box::new(object.view()),
                transformer: transformer@,
                arguments: exprs_view(arguments@),
            },
            Expr::Use { path } => SExpr::Use { path: path@ },
        }
    }
}

/// Appending a tree appends its view.
pub proof fn lemma_exprs_view_push(s: Seq<Expr>, e: Expr)
    ensures
        exprs_view(s.push(e)) == exprs_view(s).push(e.view()),
{
    assert(s.push(e).subrange(0, s.len() as int) =~= s);
}

/// The view of a sequence has one entry per tree, each the tree's view.
pub proof fn lemma_exprs_view_index(s: Seq<Expr>)
    ensures
        exprs_view(s).len() == s.len(),
        forall|k: int| 0 <= k < s.len() ==> #[trigger] exprs_view(s)[k] == s[k].view(),
    decreases s.len(),
{
    if s.len() > 0 {
        lemma_exprs_view_index(s.subrange(0, s.len() - 1));
    }
}

/// A copy of a list of names.
pub fn copy_names(v: &Vec<String>) -> (r: Vec<String>)
    ensures
        strings_view(r@) == strings_view(v@),
{
    let mut r: Vec<String> = Vec::new();
    let mut i: usize = 0;
    while i < v.len()
        invariant
            i <= v@.len(),
            r@.len() == i,
            strings_view(r@) == strings_view(v@.take(i as int)),
        decreases v@.len() - i,
    {
        let ghost before = r@;
        r.push(v[i].clone());
        assert forall|k: int| 0 <= k < i + 1 implies strings_view(r@)[k] == strings_view(v@.take(i + 1))[k] by {
            if k < i {
                assert(strings_view(before)[k] == strings_view(v@.take(i as int))[k]);
            }
        }
        assert(strings_view(r@) =~= strings_view(v@.take(i + 1)));
        i = i + 1;
    }
    assert(v@.take(i as int) =~= v@);
    r
}

/// A copy of a list of trees.
pub fn copy_exprs(v: &Vec<Expr>) -> (r: Vec<Expr>)
    ensures
        exprs_view(r@) == exprs_view(v@),
    decreases v,
{
    let mut r: Vec<Expr> = Vec::new();
    let mut i: usize = 0;
    while i < v.len()
        invariant
            i <= v@.len(),
            exprs_view(r@) == exprs_view(v@.take(i as int)),
        decreases v@.len() - i,
    {
        proof {
            broadcast use vstd::std_specs::vec::axiom_vec_index_decreases;
        }
        assert(decreases_to!(v => v[i as int]));
        let e = v[i].deep_copy();
        proof {
            lemma_exprs_view_push(r@, e);
            assert(v@.take(i + 1) =~= v@.take(i as int).push(v@[i as int]));
            lemma_exprs_view_push(v@.take(i as int), v@[i as int]);
        }
        r.push(e);
        i = i + 1;
    }
    assert(v@.take(i as int) =~= v@);
    r
}

impl Expr {
    /// A copy of the whole tree.
    pub fn deep_copy(&self) -> (r: Expr)
        ensures
            r.view() == self.view(),
        decreases self,
    {
        match self {
            Expr::Number(s) => Expr::Number(s.clone()),
            Expr::String(s) => Expr::String(s.clone()),
            Expr::Boolean(b) => Expr::Boolean(*b),
            Expr::Array(v) => Expr::Array(copy_exprs(v)),
            Expr::Variable(s) => Expr::Variable(s.clone()),
            Expr::Binary { left, operator, right } => Expr::Binary {
                left: Box::new(left.deep_copy()),
                operator: operator.duplicate(),
                right: Box::new(right.deep_copy()),
            },
            Expr::Unary { operator, right } => Expr::Unary { operator: operator.duplicate(), right: Box::new(right.deep_copy()) },
            Expr::Assign { name, value } => Expr::Assign { name: name.clone(), value: Box::new(value.deep_copy()) },
            Expr::Call { callee, arguments } => Expr::Call { callee: callee.clone(), arguments: copy_exprs(arguments) },
            Expr::Function { name, params, body } => Expr::Function {
                name: name.clone(),
                params: copy_names(params),
                body: copy_exprs(body),
            },
            Expr::Return { value } => Expr::Return {
                value: match value {
                    Some(x) => Some(Box::new(x.deep_copy())),
                    None => None,
                },
            },
            Expr::Block(v) => Expr::Block(copy_exprs(v)),
            Expr::If { condition, then_branch, else_branch } => Expr::If {
                condition: Box::new(condition.deep_copy()),
                then_branch: Box::new(then_branch.deep_copy()),
                else_branch: match else_branch {
                    Some(x) => Some(Box::new(x.deep_copy())),
                    None => None,
                },
            },
            Expr::For { variable, iterable, body } => Expr::For {
                variable: variable.clone(),
                iterable: Box::new(iterable.deep_copy()),
                body: Box::new(body.deep_copy()),
            },
            Expr::Index { object, index } => Expr::Index { object: Box::new(object.deep_copy()), index: Box::new(index.deep_copy()) },
            Expr::While { condition, body } => Expr::While { condition: Box::new(condition.deep_copy()), body: Box::new(body.deep_copy()) },
            Expr::Transformer { name, params, body } => Expr::Transformer {
                name: name.clone(),
                params: copy_names(params),
                body: copy_exprs(body),
            },
            Expr::Apply { object, transformer, arguments } => Expr::Apply {
                object: Box::new(object.deep_copy()),
                transformer: transformer.clone(),
                arguments: copy_exprs(arguments),
            },
            Expr::Use { path } => Expr::Use { path: path.clone() },
        }
    }
}

} // verus!
