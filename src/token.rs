use vstd::prelude::*;

verus! {

/// The kind of a lexical token.
#[derive(Debug, Clone, Copy, PartialEq, Eq, Structural)]
pub enum TokenType {
    Number,
    String,
    Identifier,
    True,
    False,
    Plus,
    Minus,
    Multiply,
    Divide,
    Modulo,
    Equal,
    LessThan,
    LessThanEqual,
    GreaterThan,
    GreaterThanEqual,
    EqualEqual,
    BangEqual,
    And,
    Or,
    Not,
    LeftParen,
    RightParen,
    LeftBracket,
    RightBracket,
    LeftBrace,
    RightBrace,
    Comma,
    Semicolon,
    Dot,
    Fn,
    Return,
    If,
    Else,
    For,
    In,
    While,
    Transformer,
    Use,
    EOF,
}

/// The name under which a token kind is shown (its variant name).
pub open spec fn kind_name(k: TokenType) -> Seq<char> {
    match k {
        TokenType::Number => "Number"@,
        TokenType::String => "String"@,
        TokenType::Identifier => "Identifier"@,
        TokenType::True => "True"@,
        TokenType::False => "False"@,
        TokenType::Plus => "Plus"@,
        TokenType::Minus => "Minus"@,
        TokenType::Multiply => "Multiply"@,
        TokenType::Divide => "Divide"@,
        TokenType::Modulo => "Modulo"@,
        TokenType::Equal => "Equal"@,
        TokenType::LessThan => "LessThan"@,
        TokenType::LessThanEqual => "LessThanEqual"@,
        TokenType::GreaterThan => "GreaterThan"@,
        TokenType::GreaterThanEqual => "GreaterThanEqual"@,
        TokenType::EqualEqual => "EqualEqual"@,
        TokenType::BangEqual => "BangEqual"@,
        TokenType::And => "And"@,
        TokenType::Or => "Or"@,
        TokenType::Not => "Not"@,
        TokenType::LeftParen => "LeftParen"@,
        TokenType::RightParen => "RightParen"@,
        TokenType::LeftBracket => "LeftBracket"@,
        TokenType::RightBracket => "RightBracket"@,
        TokenType::LeftBrace => "LeftBrace"@,
        TokenType::RightBrace => "RightBrace"@,
        TokenType::Comma => "Comma"@,
        TokenType::Semicolon => "Semicolon"@,
        TokenType::Dot => "Dot"@,
        TokenType::Fn => "Fn"@,
        TokenType::Return => "Return"@,
        TokenType::If => "If"@,
        TokenType::Else => "Else"@,
        TokenType::For => "For"@,
        TokenType::In => "In"@,
        TokenType::While => "While"@,
        TokenType::Transformer => "Transformer"@,
        TokenType::Use => "Use"@,
        TokenType::EOF => "EOF"@,
    }
}

impl TokenType {
    /// The variant name of this kind.
    pub fn name(&self) -> (r: &'static str)
        ensures
            r@ == kind_name(*self),
    {
        match self {
            TokenType::Number => "Number",
            TokenType::String => "String",
            TokenType::Identifier => "Identifier",
            TokenType::True => "True",
            TokenType::False => "False",
            TokenType::Plus => "Plus",
            TokenType::Minus => "Minus",
            TokenType::Multiply => "Multiply",
            TokenType::Divide => "Divide",
            TokenType::Modulo => "Modulo",
            TokenType::Equal => "Equal",
            TokenType::LessThan => "LessThan",
            TokenType::LessThanEqual => "LessThanEqual",
            TokenType::GreaterThan => "GreaterThan",
            TokenType::GreaterThanEqual => "GreaterThanEqual",
            TokenType::EqualEqual => "EqualEqual",
            TokenType::BangEqual => "BangEqual",
            TokenType::And => "And",
            TokenType::Or => "Or",
            TokenType::Not => "Not",
            TokenType::LeftParen => "LeftParen",
            TokenType::RightParen => "RightParen",
            TokenType::LeftBracket => "LeftBracket",
            TokenType::RightBracket => "RightBracket",
            TokenType::LeftBrace => "LeftBrace",
            TokenType::RightBrace => "RightBrace",
            TokenType::Comma => "Comma",
            TokenType::Semicolon => "Semicolon",
            TokenType::Dot => "Dot",
            TokenType::Fn => "Fn",
            TokenType::Return => "Return",
            TokenType::If => "If",
            TokenType::Else => "Else",
            TokenType::For => "For",
            TokenType::In => "In",
            TokenType::While => "While",
            TokenType::Transformer => "Transformer",
            TokenType::Use => "Use",
            TokenType::EOF => "EOF",
        }
    }
}

/// A token: its kind and the exact source text it stands for (for a string
/// literal, the text between the quotes).
#[derive(Debug, Clone)]
pub struct Token {
    pub token_type: TokenType,
    pub literal: String,
}

impl View for Token {
    type V = (TokenType, Seq<char>);

    open spec fn view(&self) -> (TokenType, Seq<char>) {
        (self.token_type, self.literal@)
    }
}

/// The views of a sequence of tokens.
pub open spec fn tokens_view(ts: Seq<Token>) -> Seq<(TokenType, Seq<char>)> {
    ts.map_values(|t: Token| t@)
}

/// How a token is shown: its kind's name, then its text in single quotes.
pub open spec fn repr_of(t: (TokenType, Seq<char>)) -> Seq<char> {
    kind_name(t.0) + " '"@ + t.1 + "'"@
}

impl Token {
    pub fn new(token_type: TokenType, literal: String) -> (r: Token)
        ensures
            r@ == (token_type, literal@),
    {
        Token { token_type, literal }
    }

    /// A copy of this token.
    pub fn duplicate(&self) -> (r: Token)
        ensures
            r@ == self@,
    {
        Token { token_type: self.token_type, literal: self.literal.clone() }
    }

    /// Renders the token as `Kind 'text'`.
    pub fn repr(&self) -> (r: String)
        ensures
            r@ == repr_of(self@),
    {
        let mut s = self.token_type.name().to_string();
        s.append(" '");
        s.append(self.literal.as_str());
        s.append("'");
        s
    }
}

} // verus!
