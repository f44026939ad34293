use vstd::prelude::*;

use crate::text::{chars_of, text_is, text_of};
use crate::token::{tokens_view, Token, TokenType};

verus! {

pub open spec fn is_space(c: char) -> bool {
    c == ' ' || c == '\t' || c == '\r' || c == '\n'
}

pub open spec fn is_digit(c: char) -> bool {
    '0' <= c && c <= '9'
}

pub open spec fn is_number_char(c: char) -> bool {
    is_digit(c) || c == '.'
}

pub open spec fn is_ident_start(c: char) -> bool {
    ('a' <= c && c <= 'z') || ('A' <= c && c <= 'Z') || c == '_'
}

pub open spec fn is_ident_char(c: char) -> bool {
    is_ident_start(c) || is_digit(c)
}

/// The end of the run of numeral characters starting at `k`.
pub open spec fn number_end(s: Seq<char>, k: int) -> int
    decreases s.len() - k,
{
    if 0 <= k < s.len() && is_number_char(s[k]) {
        number_end(s, k + 1)
    } else {
        k
    }
}

/// The end of the run of identifier characters starting at `k`.
pub open spec fn ident_end(s: Seq<char>, k: int) -> int
    decreases s.len() - k,
{
    if 0 <= k < s.len() && is_ident_char(s[k]) {
        ident_end(s, k + 1)
    } else {
        k
    }
}

/// The position of the first `stop` at or after `k`, or the end of `s`.
pub open spec fn find_char(s: Seq<char>, k: int, stop: char) -> int
    decreases s.len() - k,
{
    if 0 <= k < s.len() && s[k] != stop {
        find_char(s, k + 1, stop)
    } else {
        k
    }
}

pub proof fn lemma_number_end(s: Seq<char>, k: int)
    requires
        0 <= k <= s.len(),
    ensures
        k <= number_end(s, k) <= s.len(),
    decreases s.len() - k,
{
    if k < s.len() && is_number_char(s[k]) {
        lemma_number_end(s, k + 1);
    }
}

pub proof fn lemma_ident_end(s: Seq<char>, k: int)
    requires
        0 <= k <= s.len(),
    ensures
        k <= ident_end(s, k) <= s.len(),
    decreases s.len() - k,
{
    if k < s.len() && is_ident_char(s[k]) {
        lemma_ident_end(s, k + 1);
    }
}

pub proof fn lemma_find_char(s: Seq<char>, k: int, stop: char)
    requires
        0 <= k <= s.len(),
    ensures
        k <= find_char(s, k, stop) <= s.len(),
        find_char(s, k, stop) < s.len() ==> s[find_char(s, k, stop)] == stop,
    decreases s.len() - k,
{
    if k < s.len() && s[k] != stop {
        lemma_find_char(s, k + 1, stop);
    }
}

/// The kind of a word: a keyword's own kind, or `Identifier`.
pub open spec fn keyword_of(w: Seq<char>) -> TokenType {
    if w == "fn"@ {
        TokenType::Fn
    } else if w == "return"@ {
        TokenType::Return
    } else if w == "true"@ {
        TokenType::True
    } else if w == "false"@ {
        TokenType::False
    } else if w == "if"@ {
        TokenType::If
    } else if w == "else"@ {
        TokenType::Else
    } else if w == "for"@ {
        TokenType::For
    } else if w == "in"@ {
        TokenType::In
    } else if w == "while"@ {
        TokenType::While
    } else if w == "transformer"@ {
        TokenType::Transformer
    } else if w == "and"@ {
        TokenType::And
    } else if w == "or"@ {
        TokenType::Or
    } else if w == "not"@ {
        TokenType::Not
    } else if w == "use"@ {
        TokenType::Use
    } else {
        TokenType::Identifier
    }
}

/// The kind of a one-character token, if `c` is one (`/`, `<`, `>`, `=`
/// and `!` are decided with the next character, see `lex_from`).
pub open spec fn single_kind(c: char) -> Option<TokenType> {
    if c == '+' {
        Some(TokenType::Plus)
    } else if c == '-' {
        Some(TokenType::Minus)
    } else if c == '*' {
        Some(TokenType::Multiply)
    } else if c == '%' {
        Some(TokenType::Modulo)
    } else if c == '(' {
        Some(TokenType::LeftParen)
    } else if c == ')' {
        Some(TokenType::RightParen)
    } else if c == '[' {
        Some(TokenType::LeftBracket)
    } else if c == ']' {
        Some(TokenType::RightBracket)
    } else if c == '{' {
        Some(TokenType::LeftBrace)
    } else if c == '}' {
        Some(TokenType::RightBrace)
    } else if c == ',' {
        Some(TokenType::Comma)
    } else if c == ';' {
        Some(TokenType::Semicolon)
    } else if c == '.' {
        Some(TokenType::Dot)
    } else {
        None
    }
}

/// For `<`, `>`, `=` and `!`: the kind of the token alone and with a
/// following `=` (a lone `!` makes no token).
pub open spec fn pair_kinds(c: char) -> Option<(Option<TokenType>, TokenType)> {
    if c == '<' {
        Some((Some(TokenType::LessThan), TokenType::LessThanEqual))
    } else if c == '>' {
        Some((Some(TokenType::GreaterThan), TokenType::GreaterThanEqual))
    } else if c == '=' {
        Some((Some(TokenType::Equal), TokenType::EqualEqual))
    } else if c == '!' {
        Some((None, TokenType::BangEqual))
    } else {
        None
    }
}

/// Whether position `k` of `s` holds `c`.
pub open spec fn char_at(s: Seq<char>, k: int, c: char) -> bool {
    0 <= k < s.len() && s[k] == c
}

/// The position after a closing character found at `j` (or the end of `s`).
pub open spec fn past(s: Seq<char>, j: int) -> int {
    if j < s.len() {
        j + 1
    } else {
        j
    }
}

/// The tokens of `s` from position `i` on (without the end marker).
pub open spec fn lex_from(s: Seq<char>, i: int) -> Seq<(TokenType, Seq<char>)>
    decreases s.len() - i,
{
    if i < 0 || i >= s.len() {
        seq![]
    } else {
        let c = s[i];
        if is_space(c) {
            lex_from(s, i + 1)
        } else if is_digit(c) {
            let j = number_end(s, i + 1);
            proof {
                lemma_number_end(s, i + 1);
            }
            seq![(TokenType::Number, s.subrange(i, j))] + lex_from(s, j)
        } else if c == '"' {
            let j = find_char(s, i + 1, '"');
            proof {
                lemma_find_char(s, i + 1, '"');
            }
            seq![(TokenType::String, s.subrange(i + 1, j))] + lex_from(s, past(s, j))
        } else if is_ident_start(c) {
            let j = ident_end(s, i + 1);
            proof {
                lemma_ident_end(s, i + 1);
            }
            let w = s.subrange(i, j);
            seq![(keyword_of(w), w)] + lex_from(s, j)
        } else if c == '/' && char_at(s, i + 1, '/') {
            let j = find_char(s, i + 2, '\n');
            proof {
                lemma_find_char(s, i + 2, '\n');
            }
            lex_from(s, past(s, j))
        } else if c == '/' {
            seq![(TokenType::Divide, seq!['/'])] + lex_from(s, i + 1)
        } else if single_kind(c) is Some {
            seq![(single_kind(c)->0, seq![c])] + lex_from(s, i + 1)
        } else if let Some((alone, with_eq)) = pair_kinds(c) {
            if char_at(s, i + 1, '=') {
                seq![(with_eq, seq![c, '='])] + lex_from(s, i + 2)
            } else if let Some(k) = alone {
                seq![(k, seq![c])] + lex_from(s, i + 1)
            } else {
                lex_from(s, i + 1)
            }
        } else {
            lex_from(s, i + 1)
        }
    }
}

/// The tokens of a sequence of lines, each lexed on its own, without the end marker.
pub open spec fn lex_lines(lines: Seq<Seq<char>>) -> Seq<(TokenType, Seq<char>)>
    decreases lines.len(),
{
    if lines.len() == 0 {
        seq![]
    } else {
        lex_lines(lines.drop_last()) + lex_from(lines.last(), 0)
    }
}

/// The end-of-input marker.
pub open spec fn eof_token() -> (TokenType, Seq<char>) {
    (TokenType::EOF, Seq::empty())
}

/// The full token sequence of a sequence of lines.
pub open spec fn lex_spec(lines: Seq<Seq<char>>) -> Seq<(TokenType, Seq<char>)> {
    lex_lines(lines).push(eof_token())
}

pub open spec fn lines_view(lines: Seq<String>) -> Seq<Seq<char>> {
    lines.map_values(|l: String| l@)
}

/// A lexer over a buffer of source lines.
pub struct Lexer {
    pub line: Vec<String>,
}

impl Lexer {
    pub open spec fn source(&self) -> Seq<Seq<char>> {
        lines_view(self.line@)
    }

    /// A lexer over `content`, held as a single line.
    pub fn new(content: &str) -> (r: Lexer)
        ensures
            r.source() == seq![content@],
    {
        let mut line: Vec<String> = Vec::new();
        line.push(content.to_string());
        let r = Lexer { line };
        assert(r.source() =~= seq![content@]);
        r
    }

    /// The tokens of the buffer; lexing never fails.
    pub fn tokenize(&self) -> (r: Result<Vec<Token>, String>)
        ensures
            r is Ok,
            tokens_view(r->Ok_0@) == lex_spec(self.source()),
    {
        Ok(self.lex())
    }

    /// The tokens of the buffer, ending with the end-of-input marker.
    pub fn lex(&self) -> (r: Vec<Token>)
        ensures
            tokens_view(r@) == lex_spec(self.source()),
    {
        let mut tokens: Vec<Token> = Vec::new();
        let mut k: usize = 0;
        while k < self.line.len()
            invariant
                k <= self.line@.len(),
                tokens_view(tokens@) == lex_lines(self.source().take(k as int)),
            decreases self.line@.len() - k,
        {
            let cs = chars_of(self.line[k].as_str());
            lex_line(&cs, &mut tokens);
            assert(self.source().take(k + 1).drop_last() =~= self.source().take(k as int));
            k = k + 1;
        }
        assert(self.source().take(k as int) =~= self.source());
        let ghost before = tokens@;
        tokens.push(Token::new(TokenType::EOF, String::new()));
        assert(tokens_view(tokens@) =~= tokens_view(before).push(eof_token()));
        tokens
    }
}

/// Appends a token to `tokens`.
fn emit(tokens: &mut Vec<Token>, kind: TokenType, text: String)
    ensures
        tokens_view(final(tokens)@) == tokens_view(old(tokens)@).push((kind, text@)),
{
    tokens.push(Token::new(kind, text));
    assert(tokens_view(tokens@) =~= tokens_view(old(tokens)@).push((kind, text@)));
}

fn is_space_char(c: char) -> (r: bool)
    ensures
        r == is_space(c),
{
    c == ' ' || c == '\t' || c == '\r' || c == '\n'
}

fn is_digit_char(c: char) -> (r: bool)
    ensures
        r == is_digit(c),
{
    '0' <= c && c <= '9'
}

fn is_ident_start_char(c: char) -> (r: bool)
    ensures
        r == is_ident_start(c),
{
    ('a' <= c && c <= 'z') || ('A' <= c && c <= 'Z') || c == '_'
}

fn keyword_kind(w: &String) -> (r: TokenType)
    ensures
        r == keyword_of(w@),
{
    if text_is(w, "fn") {
        TokenType::Fn
    } else if text_is(w, "return") {
        TokenType::Return
    } else if text_is(w, "true") {
        TokenType::True
    } else if text_is(w, "false") {
        TokenType::False
    } else if text_is(w, "if") {
        TokenType::If
    } else if text_is(w, "else") {
        TokenType::Else
    } else if text_is(w, "for") {
        TokenType::For
    } else if text_is(w, "in") {
        TokenType::In
    } else if text_is(w, "while") {
        TokenType::While
    } else if text_is(w, "transformer") {
        TokenType::Transformer
    } else if text_is(w, "and") {
        TokenType::And
    } else if text_is(w, "or") {
        TokenType::Or
    } else if text_is(w, "not") {
        TokenType::Not
    } else if text_is(w, "use") {
        TokenType::Use
    } else {
        TokenType::Identifier
    }
}

fn single_char_kind(c: char) -> (r: Option<TokenType>)
    ensures
        r == single_kind(c),
{
    match c {
        '+' => Some(TokenType::Plus),
        '-' => Some(TokenType::Minus),
        '*' => Some(TokenType::Multiply),
        '%' => Some(TokenType::Modulo),
        '(' => Some(TokenType::LeftParen),
        ')' => Some(TokenType::RightParen),
        '[' => Some(TokenType::LeftBracket),
        ']' => Some(TokenType::RightBracket),
        '{' => Some(TokenType::LeftBrace),
        '}' => Some(TokenType::RightBrace),
        ',' => Some(TokenType::Comma),
        ';' => Some(TokenType::Semicolon),
        '.' => Some(TokenType::Dot),
        _ => None,
    }
}

fn pair_char_kinds(c: char) -> (r: Option<(Option<TokenType>, TokenType)>)
    ensures
        r == pair_kinds(c),
{
    match c {
        '<' => Some((Some(TokenType::LessThan), TokenType::LessThanEqual)),
        '>' => Some((Some(TokenType::GreaterThan), TokenType::GreaterThanEqual)),
        '=' => Some((Some(TokenType::Equal), TokenType::EqualEqual)),
        '!' => Some((None, TokenType::BangEqual)),
        _ => None,
    }
}

/// Appends the tokens of one line, given as its characters, to `tokens`.
fn lex_line(cs: &Vec<char>, tokens: &mut Vec<Token>)
    ensures
        tokens_view(final(tokens)@) == tokens_view(old(tokens)@) + lex_from(cs@, 0),
{
    let ghost s = cs@;
    let n = cs.len();
    let mut i: usize = 0;
    while i < n
        invariant
            n == s.len(),
            s == cs@,
            i <= n,
            tokens_view(tokens@) + lex_from(s, i as int) == tokens_view(old(tokens)@) + lex_from(s, 0),
        decreases n - i,
    {
        let ghost before = tokens_view(tokens@);
        let c = cs[i];
        let next: usize;
        if is_space_char(c) {
            next = i + 1;
        } else if is_digit_char(c) {
            let mut j = i + 1;
            while j < n && (cs[j] == '.' || is_digit_char(cs[j]))
                invariant
                    n == cs@.len(),
                    s == cs@,
                    i < j <= n,
                    number_end(s, i + 1) == number_end(s, j as int),
                decreases n - j,
            {
                j = j + 1;
            }
            emit(tokens, TokenType::Number, text_of(cs, i, j));
            next = j;
        } else if c == '"' {
            let mut j = i + 1;
            while j < n && cs[j] != '"'
                invariant
                    n == cs@.len(),
                    s == cs@,
                    i < j <= n,
                    find_char(s, i + 1, '"') == find_char(s, j as int, '"'),
                decreases n - j,
            {
                j = j + 1;
            }
            emit(tokens, TokenType::String, text_of(cs, i + 1, j));
            next = if j < n { j + 1 } else { j };
        } else if is_ident_start_char(c) {
            let mut j = i + 1;
            while j < n && (cs[j] == '_' || is_digit_char(cs[j]) || is_ident_start_char(cs[j]))
                invariant
                    n == cs@.len(),
                    s == cs@,
                    i < j <= n,
                    ident_end(s, i + 1) == ident_end(s, j as int),
                decreases n - j,
            {
                j = j + 1;
            }
            let w = text_of(cs, i, j);
            let kind = keyword_kind(&w);
            emit(tokens, kind, w);
            next = j;
        } else if c == '/' && i + 1 < n && cs[i + 1] == '/' {
            let mut j = i + 2;
            while j < n && cs[j] != '\n'
                invariant
                    n == cs@.len(),
                    s == cs@,
                    i + 2 <= j <= n,
                    find_char(s, i + 2, '\n') == find_char(s, j as int, '\n'),
                decreases n - j,
            {
                j = j + 1;
            }
            next = if j < n { j + 1 } else { j };
        } else if c == '/' {
            emit(tokens, TokenType::Divide, text_of(cs, i, i + 1));
            assert(s.subrange(i as int, i + 1) =~= seq!['/']);
            next = i + 1;
        } else if let Some(kind) = single_char_kind(c) {
            emit(tokens, kind, text_of(cs, i, i + 1));
            assert(s.subrange(i as int, i + 1) =~= seq![c]);
            next = i + 1;
        } else if let Some(kinds) = pair_char_kinds(c) {
            let (alone, with_eq) = kinds;
            if i + 1 < n && cs[i + 1] == '=' {
                emit(tokens, with_eq, text_of(cs, i, i + 2));
                assert(s.subrange(i as int, i + 2) =~= seq![c, '=']);
                next = i + 2;
            } else {
                match alone {
                    Some(kind) => {
                        emit(tokens, kind, text_of(cs, i, i + 1));
                        assert(s.subrange(i as int, i + 1) =~= seq![c]);
                    },
                    None => {},
                }
                next = i + 1;
            }
        } else {
            next = i + 1;
        }
        assert(tokens_view(tokens@) + lex_from(s, next as int) =~= before + lex_from(s, i as int));
        i = next;
    }
}

/// No token of a line is the end-of-input marker.
pub proof fn lemma_lex_from_no_eof(s: Seq<char>, i: int)
    ensures
        forall|k: int| 0 <= k < lex_from(s, i).len() ==> (#[trigger] lex_from(s, i)[k]).0 != TokenType::EOF,
    decreases s.len() - i,
{
    if 0 <= i < s.len() {
        let c = s[i];
        if is_space(c) {
            lemma_lex_from_no_eof(s, i + 1);
        } else if is_digit(c) {
            lemma_number_end(s, i + 1);
            lemma_lex_from_no_eof(s, number_end(s, i + 1));
        } else if c == '"' {
            lemma_find_char(s, i + 1, '"');
            lemma_lex_from_no_eof(s, past(s, find_char(s, i + 1, '"')));
        } else if is_ident_start(c) {
            lemma_ident_end(s, i + 1);
            lemma_lex_from_no_eof(s, ident_end(s, i + 1));
        } else if c == '/' && char_at(s, i + 1, '/') {
            lemma_find_char(s, i + 2, '\n');
            lemma_lex_from_no_eof(s, past(s, find_char(s, i + 2, '\n')));
        } else if c == '/' || single_kind(c) is Some {
            lemma_lex_from_no_eof(s, i + 1);
        } else if pair_kinds(c) is Some && char_at(s, i + 1, '=') {
            lemma_lex_from_no_eof(s, i + 2);
        } else {
            lemma_lex_from_no_eof(s, i + 1);
        }
    }
}

proof fn lemma_lex_lines_no_eof(lines: Seq<Seq<char>>)
    ensures
        forall|k: int| 0 <= k < lex_lines(lines).len() ==> (#[trigger] lex_lines(lines)[k]).0 != TokenType::EOF,
    decreases lines.len(),
{
    if lines.len() > 0 {
        lemma_lex_lines_no_eof(lines.drop_last());
        lemma_lex_from_no_eof(lines.last(), 0);
        let a = lex_lines(lines.drop_last());
        let b = lex_from(lines.last(), 0);
        assert forall|k: int| 0 <= k < lex_lines(lines).len() implies (#[trigger] lex_lines(lines)[k]).0
            != TokenType::EOF by {
            if k >= a.len() {
                assert(lex_lines(lines)[k] == b[k - a.len()]);
            } else {
                assert(lex_lines(lines)[k] == a[k]);
            }
        }
    }
}

/// Every buffer lexes to a token sequence whose last token is the
/// end-of-input marker, and the marker appears nowhere before it.
pub proof fn law_lex_ends_with_eof(lines: Seq<Seq<char>>)
    ensures
        lex_spec(lines).len() > 0,
        lex_spec(lines).last() == eof_token(),
        forall|k: int| 0 <= k < lex_spec(lines).len() - 1 ==> (#[trigger] lex_spec(lines)[k]).0 != TokenType::EOF,
{
    lemma_lex_lines_no_eof(lines);
    assert forall|k: int| 0 <= k < lex_spec(lines).len() - 1 implies (#[trigger] lex_spec(lines)[k]).0
        != TokenType::EOF by {
        assert(lex_spec(lines)[k] == lex_lines(lines)[k]);
    }
}

/// Lexing is deterministic: two token sequences lexed from the same buffer are the same.
pub proof fn law_lex_deterministic(a: Seq<Token>, b: Seq<Token>, lines: Seq<Seq<char>>)
    requires
        tokens_view(a) == lex_spec(lines),
        tokens_view(b) == lex_spec(lines),
    ensures
        tokens_view(a) == tokens_view(b),
        a.len() == b.len(),
        forall|k: int| 0 <= k < a.len() ==> #[trigger] a[k]@ == b[k]@,
{
    assert(a.len() == tokens_view(a).len());
    assert(b.len() == tokens_view(b).len());
    assert forall|k: int| 0 <= k < a.len() implies #[trigger] a[k]@ == b[k]@ by {
        assert(tokens_view(a)[k] == a[k]@);
        assert(tokens_view(b)[k] == b[k]@);
    }
}

} // verus!
