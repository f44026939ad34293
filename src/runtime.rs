use vstd::prelude::*;

use crate::text::text_is;
use crate::token::TokenType;

verus! {

/// The integers from `start` up to, not including, `end`.
pub fn range_values(start: i32, end: i32) -> (r: Vec<i32>)
    ensures
        r@.len() == if end > start {
            end - start
        } else {
            0
        },
        forall|i: int| 0 <= i < r@.len() ==> #[trigger] r@[i] == start + i,
{
    let mut r: Vec<i32> = Vec::new();
    let mut k: i32 = start;
    while k < end
        invariant
            start <= k,
            k <= end || k == start,
            r@.len() == k - start,
            forall|i: int| 0 <= i < r@.len() ==> #[trigger] r@[i] == start + i,
        decreases end - k,
    {
        r.push(k);
        k = k + 1;
    }
    r
}

/// The elements of `left` followed by those of `right`.
pub fn concat_arrays<V>(left: Vec<V>, right: Vec<V>) -> (r: Vec<V>)
    ensures
        r@ == left@ + right@,
{
    let mut r = left;
    let mut right = right;
    r.append(&mut right);
    r
}

/// Whether `path` is in `imported`.
pub open spec fn seen(imported: Seq<String>, path: Seq<char>) -> bool {
    exists|i: int| 0 <= i < imported.len() && #[trigger] imported[i]@ == path
}

/// What recording an import does: a path seen before leaves the list as it
/// was and answers `false`; a new one is appended and answers `true`.
pub open spec fn import_step(before: Seq<String>, path: Seq<char>, fresh: bool, after: Seq<String>) -> bool {
    &&& fresh == !seen(before, path)
    &&& if fresh {
        after.len() == before.len() + 1 && after.take(before.len() as int) == before
            && after.last()@ == path
    } else {
        after == before
    }
}

/// Records `path` as imported; answers whether it was new.
pub fn record_import(imported: &mut Vec<String>, path: &String) -> (r: bool)
    ensures
        import_step(old(imported)@, path@, r, final(imported)@),
{
    let mut i: usize = 0;
    while i < imported.len()
        invariant
            i <= imported@.len(),
            forall|j: int| 0 <= j < i ==> imported@[j]@ != path@,
        decreases imported@.len() - i,
    {
        if imported[i] == *path {
            return false;
        }
        i = i + 1;
    }
    imported.push(path.clone());
    assert(imported@.take(old(imported)@.len() as int) =~= old(imported)@);
    true
}

/// Recording the same import twice changes nothing the second time: the
/// second call answers `false` and leaves the list as the first call left it.
pub proof fn law_import_idempotent(
    start: Seq<String>,
    path: Seq<char>,
    first: bool,
    mid: Seq<String>,
    second: bool,
    end: Seq<String>,
)
    requires
        import_step(start, path, first, mid),
        import_step(mid, path, second, end),
    ensures
        !second,
        end == mid,
        seen(end, path),
{
    if first {
        assert(mid[mid.len() - 1]@ == path);
    } else {
        let i = choose|i: int| 0 <= i < start.len() && #[trigger] start[i]@ == path;
        assert(mid[i]@ == path);
    }
}

/// Whether a string counts as true: all but the empty string, `false` and `0`.
pub open spec fn text_truthy(s: Seq<char>) -> bool {
    !(s.len() == 0 || s == "false"@ || s == "0"@)
}

/// Whether a string reads as a yes: `true`, `1` or `yes`.
pub open spec fn text_affirmative(s: Seq<char>) -> bool {
    s == "true"@ || s == "1"@ || s == "yes"@
}

pub fn string_truthy(s: &String) -> (r: bool)
    ensures
        r == text_truthy(s@),
{
    proof {
        reveal_strlit("");
        assert(s@.len() == 0 ==> s@ =~= ""@);
    }
    !(text_is(s, "") || text_is(s, "false") || text_is(s, "0"))
}

pub fn parse_bool_text(s: &String) -> (r: bool)
    ensures
        r == text_affirmative(s@),
{
    text_is(s, "true") || text_is(s, "1") || text_is(s, "yes")
}

/// The parts joined with `sep` between each two.
pub open spec fn joined(parts: Seq<Seq<char>>, sep: Seq<char>) -> Seq<char>
    decreases parts.len(),
{
    if parts.len() == 0 {
        Seq::empty()
    } else if parts.len() == 1 {
        parts[0]
    } else {
        joined(parts.drop_last(), sep) + sep + parts.last()
    }
}

/// The parts joined with `sep`, in square brackets.
pub fn bracket_list(parts: &Vec<String>, sep: &str) -> (r: String)
    ensures
        r@ == "["@ + joined(parts@.map_values(|p: String| p@), sep@) + "]"@,
{
    let ghost views = parts@.map_values(|p: String| p@);
    let mut body = String::new();
    let mut i: usize = 0;
    while i < parts.len()
        invariant
            i <= parts@.len(),
            views == parts@.map_values(|p: String| p@),
            body@ == joined(views.take(i as int), sep@),
        decreases parts@.len() - i,
    {
        assert(views.take(i + 1).drop_last() =~= views.take(i as int));
        if i > 0 {
            body.append(sep);
        } else {
            assert(views.take(0) =~= Seq::<Seq<char>>::empty());
        }
        body.append(parts[i].as_str());
        i = i + 1;
    }
    assert(views.take(i as int) =~= views);
    let mut r = "[".to_string();
    r.append(body.as_str());
    r.append("]");
    r
}

/// A string in double quotes, as written without escapes.
pub fn quoted(s: &String) -> (r: String)
    ensures
        r@ == "\""@ + s@ + "\""@,
{
    let mut r = "\"".to_string();
    r.append(s.as_str());
    r.append("\"");
    r
}

/// One value as `to_json` shows it inside an array: a string to be quoted,
/// text shown as it is (a number or a boolean), a nested array, or anything
/// else.
pub enum JsonPiece {
    Text(String),
    Plain(String),
    List,
    Null,
}

pub open spec fn json_text(p: JsonPiece) -> Seq<char> {
    match p {
        JsonPiece::Text(s) => "\""@ + s@ + "\""@,
        JsonPiece::Plain(s) => s@,
        JsonPiece::List => "[...]"@,
        JsonPiece::Null => "null"@,
    }
}

/// The JSON text of one piece.
pub fn render_json_piece(p: &JsonPiece) -> (r: String)
    ensures
        r@ == json_text(*p),
{
    match p {
        JsonPiece::Text(s) => quoted(s),
        JsonPiece::Plain(s) => s.clone(),
        JsonPiece::List => "[...]".to_string(),
        JsonPiece::Null => "null".to_string(),
    }
}

/// The JSON text of an array: its pieces' texts joined with commas, in brackets.
pub fn render_json_array(items: &Vec<JsonPiece>) -> (r: String)
    ensures
        r@ == "["@ + joined(items@.map_values(|p: JsonPiece| json_text(p)), ","@) + "]"@,
{
    let mut parts: Vec<String> = Vec::new();
    let mut i: usize = 0;
    while i < items.len()
        invariant
            i <= items@.len(),
            parts@.len() == i,
            forall|j: int| 0 <= j < i ==> #[trigger] parts@[j]@ == json_text(items@[j]),
        decreases items@.len() - i,
    {
        parts.push(render_json_piece(&items[i]));
        i = i + 1;
    }
    let r = bracket_list(&parts, ",");
    assert(parts@.map_values(|p: String| p@) =~= items@.map_values(|p: JsonPiece| json_text(p)));
    r
}

/// The kind of a runtime value.
#[derive(Debug, Clone, Copy, PartialEq, Eq, Structural)]
pub enum Kind {
    Number,
    String,
    Boolean,
    Array,
    Function,
    Transformer,
    Nil,
}

/// What a binary operator does with operands of given kinds.
#[derive(Debug, Clone, Copy, PartialEq, Eq, Structural)]
pub enum BinaryRule {
    /// Both numbers: the arithmetic operation.
    Arithmetic,
    /// A string on either side: the two textual renderings joined.
    Concat,
    /// Both arrays: the elements of the left, then those of the right.
    Join,
    /// Both numbers: the comparison, as a boolean.
    Compare,
    /// Both booleans: strict conjunction or disjunction.
    Logic,
    /// Any operands: equality, or its negation for `!=`.
    Equality,
    /// Operands of kinds the operator does not take.
    Invalid,
    /// The token is no binary operator.
    Unknown,
}

/// What a unary operator does with an operand of a given kind.
#[derive(Debug, Clone, Copy, PartialEq, Eq, Structural)]
pub enum UnaryRule {
    Negate,
    Invert,
    Invalid,
    Unknown,
}

pub open spec fn is_arithmetic(op: TokenType) -> bool {
    op == TokenType::Minus || op == TokenType::Multiply || op == TokenType::Divide || op == TokenType::Modulo
}

pub open spec fn is_comparison(op: TokenType) -> bool {
    op == TokenType::LessThan || op == TokenType::LessThanEqual || op == TokenType::GreaterThan
        || op == TokenType::GreaterThanEqual
}

/// The operator table: which operand kinds each binary operator takes.
pub open spec fn binary_rule_of(op: TokenType, l: Kind, r: Kind) -> BinaryRule {
    let numbers = l == Kind::Number && r == Kind::Number;
    if op == TokenType::Plus {
        if numbers {
            BinaryRule::Arithmetic
        } else if l == Kind::String || r == Kind::String {
            BinaryRule::Concat
        } else if l == Kind::Array && r == Kind::Array {
            BinaryRule::Join
        } else {
            BinaryRule::Invalid
        }
    } else if is_arithmetic(op) {
        if numbers {
            BinaryRule::Arithmetic
        } else {
            BinaryRule::Invalid
        }
    } else if is_comparison(op) {
        if numbers {
            BinaryRule::Compare
        } else {
            BinaryRule::Invalid
        }
    } else if op == TokenType::EqualEqual || op == TokenType::BangEqual {
        BinaryRule::Equality
    } else if op == TokenType::And || op == TokenType::Or {
        if l == Kind::Boolean && r == Kind::Boolean {
            BinaryRule::Logic
        } else {
            BinaryRule::Invalid
        }
    } else {
        BinaryRule::Unknown
    }
}

pub open spec fn unary_rule_of(op: TokenType, k: Kind) -> UnaryRule {
    if op == TokenType::Minus {
        if k == Kind::Number {
            UnaryRule::Negate
        } else {
            UnaryRule::Invalid
        }
    } else if op == TokenType::Not {
        if k == Kind::Boolean {
            UnaryRule::Invert
        } else {
            UnaryRule::Invalid
        }
    } else {
        UnaryRule::Unknown
    }
}

/// How the binary operator `op` treats operands of kinds `l` and `r`.
pub fn binary_rule(op: TokenType, l: Kind, r: Kind) -> (rule: BinaryRule)
    ensures
        rule == binary_rule_of(op, l, r),
{
    let numbers = l == Kind::Number && r == Kind::Number;
    match op {
        TokenType::Plus => if numbers {
            BinaryRule::Arithmetic
        } else if l == Kind::String || r == Kind::String {
            BinaryRule::Concat
        } else if l == Kind::Array && r == Kind::Array {
            BinaryRule::Join
        } else {
            BinaryRule::Invalid
        },
        TokenType::Minus | TokenType::Multiply | TokenType::Divide | TokenType::Modulo => if numbers {
            BinaryRule::Arithmetic
        } else {
            BinaryRule::Invalid
        },
        TokenType::LessThan | TokenType::LessThanEqual | TokenType::GreaterThan | TokenType::GreaterThanEqual => {
            if numbers {
                BinaryRule::Compare
            } else {
                BinaryRule::Invalid
            }
        },
        TokenType::EqualEqual | TokenType::BangEqual => BinaryRule::Equality,
        TokenType::And | TokenType::Or => if l == Kind::Boolean && r == Kind::Boolean {
            BinaryRule::Logic
        } else {
            BinaryRule::Invalid
        },
        _ => BinaryRule::Unknown,
    }
}

/// How the unary operator `op` treats an operand of kind `k`.
pub fn unary_rule(op: TokenType, k: Kind) -> (rule: UnaryRule)
    ensures
        rule == unary_rule_of(op, k),
{
    match op {
        TokenType::Minus => if k == Kind::Number {
            UnaryRule::Negate
        } else {
            UnaryRule::Invalid
        },
        TokenType::Not => if k == Kind::Boolean {
            UnaryRule::Invert
        } else {
            UnaryRule::Invalid
        },
        _ => UnaryRule::Unknown,
    }
}

/// Arithmetic never fails on kinds: any two numbers are taken by `+ - * / %`.
pub proof fn law_numbers_closed(op: TokenType)
    requires
        op == TokenType::Plus || is_arithmetic(op),
    ensures
        binary_rule_of(op, Kind::Number, Kind::Number) == BinaryRule::Arithmetic,
{
}

} // verus!
