use mscript::runtime::{
    bracket_list, concat_arrays, parse_bool_text, quoted, range_values, record_import, render_json_array,
    render_json_piece, string_truthy, binary_rule, unary_rule, BinaryRule, JsonPiece, Kind, UnaryRule,
};
use mscript::token::TokenType;
use mscript::text::{chars_of, text_of};

#[test]
fn range_counts_up() {
    assert_eq!(range_values(1, 6), vec![1, 2, 3, 4, 5]);
    assert_eq!(range_values(-2, 1), vec![-2, -1, 0]);
    let r = range_values(3, 10);
    assert_eq!(r.len(), 7);
    for (i, v) in r.iter().enumerate() {
        assert_eq!(*v, 3 + i as i32);
    }
}

#[test]
fn range_empty_when_end_not_after_start() {
    assert!(range_values(5, 2).is_empty());
    assert!(range_values(4, 4).is_empty());
}

#[test]
fn range_sum_is_fifteen() {
    let s: i32 = range_values(1, 6).iter().sum();
    assert_eq!(s, 15);
}

#[test]
fn array_concatenation() {
    let r = concat_arrays(vec![1, 2], vec![3]);
    assert_eq!(r[2], 3);
    assert_eq!(r.len(), 3);
    assert_eq!(r, vec![1, 2, 3]);
    assert_eq!(concat_arrays(Vec::<i32>::new(), vec![7]), vec![7]);
}

#[test]
fn import_recorded_once() {
    let mut seen: Vec<String> = Vec::new();
    assert!(record_import(&mut seen, &"lib.m".to_string()));
    assert!(!record_import(&mut seen, &"lib.m".to_string()));
    assert_eq!(seen, vec!["lib.m".to_string()]);
    assert!(record_import(&mut seen, &"other.m".to_string()));
    assert_eq!(seen.len(), 2);
}

#[test]
fn string_truthiness() {
    assert!(!string_truthy(&"".to_string()));
    assert!(!string_truthy(&"false".to_string()));
    assert!(!string_truthy(&"0".to_string()));
    assert!(string_truthy(&"no".to_string()));
    assert!(string_truthy(&"00".to_string()));
}

#[test]
fn parse_bool_words() {
    assert!(parse_bool_text(&"true".to_string()));
    assert!(parse_bool_text(&"1".to_string()));
    assert!(parse_bool_text(&"yes".to_string()));
    assert!(!parse_bool_text(&"True".to_string()));
    assert!(!parse_bool_text(&"".to_string()));
}

#[test]
fn json_list_rendering() {
    let parts = vec!["1".to_string(), quoted(&"two".to_string()), "true".to_string()];
    assert_eq!(bracket_list(&parts, ","), "[1,\"two\",true]");
    let shown = vec!["1".to_string(), "two".to_string(), "true".to_string()];
    assert_eq!(bracket_list(&shown, ", "), "[1, two, true]");
    assert_eq!(bracket_list(&Vec::new(), ","), "[]");
}

#[test]
fn quoting() {
    assert_eq!(quoted(&"two".to_string()), "\"two\"");
    assert_eq!(quoted(&String::new()), "\"\"");
}

#[test]
fn characters_and_slices() {
    let cs = chars_of("a\u{e9}c");
    assert_eq!(cs, vec!['a', '\u{e9}', 'c']);
    assert_eq!(text_of(&cs, 1, 3), "\u{e9}c");
    assert_eq!(text_of(&cs, 2, 2), "");
}

#[test]
fn json_array_of_mixed_values() {
    let items = vec![
        JsonPiece::Plain("1".to_string()),
        JsonPiece::Text("two".to_string()),
        JsonPiece::Plain("true".to_string()),
    ];
    assert_eq!(render_json_array(&items), "[1,\"two\",true]");
}

#[test]
fn json_nested_and_null() {
    let items = vec![JsonPiece::List, JsonPiece::Null, JsonPiece::Text(String::new())];
    assert_eq!(render_json_array(&items), "[[...],null,\"\"]");
    assert_eq!(render_json_array(&Vec::new()), "[]");
    assert_eq!(render_json_piece(&JsonPiece::Text("a".to_string())), "\"a\"");
    assert_eq!(render_json_piece(&JsonPiece::Null), "null");
}

#[test]
fn operator_table() {
    assert_eq!(binary_rule(TokenType::Plus, Kind::Number, Kind::Number), BinaryRule::Arithmetic);
    assert_eq!(binary_rule(TokenType::Plus, Kind::String, Kind::Array), BinaryRule::Concat);
    assert_eq!(binary_rule(TokenType::Plus, Kind::Nil, Kind::String), BinaryRule::Concat);
    assert_eq!(binary_rule(TokenType::Plus, Kind::Array, Kind::Array), BinaryRule::Join);
    assert_eq!(binary_rule(TokenType::Plus, Kind::Array, Kind::Number), BinaryRule::Invalid);
    assert_eq!(binary_rule(TokenType::Modulo, Kind::Number, Kind::Number), BinaryRule::Arithmetic);
    assert_eq!(binary_rule(TokenType::Minus, Kind::String, Kind::String), BinaryRule::Invalid);
    assert_eq!(binary_rule(TokenType::LessThan, Kind::Number, Kind::Number), BinaryRule::Compare);
    assert_eq!(binary_rule(TokenType::GreaterThanEqual, Kind::String, Kind::String), BinaryRule::Invalid);
    assert_eq!(binary_rule(TokenType::BangEqual, Kind::Nil, Kind::Number), BinaryRule::Equality);
    assert_eq!(binary_rule(TokenType::And, Kind::Boolean, Kind::Boolean), BinaryRule::Logic);
    assert_eq!(binary_rule(TokenType::Or, Kind::Boolean, Kind::Number), BinaryRule::Invalid);
    assert_eq!(binary_rule(TokenType::Comma, Kind::Number, Kind::Number), BinaryRule::Unknown);
    assert_eq!(unary_rule(TokenType::Minus, Kind::Number), UnaryRule::Negate);
    assert_eq!(unary_rule(TokenType::Not, Kind::Boolean), UnaryRule::Invert);
    assert_eq!(unary_rule(TokenType::Not, Kind::Number), UnaryRule::Invalid);
    assert_eq!(unary_rule(TokenType::Plus, Kind::Number), UnaryRule::Unknown);
}
