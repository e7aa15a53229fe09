//! Unit tests of the pure pieces: decimal rendering, symbol-name
//! analysis, the command-line word splitter, value printing and deep
//! copies.

use slsh::shell::parse_one_run_command_line;
use slsh::strutil::{i64_to_string, split_double_colon, str_eq, u64_to_string};
use slsh::types::{Atom, Expression};

fn sym(s: &str) -> Expression {
    Expression::Atom(Atom::Symbol(s.to_string()))
}

fn intv(i: i64) -> Expression {
    Expression::Atom(Atom::Int(i))
}

#[test]
fn decimal_rendering() {
    assert_eq!(u64_to_string(0), "0");
    assert_eq!(u64_to_string(7), "7");
    assert_eq!(u64_to_string(12034), "12034");
    assert_eq!(i64_to_string(-1), "-1");
    assert_eq!(i64_to_string(i64::MIN), "-9223372036854775808");
    assert_eq!(i64_to_string(i64::MAX), "9223372036854775807");
}

#[test]
fn double_colon_splitting() {
    assert_eq!(
        split_double_colon("ns::name"),
        Some(("ns".to_string(), "name".to_string()))
    );
    assert_eq!(
        split_double_colon("a::b::c"),
        Some(("a".to_string(), "b::c".to_string()))
    );
    assert_eq!(split_double_colon("plain"), None);
    assert_eq!(split_double_colon(""), None);
    assert_eq!(split_double_colon("::x"), Some(("".to_string(), "x".to_string())));
}

#[test]
fn string_equality_by_characters() {
    assert!(str_eq("abc", "abc"));
    assert!(!str_eq("abc", "abd"));
    assert!(!str_eq("abc", "abcd"));
    assert!(str_eq("", ""));
}

#[test]
fn word_splitting_for_command_mode() {
    let mut words: Vec<String> = Vec::new();
    parse_one_run_command_line("ls -l  file", &mut words).unwrap();
    assert_eq!(words, vec!["ls", "-l", "file"]);

    let mut quoted: Vec<String> = Vec::new();
    parse_one_run_command_line("grep 'a b' \"c d\"", &mut quoted).unwrap();
    assert_eq!(quoted, vec!["grep", "a b", "c d"]);

    let mut appended: Vec<String> = vec!["keep".to_string()];
    parse_one_run_command_line("x", &mut appended).unwrap();
    assert_eq!(appended, vec!["keep", "x"]);

    let mut empty: Vec<String> = Vec::new();
    parse_one_run_command_line("   ", &mut empty).unwrap();
    assert!(empty.is_empty());
}

#[test]
fn value_printing() {
    let v = Expression::Vector(vec![sym("a"), intv(1)]);
    assert_eq!(v.to_string(), "( a 1 )");
    let chain = Expression::Pair(
        Box::new(sym("x")),
        Box::new(Expression::Pair(Box::new(sym("y")), Box::new(Expression::Atom(Atom::Nil)))),
    );
    assert_eq!(chain.to_string(), "#( x y )");
    let dotted = Expression::Pair(Box::new(sym("x")), Box::new(sym("y")));
    assert_eq!(dotted.to_string(), "( x . y )");
    assert_eq!(Expression::Atom(Atom::Nil).to_string(), "nil");
    assert_eq!(intv(-12).to_string(), "-12");
    assert_eq!(Expression::Atom(Atom::Str("s".to_string())).to_string(), "s");
}

#[test]
fn deep_copy_preserves_structure() {
    let source = Expression::Vector(vec![
        sym("head"),
        Expression::Pair(Box::new(intv(1)), Box::new(intv(2))),
        Expression::Atom(Atom::Str("text".to_string())),
    ]);
    let copy = source.duplicate();
    assert_eq!(copy.to_string(), source.to_string());
}

#[test]
fn truthiness_test_function() {
    assert!(!Expression::Atom(Atom::Nil).truthy());
    assert!(Expression::Atom(Atom::True).truthy());
    assert!(intv(0).truthy());
    assert!(Expression::Atom(Atom::Str(String::new())).truthy());
    assert!(Expression::Vector(vec![]).truthy());
}

#[test]
fn chain_collection() {
    let chain = Expression::Pair(
        Box::new(intv(1)),
        Box::new(Expression::Pair(Box::new(intv(2)), Box::new(Expression::Atom(Atom::Nil)))),
    );
    let items = chain.collect_chain().unwrap();
    assert_eq!(items.len(), 2);
    assert_eq!(items[0].to_string(), "1");
    assert_eq!(items[1].to_string(), "2");
    let dotted = Expression::Pair(Box::new(intv(1)), Box::new(intv(2)));
    assert!(dotted.collect_chain().is_none());
}
