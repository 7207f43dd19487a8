use embedded_nix::render::{indent, pretty_print_value};
use embedded_nix::value::{key_less, Attrs, Value};

fn other(s: &str) -> Value {
    Value::Other(s.to_string())
}

fn attrs(pairs: &[(&str, Value)]) -> Attrs {
    let mut a = Attrs::new();
    for (k, v) in pairs {
        let v = match v {
            Value::Other(s) => Value::Other(s.clone()),
            _ => panic!("only plain values here"),
        };
        a.insert(k.to_string(), v);
    }
    a
}

#[test]
fn empty_attrs_and_list() {
    assert_eq!(pretty_print_value(&Value::Attrs(Attrs::new()), 0), "{\n}");
    assert_eq!(pretty_print_value(&Value::List(Vec::new()), 0), "[\n]");
}

#[test]
fn empty_attrs_at_depth_one() {
    assert_eq!(pretty_print_value(&Value::Attrs(Attrs::new()), 1), "{\n  }");
}

#[test]
fn scalar_is_its_own_text() {
    assert_eq!(pretty_print_value(&other("1"), 0), "1");
    assert_eq!(pretty_print_value(&other("\"hi\""), 3), "\"hi\"");
}

#[test]
fn keys_come_out_sorted_whatever_the_insertion_order() {
    let a = attrs(&[("b", other("2")), ("a", other("1")), ("c", other("3"))]);
    let b = attrs(&[("c", other("3")), ("a", other("1")), ("b", other("2"))]);
    let expected = "{\n  a = 1\n  b = 2\n  c = 3\n}";
    assert_eq!(pretty_print_value(&Value::Attrs(a), 0), expected);
    assert_eq!(pretty_print_value(&Value::Attrs(b), 0), expected);
}

#[test]
fn insert_replaces_an_equal_key() {
    let mut a = attrs(&[("x", other("1")), ("y", other("2"))]);
    a.insert("x".to_string(), other("9"));
    assert_eq!(a.len(), 2);
    assert_eq!(pretty_print_value(&Value::Attrs(a), 0), "{\n  x = 9\n  y = 2\n}");
}

#[test]
fn lists_keep_their_order() {
    let l = Value::List(vec![other("3"), other("1"), other("2")]);
    assert_eq!(pretty_print_value(&l, 0), "[\n  3\n  1\n  2\n]");
}

#[test]
fn nested_values_indent_by_two_spaces() {
    let mut a = Attrs::new();
    a.insert("xs".to_string(), Value::List(vec![other("1"), other("2")]));
    let mut inner = Attrs::new();
    inner.insert("k".to_string(), other("true"));
    a.insert("a".to_string(), Value::Attrs(inner));
    assert_eq!(
        pretty_print_value(&Value::Attrs(a), 0),
        "{\n  a = {\n    k = true\n  }\n  xs = [\n    1\n    2\n  ]\n}"
    );
}

#[test]
fn rendering_twice_gives_the_same_text() {
    let v = Value::List(vec![Value::Attrs(attrs(&[("z", other("0")), ("y", other("1"))])), other("x")]);
    assert_eq!(pretty_print_value(&v, 0), pretty_print_value(&v, 0));
    assert_eq!(pretty_print_value(&v, 0), "[\n  {\n    y = 1\n    z = 0\n  }\n  x\n]");
}

#[test]
fn indent_is_two_spaces_per_level() {
    assert_eq!(indent(0), "");
    assert_eq!(indent(3), "      ");
}

#[test]
fn key_order_is_by_code_point() {
    let s = |x: &str| x.to_string();
    assert!(key_less(&s("a"), &s("b")));
    assert!(!key_less(&s("b"), &s("a")));
    assert!(key_less(&s("ab"), &s("abc")));
    assert!(!key_less(&s("abc"), &s("ab")));
    assert!(!key_less(&s("same"), &s("same")));
    assert!(key_less(&s("Z"), &s("a")));
    assert!(key_less(&s("z"), &s("\u{e9}")));
}
