use embedded_nix::diagnostic::{
    describe_diagnostic, flatten_diagnostic, flatten_diagnostics, join_with_newlines, Diagnostic,
};
use embedded_nix::output::evaluation_text;
use embedded_nix::value::{Attrs, Value};

fn leaf(kind: &str, span: &str) -> Diagnostic {
    Diagnostic { kind: kind.to_string(), span: span.to_string(), cause: None }
}

fn wrap(kind: &str, span: &str, inner: Diagnostic) -> Diagnostic {
    Diagnostic { kind: kind.to_string(), span: span.to_string(), cause: Some(Box::new(inner)) }
}

#[test]
fn single_diagnostic_line() {
    let d = leaf("DivisionByZero", "Span { lo: 0, hi: 5 }");
    assert_eq!(describe_diagnostic(&d), "Kind: DivisionByZero, Span: Span { lo: 0, hi: 5 }");
    assert_eq!(flatten_diagnostic(&d), "Kind: DivisionByZero, Span: Span { lo: 0, hi: 5 }");
}

#[test]
fn chain_of_depth_three_gives_three_lines_outer_first() {
    let d = wrap("Native1", "s1", wrap("Native2", "s2", leaf("Inner", "s3")));
    let text = flatten_diagnostic(&d);
    let lines: Vec<&str> = text.split('\n').collect();
    assert_eq!(
        lines,
        vec!["Kind: Native1, Span: s1", "Kind: Native2, Span: s2", "Kind: Inner, Span: s3"]
    );
}

#[test]
fn several_chains_in_reported_order() {
    let ds = vec![wrap("W", "a", leaf("X", "b")), leaf("Y", "c")];
    assert_eq!(
        flatten_diagnostics(&ds),
        "Kind: W, Span: a\nKind: X, Span: b\nKind: Y, Span: c"
    );
    assert_eq!(flatten_diagnostics(&Vec::new()), "");
}

#[test]
fn unbound_variable_line_names_kind_and_span() {
    let d = leaf("UnknownStaticVariable", "Span { lo: 0, hi: 3 }");
    let text = flatten_diagnostics(&vec![d]);
    let first = text.lines().next().unwrap();
    assert!(first.contains("UnknownStaticVariable"));
    assert!(first.contains("Span { lo: 0, hi: 3 }"));
}

#[test]
fn join_puts_breaks_between_only() {
    assert_eq!(join_with_newlines(&vec![]), "");
    assert_eq!(join_with_newlines(&vec!["a".to_string()]), "a");
    assert_eq!(join_with_newlines(&vec!["a".to_string(), "".to_string(), "b".to_string()]), "a\n\nb");
}

#[test]
fn outcome_prefers_errors_then_value() {
    let v = Value::Other("1".to_string());
    assert_eq!(evaluation_text(Some(&v), &vec![leaf("K", "S")]), "Kind: K, Span: S");
    assert_eq!(evaluation_text(Some(&v), &Vec::new()), "1");
    assert_eq!(evaluation_text(Some(&Value::Attrs(Attrs::new())), &Vec::new()), "{\n}");
    assert_eq!(evaluation_text(None, &Vec::new()), "(no value)");
}
