use pinch::vars::{apply_vars, StrMap};

fn vars(pairs: &[(&str, &str)]) -> StrMap<String> {
    let mut m = StrMap::new();
    for (k, v) in pairs {
        m.insert(k.to_string(), v.to_string());
    }
    m
}

#[test]
fn substitutes_known_var() {
    let v = vars(&[("name", "acme")]);
    assert_eq!(apply_vars("hello {{name}}!", &v), "hello acme!");
}

#[test]
fn leaves_unknown_var_verbatim() {
    let v = vars(&[("name", "acme")]);
    assert_eq!(apply_vars("hi {{missing}}", &v), "hi {{missing}}");
}

#[test]
fn trims_whitespace_around_key() {
    let v = vars(&[("name", "acme")]);
    assert_eq!(apply_vars("hi {{ name }}", &v), "hi acme");
}

#[test]
fn substitutes_multiple_vars_in_one_string() {
    let v = vars(&[("a", "1"), ("b", "2")]);
    assert_eq!(apply_vars("{{a}}-{{b}}", &v), "1-2");
}

#[test]
fn passes_through_text_without_placeholders() {
    let v = vars(&[("a", "1")]);
    assert_eq!(apply_vars("plain text", &v), "plain text");
}

#[test]
fn substitution_is_textual_and_never_adds_quotes() {
    let v = vars(&[("dir", "/path with spaces"), ("q", r#"a"b"#)]);
    assert_eq!(apply_vars("cd {{dir}}", &v), "cd /path with spaces");
    assert_eq!(apply_vars(r#"cd "{{dir}}""#, &v), r#"cd "/path with spaces""#);
    assert_eq!(apply_vars("echo {{q}}", &v), r#"echo a"b"#);
}

#[test]
fn leaves_unclosed_placeholder_verbatim() {
    let v = vars(&[("a", "1")]);
    assert_eq!(apply_vars("oops {{a", &v), "oops {{a");
}

#[test]
fn expansion_without_variables_is_the_identity() {
    let v = vars(&[]);
    assert_eq!(apply_vars("a {{ b }} {{c}} {{", &v), "a {{ b }} {{c}} {{");
}

#[test]
fn a_value_is_not_expanded_again() {
    let v = vars(&[("a", "{{b}}"), ("b", "x")]);
    assert_eq!(apply_vars("{{a}}", &v), "{{b}}");
}

#[test]
fn later_insert_of_a_key_wins() {
    let mut m = vars(&[("k", "1")]);
    m.insert("k".to_string(), "2".to_string());
    assert_eq!(m.len(), 1);
    assert_eq!(m.get("k").map(|s| s.as_str()), Some("2"));
    assert_eq!(apply_vars("{{k}}", &m), "2");
}

#[test]
fn from_pairs_keeps_the_last_pair_of_a_key() {
    let pairs = vec![
        ("a".to_string(), "1".to_string()),
        ("b".to_string(), "2".to_string()),
        ("a".to_string(), "3".to_string()),
    ];
    let m = StrMap::from_pairs(&pairs);
    assert_eq!(m.len(), 2);
    assert_eq!(m.get("a").map(|s| s.as_str()), Some("3"));
}

#[test]
fn sorted_entries_are_in_key_order() {
    let m = vars(&[("zeta", "1"), ("alpha", "2"), ("mid", "3")]);
    let sorted = pinch::vars::sorted_entries(&m);
    let keys: Vec<&str> = sorted.iter().map(|(k, _)| k.as_str()).collect();
    assert_eq!(keys, vec!["alpha", "mid", "zeta"]);
}
