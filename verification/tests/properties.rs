use pinch::config::OutputFormat;
use pinch::output::render_map;
use pinch::properties::{flatten_json_value, JsonTree};

fn s(v: &str) -> JsonTree {
    JsonTree::Str(v.to_string())
}

fn obj(fields: Vec<(&str, JsonTree)>) -> JsonTree {
    JsonTree::Object(fields.into_iter().map(|(k, v)| (k.to_string(), v)).collect())
}

fn pairs(entries: &[(String, String)]) -> Vec<(&str, &str)> {
    entries.iter().map(|(k, v)| (k.as_str(), v.as_str())).collect()
}

#[test]
fn flatten_nested_objects_by_dotted_path() {
    let doc = obj(vec![
        ("name", s("demo")),
        ("proc", obj(vec![("title", s("web")), ("restart", JsonTree::Bool(true))])),
        ("port", JsonTree::Number("8080".to_string())),
    ]);
    let entries = flatten_json_value(&doc);
    assert_eq!(
        pairs(&entries),
        vec![("name", "demo"), ("port", "8080"), ("proc.restart", "true"), ("proc.title", "web")]
    );
}

#[test]
fn flatten_joins_arrays_of_scalars() {
    let doc = obj(vec![(
        "cmd",
        JsonTree::Array(vec![s("ping"), JsonTree::Number("3".to_string()), JsonTree::Bool(false)]),
    )]);
    assert_eq!(pairs(&flatten_json_value(&doc)), vec![("cmd", "ping,3,false")]);
}

#[test]
fn flatten_numbers_items_of_mixed_arrays_and_skips_null() {
    let doc = obj(vec![(
        "items",
        JsonTree::Array(vec![obj(vec![("a", s("x")), ("b", JsonTree::Null)]), s("y")]),
    )]);
    assert_eq!(pairs(&flatten_json_value(&doc)), vec![("items.0.a", "x"), ("items.1", "y")]);
}

#[test]
fn flatten_empty_array_is_empty_value() {
    let doc = obj(vec![("env", JsonTree::Array(vec![])), ("cwd", JsonTree::Null)]);
    assert_eq!(pairs(&flatten_json_value(&doc)), vec![("env", "")]);
}

#[test]
fn flatten_later_field_wins_on_same_path() {
    let doc = obj(vec![("a.b", s("first")), ("a", obj(vec![("b", s("second"))]))]);
    assert_eq!(pairs(&flatten_json_value(&doc)), vec![("a.b", "second")]);
}

#[test]
fn flatten_scalar_document_has_empty_key() {
    assert_eq!(pairs(&flatten_json_value(&s("lone"))), vec![("", "lone")]);
    assert!(flatten_json_value(&JsonTree::Null).is_empty());
}

#[test]
fn flattened_document_renders_as_properties() {
    let doc = obj(vec![("name", s("demo")), ("vars", obj(vec![("env", s("dev"))]))]);
    let entries = flatten_json_value(&doc);
    assert_eq!(
        render_map(&entries, Some(OutputFormat::Properties)),
        Ok("name=demo\nvars.env=dev\n".to_string())
    );
    assert_eq!(render_map(&entries, Some(OutputFormat::Raw)), Ok("name\tdemo\nvars.env\tdev\n".to_string()));
}
