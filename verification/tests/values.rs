use lambda_nodes::text::{has_prefix, str_eq, strip_prefix_rep};
use lambda_nodes::value::{Record, Value};

#[test]
fn record_lookup_returns_latest_binding() {
    let mut rec = Record::new();
    rec.insert("port".to_string(), Value::Int(1));
    rec.insert("other".to_string(), Value::Bool(true));
    rec.insert("port".to_string(), Value::Int(2));
    assert_eq!(rec.get("port"), Some(&Value::Int(2)));
    assert_eq!(rec.get("other"), Some(&Value::Bool(true)));
    assert_eq!(rec.get("absent"), None);
}

#[test]
fn empty_record_has_no_entries() {
    let rec = Record::new();
    assert_eq!(rec.get(""), None);
    assert_eq!(rec.get("data"), None);
}

#[test]
fn value_clone_preserves_contents() {
    let vals = vec![
        Value::Null,
        Value::Bool(false),
        Value::Int(-7),
        Value::Text("hello".to_string()),
        Value::Json("[1,2,3]".to_string()),
    ];
    for v in &vals {
        assert_eq!(&v.clone(), v);
    }
}

#[test]
fn strip_prefix_rep_removes_every_leading_occurrence() {
    assert_eq!(strip_prefix_rep("output-out", "output-"), "out");
    assert_eq!(strip_prefix_rep("output-output-x", "output-"), "x");
    assert_eq!(strip_prefix_rep("input-data", "input-"), "data");
    assert_eq!(strip_prefix_rep("data", "input-"), "data");
    assert_eq!(strip_prefix_rep("", "input-"), "");
    assert_eq!(strip_prefix_rep("abc", ""), "abc");
    assert_eq!(strip_prefix_rep("aaab", "a"), "b");
}

#[test]
fn has_prefix_checks_leading_characters() {
    assert!(has_prefix("output-out", "output-"));
    assert!(has_prefix("anything", ""));
    assert!(!has_prefix("out", "output-"));
    assert!(!has_prefix("xoutput-", "output-"));
}

#[test]
fn str_eq_compares_characters() {
    assert!(str_eq("to-node", "to-node"));
    assert!(!str_eq("to-node", "from-node"));
    assert!(str_eq("", ""));
    assert!(!str_eq("a", ""));
}
