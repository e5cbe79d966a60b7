use configurations::merge::merge_yaml;
use serde_yaml::Value;

fn doc(text: &str) -> Value {
    serde_yaml::from_str(text).unwrap()
}

fn keys(v: &Value) -> Vec<String> {
    v.as_mapping()
        .unwrap()
        .keys()
        .map(|k| k.as_str().unwrap().to_string())
        .collect()
}

#[test]
fn later_scalar_overrides_earlier() {
    let mut a = doc("version: 1\ndaemon: false\nnonoverride: 3");
    merge_yaml(&mut a, doc("daemon: true"));
    assert_eq!(a, doc("version: 1\ndaemon: true\nnonoverride: 3"));
    assert_eq!(keys(&a), vec!["version", "daemon", "nonoverride"]);
}

#[test]
fn new_keys_go_to_the_end() {
    let mut a = doc("b: 1\na: 2");
    merge_yaml(&mut a, doc("c: 3\na: 4\nd: 5"));
    assert_eq!(keys(&a), vec!["b", "a", "c", "d"]);
    assert_eq!(a["a"], doc("4"));
    assert_eq!(a["c"], doc("3"));
    assert_eq!(a["d"], doc("5"));
}

#[test]
fn sequences_are_joined() {
    let mut a = doc("list: [1, 2]\nother: x");
    merge_yaml(&mut a, doc("list: [3, 4]"));
    assert_eq!(a, doc("list: [1, 2, 3, 4]\nother: x"));
}

#[test]
fn tagged_sequences_are_joined_untagged() {
    let mut a = doc("list: !t [1]");
    merge_yaml(&mut a, doc("list: [2]"));
    assert_eq!(a["list"], doc("[1, 2]"));
}

#[test]
fn sequence_replaces_scalar() {
    let mut a = doc("list: 7");
    merge_yaml(&mut a, doc("list: [2]"));
    assert_eq!(a, doc("list: [2]"));
}

#[test]
fn nested_mappings_merge() {
    let mut a = doc("db:\n  host: a\n  port: 1\nname: x");
    merge_yaml(&mut a, doc("db:\n  port: 2\n  user: u"));
    assert_eq!(a, doc("db:\n  host: a\n  port: 2\n  user: u\nname: x"));
    assert_eq!(keys(&a["db"]), vec!["host", "port", "user"]);
}

#[test]
fn non_mapping_replaces_mapping() {
    let mut a = doc("a: 1");
    merge_yaml(&mut a, doc("[1, 2]"));
    assert_eq!(a, doc("[1, 2]"));
}

#[test]
fn mapping_replaces_scalar() {
    let mut a = doc("5");
    merge_yaml(&mut a, doc("a: 1"));
    assert_eq!(a, doc("a: 1"));
}

#[test]
fn tagged_mapping_replaces() {
    let mut a = doc("a: 1\nb: 2");
    merge_yaml(&mut a, doc("!t\nb: 3"));
    assert_eq!(a, doc("!t\nb: 3"));
}

#[test]
fn empty_layer_keeps_document() {
    let mut a = doc("a: 1\nb: [x]");
    merge_yaml(&mut a, doc("{}"));
    assert_eq!(a, doc("a: 1\nb: [x]"));
}

#[test]
fn keys_match_by_yaml_equality() {
    let mut a = doc("1: one\ntrue: yes");
    merge_yaml(&mut a, doc("1: uno\n\"1\": string"));
    assert_eq!(a.as_mapping().unwrap().len(), 3);
    assert_eq!(a[&Value::Number(1.into())], doc("uno"));
    assert_eq!(a["1"], doc("string"));
}

#[test]
fn merging_into_empty_mapping_gives_the_layer() {
    let mut a = doc("{}");
    merge_yaml(&mut a, doc("z: 1\na: [2]\nm: {x: 3}"));
    assert_eq!(a, doc("z: 1\na: [2]\nm: {x: 3}"));
    assert_eq!(keys(&a), vec!["z", "a", "m"]);
}

#[test]
fn untouched_keys_keep_values_and_new_keys_follow_in_order() {
    let mut a = doc("p: 1\nq: [1]\nr: {s: 1}");
    merge_yaml(&mut a, doc("n2: x\nq: [2]\nn1: y"));
    assert_eq!(keys(&a), vec!["p", "q", "r", "n2", "n1"]);
    assert_eq!(a["p"], doc("1"));
    assert_eq!(a["r"], doc("{s: 1}"));
    assert_eq!(a["q"], doc("[1, 2]"));
    assert_eq!(a["n2"], doc("x"));
    assert_eq!(a["n1"], doc("y"));
}
