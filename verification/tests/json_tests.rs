use nft_aggregator::error::IndexerError;
use nft_aggregator::json::{JsonNumber, JsonValue};
use nft_aggregator::path_syntax::json_path_evaluable;
use nft_aggregator::steps::{extract_string, extract_vec_inner, HashableJsonPath, HashableJsonPaths};

fn obj(members: Vec<(&str, JsonValue)>) -> JsonValue {
    JsonValue::Object(members.into_iter().map(|(k, v)| (k.to_string(), v)).collect())
}

fn s(x: &str) -> JsonValue {
    JsonValue::Str(x.to_string())
}

fn sample() -> JsonValue {
    obj(vec![
        ("seller", s("0x1")),
        ("price", JsonValue::Number(JsonNumber::PosInt(5))),
        ("delta", JsonValue::Number(JsonNumber::NegInt(-3))),
        ("big", JsonValue::Number(JsonNumber::PosInt(u64::MAX))),
        ("ok", JsonValue::Bool(true)),
        ("items", JsonValue::Array(vec![s("a"), JsonValue::Null])),
        ("nested", obj(vec![("inner", s("0x2"))])),
    ])
}

#[test]
fn accessors_read_members() {
    let v = sample();
    assert_eq!(v.get("seller").and_then(|x| x.as_str()), Some("0x1"));
    assert_eq!(v.get("price").and_then(|x| x.as_i64()), Some(5));
    assert_eq!(v.get("price").and_then(|x| x.as_u64()), Some(5));
    assert_eq!(v.get("delta").and_then(|x| x.as_i64()), Some(-3));
    assert_eq!(v.get("delta").and_then(|x| x.as_u64()), None);
    assert_eq!(v.get("big").and_then(|x| x.as_i64()), None);
    assert_eq!(v.get("ok").and_then(|x| x.as_bool()), Some(true));
    assert!(v.get("missing").is_none());
    assert!(s("x").get("seller").is_none());
    let dup = obj(vec![("k", s("first")), ("k", s("last"))]);
    assert_eq!(dup.get("k").and_then(|x| x.as_str()), Some("last"));
}

#[test]
fn json_text_is_compact() {
    let v = obj(vec![
        ("a", JsonValue::Array(vec![JsonValue::Number(JsonNumber::PosInt(1)), JsonValue::Bool(false)])),
        ("b", s("q\"\\")),
        ("c", JsonValue::Null),
        ("d", JsonValue::Number(JsonNumber::NegInt(-7))),
    ]);
    assert_eq!(v.to_json_text(), "{\"a\":[1,false],\"b\":\"q\\\"\\\\\",\"c\":null,\"d\":-7}");
    assert_eq!(JsonValue::Array(vec![]).to_json_text(), "[]");
    assert_eq!(obj(vec![]).to_json_text(), "{}");
}

#[test]
fn paths_fall_back_in_order() {
    let v = sample();
    let paths = HashableJsonPaths::new(vec!["$.missing".to_string(), "$.nested.inner".to_string(), "$.seller".to_string()])
        .ok()
        .unwrap();
    assert_eq!(extract_string(&paths, &v), Some("0x2".to_string()));
    let price = HashableJsonPaths::new(vec!["$.price".to_string()]).ok().unwrap();
    assert_eq!(extract_string(&price, &v), None);
    assert_eq!(price.extract_from(&v).ok().unwrap().u64_value, Some(5));
    let items = HashableJsonPaths::new(vec!["$.items".to_string()]).ok().unwrap();
    assert_eq!(extract_vec_inner(&items, &v), Some(vec!["\"a\"".to_string(), "null".to_string()]));
    assert_eq!(extract_vec_inner(&price, &v), None);
    let none = HashableJsonPaths::new(vec!["$.missing".to_string()]).ok().unwrap();
    assert!(matches!(none.extract_from(&v), Err(IndexerError::NoJsonPathMatch(_))));
    assert_eq!(extract_string(&none, &v), None);
}

#[test]
fn the_first_bad_path_is_reported() {
    let r = HashableJsonPaths::new(vec!["$.a".to_string(), "$[".to_string(), "$..[".to_string()]);
    assert!(matches!(r, Err(IndexerError::InvalidJsonPath(p)) if p == "$["));
    let one = HashableJsonPath::new("$.seller").ok().unwrap();
    assert_eq!(one.raw(), "$.seller");
    assert_eq!(one.extract_string(&sample()), Some("0x1".to_string()));
    assert!(matches!(one.extract_from(&s("x")), Err(IndexerError::NoJsonPathMatch(t)) if t == "\"x\""));
    assert!(matches!(HashableJsonPath::new("$["), Err(IndexerError::InvalidJsonPath(p)) if p == "$["));
}

#[test]
fn json_text_matches_serde_json() {
    let v = obj(vec![
        ("a", s("line\nbreak\ttab\u{1}\u{8}\u{c}\r\"q\"\\")),
        ("b", JsonValue::Array(vec![JsonValue::Number(JsonNumber::NegInt(-1)), JsonValue::Null, JsonValue::Bool(true)])),
        ("c", obj(vec![("d", s("\u{e9}"))])),
    ]);
    let serde = serde_json::Value::Object(
        [
            ("a".to_string(), serde_json::Value::String("line\nbreak\ttab\u{1}\u{8}\u{c}\r\"q\"\\".to_string())),
            (
                "b".to_string(),
                serde_json::Value::Array(vec![
                    serde_json::Value::from(-1i64),
                    serde_json::Value::Null,
                    serde_json::Value::Bool(true),
                ]),
            ),
            (
                "c".to_string(),
                serde_json::Value::Object(
                    [("d".to_string(), serde_json::Value::String("\u{e9}".to_string()))].into_iter().collect(),
                ),
            ),
        ]
        .into_iter()
        .collect(),
    );
    let expected = serde_json::to_string(&serde).unwrap();
    assert_eq!(v.to_json_text(), expected);
}

#[test]
fn paths_the_evaluator_cannot_run_are_built_and_refused_when_evaluated() {
    let doc = obj(vec![("a", JsonValue::Array(vec![s("x"), s("y")]))]);
    for bad in ["$.a[::0]", "$.a[1:2:0]", "$.a[ : : 0 ]", "$[-1,2]", "$[1.5,2]", "$[1e2,3]", "$[9223372036854775808]",
        "$[0,9223372036854775808]", "$[?(@.a[-1,0] == 1)]"]
    {
        let path = HashableJsonPath::new(bad).ok().unwrap();
        assert!(!path.is_evaluable(), "{}", bad);
        assert!(matches!(path.extract_from(&doc), Err(IndexerError::UnevaluableJsonPath(p)) if p == bad), "{}", bad);
        assert!(HashableJsonPaths::new(vec!["$.a".to_string(), bad.to_string()]).is_ok());
    }
    for good in ["$['a[::0]']", "$[\"x[-1,2]\"]", "$.a[1:0]", "$.a[::2]", "$[0,1]", "$[-0,1]", "$[9223372036854775807]", "$['a','b']",
        "$.a[*]", "$[?(@.price > 1)]"]
    {
        let path = HashableJsonPath::new(good).ok().unwrap();
        assert!(path.is_evaluable(), "{}", good);
        assert!(!matches!(path.extract_from(&doc), Err(IndexerError::UnevaluableJsonPath(_))), "{}", good);
    }
    let first_found = HashableJsonPaths::new(vec!["$.a".to_string(), "$[::0]".to_string()]).ok().unwrap();
    assert!(extract_vec_inner(&first_found, &doc).is_some());
}

#[test]
fn a_runnable_path_finds_its_values() {
    let doc = obj(vec![("a", JsonValue::Array(vec![s("x"), s("y"), s("z")]))]);
    let second = HashableJsonPath::new("$.a[1]").ok().unwrap();
    assert_eq!(second.extract_string(&doc), Some("y".to_string()));
    let stepped = HashableJsonPaths::new(vec!["$.a[1::2]".to_string()]).ok().unwrap();
    assert_eq!(extract_string(&stepped, &doc), Some("y".to_string()));
    let union = HashableJsonPath::new("$.a[2,0]").ok().unwrap();
    assert_eq!(union.extract_string(&doc), Some("z".to_string()));
}

#[test]
fn path_evaluability_by_text() {
    assert!(json_path_evaluable("$"));
    assert!(!json_path_evaluable("$[::0]"));
    assert!(json_path_evaluable("$['::0]']"));
    assert!(json_path_evaluable("$['it\\'s[::0]']"));
}
