use semijson::{to_vec, Json};

fn sample() -> Json {
    Json::Obj(vec![
        (String::from("a"), Json::Int(1)),
        (
            String::from("b"),
            Json::Arr(vec![Json::Int(1), Json::Int(2), Json::Int(3)]),
        ),
        (
            String::from("c"),
            Json::Obj(vec![(String::from("x"), Json::Bool(true))]),
        ),
        (String::from("d"), Json::Str(String::from("line\nbreak"))),
        (String::from("e"), Json::Null),
        (String::from("f"), Json::Arr(Vec::new())),
    ])
}

fn from_parsed(v: &serde_json::Value) -> Json {
    match v {
        serde_json::Value::Null => Json::Null,
        serde_json::Value::Bool(b) => Json::Bool(*b),
        serde_json::Value::Number(n) => {
            if let Some(i) = n.as_i64() {
                Json::Int(i)
            } else {
                Json::UInt(n.as_u64().unwrap())
            }
        }
        serde_json::Value::String(s) => Json::Str(s.clone()),
        serde_json::Value::Array(items) => Json::Arr(items.iter().map(from_parsed).collect()),
        serde_json::Value::Object(map) => Json::Obj(
            map.iter().map(|(k, x)| (k.clone(), from_parsed(x))).collect(),
        ),
    }
}

#[test]
fn output_parses_back_to_the_input() {
    let bytes = to_vec(&sample());
    let parsed: serde_json::Value = serde_json::from_slice(&bytes).unwrap();

    let mut inner = serde_json::Map::new();
    inner.insert(String::from("x"), serde_json::Value::Bool(true));
    let mut map = serde_json::Map::new();
    map.insert(String::from("a"), serde_json::Value::from(1i64));
    map.insert(
        String::from("b"),
        serde_json::Value::Array(vec![
            serde_json::Value::from(1i64),
            serde_json::Value::from(2i64),
            serde_json::Value::from(3i64),
        ]),
    );
    map.insert(String::from("c"), serde_json::Value::Object(inner));
    map.insert(
        String::from("d"),
        serde_json::Value::String(String::from("line\nbreak")),
    );
    map.insert(String::from("e"), serde_json::Value::Null);
    map.insert(String::from("f"), serde_json::Value::Array(Vec::new()));
    assert_eq!(parsed, serde_json::Value::Object(map));
}

#[test]
fn reserializing_the_parsed_output_is_byte_identical() {
    let first = to_vec(&sample());
    let parsed: serde_json::Value = serde_json::from_slice(&first).unwrap();
    let second = to_vec(&from_parsed(&parsed));
    assert_eq!(first, second);
}

#[test]
fn round_trip_scalar_documents() {
    for v in [
        Json::Null,
        Json::Bool(false),
        Json::Int(-7),
        Json::UInt(u64::MAX),
        Json::Str(String::from("\u{1f600} quote \" end")),
    ] {
        let bytes = to_vec(&v);
        let parsed: serde_json::Value = serde_json::from_slice(&bytes).unwrap();
        let again = to_vec(&from_parsed(&parsed));
        assert_eq!(bytes, again);
    }
}

#[test]
fn round_trip_nested_arrays() {
    let v = Json::Arr(vec![
        Json::Arr(vec![Json::Int(1), Json::Int(2)]),
        Json::Arr(vec![Json::Int(3), Json::Int(4)]),
    ]);
    let bytes = to_vec(&v);
    let parsed: serde_json::Value = serde_json::from_slice(&bytes).unwrap();
    let expected = serde_json::Value::Array(vec![
        serde_json::Value::Array(vec![
            serde_json::Value::from(1i64),
            serde_json::Value::from(2i64),
        ]),
        serde_json::Value::Array(vec![
            serde_json::Value::from(3i64),
            serde_json::Value::from(4i64),
        ]),
    ]);
    assert_eq!(parsed, expected);
}

#[test]
fn trailing_newline_only_for_containers() {
    let doc = to_vec(&sample());
    assert_eq!(doc.last(), Some(&b'\n'));
    assert_ne!(doc[doc.len() - 2], b'\n');
    assert!(!to_vec(&Json::Int(3)).contains(&b'\n'));
    assert!(!to_vec(&Json::Str(String::from("x\ny"))).contains(&b'\n'));
}
