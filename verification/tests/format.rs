use semijson::{to_vec, to_vec_with_indent, Json};

fn s(text: &str) -> Json {
    Json::Str(String::from(text))
}

#[test]
fn scalar_null_is_bare_token() {
    assert_eq!(to_vec(&Json::Null), b"null".to_vec());
}

#[test]
fn scalar_bools_are_bare_tokens() {
    assert_eq!(to_vec(&Json::Bool(true)), b"true".to_vec());
    assert_eq!(to_vec(&Json::Bool(false)), b"false".to_vec());
}

#[test]
fn scalar_integers_are_decimal() {
    assert_eq!(to_vec(&Json::Int(0)), b"0".to_vec());
    assert_eq!(to_vec(&Json::Int(-42)), b"-42".to_vec());
    assert_eq!(to_vec(&Json::Int(i64::MIN)), b"-9223372036854775808".to_vec());
    assert_eq!(to_vec(&Json::UInt(u64::MAX)), b"18446744073709551615".to_vec());
}

#[test]
fn scalar_string_is_quoted_and_escaped() {
    assert_eq!(to_vec(&s("hi")), b"\"hi\"".to_vec());
    assert_eq!(to_vec(&s("a\"b\n")), b"\"a\\\"b\\n\"".to_vec());
}

#[test]
fn empty_array_top_level() {
    assert_eq!(to_vec(&Json::Arr(Vec::new())), b"[]\n".to_vec());
}

#[test]
fn empty_object_top_level() {
    assert_eq!(to_vec(&Json::Obj(Vec::new())), b"{}\n".to_vec());
}

#[test]
fn primitive_array_is_single_line() {
    let v = Json::Arr(vec![Json::Int(1), Json::Int(2), Json::Int(3)]);
    assert_eq!(to_vec(&v), b"[ 1, 2, 3 ]\n".to_vec());
}

#[test]
fn primitive_object_is_single_line() {
    let v = Json::Obj(vec![(String::from("a"), Json::Int(11751)), (String::from("b"), Json::Int(16629))]);
    assert_eq!(to_vec(&v), b"{ \"a\": 11751, \"b\": 16629 }\n".to_vec());
}

#[test]
fn mixed_object_scenario() {
    let v = Json::Obj(vec![
        (String::from("a"), Json::Int(1)),
        (String::from("b"), Json::Arr(vec![Json::Int(1), Json::Int(2), Json::Int(3)])),
        (
            String::from("c"),
            Json::Obj(vec![(String::from("x"), Json::Bool(true))]),
        ),
    ]);
    let expected = "{\n  \"a\": 1,\n  \"b\": [ 1, 2, 3 ],\n  \"c\": { \"x\": true }\n}\n";
    assert_eq!(to_vec(&v), expected.as_bytes().to_vec());
}

#[test]
fn array_of_arrays_scenario() {
    let v = Json::Arr(vec![
        Json::Arr(vec![Json::Int(1), Json::Int(2)]),
        Json::Arr(vec![Json::Int(3), Json::Int(4)]),
    ]);
    assert_eq!(to_vec(&v), b"[\n  [ 1, 2 ],\n  [ 3, 4 ]\n]\n".to_vec());
}

#[test]
fn single_nested_container_forces_multiline() {
    let v = Json::Arr(vec![Json::Arr(vec![Json::Int(1), Json::Int(2)])]);
    assert_eq!(to_vec(&v), b"[\n  [ 1, 2 ]\n]\n".to_vec());
}

#[test]
fn empty_containers_nested_stay_bare() {
    let v = Json::Arr(vec![Json::Arr(Vec::new()), Json::Obj(Vec::new())]);
    assert_eq!(to_vec(&v), b"[\n  [],\n  {}\n]\n".to_vec());
}

#[test]
fn scalar_after_nested_container() {
    let v = Json::Arr(vec![Json::Int(1), Json::Arr(vec![Json::Int(2)]), Json::Int(3)]);
    assert_eq!(to_vec(&v), b"[\n  1,\n  [ 2 ],\n  3\n]\n".to_vec());
}

#[test]
fn deep_nesting_indents_per_level() {
    let v = Json::Obj(vec![(
        String::from("outer"),
        Json::Obj(vec![(
            String::from("inner"),
            Json::Arr(vec![Json::Arr(vec![Json::Int(7)])]),
        )]),
    )]);
    let expected = "{\n  \"outer\": {\n    \"inner\": [\n      [ 7 ]\n    ]\n  }\n}\n";
    assert_eq!(to_vec(&v), expected.as_bytes().to_vec());
}

#[test]
fn custom_indent_unit() {
    let v = Json::Arr(vec![Json::Arr(vec![Json::Int(1)])]);
    assert_eq!(to_vec_with_indent(&v, b"\t"), b"[\n\t[ 1 ]\n]\n".to_vec());
    assert_eq!(to_vec_with_indent(&v, b"    "), b"[\n    [ 1 ]\n]\n".to_vec());
}

#[test]
fn formatter_driven_directly() {
    let mut f = semijson::Formatter::with_indent(b"  ");
    let mut out: Vec<u8> = Vec::new();
    let v = Json::Obj(vec![(
        String::from("k"),
        Json::Arr(vec![Json::Int(1), Json::Int(2)]),
    )]);
    semijson::write_value(&mut f, &mut out, &v);
    assert_eq!(out, b"{\n  \"k\": [ 1, 2 ]\n}\n".to_vec());
}

#[test]
fn string_members_inline() {
    let v = Json::Arr(vec![s("tremble_r1.KAN7"), Json::Null]);
    assert_eq!(to_vec(&v), b"[ \"tremble_r1.KAN7\", null ]\n".to_vec());
}
