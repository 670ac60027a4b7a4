use scli::json::{
    as_array, as_bool, as_i64, as_object, as_str, as_u64, at, empty_object, json_str, obj_set, Json,
    JsonNumber,
};

fn s(x: &str) -> Json {
    Json::Str(x.to_string())
}

fn obj(items: Vec<(&str, Json)>) -> Json {
    Json::Object(items.into_iter().map(|(k, v)| (k.to_string(), v)).collect())
}

fn sample() -> Json {
    obj(vec![
        ("ok", Json::Bool(true)),
        ("n", Json::Number(JsonNumber::PosInt(7))),
        ("neg", Json::Number(JsonNumber::NegInt(-3))),
        ("big", Json::Number(JsonNumber::PosInt(u64::MAX))),
        ("f", Json::Number(JsonNumber::Float("1.5".to_string()))),
        ("name", s("general")),
        ("list", Json::Array(vec![s("a"), s("b")])),
        ("inner", obj(vec![("id", s("C1"))])),
        ("name", s("shadowed")),
    ])
}

#[test]
fn get_finds_the_first_member() {
    let v = sample();
    assert_eq!(v.get("name"), Some(&s("general")));
    assert_eq!(v.get("missing"), None);
    assert_eq!(s("x").get("name"), None);
}

#[test]
fn lookups_through_missing_keys_give_nothing() {
    let v = sample();
    assert_eq!(as_str(at(at(Some(&v), "inner"), "id")), Some(&"C1".to_string()));
    assert_eq!(at(at(Some(&v), "nope"), "id"), None);
    assert_eq!(at(at(Some(&v), "name"), "id"), None);
}

#[test]
fn accessors_match_the_variant() {
    let v = sample();
    assert_eq!(as_bool(at(Some(&v), "ok")), Some(true));
    assert_eq!(as_bool(at(Some(&v), "name")), None);
    assert_eq!(as_u64(at(Some(&v), "n")), Some(7));
    assert_eq!(as_u64(at(Some(&v), "neg")), None);
    assert_eq!(as_i64(at(Some(&v), "n")), Some(7));
    assert_eq!(as_i64(at(Some(&v), "neg")), Some(-3));
    assert_eq!(as_i64(at(Some(&v), "big")), None);
    assert_eq!(as_u64(at(Some(&v), "f")), None);
    assert_eq!(as_i64(at(Some(&v), "f")), None);
    assert_eq!(as_array(at(Some(&v), "list")).map(|a| a.len()), Some(2));
    assert_eq!(as_array(at(Some(&v), "name")), None);
    assert_eq!(as_object(at(Some(&v), "inner")).map(|m| m.len()), Some(1));
    assert_eq!(as_object(at(Some(&v), "list")), None);
}

#[test]
fn setting_replaces_in_place_or_appends() {
    let v = obj(vec![("a", s("1")), ("b", s("2"))]);
    let v = obj_set(v, "a".to_string(), s("3"));
    assert_eq!(v, obj(vec![("a", s("3")), ("b", s("2"))]));
    let v = obj_set(v, "c".to_string(), s("4"));
    assert_eq!(v, obj(vec![("a", s("3")), ("b", s("2")), ("c", s("4"))]));
}

#[test]
fn setting_on_null_makes_an_object() {
    let v = obj_set(Json::Null, "k".to_string(), json_str("v"));
    assert_eq!(v, obj(vec![("k", s("v"))]));
    assert_eq!(empty_object(), Json::Object(vec![]));
}

#[test]
fn deep_copy_is_equal() {
    let v = sample();
    assert_eq!(v.copy(), v);
}
