use hielements::stdlib::json::{json_to_check_result, json_to_value, request_params, rpc_outcome, value_to_json, Json};
use hielements::stdlib::{CheckResult, FloatValue, Scope, ScopeKind, Value};

fn obj(members: Vec<(&str, Json)>) -> Json {
    Json::Object(members.into_iter().map(|(k, v)| (k.to_string(), v)).collect())
}

fn single_member<'a>(j: &'a Json) -> (&'a str, &'a Json) {
    match j {
        Json::Object(m) => {
            assert_eq!(m.len(), 1);
            (m[0].0.as_str(), &m[0].1)
        }
        other => panic!("expected an object, got {:?}", other),
    }
}

#[test]
fn test_value_to_json_string() {
    let value = Value::String("test".to_string());
    let json = value_to_json(&value);
    let (k, v) = single_member(&json);
    assert_eq!(k, "String");
    assert!(matches!(v, Json::Str(s) if s == "test"));
}

#[test]
fn test_value_to_json_int() {
    let value = Value::Int(42);
    let json = value_to_json(&value);
    let (k, v) = single_member(&json);
    assert_eq!(k, "Int");
    assert!(matches!(v, Json::Int(42)));
}

#[test]
fn test_json_to_value_string() {
    let json = obj(vec![("String", Json::Str("hello".to_string()))]);
    let value = json_to_value(&json).unwrap();
    match value {
        Value::String(s) => assert_eq!(s, "hello"),
        _ => panic!("Expected String value"),
    }
}

#[test]
fn test_json_to_check_result_pass() {
    let json = obj(vec![("Pass", Json::Null)]);
    let result = json_to_check_result(&json, false).unwrap();
    assert!(result.is_pass());
}

#[test]
fn test_json_to_check_result_fail() {
    let json = obj(vec![("Fail", Json::Str("Something went wrong".to_string()))]);
    let result = json_to_check_result(&json, false).unwrap();
    assert!(result.is_fail());
}

#[test]
fn test_value_to_json() {
    let value = Value::String("test".to_string());
    let json = value_to_json(&value);
    let (k, v) = single_member(&json);
    assert_eq!(k, "String");
    assert!(matches!(v, Json::Str(s) if s == "test"));
}

#[test]
fn test_json_value_to_value_string() {
    let json = obj(vec![("String", Json::Str("hello".to_string()))]);
    let value = json_to_value(&json).unwrap();
    match value {
        Value::String(s) => assert_eq!(s, "hello"),
        _ => panic!("Expected String value"),
    }
}

#[test]
fn value_json_round_trip_on_scope() {
    let scope = Scope::new(ScopeKind::Folder("src".to_string())).with_paths(vec!["src/a.rs".to_string(), "src/b.rs".to_string()]);
    let value = Value::List(vec![Value::Scope(scope), Value::Bool(true), Value::Null]);
    let json = value_to_json(&value);
    let back = json_to_value(&json).unwrap();
    match back {
        Value::List(items) => {
            assert_eq!(items.len(), 3);
            match &items[0] {
                Value::Scope(s) => {
                    assert!(matches!(&s.kind, ScopeKind::Folder(p) if p == "src"));
                    assert_eq!(s.paths, vec!["src/a.rs".to_string(), "src/b.rs".to_string()]);
                    assert!(s.resolved);
                }
                other => panic!("expected a scope, got {:?}", other),
            }
            assert!(matches!(items[1], Value::Bool(true)));
            assert!(matches!(items[2], Value::Null));
        }
        other => panic!("expected a list, got {:?}", other),
    }
}

#[test]
fn float_value_keeps_its_text() {
    let value = Value::Float(FloatValue { text: "2.5".to_string(), truncated: 2 });
    let json = value_to_json(&value);
    let (k, v) = single_member(&json);
    assert_eq!(k, "Float");
    assert!(matches!(v, Json::Float(f) if f.text == "2.5" && f.truncated == 2));
}

#[test]
fn json_to_value_blames_the_unknown_part() {
    let bad = obj(vec![("Mystery", Json::Int(1))]);
    let json = obj(vec![("List", Json::Array(vec![Json::Int(1), bad]))]);
    match json_to_value(&json) {
        Err(Json::Object(m)) => assert_eq!(m[0].0, "Mystery"),
        other => panic!("expected the unknown object to be blamed, got {:?}", other),
    }
}

#[test]
fn json_scalars_convert_to_themselves() {
    assert!(matches!(json_to_value(&Json::Int(7)), Ok(Value::Int(7))));
    assert!(matches!(json_to_value(&Json::Bool(false)), Ok(Value::Bool(false))));
    assert!(matches!(json_to_value(&Json::Str("x".to_string())), Ok(Value::String(s)) if s == "x"));
    assert!(matches!(json_to_value(&Json::Null), Ok(Value::Null)));
}

#[test]
fn check_result_from_result_member() {
    let json = obj(vec![("result", Json::Str("fail".to_string())), ("message", Json::Str("no".to_string()))]);
    assert!(matches!(json_to_check_result(&json, false), Some(CheckResult::Fail(m)) if m == "no"));
    let json = obj(vec![("result", Json::Str("error".to_string()))]);
    assert!(matches!(json_to_check_result(&json, false), Some(CheckResult::Error(m)) if m == "Check error"));
    let json = obj(vec![("Error", Json::Str("boom".to_string()))]);
    assert!(matches!(json_to_check_result(&json, false), Some(CheckResult::Error(m)) if m == "boom"));
}

#[test]
fn check_result_from_text() {
    assert!(matches!(json_to_check_result(&Json::Str("OK".to_string()), true), Some(CheckResult::Pass)));
    assert!(matches!(json_to_check_result(&Json::Str("false".to_string()), true), Some(CheckResult::Fail(m)) if m == "Check failed"));
    assert!(matches!(json_to_check_result(&Json::Str("bad layout".to_string()), true), Some(CheckResult::Fail(m)) if m == "bad layout"));
    assert!(json_to_check_result(&Json::Str("pass".to_string()), false).is_none());
    assert!(json_to_check_result(&Json::Int(1), true).is_none());
}

#[test]
fn request_params_frame_the_call() {
    let json = request_params("exists", &vec![Value::Int(1)], "/ws");
    match json {
        Json::Object(m) => {
            let keys: Vec<&str> = m.iter().map(|(k, _)| k.as_str()).collect();
            assert!(keys.contains(&"function"));
            assert!(keys.contains(&"workspace"));
            for (k, v) in &m {
                if k == "function" {
                    assert!(matches!(v, Json::Str(s) if s == "exists"));
                }
                if k == "workspace" {
                    assert!(matches!(v, Json::Str(s) if s == "/ws"));
                }
            }
        }
        other => panic!("expected an object, got {:?}", other),
    }
}

#[test]
fn bare_arrays_do_not_convert() {
    let json = Json::Array(vec![Json::Int(1)]);
    assert!(matches!(json_to_value(&json), Err(Json::Array(a)) if a.len() == 1));
}

#[test]
fn rpc_replies_become_outcomes() {
    match rpc_outcome(Some((-32601, "Method not found".to_string())), None) {
        Err(e) => {
            assert_eq!(e.code, "E-32601");
            assert_eq!(e.message, "Method not found");
        }
        Ok(_) => panic!("expected an error"),
    }
    match rpc_outcome(Some((42, "bad".to_string())), Some(Json::Bool(true))) {
        Err(e) => assert_eq!(e.code, "E42"),
        Ok(_) => panic!("expected an error"),
    }
    assert!(matches!(rpc_outcome(None, Some(Json::Int(3))), Ok(Json::Int(3))));
    for empty in [None, Some(Json::Null)] {
        match rpc_outcome(None, empty) {
            Err(e) => {
                assert_eq!(e.code, "E507");
                assert_eq!(e.message, "External process returned empty result");
            }
            Ok(_) => panic!("expected an error"),
        }
    }
}
