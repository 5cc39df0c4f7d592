use chord::helper::fs::{push_path, ReadError};
use chord::helper::num::ArithOp;
use chord::value::{JsonMap, Number, Value};

fn s(t: &str) -> Value {
    Value::String(t.to_string())
}

fn n(x: i64) -> Value {
    Value::Number(Number::from_i64(x))
}

fn show(v: &Value) -> String {
    match v {
        Value::String(t) => format!("\"{}\"", t),
        Value::Bool(b) => b.to_string(),
        _ => "?".to_string(),
    }
}

fn float_op(_: ArithOp, _: &Number, _: &Number) -> Option<Number> {
    Some(Number::Float("2.5".to_string()))
}

fn idx(n: &Number) -> usize {
    match n {
        Number::PosInt(x) => *x as usize,
        _ => 0,
    }
}

#[test]
fn literal_helpers_give_braces() {
    let hs = chord::helper::literal_helpers();
    assert_eq!(hs[0].0, "bl");
    assert_eq!(hs[0].1.call(), s("{"));
    assert_eq!(hs[1].0, "br");
    assert_eq!(hs[1].1.call(), s("}"));
}

#[test]
fn bool_helpers() {
    assert_eq!(chord::helper::boolean::BoolHelper.call(&vec![s(" true ")]), Ok(Value::Bool(true)));
    assert_eq!(chord::helper::boolean::BoolHelper.call(&vec![s("yes")]), Err("Failed to access JSON data.".to_string()));
    assert_eq!(chord::helper::boolean::BoolHelper.call(&vec![n(1)]), Err("\"bool\" can not convert ".to_string()));
    assert_eq!(chord::helper::boolean::BoolHelper.call(&vec![]), Err("Param not found for helper \"num\"".to_string()));
    assert_eq!(chord::helper::boolean::AllHelper.call(&vec![Value::Bool(true), Value::Bool(true)]), Ok(Value::Bool(true)));
    assert_eq!(chord::helper::boolean::AllHelper.call(&vec![Value::Bool(false), n(1)]), Ok(Value::Bool(false)));
    assert_eq!(chord::helper::boolean::AllHelper.call(&vec![Value::Bool(true), n(1)]), Err("\"all\" only accept bool".to_string()));
    assert_eq!(chord::helper::boolean::AllHelper.call(&vec![]), Err("Param not found for helper \"all\"".to_string()));
    assert_eq!(chord::helper::boolean::AnyHelper.call(&vec![Value::Bool(false), Value::Bool(true)]), Ok(Value::Bool(true)));
    assert_eq!(chord::helper::boolean::AnyHelper.call(&vec![Value::Bool(false)]), Ok(Value::Bool(false)));
    assert_eq!(chord::helper::boolean::AnyHelper.call(&vec![s("x")]), Err("\"any\" only accept bool".to_string()));
}

#[test]
fn basic_helpers() {
    assert_eq!(chord::helper::basic::NumHelper.call(&vec![s(" 12 ")]), Ok(n(12)));
    assert_eq!(chord::helper::basic::NumHelper.call(&vec![s("-3")]), Ok(n(-3)));
    assert_eq!(chord::helper::basic::NumHelper.call(&vec![s("1.5")]), Ok(Value::Number(Number::Float("1.5".to_string()))));
    assert_eq!(chord::helper::basic::NumHelper.try_call(&vec![s("x")]), None);
    assert_eq!(chord::helper::basic::NumHelper.call(&vec![Value::Null]), Err("\"num\" can not convert ".to_string()));
    assert_eq!(chord::helper::basic::BoolHelper.call(&vec![s("false")]), Ok(Value::Bool(false)));
}

#[test]
fn num_helpers() {
    assert_eq!(chord::helper::num::NumHelper.call(&vec![s(" 7 ")]), Ok(n(7)));
    assert_eq!(chord::helper::num::NumHelper.call(&vec![s("x")]), Err("Failed to access JSON data.".to_string()));
    assert_eq!(chord::helper::num::AddHelper.call(&vec![n(2), n(-5)], &show, &float_op), Ok(n(-3)));
    assert_eq!(chord::helper::num::SubHelper.call(&vec![n(2), n(5)], &show, &float_op), Ok(n(-3)));
    assert_eq!(chord::helper::num::MulHelper.call(&vec![n(-4), n(5)], &show, &float_op), Ok(n(-20)));
    assert_eq!(chord::helper::num::DivHelper.call(&vec![n(-7), n(2)], &show, &float_op), Ok(n(-3)));
    assert_eq!(chord::helper::num::DivHelper.call(&vec![n(7), n(-2)], &show, &float_op), Ok(n(-3)));
    assert_eq!(chord::helper::num::DivHelper.call(&vec![n(i64::MIN), n(1)], &show, &float_op), Ok(n(i64::MIN)));
    assert_eq!(
        chord::helper::num::AddHelper.call(&vec![n(1), Value::Number(Number::Float("1.5".to_string()))], &show, &float_op),
        Ok(Value::Number(Number::Float("2.5".to_string())))
    );
    assert_eq!(
        chord::helper::num::AddHelper.call(&vec![n(1), s("a")], &show, &float_op),
        Err("num_add can not apply ? \"a\"".to_string())
    );
    assert_eq!(
        chord::helper::num::DivHelper.call(&vec![n(1)], &show, &float_op),
        Err("Param not found for helper \"num_dib\"".to_string())
    );
    let nan = |_: ArithOp, _: &Number, _: &Number| -> Option<Number> { None };
    assert_eq!(
        chord::helper::num::MulHelper.call(&vec![n(1), Value::Number(Number::Float("1e400".to_string()))], &show, &nan),
        Err("Return NaN for helper \"num_mul\"".to_string())
    );
}

#[test]
fn number_helpers() {
    assert_eq!(chord::helper::number::NumHelper.call(&vec![s("42")]), Ok(n(42)));
    let sum = chord::helper::number::NumAddHelper.call(&vec![n(40), n(2)], &show, &float_op).unwrap();
    assert_eq!(chord::helper::number::NumSubHelper.call(&vec![sum, n(2)], &show, &float_op), Ok(n(40)));
}

#[test]
fn obj_helpers() {
    let o = Value::Object(JsonMap { entries: vec![("k".to_string(), n(1))] });
    let parse = |t: &String| -> Option<Value> {
        if t == "{}" {
            Some(Value::Object(JsonMap::new()))
        } else if t == "[]" {
            Some(Value::Array(vec![]))
        } else {
            None
        }
    };
    assert_eq!(chord::helper::obj::ObjHelper {}.call(&vec![s("{}")], &parse), Ok(Value::Object(JsonMap::new())));
    assert_eq!(chord::helper::obj::ObjHelper {}.call(&vec![s("[]")], &parse), Err("Failed to access JSON data.".to_string()));
    assert_eq!(chord::helper::obj::ObjHelper {}.call(&vec![o.deep_clone()], &parse), Ok(o.deep_clone()));
    assert_eq!(chord::helper::obj::ObjHelper {}.call(&vec![n(1)], &parse), Err("\"obj\" can not convert ".to_string()));
    assert_eq!(chord::helper::obj::ObjContainsKeyHelper {}.call(&vec![o.deep_clone(), s("k")]), Ok(Value::Bool(true)));
    assert_eq!(chord::helper::obj::ObjContainsKeyHelper {}.call(&vec![o.deep_clone(), s("z")]), Ok(Value::Bool(false)));
    assert_eq!(
        chord::helper::obj::ObjContainsKeyHelper {}.call(&vec![o.deep_clone(), n(1)]),
        Err("Param invalid for helper \"obj_contains_key\"".to_string())
    );
    assert!(chord::helper::obj::obj_contains_key(&o, &s("k")));
    assert!(!chord::helper::obj::obj_contains_key(&s("k"), &s("k")));
}

#[test]
fn arr_helpers() {
    let a = Value::Array(vec![n(1), n(2), n(3)]);
    let parse = |t: &String| -> Option<Value> {
        if t == "[1]" {
            Some(Value::Array(vec![n(1)]))
        } else {
            None
        }
    };
    assert_eq!(chord::helper::arr::ArrHelper {}.call(&vec![s("[1]")], &parse), Ok(Value::Array(vec![n(1)])));
    assert_eq!(chord::helper::arr::ArrHelper {}.call(&vec![s("x")], &parse), Err("Failed to access JSON data.".to_string()));
    assert_eq!(chord::helper::arr::ArrHelper {}.call(&vec![], &parse), Err("Param not found for helper \"arr\"".to_string()));
    assert_eq!(chord::helper::arr::LenHelper {}.call(&vec![a.deep_clone()]), Ok(n(3)));
    assert_eq!(chord::helper::arr::LenHelper {}.call(&vec![s("x")]), Err("Param invalid for helper \"arr_len\"".to_string()));
    assert_eq!(chord::helper::arr::GetHelper {}.call(&vec![a.deep_clone(), n(1)], &idx), Ok(n(2)));
    assert_eq!(chord::helper::arr::GetHelper {}.call(&vec![Value::Array(vec![]), n(4)], &idx), Ok(Value::Null));
    assert_eq!(chord::helper::arr::GetHelper {}.call(&vec![a.deep_clone()], &idx), Err("Param invalid for helper \"arr_get\"".to_string()));
    assert_eq!(chord::helper::arr::SubHelper.call(&vec![a.deep_clone(), n(3)], &idx), Ok(Value::Array(vec![])));
    assert_eq!(chord::helper::arr::SubHelper.call(&vec![a.deep_clone(), s("1")], &idx), Err("Param invalid for helper \"arr_sub\"".to_string()));
    assert_eq!(
        chord::helper::array::GetHelper {}.call(&vec![a.deep_clone(), n(2)], &idx),
        Ok(n(3))
    );
}

#[test]
fn text_helpers() {
    assert_eq!(chord::helper::text::StrHelper.call(&vec![s("a")], &show), Ok(s("\"a\"")));
    assert_eq!(chord::helper::text::StrHelper.call(&vec![], &show), Err("Param not found for helper \"str\"".to_string()));
    assert_eq!(chord::helper::text::SubHelper.call(&vec![s("héllo"), n(3)], &idx), Ok(s("llo")));
    assert_eq!(chord::helper::text::SubHelper.call(&vec![s("héllo"), n(1), n(3)], &idx), Ok(s("é")));
    assert_eq!(chord::helper::text::SubHelper.call(&vec![n(1), n(1)], &idx), Err("Param invalid for helper \"str_sub\"".to_string()));
    assert_eq!(chord::helper::text::LenHelper {}.call(&vec![s("héllo")]), Ok(n(6)));
    assert_eq!(chord::helper::text::LenHelper {}.call(&vec![n(1)]), Err("Param invalid for helper \"str_len\"".to_string()));
    assert_eq!(chord::helper::text::EscapeHelper.call(&vec![s("a\nb\"")]), Ok(s("a\\nb\\\"")));
    assert!(chord::helper::text::str_contains(&s("hello"), &s("ell")));
    assert!(!chord::helper::text::str_contains(&s("hello"), &n(1)));
    assert!(chord::helper::text::str_start_with(&s("hello"), &s("he")));
    assert!(chord::helper::text::str_end_with(&s("hello"), &s("lo")));
    assert!(!chord::helper::text::str_end_with(&s("hello"), &s("he")));
}

#[test]
fn string_helpers() {
    assert_eq!(chord::helper::string::UnescapeHelper.call(&vec![s("\"a\\nb\"")]), Ok(s("a\nb")));
    assert_eq!(chord::helper::string::UnescapeHelper.call(&vec![s("plain")]), Ok(s("plain")));
    assert_eq!(
        chord::helper::string::UnescapeHelper.call(&vec![s("\"\\q\"")]),
        Err("Param invalid for helper \"str_unescape\"".to_string())
    );
}

#[test]
fn json_helpers() {
    assert_eq!(chord::helper::json::JsonHelper {}.call(&vec![n(3)]), Ok(n(3)));
    assert_eq!(chord::helper::json::JsonHelper {}.call(&vec![]), Err("Param not found for helper \"json\"".to_string()));
    let query = |v: &Value, p: &String| -> Result<Value, String> {
        if p == "$" {
            Ok(Value::Array(vec![v.deep_clone()]))
        } else {
            Err("bad path".to_string())
        }
    };
    assert_eq!(chord::helper::json::PathHelper {}.call(&vec![n(3), s("$")], &query), Ok(Value::Array(vec![n(3)])));
    assert_eq!(
        chord::helper::json::PathHelper {}.call(&vec![n(3), s("?")], &query),
        Err("Param invalid for helper \"json_path\": bad path".to_string())
    );
    assert_eq!(
        chord::helper::json::PathHelper {}.call(&vec![n(3)], &query),
        Err("Param invalid for helper \"json_path\"".to_string())
    );
}

#[test]
fn fs_helpers() {
    assert_eq!(push_path("/a", "b"), "/a/b");
    assert_eq!(push_path("/a/", "b"), "/a/b");
    assert_eq!(push_path("/a", "/b"), "/b");
    assert_eq!(push_path("", "b"), "b");
    let meta = JsonMap { entries: vec![("task_dir".to_string(), s("/t"))] };
    let ctx = Value::Object(JsonMap { entries: vec![("__meta__".to_string(), Value::Object(meta))] });
    let read = |f: &String| -> Result<String, ReadError> {
        if f == "/t/x.txt" {
            Ok("content".to_string())
        } else {
            Err(ReadError::Read("missing".to_string()))
        }
    };
    assert_eq!(chord::helper::fs::ReadHelper.call(&vec![s("x.txt")], &ctx, &read), Ok(s("content")));
    assert_eq!(
        chord::helper::fs::ReadHelper.call(&vec![s("y")], &ctx, &read),
        Err("Failed for helper \"fs_read\", cause missing".to_string())
    );
    assert_eq!(
        chord::helper::fs::ReadHelper.call(&vec![s("x.txt")], &Value::Null, &read),
        Err("Param invalid for helper \"fs_read\"".to_string())
    );
    let resolve = |f: &String| -> Result<Option<String>, ()> {
        if f == "/t/x.txt" {
            Ok(Some("/real/x.txt".to_string()))
        } else {
            Err(())
        }
    };
    assert_eq!(chord::helper::fs::PathHelper.call(&vec![s("x.txt")], &ctx, &resolve), Ok(s("/real/x.txt")));
    assert_eq!(
        chord::helper::fs::PathHelper.call(&vec![s("y")], &ctx, &resolve),
        Err("Param invalid for helper \"fs_path\"".to_string())
    );
    assert_eq!(chord::helper::fs::PathHelper.call(&vec![], &ctx, &resolve), Err("Param not found for helper \"fs_path\"".to_string()));
}

#[test]
fn arrays_hold_equal_values() {
    let o1 = Value::Object(JsonMap { entries: vec![("a".to_string(), n(1)), ("b".to_string(), s("x"))] });
    let o2 = Value::Object(JsonMap { entries: vec![("b".to_string(), s("x")), ("a".to_string(), n(1))] });
    let o3 = Value::Object(JsonMap { entries: vec![("b".to_string(), s("y")), ("a".to_string(), n(1))] });
    assert!(chord::value::values_equal(&o1, &o2));
    assert!(!chord::value::values_equal(&o1, &o3));
    assert!(!chord::value::values_equal(&n(1), &s("1")));
    let arr = Value::Array(vec![n(1), o1.deep_clone(), Value::Array(vec![Value::Null])]);
    assert!(chord::helper::arr::arr_contains(&arr, &o2));
    assert!(!chord::helper::arr::arr_contains(&arr, &o3));
    assert!(chord::helper::arr::arr_contains(&arr, &Value::Array(vec![Value::Null])));
    assert!(!chord::helper::arr::arr_contains(&o1, &n(1)));
}
