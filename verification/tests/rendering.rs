use chord::run::render::{assign_by_render, read_rendered, render_plan, render_text, render_value, RenderKind};
use chord::value::{JsonMap, Number, Value};

fn s(t: &str) -> Value {
    Value::String(t.to_string())
}

fn parse(t: &String) -> Option<Value> {
    match t.as_str() {
        "1" => Some(Value::Number(Number::PosInt(1))),
        "true" => Some(Value::Bool(true)),
        "{}" => Some(Value::Object(JsonMap::new())),
        "[]" => Some(Value::Array(vec![])),
        "\"x\"" => Some(s("x")),
        _ => None,
    }
}

#[test]
fn plans_of_texts() {
    let p = render_plan("{{num a}}");
    assert_eq!(p.kind, RenderKind::Num);
    assert_eq!(p.template, "{{num a}}");
    let p = render_plan("{{ obj a }}");
    assert_eq!(p.kind, RenderKind::Obj);
    assert_eq!(p.template, "{{str (obj a) }}");
    let p = render_plan("{{arr a}}");
    assert_eq!(p.kind, RenderKind::Arr);
    assert_eq!(p.template, "{{str (arr a) }}");
    let p = render_plan("{{json a}}");
    assert_eq!(p.kind, RenderKind::Json);
    assert_eq!(p.template, "{{str (json a) }}");
    let p = render_plan("{{bool a}}");
    assert_eq!(p.kind, RenderKind::Bool);
    let p = render_plan("x {{num a}}");
    assert_eq!(p.kind, RenderKind::Text);
    let p = render_plan("{{num a}}{{b}}");
    assert_eq!(p.kind, RenderKind::Text);
    let p = render_plan("{{a}}");
    assert_eq!(p.kind, RenderKind::Text);
    assert_eq!(p.template, "{{a}}");
}

#[test]
fn rendered_texts_read_as_their_kind() {
    assert_eq!(read_rendered(&RenderKind::Num, "1".to_string(), &parse), Ok(Value::Number(Number::PosInt(1))));
    assert_eq!(read_rendered(&RenderKind::Num, "true".to_string(), &parse), Err("invalid arg of num".to_string()));
    assert_eq!(read_rendered(&RenderKind::Bool, "true".to_string(), &parse), Ok(Value::Bool(true)));
    assert_eq!(read_rendered(&RenderKind::Bool, "z".to_string(), &parse), Err("invalid arg of bool".to_string()));
    assert_eq!(read_rendered(&RenderKind::Obj, "{}".to_string(), &parse), Ok(Value::Object(JsonMap::new())));
    assert_eq!(read_rendered(&RenderKind::Arr, "{}".to_string(), &parse), Err("invalid arg of arr".to_string()));
    assert_eq!(read_rendered(&RenderKind::Json, "\"x\"".to_string(), &parse), Ok(s("x")));
    assert_eq!(read_rendered(&RenderKind::Json, "?".to_string(), &parse), Err("invalid arg of json".to_string()));
    assert_eq!(read_rendered(&RenderKind::Text, "?".to_string(), &parse), Ok(s("?")));
}

#[test]
fn texts_render_through_their_plan() {
    let render = |ctx: &JsonMap, t: &String| -> Result<String, String> {
        if t == "{{num a}}" {
            Ok(match ctx.get("a") {
                Some(Value::String(x)) => x.clone(),
                _ => "".to_string(),
            })
        } else if t.contains("bad") {
            Err("render failed".to_string())
        } else {
            Ok(t.to_uppercase())
        }
    };
    let ctx = JsonMap { entries: vec![("a".to_string(), s("1"))] };
    assert_eq!(render_text(&render, &parse, &ctx, &"{{num a}}".to_string()), Ok(Value::Number(Number::PosInt(1))));
    assert_eq!(render_text(&render, &parse, &ctx, &"hi".to_string()), Ok(s("HI")));
    assert_eq!(render_text(&render, &parse, &ctx, &"bad".to_string()), Err("render failed".to_string()));
}

fn upper(_: &JsonMap, t: &String) -> Result<Value, String> {
    if t == "fail" {
        Err("boom".to_string())
    } else {
        Ok(Value::String(t.to_uppercase()))
    }
}

#[test]
fn values_render_depth_first_and_stop_at_failure() {
    let v = Value::Array(vec![s("a"), Value::Object(JsonMap { entries: vec![("k".to_string(), s("b"))] }), Value::Null]);
    let (r, e) = render_value(&upper, &JsonMap::new(), &v);
    assert_eq!(e, None);
    assert_eq!(
        r,
        Value::Array(vec![s("A"), Value::Object(JsonMap { entries: vec![("k".to_string(), s("B"))] }), Value::Null])
    );
    let v = Value::Array(vec![s("a"), s("fail"), s("c")]);
    let (r, e) = render_value(&upper, &JsonMap::new(), &v);
    assert_eq!(e, Some("boom".to_string()));
    assert_eq!(r, Value::Array(vec![s("A"), s("fail"), s("c")]));
}

fn from_ctx(ctx: &JsonMap, t: &String) -> Result<Value, String> {
    if let Some(rest) = t.strip_prefix("@") {
        match ctx.get(rest) {
            Some(v) => Ok(v.deep_clone()),
            None => Err(format!("no {}", rest)),
        }
    } else {
        Ok(Value::String(t.clone()))
    }
}

#[test]
fn sections_render_in_order_in_a_growing_context() {
    let raw = JsonMap { entries: vec![("a".to_string(), s("x")), ("b".to_string(), s("@a")), ("c".to_string(), s("@z"))] };
    let r = assign_by_render(&from_ctx, &JsonMap::new(), &raw, true).ok().unwrap();
    assert_eq!(r.get("a"), Some(&s("x")));
    assert_eq!(r.get("b"), Some(&s("x")));
    assert_eq!(r.get("c"), Some(&s("@z")));
    let e = assign_by_render(&from_ctx, &JsonMap::new(), &raw, false);
    assert_eq!(e.err(), Some("no z".to_string()));
}

#[test]
fn values_without_text_render_unchanged() {
    let fail = |_: &JsonMap, _: &String| -> Result<Value, String> { Err("never".to_string()) };
    let v = Value::Array(vec![
        Value::Null,
        Value::Bool(true),
        Value::Number(Number::NegInt(-3)),
        Value::Object(JsonMap { entries: vec![("k".to_string(), Value::Array(vec![]))] }),
    ]);
    let (r, e) = render_value(&fail, &JsonMap::new(), &v);
    assert!(e.is_none());
    assert_eq!(r, v);
}

#[test]
fn assigned_sections_keep_their_keys() {
    let up = |_: &JsonMap, t: &String| -> Result<Value, String> { Ok(Value::String(t.to_uppercase())) };
    let raw = JsonMap { entries: vec![("b".to_string(), s("x")), ("a".to_string(), s("y"))] };
    let r = assign_by_render(&up, &JsonMap::new(), &raw, false).ok().unwrap();
    assert_eq!(r.entries, vec![("b".to_string(), s("X")), ("a".to_string(), s("Y"))]);
}
