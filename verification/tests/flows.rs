use chord::flow::{Flow, Then};
use chord::run::arg::ArgStruct;
use chord::run::case::{CaseArgStruct, CaseIdStruct};
use chord::run::task::{StageIdStruct, TaskIdStruct};
use chord::value::{JsonMap, Number, Value};

fn s(t: &str) -> Value {
    Value::String(t.to_string())
}

fn obj(pairs: Vec<(&str, Value)>) -> Value {
    Value::Object(JsonMap { entries: pairs.into_iter().map(|(k, v)| (k.to_string(), v)).collect() })
}

fn stage(extra: Vec<(&str, Value)>, step: &str) -> Value {
    let mut pairs = vec![("step", obj(vec![(step, obj(vec![("a1", obj(vec![("echo", s("hi"))]))]))]))];
    pairs.extend(extra);
    obj(pairs)
}

fn flow_doc(stages: Vec<(&str, Value)>) -> Value {
    obj(vec![("version", s("0.0.1")), ("stage", obj(stages))])
}

fn error_text(v: Value) -> String {
    match Flow::new(v, "/tmp/task") {
        Ok(_) => "ok".to_string(),
        Err(e) => e.to_string(),
    }
}

#[test]
fn flow_accepted_and_read() {
    let doc = flow_doc(vec![("s1", stage(vec![("concurrency", Value::Number(Number::PosInt(2)))], "step1"))]);
    let flow = Flow::new(doc, "/tmp/task").ok().unwrap();
    assert_eq!(flow.version(), "0.0.1");
    assert_eq!(flow.stage_id_vec(), vec!["s1"]);
    assert_eq!(flow.stage_step_id_vec("s1"), vec!["step1"]);
    assert_eq!(flow.stage_concurrency("s1"), 2);
    assert_eq!(flow.stage_round("s1"), 1);
    assert_eq!(flow.stage_duration("s1"), 600);
    assert_eq!(flow.stage_break_on("s1"), "stage_fail");
    assert_eq!(flow.stage_loader("s1"), &Value::Null);
    assert_eq!(flow.step_action_func("step1", "a1"), "echo");
    assert_eq!(flow.step_action_args("step1", "a1"), &s("hi"));
    assert_eq!(flow.meta().get("task_dir"), Some(&s("/tmp/task")));
    assert!(flow.def().is_none());
    assert!(flow.pre_step_id_vec().is_none());
}

#[test]
fn flow_refused_with_first_broken_rule() {
    assert_eq!(error_text(obj(vec![("stage", obj(vec![]))])), "root lost entry `version`");
    assert_eq!(
        error_text(obj(vec![("version", s("1")), ("stage", obj(vec![]))])),
        "version must 0.0.1 but it 1"
    );
    assert_eq!(
        error_text(obj(vec![("version", s("0.0.1")), ("x", Value::Null)])),
        "root unexpect entry `x`"
    );
    assert_eq!(error_text(s("flow")), "root must be a object but it is not");
    assert_eq!(error_text(flow_doc(vec![])), "root lost entry `stage`");
    assert_eq!(error_text(flow_doc(vec![("a-b", stage(vec![], "step1"))])), "invalid id `a-b`");
    assert_eq!(
        error_text(flow_doc(vec![("s1", stage(vec![], "step1")), ("s2", stage(vec![], "step1"))])),
        "duplicated id `step1`"
    );
    assert_eq!(
        error_text(flow_doc(vec![("s1", stage(vec![("concurrency", Value::Number(Number::PosInt(0)))], "step1"))])),
        "stage.s1.concurrency must > 0 but it is 0"
    );
    assert_eq!(
        error_text(flow_doc(vec![("s1", stage(vec![("break_on", s("x"))], "step1"))])),
        "stage.s1.break_on unexpect value x"
    );
    assert_eq!(
        error_text(flow_doc(vec![("s1", stage(vec![("other", s("x"))], "step1"))])),
        "stage.s1 unexpect entry `other`"
    );
}

#[test]
fn step_argument_renders_action_body() {
    let args = obj(vec![("__init__", s("i")), ("x", s("{{a}}"))]);
    let step = obj(vec![("step1", obj(vec![("a1", obj(vec![("echo", args)]))]))]);
    let doc = flow_doc(vec![("s1", obj(vec![("step", step)]))]);
    let flow = Flow::new(doc, "/tmp/task").ok().unwrap();
    let task = TaskIdStruct::new("e".to_string(), "t".to_string());
    let case_id = CaseIdStruct::new(StageIdStruct::new(task, "s1".to_string(), "1".to_string()), "2".to_string());
    let ctx = JsonMap { entries: vec![("a".to_string(), s("A"))] };
    let mut arg = ArgStruct::new(&flow, ctx, case_id, "step1".to_string());
    arg.aid("a1");
    assert_eq!(arg.id().to_string(), "e-t-s1-1-2-step1");
    assert_eq!(arg.init(), Some(&s("i")));
    let render = |c: &JsonMap, t: &String| -> Result<Value, String> {
        if t == "{{a}}" {
            Ok(c.get("a").map(|v| v.deep_clone()).unwrap_or(Value::Null))
        } else {
            Ok(Value::String(t.clone()))
        }
    };
    let body = arg.body(&render).ok().unwrap();
    assert_eq!(body, obj(vec![("__init__", s("i")), ("x", s("A"))]));
    arg.context_mut().insert("a".to_string(), s("B"));
    assert_eq!(arg.context().get("a"), Some(&s("B")));
    let again = arg.render(arg.context(), arg.body_raw(), &render).ok().unwrap();
    assert_eq!(again, obj(vec![("__init__", s("i")), ("x", s("B"))]));
}

#[test]
fn then_reads_back() {
    let t = Then::new(Some("c".to_string()), None, Some("g".to_string()));
    assert_eq!(t.cond(), Some("c"));
    assert!(t.reg().is_none());
    assert_eq!(t.goto(), Some("g"));
}

#[test]
fn case_argument_creates_step_argument() {
    let step = obj(vec![("step1", obj(vec![("a1", obj(vec![("echo", s("x"))]))]))]);
    let doc = flow_doc(vec![("s1", obj(vec![("step", step)]))]);
    let flow = Flow::new(doc, "/tmp/task").ok().unwrap();
    let task = TaskIdStruct::new("e".to_string(), "t".to_string());
    let stage_id = StageIdStruct::new(task, "s1".to_string(), "1".to_string());
    let meta = JsonMap { entries: vec![] };
    let case = CaseArgStruct::new(&meta, s("d"), None, None, stage_id, "7".to_string());
    let arg = case.step_arg_create("step1", &flow);
    assert_eq!(arg.id().to_string(), "e-t-s1-1-7-step1");
    assert_eq!(arg.context().get("case"), Some(&s("d")));
    assert_eq!(arg.context().get("step"), Some(&obj(vec![])));
}
