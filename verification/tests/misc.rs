use chord::conf::Config;
use chord::error::Error;
use chord::job::{child_done, job_children, job_serial, task_id, task_state_of};
use chord::point::{assert_holds, assert_template, is_shared};
use chord::run::task::{batch_bounds, StageIdStruct, TaskIdStruct};
use chord::task::TaskState;
use chord::value::{JsonMap, Value};

fn obj(pairs: Vec<(&str, Value)>) -> Value {
    Value::Object(JsonMap { entries: pairs.into_iter().map(|(k, v)| (k.to_string(), v)).collect() })
}

fn s(t: &str) -> Value {
    Value::String(t.to_string())
}

#[test]
fn config_defaults() {
    let c = Config::new(Value::Object(JsonMap::new()), Some("/home/u".to_string()));
    assert_eq!(c.log_dir(), "/home/u/.chord/output");
    assert_eq!(
        c.log_level(),
        vec![("root".to_string(), "warn".to_string()), ("chord".to_string(), "trace".to_string())]
    );
    assert_eq!(c.action(), None);
    let report = c.report().unwrap();
    assert_eq!(report.get("csv").and_then(|x| x.get("dir")), Some(&s("/home/u/.chord/output")));
    let c = Config::new(Value::Object(JsonMap::new()), None);
    assert_eq!(c.log_dir(), "/data/chord/output");
}

#[test]
fn config_given() {
    let conf = obj(vec![
        ("log", obj(vec![("dir", s("/var/log")), ("level", obj(vec![("a", s("info")), ("b", Value::Null)]))])),
        ("report", s("r")),
        ("action", s("x")),
    ]);
    let c = Config::new(conf, None);
    assert_eq!(c.log_dir(), "/var/log");
    assert_eq!(c.log_level(), vec![("a".to_string(), "info".to_string())]);
    assert_eq!(c.report(), Some(&s("r")));
    assert_eq!(c.action(), Some(&s("x")));
}

#[test]
fn job_entries_sorted_and_valid() {
    let names = vec!["b".to_string(), "a-x".to_string(), "a".to_string(), "B".to_string()];
    assert_eq!(job_children(&names), vec!["B".to_string(), "a".to_string(), "b".to_string()]);
    assert!(job_serial(&obj(vec![("job", obj(vec![("serial", Value::Bool(true))]))])));
    assert!(!job_serial(&obj(vec![("job", obj(vec![("serial", s("true"))]))])));
    assert!(!job_serial(&Value::Null));
    assert_eq!(task_id(&vec!["a".to_string(), "b".to_string()], "root"), "a.b");
    assert_eq!(task_id(&vec![], "root"), "root");
    match task_state_of(Err("e".to_string())) {
        TaskState::Error(m) => assert_eq!(m, "e"),
        _ => panic!("expected an error state"),
    }
}

#[test]
fn points() {
    assert!(is_shared("{{def.x}}"));
    assert!(!is_shared("a {{data.x}}"));
    assert!(!is_shared("{{dyn.y}}"));
    assert!(!is_shared("{{res.z}}"));
    assert_eq!(assert_template("eq a b"), "{{#if eq a b}}true{{else}}false{{/if}}");
    assert!(assert_holds(&Ok("true".to_string())));
    assert!(!assert_holds(&Ok("false".to_string())));
    assert!(!assert_holds(&Err("x".to_string())));
}

#[test]
fn ids_and_batches() {
    let t = TaskIdStruct::new("e1".to_string(), "t1".to_string());
    assert_eq!(t.to_string(), "e1-t1");
    let st = StageIdStruct::new(t.duplicate(), "s1".to_string(), "2".to_string());
    assert_eq!(st.to_string(), "e1-t1-s1-2");
    assert_eq!(batch_bounds(5, 2), vec![(0, 2), (2, 4), (4, 5)]);
    assert_eq!(batch_bounds(2, 0), vec![(0, 1), (1, 2)]);
    assert_eq!(batch_bounds(0, 3), vec![]);
}

#[test]
fn errors_read() {
    let e = Error::new("c".to_string(), "m".to_string());
    assert_eq!(e.code(), "c");
    assert_eq!(e.message(), "m");
    assert_eq!(e.to_string(), "{ code: c, message: m }");
}

#[test]
fn error_with_cause_shows_it_on_a_line_of_its_own() {
    let e = Error::cause("io".to_string(), "read failed".to_string(), "no such file".to_string());
    assert_eq!(e.code(), "io");
    assert_eq!(e.message(), "read failed");
    assert_eq!(e.to_string(), "{ code: io, message: read failed }\nno such file");
}

#[test]
fn job_entries_join_in_order_until_an_error() {
    let mut states = vec![TaskState::Success];
    assert!(child_done(&mut states, Ok(vec![TaskState::Fail("c".to_string())])).is_none());
    assert_eq!(states.len(), 2);
    assert!(matches!(&states[1], TaskState::Fail(c) if c == "c"));
    assert_eq!(child_done(&mut states, Err("boom".to_string())), Some("boom".to_string()));
    assert_eq!(states.len(), 2);
}
