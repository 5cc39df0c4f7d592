use chord::flow::Flow;
use chord::run::machine::{TaskAction, TaskEvent, TaskMachine};
use chord::run::task::TaskIdStruct;
use chord::task::{StageState, TaskState};
use chord::value::{JsonMap, Number, Value};

fn s(t: &str) -> Value {
    Value::String(t.to_string())
}

fn obj(pairs: Vec<(&str, Value)>) -> Value {
    Value::Object(JsonMap { entries: pairs.into_iter().map(|(k, v)| (k.to_string(), v)).collect() })
}

fn stage(extra: Vec<(&str, Value)>, step: &str) -> Value {
    let mut pairs = vec![("step", obj(vec![(step, obj(vec![("a1", obj(vec![("echo", s("hi"))]))]))]))];
    pairs.extend(extra);
    obj(pairs)
}

fn two_stage_flow(break_on: &str) -> Flow {
    let doc = obj(vec![
        ("version", s("0.0.1")),
        (
            "stage",
            obj(vec![
                (
                    "s1",
                    stage(
                        vec![("concurrency", Value::Number(Number::PosInt(3))), ("break_on", s(break_on))],
                        "step1",
                    ),
                ),
                ("s2", stage(vec![], "step2")),
            ]),
        ),
    ]);
    Flow::new(doc, "/tmp/task").ok().unwrap()
}

fn task() -> TaskIdStruct {
    TaskIdStruct::new("e".to_string(), "t".to_string())
}

#[test]
fn a_task_runs_its_stages_reporting_each_step() {
    let flow = two_stage_flow("stage_fail");
    let mut m = TaskMachine::new(&flow, task());
    assert!(matches!(m.step(TaskEvent::Started), TaskAction::StartReport));
    assert!(matches!(m.step(TaskEvent::ReporterStarted(None)), TaskAction::PrepareStage(0)));
    assert!(matches!(m.step(TaskEvent::StagePrepared(None)), TaskAction::OpenRound(0, 1)));
    assert!(matches!(m.step(TaskEvent::RoundOpened(None)), TaskAction::StartStageReport(0, 1)));
    assert!(matches!(m.step(TaskEvent::StageReporterStarted(None)), TaskAction::Load(0, 1, 3)));
    assert!(matches!(m.step(TaskEvent::Loaded(Ok(2))), TaskAction::RunCases));
    assert!(matches!(m.step(TaskEvent::CasesRan(None)), TaskAction::ReportCases));
    assert!(matches!(m.step(TaskEvent::CasesReported(None)), TaskAction::Load(0, 1, 3)));
    assert!(matches!(m.step(TaskEvent::Loaded(Ok(0))), TaskAction::EndStageReport(StageState::Success)));
    assert!(matches!(m.step(TaskEvent::StageReporterEnded(None)), TaskAction::PrepareStage(1)));
    assert!(matches!(m.step(TaskEvent::StagePrepared(None)), TaskAction::OpenRound(1, 1)));
    assert!(matches!(m.step(TaskEvent::TimedOut), TaskAction::EndReport(TaskState::Success)));
    assert!(matches!(m.step(TaskEvent::TaskReported(None)), TaskAction::Finish(TaskState::Success)));
}

#[test]
fn a_failed_stage_that_breaks_ends_the_task_failed() {
    let flow = two_stage_flow("stage_fail");
    let mut m = TaskMachine::new(&flow, task());
    m.step(TaskEvent::Started);
    m.step(TaskEvent::ReporterStarted(None));
    m.step(TaskEvent::StagePrepared(None));
    m.step(TaskEvent::RoundOpened(None));
    m.step(TaskEvent::StageReporterStarted(None));
    m.step(TaskEvent::Loaded(Ok(1)));
    m.step(TaskEvent::CasesRan(Some("step: x".to_string())));
    m.step(TaskEvent::CasesReported(None));
    match m.step(TaskEvent::Loaded(Ok(0))) {
        TaskAction::EndStageReport(StageState::Fail(c)) => assert_eq!(c, "step: x"),
        other => panic!("{:?}", other),
    }
    match m.step(TaskEvent::StageReporterEnded(None)) {
        TaskAction::EndReport(TaskState::Fail(c)) => assert_eq!(c, "step: x"),
        other => panic!("{:?}", other),
    }
    match m.step(TaskEvent::TaskReported(None)) {
        TaskAction::Finish(TaskState::Fail(c)) => assert_eq!(c, "step: x"),
        other => panic!("{:?}", other),
    }
}

#[test]
fn errors_are_reported_before_the_task_ends() {
    let flow = two_stage_flow("never");
    let mut m = TaskMachine::new(&flow, task());
    m.step(TaskEvent::Started);
    m.step(TaskEvent::ReporterStarted(None));
    m.step(TaskEvent::StagePrepared(None));
    m.step(TaskEvent::RoundOpened(None));
    m.step(TaskEvent::StageReporterStarted(None));
    match m.step(TaskEvent::Loaded(Ok(0))) {
        TaskAction::EndStageReport(StageState::Error(e)) => assert_eq!(e, "stage `e-t-s1-1` case is empty"),
        other => panic!("{:?}", other),
    }
    match m.step(TaskEvent::StageReporterEnded(None)) {
        TaskAction::EndReport(TaskState::Error(e)) => assert_eq!(e, "stage `e-t-s1-1` case is empty"),
        other => panic!("{:?}", other),
    }
    match m.step(TaskEvent::TaskReported(Some("disk full".to_string()))) {
        TaskAction::Finish(TaskState::Error(e)) => assert_eq!(e, "task `t` reporter error:\ndisk full"),
        other => panic!("{:?}", other),
    }
}

#[test]
fn reporter_failures_end_the_task() {
    let flow = two_stage_flow("stage_fail");
    let mut m = TaskMachine::new(&flow, task());
    m.step(TaskEvent::Started);
    match m.step(TaskEvent::ReporterStarted(Some("no".to_string()))) {
        TaskAction::Finish(TaskState::Error(e)) => assert_eq!(e, "task `t` reporter error:\nno"),
        other => panic!("{:?}", other),
    }
    let mut m = TaskMachine::new(&flow, task());
    m.step(TaskEvent::Started);
    m.step(TaskEvent::ReporterStarted(None));
    m.step(TaskEvent::StagePrepared(None));
    m.step(TaskEvent::RoundOpened(None));
    match m.step(TaskEvent::StageReporterStarted(Some("no".to_string()))) {
        TaskAction::EndReport(TaskState::Error(e)) => assert_eq!(e, "stage `e-t-s1-1` reporter error:\nno"),
        other => panic!("{:?}", other),
    }
    let mut m = TaskMachine::new(&flow, task());
    m.step(TaskEvent::Started);
    m.step(TaskEvent::ReporterStarted(None));
    m.step(TaskEvent::StagePrepared(None));
    match m.step(TaskEvent::RoundOpened(Some("gone".to_string()))) {
        TaskAction::EndReport(TaskState::Error(e)) => assert_eq!(e, "stage `e-t-s1-1` loader error:\ngone"),
        other => panic!("{:?}", other),
    }
}

#[test]
fn a_failed_report_of_cases_breaks_off_the_round() {
    let flow = two_stage_flow("stage_fail");
    let mut m = TaskMachine::new(&flow, task());
    m.step(TaskEvent::Started);
    m.step(TaskEvent::ReporterStarted(None));
    m.step(TaskEvent::StagePrepared(None));
    m.step(TaskEvent::RoundOpened(None));
    m.step(TaskEvent::StageReporterStarted(None));
    m.step(TaskEvent::Loaded(Ok(1)));
    m.step(TaskEvent::CasesRan(None));
    match m.step(TaskEvent::CasesReported(Some("x".to_string()))) {
        TaskAction::EndStageReport(StageState::Error(e)) => assert_eq!(e, "stage `e-t-s1-1` reporter error:\nx"),
        other => panic!("{:?}", other),
    }
    match m.step(TaskEvent::StageReporterEnded(Some("y".to_string()))) {
        TaskAction::EndReport(TaskState::Error(e)) => assert_eq!(e, "stage `e-t-s1-1` reporter error:\ny"),
        other => panic!("{:?}", other),
    }
}
