//! The course of a task: which outside work comes next, from what the
//! work before it gave. The runner performs each action and reports its
//! outcome as an event; the machine decides the next action.
//!
//! A task starts its reporter, renders its definitions, runs its pre steps,
//! then runs its stages in order, and at last reports how it ended. A stage
//! prepares its steps, then runs its rounds. A round opens its loader,
//! starts its reporter, loads pages of rows and runs a case on each,
//! reporting each page's cases, until a load is empty; then it reports how
//! it ended. A stage that runs out of time ends at once. The task stops
//! after a failed stage that breaks on `stage_fail`, and at the first error.
use vstd::prelude::*;

use crate::flow::{stage_of, Flow};
use crate::run::task::{run_error_message, RunError, TaskIdStruct};
use crate::task::{StageState, TaskState};
use crate::text::{concat, concat3, decimal, u64_to_string};
use crate::value::{index_key, string_of, u64_of, JVal};

verus! {

/// Where a task is.
#[derive(Debug, Clone, Copy, PartialEq, Eq, Structural)]
pub enum Phase {
    /// Not started.
    Start,
    /// Starting its reporter.
    Opening,
    /// Rendering its definitions.
    Def,
    /// Running its pre steps.
    Pre,
    /// Preparing the steps of a stage.
    Prepare,
    /// Opening the loader of a stage round.
    OpenRound,
    /// Starting the reporter of a stage round.
    StageStart,
    /// Loading a page of rows of a stage round.
    Load,
    /// Running the cases of a page.
    Cases,
    /// Reporting the cases of a page.
    Reporting,
    /// Reporting how a stage round ended.
    StageEnd,
    /// Reporting how the task ended.
    TaskEnd,
    /// Finished.
    Done,
}

/// What the runner reports of the work it did.
#[derive(Debug)]
pub enum TaskEvent {
    /// The task starts.
    Started,
    /// The task's reporter started; its error, if any.
    ReporterStarted(Option<String>),
    /// The definitions were rendered; the rendering's error, if any.
    DefRendered(Option<String>),
    /// The pre steps ran, with this outcome.
    PreRan(Result<(), RunError>),
    /// The steps of the stage were prepared; the error, if any.
    StagePrepared(Option<RunError>),
    /// The loader of the round was opened; the loader's message, if it
    /// failed.
    RoundOpened(Option<String>),
    /// The reporter of the round was made and started; its message, if it
    /// failed.
    StageReporterStarted(Option<String>),
    /// A page was loaded: the number of its rows, or the loader's message.
    Loaded(Result<usize, String>),
    /// The cases of the page ran: the cause of the first that did not
    /// succeed, if any.
    CasesRan(Option<String>),
    /// The cases of the page were reported; the reporter's message, if it
    /// failed.
    CasesReported(Option<String>),
    /// How the round ended was reported; the reporter's message, if it
    /// failed.
    StageReporterEnded(Option<String>),
    /// How the task ended was reported; the reporter's message, if it
    /// failed.
    TaskReported(Option<String>),
    /// The stage ran out of time.
    TimedOut,
}

/// The work the runner is to do next.
#[derive(Debug)]
pub enum TaskAction {
    /// Start the task's reporter.
    StartReport,
    /// Render the definitions.
    RenderDef,
    /// Run the pre steps.
    RunPre,
    /// Prepare the steps of the stage at this position.
    PrepareStage(usize),
    /// Open the loader of this round of the stage at this position.
    OpenRound(usize, usize),
    /// Make and start the reporter of this round of the stage at this
    /// position.
    StartStageReport(usize, usize),
    /// Load a page of this many rows for this round of the stage at this
    /// position.
    Load(usize, usize, usize),
    /// Run the cases of the page loaded.
    RunCases,
    /// Report the cases of the page that ran.
    ReportCases,
    /// Report that the round ended in this state.
    EndStageReport(StageState),
    /// Report that the task ended in this state.
    EndReport(TaskState),
    /// The task is over, in this state.
    Finish(TaskState),
}

/// The mathematical form of a task or stage state.
pub enum TState {
    Success,
    Fail(Seq<char>),
    Error(Seq<char>),
}

/// The mathematical form of an event.
pub enum EventV {
    Started,
    ReporterStarted(Option<Seq<char>>),
    DefRendered(Option<Seq<char>>),
    PreRan(Option<Seq<char>>),
    StagePrepared(Option<Seq<char>>),
    RoundOpened(Option<Seq<char>>),
    StageReporterStarted(Option<Seq<char>>),
    Loaded(Result<nat, Seq<char>>),
    CasesRan(Option<Seq<char>>),
    CasesReported(Option<Seq<char>>),
    StageReporterEnded(Option<Seq<char>>),
    TaskReported(Option<Seq<char>>),
    TimedOut,
}

/// The mathematical form of an action.
pub enum ActionV {
    StartReport,
    RenderDef,
    RunPre,
    PrepareStage(int),
    OpenRound(int, int),
    StartStageReport(int, int),
    Load(int, int, int),
    RunCases,
    ReportCases,
    EndStageReport(TState),
    EndReport(TState),
    Finish(TState),
}

/// The mathematical form of where a task is: the phase, the position of
/// the stage and the round, whether the next load is the round's first,
/// the causes for which the stage and the task failed, if they did, the
/// error that broke off the round, if one did, and the state whose report
/// ends the task.
pub struct ProgressV {
    pub phase: Phase,
    pub stage: int,
    pub round: int,
    pub first_load: bool,
    pub stage_fail: Option<Seq<char>>,
    pub task_fail: Option<Seq<char>>,
    pub round_error: Option<Seq<char>>,
    pub ending: TState,
}

/// What a task's course depends on besides the events: the flow document,
/// its stage ids, whether it has definitions and pre steps, the text of
/// the task's id and the task's name.
pub struct FixedV {
    pub doc: JVal,
    pub stages: Seq<Seq<char>>,
    pub has_def: bool,
    pub has_pre: bool,
    pub task_text: Seq<char>,
    pub task_name: Seq<char>,
}

pub open spec fn opt_view(o: Option<String>) -> Option<Seq<char>> {
    match o {
        Some(s) => Some(s@),
        None => None,
    }
}

pub open spec fn task_state_view(s: TaskState) -> TState {
    match s {
        TaskState::Success => TState::Success,
        TaskState::Fail(c) => TState::Fail(c@),
        TaskState::Error(m) => TState::Error(m@),
    }
}

pub open spec fn stage_state_view(s: StageState) -> TState {
    match s {
        StageState::Success => TState::Success,
        StageState::Fail(c) => TState::Fail(c@),
        StageState::Error(m) => TState::Error(m@),
    }
}

pub open spec fn event_view(e: TaskEvent) -> EventV {
    match e {
        TaskEvent::Started => EventV::Started,
        TaskEvent::ReporterStarted(o) => EventV::ReporterStarted(opt_view(o)),
        TaskEvent::DefRendered(o) => EventV::DefRendered(opt_view(o)),
        TaskEvent::PreRan(r) => EventV::PreRan(
            match r {
                Ok(_) => None,
                Err(e) => Some(run_error_message(e)),
            },
        ),
        TaskEvent::StagePrepared(o) => EventV::StagePrepared(
            match o {
                Some(e) => Some(run_error_message(e)),
                None => None,
            },
        ),
        TaskEvent::RoundOpened(o) => EventV::RoundOpened(opt_view(o)),
        TaskEvent::StageReporterStarted(o) => EventV::StageReporterStarted(opt_view(o)),
        TaskEvent::Loaded(r) => EventV::Loaded(
            match r {
                Ok(n) => Ok(n as nat),
                Err(m) => Err(m@),
            },
        ),
        TaskEvent::CasesRan(o) => EventV::CasesRan(opt_view(o)),
        TaskEvent::CasesReported(o) => EventV::CasesReported(opt_view(o)),
        TaskEvent::StageReporterEnded(o) => EventV::StageReporterEnded(opt_view(o)),
        TaskEvent::TaskReported(o) => EventV::TaskReported(opt_view(o)),
        TaskEvent::TimedOut => EventV::TimedOut,
    }
}

pub open spec fn action_view(a: TaskAction) -> ActionV {
    match a {
        TaskAction::StartReport => ActionV::StartReport,
        TaskAction::RenderDef => ActionV::RenderDef,
        TaskAction::RunPre => ActionV::RunPre,
        TaskAction::PrepareStage(s) => ActionV::PrepareStage(s as int),
        TaskAction::OpenRound(s, r) => ActionV::OpenRound(s as int, r as int),
        TaskAction::StartStageReport(s, r) => ActionV::StartStageReport(s as int, r as int),
        TaskAction::Load(s, r, n) => ActionV::Load(s as int, r as int, n as int),
        TaskAction::RunCases => ActionV::RunCases,
        TaskAction::ReportCases => ActionV::ReportCases,
        TaskAction::EndStageReport(t) => ActionV::EndStageReport(stage_state_view(t)),
        TaskAction::EndReport(t) => ActionV::EndReport(task_state_view(t)),
        TaskAction::Finish(t) => ActionV::Finish(task_state_view(t)),
    }
}

/// The number of rounds of a stage.
pub open spec fn round_max(doc: JVal, sid: Seq<char>) -> int {
    match u64_of(index_key(stage_of(doc, sid), "round"@)) {
        Some(n) => (n as usize) as int,
        None => 1,
    }
}

/// The number of rows of a page of a stage.
pub open spec fn page_size(doc: JVal, sid: Seq<char>) -> int {
    match u64_of(index_key(stage_of(doc, sid), "concurrency"@)) {
        Some(n) => (n as usize) as int,
        None => 10,
    }
}

/// When a stage breaks the task.
pub open spec fn break_on(doc: JVal, sid: Seq<char>) -> Seq<char> {
    match string_of(index_key(stage_of(doc, sid), "break_on"@)) {
        Some(b) => b,
        None => "stage_fail"@,
    }
}

/// The text of the id of a round of a stage of the task.
pub open spec fn round_text(fx: FixedV, p: ProgressV) -> Seq<char> {
    fx.task_text + "-"@ + fx.stages[p.stage] + "-"@ + decimal(p.round as nat)
}

/// Whether a phase belongs to a stage round, which the stage's time limit
/// can break off.
pub open spec fn in_round(phase: Phase) -> bool {
    phase == Phase::OpenRound || phase == Phase::StageStart || phase == Phase::Load || phase == Phase::Cases
        || phase == Phase::Reporting || phase == Phase::StageEnd
}

/// Whether an event is one that the phase waits for.
pub open spec fn accepts(phase: Phase, e: EventV) -> bool {
    match e {
        EventV::Started => phase == Phase::Start,
        EventV::ReporterStarted(_) => phase == Phase::Opening,
        EventV::DefRendered(_) => phase == Phase::Def,
        EventV::PreRan(_) => phase == Phase::Pre,
        EventV::StagePrepared(_) => phase == Phase::Prepare,
        EventV::RoundOpened(_) => phase == Phase::OpenRound,
        EventV::StageReporterStarted(_) => phase == Phase::StageStart,
        EventV::Loaded(_) => phase == Phase::Load,
        EventV::CasesRan(_) => phase == Phase::Cases,
        EventV::CasesReported(_) => phase == Phase::Reporting,
        EventV::StageReporterEnded(_) => phase == Phase::StageEnd,
        EventV::TaskReported(_) => phase == Phase::TaskEnd,
        EventV::TimedOut => in_round(phase),
    }
}

/// The message of a reporter of kind `kind` for `id` that failed with `m`.
pub open spec fn reporter_error(kind: Seq<char>, id: Seq<char>, m: Seq<char>) -> Seq<char> {
    kind + " `"@ + id + "` reporter error:\n"@ + m
}

/// The message of the loader of round `id` that failed with `m`.
pub open spec fn loader_error(id: Seq<char>, m: Seq<char>) -> Seq<char> {
    "stage `"@ + id + "` loader error:\n"@ + m
}

/// The state a task ends in without an error: failed with the cause of
/// its last failed batch of cases, if any, else successful.
pub open spec fn final_state(p: ProgressV) -> TState {
    match p.task_fail {
        Some(c) => TState::Fail(c),
        None => TState::Success,
    }
}

/// The state a round reports it ended in: the error that broke it off, if
/// one did, else failed with the stage's cause, if it failed, else
/// successful.
pub open spec fn round_state(p: ProgressV) -> TState {
    match p.round_error {
        Some(m) => TState::Error(m),
        None => match p.stage_fail {
            Some(c) => TState::Fail(c),
            None => TState::Success,
        },
    }
}

/// The task is over in state `st`.
pub open spec fn finish(p: ProgressV, st: TState) -> (ProgressV, ActionV) {
    (ProgressV { phase: Phase::Done, ..p }, ActionV::Finish(st))
}

/// The task reports that it ends in state `st`.
pub open spec fn end_task(p: ProgressV, st: TState) -> (ProgressV, ActionV) {
    (ProgressV { phase: Phase::TaskEnd, ending: st, ..p }, ActionV::EndReport(st))
}

/// Preparing the stage at position `s`, as yet not failed.
pub open spec fn prepare(p: ProgressV, s: int) -> (ProgressV, ActionV) {
    (ProgressV { phase: Phase::Prepare, stage: s, stage_fail: None, ..p }, ActionV::PrepareStage(s))
}

/// Going on to the stages, from the first.
pub open spec fn begin_stages(fx: FixedV, p: ProgressV) -> (ProgressV, ActionV) {
    if fx.stages.len() == 0 {
        end_task(p, final_state(p))
    } else {
        prepare(p, 0)
    }
}

/// Where the task goes once its reporter started: its definitions, its
/// pre steps, or its stages.
pub open spec fn after_start(fx: FixedV, p: ProgressV) -> (ProgressV, ActionV) {
    if fx.has_def {
        (ProgressV { phase: Phase::Def, ..p }, ActionV::RenderDef)
    } else if fx.has_pre {
        (ProgressV { phase: Phase::Pre, ..p }, ActionV::RunPre)
    } else {
        begin_stages(fx, p)
    }
}

/// After a stage: the task ends where the stage failed and breaks on
/// `stage_fail`, or where it was the last; else the next stage comes.
pub open spec fn stage_end(fx: FixedV, p: ProgressV) -> (ProgressV, ActionV) {
    if (p.stage_fail is Some && break_on(fx.doc, fx.stages[p.stage]) == "stage_fail"@) || p.stage + 1
        >= fx.stages.len() {
        end_task(p, final_state(p))
    } else {
        prepare(p, p.stage + 1)
    }
}

/// Opening round `r` of the current stage.
pub open spec fn open_round(p: ProgressV, r: int) -> (ProgressV, ActionV) {
    (
        ProgressV { phase: Phase::OpenRound, round: r, round_error: None, ..p },
        ActionV::OpenRound(p.stage, r),
    )
}

/// Loading a page of the current round.
pub open spec fn load_page(fx: FixedV, p: ProgressV) -> (ProgressV, ActionV) {
    (
        ProgressV { phase: Phase::Load, ..p },
        ActionV::Load(p.stage, p.round, page_size(fx.doc, fx.stages[p.stage])),
    )
}

/// Reporting how the current round ended, broken off by `err` if that is
/// an error.
pub open spec fn end_round(p: ProgressV, err: Option<Seq<char>>) -> (ProgressV, ActionV) {
    let q = ProgressV { phase: Phase::StageEnd, round_error: err, ..p };
    (q, ActionV::EndStageReport(round_state(q)))
}

/// After a round: the next round of the stage, or the end of the stage.
pub open spec fn round_end(fx: FixedV, p: ProgressV) -> (ProgressV, ActionV) {
    if p.round < round_max(fx.doc, fx.stages[p.stage]) {
        open_round(p, p.round + 1)
    } else {
        stage_end(fx, p)
    }
}

/// Where a task goes from `p` on event `e`, and what it does.
pub open spec fn next(fx: FixedV, p: ProgressV, e: EventV) -> (ProgressV, ActionV) {
    match e {
        EventV::Started => (ProgressV { phase: Phase::Opening, ..p }, ActionV::StartReport),
        EventV::ReporterStarted(Some(m)) => finish(p, TState::Error(reporter_error("task"@, fx.task_name, m))),
        EventV::ReporterStarted(None) => after_start(fx, p),
        EventV::DefRendered(Some(m)) => finish(p, TState::Error("`def` render:\n"@ + m)),
        EventV::DefRendered(None) => if fx.has_pre {
            (ProgressV { phase: Phase::Pre, ..p }, ActionV::RunPre)
        } else {
            begin_stages(fx, p)
        },
        EventV::PreRan(Some(m)) => finish(p, TState::Error(m)),
        EventV::PreRan(None) => begin_stages(fx, p),
        EventV::StagePrepared(Some(m)) => end_task(p, TState::Error(m)),
        EventV::StagePrepared(None) => open_round(p, 1),
        EventV::RoundOpened(Some(m)) => end_task(p, TState::Error(loader_error(round_text(fx, p), m))),
        EventV::RoundOpened(None) => (
            ProgressV { phase: Phase::StageStart, ..p },
            ActionV::StartStageReport(p.stage, p.round),
        ),
        EventV::StageReporterStarted(Some(m)) => end_task(
            p,
            TState::Error(reporter_error("stage"@, round_text(fx, p), m)),
        ),
        EventV::StageReporterStarted(None) => load_page(fx, ProgressV { first_load: true, ..p }),
        EventV::Loaded(Err(m)) => end_round(p, Some(loader_error(round_text(fx, p), m))),
        EventV::Loaded(Ok(n)) => if n > 0 {
            (ProgressV { phase: Phase::Cases, first_load: false, ..p }, ActionV::RunCases)
        } else if p.first_load {
            end_round(p, Some("stage `"@ + round_text(fx, p) + "` case is empty"@))
        } else {
            end_round(p, None)
        },
        EventV::CasesRan(c) => {
            let q = match c {
                Some(cause) => ProgressV { stage_fail: Some(cause), task_fail: Some(cause), ..p },
                None => p,
            };
            (ProgressV { phase: Phase::Reporting, ..q }, ActionV::ReportCases)
        },
        EventV::CasesReported(Some(m)) => end_round(p, Some(reporter_error("stage"@, round_text(fx, p), m))),
        EventV::CasesReported(None) => load_page(fx, p),
        EventV::StageReporterEnded(Some(m)) => end_task(
            p,
            TState::Error(reporter_error("stage"@, round_text(fx, p), m)),
        ),
        EventV::StageReporterEnded(None) => match p.round_error {
            Some(m) => end_task(p, TState::Error(m)),
            None => round_end(fx, p),
        },
        EventV::TaskReported(Some(m)) => finish(p, TState::Error(reporter_error("task"@, fx.task_name, m))),
        EventV::TaskReported(None) => finish(p, p.ending),
        EventV::TimedOut => stage_end(fx, p),
    }
}

/// Stages run in order: a stage is prepared first once the task is under
/// way, and afterwards only right after a round of the one before it.
pub proof fn law_stages_in_order(fx: FixedV, p: ProgressV, e: EventV)
    requires
        accepts(p.phase, e),
    ensures
        next(fx, p, e).1 matches ActionV::PrepareStage(k) ==> (k == 0 && (p.phase == Phase::Opening || p.phase
            == Phase::Def || p.phase == Phase::Pre)) || (k == p.stage + 1 && in_round(p.phase)),
{
}

/// An error ends the task in error: one before the stages at once; one of
/// a stage, once the task's reporter was told; one that breaks off a round,
/// once the round's reporter and then the task's were told.
pub proof fn law_error_ends_task(fx: FixedV, p: ProgressV, e: EventV)
    requires
        accepts(p.phase, e),
    ensures
        (e matches EventV::ReporterStarted(Some(_)) || e matches EventV::DefRendered(Some(_))
            || e matches EventV::PreRan(Some(_)) || e matches EventV::TaskReported(Some(_)))
            ==> next(fx, p, e).0.phase == Phase::Done && next(fx, p, e).1 matches ActionV::Finish(TState::Error(_)),
        (e matches EventV::StagePrepared(Some(_)) || e matches EventV::RoundOpened(Some(_))
            || e matches EventV::StageReporterStarted(Some(_)) || e matches EventV::StageReporterEnded(Some(_)))
            ==> next(fx, p, e).0.phase == Phase::TaskEnd && next(fx, p, e).1 matches ActionV::EndReport(
            TState::Error(_),
        ),
        (e matches EventV::Loaded(Err(_)) || e matches EventV::CasesReported(Some(_))) ==> next(fx, p, e).0.phase
            == Phase::StageEnd && next(fx, p, e).0.round_error is Some && next(fx, p, e).1 matches ActionV::EndStageReport(
            TState::Error(_),
        ),
        (p.phase == Phase::StageEnd && p.round_error is Some && !(e is TimedOut)) ==> next(fx, p, e).0.phase
            == Phase::TaskEnd && next(fx, p, e).1 matches ActionV::EndReport(TState::Error(_)),
{
}

/// A failed stage stops the task only where it breaks on `stage_fail`,
/// which is what a stage without a `break_on` entry does: when a stage that
/// is not the last ends, by its time limit or after its last round ended
/// without an error, the next stage is prepared where the stage did not
/// fail or breaks on `never`; where it failed and breaks on `stage_fail`,
/// the task reports that it failed.
pub proof fn law_break_on(fx: FixedV, p: ProgressV, e: EventV)
    requires
        (e == EventV::TimedOut && in_round(p.phase)) || (p.phase == Phase::StageEnd && e
            == EventV::StageReporterEnded(None) && p.round_error is None && p.round >= round_max(
            fx.doc,
            fx.stages[p.stage],
        )),
        0 <= p.stage,
        p.stage + 1 < fx.stages.len(),
    ensures
        ({
            let b = string_of(index_key(index_key(index_key(fx.doc, "stage"@), fx.stages[p.stage]), "break_on"@));
            &&& (p.stage_fail is None || b == Some("never"@)) ==> next(fx, p, e).1 == ActionV::PrepareStage(
                p.stage + 1,
            )
            &&& (p.stage_fail is Some && (b is None || b == Some("stage_fail"@)) && p.task_fail is Some)
                ==> next(fx, p, e).1 == ActionV::EndReport(TState::Fail(p.task_fail->Some_0))
        }),
{
    reveal_strlit("never");
    reveal_strlit("stage_fail");
    assert("never"@ != "stage_fail"@) by {
        assert("never"@.len() == 5);
    }
}

/// The end of a task is reported, unless the task stopped before its
/// stages: it finishes only after its reporter was told how it ended, or
/// from its start, its definitions or its pre steps.
pub proof fn law_end_is_reported(fx: FixedV, p: ProgressV, e: EventV)
    requires
        accepts(p.phase, e),
    ensures
        next(fx, p, e).1 is Finish ==> p.phase == Phase::TaskEnd || p.phase == Phase::Opening || p.phase
            == Phase::Def || p.phase == Phase::Pre,
{
}

/// Whether the state a task is to report it ended in, where it is not an
/// error, is the one its cases left.
pub open spec fn ending_agrees(p: ProgressV) -> bool {
    p.phase == Phase::TaskEnd && !(p.ending is Error) ==> p.ending == final_state(p)
}

/// A task that failed stays failed; a task that ends without an error ends
/// as its cases left it.
pub proof fn law_failure_persists(fx: FixedV, p: ProgressV, e: EventV)
    requires
        accepts(p.phase, e),
        ending_agrees(p),
    ensures
        p.task_fail is Some ==> next(fx, p, e).0.task_fail is Some,
        ending_agrees(next(fx, p, e).0),
        next(fx, p, e).1 is Finish && !(next(fx, p, e).1->Finish_0 is Error) ==> next(fx, p, e).1->Finish_0
            == final_state(next(fx, p, e).0),
{
}

/// Nothing follows the end of a task.
pub proof fn law_done_is_final(e: EventV)
    ensures
        !accepts(Phase::Done, e),
{
}

/// Where a task goes from `p` on the events `es`, each taken in turn.
pub open spec fn run_of(fx: FixedV, p: ProgressV, es: Seq<EventV>) -> ProgressV
    decreases es.len(),
{
    if es.len() == 0 {
        p
    } else {
        run_of(fx, next(fx, p, es[0]).0, es.skip(1))
    }
}

/// Whether each of the events `es` is one the task waits for when it comes.
pub open spec fn valid_run(fx: FixedV, p: ProgressV, es: Seq<EventV>) -> bool
    decreases es.len(),
{
    es.len() == 0 || (accepts(p.phase, es[0]) && valid_run(fx, next(fx, p, es[0]).0, es.skip(1)))
}

/// The cause of the last batch of cases among `es` that did not all
/// succeed, or `init` where there is none.
pub open spec fn last_cause(init: Option<Seq<char>>, es: Seq<EventV>) -> Option<Seq<char>>
    decreases es.len(),
{
    if es.len() == 0 {
        init
    } else {
        last_cause(
            match es[0] {
                EventV::CasesRan(Some(c)) => Some(c),
                _ => init,
            },
            es.skip(1),
        )
    }
}

proof fn lemma_run(fx: FixedV, p: ProgressV, es: Seq<EventV>)
    requires
        valid_run(fx, p, es),
        ending_agrees(p),
    ensures
        ending_agrees(run_of(fx, p, es)),
        run_of(fx, p, es).task_fail == last_cause(p.task_fail, es),
    decreases es.len(),
{
    if es.len() > 0 {
        law_failure_persists(fx, p, es[0]);
        lemma_run(fx, next(fx, p, es[0]).0, es.skip(1));
    }
}

/// Whatever happens on the way, a task that starts afresh and ends without
/// an error ends failed with the cause of the last batch of cases that did
/// not all succeed, and successful where there was none.
pub proof fn law_task_ends_with_last_cause(fx: FixedV, p: ProgressV, es: Seq<EventV>, e: EventV, st: TState)
    requires
        p.phase == Phase::Start,
        p.task_fail is None,
        valid_run(fx, p, es),
        accepts(run_of(fx, p, es).phase, e),
        next(fx, run_of(fx, p, es), e).1 == ActionV::Finish(st),
        !(st is Error),
    ensures
        st == match last_cause(None, es) {
            Some(c) => TState::Fail(c),
            None => TState::Success,
        },
{
    lemma_run(fx, p, es);
    law_failure_persists(fx, run_of(fx, p, es), e);
}

/// The course of a task of a flow.
pub struct TaskMachine<'f> {
    flow: &'f Flow,
    task: TaskIdStruct,
    stages: Vec<&'f str>,
    has_def: bool,
    has_pre: bool,
    phase: Phase,
    stage: usize,
    round: usize,
    first_load: bool,
    stage_fail: Option<String>,
    task_fail: Option<String>,
    round_error: Option<String>,
    ending: TaskState,
}

/// A copy of a task state.
fn copy_state(s: &TaskState) -> (r: TaskState)
    ensures
        task_state_view(r) == task_state_view(*s),
{
    match s {
        TaskState::Success => TaskState::Success,
        TaskState::Fail(c) => TaskState::Fail(c.clone()),
        TaskState::Error(m) => TaskState::Error(m.clone()),
    }
}

/// The message of a reporter of kind `kind` for `id` that failed with `m`.
fn reporter_message(kind: &str, id: &str, m: &str) -> (r: String)
    ensures
        r@ == reporter_error(kind@, id@, m@),
{
    let head = concat3(kind, " `", id);
    let mid = concat(head.as_str(), "` reporter error:\n");
    concat(mid.as_str(), m)
}

impl<'f> TaskMachine<'f> {
    #[verifier::type_invariant]
    spec fn wf(self) -> bool {
        &&& (self.phase == Phase::Prepare || in_round(self.phase)) ==> self.stage < self.stages@.len()
        &&& self.round >= 1
        &&& self.stages@.map_values(|s: &str| s@) == crate::flow::stage_ids(self.flow.document())->Some_0
    }

    /// What the task's course depends on besides the events.
    pub closed spec fn fixed(&self) -> FixedV {
        FixedV {
            doc: self.flow.document(),
            stages: self.stages@.map_values(|s: &str| s@),
            has_def: self.has_def,
            has_pre: self.has_pre,
            task_text: self.task.text(),
            task_name: self.task.task@,
        }
    }

    /// Where the task is.
    pub closed spec fn progress(&self) -> ProgressV {
        ProgressV {
            phase: self.phase,
            stage: self.stage as int,
            round: self.round as int,
            first_load: self.first_load,
            stage_fail: opt_view(self.stage_fail),
            task_fail: opt_view(self.task_fail),
            round_error: opt_view(self.round_error),
            ending: task_state_view(self.ending),
        }
    }

    /// The course of task `task` of `flow`, not started: it has definitions
    /// where the flow's `def` is an object, and pre steps where the flow
    /// names some.
    pub fn new(flow: &'f Flow, task: TaskIdStruct) -> (r: TaskMachine<'f>)
        ensures
            r.fixed().doc == flow.document(),
            r.fixed().stages == crate::flow::stage_ids(flow.document())->Some_0,
            r.fixed().has_def == (index_key(flow.document(), "def"@) is Obj),
            r.fixed().has_pre == (crate::flow::pre_step_ids(flow.document()) matches Some(ids) && ids.len() > 0),
            r.fixed().task_text == task.text(),
            r.fixed().task_name == task.task@,
            r.progress().phase == Phase::Start,
            r.progress().stage_fail is None,
            r.progress().task_fail is None,
            r.progress().round_error is None,
    {
        let stages = flow.stage_id_vec();
        let has_def = flow.def().is_some();
        let has_pre = match flow.pre_step_id_vec() {
            Some(ids) => ids.len() > 0,
            None => false,
        };
        TaskMachine {
            flow,
            task,
            stages,
            has_def,
            has_pre,
            phase: Phase::Start,
            stage: 0,
            round: 1,
            first_load: true,
            stage_fail: None,
            task_fail: None,
            round_error: None,
            ending: TaskState::Success,
        }
    }

    /// The state a task ends in without an error.
    fn final_task_state(&self) -> (r: TaskState)
        ensures
            task_state_view(r) == final_state(self.progress()),
    {
        match &self.task_fail {
            Some(c) => TaskState::Fail(c.clone()),
            None => TaskState::Success,
        }
    }

    /// Finishes the task in state `st`.
    fn finish(&mut self, st: TaskState) -> (a: TaskAction)
        ensures
            final(self).fixed() == old(self).fixed(),
            (final(self).progress(), action_view(a)) == finish(old(self).progress(), task_state_view(st)),
    {
        proof {
            use_type_invariant(&*self);
        }
        self.phase = Phase::Done;
        TaskAction::Finish(st)
    }

    /// Reports that the task ends in state `st`.
    fn end_task(&mut self, st: TaskState) -> (a: TaskAction)
        ensures
            final(self).fixed() == old(self).fixed(),
            (final(self).progress(), action_view(a)) == end_task(old(self).progress(), task_state_view(st)),
    {
        proof {
            use_type_invariant(&*self);
        }
        self.ending = copy_state(&st);
        self.phase = Phase::TaskEnd;
        TaskAction::EndReport(st)
    }

    /// Prepares the stage at position `s`.
    fn prepare(&mut self, s: usize) -> (a: TaskAction)
        requires
            s < old(self).stages@.len(),
        ensures
            final(self).fixed() == old(self).fixed(),
            (final(self).progress(), action_view(a)) == prepare(old(self).progress(), s as int),
    {
        proof {
            use_type_invariant(&*self);
        }
        self.stage_fail = None;
        self.stage = s;
        self.phase = Phase::Prepare;
        TaskAction::PrepareStage(s)
    }

    /// Goes on to the stages.
    fn begin_stages(&mut self) -> (a: TaskAction)
        ensures
            final(self).fixed() == old(self).fixed(),
            (final(self).progress(), action_view(a)) == begin_stages(old(self).fixed(), old(self).progress()),
    {
        proof {
            use_type_invariant(&*self);
        }
        if self.stages.len() == 0 {
            let st = self.final_task_state();
            self.end_task(st)
        } else {
            self.prepare(0)
        }
    }

    /// Ends the current stage.
    fn stage_end(&mut self) -> (a: TaskAction)
        requires
            old(self).stage < old(self).stages@.len(),
        ensures
            final(self).fixed() == old(self).fixed(),
            (final(self).progress(), action_view(a)) == stage_end(old(self).fixed(), old(self).progress()),
    {
        proof {
            use_type_invariant(&*self);
        }
        let sid = self.stages[self.stage];
        let breaks = self.stage_fail.is_some() && crate::value::str_eq(self.flow.stage_break_on(sid), "stage_fail");
        let n = self.stages.len();
        if breaks || self.stage >= n - 1 {
            let st = self.final_task_state();
            self.end_task(st)
        } else {
            self.prepare(self.stage + 1)
        }
    }

    /// Opens round `r` of the current stage.
    fn open_round(&mut self, r: usize) -> (a: TaskAction)
        requires
            old(self).stage < old(self).stages@.len(),
            r >= 1,
        ensures
            final(self).fixed() == old(self).fixed(),
            (final(self).progress(), action_view(a)) == open_round(old(self).progress(), r as int),
    {
        proof {
            use_type_invariant(&*self);
        }
        self.round_error = None;
        self.round = r;
        self.phase = Phase::OpenRound;
        TaskAction::OpenRound(self.stage, r)
    }

    /// Loads a page of the current round.
    fn load_page(&mut self) -> (a: TaskAction)
        requires
            old(self).stage < old(self).stages@.len(),
        ensures
            final(self).fixed() == old(self).fixed(),
            (final(self).progress(), action_view(a)) == load_page(old(self).fixed(), old(self).progress()),
    {
        proof {
            use_type_invariant(&*self);
        }
        let sid = self.stages[self.stage];
        let size = self.flow.stage_concurrency(sid);
        self.phase = Phase::Load;
        TaskAction::Load(self.stage, self.round, size)
    }

    /// Reports how the current round ended, broken off by `err` if that
    /// is an error.
    fn end_round(&mut self, err: Option<String>) -> (a: TaskAction)
        requires
            old(self).stage < old(self).stages@.len(),
        ensures
            final(self).fixed() == old(self).fixed(),
            (final(self).progress(), action_view(a)) == end_round(old(self).progress(), opt_view(err)),
    {
        proof {
            use_type_invariant(&*self);
        }
        let st = match &err {
            Some(m) => StageState::Error(m.clone()),
            None => match &self.stage_fail {
                Some(c) => StageState::Fail(c.clone()),
                None => StageState::Success,
            },
        };
        self.round_error = err;
        self.phase = Phase::StageEnd;
        TaskAction::EndStageReport(st)
    }

    /// Ends the current round.
    fn round_end(&mut self) -> (a: TaskAction)
        requires
            old(self).stage < old(self).stages@.len(),
        ensures
            final(self).fixed() == old(self).fixed(),
            (final(self).progress(), action_view(a)) == round_end(old(self).fixed(), old(self).progress()),
    {
        proof {
            use_type_invariant(&*self);
        }
        let sid = self.stages[self.stage];
        let max = self.flow.stage_round(sid);
        if self.round < max {
            self.open_round(self.round + 1)
        } else {
            self.stage_end()
        }
    }

    /// The text of the id of the current round.
    fn round_text(&self) -> (r: String)
        requires
            self.stage < self.stages@.len(),
        ensures
            r@ == round_text(self.fixed(), self.progress()),
    {
        let t = self.task.to_string();
        let head = concat3(t.as_str(), "-", self.stages[self.stage]);
        let n = u64_to_string(self.round as u64);
        concat3(head.as_str(), "-", n.as_str())
    }

    /// Takes in what the work before gave and says what comes next; see
    /// `next`.
    pub fn step(&mut self, event: TaskEvent) -> (a: TaskAction)
        requires
            accepts(old(self).progress().phase, event_view(event)),
        ensures
            final(self).fixed() == old(self).fixed(),
            (final(self).progress(), action_view(a)) == next(old(self).fixed(), old(self).progress(), event_view(event)),
    {
        proof {
            use_type_invariant(&*self);
            reveal_strlit("task");
            reveal_strlit("stage");
        }
        match event {
            TaskEvent::Started => {
                self.phase = Phase::Opening;
                TaskAction::StartReport
            },
            TaskEvent::ReporterStarted(Some(m)) => {
                let msg = reporter_message("task", self.task.task.as_str(), m.as_str());
                self.finish(TaskState::Error(msg))
            },
            TaskEvent::ReporterStarted(None) => {
                if self.has_def {
                    self.phase = Phase::Def;
                    TaskAction::RenderDef
                } else if self.has_pre {
                    self.phase = Phase::Pre;
                    TaskAction::RunPre
                } else {
                    self.begin_stages()
                }
            },
            TaskEvent::DefRendered(Some(m)) => {
                let msg = concat("`def` render:\n", m.as_str());
                self.finish(TaskState::Error(msg))
            },
            TaskEvent::DefRendered(None) => {
                if self.has_pre {
                    self.phase = Phase::Pre;
                    TaskAction::RunPre
                } else {
                    self.begin_stages()
                }
            },
            TaskEvent::PreRan(Err(e)) => self.finish(TaskState::Error(e.to_string())),
            TaskEvent::PreRan(Ok(())) => self.begin_stages(),
            TaskEvent::StagePrepared(Some(e)) => self.end_task(TaskState::Error(e.to_string())),
            TaskEvent::StagePrepared(None) => self.open_round(1),
            TaskEvent::RoundOpened(Some(m)) => {
                let t = self.round_text();
                let head = concat3("stage `", t.as_str(), "` loader error:\n");
                self.end_task(TaskState::Error(concat(head.as_str(), m.as_str())))
            },
            TaskEvent::RoundOpened(None) => {
                self.phase = Phase::StageStart;
                TaskAction::StartStageReport(self.stage, self.round)
            },
            TaskEvent::StageReporterStarted(Some(m)) => {
                let t = self.round_text();
                self.end_task(TaskState::Error(reporter_message("stage", t.as_str(), m.as_str())))
            },
            TaskEvent::StageReporterStarted(None) => {
                self.first_load = true;
                self.load_page()
            },
            TaskEvent::Loaded(Err(m)) => {
                let t = self.round_text();
                let head = concat3("stage `", t.as_str(), "` loader error:\n");
                self.end_round(Some(concat(head.as_str(), m.as_str())))
            },
            TaskEvent::Loaded(Ok(n)) => {
                if n > 0 {
                    self.first_load = false;
                    self.phase = Phase::Cases;
                    TaskAction::RunCases
                } else if self.first_load {
                    let t = self.round_text();
                    self.end_round(Some(concat3("stage `", t.as_str(), "` case is empty")))
                } else {
                    self.end_round(None)
                }
            },
            TaskEvent::CasesRan(c) => {
                match c {
                    Some(cause) => {
                        self.stage_fail = Some(cause.clone());
                        self.task_fail = Some(cause);
                    },
                    None => {},
                }
                self.phase = Phase::Reporting;
                TaskAction::ReportCases
            },
            TaskEvent::CasesReported(Some(m)) => {
                let t = self.round_text();
                self.end_round(Some(reporter_message("stage", t.as_str(), m.as_str())))
            },
            TaskEvent::CasesReported(None) => self.load_page(),
            TaskEvent::StageReporterEnded(Some(m)) => {
                let t = self.round_text();
                self.end_task(TaskState::Error(reporter_message("stage", t.as_str(), m.as_str())))
            },
            TaskEvent::StageReporterEnded(None) => {
                match &self.round_error {
                    Some(m) => {
                        let msg = m.clone();
                        self.end_task(TaskState::Error(msg))
                    },
                    None => self.round_end(),
                }
            },
            TaskEvent::TaskReported(Some(m)) => {
                let msg = reporter_message("task", self.task.task.as_str(), m.as_str());
                self.finish(TaskState::Error(msg))
            },
            TaskEvent::TaskReported(None) => {
                let st = copy_state(&self.ending);
                self.finish(st)
            },
            TaskEvent::TimedOut => self.stage_end(),
        }
    }
}

} // verus!
