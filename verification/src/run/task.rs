//! Task and stage identities and assets.
use vstd::prelude::*;

use crate::task::{StageId, StageState, TaskId, TaskState};
use crate::case::CaseState;
use crate::run::case::{case_context, register_step, CaseArgStruct, CaseAssetStruct};
use crate::step::StepAssetStruct;
use crate::text::{concat, concat3, decimal, owned, u64_to_string};
use crate::value::{JVal, JsonMap, Value};
use vstd::string::StringExecFns;

verus! {

/// The text of a task id: `{exec_id}-{task}`.
pub open spec fn task_text(exec_id: Seq<char>, task: Seq<char>) -> Seq<char> {
    exec_id + "-"@ + task
}

/// A task of an execution.
#[derive(Debug)]
pub struct TaskIdStruct {
    pub exec_id: String,
    pub task: String,
}

impl TaskIdStruct {
    pub fn new(exec_id: String, task_id: String) -> (r: TaskIdStruct)
        ensures
            r.exec_id == exec_id,
            r.task == task_id,
    {
        TaskIdStruct { exec_id: exec_id, task: task_id }
    }

    /// The text of the id.
    pub open spec fn text(self) -> Seq<char> {
        task_text(self.exec_id@, self.task@)
    }

    /// The text of the id: the execution id and the task id joined by `-`.
    pub fn to_string(&self) -> (r: String)
        ensures
            r@ == self.text(),
    {
        concat3(self.exec_id.as_str(), "-", self.task.as_str())
    }

    pub fn duplicate(&self) -> (r: TaskIdStruct)
        ensures
            r.exec_id@ == self.exec_id@,
            r.task@ == self.task@,
    {
        TaskIdStruct { exec_id: self.exec_id.clone(), task: self.task.clone() }
    }
}

impl TaskId for TaskIdStruct {
    fn task(&self) -> (r: &str)
        ensures
            r@ == self.task@,
    {
        self.task.as_str()
    }

    fn exec_id(&self) -> (r: &str)
        ensures
            r@ == self.exec_id@,
    {
        self.exec_id.as_str()
    }
}

/// One round (`exec_id`) of stage `stage` of a task.
#[derive(Debug)]
pub struct StageIdStruct {
    pub task: TaskIdStruct,
    pub stage: String,
    pub exec_id: String,
}

impl StageIdStruct {
    pub fn new(task: TaskIdStruct, stage: String, exec_id: String) -> (r: StageIdStruct)
        ensures
            r.task == task,
            r.stage == stage,
            r.exec_id == exec_id,
    {
        StageIdStruct { task, stage, exec_id }
    }

    /// The text of the id.
    pub open spec fn text(self) -> Seq<char> {
        self.task.text() + "-"@ + self.stage@ + "-"@ + self.exec_id@
    }

    /// The text of the id: the task's, the stage id and the round joined by `-`.
    pub fn to_string(&self) -> (r: String)
        ensures
            r@ == self.text(),
    {
        let t = self.task.to_string();
        let mut s = concat3(t.as_str(), "-", self.stage.as_str());
        vstd::string::StringExecFns::append(&mut s, "-");
        vstd::string::StringExecFns::append(&mut s, self.exec_id.as_str());
        s
    }

    pub fn duplicate(&self) -> (r: StageIdStruct)
        ensures
            r.task.exec_id@ == self.task.exec_id@,
            r.task.task@ == self.task.task@,
            r.stage@ == self.stage@,
            r.exec_id@ == self.exec_id@,
    {
        StageIdStruct { task: self.task.duplicate(), stage: self.stage.clone(), exec_id: self.exec_id.clone() }
    }
}

impl StageId for StageIdStruct {
    fn stage(&self) -> (r: &str)
        ensures
            r@ == self.stage@,
    {
        self.stage.as_str()
    }

    fn exec_id(&self) -> (r: &str)
        ensures
            r@ == self.exec_id@,
    {
        self.exec_id.as_str()
    }
}

/// A finished task.
#[derive(Debug)]
pub struct TaskAssetStruct {
    pub id: TaskIdStruct,
    pub start: i64,
    pub end: i64,
    pub state: TaskState,
}

impl TaskAssetStruct {
    pub fn new(id: TaskIdStruct, start: i64, end: i64, state: TaskState) -> (r: TaskAssetStruct)
        ensures
            r.id == id,
            r.start == start,
            r.end == end,
            r.state == state,
    {
        TaskAssetStruct { id, start, end, state }
    }
}

/// A finished round of a stage.
#[derive(Debug)]
pub struct StageAssetStruct {
    pub id: StageIdStruct,
    pub start: i64,
    pub end: i64,
    pub state: StageState,
}

impl StageAssetStruct {
    pub fn new(id: StageIdStruct, start: i64, end: i64, state: StageState) -> (r: StageAssetStruct)
        ensures
            r.id == id,
            r.start == start,
            r.end == end,
            r.state == state,
    {
        StageAssetStruct { id, start, end, state }
    }
}


/// Why a task or a stage stopped.
#[derive(Debug)]
pub enum RunError {
    /// A section (first field) could not be rendered, for a reason (second field).
    Render(String, String),
    /// The pre steps ended in an error.
    PreErr,
    /// A pre step (the field) failed.
    PreFail(String),
    /// A reporter of a kind (first field) for an id (second field) failed
    /// with a message (third field).
    Reporter(String, String, String),
    /// A loader of a kind (first field) for an id (second field) failed
    /// with a message (third field).
    Loader(String, String, String),
    /// A stage round (the field) had no case at all.
    CaseEmpty(String),
    /// A step (first field) could not be created, for a reason (second field).
    Step(String, String),
    /// Any other failure, with its message.
    Unknown(String),
}

/// The message of a run error.
pub open spec fn run_error_message(e: RunError) -> Seq<char> {
    match e {
        RunError::Render(a, b) => "`"@ + a@ + "` render:\n"@ + b@,
        RunError::PreErr => "pre:"@,
        RunError::PreFail(a) => "pre step `"@ + a@ + "`"@,
        RunError::Reporter(a, b, c) => a@ + " `"@ + b@ + "` reporter error:\n"@ + c@,
        RunError::Loader(a, b, c) => a@ + " `"@ + b@ + "` loader error:\n"@ + c@,
        RunError::CaseEmpty(a) => "stage `"@ + a@ + "` case is empty"@,
        RunError::Step(a, b) => "step `"@ + a@ + "` create:\n"@ + b@,
        RunError::Unknown(a) => a@,
    }
}

impl RunError {
    /// The message of the error.
    pub fn to_string(&self) -> (r: String)
        ensures
            r@ == run_error_message(*self),
    {
        match self {
            RunError::Render(a, b) => {
                let mut s = concat3("`", a.as_str(), "` render:\n");
                s.append(b.as_str());
                s
            },
            RunError::PreErr => owned("pre:"),
            RunError::PreFail(a) => concat3("pre step `", a.as_str(), "`"),
            RunError::Reporter(a, b, c) => {
                let mut s = concat3(a.as_str(), " `", b.as_str());
                s.append("` reporter error:\n");
                s.append(c.as_str());
                s
            },
            RunError::Loader(a, b, c) => {
                let mut s = concat3(a.as_str(), " `", b.as_str());
                s.append("` loader error:\n");
                s.append(c.as_str());
                s
            },
            RunError::CaseEmpty(a) => concat3("stage `", a.as_str(), "` case is empty"),
            RunError::Step(a, b) => {
                let mut s = concat3("step `", a.as_str(), "` create:\n");
                s.append(b.as_str());
                s
            },
            RunError::Unknown(a) => a.clone(),
        }
    }
}

/// The context the definitions of a flow render in: the flow's metadata
/// under `__meta__`.
pub fn def_context(meta: &JsonMap) -> (r: JsonMap)
    ensures
        r@ == seq![("__meta__"@, JVal::Obj(meta@))],
{
    let mut m = JsonMap::new();
    proof {
        crate::value::lemma_key_pos_absent(m@, "__meta__"@);
    }
    m.insert(owned("__meta__"), Value::Object(meta.deep_clone()));
    m
}

/// The case that runs the pre steps of task `task`: on no data, in stage
/// `init` round `0`, named `pre`, with the definitions but no pre context.
pub fn pre_arg(meta: &JsonMap, task: &TaskIdStruct, def_ctx: Option<&JsonMap>) -> (r: CaseArgStruct)
    ensures
        r.id.stage.task.task@ == task.task@,
        r.id.stage.task.exec_id@ == task.exec_id@,
        r.id.stage.stage@ == "init"@,
        r.id.stage.exec_id@ == "0"@,
        r.id.case@ == "pre"@,
        r.data == Value::Null,
        r.render_ctx@ == case_context(
            meta@,
            match def_ctx {
                Some(d) => Some(d@),
                None => None,
            },
            JVal::Null,
            None,
        ),
{
    let stage = StageIdStruct::new(task.duplicate(), owned("init"), owned("0"));
    CaseArgStruct::new(meta, Value::Null, None, def_ctx, stage, owned("pre"))
}

/// The cases of a load of stage round `stage`: one per row, named by the
/// row's id, each on the row's data.
pub fn case_arg_vec(
    meta: &JsonMap,
    stage: &StageIdStruct,
    data: Vec<(String, Value)>,
    pre_ctx: Option<&JsonMap>,
    def_ctx: Option<&JsonMap>,
) -> (r: Vec<CaseArgStruct>)
    ensures
        r@.len() == data@.len(),
        forall|i: int|
            0 <= i < data@.len() ==> {
                &&& (#[trigger] r@[i]).id.case == data@[i].0
                &&& r@[i].id.stage.stage@ == stage.stage@
                &&& r@[i].id.stage.exec_id@ == stage.exec_id@
                &&& r@[i].id.stage.task.task@ == stage.task.task@
                &&& r@[i].data == data@[i].1
                &&& r@[i].render_ctx@ == case_context(
                    meta@,
                    match def_ctx {
                        Some(d) => Some(d@),
                        None => None,
                    },
                    data@[i].1@,
                    match pre_ctx {
                        Some(p) => Some(p@),
                        None => None,
                    },
                )
            },
{
    let ghost d0 = data@;
    let mut out: Vec<CaseArgStruct> = Vec::new();
    let mut rest = data;
    let n = rest.len();
    let mut i: usize = 0;
    while i < n
        invariant
            n == d0.len(),
            i <= n,
            out@.len() == i,
            rest@ == d0.skip(i as int),
            forall|j: int|
                0 <= j < i ==> {
                    &&& (#[trigger] out@[j]).id.case == d0[j].0
                    &&& out@[j].id.stage.stage@ == stage.stage@
                    &&& out@[j].id.stage.exec_id@ == stage.exec_id@
                    &&& out@[j].id.stage.task.task@ == stage.task.task@
                    &&& out@[j].data == d0[j].1
                    &&& out@[j].render_ctx@ == case_context(
                        meta@,
                        match def_ctx {
                            Some(d) => Some(d@),
                            None => None,
                        },
                        d0[j].1@,
                        match pre_ctx {
                            Some(p) => Some(p@),
                            None => None,
                        },
                    )
                },
        decreases n - i,
    {
        let (id, d) = rest.remove(0);
        let st = stage.duplicate();
        let ca = CaseArgStruct::new(meta, d, pre_ctx, def_ctx, st, id);
        out.push(ca);
        i = i + 1;
    }
    out
}

/// The context the pre steps leave: every successful pre step registered,
/// in order, in an initially empty `step` object.
pub open spec fn pre_context(steps: Seq<StepAssetStruct>) -> Seq<(Seq<char>, JVal)>
    decreases steps.len(),
{
    if steps.len() == 0 {
        seq![("step"@, JVal::Obj(Seq::empty()))]
    } else {
        register_step(pre_context(steps.drop_last()), steps.last().id.step@, steps.last().state)
    }
}

/// The context the pre steps leave.
pub fn pre_ctx_create(sa_vec: &Vec<StepAssetStruct>) -> (m: JsonMap)
    ensures
        m@ == pre_context(sa_vec@),
{
    let mut pre_ctx = JsonMap::new();
    proof {
        crate::value::lemma_key_pos_absent(pre_ctx@, "step"@);
    }
    pre_ctx.insert(owned("step"), Value::Object(JsonMap::new()));
    let n = sa_vec.len();
    assert(sa_vec@.take(0) == Seq::<StepAssetStruct>::empty());
    for i in 0..n
        invariant
            n == sa_vec@.len(),
            pre_ctx@ == pre_context(sa_vec@.take(i as int)),
            crate::run::case::has_step_object(pre_ctx@),
    {
        let sa = &sa_vec[i];
        proof {
            crate::run::case::lemma_register_keeps_step(pre_ctx@, sa.id.step@, sa.state);
            assert(sa_vec@.take(i + 1).drop_last() == sa_vec@.take(i as int));
        }
        crate::run::case::register_step_in(&mut pre_ctx, sa.id.step.as_str(), &sa.state);
    }
    assert(sa_vec@.take(n as int) == sa_vec@);
    pre_ctx
}

/// Why a case that did not succeed failed: for an error, `case: ` and the
/// case's id; for a failed step, `step: ` and the id of the last step, or
/// nothing where there is none.
pub open spec fn fail_cause(c: CaseAssetStruct) -> Seq<char> {
    match c.state {
        CaseState::Error(_) => "case: "@ + c.id.text(),
        CaseState::Fail(v) => "step: "@ + if v@.len() > 0 {
            v@.last().id.text()
        } else {
            Seq::empty()
        },
        CaseState::Success(_) => Seq::empty(),
    }
}

/// The cause of the first case that did not succeed, if any.
pub open spec fn first_fail(cases: Seq<CaseAssetStruct>) -> Option<Seq<char>>
    decreases cases.len(),
{
    if cases.len() == 0 {
        None
    } else if !(cases[0].state is Success) {
        Some(fail_cause(cases[0]))
    } else {
        first_fail(cases.skip(1))
    }
}

fn fail_cause_of(c: &CaseAssetStruct) -> (r: String)
    ensures
        r@ == fail_cause(*c),
{
    match &c.state {
        CaseState::Error(_) => {
            let t = c.id.to_string();
            concat("case: ", t.as_str())
        },
        CaseState::Fail(v) => {
            if v.len() > 0 {
                let t = v[v.len() - 1].id.to_string();
                concat("step: ", t.as_str())
            } else {
                owned("step: ")
            }
        },
        CaseState::Success(_) => String::new(),
    }
}

/// The cause of the first case of a batch that did not succeed; a stage
/// and its task fail with it.
pub fn first_fail_cause(cases: &Vec<CaseAssetStruct>) -> (r: Option<String>)
    ensures
        match r {
            Some(c) => first_fail(cases@) == Some(c@),
            None => first_fail(cases@) is None,
        },
{
    let n = cases.len();
    let mut i: usize = 0;
    assert(cases@.skip(0) == cases@);
    while i < n
        invariant
            n == cases@.len(),
            i <= n,
            first_fail(cases@) == first_fail(cases@.skip(i as int)),
        decreases n - i,
    {
        proof {
            assert(cases@.skip(i as int)[0] == cases@[i as int]);
            assert(cases@.skip(i as int).skip(1) == cases@.skip(i + 1));
        }
        if !cases[i].state.is_ok() {
            return Some(fail_cause_of(&cases[i]));
        }
        i = i + 1;
    }
    None
}

/// The id of round `round` of stage `stage_id` of a task.
pub fn round_stage_id(task: &TaskIdStruct, stage_id: &str, round: usize) -> (r: StageIdStruct)
    ensures
        r.task.exec_id@ == task.exec_id@,
        r.task.task@ == task.task@,
        r.stage@ == stage_id@,
        r.exec_id@ == decimal(round as nat),
{
    StageIdStruct::new(task.duplicate(), owned(stage_id), u64_to_string(round as u64))
}

/// How the cases of a load are run: in consecutive batches of `concurrency`
/// cases, the last batch taking what is left; a concurrency of 0 runs them
/// one at a time.
pub open spec fn batches_ok(bounds: Seq<(usize, usize)>, n: nat, concurrency: nat) -> bool {
    let size = if concurrency == 0 { 1 } else { concurrency };
    &&& bounds.len() == (n + size - 1) / size as int
    &&& forall|i: int| 0 <= i < bounds.len() ==> is_batch(#[trigger] bounds[i], i, size as int, n as int)
}

/// Batch `i` of `n` cases in batches of `size`.
pub open spec fn is_batch(b: (usize, usize), i: int, size: int, n: int) -> bool {
    &&& b.0 == i * size
    &&& b.1 == if (i + 1) * size <= n {
        (i + 1) * size
    } else {
        n
    }
}

/// The batches in which `n` cases are run.
pub fn batch_bounds(n: usize, concurrency: usize) -> (r: Vec<(usize, usize)>)
    ensures
        batches_ok(r@, n as nat, concurrency as nat),
{
    let size: usize = if concurrency == 0 { 1 } else { concurrency };
    let mut r: Vec<(usize, usize)> = Vec::new();
    let mut start: usize = 0;
    proof {
        if n == 0 {
            assert((n + size - 1) / size as int == 0) by (nonlinear_arith)
                requires
                    n == 0,
                    size >= 1,
            ;
        }
        assert(r@.len() == 0);
        assert(r@.len() * size == 0) by (nonlinear_arith)
            requires
                r@.len() == 0,
        ;
    }
    while start < n
        invariant
            size >= 1,
            size == if concurrency == 0 { 1 } else { concurrency },
            start <= n,
            start == r@.len() * size || start == n,
            start < n ==> start == r@.len() * size,
            start == n ==> r@.len() == (n + size - 1) / size as int,
            forall|i: int| 0 <= i < r@.len() ==> is_batch(#[trigger] r@[i], i, size as int, n as int),
        decreases n - start,
    {
        let ghost k = r@.len() as int;
        let ghost old_r = r@;
        proof {
            assert((k + 1) * size == k * size + size) by (nonlinear_arith);
        }
        let end = if n - start >= size { start + size } else { n };
        r.push((start, end));
        proof {
            assert(start == k * size);
            assert(r@[k].0 == k * size);
            if n - start >= size {
                assert(r@[k].1 == (k + 1) * size);
            } else {
                assert(!((k + 1) * size <= n));
                assert((n + size - 1) / size as int == k + 1) by (nonlinear_arith)
                    requires
                        start == k * size,
                        n - start < size,
                        n - start >= 1,
                        size >= 1,
                ;
            }
            if end == n && n - start >= size {
                assert((n + size - 1) / size as int == k + 1) by (nonlinear_arith)
                    requires
                        start == k * size,
                        n - start == size,
                        size >= 1,
                ;
            }
            assert forall|i: int| 0 <= i < r@.len() implies is_batch(#[trigger] r@[i], i, size as int, n as int) by {
                if i < k {
                    assert(r@[i] == old_r[i]);
                    assert(is_batch(old_r[i], i, size as int, n as int));
                }
            }
        }
        start = end;
    }
    proof {
        if n == 0 {
            assert((n + size - 1) / size as int == 0) by (nonlinear_arith)
                requires
                    n == 0,
                    size >= 1,
            ;
        }
    }
    r
}

/// What the pre steps' case means for the task: an error ends it with
/// `PreErr`, a failed step with `PreFail` and the step's id; success lets
/// it go on.
pub fn pre_outcome(state: &CaseState) -> (r: Result<(), RunError>)
    requires
        *state is Fail ==> state->Fail_0@.len() > 0,
    ensures
        match *state {
            CaseState::Error(_) => r == Err::<(), RunError>(RunError::PreErr),
            CaseState::Fail(v) => r is Err && r->Err_0 is PreFail && r->Err_0->PreFail_0@ == v@.last().id.step@,
            CaseState::Success(_) => r is Ok,
        },
{
    match state {
        CaseState::Error(_) => Err(RunError::PreErr),
        CaseState::Fail(v) => Err(RunError::PreFail(v[v.len() - 1].id.step.clone())),
        CaseState::Success(_) => Ok(()),
    }
}

/// The last of the task states that is not a success, if any: it decides
/// how a job ends.
pub fn last_unsuccessful(states: &Vec<TaskState>) -> (r: Option<usize>)
    ensures
        match r {
            Some(i) => i < states@.len() && !(states@[i as int] is Success) && forall|j: int|
                i < j < states@.len() ==> states@[j] is Success,
            None => forall|j: int| 0 <= j < states@.len() ==> states@[j] is Success,
        },
{
    let mut i = states.len();
    while i > 0
        invariant
            i <= states@.len(),
            forall|j: int| i <= j < states@.len() ==> states@[j] is Success,
        decreases i,
    {
        if !states[i - 1].is_ok() {
            return Some(i - 1);
        }
        i = i - 1;
    }
    None
}

} // verus!
