//! Cases: their identity, the render context a case starts from, how the
//! context grows as its steps succeed, and when a case stops.
use vstd::prelude::*;

use crate::case::{CaseId, CaseState};
use crate::flow::Flow;
use crate::run::arg::ArgStruct;
use crate::run::task::StageIdStruct;
use crate::step::{action_value, ActionAssetStruct, StepAssetStruct, StepState};
use crate::text::{concat3, owned};
use crate::value::{
    key_pos, lemma_key_pos_absent, lemma_key_pos_bounds, lookup, map_insert, JVal, JsonMap, Value,
};

verus! {

/// Case `case` of a round of a stage.
#[derive(Debug)]
pub struct CaseIdStruct {
    pub stage: StageIdStruct,
    pub case: String,
}

impl CaseIdStruct {
    pub fn new(stage: StageIdStruct, case: String) -> (r: CaseIdStruct)
        ensures
            r.stage == stage,
            r.case == case,
    {
        CaseIdStruct { stage, case }
    }

    /// The text of the id.
    pub open spec fn text(self) -> Seq<char> {
        self.stage.text() + "-"@ + self.case@
    }

    /// The text of the id: the stage's and the case id joined by `-`.
    pub fn to_string(&self) -> (r: String)
        ensures
            r@ == self.text(),
    {
        let s = self.stage.to_string();
        concat3(s.as_str(), "-", self.case.as_str())
    }

    pub fn duplicate(&self) -> (r: CaseIdStruct)
        ensures
            r.text() == self.text(),
            r.case@ == self.case@,
    {
        CaseIdStruct { stage: self.stage.duplicate(), case: self.case.clone() }
    }
}

impl CaseId for CaseIdStruct {
    fn case(&self) -> (r: &str)
        ensures
            r@ == self.case@,
    {
        self.case.as_str()
    }
}

/// The values of a step's actions by action id, a later action replacing
/// an earlier one of the same id.
pub open spec fn actions_map(s: Seq<ActionAssetStruct>) -> Seq<(Seq<char>, JVal)>
    decreases s.len(),
{
    if s.len() == 0 {
        Seq::empty()
    } else {
        map_insert(actions_map(s.drop_last()), s.last().aid@, action_value(s.last().state))
    }
}

/// The values of a step's actions by action id.
pub fn actions_to_map(av: &Vec<ActionAssetStruct>) -> (m: JsonMap)
    ensures
        m@ == actions_map(av@),
{
    let mut am = JsonMap::new();
    let n = av.len();
    for i in 0..n
        invariant
            n == av@.len(),
            am@ == actions_map(av@.take(i as int)),
    {
        let v = crate::step::action_asset_to_value(&av[i]);
        am.insert(av[i].aid.clone(), v);
        proof {
            assert(av@.take(i + 1).drop_last() == av@.take(i as int));
        }
    }
    assert(av@.take(n as int) == av@);
    am
}

/// The context after a step: a successful step stores the values of its
/// actions under its id in the context's `step` object; a failed one
/// changes nothing.
pub open spec fn register_step(ctx: Seq<(Seq<char>, JVal)>, sid: Seq<char>, st: StepState) -> Seq<
    (Seq<char>, JVal),
> {
    match st {
        StepState::Success(av) => {
            let p = key_pos(ctx, "step"@);
            ctx.update(
                p,
                ("step"@, JVal::Obj(map_insert(ctx[p].1->Obj_0, sid, JVal::Obj(actions_map(av@))))),
            )
        },
        StepState::Fail(_) => ctx,
    }
}

/// Stores the values of a successful step's actions under `sid` in the
/// `step` object of `ctx`.
pub fn register_step_in(ctx: &mut JsonMap, sid: &str, state: &StepState)
    requires
        lookup(old(ctx)@, "step"@) matches Some(JVal::Obj(_)),
    ensures
        final(ctx)@ == register_step(old(ctx)@, sid@, *state),
{
    match state {
        StepState::Success(av) => {
            let am = actions_to_map(av);
            ctx.insert_nested("step", owned(sid), Value::Object(am));
        },
        StepState::Fail(_) => {},
    }
}

/// The render context a case starts from: the flow's metadata under
/// `__meta__`, the rendered definitions under `def` where there are any,
/// the case's data under `case`, the context the pre steps left under `pre`
/// where they ran, and an empty `step` object.
pub open spec fn case_context(
    meta: Seq<(Seq<char>, JVal)>,
    def: Option<Seq<(Seq<char>, JVal)>>,
    data: JVal,
    pre: Option<Seq<(Seq<char>, JVal)>>,
) -> Seq<(Seq<char>, JVal)> {
    let with_meta = seq![("__meta__"@, JVal::Obj(meta))];
    let with_def = match def {
        Some(d) => with_meta.push(("def"@, JVal::Obj(d))),
        None => with_meta,
    };
    let with_case = with_def.push(("case"@, data));
    let with_pre = match pre {
        Some(p) => with_case.push(("pre"@, JVal::Obj(p))),
        None => with_case,
    };
    with_pre.push(("step"@, JVal::Obj(Seq::empty())))
}

/// Each entry of a case's starting context reads back as what it was made
/// from: the metadata under `__meta__`, the definitions under `def` where
/// they are given (and nothing there where they are not), the case's data
/// under `case`, the pre steps' context under `pre` where it is given (and
/// nothing there where it is not), and an empty object under `step`.
pub proof fn law_case_context_entries(
    meta: Seq<(Seq<char>, JVal)>,
    def: Option<Seq<(Seq<char>, JVal)>>,
    data: JVal,
    pre: Option<Seq<(Seq<char>, JVal)>>,
)
    ensures
        ({
            let ctx = case_context(meta, def, data, pre);
            &&& lookup(ctx, "__meta__"@) == Some(JVal::Obj(meta))
            &&& lookup(ctx, "def"@) == match def {
                Some(d) => Some(JVal::Obj(d)),
                None => None::<JVal>,
            }
            &&& lookup(ctx, "case"@) == Some(data)
            &&& lookup(ctx, "pre"@) == match pre {
                Some(p) => Some(JVal::Obj(p)),
                None => None::<JVal>,
            }
            &&& lookup(ctx, "step"@) == Some(JVal::Obj(Seq::empty()))
        }),
{
    reveal_strlit("__meta__");
    reveal_strlit("def");
    reveal_strlit("case");
    reveal_strlit("pre");
    reveal_strlit("step");
    assert("__meta__"@.len() == 8 && "def"@.len() == 3 && "case"@.len() == 4 && "pre"@.len() == 3
        && "step"@.len() == 4);
    assert("def"@[0] == 'd' && "pre"@[0] == 'p' && "case"@[0] == 'c' && "step"@[0] == 's');
    let ctx = case_context(meta, def, data, pre);
    assert forall|i: int, j: int| 0 <= i < ctx.len() && 0 <= j < ctx.len() && i != j implies ctx[i].0
        != ctx[j].0 by {
        assert(ctx[i].0 == "__meta__"@ || ctx[i].0 == "def"@ || ctx[i].0 == "case"@ || ctx[i].0 == "pre"@
            || ctx[i].0 == "step"@);
    }
    assert forall|k: Seq<char>, i: int| 0 <= i < ctx.len() && ctx[i].0 == k implies lookup(ctx, k) == Some(
        ctx[i].1,
    ) by {
        crate::value::lemma_key_pos_is(ctx, k, i);
    }
    let n = ctx.len() as int;
    assert(ctx[0].0 == "__meta__"@);
    assert(ctx[n - 1].0 == "step"@);
    match def {
        Some(d) => {
            assert(ctx[1].0 == "def"@);
        },
        None => {
            assert forall|j: int| 0 <= j < ctx.len() implies ctx[j].0 != "def"@ by {}
            lemma_key_pos_absent(ctx, "def"@);
        },
    }
    let ci = if def is Some { 2int } else { 1int };
    assert(ctx[ci].0 == "case"@);
    match pre {
        Some(p) => {
            assert(ctx[ci + 1].0 == "pre"@);
        },
        None => {
            assert forall|j: int| 0 <= j < ctx.len() implies ctx[j].0 != "pre"@ by {}
            lemma_key_pos_absent(ctx, "pre"@);
        },
    }
}

/// What a case runs with: its id, its data and its render context.
#[derive(Debug)]
pub struct CaseArgStruct {
    pub id: CaseIdStruct,
    pub data: Value,
    pub render_ctx: JsonMap,
}

impl CaseArgStruct {
    /// A case on `data`, whose context holds the flow's metadata, the
    /// definitions and the pre steps' context.
    pub fn new(
        meta: &JsonMap,
        data: Value,
        pre_ctx: Option<&JsonMap>,
        def_ctx: Option<&JsonMap>,
        stage_id: StageIdStruct,
        case: String,
    ) -> (r: CaseArgStruct)
        ensures
            r.id.stage == stage_id,
            r.id.case == case,
            r.data == data,
            r.render_ctx@ == case_context(
                meta@,
                match def_ctx {
                    Some(d) => Some(d@),
                    None => None,
                },
                data@,
                match pre_ctx {
                    Some(p) => Some(p@),
                    None => None,
                },
            ),
    {
        proof {
            reveal_strlit("__meta__");
            reveal_strlit("def");
            reveal_strlit("case");
            reveal_strlit("pre");
            reveal_strlit("step");
            assert("__meta__"@.len() == 8);
            assert("def"@.len() == 3);
            assert("case"@.len() == 4);
            assert("pre"@.len() == 3);
            assert("step"@.len() == 4);
            assert("def"@[0] == 'd' && "pre"@[0] == 'p');
            assert("case"@[0] == 'c' && "step"@[0] == 's');
        }
        let id = CaseIdStruct::new(stage_id, case);
        let mut render_data = JsonMap::new();
        let ghost g0 = render_data@;
        proof {
            lemma_key_pos_absent(g0, "__meta__"@);
        }
        render_data.insert(owned("__meta__"), Value::Object(meta.deep_clone()));
        match def_ctx {
            Some(d) => {
                let ghost g = render_data@;
                proof {
                    assert(g[0].0 != "def"@);
                    lemma_key_pos_absent(g, "def"@);
                }
                render_data.insert(owned("def"), Value::Object(d.deep_clone()));
            },
            None => {},
        }
        let ghost g1 = render_data@;
        proof {
            assert(forall|j: int| 0 <= j < g1.len() ==> g1[j].0 != "case"@);
            lemma_key_pos_absent(g1, "case"@);
        }
        render_data.insert(owned("case"), data.deep_clone());
        match pre_ctx {
            Some(p) => {
                let ghost g = render_data@;
                proof {
                    assert(forall|j: int| 0 <= j < g.len() ==> g[j].0 != "pre"@);
                    lemma_key_pos_absent(g, "pre"@);
                }
                render_data.insert(owned("pre"), Value::Object(p.deep_clone()));
            },
            None => {},
        }
        let ghost g2 = render_data@;
        proof {
            assert(forall|j: int| 0 <= j < g2.len() ==> g2[j].0 != "step"@);
            lemma_key_pos_absent(g2, "step"@);
        }
        if !render_data.contains_key("step") {
            render_data.insert(owned("step"), Value::Object(JsonMap::new()));
        }
        CaseArgStruct { id, data, render_ctx: render_data }
    }

    pub fn id(&self) -> (r: &CaseIdStruct)
        ensures
            *r == self.id,
    {
        &self.id
    }

    pub fn take_data(self) -> (r: Value)
        ensures
            r == self.data,
    {
        self.data
    }

    /// The argument of step `step_id` of this case: the case's render
    /// context as it stands, and the case's identity.
    pub fn step_arg_create<'f>(&self, step_id: &str, flow: &'f Flow) -> (r: ArgStruct<'f>)
        ensures
            r.flow_view() == flow,
            r.context_view()@ == self.render_ctx@,
            r.id_view().case_id.text() == self.id.text(),
            r.id_view().case_id.case@ == self.id.case@,
            r.id_view().step@ == step_id@,
            r.aid_view() == Seq::<char>::empty(),
    {
        ArgStruct::new(flow, self.render_ctx.deep_clone(), self.id.duplicate(), owned(step_id))
    }

    /// Registers a finished step in the context: see `register_step`.
    pub fn step_asset_register(&mut self, sid: &str, step_asset: &StepAssetStruct)
        requires
            lookup(old(self).render_ctx@, "step"@) matches Some(JVal::Obj(_)),
        ensures
            final(self).render_ctx@ == register_step(old(self).render_ctx@, sid@, step_asset.state),
            final(self).id == old(self).id,
            final(self).data == old(self).data,
    {
        register_step_in(&mut self.render_ctx, sid, &step_asset.state);
    }
}

/// Whether a context keeps its `step` object.
pub open spec fn has_step_object(ctx: Seq<(Seq<char>, JVal)>) -> bool {
    lookup(ctx, "step"@) matches Some(JVal::Obj(_))
}

/// Registering a step keeps the `step` object of a context.
pub proof fn lemma_register_keeps_step(ctx: Seq<(Seq<char>, JVal)>, sid: Seq<char>, st: StepState)
    requires
        has_step_object(ctx),
    ensures
        has_step_object(register_step(ctx, sid, st)),
{
    lemma_key_pos_bounds(ctx, "step"@);
    let r = register_step(ctx, sid, st);
    let p = key_pos(ctx, "step"@);
    assert forall|j: int| 0 <= j < p implies r[j].0 != "step"@ by {}
    crate::value::lemma_key_pos_is(r, "step"@, p);
}

/// Records a finished step of a running case: the step joins `assets`;
/// a successful one is registered in the context and the case goes on, a
/// failed one stops the case.
pub fn case_step_done(arg: &mut CaseArgStruct, assets: &mut Vec<StepAssetStruct>, step_asset: StepAssetStruct) -> (go_on: bool)
    requires
        has_step_object(old(arg).render_ctx@),
    ensures
        go_on == (step_asset.state is Success),
        final(assets)@ == old(assets)@.push(step_asset),
        final(arg).render_ctx@ == register_step(old(arg).render_ctx@, step_asset.id.step@, step_asset.state),
        has_step_object(final(arg).render_ctx@),
        final(arg).id == old(arg).id,
        final(arg).data == old(arg).data,
{
    proof {
        lemma_register_keeps_step(arg.render_ctx@, step_asset.id.step@, step_asset.state);
    }
    let go_on = step_asset.state.is_ok();
    if go_on {
        arg.step_asset_register(step_asset.id.step.as_str(), &step_asset);
    }
    assets.push(step_asset);
    go_on
}

/// The outcome of a case from its step assets and whether its last step
/// stopped it.
pub fn case_state(assets: Vec<StepAssetStruct>, stopped: bool) -> (r: CaseState)
    ensures
        stopped ==> r == CaseState::Fail(assets),
        !stopped ==> r == CaseState::Success(assets),
{
    if stopped {
        CaseState::Fail(assets)
    } else {
        CaseState::Success(assets)
    }
}

/// A finished case: its id, start and end, its data and its outcome.
#[derive(Debug)]
pub struct CaseAssetStruct {
    pub id: CaseIdStruct,
    pub start: i64,
    pub end: i64,
    pub data: Value,
    pub state: CaseState,
}

impl CaseAssetStruct {
    pub fn new(id: CaseIdStruct, start: i64, end: i64, data: Value, state: CaseState) -> (r:
        CaseAssetStruct)
        ensures
            r.id == id,
            r.start == start,
            r.end == end,
            r.data == data,
            r.state == state,
    {
        CaseAssetStruct { id, start, end, data, state }
    }
}

} // verus!
