//! What an action of a step is handed: the flow, the step's identity, the
//! action it runs, and the render context that the step's actions extend.
use vstd::prelude::*;

use crate::flow::{action_args, step_of, Flow};
use crate::run::case::CaseIdStruct;
use crate::run::render::{error_of, render_value, rendered};
use crate::run::step::IdStruct;
use crate::text::owned;
use crate::value::{index_key, object_keys, JVal, JsonMap, Value};

verus! {

/// The argument of the actions of a step.
pub struct ArgStruct<'f> {
    flow: &'f Flow,
    context: JsonMap,
    id: IdStruct,
    aid: String,
}

impl<'f> ArgStruct<'f> {
    /// The flow.
    pub closed spec fn flow_view(&self) -> &'f Flow {
        self.flow
    }

    /// The render context.
    pub closed spec fn context_view(&self) -> JsonMap {
        self.context
    }

    /// The step's identity.
    pub closed spec fn id_view(&self) -> IdStruct {
        self.id
    }

    /// The action being run.
    pub closed spec fn aid_view(&self) -> Seq<char> {
        self.aid@
    }

    /// Whether the action being run is one of the step's.
    pub open spec fn action_known(&self) -> bool {
        &&& self.flow_view().step_ids().contains(self.id_view().step@)
        &&& object_keys(step_of(self.flow_view().document(), self.id_view().step@)) matches Some(aids)
            && aids.contains(self.aid_view())
    }

    /// The argument of step `step_id` of case `case_id`, with render
    /// context `context` and no action chosen yet.
    pub fn new(flow: &'f Flow, context: JsonMap, case_id: CaseIdStruct, step_id: String) -> (r: ArgStruct<'f>)
        ensures
            r.flow_view() == flow,
            r.context_view() == context,
            r.id_view().case_id == case_id,
            r.id_view().step == step_id,
            r.aid_view() == Seq::<char>::empty(),
    {
        ArgStruct { flow, context, id: IdStruct::new(case_id, step_id), aid: String::new() }
    }

    pub fn id(&self) -> (r: &IdStruct)
        ensures
            *r == self.id_view(),
    {
        &self.id
    }

    /// Chooses the action being run.
    pub fn aid(&mut self, aid: &str)
        ensures
            final(self).aid_view() == aid@,
            final(self).flow_view() == old(self).flow_view(),
            final(self).context_view() == old(self).context_view(),
            final(self).id_view() == old(self).id_view(),
    {
        self.aid = owned(aid);
    }

    pub fn context(&self) -> (r: &JsonMap)
        ensures
            *r == self.context_view(),
    {
        &self.context
    }

    /// The render context, to be extended.
    pub fn context_mut(&mut self) -> (r: &mut JsonMap)
        ensures
            *r == old(self).context_view(),
            final(self).context_view() == *final(r),
            final(self).flow_view() == old(self).flow_view(),
            final(self).id_view() == old(self).id_view(),
            final(self).aid_view() == old(self).aid_view(),
    {
        &mut self.context
    }

    pub fn flow(&self) -> (r: &'f Flow)
        ensures
            r == self.flow_view(),
    {
        self.flow
    }

    /// The arguments of the action being run, as the flow writes them.
    pub fn body_raw(&self) -> (r: &Value)
        requires
            self.action_known(),
        ensures
            r@ == action_args(self.flow_view().document(), self.id_view().step@, self.aid_view()),
    {
        self.flow.step_action_args(self.id.step.as_str(), self.aid.as_str())
    }

    /// `raw` with each text rendered with `f` in context `context`; the
    /// first failure is the error.
    pub fn render<F: Fn(&JsonMap, &String) -> Result<Value, String>>(
        &self,
        context: &JsonMap,
        raw: &Value,
        f: &F,
    ) -> (r: Result<Value, String>)
        requires
            forall|c: &JsonMap, s: &String| f.requires((c, s)),
        ensures
            exists|v: Value| #[trigger] rendered(*f, *context, *raw, v, error_of(r)) && (r is Ok ==> r->Ok_0 == v),
    {
        let (v, e) = render_value(f, context, raw);
        let ghost vg = v;
        let res: Result<Value, String> = match e {
            None => Ok(v),
            Some(m) => Err(m),
        };
        assert(rendered(*f, *context, *raw, vg, error_of(res)));
        res
    }

    /// The arguments of the action being run, each text rendered with `f`
    /// in the render context; the first failure is the error.
    pub fn body<F: Fn(&JsonMap, &String) -> Result<Value, String>>(&self, f: &F) -> (r: Result<Value, String>)
        requires
            self.action_known(),
            forall|c: &JsonMap, s: &String| f.requires((c, s)),
        ensures
            exists|raw: Value, v: Value|
                raw@ == action_args(self.flow_view().document(), self.id_view().step@, self.aid_view())
                    && #[trigger] rendered(
                    *f,
                    self.context_view(),
                    raw,
                    v,
                    error_of(r),
                ) && (r is Ok ==> r->Ok_0 == v),
    {
        let raw = self.body_raw();
        let (v, e) = render_value(f, &self.context, raw);
        let ghost vg = v;
        let ghost rawg = *raw;
        let res: Result<Value, String> = match e {
            None => Ok(v),
            Some(m) => Err(m),
        };
        assert(rendered(*f, self.context_view(), rawg, vg, error_of(res)));
        res
    }

    /// What an action shows of itself before it runs, where it does not
    /// say otherwise: its arguments, each text rendered with `f` in the
    /// render context; null where rendering fails.
    pub fn explain<F: Fn(&JsonMap, &String) -> Result<Value, String>>(&self, f: &F) -> (r: Value)
        requires
            self.action_known(),
            forall|c: &JsonMap, s: &String| f.requires((c, s)),
        ensures
            exists|raw: Value, v: Value, e: Option<String>|
                raw@ == action_args(self.flow_view().document(), self.id_view().step@, self.aid_view())
                    && #[trigger] rendered(*f, self.context_view(), raw, v, e) && match e {
                    None => r == v,
                    Some(_) => r@ == JVal::Null,
                },
    {
        let raw = self.body_raw();
        let (v, e) = render_value(f, &self.context, raw);
        let ghost vg = v;
        let ghost eg = e;
        let ghost rawg = *raw;
        let res = match e {
            None => v,
            Some(_) => Value::Null,
        };
        assert(rendered(*f, self.context_view(), rawg, vg, eg));
        res
    }

    /// The `__init__` entry of the arguments of the action being run, where
    /// they are an object holding one.
    pub fn init(&self) -> (r: Option<&Value>)
        requires
            self.action_known(),
        ensures
            match r {
                Some(v) => index_key(action_args(self.flow_view().document(), self.id_view().step@, self.aid_view()), "__init__"@) == v@
                    && action_args(self.flow_view().document(), self.id_view().step@, self.aid_view()) is Obj,
                None => index_key(action_args(self.flow_view().document(), self.id_view().step@, self.aid_view()), "__init__"@) == JVal::Null,
            },
    {
        let raw = self.body_raw();
        match raw {
            Value::Object(m) => m.get("__init__"),
            _ => None,
        }
    }
}

} // verus!
