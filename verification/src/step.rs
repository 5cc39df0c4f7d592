//! Steps: the outcome of each action of a step and of the step as a whole.
use vstd::prelude::*;

use crate::action::{asset_value, Asset};
use crate::text::owned;
use crate::value::{map_insert, JVal, JsonMap, Value};

verus! {

/// The outcome of an action: an asset, or the message of its error.
#[derive(Debug)]
pub enum ActionState {
    Success(Asset),
    Error(String),
}

impl ActionState {
    pub fn is_ok(&self) -> (b: bool)
        ensures
            b == (*self is Success),
    {
        match self {
            ActionState::Success(_) => true,
            _ => false,
        }
    }

    pub fn is_err(&self) -> (b: bool)
        ensures
            b == (*self is Error),
    {
        match self {
            ActionState::Error(_) => true,
            _ => false,
        }
    }
}

/// What is known of a finished action.
pub trait ActionAsset {
    fn id(&self) -> &str;

    fn start(&self) -> i64;

    fn end(&self) -> i64;

    fn explain(&self) -> &Value;

    fn state(&self) -> &ActionState;
}

/// A finished action: its id, start and end (milliseconds since the
/// epoch), the explanation of what it was asked, and its outcome.
#[derive(Debug)]
pub struct ActionAssetStruct {
    pub aid: String,
    pub start: i64,
    pub end: i64,
    pub explain: Value,
    pub state: ActionState,
}

impl ActionAssetStruct {
    pub fn new(aid: String, start: i64, end: i64, explain: Value, state: ActionState) -> (r:
        ActionAssetStruct)
        ensures
            r.aid == aid,
            r.start == start,
            r.end == end,
            r.explain == explain,
            r.state == state,
    {
        ActionAssetStruct { aid, start, end, explain, state }
    }
}

impl ActionAsset for ActionAssetStruct {
    fn id(&self) -> (r: &str)
        ensures
            r@ == self.aid@,
    {
        self.aid.as_str()
    }

    fn start(&self) -> (r: i64)
        ensures
            r == self.start,
    {
        self.start
    }

    fn end(&self) -> (r: i64)
        ensures
            r == self.end,
    {
        self.end
    }

    fn explain(&self) -> (r: &Value)
        ensures
            *r == self.explain,
    {
        &self.explain
    }

    fn state(&self) -> (r: &ActionState)
        ensures
            *r == self.state,
    {
        &self.state
    }
}

/// The asset of an action from the result of running it.
pub fn action_asset(aid: &str, start: i64, end: i64, explain: Value, value: Result<Asset, String>) -> (r:
    ActionAssetStruct)
    ensures
        r.aid@ == aid@,
        r.start == start,
        r.end == end,
        r.explain == explain,
        match value {
            Ok(a) => r.state == ActionState::Success(a),
            Err(e) => r.state == ActionState::Error(e),
        },
{
    match value {
        Ok(a) => ActionAssetStruct::new(owned(aid), start, end, explain, ActionState::Success(a)),
        Err(e) => ActionAssetStruct::new(owned(aid), start, end, explain, ActionState::Error(e)),
    }
}

/// The value an action's outcome reads as: the asset's value, or the error
/// message as a string.
pub open spec fn action_value(s: ActionState) -> JVal {
    match s {
        ActionState::Success(a) => asset_value(a),
        ActionState::Error(e) => JVal::Str(e@),
    }
}

/// The value an action's outcome reads as.
pub fn action_asset_to_value(action_asset: &ActionAssetStruct) -> (r: Value)
    ensures
        r@ == action_value(action_asset.state),
{
    match &action_asset.state {
        ActionState::Success(v) => v.to_value(),
        ActionState::Error(e) => Value::String(e.clone()),
    }
}

/// The outcome of a step: the assets of its actions, the last of which
/// failed where the step failed.
#[derive(Debug)]
pub enum StepState {
    Success(Vec<ActionAssetStruct>),
    Fail(Vec<ActionAssetStruct>),
}

impl StepState {
    pub fn is_ok(&self) -> (b: bool)
        ensures
            b == (*self is Success),
    {
        match self {
            StepState::Success(_) => true,
            _ => false,
        }
    }

    pub fn is_fail(&self) -> (b: bool)
        ensures
            b == (*self is Fail),
    {
        match self {
            StepState::Fail(_) => true,
            _ => false,
        }
    }

    /// The action assets, whatever the outcome.
    pub open spec fn assets(self) -> Seq<ActionAssetStruct> {
        match self {
            StepState::Success(v) => v@,
            StepState::Fail(v) => v@,
        }
    }
}

/// What is known of a finished step.
pub trait StepAsset {
    fn step(&self) -> &str;

    fn start(&self) -> i64;

    fn end(&self) -> i64;

    fn state(&self) -> &StepState;
}

/// A finished step: the id of the step, its start and end, and its outcome.
#[derive(Debug)]
pub struct StepAssetStruct {
    pub id: crate::run::step::IdStruct,
    pub start: i64,
    pub end: i64,
    pub state: StepState,
}

impl StepAssetStruct {
    /// A step fails where its last action failed.
    pub fn new(
        id: crate::run::step::IdStruct,
        start: i64,
        end: i64,
        action_asset_vec: Vec<ActionAssetStruct>,
    ) -> (r: StepAssetStruct)
        requires
            action_asset_vec@.len() > 0,
        ensures
            r.id == id,
            r.start == start,
            r.end == end,
            r.state.assets() == action_asset_vec@,
            r.state is Fail <==> action_asset_vec@.last().state is Error,
    {
        let last_state_is_err = action_asset_vec[action_asset_vec.len() - 1].state.is_err();
        let state = if last_state_is_err {
            StepState::Fail(action_asset_vec)
        } else {
            StepState::Success(action_asset_vec)
        };
        StepAssetStruct { id, start, end, state }
    }
}

impl StepAsset for StepAssetStruct {
    fn step(&self) -> (r: &str)
        ensures
            r@ == self.id.step@,
    {
        self.id.step.as_str()
    }

    fn start(&self) -> (r: i64)
        ensures
            r == self.start,
    {
        self.start
    }

    fn end(&self) -> (r: i64)
        ensures
            r == self.end,
    {
        self.end
    }

    fn state(&self) -> (r: &StepState)
        ensures
            *r == self.state,
    {
        &self.state
    }
}

/// Records the outcome of one action of a running step: its asset joins
/// `assets`, and, where it succeeded, its value is stored in the step's
/// context under the action id. Gives whether the step goes on with its
/// next action.
pub fn step_action_done(context: &mut JsonMap, assets: &mut Vec<ActionAssetStruct>, asset: ActionAssetStruct) -> (go_on: bool)
    ensures
        go_on == (asset.state is Success),
        final(assets)@ == old(assets)@.push(asset),
        asset.state is Success ==> final(context)@ == map_insert(
            old(context)@,
            asset.aid@,
            action_value(asset.state),
        ),
        asset.state is Error ==> final(context)@ == old(context)@,
{
    let go_on = asset.state.is_ok();
    if go_on {
        let v = action_asset_to_value(&asset);
        context.insert(asset.aid.clone(), v);
    }
    assets.push(asset);
    go_on
}

/// The text of an explanation: a text as itself, any other value as
/// `show` writes it.
pub fn explain_string<S: Fn(&Value) -> String>(exp: &Value, show: &S) -> (r: String)
    requires
        forall|v: &Value| show.requires((v,)),
    ensures
        match exp {
            Value::String(t) => r@ == t@,
            _ => show.ensures((exp,), r),
        },
{
    match exp {
        Value::String(t) => t.clone(),
        _ => show(exp),
    }
}

} // verus!
