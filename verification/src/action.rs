//! Actions: their identity, the data they produce, and what that data reads
//! as a value.
use vstd::prelude::*;

use crate::value::{view_values, JVal, Value};

verus! {

/// The identity of a step, as actions see it.
pub trait Id {
    /// The step id.
    fn step(&self) -> &str;
}

/// Something that reads as a value.
pub trait Data {
    fn to_value(&self) -> Value;
}

impl Data for Value {
    fn to_value(&self) -> (r: Value)
        ensures
            r@ == self@,
    {
        self.deep_clone()
    }
}

/// A piece of data produced at some point of an action, with its id and
/// its start and end times (milliseconds since the epoch).
#[derive(Debug)]
pub struct Frame {
    pub id: String,
    pub start: i64,
    pub end: i64,
    pub data: Value,
}

impl Data for Frame {
    fn to_value(&self) -> (r: Value)
        ensures
            r@ == self.data@,
    {
        self.data.deep_clone()
    }
}

/// What an action produced.
#[derive(Debug)]
pub enum Asset {
    Value(Value),
    Data(Value),
    Frames(Vec<Frame>),
}

/// The value an asset reads as.
pub open spec fn asset_value(a: Asset) -> JVal {
    match a {
        Asset::Value(v) => v@,
        Asset::Data(d) => d@,
        Asset::Frames(fs) => JVal::Arr(fs@.map_values(|f: Frame| f.data@)),
    }
}

impl Asset {
    /// The value the asset reads as: a value or data as itself, frames as
    /// the array of their values.
    pub fn to_value(&self) -> (r: Value)
        ensures
            r@ == asset_value(*self),
    {
        match self {
            Asset::Value(v) => v.deep_clone(),
            Asset::Data(d) => d.deep_clone(),
            Asset::Frames(fs) => {
                let mut out: Vec<Value> = Vec::new();
                let n = fs.len();
                for i in 0..n
                    invariant
                        n == fs@.len(),
                        out@.len() == i,
                        view_values(out@) == fs@.take(i as int).map_values(|f: Frame| f.data@),
                {
                    let x = fs[i].to_value();
                    let ghost before = out@;
                    out.push(x);
                    proof {
                        assert(out@.drop_last() == before);
                        assert(fs@.take(i + 1).map_values(|f: Frame| f.data@) == fs@.take(
                            i as int,
                        ).map_values(|f: Frame| f.data@).push(fs@[i as int].data@));
                    }
                }
                assert(fs@.take(n as int) == fs@);
                Value::Array(out)
            },
        }
    }
}

} // verus!
