//! A job: a directory whose sub-directories are tasks or jobs in their
//! turn. Which of them run, in which order, whether one after the other,
//! and under which task id.
use vstd::prelude::*;

use crate::pattern::{id_valid, spec_id_valid};
use crate::task::TaskState;
use crate::text::{concat3, owned};
use crate::value::{get_in, index_path, JVal, Value};

verus! {

/// Whether text `a` comes before text `b`: by the first character where
/// they differ, compared by code point, or as a proper prefix. This is the
/// order of `String`, whose bytes in UTF-8 compare the same way.
pub open spec fn text_lt(a: Seq<char>, b: Seq<char>) -> bool
    decreases a.len(),
{
    if a.len() == 0 {
        b.len() > 0
    } else if b.len() == 0 {
        false
    } else if a[0] != b[0] {
        (a[0] as u32) < (b[0] as u32)
    } else {
        text_lt(a.drop_first(), b.drop_first())
    }
}

/// Whether text `a` comes before `b` or is `b`.
pub open spec fn text_le(a: Seq<char>, b: Seq<char>) -> bool {
    a == b || text_lt(a, b)
}

/// The texts of a list of strings.
pub open spec fn texts(v: Seq<String>) -> Seq<Seq<char>> {
    v.map_values(|s: String| s@)
}

/// `slice::sort` on strings: the same strings, each not after the next.
#[verifier::external_body]
pub(crate) fn sort_strings(v: Vec<String>) -> (r: Vec<String>)
    ensures
        texts(r@).to_multiset() == texts(v@).to_multiset(),
        forall|i: int, j: int| 0 <= i < j < r@.len() ==> text_le(#[trigger] r@[i]@, #[trigger] r@[j]@),
{
    let mut v = v;
    v.sort();
    v
}

/// The names of the entries of a job that may be tasks or jobs: those that
/// are valid ids.
pub open spec fn id_names(names: Seq<Seq<char>>) -> Seq<Seq<char>> {
    names.filter(|n: Seq<char>| spec_id_valid(n))
}

/// The names among `names` that are valid ids, in order.
pub fn valid_names(names: &Vec<String>) -> (r: Vec<String>)
    ensures
        texts(r@) == id_names(texts(names@)),
{
    let n = names.len();
    let mut out: Vec<String> = Vec::new();
    for i in 0..n
        invariant
            n == names@.len(),
            texts(out@) == id_names(texts(names@).take(i as int)),
    {
        let ghost before = out@;
        proof {
            let t = texts(names@);
            assert(t.take(i + 1).drop_last() == t.take(i as int));
            assert(t.take(i + 1).last() == names@[i as int]@);
            reveal(Seq::filter);
        }
        if id_valid(names[i].as_str()) {
            out.push(names[i].clone());
            proof {
                assert(texts(out@) == texts(before).push(names@[i as int]@));
            }
        } else {
            proof {
                assert(texts(out@) == texts(before));
            }
        }
    }
    proof {
        assert(texts(names@).take(n as int) == texts(names@));
    }
    out
}

/// The entries of a job to run, in order: those whose names are valid ids,
/// sorted.
pub fn job_children(names: &Vec<String>) -> (r: Vec<String>)
    ensures
        texts(r@).to_multiset() == id_names(texts(names@)).to_multiset(),
        forall|i: int, j: int| 0 <= i < j < r@.len() ==> text_le(#[trigger] r@[i]@, #[trigger] r@[j]@),
{
    sort_strings(valid_names(names))
}

/// Whether the entries of a job run one after the other: its control
/// data's `job.serial` entry where that is a boolean, else not.
pub open spec fn serial_of(ctrl: JVal) -> bool {
    match index_path(ctrl, seq!["job"@, "serial"@]) {
        JVal::Bool(b) => b,
        _ => false,
    }
}

/// Whether the entries of a job run one after the other; see `serial_of`.
pub fn job_serial(ctrl: &Value) -> (b: bool)
    ensures
        b == serial_of(ctrl@),
{
    proof {
        reveal_strlit("job");
        reveal_strlit("serial");
        assert(seq!["job"@, "serial"@].skip(1) == seq!["serial"@]);
        assert(seq!["serial"@].skip(1).len() == 0);
        reveal_with_fuel(index_path, 3);
    }
    match get_in(ctrl.get("job"), "serial") {
        Some(Value::Bool(b)) => *b,
        _ => false,
    }
}

/// Texts joined with dots between them.
pub open spec fn join_dots(parts: Seq<Seq<char>>) -> Seq<char>
    decreases parts.len(),
{
    if parts.len() == 0 {
        Seq::empty()
    } else if parts.len() == 1 {
        parts[0]
    } else {
        join_dots(parts.drop_last()) + "."@ + parts.last()
    }
}

/// The id of the task at the path made of `parts` under the job's root:
/// the parts joined with dots, or, where that is empty, the last part of
/// the root's path.
pub open spec fn task_id_of(parts: Seq<Seq<char>>, root_last: Seq<char>) -> Seq<char> {
    if join_dots(parts).len() == 0 {
        root_last
    } else {
        join_dots(parts)
    }
}

/// The id of a task; see `task_id_of`.
pub fn task_id(parts: &Vec<String>, root_last: &str) -> (r: String)
    ensures
        r@ == task_id_of(texts(parts@), root_last@),
{
    let n = parts.len();
    let mut id = String::new();
    for i in 0..n
        invariant
            n == parts@.len(),
            id@ == join_dots(texts(parts@).take(i as int)),
    {
        proof {
            let t = texts(parts@);
            assert(t.take(i + 1).drop_last() == t.take(i as int));
        }
        if i == 0 {
            id = parts[0].clone();
            proof {
                assert(texts(parts@).take(1).len() == 1);
            }
        } else {
            id = concat3(id.as_str(), ".", parts[i].as_str());
        }
    }
    proof {
        assert(texts(parts@).take(n as int) == texts(parts@));
    }
    if id.as_str().unicode_len() == 0 {
        owned(root_last)
    } else {
        id
    }
}

/// The state of a task that could not run: the error's message.
pub fn task_state_of(outcome: Result<TaskState, String>) -> (r: TaskState)
    ensures
        match outcome {
            Ok(s) => r == s,
            Err(e) => r == TaskState::Error(e),
        },
{
    match outcome {
        Ok(s) => s,
        Err(e) => TaskState::Error(e),
    }
}

/// Takes in what an entry of a job gave: the states of its tasks join
/// those of the entries before it, in order; an error ends the job, which
/// gives that error and none of the states.
pub fn child_done(states: &mut Vec<TaskState>, result: Result<Vec<TaskState>, String>) -> (stop: Option<String>)
    ensures
        match result {
            Ok(v) => stop is None && final(states)@ == old(states)@ + v@,
            Err(e) => stop == Some(e) && final(states)@ == old(states)@,
        },
{
    match result {
        Ok(mut v) => {
            states.append(&mut v);
            None
        },
        Err(e) => Some(e),
    }
}

} // verus!
