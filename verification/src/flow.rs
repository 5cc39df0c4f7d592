//! A flow definition: a JSON document with a version, an optional `def`
//! section, optional pre steps and one or more stages of steps, each step a
//! list of actions. `Flow::new` accepts a document only when it is well
//! formed, and every accessor of an accepted flow is total on the ids it
//! names.
use vstd::prelude::*;
use vstd::string::StringExecFns;

use crate::pattern::{id_valid, spec_id_valid};
use crate::text::{concat, concat3, one_of, owned};
use crate::value::{
    get_in, opt_val, index_key, key_pos, keys_of, lemma_key_pos_bounds, lookup, object_keys,
    string_of, u64_of, JVal, JsonMap, Value,
};

verus! {

/// Why a flow document is refused.
#[derive(Debug)]
pub enum Error {
    /// An identifier does not match the identifier pattern.
    IdInvalid(String),
    /// A step identifier occurs twice.
    IdDuplicated(String),
    /// An entry (second field) is missing in a section (first field).
    EntryLost(String, String),
    /// A section (first field) holds an entry (second field) it does not allow.
    EntryUnexpected(String, String),
    /// A section (first field) must satisfy a condition (second field) but
    /// it does not (third field).
    Violation(String, String, String),
    /// A section (first field) holds a value (second field) it does not allow.
    ValueUnexpected(String, String),
}

/// The mathematical form of an `Error`.
pub enum FlowErr {
    IdInvalid(Seq<char>),
    IdDuplicated(Seq<char>),
    EntryLost(Seq<char>, Seq<char>),
    EntryUnexpected(Seq<char>, Seq<char>),
    Violation(Seq<char>, Seq<char>, Seq<char>),
    ValueUnexpected(Seq<char>, Seq<char>),
}

impl View for Error {
    type V = FlowErr;

    open spec fn view(&self) -> FlowErr {
        match self {
            Error::IdInvalid(a) => FlowErr::IdInvalid(a@),
            Error::IdDuplicated(a) => FlowErr::IdDuplicated(a@),
            Error::EntryLost(a, b) => FlowErr::EntryLost(a@, b@),
            Error::EntryUnexpected(a, b) => FlowErr::EntryUnexpected(a@, b@),
            Error::Violation(a, b, c) => FlowErr::Violation(a@, b@, c@),
            Error::ValueUnexpected(a, b) => FlowErr::ValueUnexpected(a@, b@),
        }
    }
}

/// The message of an error.
pub open spec fn message_of(e: FlowErr) -> Seq<char> {
    match e {
        FlowErr::IdInvalid(a) => "invalid id `"@ + a + "`"@,
        FlowErr::IdDuplicated(a) => "duplicated id `"@ + a + "`"@,
        FlowErr::EntryLost(a, b) => a + " lost entry `"@ + b + "`"@,
        FlowErr::EntryUnexpected(a, b) => a + " unexpect entry `"@ + b + "`"@,
        FlowErr::Violation(a, b, c) => a + " must "@ + b + " but it "@ + c,
        FlowErr::ValueUnexpected(a, b) => a + " unexpect value "@ + b,
    }
}

impl Error {
    /// The message of the error.
    pub fn to_string(&self) -> (r: String)
        ensures
            r@ == message_of(self@),
    {
        match self {
            Error::IdInvalid(a) => concat3("invalid id `", a.as_str(), "`"),
            Error::IdDuplicated(a) => concat3("duplicated id `", a.as_str(), "`"),
            Error::EntryLost(a, b) => {
                let mut s = concat3(a.as_str(), " lost entry `", b.as_str());
                s.append("`");
                s
            },
            Error::EntryUnexpected(a, b) => {
                let mut s = concat3(a.as_str(), " unexpect entry `", b.as_str());
                s.append("`");
                s
            },
            Error::Violation(a, b, c) => {
                let mut s = concat3(a.as_str(), " must ", b.as_str());
                s.append(" but it ");
                s.append(c.as_str());
                s
            },
            Error::ValueUnexpected(a, b) => concat3(a.as_str(), " unexpect value ", b.as_str()),
        }
    }
}

// ---------------------------------------------------------------------
// The rules, stated over the mathematical form of the document.

/// The first of `keys` that is not among `allowed`.
pub open spec fn first_not_in(keys: Seq<Seq<char>>, allowed: Seq<Seq<char>>) -> Option<Seq<char>>
    decreases keys.len(),
{
    if keys.len() == 0 {
        None
    } else if !allowed.contains(keys[0]) {
        Some(keys[0])
    } else {
        first_not_in(keys.skip(1), allowed)
    }
}

/// A section `at` must be an object whose keys are all `allowed`.
pub open spec fn check_section(v: JVal, at: Seq<char>, allowed: Seq<Seq<char>>) -> Result<(), FlowErr> {
    match object_keys(v) {
        None => Err(FlowErr::Violation(at, "be a object"@, "is not"@)),
        Some(ks) => match first_not_in(ks, allowed) {
            Some(k) => Err(FlowErr::EntryUnexpected(at, k)),
            None => Ok(()),
        },
    }
}

pub open spec fn root_keys() -> Seq<Seq<char>> {
    seq!["version"@, "def"@, "stage"@, "pre"@]
}

pub open spec fn pre_keys() -> Seq<Seq<char>> {
    seq!["step"@]
}

pub open spec fn stage_keys() -> Seq<Seq<char>> {
    seq!["step"@, "loader"@, "concurrency"@, "round"@, "duration"@, "break_on"@]
}

/// The version must be the text `0.0.1`.
pub open spec fn check_version(f: JVal) -> Result<(), FlowErr> {
    match string_of(index_key(f, "version"@)) {
        None => Err(FlowErr::EntryLost("root"@, "version"@)),
        Some(v) => if v == "0.0.1"@ {
            Ok(())
        } else {
            Err(FlowErr::Violation("version"@, "0.0.1"@, v))
        },
    }
}

/// The pre step ids: the keys of `pre.step` where it is a non-empty object.
pub open spec fn pre_step_ids(f: JVal) -> Option<Seq<Seq<char>>> {
    match object_keys(index_key(index_key(f, "pre"@), "step"@)) {
        Some(ks) => if ks.len() > 0 {
            Some(ks)
        } else {
            None
        },
        None => None,
    }
}

/// Checks `ids` one after the other against the pattern and against the
/// ids seen so far, and gives the seen ids extended by `ids`.
pub open spec fn check_ids(ids: Seq<Seq<char>>, seen: Seq<Seq<char>>) -> Result<
    Seq<Seq<char>>,
    FlowErr,
>
    decreases ids.len(),
{
    if ids.len() == 0 {
        Ok(seen)
    } else if !spec_id_valid(ids[0]) {
        Err(FlowErr::IdInvalid(ids[0]))
    } else if seen.contains(ids[0]) {
        Err(FlowErr::IdDuplicated(ids[0]))
    } else {
        check_ids(ids.skip(1), seen.push(ids[0]))
    }
}

/// The pre steps: their ids are checked, and, as soon as there is one, the
/// `pre` section may hold nothing but `step`.
pub open spec fn check_pre(f: JVal) -> Result<Seq<Seq<char>>, FlowErr> {
    match pre_step_ids(f) {
        None => Ok(Seq::empty()),
        Some(ids) => if !spec_id_valid(ids[0]) {
            Err(FlowErr::IdInvalid(ids[0]))
        } else {
            match check_section(index_key(f, "pre"@), "pre"@, pre_keys()) {
                Err(e) => Err(e),
                Ok(_) => check_ids(ids, Seq::empty()),
            }
        },
    }
}

/// The stage `sid` of the document.
pub open spec fn stage_of(f: JVal, sid: Seq<char>) -> JVal {
    index_key(index_key(f, "stage"@), sid)
}

/// A number entry `name` of stage `sid`, where present as an unsigned
/// integer, must be at least 1.
pub open spec fn check_positive(f: JVal, sid: Seq<char>, name: Seq<char>) -> Result<(), FlowErr> {
    match u64_of(index_key(stage_of(f, sid), name)) {
        Some(n) => if n < 1 {
            Err(FlowErr::Violation("stage."@ + sid + "."@ + name, "> 0"@, "is 0"@))
        } else {
            Ok(())
        },
        None => Ok(()),
    }
}

/// The `break_on` entry of a stage, where it is a text, must be `never` or
/// `stage_fail`.
pub open spec fn check_break_on(f: JVal, sid: Seq<char>) -> Result<(), FlowErr> {
    match string_of(index_key(stage_of(f, sid), "break_on"@)) {
        Some(b) => if b == "never"@ || b == "stage_fail"@ {
            Ok(())
        } else {
            Err(FlowErr::ValueUnexpected("stage."@ + sid + ".break_on"@, b))
        },
        None => Ok(()),
    }
}

/// The step ids of stage `sid`: the keys of its non-empty `step` object.
pub open spec fn stage_step_ids(f: JVal, sid: Seq<char>) -> Result<Seq<Seq<char>>, FlowErr> {
    match object_keys(index_key(stage_of(f, sid), "step"@)) {
        None => Err(FlowErr::EntryLost(sid, "step"@)),
        Some(ks) => if ks.len() == 0 {
            Err(FlowErr::Violation("stage."@ + sid + ".step"@, "not empty"@, "is"@))
        } else {
            Ok(ks)
        },
    }
}

/// The checks of stage `sid` on its own entries, in order.
pub open spec fn check_stage_entries(f: JVal, sid: Seq<char>) -> Result<(), FlowErr> {
    match check_section(stage_of(f, sid), "stage."@ + sid, stage_keys()) {
        Err(e) => Err(e),
        Ok(_) => match check_positive(f, sid, "concurrency"@) {
            Err(e) => Err(e),
            Ok(_) => match check_positive(f, sid, "duration"@) {
                Err(e) => Err(e),
                Ok(_) => match check_positive(f, sid, "round"@) {
                    Err(e) => Err(e),
                    Ok(_) => check_break_on(f, sid),
                },
            },
        },
    }
}

/// All checks of stage `sid`, in order; on success the seen step ids
/// extended by the stage's step ids.
pub open spec fn check_stage(f: JVal, sid: Seq<char>, seen: Seq<Seq<char>>) -> Result<
    Seq<Seq<char>>,
    FlowErr,
> {
    if !spec_id_valid(sid) {
        Err(FlowErr::IdInvalid(sid))
    } else {
        match check_stage_entries(f, sid) {
            Err(e) => Err(e),
            Ok(_) => match stage_step_ids(f, sid) {
                Err(e) => Err(e),
                Ok(ids) => check_ids(ids, seen),
            },
        }
    }
}

/// The stages checked one after the other.
pub open spec fn check_stages(f: JVal, sids: Seq<Seq<char>>, seen: Seq<Seq<char>>) -> Result<
    Seq<Seq<char>>,
    FlowErr,
>
    decreases sids.len(),
{
    if sids.len() == 0 {
        Ok(seen)
    } else {
        match check_stage(f, sids[0], seen) {
            Err(e) => Err(e),
            Ok(s) => check_stages(f, sids.skip(1), s),
        }
    }
}

/// The stage ids: the keys of the `stage` object.
pub open spec fn stage_ids(f: JVal) -> Option<Seq<Seq<char>>> {
    object_keys(index_key(f, "stage"@))
}

/// Where step `stid` is defined: the first stage, in stage order, whose
/// `step` object holds a non-null entry for it; else the pre steps.
pub open spec fn find_step(f: JVal, sids: Seq<Seq<char>>, stid: Seq<char>) -> JVal
    decreases sids.len(),
{
    if sids.len() == 0 {
        index_key(index_key(index_key(f, "pre"@), "step"@), stid)
    } else if !(index_key(index_key(stage_of(f, sids[0]), "step"@), stid) is Null) {
        index_key(index_key(stage_of(f, sids[0]), "step"@), stid)
    } else {
        find_step(f, sids.skip(1), stid)
    }
}

/// The definition of step `stid`.
pub open spec fn step_of(f: JVal, stid: Seq<char>) -> JVal {
    match stage_ids(f) {
        Some(sids) => find_step(f, sids, stid),
        None => find_step(f, Seq::empty(), stid),
    }
}

/// Action `aid` of step `stid` must be an object of exactly one entry.
pub open spec fn check_action(f: JVal, stid: Seq<char>, aid: Seq<char>) -> Result<(), FlowErr> {
    match index_key(step_of(f, stid), aid) {
        JVal::Obj(m) => if m.len() != 1 {
            Err(FlowErr::Violation(stid + "."@ + aid, "have 1 entry"@, "is not"@))
        } else {
            Ok(())
        },
        _ => Err(FlowErr::Violation(stid + "."@ + aid, "be a object"@, "is not"@)),
    }
}

/// The actions `aids` of step `stid` checked one after the other.
pub open spec fn check_actions(f: JVal, stid: Seq<char>, aids: Seq<Seq<char>>) -> Result<(), FlowErr>
    decreases aids.len(),
{
    if aids.len() == 0 {
        Ok(())
    } else {
        match check_action(f, stid, aids[0]) {
            Err(e) => Err(e),
            Ok(_) => check_actions(f, stid, aids.skip(1)),
        }
    }
}

/// Step `stid` must be an object whose entries are all valid actions.
pub open spec fn check_step(f: JVal, stid: Seq<char>) -> Result<(), FlowErr> {
    match object_keys(step_of(f, stid)) {
        None => Err(FlowErr::Violation("step."@ + stid, "be a object"@, "is not"@)),
        Some(aids) => check_actions(f, stid, aids),
    }
}

/// The steps checked one after the other.
pub open spec fn check_steps(f: JVal, stids: Seq<Seq<char>>) -> Result<(), FlowErr>
    decreases stids.len(),
{
    if stids.len() == 0 {
        Ok(())
    } else {
        match check_step(f, stids[0]) {
            Err(e) => Err(e),
            Ok(_) => check_steps(f, stids.skip(1)),
        }
    }
}

/// The whole validation of a flow document, in the order in which its rules
/// are checked; on success the ids of all steps, pre steps first.
pub open spec fn validate(f: JVal) -> Result<Seq<Seq<char>>, FlowErr> {
    match check_section(f, "root"@, root_keys()) {
        Err(e) => Err(e),
        Ok(_) => match check_version(f) {
        Err(e) => Err(e),
        Ok(_) => match check_pre(f) {
            Err(e) => Err(e),
            Ok(pre) => match stage_ids(f) {
                None => Err(FlowErr::EntryLost("root"@, "stage"@)),
                Some(sids) => if sids.len() == 0 {
                    Err(FlowErr::EntryLost("root"@, "stage"@))
                } else {
                    match check_stages(f, sids, pre) {
                        Err(e) => Err(e),
                        Ok(all) => match check_steps(f, all) {
                            Err(e) => Err(e),
                            Ok(_) => Ok(all),
                        },
                    }
                },
            },
        },
        },
    }
}

/// The metadata a flow carries: the directory of its task.
pub open spec fn meta_of(dir: Seq<char>) -> Seq<(Seq<char>, JVal)> {
    seq![("task_dir"@, JVal::Str(dir))]
}


// ---------------------------------------------------------------------
// Facts about the rules.

pub proof fn lemma_lookup_key(m: Seq<(Seq<char>, JVal)>, k: Seq<char>)
    requires
        lookup(m, k) is Some,
    ensures
        keys_of(m).contains(k),
{
    lemma_key_pos_bounds(m, k);
    let p = key_pos(m, k);
    assert(keys_of(m)[p] == k);
}

pub proof fn lemma_check_ids(ids: Seq<Seq<char>>, seen: Seq<Seq<char>>)
    ensures
        check_ids(ids, seen) matches Ok(r) ==> r == seen + ids,
    decreases ids.len(),
{
    if ids.len() > 0 && spec_id_valid(ids[0]) && !seen.contains(ids[0]) {
        lemma_check_ids(ids.skip(1), seen.push(ids[0]));
        assert(seen.push(ids[0]) + ids.skip(1) == seen + ids);
    } else if ids.len() == 0 {
        assert(seen + ids == seen);
    }
}

pub proof fn lemma_check_stages(f: JVal, sids: Seq<Seq<char>>, seen: Seq<Seq<char>>)
    requires
        check_stages(f, sids, seen) is Ok,
    ensures
        forall|i: int|
            0 <= i < sids.len() ==> check_stage_entries(f, #[trigger] sids[i]) is Ok
                && stage_step_ids(f, sids[i]) is Ok && spec_id_valid(sids[i]),
    decreases sids.len(),
{
    if sids.len() > 0 {
        let s = check_stage(f, sids[0], seen)->Ok_0;
        lemma_check_stages(f, sids.skip(1), s);
        assert forall|i: int| 0 <= i < sids.len() implies check_stage_entries(
            f,
            #[trigger] sids[i],
        ) is Ok && stage_step_ids(f, sids[i]) is Ok && spec_id_valid(sids[i]) by {
            if i > 0 {
                assert(sids[i] == sids.skip(1)[i - 1]);
            }
        }
    }
}

pub proof fn lemma_check_actions(f: JVal, stid: Seq<char>, aids: Seq<Seq<char>>)
    requires
        check_actions(f, stid, aids) is Ok,
    ensures
        forall|i: int| 0 <= i < aids.len() ==> check_action(f, stid, #[trigger] aids[i]) is Ok,
    decreases aids.len(),
{
    if aids.len() > 0 {
        lemma_check_actions(f, stid, aids.skip(1));
        assert forall|i: int| 0 <= i < aids.len() implies check_action(
            f,
            stid,
            #[trigger] aids[i],
        ) is Ok by {
            if i > 0 {
                assert(aids[i] == aids.skip(1)[i - 1]);
            }
        }
    }
}

pub proof fn lemma_check_steps(f: JVal, stids: Seq<Seq<char>>)
    requires
        check_steps(f, stids) is Ok,
    ensures
        forall|i: int| 0 <= i < stids.len() ==> check_step(f, #[trigger] stids[i]) is Ok,
    decreases stids.len(),
{
    if stids.len() > 0 {
        lemma_check_steps(f, stids.skip(1));
        assert forall|i: int| 0 <= i < stids.len() implies check_step(
            f,
            #[trigger] stids[i],
        ) is Ok by {
            if i > 0 {
                assert(stids[i] == stids.skip(1)[i - 1]);
            }
        }
    }
}

/// Ids that are distinct and valid stay so when `check_ids` accepts more.
pub proof fn lemma_check_ids_distinct(ids: Seq<Seq<char>>, seen: Seq<Seq<char>>)
    requires
        seen.no_duplicates(),
        forall|i: int| 0 <= i < seen.len() ==> spec_id_valid(#[trigger] seen[i]),
    ensures
        check_ids(ids, seen) matches Ok(r) ==> r.no_duplicates() && forall|i: int|
            0 <= i < r.len() ==> spec_id_valid(#[trigger] r[i]),
    decreases ids.len(),
{
    if ids.len() > 0 && spec_id_valid(ids[0]) && !seen.contains(ids[0]) {
        let next = seen.push(ids[0]);
        assert forall|i: int, j: int|
            0 <= i < next.len() && 0 <= j < next.len() && i != j implies next[i] != next[j] by {
            if i == seen.len() {
                assert(seen[j] == next[j]);
            } else if j == seen.len() {
                assert(seen[i] == next[i]);
            }
        }
        lemma_check_ids_distinct(ids.skip(1), next);
    }
}

/// The same for the stages checked one after the other.
pub proof fn lemma_check_stages_distinct(f: JVal, sids: Seq<Seq<char>>, seen: Seq<Seq<char>>)
    requires
        seen.no_duplicates(),
        forall|i: int| 0 <= i < seen.len() ==> spec_id_valid(#[trigger] seen[i]),
    ensures
        check_stages(f, sids, seen) matches Ok(r) ==> r.no_duplicates() && forall|i: int|
            0 <= i < r.len() ==> spec_id_valid(#[trigger] r[i]),
    decreases sids.len(),
{
    if sids.len() > 0 {
        if check_stage(f, sids[0], seen) is Ok {
            let s = check_stage(f, sids[0], seen)->Ok_0;
            let ids = stage_step_ids(f, sids[0])->Ok_0;
            lemma_check_ids_distinct(ids, seen);
            lemma_check_stages_distinct(f, sids.skip(1), s);
        }
    }
}

/// In an accepted flow document every stage id and every step id matches
/// the identifier pattern, and no step id occurs twice, whether among the
/// pre steps, within a stage, or across stages.
pub proof fn law_flow_ids(f: JVal)
    requires
        validate(f) is Ok,
    ensures
        validate(f)->Ok_0.no_duplicates(),
        forall|i: int| 0 <= i < validate(f)->Ok_0.len() ==> spec_id_valid(#[trigger] validate(f)->Ok_0[i]),
        stage_ids(f) matches Some(sids) && sids.len() > 0 && forall|i: int|
            0 <= i < sids.len() ==> spec_id_valid(#[trigger] sids[i]),
{
    let empty = Seq::<Seq<char>>::empty();
    if let Some(ids) = pre_step_ids(f) {
        lemma_check_ids_distinct(ids, empty);
    }
    let pre = check_pre(f)->Ok_0;
    let sids = stage_ids(f)->Some_0;
    lemma_check_stages_distinct(f, sids, pre);
    lemma_check_stages(f, sids, pre);
}

/// The entries a flow document may hold at its root.
pub open spec fn root_entry(k: Seq<char>) -> bool {
    k == "version"@ || k == "def"@ || k == "stage"@ || k == "pre"@
}

proof fn lemma_root_keys(k: Seq<char>)
    ensures
        root_keys().contains(k) <==> root_entry(k),
{
    if root_entry(k) {
        if k == "version"@ {
            assert(root_keys()[0] == k);
        } else if k == "def"@ {
            assert(root_keys()[1] == k);
        } else if k == "stage"@ {
            assert(root_keys()[2] == k);
        } else {
            assert(root_keys()[3] == k);
        }
    }
}

proof fn lemma_first_not_in(keys: Seq<Seq<char>>, allowed: Seq<Seq<char>>)
    ensures
        first_not_in(keys, allowed) is None <==> forall|i: int| 0 <= i < keys.len() ==> allowed.contains(
            #[trigger] keys[i],
        ),
        first_not_in(keys, allowed) matches Some(k) ==> keys.contains(k) && !allowed.contains(k),
    decreases keys.len(),
{
    if keys.len() > 0 {
        lemma_first_not_in(keys.skip(1), allowed);
        assert forall|i: int| 1 <= i < keys.len() implies keys[i] == keys.skip(1)[i - 1] by {}
        if first_not_in(keys, allowed) is None {
            assert forall|i: int| 0 <= i < keys.len() implies allowed.contains(#[trigger] keys[i]) by {
                if i > 0 {
                    assert(keys.skip(1)[i - 1] == keys[i]);
                }
            }
        }
        if let Some(k) = first_not_in(keys.skip(1), allowed) {
            let j = choose|j: int| 0 <= j < keys.skip(1).len() && keys.skip(1)[j] == k;
            assert(keys[j + 1] == k);
        }
        if forall|i: int| 0 <= i < keys.len() ==> allowed.contains(#[trigger] keys[i]) {
            assert(allowed.contains(keys[0]));
            assert forall|i: int| 0 <= i < keys.skip(1).len() implies allowed.contains(
                #[trigger] keys.skip(1)[i],
            ) by {
                assert(keys.skip(1)[i] == keys[i + 1]);
            }
        }
    }
}

proof fn lemma_stages_not_root(f: JVal, sids: Seq<Seq<char>>, seen: Seq<Seq<char>>)
    ensures
        check_stages(f, sids, seen) matches Err(FlowErr::EntryUnexpected(at, _)) ==> at.len() >= 6,
    decreases sids.len(),
{
    reveal_strlit("stage.");
    if sids.len() > 0 {
        let sid = sids[0];
        assert(("stage."@ + sid).len() >= 6);
        if let Ok(ids) = stage_step_ids(f, sid) {
            lemma_ids_not_unexpected(ids, seen);
        }
        lemma_stages_not_root(f, sids.skip(1), match check_stage(f, sid, seen) {
            Ok(s) => s,
            Err(_) => seen,
        });
    }
}

proof fn lemma_steps_not_unexpected(f: JVal, stids: Seq<Seq<char>>)
    ensures
        !(check_steps(f, stids) is Err && check_steps(f, stids)->Err_0 is EntryUnexpected),
    decreases stids.len(),
{
    if stids.len() > 0 {
        lemma_steps_not_unexpected(f, stids.skip(1));
        if let Some(aids) = object_keys(step_of(f, stids[0])) {
            lemma_actions_not_unexpected(f, stids[0], aids);
        }
    }
}

proof fn lemma_actions_not_unexpected(f: JVal, stid: Seq<char>, aids: Seq<Seq<char>>)
    ensures
        !(check_actions(f, stid, aids) is Err && check_actions(f, stid, aids)->Err_0 is EntryUnexpected),
    decreases aids.len(),
{
    if aids.len() > 0 {
        lemma_actions_not_unexpected(f, stid, aids.skip(1));
    }
}

proof fn lemma_ids_not_unexpected(ids: Seq<Seq<char>>, seen: Seq<Seq<char>>)
    ensures
        !(check_ids(ids, seen) is Err && check_ids(ids, seen)->Err_0 is EntryUnexpected),
    decreases ids.len(),
{
    if ids.len() > 0 {
        lemma_ids_not_unexpected(ids.skip(1), seen.push(ids[0]));
    }
}

/// The root of a flow document may hold the entries `version`, `def`,
/// `stage` and `pre`, and no other: a document none of whose root entries
/// is another one is never refused for a root entry; one that holds
/// another is refused for such an entry.
pub proof fn law_root_entries(f: JVal)
    requires
        f is Obj,
    ensures
        (forall|i: int| 0 <= i < keys_of(f->Obj_0).len() ==> root_entry(#[trigger] keys_of(f->Obj_0)[i]))
            ==> !(validate(f) matches Err(FlowErr::EntryUnexpected(at, _)) && at == "root"@),
        (exists|i: int| 0 <= i < keys_of(f->Obj_0).len() && !root_entry(#[trigger] keys_of(f->Obj_0)[i]))
            ==> (validate(f) matches Err(FlowErr::EntryUnexpected(at, k)) && at == "root"@ && !root_entry(k)
            && keys_of(f->Obj_0).contains(k)),
{
    reveal_strlit("root");
    reveal_strlit("pre");
    let keys = keys_of(f->Obj_0);
    lemma_first_not_in(keys, root_keys());
    if forall|i: int| 0 <= i < keys.len() ==> root_entry(#[trigger] keys[i]) {
        assert forall|i: int| 0 <= i < keys.len() implies root_keys().contains(#[trigger] keys[i]) by {
            lemma_root_keys(keys[i]);
        }
        assert(first_not_in(keys, root_keys()) is None);
        assert(check_section(f, "root"@, root_keys()) is Ok);
        if let Some(ids) = pre_step_ids(f) {
            lemma_ids_not_unexpected(ids, Seq::empty());
        }
        let pre = check_pre(f);
        assert(pre matches Err(FlowErr::EntryUnexpected(at, _)) ==> at == "pre"@);
        assert("pre"@.len() == 3 && "root"@.len() == 4);
        assert("pre"@ != "root"@);
        if let Ok(p) = pre {
            if let Some(sids) = stage_ids(f) {
                lemma_stages_not_root(f, sids, p);
                if let Ok(all) = check_stages(f, sids, p) {
                    lemma_steps_not_unexpected(f, all);
                }
            }
        }
    }
    if exists|i: int| 0 <= i < keys.len() && !root_entry(#[trigger] keys[i]) {
        let i = choose|i: int| 0 <= i < keys.len() && !root_entry(#[trigger] keys[i]);
        lemma_root_keys(keys[i]);
        let k = first_not_in(keys, root_keys())->Some_0;
        lemma_root_keys(k);
    }
}

// ---------------------------------------------------------------------
// The checks, run on a document.

/// The first key of `m` that is not among `allowed`.
fn first_unexpected<'a>(m: &'a JsonMap, allowed: &Vec<&str>) -> (r: Option<&'a str>)
    ensures
        match r {
            Some(k) => first_not_in(keys_of(m@), allowed@.map_values(|o: &str| o@)) == Some(k@),
            None => first_not_in(keys_of(m@), allowed@.map_values(|o: &str| o@)) is None,
        },
{
    let ghost al = allowed@.map_values(|o: &str| o@);
    let ghost ks = keys_of(m@);
    let keys = m.keys();
    let n = keys.len();
    let mut i: usize = 0;
    assert(ks.skip(0) == ks);
    while i < n
        invariant
            n == keys@.len(),
            n == ks.len(),
            ks == keys_of(m@),
            al == allowed@.map_values(|o: &str| o@),
            forall|j: int| 0 <= j < n ==> keys@[j]@ == #[trigger] ks[j],
            i <= n,
            first_not_in(ks, al) == first_not_in(ks.skip(i as int), al),
        decreases n - i,
    {
        let k = keys[i];
        proof {
            assert(ks.skip(i as int)[0] == ks[i as int]);
            assert(ks.skip(i as int).skip(1) == ks.skip(i + 1));
        }
        if !one_of(k, allowed) {
            return Some(k);
        }
        i = i + 1;
    }
    None
}

/// A section must be an object whose keys are all allowed.
fn check_section_of(v: &Value, at: String, allowed: &Vec<&str>) -> (r: Result<(), Error>)
    ensures
        match r {
            Ok(_) => check_section(v@, at@, allowed@.map_values(|o: &str| o@)) is Ok,
            Err(e) => check_section(v@, at@, allowed@.map_values(|o: &str| o@)) == Err::<(), FlowErr>(e@),
        },
{
    match v.as_object() {
        None => Err(Error::Violation(at, owned("be a object"), owned("is not"))),
        Some(m) => match first_unexpected(m, allowed) {
            Some(k) => Err(Error::EntryUnexpected(at, owned(k))),
            None => Ok(()),
        },
    }
}


/// The version must be the text `0.0.1`.
fn check_version_of(f: &Value) -> (r: Result<(), Error>)
    ensures
        match r {
            Ok(_) => check_version(f@) is Ok,
            Err(e) => check_version(f@) == Err::<(), FlowErr>(e@),
        },
{
    match get_in(Some(f), "version") {
        Some(v) => match v.as_str() {
            Some(s) => if crate::value::str_eq(s, "0.0.1") {
                Ok(())
            } else {
                Err(Error::Violation(owned("version"), owned("0.0.1"), owned(s)))
            },
            None => Err(Error::EntryLost(owned("root"), owned("version"))),
        },
        None => Err(Error::EntryLost(owned("root"), owned("version"))),
    }
}

/// The keys of a value that is an object.
fn keys_in<'a>(v: Option<&'a Value>) -> (r: Option<Vec<&'a str>>)
    ensures
        match r {
            Some(ks) => object_keys(opt_val(v)) matches Some(k) && k == ks@.map_values(
                |s: &str| s@,
            ),
            None => object_keys(opt_val(v)) is None,
        },
{
    match v {
        Some(x) => match x.as_object() {
            Some(m) => {
                let ks = m.keys();
                assert(keys_of(m@) == ks@.map_values(|s: &str| s@));
                Some(ks)
            },
            None => None,
        },
        None => None,
    }
}

/// The pre step ids of a document.
fn pre_ids_of<'a>(f: &'a Value) -> (r: Option<Vec<&'a str>>)
    ensures
        match r {
            Some(ks) => pre_step_ids(f@) == Some(ks@.map_values(|s: &str| s@)),
            None => pre_step_ids(f@) is None,
        },
{
    let step = get_in(get_in(Some(f), "pre"), "step");
    match keys_in(step) {
        Some(ks) => if ks.len() > 0 {
            Some(ks)
        } else {
            None
        },
        None => None,
    }
}

/// Checks `ids` against the pattern and the ids seen so far, appending each
/// to `seen`.
fn check_ids_of<'a>(ids: &Vec<&'a str>, seen: &mut Vec<&'a str>) -> (r: Result<(), Error>)
    ensures
        match r {
            Ok(_) => check_ids(
                ids@.map_values(|s: &str| s@),
                old(seen)@.map_values(|s: &str| s@),
            ) == Ok::<Seq<Seq<char>>, FlowErr>(final(seen)@.map_values(|s: &str| s@)),
            Err(e) => check_ids(
                ids@.map_values(|s: &str| s@),
                old(seen)@.map_values(|s: &str| s@),
            ) == Err::<Seq<Seq<char>>, FlowErr>(e@),
        },
{
    let ghost idv = ids@.map_values(|s: &str| s@);
    let ghost target = check_ids(idv, seen@.map_values(|s: &str| s@));
    let n = ids.len();
    let mut i: usize = 0;
    assert(idv.skip(0) == idv);
    while i < n
        invariant
            n == ids@.len(),
            idv == ids@.map_values(|s: &str| s@),
            i <= n,
            target == check_ids(idv.skip(i as int), seen@.map_values(|s: &str| s@)),
            target == check_ids(idv, old(seen)@.map_values(|s: &str| s@)),
        decreases n - i,
    {
        let id = ids[i];
        proof {
            assert(idv.skip(i as int)[0] == id@);
            assert(idv.skip(i as int).skip(1) == idv.skip(i + 1));
        }
        if !id_valid(id) {
            return Err(Error::IdInvalid(owned(id)));
        }
        if one_of(id, seen) {
            return Err(Error::IdDuplicated(owned(id)));
        }
        let ghost before = seen@;
        seen.push(id);
        proof {
            assert(seen@.map_values(|s: &str| s@) == before.map_values(|s: &str| s@).push(id@));
        }
        i = i + 1;
    }
    assert(idv.skip(n as int) == Seq::<Seq<char>>::empty());
    Ok(())
}


/// Stage `sid` of a document.
fn stage_in<'a>(f: &'a Value, sid: &str) -> (r: Option<&'a Value>)
    ensures
        opt_val(r) == stage_of(f@, sid@),
{
    get_in(get_in(Some(f), "stage"), sid)
}

/// A number entry of a stage, where present, must be at least 1.
fn check_positive_of(f: &Value, sid: &str, name: &str) -> (r: Result<(), Error>)
    ensures
        match r {
            Ok(_) => check_positive(f@, sid@, name@) is Ok,
            Err(e) => check_positive(f@, sid@, name@) == Err::<(), FlowErr>(e@),
        },
{
    match get_in(stage_in(f, sid), name) {
        Some(v) => match v.as_u64() {
            Some(n) => if n < 1 {
                let at = concat(concat3("stage.", sid, ".").as_str(), name);
                Err(Error::Violation(at, owned("> 0"), owned("is 0")))
            } else {
                Ok(())
            },
            None => Ok(()),
        },
        None => Ok(()),
    }
}

/// The `break_on` entry of a stage, where a text, must be `never` or `stage_fail`.
fn check_break_on_of(f: &Value, sid: &str) -> (r: Result<(), Error>)
    ensures
        match r {
            Ok(_) => check_break_on(f@, sid@) is Ok,
            Err(e) => check_break_on(f@, sid@) == Err::<(), FlowErr>(e@),
        },
{
    match get_in(stage_in(f, sid), "break_on") {
        Some(v) => match v.as_str() {
            Some(b) => if crate::value::str_eq(b, "never") || crate::value::str_eq(b, "stage_fail") {
                Ok(())
            } else {
                Err(Error::ValueUnexpected(concat3("stage.", sid, ".break_on"), owned(b)))
            },
            None => Ok(()),
        },
        None => Ok(()),
    }
}

/// The checks of a stage on its own entries.
fn check_stage_entries_of(f: &Value, sid: &str) -> (r: Result<(), Error>)
    ensures
        match r {
            Ok(_) => check_stage_entries(f@, sid@) is Ok,
            Err(e) => check_stage_entries(f@, sid@) == Err::<(), FlowErr>(e@),
        },
{
    let allowed = vec!["step", "loader", "concurrency", "round", "duration", "break_on"];
    assert(allowed@.map_values(|o: &str| o@) == stage_keys());
    let stage = stage_in(f, sid);
    let null = Value::Null;
    let sv = match stage {
        Some(v) => v,
        None => &null,
    };
    check_section_of(sv, concat("stage.", sid), &allowed)?;
    check_positive_of(f, sid, "concurrency")?;
    check_positive_of(f, sid, "duration")?;
    check_positive_of(f, sid, "round")?;
    check_break_on_of(f, sid)
}

/// The step ids of a stage.
fn stage_step_ids_of<'a>(f: &'a Value, sid: &str) -> (r: Result<Vec<&'a str>, Error>)
    ensures
        match r {
            Ok(ks) => stage_step_ids(f@, sid@) == Ok::<Seq<Seq<char>>, FlowErr>(
                ks@.map_values(|s: &str| s@),
            ),
            Err(e) => stage_step_ids(f@, sid@) == Err::<Seq<Seq<char>>, FlowErr>(e@),
        },
{
    match keys_in(get_in(stage_in(f, sid), "step")) {
        None => Err(Error::EntryLost(owned(sid), owned("step"))),
        Some(ks) => if ks.len() == 0 {
            Err(Error::Violation(concat3("stage.", sid, ".step"), owned("not empty"), owned("is")))
        } else {
            Ok(ks)
        },
    }
}

/// All checks of the stages `sids`, in order, collecting the step ids in `seen`.
fn check_stages_of<'a>(f: &'a Value, sids: &Vec<&str>, seen: &mut Vec<&'a str>) -> (r: Result<(), Error>)
    ensures
        match r {
            Ok(_) => check_stages(
                f@,
                sids@.map_values(|s: &str| s@),
                old(seen)@.map_values(|s: &str| s@),
            ) == Ok::<Seq<Seq<char>>, FlowErr>(final(seen)@.map_values(|s: &str| s@)),
            Err(e) => check_stages(
                f@,
                sids@.map_values(|s: &str| s@),
                old(seen)@.map_values(|s: &str| s@),
            ) == Err::<Seq<Seq<char>>, FlowErr>(e@),
        },
{
    let ghost sv = sids@.map_values(|s: &str| s@);
    let ghost target = check_stages(f@, sv, seen@.map_values(|s: &str| s@));
    let n = sids.len();
    let mut i: usize = 0;
    assert(sv.skip(0) == sv);
    while i < n
        invariant
            n == sids@.len(),
            sv == sids@.map_values(|s: &str| s@),
            i <= n,
            target == check_stages(f@, sv.skip(i as int), seen@.map_values(|s: &str| s@)),
            target == check_stages(f@, sv, old(seen)@.map_values(|s: &str| s@)),
        decreases n - i,
    {
        let sid = sids[i];
        proof {
            assert(sv.skip(i as int)[0] == sid@);
            assert(sv.skip(i as int).skip(1) == sv.skip(i + 1));
        }
        if !id_valid(sid) {
            return Err(Error::IdInvalid(owned(sid)));
        }
        check_stage_entries_of(f, sid)?;
        let ids = stage_step_ids_of(f, sid)?;
        check_ids_of(&ids, seen)?;
        i = i + 1;
    }
    assert(sv.skip(n as int) == Seq::<Seq<char>>::empty());
    Ok(())
}


/// Where step `stid` is defined, searching the stages `sids` and then the pre steps.
fn step_in<'a>(f: &'a Value, sids: &Vec<&str>, stid: &str) -> (r: Option<&'a Value>)
    ensures
        opt_val(r) == find_step(f@, sids@.map_values(|s: &str| s@), stid@),
{
    let ghost sv = sids@.map_values(|s: &str| s@);
    let n = sids.len();
    let mut i: usize = 0;
    assert(sv.skip(0) == sv);
    while i < n
        invariant
            n == sids@.len(),
            sv == sids@.map_values(|s: &str| s@),
            i <= n,
            find_step(f@, sv, stid@) == find_step(f@, sv.skip(i as int), stid@),
        decreases n - i,
    {
        let sid = sids[i];
        proof {
            assert(sv.skip(i as int)[0] == sid@);
            assert(sv.skip(i as int).skip(1) == sv.skip(i + 1));
        }
        let x = get_in(get_in(stage_in(f, sid), "step"), stid);
        match x {
            Some(v) => if !v.is_null() {
                return x;
            },
            None => {},
        }
        i = i + 1;
    }
    assert(sv.skip(n as int) == Seq::<Seq<char>>::empty());
    get_in(get_in(get_in(Some(f), "pre"), "step"), stid)
}

/// The definition of step `stid`.
fn step_value<'a>(f: &'a Value, stid: &str) -> (r: Option<&'a Value>)
    ensures
        opt_val(r) == step_of(f@, stid@),
{
    match keys_in(get_in(Some(f), "stage")) {
        Some(sids) => step_in(f, &sids, stid),
        None => {
            let none: Vec<&str> = Vec::new();
            assert(none@.map_values(|s: &str| s@) == Seq::<Seq<char>>::empty());
            step_in(f, &none, stid)
        },
    }
}

/// Action `aid` of step `stid` must be an object of exactly one entry.
fn check_action_of(step: Option<&Value>, stid: &str, aid: &str) -> (r: Result<(), Error>)
    ensures
        forall|f: JVal|
            step_of(f, stid@) == opt_val(step) ==> match r {
                Ok(_) => check_action(f, stid@, aid@) is Ok,
                Err(e) => check_action(f, stid@, aid@) == Err::<(), FlowErr>(e@),
            },
{
    match get_in(step, aid) {
        Some(v) => match v.as_object() {
            Some(m) => if m.len() != 1 {
                Err(Error::Violation(concat3(stid, ".", aid), owned("have 1 entry"), owned("is not")))
            } else {
                Ok(())
            },
            None => Err(Error::Violation(concat3(stid, ".", aid), owned("be a object"), owned("is not"))),
        },
        None => Err(Error::Violation(concat3(stid, ".", aid), owned("be a object"), owned("is not"))),
    }
}

/// Step `stid` must be an object whose entries are all valid actions.
fn check_step_of(f: &Value, stid: &str) -> (r: Result<(), Error>)
    ensures
        match r {
            Ok(_) => check_step(f@, stid@) is Ok,
            Err(e) => check_step(f@, stid@) == Err::<(), FlowErr>(e@),
        },
{
    let step = step_value(f, stid);
    match keys_in(step) {
        None => Err(Error::Violation(concat("step.", stid), owned("be a object"), owned("is not"))),
        Some(aids) => {
            let ghost av = aids@.map_values(|s: &str| s@);
            let n = aids.len();
            let mut i: usize = 0;
            assert(av.skip(0) == av);
            while i < n
                invariant
                    n == aids@.len(),
                    av == aids@.map_values(|s: &str| s@),
                    opt_val(step) == step_of(f@, stid@),
                    object_keys(step_of(f@, stid@)) == Some(av),
                    i <= n,
                    check_actions(f@, stid@, av) == check_actions(f@, stid@, av.skip(i as int)),
                decreases n - i,
            {
                let aid = aids[i];
                proof {
                    assert(av.skip(i as int)[0] == aid@);
                    assert(av.skip(i as int).skip(1) == av.skip(i + 1));
                }
                check_action_of(step, stid, aid)?;
                i = i + 1;
            }
            assert(av.skip(n as int) == Seq::<Seq<char>>::empty());
            Ok(())
        },
    }
}

/// The steps `stids` checked one after the other.
fn check_steps_of(f: &Value, stids: &Vec<&str>) -> (r: Result<(), Error>)
    ensures
        match r {
            Ok(_) => check_steps(f@, stids@.map_values(|s: &str| s@)) is Ok,
            Err(e) => check_steps(f@, stids@.map_values(|s: &str| s@)) == Err::<(), FlowErr>(e@),
        },
{
    let ghost sv = stids@.map_values(|s: &str| s@);
    let n = stids.len();
    let mut i: usize = 0;
    assert(sv.skip(0) == sv);
    while i < n
        invariant
            n == stids@.len(),
            sv == stids@.map_values(|s: &str| s@),
            i <= n,
            check_steps(f@, sv) == check_steps(f@, sv.skip(i as int)),
        decreases n - i,
    {
        let stid = stids[i];
        proof {
            assert(sv.skip(i as int)[0] == stid@);
            assert(sv.skip(i as int).skip(1) == sv.skip(i + 1));
        }
        check_step_of(f, stid)?;
        i = i + 1;
    }
    assert(sv.skip(n as int) == Seq::<Seq<char>>::empty());
    Ok(())
}


// ---------------------------------------------------------------------
// The flow.

/// An accepted flow document with its metadata.
#[derive(Debug)]
pub struct Flow {
    flow: Value,
    meta: JsonMap,
    null: Value,
}

/// The name of the action of entry `aid` of step `stid`: the key of its single entry.
pub open spec fn action_func(f: JVal, stid: Seq<char>, aid: Seq<char>) -> Seq<char> {
    index_key(step_of(f, stid), aid)->Obj_0[0].0
}

/// The arguments of entry `aid` of step `stid`: the value of its single entry.
pub open spec fn action_args(f: JVal, stid: Seq<char>, aid: Seq<char>) -> JVal {
    index_key(step_of(f, stid), aid)->Obj_0[0].1
}

impl Flow {
    #[verifier::type_invariant]
    closed spec fn inv(self) -> bool {
        &&& validate(self.flow@) is Ok
        &&& self.null@ == JVal::Null
    }

    /// The document.
    pub closed spec fn document(self) -> JVal {
        self.flow@
    }

    /// The metadata.
    pub closed spec fn meta_view(self) -> Seq<(Seq<char>, JVal)> {
        self.meta@
    }

    /// The ids of all steps of the flow, pre steps first, then the steps of
    /// each stage in stage order.
    pub open spec fn step_ids(self) -> Seq<Seq<char>> {
        validate(self.document())->Ok_0
    }

    /// Accepts `flow` when it passes every rule of `validate`, and refuses it
    /// with the error of the first rule it breaks. The metadata records `dir`
    /// as the task directory.
    pub fn new(flow: Value, dir: &str) -> (r: Result<Flow, Error>)
        ensures
            match r {
                Ok(fl) => {
                    &&& fl.document() == flow@
                    &&& fl.meta_view() == meta_of(dir@)
                    &&& validate(flow@) is Ok
                },
                Err(e) => validate(flow@) == Err::<Seq<Seq<char>>, FlowErr>(e@),
            },
    {
        let root_allowed = vec!["version", "def", "stage", "pre"];
        assert(root_allowed@.map_values(|o: &str| o@) == root_keys());
        check_section_of(&flow, owned("root"), &root_allowed)?;
        check_version_of(&flow)?;

        let mut seen: Vec<&str> = Vec::new();
        assert(seen@.map_values(|s: &str| s@) == Seq::<Seq<char>>::empty());
        match pre_ids_of(&flow) {
            Some(ids) => {
                if !id_valid(ids[0]) {
                    return Err(Error::IdInvalid(owned(ids[0])));
                }
                let pre_allowed = vec!["step"];
                assert(pre_allowed@.map_values(|o: &str| o@) == pre_keys());
                let null = Value::Null;
                let pre = match get_in(Some(&flow), "pre") {
                    Some(v) => v,
                    None => &null,
                };
                check_section_of(pre, owned("pre"), &pre_allowed)?;
                check_ids_of(&ids, &mut seen)?;
            },
            None => {},
        }

        let sids = match keys_in(get_in(Some(&flow), "stage")) {
            None => {
                return Err(Error::EntryLost(owned("root"), owned("stage")));
            },
            Some(s) => s,
        };
        if sids.len() == 0 {
            return Err(Error::EntryLost(owned("root"), owned("stage")));
        }
        check_stages_of(&flow, &sids, &mut seen)?;
        check_steps_of(&flow, &seen)?;

        let mut meta = JsonMap::new();
        meta.insert(owned("task_dir"), Value::String(owned(dir)));
        assert(meta@ == meta_of(dir@));
        Ok(Flow { flow, meta, null: Value::Null })
    }

    proof fn lemma_stage_facts(self, sid: Seq<char>)
        requires
            validate(self.flow@) is Ok,
            stage_ids(self.flow@) matches Some(sids) && sids.contains(sid),
        ensures
            check_stage_entries(self.flow@, sid) is Ok,
            stage_step_ids(self.flow@, sid) is Ok,
    {
        let f = self.flow@;
        let sids = stage_ids(f)->Some_0;
        let pre = check_pre(f)->Ok_0;
        lemma_check_stages(f, sids, pre);
        let i = choose|i: int| 0 <= i < sids.len() && sids[i] == sid;
        assert(check_stage_entries(f, sids[i]) is Ok);
    }

    proof fn lemma_stage_present(self, sid: Seq<char>)
        requires
            !(stage_of(self.flow@, sid) is Null),
        ensures
            stage_ids(self.flow@) matches Some(sids) && sids.contains(sid),
    {
        let st = index_key(self.flow@, "stage"@);
        lemma_lookup_key(st->Obj_0, sid);
    }

    proof fn lemma_stage_number(self, sid: Seq<char>, name: Seq<char>)
        requires
            validate(self.flow@) is Ok,
            name == "concurrency"@ || name == "round"@ || name == "duration"@,
        ensures
            u64_of(index_key(stage_of(self.flow@, sid), name)) matches Some(n) ==> n >= 1,
    {
        if u64_of(index_key(stage_of(self.flow@, sid), name)) is Some {
            self.lemma_stage_present(sid);
            self.lemma_stage_facts(sid);
        }
    }

    proof fn lemma_step_facts(self, stid: Seq<char>)
        requires
            validate(self.flow@) is Ok,
            self.step_ids().contains(stid),
        ensures
            check_step(self.flow@, stid) is Ok,
            step_of(self.flow@, stid) is Obj,
    {
        let f = self.flow@;
        let all = validate(f)->Ok_0;
        lemma_check_steps(f, all);
        let i = choose|i: int| 0 <= i < all.len() && all[i] == stid;
        assert(check_step(f, all[i]) is Ok);
    }

    proof fn lemma_action_facts(self, stid: Seq<char>, aid: Seq<char>)
        requires
            check_step(self.flow@, stid) is Ok,
            object_keys(step_of(self.flow@, stid)) matches Some(aids) && aids.contains(aid),
        ensures
            index_key(step_of(self.flow@, stid), aid) matches JVal::Obj(m) && m.len() == 1,
    {
        let f = self.flow@;
        let aids = object_keys(step_of(f, stid))->Some_0;
        lemma_check_actions(f, stid, aids);
        let i = choose|i: int| 0 <= i < aids.len() && aids[i] == aid;
        assert(check_action(f, stid, aids[i]) is Ok);
    }

    /// The version: always `0.0.1`.
    pub fn version(&self) -> (r: &str)
        ensures
            r@ == "0.0.1"@,
            string_of(index_key(self.document(), "version"@)) == Some(r@),
    {
        proof {
            use_type_invariant(self);
        }
        match get_in(Some(&self.flow), "version") {
            Some(v) => match v.as_str() {
                Some(s) => s,
                None => {
                    proof {
                        assert(false);
                    }
                    "0.0.1"
                },
            },
            None => {
                proof {
                    assert(false);
                }
                "0.0.1"
            },
        }
    }

    /// The `def` section, where it is an object.
    pub fn def(&self) -> (r: Option<&JsonMap>)
        ensures
            match r {
                Some(m) => index_key(self.document(), "def"@) == JVal::Obj(m@),
                None => !(index_key(self.document(), "def"@) is Obj),
            },
    {
        match get_in(Some(&self.flow), "def") {
            Some(v) => v.as_object(),
            None => None,
        }
    }

    /// The metadata.
    pub fn meta(&self) -> (r: &JsonMap)
        ensures
            r@ == self.meta_view(),
    {
        &self.meta
    }

    /// The step ids of stage `stage_id`, in order; never empty.
    pub fn stage_step_id_vec(&self, stage_id: &str) -> (r: Vec<&str>)
        requires
            stage_ids(self.document()) matches Some(sids) && sids.contains(stage_id@),
        ensures
            stage_step_ids(self.document(), stage_id@) == Ok::<Seq<Seq<char>>, FlowErr>(
                r@.map_values(|s: &str| s@),
            ),
            r@.len() > 0,
    {
        proof {
            use_type_invariant(self);
            self.lemma_stage_facts(stage_id@);
        }
        match stage_step_ids_of(&self.flow, stage_id) {
            Ok(ks) => ks,
            Err(_) => {
                proof {
                    assert(false);
                }
                Vec::new()
            },
        }
    }

    /// The pre step ids, where `pre.step` is a non-empty object.
    pub fn pre_step_id_vec(&self) -> (r: Option<Vec<&str>>)
        ensures
            match r {
                Some(ks) => pre_step_ids(self.document()) == Some(ks@.map_values(|s: &str| s@)),
                None => pre_step_ids(self.document()) is None,
            },
    {
        pre_ids_of(&self.flow)
    }

    /// The stage ids, in order; never empty.
    pub fn stage_id_vec(&self) -> (r: Vec<&str>)
        ensures
            stage_ids(self.document()) == Some(r@.map_values(|s: &str| s@)),
            r@.len() > 0,
    {
        proof {
            use_type_invariant(self);
        }
        match keys_in(get_in(Some(&self.flow), "stage")) {
            Some(ks) => ks,
            None => {
                proof {
                    assert(false);
                }
                Vec::new()
            },
        }
    }

    /// The `loader` entry of stage `stage_id`; `Null` where there is none.
    pub fn stage_loader(&self, stage_id: &str) -> (r: &Value)
        ensures
            r@ == index_key(stage_of(self.document(), stage_id@), "loader"@),
    {
        proof {
            use_type_invariant(self);
        }
        match get_in(stage_in(&self.flow, stage_id), "loader") {
            Some(v) => v,
            None => &self.null,
        }
    }

    /// The concurrency of stage `stage_id`: its `concurrency` entry where
    /// that is an unsigned integer, else 10.
    pub fn stage_concurrency(&self, stage_id: &str) -> (r: usize)
        ensures
            r == match u64_of(index_key(stage_of(self.document(), stage_id@), "concurrency"@)) {
                Some(n) => n as usize,
                None => 10usize,
            },
            u64_of(index_key(stage_of(self.document(), stage_id@), "concurrency"@)) matches Some(
                n,
            ) ==> n >= 1,
    {
        proof {
            use_type_invariant(self);
            self.lemma_stage_number(stage_id@, "concurrency"@);
        }
        match get_in(stage_in(&self.flow, stage_id), "concurrency") {
            Some(v) => match v.as_u64() {
                Some(n) => n as usize,
                None => 10,
            },
            None => 10,
        }
    }

    /// The number of rounds of stage `stage_id`: its `round` entry where that
    /// is an unsigned integer, else 1.
    pub fn stage_round(&self, stage_id: &str) -> (r: usize)
        ensures
            r == match u64_of(index_key(stage_of(self.document(), stage_id@), "round"@)) {
                Some(n) => n as usize,
                None => 1usize,
            },
            u64_of(index_key(stage_of(self.document(), stage_id@), "round"@)) matches Some(n)
                ==> n >= 1,
    {
        proof {
            use_type_invariant(self);
            self.lemma_stage_number(stage_id@, "round"@);
        }
        match get_in(stage_in(&self.flow, stage_id), "round") {
            Some(v) => match v.as_u64() {
                Some(n) => n as usize,
                None => 1,
            },
            None => 1,
        }
    }

    /// The duration of stage `stage_id` in seconds: its `duration` entry
    /// where that is an unsigned integer, else 600.
    pub fn stage_duration(&self, stage_id: &str) -> (r: u64)
        ensures
            r == match u64_of(index_key(stage_of(self.document(), stage_id@), "duration"@)) {
                Some(n) => n,
                None => 600u64,
            },
            r >= 1,
    {
        proof {
            use_type_invariant(self);
            self.lemma_stage_number(stage_id@, "duration"@);
        }
        match get_in(stage_in(&self.flow, stage_id), "duration") {
            Some(v) => match v.as_u64() {
                Some(n) => n,
                None => 600,
            },
            None => 600,
        }
    }

    /// When stage `stage_id` breaks the task: its `break_on` entry where that
    /// is a text, else `stage_fail`; always `never` or `stage_fail`.
    pub fn stage_break_on(&self, stage_id: &str) -> (r: &str)
        ensures
            r@ == match string_of(index_key(stage_of(self.document(), stage_id@), "break_on"@)) {
                Some(b) => b,
                None => "stage_fail"@,
            },
            r@ == "never"@ || r@ == "stage_fail"@,
    {
        proof {
            use_type_invariant(self);
            if string_of(index_key(stage_of(self.flow@, stage_id@), "break_on"@)) is Some {
                self.lemma_stage_present(stage_id@);
                self.lemma_stage_facts(stage_id@);
            }
        }
        match get_in(stage_in(&self.flow, stage_id), "break_on") {
            Some(v) => match v.as_str() {
                Some(b) => b,
                None => "stage_fail",
            },
            None => "stage_fail",
        }
    }

    /// The actions of step `step_id`.
    pub fn step_obj(&self, step_id: &str) -> (r: &JsonMap)
        requires
            self.step_ids().contains(step_id@),
        ensures
            step_of(self.document(), step_id@) == JVal::Obj(r@),
    {
        proof {
            use_type_invariant(self);
            self.lemma_step_facts(step_id@);
        }
        match step_value(&self.flow, step_id) {
            Some(v) => match v.as_object() {
                Some(m) => m,
                None => {
                    proof {
                        assert(false);
                    }
                    &self.meta
                },
            },
            None => {
                proof {
                    assert(false);
                }
                &self.meta
            },
        }
    }

    /// The single entry of action `action_id` of step `step_id`.
    fn action_entry(&self, step_id: &str, action_id: &str) -> (r: (&str, &Value))
        requires
            self.step_ids().contains(step_id@),
            object_keys(step_of(self.document(), step_id@)) matches Some(aids) && aids.contains(
                action_id@,
            ),
        ensures
            r.0@ == action_func(self.document(), step_id@, action_id@),
            r.1@ == action_args(self.document(), step_id@, action_id@),
    {
        proof {
            use_type_invariant(self);
            self.lemma_step_facts(step_id@);
            self.lemma_action_facts(step_id@, action_id@);
        }
        match get_in(step_value(&self.flow, step_id), action_id) {
            Some(v) => match v.as_object() {
                Some(m) => {
                    let (k, a) = m.entry(0);
                    (k.as_str(), a)
                },
                None => {
                    proof {
                        assert(false);
                    }
                    ("", &self.null)
                },
            },
            None => {
                proof {
                    assert(false);
                }
                ("", &self.null)
            },
        }
    }

    /// The name of the action of entry `action_id` of step `step_id`.
    pub fn step_action_func(&self, step_id: &str, action_id: &str) -> (r: &str)
        requires
            self.step_ids().contains(step_id@),
            object_keys(step_of(self.document(), step_id@)) matches Some(aids) && aids.contains(
                action_id@,
            ),
        ensures
            r@ == action_func(self.document(), step_id@, action_id@),
    {
        self.action_entry(step_id, action_id).0
    }

    /// The arguments of entry `action_id` of step `step_id`.
    pub fn step_action_args(&self, step_id: &str, action_id: &str) -> (r: &Value)
        requires
            self.step_ids().contains(step_id@),
            object_keys(step_of(self.document(), step_id@)) matches Some(aids) && aids.contains(
                action_id@,
            ),
        ensures
            r@ == action_args(self.document(), step_id@, action_id@),
    {
        self.action_entry(step_id, action_id).1
    }
}

/// What follows a step: a condition, values to register, and the step to
/// go to; each may be absent.
#[derive(Debug)]
pub struct Then {
    cond: Option<String>,
    reg: Option<JsonMap>,
    goto: Option<String>,
}

impl Then {
    pub fn new(cond: Option<String>, reg: Option<JsonMap>, goto: Option<String>) -> (r: Then)
        ensures
            r.cond_view() == cond,
            r.reg_view() == reg,
            r.goto_view() == goto,
    {
        Then { cond, reg, goto }
    }

    pub closed spec fn cond_view(&self) -> Option<String> {
        self.cond
    }

    pub closed spec fn reg_view(&self) -> Option<JsonMap> {
        self.reg
    }

    pub closed spec fn goto_view(&self) -> Option<String> {
        self.goto
    }

    pub fn cond(&self) -> (r: Option<&str>)
        ensures
            match self.cond_view() {
                Some(c) => r matches Some(x) && x@ == c@,
                None => r is None,
            },
    {
        match &self.cond {
            Some(c) => Some(c.as_str()),
            None => None,
        }
    }

    pub fn reg(&self) -> (r: Option<&JsonMap>)
        ensures
            match self.reg_view() {
                Some(m) => r matches Some(x) && *x == m,
                None => r is None,
            },
    {
        match &self.reg {
            Some(m) => Some(m),
            None => None,
        }
    }

    pub fn goto(&self) -> (r: Option<&str>)
        ensures
            match self.goto_view() {
                Some(g) => r matches Some(x) && x@ == g@,
                None => r is None,
            },
    {
        match &self.goto {
            Some(g) => Some(g.as_str()),
            None => None,
        }
    }
}

} // verus!
