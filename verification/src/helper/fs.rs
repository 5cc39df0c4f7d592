//! The file helpers: `fs_read` and `fs_path`. A file is named relative to
//! the task's directory, which the render context holds under
//! `__meta__.task_dir`; what is on disk is asked of the caller's function.
use vstd::prelude::*;

use crate::helper::{invalid, invalid_message, not_found, not_found_message, outcome};
use crate::text::{concat, concat3, owned};
use crate::value::{index_path, JVal, Value};

verus! {

/// The path that pushing `p` onto `base` gives: `p` where it is absolute
/// or `base` is empty, else the two joined by one separator.
pub open spec fn path_push(base: Seq<char>, p: Seq<char>) -> Seq<char> {
    if p.len() > 0 && p[0] == '/' {
        p
    } else if base.len() == 0 {
        p
    } else if base.last() == '/' {
        base + p
    } else {
        base + "/"@ + p
    }
}

/// Pushes `p` onto `base`, as `PathBuf::push` does.
pub fn push_path(base: &str, p: &str) -> (r: String)
    ensures
        r@ == path_push(base@, p@),
{
    proof {
        reveal_strlit("/");
    }
    let pv = crate::text::chars_of(p);
    let bv = crate::text::chars_of(base);
    if pv.len() > 0 && pv[0] == '/' {
        owned(p)
    } else if bv.len() == 0 {
        owned(p)
    } else if bv[bv.len() - 1] == '/' {
        concat(base, p)
    } else {
        concat3(base, "/", p)
    }
}

/// The task's directory in a render context, where it is a text.
pub open spec fn task_dir(ctx: JVal) -> JVal {
    index_path(ctx, seq!["__meta__"@, "task_dir"@])
}

/// The file that a file helper named `name` is asked for: the first
/// parameter, a text, relative to the task's directory.
pub open spec fn target(name: Seq<char>, ps: Seq<JVal>, ctx: JVal) -> Result<Seq<char>, Seq<char>> {
    if ps.len() == 0 {
        Err(not_found(name))
    } else {
        match ps[0] {
            JVal::Str(x) => match task_dir(ctx) {
                JVal::Str(d) => Ok(path_push(d, x)),
                _ => Err(invalid(name)),
            },
            _ => Err(invalid(name)),
        }
    }
}

/// The file asked for; see `target`.
fn target_of(name: &str, params: &Vec<Value>, ctx: &Value) -> (r: Result<String, String>)
    ensures
        match r {
            Ok(p) => target(name@, crate::value::view_values(params@), ctx@) == Ok::<Seq<char>, Seq<char>>(p@),
            Err(e) => target(name@, crate::value::view_values(params@), ctx@) == Err::<Seq<char>, Seq<char>>(e@),
        },
{
    proof {
        crate::value::lemma_view_values(params@);
        reveal_strlit("__meta__");
        reveal_strlit("task_dir");
        assert(seq!["__meta__"@, "task_dir"@].skip(1) == seq!["task_dir"@]);
        assert(seq!["task_dir"@].skip(1).len() == 0);
        reveal_with_fuel(index_path, 3);
    }
    if params.len() == 0 {
        return Err(not_found_message(name));
    }
    match &params[0] {
        Value::String(x) => {
            let d = crate::value::get_in(ctx.get("__meta__"), "task_dir");
            match d {
                Some(Value::String(dir)) => Ok(push_path(dir.as_str(), x.as_str())),
                _ => Err(invalid_message(name)),
            }
        },
        _ => Err(invalid_message(name)),
    }
}

/// Why a file could not be read: its path did not resolve, or reading it
/// failed with a message.
#[derive(Debug)]
pub enum ReadError {
    Resolve,
    Read(String),
}

/// What `fs_read` gives for its parameters `ps` in render context `ctx`,
/// with `read` reading a file: the result `r` is one that they allow.
pub open spec fn read_outcome<R: Fn(&String) -> Result<String, ReadError>>(
    ps: Seq<Value>,
    ctx: JVal,
    read: R,
    r: Result<Value, String>,
) -> bool {
    match target("fs_read"@, crate::value::view_values(ps), ctx) {
        Err(e) => outcome(r) == Err::<JVal, Seq<char>>(e),
        Ok(p) => exists|f: String, o: Result<String, ReadError>|
            f@ == p && #[trigger] read.ensures((&f,), o) && match o {
                Ok(c) => outcome(r) == Ok::<JVal, Seq<char>>(JVal::Str(c@)),
                Err(ReadError::Resolve) => outcome(r) == Err::<JVal, Seq<char>>(invalid("fs_read"@)),
                Err(ReadError::Read(e)) => outcome(r) == Err::<JVal, Seq<char>>(
                    "Failed for helper \"fs_read\", cause "@ + e@,
                ),
            },
    }
}

/// What `fs_path` gives for its parameters `ps` in render context `ctx`,
/// with `resolve` giving the canonical text of a path (`Err` where it does
/// not resolve, `None` where the result is not a text): the result `r` is
/// one that they allow.
pub open spec fn path_outcome<C: Fn(&String) -> Result<Option<String>, ()>>(
    ps: Seq<Value>,
    ctx: JVal,
    resolve: C,
    r: Result<Value, String>,
) -> bool {
    match target("fs_path"@, crate::value::view_values(ps), ctx) {
        Err(e) => outcome(r) == Err::<JVal, Seq<char>>(e),
        Ok(p) => exists|f: String, o: Result<Option<String>, ()>|
            f@ == p && #[trigger] resolve.ensures((&f,), o) && match o {
                Ok(Some(c)) => outcome(r) == Ok::<JVal, Seq<char>>(JVal::Str(c@)),
                Ok(None) => outcome(r) == Err::<JVal, Seq<char>>("Failed for helper \"fs_path\""@),
                Err(_) => outcome(r) == Err::<JVal, Seq<char>>(invalid("fs_path"@)),
            },
    }
}

/// The `fs_read` helper.
#[derive(Debug, Clone, Copy)]
pub struct ReadHelper;

impl ReadHelper {
    pub fn call<R: Fn(&String) -> Result<String, ReadError>>(&self, params: &Vec<Value>, ctx: &Value, read: &R) -> (r:
        Result<Value, String>)
        requires
            forall|f: &String| read.requires((f,)),
        ensures
            read_outcome(params@, ctx@, *read, r),
    {
        proof {
            reveal_strlit("fs_read");
        }
        let f = match target_of("fs_read", params, ctx) {
            Ok(f) => f,
            Err(e) => {
                return Err(e);
            },
        };
        let o = read(&f);
        let ghost og = o;
        let ghost fg = f;
        let res: Result<Value, String> = match o {
            Ok(c) => Ok(Value::String(c)),
            Err(ReadError::Resolve) => Err(invalid_message("fs_read")),
            Err(ReadError::Read(e)) => Err(concat("Failed for helper \"fs_read\", cause ", e.as_str())),
        };
        assert(read.ensures((&fg,), og));
        res
    }
}

/// The `fs_path` helper.
#[derive(Debug, Clone, Copy)]
pub struct PathHelper;

impl PathHelper {
    pub fn call<C: Fn(&String) -> Result<Option<String>, ()>>(&self, params: &Vec<Value>, ctx: &Value, resolve: &C) -> (r:
        Result<Value, String>)
        requires
            forall|f: &String| resolve.requires((f,)),
        ensures
            path_outcome(params@, ctx@, *resolve, r),
    {
        proof {
            reveal_strlit("fs_path");
        }
        let f = match target_of("fs_path", params, ctx) {
            Ok(f) => f,
            Err(e) => {
                return Err(e);
            },
        };
        let o = resolve(&f);
        let ghost og = o;
        let ghost fg = f;
        let res: Result<Value, String> = match o {
            Ok(Some(c)) => Ok(Value::String(c)),
            Ok(None) => Err(owned("Failed for helper \"fs_path\"")),
            Err(_) => Err(invalid_message("fs_path")),
        };
        assert(resolve.ensures((&fg,), og));
        res
    }
}

} // verus!
