//! The command's configuration: where logs and reports go, and at which
//! levels targets log.
use vstd::prelude::*;

use crate::helper::fs::{path_push, push_path};
use crate::text::owned;
use crate::value::{get_in, index_path, JVal, JsonMap, Value};

verus! {

/// The home of the command's files: `.chord` under the user's home
/// directory, or `/data/chord` where there is none.
pub open spec fn home_of(user_home: Option<Seq<char>>) -> Seq<char> {
    match user_home {
        Some(h) => path_push(h, ".chord"@),
        None => path_push(path_push("/"@, "data"@), "chord"@),
    }
}

/// The log levels a configuration gives: the entries of its `log.level`
/// object whose values are texts, in order; where there is no such object,
/// `root` at `warn` and `chord` at `trace`.
pub open spec fn levels_of(conf: JVal) -> Seq<(Seq<char>, Seq<char>)> {
    match index_path(conf, seq!["log"@, "level"@]) {
        JVal::Obj(m) => text_entries(m),
        _ => seq![("root"@, "warn"@), ("chord"@, "trace"@)],
    }
}

/// The entries of an object whose values are texts, in order.
pub open spec fn text_entries(m: Seq<(Seq<char>, JVal)>) -> Seq<(Seq<char>, Seq<char>)>
    decreases m.len(),
{
    if m.len() == 0 {
        Seq::empty()
    } else {
        let rest = text_entries(m.drop_last());
        match m.last().1 {
            JVal::Str(s) => rest.push((m.last().0, s)),
            _ => rest,
        }
    }
}

/// The configuration of the command.
#[derive(Debug)]
pub struct Config {
    conf: Value,
    home_dir: String,
    log_dir: String,
    report_default: Value,
}

impl Config {
    /// The configuration as given.
    pub closed spec fn conf_view(&self) -> JVal {
        self.conf@
    }

    /// The home of the command's files.
    pub closed spec fn home_view(&self) -> Seq<char> {
        self.home_dir@
    }

    /// The directory of the logs.
    pub closed spec fn log_dir_view(&self) -> Seq<char> {
        self.log_dir@
    }

    /// The report configuration used where none is given.
    pub closed spec fn report_default_view(&self) -> JVal {
        self.report_default@
    }

    /// The configuration `conf` of a user whose home directory is
    /// `user_home`. The logs go to the `log.dir` entry where that is a
    /// text, else to `output` under the home of the command's files; the
    /// default report writes CSV files to that same `output` directory.
    pub fn new(conf: Value, user_home: Option<String>) -> (r: Config)
        ensures
            r.conf_view() == conf@,
            r.home_view() == home_of(
                match user_home {
                    Some(h) => Some(h@),
                    None => None,
                },
            ),
            r.log_dir_view() == match index_path(conf@, seq!["log"@, "dir"@]) {
                JVal::Str(d) => d,
                _ => path_push(r.home_view(), "output"@),
            },
            r.report_default_view() == JVal::Obj(
                seq![("csv"@, JVal::Obj(seq![("dir"@, JVal::Str(path_push(r.home_view(), "output"@)))]))],
            ),
    {
        proof {
            reveal_strlit(".chord");
            reveal_strlit("/");
            reveal_strlit("data");
            reveal_strlit("chord");
            reveal_strlit("output");
            reveal_strlit("log");
            reveal_strlit("dir");
            reveal_strlit("csv");
            assert(seq!["log"@, "dir"@].skip(1) == seq!["dir"@]);
            assert(seq!["dir"@].skip(1).len() == 0);
            reveal_with_fuel(index_path, 3);
        }
        let home_dir = match user_home {
            Some(h) => push_path(h.as_str(), ".chord"),
            None => {
                let d = push_path("/", "data");
                push_path(d.as_str(), "chord")
            },
        };
        let output = push_path(home_dir.as_str(), "output");
        let mut inner = JsonMap::new();
        inner.insert(owned("dir"), Value::String(output.clone()));
        let mut outer = JsonMap::new();
        proof {
            assert(outer@.len() == 0);
        }
        outer.insert(owned("csv"), Value::Object(inner));
        let report_default = Value::Object(outer);
        let log_dir = match get_in(conf.get("log"), "dir") {
            Some(Value::String(p)) => p.clone(),
            _ => output,
        };
        Config { conf, home_dir, log_dir, report_default }
    }

    /// The directory of the logs.
    pub fn log_dir(&self) -> (r: &str)
        ensures
            r@ == self.log_dir_view(),
    {
        self.log_dir.as_str()
    }

    /// The level at which each target logs; see `levels_of`.
    pub fn log_level(&self) -> (r: Vec<(String, String)>)
        ensures
            r@.map_values(|e: (String, String)| (e.0@, e.1@)) == levels_of(self.conf_view()),
    {
        proof {
            reveal_strlit("log");
            reveal_strlit("level");
            reveal_strlit("root");
            reveal_strlit("warn");
            reveal_strlit("chord");
            reveal_strlit("trace");
            assert(seq!["log"@, "level"@].skip(1) == seq!["level"@]);
            assert(seq!["level"@].skip(1).len() == 0);
            reveal_with_fuel(index_path, 3);
        }
        match get_in(self.conf.get("log"), "level") {
            Some(Value::Object(m)) => {
                let n = m.entries.len();
                let mut out: Vec<(String, String)> = Vec::new();
                for i in 0..n
                    invariant
                        n == m.entries@.len(),
                        out@.map_values(|e: (String, String)| (e.0@, e.1@)) == text_entries(
                            crate::value::view_entries(m.entries@.take(i as int)),
                        ),
                {
                    let ghost before = out@;
                    proof {
                        crate::value::lemma_view_entries(m.entries@.take(i + 1));
                        crate::value::lemma_view_entries(m.entries@.take(i as int));
                        let tv = crate::value::view_entries(m.entries@.take(i + 1));
                        assert(tv.drop_last() =~= crate::value::view_entries(m.entries@.take(i as int)));
                    }
                    if let Value::String(s) = &m.entries[i].1 {
                        out.push((m.entries[i].0.clone(), s.clone()));
                        proof {
                            assert(out@.map_values(|e: (String, String)| (e.0@, e.1@)) =~= before.map_values(
                                |e: (String, String)| (e.0@, e.1@),
                            ).push((m.entries@[i as int].0@, s@)));
                        }
                    }
                }
                proof {
                    assert(m.entries@.take(n as int) == m.entries@);
                }
                out
            },
            _ => {
                let mut out: Vec<(String, String)> = Vec::new();
                out.push((owned("root"), owned("warn")));
                out.push((owned("chord"), owned("trace")));
                proof {
                    assert(out@.map_values(|e: (String, String)| (e.0@, e.1@)) =~= seq![
                        ("root"@, "warn"@),
                        ("chord"@, "trace"@),
                    ]);
                }
                out
            },
        }
    }

    /// The `action` entry of the configuration, where it is an object
    /// holding one.
    pub fn action(&self) -> (r: Option<&Value>)
        ensures
            match r {
                Some(v) => self.conf_view() is Obj && crate::value::lookup(self.conf_view()->Obj_0, "action"@)
                    == Some(v@),
                None => !(self.conf_view() is Obj) || crate::value::lookup(self.conf_view()->Obj_0, "action"@)
                    is None,
            },
    {
        proof {
            reveal_strlit("action");
        }
        self.conf.get("action")
    }

    /// The `report` entry of the configuration, where it is an object
    /// holding one; else the default report.
    pub fn report(&self) -> (r: Option<&Value>)
        ensures
            r is Some,
            r->Some_0@ == if self.conf_view() is Obj && crate::value::lookup(self.conf_view()->Obj_0, "report"@)
                is Some {
                crate::value::lookup(self.conf_view()->Obj_0, "report"@)->Some_0
            } else {
                self.report_default_view()
            },
    {
        proof {
            reveal_strlit("report");
        }
        match self.conf.get("report") {
            Some(v) => Some(v),
            None => Some(&self.report_default),
        }
    }
}

} // verus!
