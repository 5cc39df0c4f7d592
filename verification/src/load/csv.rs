//! Loading the rows of a task's stages from CSV files: a task's directory
//! lies under the job's path, a stage's rows in a file named after it, and
//! the stage's loading strategy says whether a last page that is not full
//! is filled up.
use vstd::prelude::*;

use crate::flow::{stage_of, Flow};
use crate::helper::fs::path_push;
use crate::load::{push_all, split_dots, stage_file, task_path, Fields, PageLoader};
use crate::text::owned;
use crate::value::{get_in, index_key, index_path, str_eq, JVal, Value};

verus! {

/// The strategy used where none is given.
pub open spec fn default_strategy() -> Seq<char> {
    "actual"@
}

/// The strategy that fills up a last page that is not full.
pub open spec fn repeat_strategy() -> Seq<char> {
    "fix_size_repeat_last_page"@
}

/// The strategy that a job's configuration gives: its `csv.strategy`
/// entry where that is a text, else the default.
pub open spec fn job_strategy(conf: Option<JVal>) -> Seq<char> {
    match conf {
        Some(c) => match index_path(c, seq!["csv"@, "strategy"@]) {
            JVal::Str(s) => s,
            _ => default_strategy(),
        },
        None => default_strategy(),
    }
}

/// Loads the tasks of a job from CSV files under a path.
#[derive(Debug)]
pub struct CsvJobLoader {
    path: String,
    strategy: String,
}

impl CsvJobLoader {
    /// The path the job's tasks lie under.
    pub closed spec fn path_view(&self) -> Seq<char> {
        self.path@
    }

    /// The strategy of the job's stages where a stage gives none.
    pub closed spec fn strategy_view(&self) -> Seq<char> {
        self.strategy@
    }

    pub fn new(conf: Option<&Value>, path: &str) -> (r: CsvJobLoader)
        ensures
            r.path_view() == path@,
            r.strategy_view() == job_strategy(
                match conf {
                    Some(c) => Some(c@),
                    None => None,
                },
            ),
    {
        proof {
            reveal_strlit("actual");
            reveal_strlit("csv");
            reveal_strlit("strategy");
            assert(seq!["csv"@, "strategy"@].skip(1) == seq!["strategy"@]);
            assert(seq!["strategy"@].skip(1).len() == 0);
            reveal_with_fuel(index_path, 3);
        }
        let ls = match conf {
            Some(c) => match get_in(c.get("csv"), "strategy") {
                Some(Value::String(s)) => owned(s.as_str()),
                _ => owned("actual"),
            },
            None => owned("actual"),
        };
        CsvJobLoader { path: owned(path), strategy: ls }
    }

    /// The loader of the task named `task`: its directory is the job's path
    /// with each part of the name between dots pushed onto it.
    pub fn task(&self, task: &str) -> (r: CsvTaskLoader)
        ensures
            r.path_view() == push_all(self.path_view(), split_dots(task@)),
            r.strategy_view() == self.strategy_view(),
    {
        CsvTaskLoader { path: task_path(self.path.as_str(), task), strategy: self.strategy.clone() }
    }
}

/// Loads the stages of a task from the CSV files of its directory.
#[derive(Debug)]
pub struct CsvTaskLoader {
    path: String,
    strategy: String,
}

/// The strategy of a stage: its loader's `strategy` entry where that is a
/// text, else the task's.
pub open spec fn stage_strategy(flow: JVal, stage: Seq<char>, task_strategy: Seq<char>) -> Seq<char> {
    match index_key(index_key(stage_of(flow, stage), "loader"@), "strategy"@) {
        JVal::Str(s) => s,
        _ => task_strategy,
    }
}

/// A stage that names a loader strategy as a text uses that strategy,
/// whatever the default of its task; a stage that names none uses the
/// default of its task.
pub proof fn law_stage_strategy(flow: JVal, stage: Seq<char>, task_strategy: Seq<char>, other: Seq<char>)
    ensures
        ({
            let named = index_key(
                index_key(index_key(index_key(flow, "stage"@), stage), "loader"@),
                "strategy"@,
            );
            &&& named matches JVal::Str(s) ==> stage_strategy(flow, stage, task_strategy) == s
                && stage_strategy(flow, stage, other) == s
            &&& !(named is Str) ==> stage_strategy(flow, stage, task_strategy) == task_strategy
        }),
{
}

impl CsvTaskLoader {
    /// The task's directory.
    pub closed spec fn path_view(&self) -> Seq<char> {
        self.path@
    }

    /// The strategy of the task's stages where a stage gives none.
    pub closed spec fn strategy_view(&self) -> Seq<char> {
        self.strategy@
    }

    /// The file of stage `stage_id`: `<stage_id>.csv` in the task's
    /// directory.
    pub fn stage_path(&self, stage_id: &str) -> (r: String)
        ensures
            r@ == path_push(self.path_view(), stage_id@ + ".csv"@),
    {
        stage_file(self.path.as_str(), stage_id)
    }

    /// The strategy of stage `stage_id` of `flow`.
    pub fn stage_strategy(&self, flow: &Flow, stage_id: &str) -> (r: String)
        ensures
            r@ == stage_strategy(flow.document(), stage_id@, self.strategy_view()),
    {
        proof {
            reveal_strlit("strategy");
        }
        match flow.stage_loader(stage_id).get("strategy") {
            Some(Value::String(s)) => s.clone(),
            _ => self.strategy.clone(),
        }
    }

    /// The loader of stage `stage_id` of `flow` over the rows of its file.
    pub fn stage(&self, flow: &Flow, stage_id: &str, rows: Vec<Result<Fields, String>>) -> (r: CsvStageLoader)
        ensures
            r.loader().table() == crate::load::table_view(rows@),
            r.loader().position() == 0,
            r.loader().row_number() == 1,
            r.loader().repeats() == (stage_strategy(flow.document(), stage_id@, self.strategy_view())
                == repeat_strategy()),
    {
        let strategy = self.stage_strategy(flow, stage_id);
        CsvStageLoader::new(rows, strategy)
    }
}

/// Loads the rows of a stage a page at a time.
pub struct CsvStageLoader {
    loader: PageLoader,
}

impl CsvStageLoader {
    /// The pages handed out so far and to come.
    pub closed spec fn loader(&self) -> PageLoader {
        self.loader
    }

    /// A loader over `rows` whose last page is filled up where the strategy
    /// is `fix_size_repeat_last_page`.
    pub fn new(rows: Vec<Result<Fields, String>>, strategy: String) -> (r: CsvStageLoader)
        ensures
            r.loader().table() == crate::load::table_view(rows@),
            r.loader().position() == 0,
            r.loader().row_number() == 1,
            r.loader().repeats() == (strategy@ == repeat_strategy()),
    {
        proof {
            reveal_strlit("fix_size_repeat_last_page");
        }
        let repeat = str_eq(strategy.as_str(), "fix_size_repeat_last_page");
        CsvStageLoader { loader: PageLoader::new(rows, repeat) }
    }

    /// The next page of `size` rows; see `PageLoader::load`.
    pub fn load(&mut self, size: usize) -> (r: Result<Vec<(String, Value)>, String>)
        requires
            old(self).loader().table().len() + size + 2 <= usize::MAX,
        ensures
            crate::load::loaded(old(self).loader(), final(self).loader(), size, r),
    {
        self.loader.load(size)
    }
}

} // verus!
