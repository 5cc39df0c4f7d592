//! Loading the rows of a task's cases from CSV files, without strategies.
use vstd::prelude::*;

use crate::helper::fs::path_push;
use crate::load::{loaded, push_all, split_dots, stage_file, task_path, table_view, Fields, PageLoader};
use crate::text::owned;
use crate::value::Value;

verus! {

/// Loads the tasks of a job from CSV files under a path.
#[derive(Debug)]
pub struct CsvJobLoader {
    path: String,
}

impl CsvJobLoader {
    /// The path the job's tasks lie under.
    pub closed spec fn path_view(&self) -> Seq<char> {
        self.path@
    }

    /// A loader of the tasks under `path`; the configuration is not read.
    pub fn new(conf: Option<&Value>, path: &str) -> (r: CsvJobLoader)
        ensures
            r.path_view() == path@,
    {
        CsvJobLoader { path: owned(path) }
    }

    /// The directory of the task named `task`: the job's path with each
    /// part of the name between dots pushed onto it.
    pub fn task_path(&self, task: &str) -> (r: String)
        ensures
            r@ == push_all(self.path_view(), split_dots(task@)),
    {
        task_path(self.path.as_str(), task)
    }

    /// The file of the cases named `case_name` of a task's directory.
    pub fn case_path(&self, task_dir: &str, case_name: &str) -> (r: String)
        ensures
            r@ == path_push(task_dir@, case_name@ + ".csv"@),
    {
        stage_file(task_dir, case_name)
    }
}

/// Loads the rows of a stage a page at a time, never filling a page up.
pub struct CsvStageLoader {
    loader: PageLoader,
}

impl CsvStageLoader {
    /// The pages handed out so far and to come.
    pub closed spec fn loader(&self) -> PageLoader {
        self.loader
    }

    pub fn new(rows: Vec<Result<Fields, String>>) -> (r: CsvStageLoader)
        ensures
            r.loader().table() == table_view(rows@),
            r.loader().position() == 0,
            r.loader().row_number() == 1,
            !r.loader().repeats(),
    {
        CsvStageLoader { loader: PageLoader::new(rows, false) }
    }

    /// The next page of `size` rows; see `loaded`.
    pub fn load(&mut self, size: usize) -> (r: Result<Vec<(String, Value)>, String>)
        requires
            old(self).loader().table().len() + size + 2 <= usize::MAX,
        ensures
            loaded(old(self).loader(), final(self).loader(), size, r),
    {
        self.loader.load(size)
    }
}

} // verus!
