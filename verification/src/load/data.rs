//! A store of case data: one CSV file per case name, read a page at a
//! time.
use vstd::prelude::*;

use crate::helper::fs::path_push;
use crate::load::{loaded, stage_file, table_view, Fields, PageLoader};
use crate::text::owned;
use crate::value::Value;

verus! {

/// The case data under a directory.
#[derive(Debug)]
pub struct Store {
    path: String,
}

impl Store {
    /// The directory of the data.
    pub closed spec fn path_view(&self) -> Seq<char> {
        self.path@
    }

    pub fn new(path: &str) -> (r: Store)
        ensures
            r.path_view() == path@,
    {
        Store { path: owned(path) }
    }

    /// The file of the cases named `name`: `<name>.csv` in the directory.
    pub fn create_path(&self, name: &str) -> (r: String)
        ensures
            r@ == path_push(self.path_view(), name@ + ".csv"@),
    {
        stage_file(self.path.as_str(), name)
    }

    /// A loader over the rows of that file.
    pub fn create(&self, rows: Vec<Result<Fields, String>>) -> (r: Loader)
        ensures
            r.loader().table() == table_view(rows@),
            r.loader().position() == 0,
            r.loader().row_number() == 1,
            !r.loader().repeats(),
    {
        Loader { loader: PageLoader::new(rows, false) }
    }
}

/// Loads the rows of a case file a page at a time.
pub struct Loader {
    loader: PageLoader,
}

impl Loader {
    /// The pages handed out so far and to come.
    pub closed spec fn loader(&self) -> PageLoader {
        self.loader
    }

    /// The next page of `size` rows; see `loaded`.
    pub fn load(&mut self, size: usize) -> (r: Result<Vec<(String, Value)>, String>)
        requires
            old(self).loader().table().len() + size + 2 <= usize::MAX,
        ensures
            loaded(old(self).loader(), final(self).loader(), size, r),
    {
        self.loader.load(size)
    }
}

} // verus!
