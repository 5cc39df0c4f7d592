//! Loading the data of a task: the paths of its files, and the rows of a
//! CSV table handed out a page at a time, each numbered after the ones
//! before it.
use vstd::prelude::*;

use ::csv::ReaderBuilder;
use serde_json::Value as Json;

use crate::helper::fs::{path_push, push_path};
use crate::text::{decimal, owned, u64_to_string};
use crate::helper::{number_from_parts, number_of_parts};
use crate::value::{lemma_view_entries, number_text_of, view_entries, JVal, JsonMap, Value};

pub mod case_csv;
pub mod csv;
pub mod data;
pub mod file;
pub mod flow;

verus! {

/// The fields of a row of a table: each column's header and text.
pub type Fields = Vec<(String, String)>;

/// The mathematical form of the fields of a row.
pub open spec fn fields_view(f: Seq<(String, String)>) -> Seq<(Seq<char>, Seq<char>)> {
    f.map_values(|e: (String, String)| (e.0@, e.1@))
}

/// The rows of a table as read, each its fields or the message of the
/// error that reading it gave.
pub open spec fn table_view(t: Seq<Result<Fields, String>>) -> Seq<Result<Seq<(Seq<char>, Seq<char>)>, Seq<char>>> {
    t.map_values(
        |e: Result<Fields, String>|
            match e {
                Ok(f) => Ok(fields_view(f@)),
                Err(m) => Err(m@),
            },
    )
}

/// A field of a CSV row as csv's type inference reads it into a
/// `serde_json::Value`.
#[derive(Debug)]
pub enum CsvField {
    /// A text.
    Text(String),
    /// `true` or `false`.
    Bool(bool),
    /// A number: its `as_u64`, its `as_i64` and its JSON text.
    Number(Option<u64>, Option<i64>, String),
    /// A float that JSON cannot hold (not a number, or infinite).
    Null,
    /// An array or an object, as its JSON text.
    Nested(String),
}

/// The mathematical form of a field.
pub enum FieldV {
    Text(Seq<char>),
    Bool(bool),
    Number(Option<u64>, Option<i64>, Seq<char>),
    Null,
    Nested(Seq<char>),
}

impl View for CsvField {
    type V = FieldV;

    open spec fn view(&self) -> FieldV {
        match self {
            CsvField::Text(s) => FieldV::Text(s@),
            CsvField::Bool(b) => FieldV::Bool(*b),
            CsvField::Number(u, i, t) => FieldV::Number(*u, *i, t@),
            CsvField::Null => FieldV::Null,
            CsvField::Nested(t) => FieldV::Nested(t@),
        }
    }
}

/// The mathematical form of the fields of a row as read.
pub open spec fn raw_fields_view(f: Seq<(String, CsvField)>) -> Seq<(Seq<char>, FieldV)> {
    f.map_values(|e: (String, CsvField)| (e.0@, e.1@))
}

/// The rows of a table as read, each its fields or the message of the
/// error that reading it gave.
pub open spec fn raw_table_view(t: Seq<Result<Vec<(String, CsvField)>, String>>) -> Seq<Result<Seq<(Seq<char>, FieldV)>, Seq<char>>> {
    t.map_values(
        |e: Result<Vec<(String, CsvField)>, String>|
            match e {
                Ok(f) => Ok(raw_fields_view(f@)),
                Err(m) => Err(m@),
            },
    )
}

/// What `csv::Reader::deserialize` into a `serde_json::Map` gives for each
/// row of `data` after the header row: its entries, each value as csv's
/// type inference read it, or the message of the error of that row.
pub uninterp spec fn csv_value_table(data: Seq<u8>) -> Seq<Result<Seq<(Seq<char>, FieldV)>, Seq<char>>>;

/// Reads every row of the CSV table `data` with `csv::ReaderBuilder` and
/// `deserialize` into a `serde_json::Map`, handing back each value as the
/// `CsvField` of its variant. What it gives is named by `csv_value_table`;
/// nothing more is claimed of it.
#[verifier::external_body]
pub(crate) fn read_value_table(data: &[u8]) -> (r: Vec<Result<Vec<(String, CsvField)>, String>>)
    ensures
        raw_table_view(r@) == csv_value_table(data@),
{
    let mut rows: Vec<Result<Vec<(String, CsvField)>, String>> = Vec::new();
    for row in ReaderBuilder::new().from_reader(data).deserialize::<serde_json::Map<String, Json>>() {
        rows.push(match row {
            Ok(m) => Ok(m.into_iter().map(|(k, v)| (k, match v {
                Json::String(s) => CsvField::Text(s),
                Json::Bool(b) => CsvField::Bool(b),
                Json::Number(n) => CsvField::Number(n.as_u64(), n.as_i64(), n.to_string()),
                Json::Null => CsvField::Null,
                nested => CsvField::Nested(nested.to_string()),
            })).collect()),
            Err(e) => Err(e.to_string()),
        });
    }
    rows
}

/// The text a data field stands for: a text as itself; any other value as
/// its JSON text (`true` or `false`, the number's decimal or the text a
/// float keeps, `null`, or the nested value's JSON).
pub open spec fn field_text(f: FieldV) -> Seq<char> {
    match f {
        FieldV::Text(s) => s,
        FieldV::Bool(b) => if b { "true"@ } else { "false"@ },
        FieldV::Number(u, i, t) => number_text_of(number_of_parts((u, i, t))),
        FieldV::Null => "null"@,
        FieldV::Nested(t) => t,
    }
}

/// The text a data field stands for; see `field_text`.
pub fn field_text_of(f: &CsvField) -> (r: String)
    ensures
        r@ == field_text(f@),
{
    match f {
        CsvField::Text(s) => s.clone(),
        CsvField::Bool(b) => if *b { owned("true") } else { owned("false") },
        CsvField::Number(u, i, t) => number_from_parts(*u, *i, t.clone()).to_text(),
        CsvField::Null => owned("null"),
        CsvField::Nested(t) => t.clone(),
    }
}

/// The texts of the fields of a row as read.
pub open spec fn texts_of_fields(f: Seq<(Seq<char>, FieldV)>) -> Seq<(Seq<char>, Seq<char>)> {
    f.map_values(|e: (Seq<char>, FieldV)| (e.0, field_text(e.1)))
}

/// The rows of a table as read, each field written as its text.
pub open spec fn text_table(t: Seq<Result<Seq<(Seq<char>, FieldV)>, Seq<char>>>) -> Seq<Result<Seq<(Seq<char>, Seq<char>)>, Seq<char>>> {
    t.map_values(
        |e: Result<Seq<(Seq<char>, FieldV)>, Seq<char>>|
            match e {
                Ok(f) => Ok(texts_of_fields(f)),
                Err(m) => Err(m),
            },
    )
}

/// The fields of a row as read, each written as its text.
pub fn row_texts(row: &Vec<(String, CsvField)>) -> (r: Fields)
    ensures
        fields_view(r@) == texts_of_fields(raw_fields_view(row@)),
{
    let n = row.len();
    let mut out: Fields = Vec::new();
    for i in 0..n
        invariant
            n == row@.len(),
            out@.len() == i,
            forall|j: int| 0 <= j < i ==> (#[trigger] out@[j]).0@ == row@[j].0@ && out@[j].1@ == field_text(row@[j].1@),
    {
        let t = field_text_of(&row[i].1);
        out.push((row[i].0.clone(), t));
    }
    assert(fields_view(out@) =~= texts_of_fields(raw_fields_view(row@)));
    out
}

/// The rows of the CSV table `data`, as read, each field written as its
/// text: every data field is a text.
pub fn read_rows(data: &[u8]) -> (r: Vec<Result<Fields, String>>)
    ensures
        table_view(r@) == text_table(csv_value_table(data@)),
{
    let raw = read_value_table(data);
    let n = raw.len();
    let mut out: Vec<Result<Fields, String>> = Vec::new();
    for i in 0..n
        invariant
            n == raw@.len(),
            out@.len() == i,
            table_view(out@) =~= text_table(raw_table_view(raw@)).take(i as int),
    {
        let row = match &raw[i] {
            Ok(f) => Ok(row_texts(f)),
            Err(m) => Err(m.clone()),
        };
        let ghost before = out@;
        out.push(row);
        assert(table_view(out@) =~= table_view(before).push(table_view(out@)[i as int]));
        assert(table_view(out@)[i as int] == text_table(raw_table_view(raw@))[i as int]);
        assert(text_table(raw_table_view(raw@)).take(i + 1) =~= text_table(raw_table_view(raw@)).take(
            i as int,
        ).push(text_table(raw_table_view(raw@))[i as int]));
    }
    assert(text_table(raw_table_view(raw@)).take(n as int) =~= text_table(raw_table_view(raw@)));
    assert(table_view(out@) =~= text_table(raw_table_view(raw@)));
    out
}

/// The value of a row: an object of its fields, each a text.
pub open spec fn row_value(f: Seq<(Seq<char>, Seq<char>)>) -> JVal {
    JVal::Obj(f.map_values(|e: (Seq<char>, Seq<char>)| (e.0, JVal::Str(e.1))))
}

/// The value of a row.
pub fn row_value_of(f: &Fields) -> (v: Value)
    ensures
        v@ == row_value(fields_view(f@)),
{
    let n = f.len();
    let mut out: Vec<(String, Value)> = Vec::new();
    for i in 0..n
        invariant
            n == f@.len(),
            out@.len() == i,
            forall|j: int| 0 <= j < i ==> (#[trigger] out@[j]).0@ == f@[j].0@ && out@[j].1@ == JVal::Str(f@[j].1@),
    {
        out.push((f[i].0.clone(), Value::String(f[i].1.clone())));
    }
    proof {
        lemma_view_entries(out@);
        assert(view_entries(out@) =~= fields_view(f@).map_values(
            |e: (Seq<char>, Seq<char>)| (e.0, JVal::Str(e.1)),
        ));
    }
    Value::Object(JsonMap { entries: out })
}

/// The first row at or after `from` whose reading failed, or the number of
/// rows where none did.
pub open spec fn first_err(t: Seq<Result<Seq<(Seq<char>, Seq<char>)>, Seq<char>>>, from: int) -> int
    decreases t.len() - from,
{
    if from < 0 || from >= t.len() {
        t.len() as int
    } else if t[from] is Err {
        from
    } else {
        first_err(t, from + 1)
    }
}

proof fn lemma_first_err(t: Seq<Result<Seq<(Seq<char>, Seq<char>)>, Seq<char>>>, from: int, k: int)
    requires
        0 <= from <= k <= t.len(),
        forall|j: int| from <= j < k ==> t[j] is Ok,
    ensures
        first_err(t, from) == first_err(t, k),
    decreases k - from,
{
    if from < k {
        lemma_first_err(t, from + 1, k);
    }
}

proof fn lemma_first_err_ge(t: Seq<Result<Seq<(Seq<char>, Seq<char>)>, Seq<char>>>, from: int)
    requires
        0 <= from <= t.len(),
    ensures
        from <= first_err(t, from) <= t.len(),
    decreases t.len() - from,
{
    if from < t.len() && t[from] is Ok {
        lemma_first_err_ge(t, from + 1);
    }
}

/// Where a page of `size` rows that starts at `from` ends: at the end of
/// the table for a size of 0 or where fewer rows are left.
pub open spec fn page_stop(len: int, from: int, size: int) -> int {
    if size == 0 || from + size > len {
        len
    } else {
        from + size
    }
}

/// What handing out a page of `size` rows does: the loader goes from
/// `before` to `after` and gives `r`. A row whose reading failed ends the
/// page with its error, and the rows read before it in this page are
/// dropped. Each row handed out is numbered one after the last; a page
/// that is not full is filled up, where the loader repeats, by its rows
/// over again under the numbers that follow.
pub open spec fn loaded(before: PageLoader, after: PageLoader, size: usize, r: Result<Vec<(String, Value)>, String>) -> bool {
    let t = before.table();
    let from = before.position();
    let stop = page_stop(t.len() as int, from, size as int);
    let e = first_err(t, from);
    let n0 = before.row_number();
    &&& after.table() == t
    &&& after.repeats() == before.repeats()
    &&& if e < stop {
        &&& r is Err && r->Err_0@ == t[e]->Err_0
        &&& after.position() == e + 1
        &&& after.row_number() == n0
    } else {
        let m = stop - from;
        let total = if before.repeats() && 0 < m < size { size as int } else { m };
        &&& after.position() == stop
        &&& after.row_number() == n0 + m
        &&& r is Ok
        &&& r->Ok_0@.len() == total
        &&& forall|j: int|
            0 <= j < m ==> (#[trigger] r->Ok_0@[j]).0@ == decimal((n0 + 1 + j) as nat) && r->Ok_0@[j].1@
                == row_value(t[from + j]->Ok_0)
        &&& forall|j: int|
            m <= j < total ==> (#[trigger] r->Ok_0@[j]).0@ == decimal((n0 + 1 + j) as nat) && r->Ok_0@[j].1@
                == r->Ok_0@[(j - m) % m].1@
    }
}

/// The rows of a table handed out a page at a time, each numbered after
/// the ones before; where `repeat` holds, a last page that is not full is
/// filled up by repeating its rows under the numbers that follow.
pub struct PageLoader {
    row_num: usize,
    rows: Vec<Result<Fields, String>>,
    next: usize,
    repeat: bool,
}

impl PageLoader {
    #[verifier::type_invariant]
    spec fn wf(self) -> bool {
        self.next <= self.rows@.len() && self.row_num <= self.next + 1
    }

    /// The rows as read.
    pub closed spec fn table(&self) -> Seq<Result<Seq<(Seq<char>, Seq<char>)>, Seq<char>>> {
        table_view(self.rows@)
    }

    /// The position of the next row to hand out.
    pub closed spec fn position(&self) -> int {
        self.next as int
    }

    /// The number of the last row handed out; the first is numbered 2.
    pub closed spec fn row_number(&self) -> int {
        self.row_num as int
    }

    /// Whether a last page that is not full is filled up.
    pub closed spec fn repeats(&self) -> bool {
        self.repeat
    }

    pub fn new(rows: Vec<Result<Fields, String>>, repeat: bool) -> (r: PageLoader)
        ensures
            r.table() == table_view(rows@),
            r.position() == 0,
            r.row_number() == 1,
            r.repeats() == repeat,
    {
        PageLoader { row_num: 1, rows, next: 0, repeat }
    }

    /// Hands out the next page of `size` rows (all that are left for a size
    /// of 0). A row whose reading failed ends the page with its error, and
    /// the rows read before it in this page are dropped. Each row handed
    /// out is numbered one after the last; a page that is not full is
    /// filled up where the loader repeats.
    pub fn load(&mut self, size: usize) -> (r: Result<Vec<(String, Value)>, String>)
        requires
            old(self).table().len() + size + 2 <= usize::MAX,
        ensures
            loaded(*old(self), *final(self), size, r),
    {
        proof {
            use_type_invariant(&*self);
        }
        let ghost t = self.table();
        let ghost rows0 = self.rows@;
        let ghost rep0 = self.repeat;
        let n = self.rows.len();
        let from = self.next;
        let stop = if size == 0 || size > n - from {
            n
        } else {
            from + size
        };
        let mut k = from;
        assert(t.len() == n);
        while k < stop
            invariant
                t == table_view(self.rows@),
                t.len() == n,
                stop == page_stop(n as int, from as int, size as int),
                n == self.rows@.len(),
                from <= k <= stop <= n,
                forall|j: int| from <= j < k ==> t[j] is Ok,
                self.row_num <= from + 1,
                self.next == from,
                self.rows@ == rows0,
                self.repeat == rep0,
                t == old(self).table(),
                from as int == old(self).position(),
                rep0 == old(self).repeats(),
                self.row_num == old(self).row_number(),
            decreases stop - k,
        {
            if let Err(m) = &self.rows[k] {
                let msg = owned(m.as_str());
                assert(t[k as int] == Err::<Seq<(Seq<char>, Seq<char>)>, Seq<char>>(m@));
                proof {
                    lemma_first_err(t, from as int, k as int);
                }
                self.next = k + 1;
                return Err(msg);
            }
            k = k + 1;
        }
        proof {
            lemma_first_err(t, from as int, stop as int);
            lemma_first_err_ge(t, stop as int);
            if stop < n {
                assert(size > 0);
            }
        }
        let n0 = self.row_num;
        let mut out: Vec<(String, Value)> = Vec::new();
        let mut j = from;
        while j < stop
            invariant
                t == table_view(self.rows@),
                n == self.rows@.len(),
                self.rows@ == rows0,
                self.repeat == rep0,
                self.next == from,
                self.row_num == n0,
                t == old(self).table(),
                from as int == old(self).position(),
                rep0 == old(self).repeats(),
                n0 == old(self).row_number(),
                stop == page_stop(n as int, from as int, size as int),
                t.len() == n,
                from <= j <= stop <= n,
                n + size + 2 <= usize::MAX,
                n0 <= from + 1,
                forall|i: int| from <= i < stop ==> t[i] is Ok,
                out@.len() == j - from,
                forall|i: int|
                    0 <= i < j - from ==> (#[trigger] out@[i]).0@ == decimal((n0 + 1 + i) as nat) && out@[i].1@
                        == row_value(t[from + i]->Ok_0),
            decreases stop - j,
        {
            let row = &self.rows[j];
            let v = match row {
                Ok(f) => row_value_of(f),
                Err(_) => {
                    proof {
                        assert(t[j as int] is Ok);
                    }
                    Value::Null
                },
            };
            let id = u64_to_string((n0 + 1 + (j - from)) as u64);
            out.push((id, v));
            j = j + 1;
        }
        let m = stop - from;
        self.next = stop;
        self.row_num = n0 + m;
        if self.repeat && m > 0 && m < size {
            let mut i: usize = 0;
            while i < size - m
                invariant
                    m > 0,
                    m < size,
                    n + size + 2 <= usize::MAX,
                    n0 + m <= stop + 1,
                    stop <= n,
                    out@.len() == m + i,
                    i <= size - m,
                    stop == from + m,
                    t.len() == n,
                    self.rows@ == rows0,
                    self.repeat == rep0,
                    self.repeat,
                    self.next == stop,
                    self.row_num == n0 + m,
                    t == old(self).table(),
                    from as int == old(self).position(),
                    rep0 == old(self).repeats(),
                    n0 == old(self).row_number(),
                    stop == page_stop(n as int, from as int, size as int),
                    t == table_view(self.rows@),
                    forall|q: int|
                        0 <= q < m ==> (#[trigger] out@[q]).0@ == decimal((n0 + 1 + q) as nat) && out@[q].1@
                            == row_value(t[from + q]->Ok_0),
                    forall|q: int|
                        m <= q < m + i ==> (#[trigger] out@[q]).0@ == decimal((n0 + 1 + q) as nat) && out@[q].1@
                            == out@[(q - m) % (m as int)].1@,
                decreases size - m - i,
            {
                let v = out[i % m].1.deep_clone();
                let id = u64_to_string((n0 + m + 1 + i) as u64);
                let ghost before = out@;
                out.push((id, v));
                proof {
                    assert(out@[(i % m) as int] == before[(i % m) as int]);
                }
                i = i + 1;
            }
        }
        Ok(out)
    }
}

/// Loading every row at once (a size of 0) from a fresh loader of a table
/// whose rows were all read hands out each row, in order, numbered from 2.
pub proof fn law_load_all(before: PageLoader, after: PageLoader, r: Result<Vec<(String, Value)>, String>)
    requires
        before.position() == 0,
        before.row_number() == 1,
        forall|i: int| 0 <= i < before.table().len() ==> (#[trigger] before.table()[i]) is Ok,
        loaded(before, after, 0, r),
    ensures
        r is Ok,
        r->Ok_0@.len() == before.table().len(),
        forall|j: int|
            0 <= j < before.table().len() ==> (#[trigger] r->Ok_0@[j]).0@ == decimal((j + 2) as nat) && r->Ok_0@[j].1@
                == row_value(before.table()[j]->Ok_0),
        after.position() == before.table().len(),
        after.row_number() == before.table().len() + 1,
{
    let t = before.table();
    lemma_first_err(t, 0, t.len() as int);
}

/// Row numbers go on from page to page: after a page, the loader's last
/// number has grown by the rows of the table that the page handed out, and
/// the next page's first row is numbered one after it.
pub proof fn law_pages_continue(
    l0: PageLoader,
    l1: PageLoader,
    l2: PageLoader,
    s1: usize,
    s2: usize,
    r1: Result<Vec<(String, Value)>, String>,
    r2: Result<Vec<(String, Value)>, String>,
)
    requires
        loaded(l0, l1, s1, r1),
        loaded(l1, l2, s2, r2),
        r1 is Ok,
        r2 is Ok,
        r2->Ok_0@.len() > 0,
    ensures
        l1.row_number() == l0.row_number() + (l1.position() - l0.position()),
        r2->Ok_0@[0].0@ == decimal((l1.row_number() + 1) as nat),
{
    let t = l0.table();
    lemma_first_err_ge(t, l0.position());
}

/// A page never holds more rows than asked for, unless all that are left
/// are asked for (a size of 0); and a page of a loader that repeats holds
/// exactly as many as asked for, unless no row was left.
pub proof fn law_page_size(before: PageLoader, after: PageLoader, size: usize, r: Result<Vec<(String, Value)>, String>)
    requires
        loaded(before, after, size, r),
        r is Ok,
    ensures
        size > 0 ==> r->Ok_0@.len() <= size,
        size > 0 && before.repeats() && r->Ok_0@.len() > 0 ==> r->Ok_0@.len() == size,
{
}

/// The path of the directory of a task named `task` under `base`: each
/// part of the name between dots is a directory under the one before.
pub open spec fn split_dots(s: Seq<char>) -> Seq<Seq<char>>
    decreases s.len(),
{
    if s.len() == 0 {
        seq![Seq::<char>::empty()]
    } else {
        let rest = split_dots(s.drop_last());
        if s.last() == '.' {
            rest.push(Seq::<char>::empty())
        } else {
            rest.update(rest.len() - 1, rest.last().push(s.last()))
        }
    }
}

/// `base` with each of `parts` pushed onto it in turn.
pub open spec fn push_all(base: Seq<char>, parts: Seq<Seq<char>>) -> Seq<char>
    decreases parts.len(),
{
    if parts.len() == 0 {
        base
    } else {
        path_push(push_all(base, parts.drop_last()), parts.last())
    }
}

proof fn lemma_split_dots_len(s: Seq<char>)
    ensures
        split_dots(s).len() >= 1,
    decreases s.len(),
{
    if s.len() > 0 {
        lemma_split_dots_len(s.drop_last());
    }
}

/// The directory of the task named `task` under `base`.
pub fn task_path(base: &str, task: &str) -> (r: String)
    ensures
        r@ == push_all(base@, split_dots(task@)),
{
    let v = crate::text::chars_of(task);
    let n = v.len();
    let mut path = owned(base);
    let mut seg_start: usize = 0;
    let mut i: usize = 0;
    proof {
        assert(task@.take(0) == Seq::<char>::empty());
    }
    while i < n
        invariant
            v@ == task@,
            n == task@.len(),
            seg_start <= i <= n,
            split_dots(task@.take(i as int)).len() >= 1,
            split_dots(task@.take(i as int)).last() == task@.subrange(seg_start as int, i as int),
            path@ == push_all(base@, split_dots(task@.take(i as int)).drop_last()),
        decreases n - i,
    {
        let ghost pre = split_dots(task@.take(i as int));
        proof {
            assert(task@.take(i + 1).drop_last() == task@.take(i as int));
            assert(task@.take(i + 1).last() == task@[i as int]);
        }
        if v[i] == '.' {
            let seg = task.substring_char(seg_start, i);
            path = push_path(path.as_str(), seg);
            proof {
                let post = split_dots(task@.take(i + 1));
                assert(post == pre.push(Seq::<char>::empty()));
                assert(post.drop_last() == pre);
                assert(pre.drop_last() == pre.drop_last());
                assert(pre == pre.drop_last().push(pre.last()));
                assert(task@.subrange(i + 1, i + 1) == Seq::<char>::empty());
            }
            seg_start = i + 1;
        } else {
            proof {
                let post = split_dots(task@.take(i + 1));
                assert(post == pre.update(pre.len() - 1, pre.last().push(task@[i as int])));
                assert(post.drop_last() == pre.drop_last());
                assert(task@.subrange(seg_start as int, i + 1) == task@.subrange(seg_start as int, i as int).push(
                    task@[i as int],
                ));
            }
        }
        i = i + 1;
    }
    let seg = task.substring_char(seg_start, n);
    let r = push_path(path.as_str(), seg);
    proof {
        let parts = split_dots(task@);
        assert(task@.take(n as int) == task@);
        assert(parts == parts.drop_last().push(parts.last()));
    }
    r
}

/// The path of the file of a stage under a task's directory.
pub fn stage_file(task_dir: &str, stage: &str) -> (r: String)
    ensures
        r@ == path_push(task_dir@, stage@ + ".csv"@),
{
    let name = crate::text::concat(stage, ".csv");
    push_path(task_dir, name.as_str())
}

} // verus!
