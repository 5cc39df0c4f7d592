//! Reading a table of text records from CSV data.
use vstd::prelude::*;

use crate::error::Error;
use crate::load::{fields_view, Fields};
use crate::text::owned;

verus! {

/// What `csv::Reader` with `deserialize` into a
/// `BTreeMap<String, String>` gives for `data`: the entries of each record
/// after the header row, in the map's order, up to the first record whose
/// reading failed, and the `Debug` text of that error.
pub uninterp spec fn csv_string_table(data: Seq<u8>) -> (Seq<Seq<(Seq<char>, Seq<char>)>>, Option<Seq<char>>);

/// Reads the records of the CSV table `data` with `csv::Reader` and
/// `deserialize` into a `BTreeMap<String, String>`, stopping at the first
/// error. What it gives is named by `csv_string_table`; nothing more is
/// claimed of it.
#[verifier::external_body]
pub(crate) fn read_string_table(data: &[u8]) -> (r: (Vec<Fields>, Option<String>))
    ensures
        r.0@.map_values(|f: Fields| fields_view(f@)) == csv_string_table(data@).0,
        match r.1 {
            Some(e) => csv_string_table(data@).1 == Some(e@),
            None => csv_string_table(data@).1 is None,
        },
{
    let mut records: Vec<Fields> = Vec::new();
    for row in ::csv::Reader::from_reader(data).deserialize::<std::collections::BTreeMap<String, String>>() {
        match row {
            Ok(m) => records.push(m.into_iter().collect()),
            Err(e) => return (records, Some(format!("{:?}", e))),
        }
    }
    (records, None)
}

/// The records of the CSV table `data`, each a map from its column headers
/// to its texts; the first record that cannot be read gives an error with
/// code `csv` and its message.
pub fn load_data(data: &[u8]) -> (r: Result<Vec<Fields>, Error>)
    ensures
        match r {
            Ok(records) => csv_string_table(data@).1 is None && records@.map_values(|f: Fields| fields_view(f@))
                == csv_string_table(data@).0,
            Err(e) => csv_string_table(data@).1 == Some(e.message_view()) && e.code_view() == "csv"@,
        },
{
    let (records, err) = read_string_table(data);
    match err {
        Some(m) => Err(Error::new(owned("csv"), m)),
        None => Ok(records),
    }
}

} // verus!
