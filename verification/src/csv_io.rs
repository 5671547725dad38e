//! The CSV streaming boundary: the csv crate splits a table's text into
//! records, and everything after that split (header lookup, field typing,
//! joining) is verified code.

use vstd::prelude::*;

verus! {

/// What the csv reader yields for a given text, headers included: for each
/// record its fields, or nothing for a record that cannot be read (bad
/// quoting, invalid UTF-8, wrong field count). A function of the text alone.
pub uninterp spec fn csv_records_of(text: Seq<char>) -> Seq<Option<Seq<Seq<char>>>>;

/// Relies on csv's Reader (quoted fields, embedded separators and line breaks
/// handled there): yields every record of `text` in order, each as its list
/// of fields, with `None` standing for a record the reader refused.
#[verifier::external_body]
pub fn read_csv(text: &str) -> (r: Vec<Option<Vec<String>>>)
    ensures
        r.deep_view() == csv_records_of(text@),
{
    let mut reader = csv::ReaderBuilder::new().has_headers(false).from_reader(text.as_bytes());
    reader
        .records()
        .map(|rec| rec.ok().map(|fields| fields.iter().map(String::from).collect()))
        .collect()
}

} // verus!
