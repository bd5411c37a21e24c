//! Rows of an input file and the column of values they carry.

use vstd::prelude::*;

verus! {

/// One row of an input file.
#[derive(Debug)]
pub struct Record {
    /// The text of the column `value`.
    pub value: String,
}

/// The values of `records`, row by row.
pub open spec fn values_of(records: Seq<Record>) -> Seq<Seq<char>> {
    Seq::new(records.len(), |i: int| records[i].value@)
}

/// The text of every element of `values`.
pub open spec fn texts_of(values: Seq<String>) -> Seq<Seq<char>> {
    Seq::new(values.len(), |i: int| values[i]@)
}

/// Collects the values of the rows, in the order of the rows.
pub fn column_values(records: &[Record]) -> (values: Vec<String>)
    ensures
        texts_of(values@) == values_of(records@),
{
    let mut values: Vec<String> = Vec::new();
    let mut i: usize = 0;
    while i < records.len()
        invariant
            i <= records@.len(),
            values@.len() == i,
            forall|k: int| 0 <= k < i ==> (#[trigger] values@[k])@ == records@[k].value@,
        decreases records@.len() - i,
    {
        values.push(records[i].value.clone());
        i = i + 1;
    }
    assert(texts_of(values@) =~= values_of(records@));
    values
}

/// Reads one column of values: `rows` loads the rows of the input, and their
/// values are returned in the order of the rows. Where the rows cannot be
/// loaded, the error of `rows` is returned as it is and no value with it.
pub fn read_csv_values<E, R: FnOnce() -> Result<Vec<Record>, E>>(rows: R) -> (values: Result<
    Vec<String>,
    E,
>)
    requires
        call_requires(rows, ()),
    ensures
        match values {
            Ok(values) => exists|records: Vec<Record>| #[trigger]
                call_ensures(rows, (), Ok(records)) && texts_of(values@) == values_of(records@),
            Err(error) => call_ensures(rows, (), Err(error)),
        },
{
    match rows() {
        Ok(records) => Ok(column_values(records.as_slice())),
        Err(error) => Err(error),
    }
}

} // verus!
