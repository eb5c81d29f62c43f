//! Reading the records of a CSV source.
//!
//! A source starts with a header line, which is passed over. The records
//! after it may differ in length: whether a record has the fields that its
//! relation needs is for the decoder to say. A record that the reader cannot
//! read at all is left out.

use vstd::prelude::*;

verus! {

/// What the `csv` crate's reader hands out for the bytes `data`, when it is
/// set to pass over a header line and to take records of any length: one
/// entry for each record after the header, in order, with the record's fields
/// where the reader could read the record and `None` where it reported an
/// error.
pub uninterp spec fn csv_records(data: Seq<u8>) -> Seq<Option<Seq<Seq<char>>>>;

/// Runs `csv::ReaderBuilder::new().has_headers(true).flexible(true)
/// .from_reader(data)` and takes what its `into_records` iterator yields, up
/// to its end. Nothing is proved of it: the result is what [`csv_records`]
/// names, each record as its fields' texts, and an error of the reader as
/// `None`.
#[verifier::external_body]
fn read_csv(data: &[u8]) -> (records: Vec<Option<Vec<String>>>)
    ensures
        records.deep_view() == csv_records(data@),
{
    csv::ReaderBuilder::new()
        .has_headers(true)
        .flexible(true)
        .from_reader(data)
        .into_records()
        .map(|record| record.ok().map(|fields| fields.iter().map(String::from).collect()))
        .collect()
}

/// The records that could be read, in order.
pub open spec fn readable(records: Seq<Option<Seq<Seq<char>>>>) -> Seq<Seq<Seq<char>>>
    decreases records.len(),
{
    if records.len() == 0 {
        Seq::empty()
    } else {
        match records.last() {
            Some(fields) => readable(records.drop_last()).push(fields),
            None => readable(records.drop_last()),
        }
    }
}

/// A copy of the fields of a record.
fn copy_fields(fields: &Vec<String>) -> (copy: Vec<String>)
    ensures
        copy.deep_view() == fields.deep_view(),
{
    let mut copy: Vec<String> = Vec::new();
    let mut at: usize = 0;
    while at < fields.len()
        invariant
            at <= fields.len(),
            copy.len() == at,
            forall|i: int| 0 <= i < at ==> (#[trigger] copy[i])@ == fields[i]@,
        decreases fields.len() - at,
    {
        copy.push(fields[at].clone());
        at += 1;
    }
    assert(copy.deep_view() =~= fields.deep_view());
    copy
}

/// Takes from what a reader handed out the records that it could read.
pub fn readable_records(records: &Vec<Option<Vec<String>>>) -> (rows: Vec<Vec<String>>)
    ensures
        rows.deep_view() == readable(records.deep_view()),
{
    let mut rows: Vec<Vec<String>> = Vec::new();
    let mut at: usize = 0;
    assert(records.deep_view().take(0) =~= Seq::empty());
    assert(rows.deep_view() =~= Seq::empty());
    while at < records.len()
        invariant
            at <= records.len(),
            rows.deep_view() == readable(records.deep_view().take(at as int)),
        decreases records.len() - at,
    {
        let ghost seen = rows.deep_view();
        assert(records.deep_view().take(at + 1).drop_last() =~= records.deep_view().take(
            at as int,
        ));
        assert(records.deep_view().take(at + 1).last() == records[at as int].deep_view());
        match &records[at] {
            None => {},
            Some(fields) => {
                rows.push(copy_fields(fields));
                assert(rows.deep_view() =~= seen.push(fields.deep_view()));
            },
        }
        at += 1;
    }
    assert(records.deep_view().take(at as int) =~= records.deep_view());
    rows
}

/// Reads the records of a CSV source from its bytes.
pub fn read_records(data: &[u8]) -> (rows: Vec<Vec<String>>)
    ensures
        rows.deep_view() == readable(csv_records(data@)),
{
    let records = read_csv(data);
    readable_records(&records)
}

/// Reading keeps the order of the records: the records that could be read
/// are as many as were not in error, and none is made up.
pub proof fn lemma_readable_is_within(records: Seq<Option<Seq<Seq<char>>>>)
    ensures
        readable(records).len() <= records.len(),
        forall|i: int|
            0 <= i < readable(records).len() ==> records.contains(
                Some(#[trigger] readable(records)[i]),
            ),
        (forall|i: int| 0 <= i < records.len() ==> (#[trigger] records[i]) is Some)
            ==> readable(records).len() == records.len() && forall|i: int|
            0 <= i < records.len() ==> Some(#[trigger] readable(records)[i]) == records[i],
    decreases records.len(),
{
    if records.len() > 0 {
        let rest = records.drop_last();
        lemma_readable_is_within(rest);
        assert forall|i: int| 0 <= i < readable(records).len() implies records.contains(
            Some(#[trigger] readable(records)[i]),
        ) by {
            if i < readable(rest).len() {
                let at = choose|at: int| 0 <= at < rest.len() && rest[at] == Some(readable(rest)[i]);
                assert(records[at] == rest[at]);
            } else {
                assert(records[records.len() - 1] == Some(readable(records)[i]));
            }
        }
        if forall|i: int| 0 <= i < records.len() ==> (#[trigger] records[i]) is Some {
            assert forall|i: int| 0 <= i < rest.len() implies (#[trigger] rest[i]) is Some by {
                assert(rest[i] == records[i]);
            }
            assert(records[records.len() - 1] is Some);
        }
    }
}

} // verus!
