//! CSV export: the records of one result, or of several databases' results
//! combined, and their encoding as CSV text.
use vstd::prelude::*;
use crate::model::{QueryResult, strings_view, rows_view};

verus! {

/// The CSV encoding of one record (fields quoted as needed, then a line
/// terminator); `None` where the encoder fails.
pub uninterp spec fn csv_record_of(fields: Seq<Seq<char>>) -> Option<Seq<u8>>;

/// Relies on `csv::Writer` (default configuration) writing one record into an
/// in-memory buffer: `from_writer`, `write_record`, then `into_inner`. A fresh
/// writer is used per record, so the result depends on the fields alone; a
/// `Vec` sink never fails and a first record has no length to disagree with,
/// so the encoding always succeeds.
#[verifier::external_body]
fn csv_record(fields: &Vec<String>) -> (r: Result<Vec<u8>, String>)
    ensures
        r is Ok,
        csv_record_of(strings_view(fields@)) == Some(r->Ok_0@),
{
    let mut wtr = csv::Writer::from_writer(Vec::new());
    wtr.write_record(fields).map_err(|e| e.to_string())?;
    wtr.into_inner().map_err(|e| e.to_string())
}

/// The CSV text of `records`, one after another; `None` where one fails.
pub open spec fn csv_of(records: Seq<Seq<Seq<char>>>) -> Option<Seq<u8>>
    decreases records.len(),
{
    if records.len() == 0 {
        Some(Seq::empty())
    } else {
        match (csv_of(records.drop_last()), csv_record_of(records.last())) {
            (Some(a), Some(b)) => Some(a + b),
            _ => None,
        }
    }
}

/// Encodes `records` as CSV text.
pub fn encode_csv(records: &Vec<Vec<String>>) -> (r: Result<Vec<u8>, String>)
    ensures
        r is Ok,
        match r {
            Ok(b) => csv_of(rows_view(records@)) == Some(b@),
            Err(_) => csv_of(rows_view(records@)) is None,
        },
{
    let mut out: Vec<u8> = Vec::new();
    let mut i: usize = 0;
    while i < records.len()
        invariant
            i <= records@.len(),
            csv_of(rows_view(records@.subrange(0, i as int))) == Some(out@),
        decreases records@.len() - i,
    {
        let ghost pre = rows_view(records@.subrange(0, i as int));
        let ghost cur = rows_view(records@.subrange(0, i + 1));
        assert(cur.drop_last() =~= pre);
        assert(cur.last() == strings_view(records@[i as int]@));
        let mut b = match csv_record(&records[i]) {
            Ok(b) => b,
            Err(e) => return Err(e),
        };
        out.append(&mut b);
        i = i + 1;
    }
    assert(records@.subrange(0, records@.len() as int) =~= records@);
    Ok(out)
}

/// The records of one result's file: the header row, then each row.
pub open spec fn result_records(q: QueryResult) -> Seq<Seq<Seq<char>>> {
    seq![q.headers_view()] + q.rows_view()
}

/// The CSV text of one result: a header row followed by one row per data row.
pub fn result_csv(q: &QueryResult) -> (r: Result<Vec<u8>, String>)
    ensures
        r is Ok,
        match r {
            Ok(b) => csv_of(result_records(*q)) == Some(b@),
            Err(_) => csv_of(result_records(*q)) is None,
        },
{
    let mut records: Vec<Vec<String>> = Vec::new();
    records.push(crate::model::copy_strings(&q.headers));
    let mut i: usize = 0;
    while i < q.rows.len()
        invariant
            i <= q.rows@.len(),
            rows_view(records@) == seq![q.headers_view()] + rows_view(q.rows@.subrange(0, i as int)),
        decreases q.rows@.len() - i,
    {
        let ghost before = records@;
        records.push(crate::model::copy_strings(&q.rows[i]));
        assert(rows_view(q.rows@.subrange(0, i + 1)) =~= rows_view(q.rows@.subrange(0, i as int)).push(
            strings_view(q.rows@[i as int]@),
        ));
        assert(rows_view(records@) =~= rows_view(before).push(strings_view(q.rows@[i as int]@)));
        i = i + 1;
    }
    assert(q.rows@.subrange(0, q.rows@.len() as int) =~= q.rows@);
    assert(rows_view(records@) =~= result_records(*q));
    encode_csv(&records)
}

/// The headers of the first entry whose header set is not empty, or none.
pub open spec fn first_headers(entries: Seq<(String, QueryResult)>) -> Seq<Seq<char>>
    decreases entries.len(),
{
    if entries.len() == 0 {
        Seq::empty()
    } else if entries[0].1.headers@.len() > 0 {
        entries[0].1.headers_view()
    } else {
        first_headers(entries.drop_first())
    }
}

/// `rows`, each led by `name`.
pub open spec fn prefixed(name: Seq<char>, rows: Seq<Seq<Seq<char>>>) -> Seq<Seq<Seq<char>>> {
    rows.map_values(|r: Seq<Seq<char>>| seq![name] + r)
}

/// The data rows of the combined file: each entry's rows led by its database
/// name, entry after entry.
pub open spec fn combined_body(entries: Seq<(String, QueryResult)>) -> Seq<Seq<Seq<char>>>
    decreases entries.len(),
{
    if entries.len() == 0 {
        Seq::empty()
    } else {
        combined_body(entries.drop_last()) + prefixed(
            entries.last().0@,
            entries.last().1.rows_view(),
        )
    }
}

/// The records of the combined file: `db` and the first non-empty header set,
/// then every entry's rows led by its database name, in order.
pub open spec fn combined_records(entries: Seq<(String, QueryResult)>) -> Seq<Seq<Seq<char>>> {
    seq![seq!["db"@] + first_headers(entries)] + combined_body(entries)
}

/// The header row of the combined file.
fn combined_header(entries: &Vec<(String, QueryResult)>) -> (r: Vec<String>)
    ensures
        strings_view(r@) == seq!["db"@] + first_headers(entries@),
{
    let mut i: usize = 0;
    assert(entries@.subrange(0, entries@.len() as int) =~= entries@);
    while i < entries.len() && entries[i].1.headers.len() == 0
        invariant
            i <= entries@.len(),
            first_headers(entries@) == first_headers(entries@.subrange(i as int, entries@.len() as int)),
        decreases entries@.len() - i,
    {
        let ghost t = entries@.subrange(i as int, entries@.len() as int);
        assert(t.drop_first() =~= entries@.subrange(i + 1, entries@.len() as int));
        i = i + 1;
    }
    let mut header: Vec<String> = Vec::new();
    header.push(String::from_str("db"));
    if i < entries.len() {
        let mut rest = crate::model::copy_strings(&entries[i].1.headers);
        header.append(&mut rest);
    }
    assert(strings_view(header@) =~= seq!["db"@] + first_headers(entries@));
    header
}

/// The records of the combined file of `entries`.
pub fn combine(entries: &Vec<(String, QueryResult)>) -> (r: Vec<Vec<String>>)
    ensures
        rows_view(r@) == combined_records(entries@),
{
    let mut records: Vec<Vec<String>> = Vec::new();
    records.push(combined_header(entries));
    let ghost head = seq![seq!["db"@] + first_headers(entries@)];
    let mut e: usize = 0;
    assert(entries@.subrange(0, 0) =~= Seq::<(String, QueryResult)>::empty());
    while e < entries.len()
        invariant
            e <= entries@.len(),
            rows_view(records@) == head + combined_body(entries@.subrange(0, e as int)),
        decreases entries@.len() - e,
    {
        let name = &entries[e].0;
        let q = &entries[e].1;
        let ghost base = rows_view(records@);
        let mut k: usize = 0;
        assert(prefixed(name@, rows_view(q.rows@.subrange(0, 0))) =~= Seq::empty());
        while k < q.rows.len()
            invariant
                k <= q.rows@.len(),
                rows_view(records@) == base + prefixed(name@, rows_view(q.rows@.subrange(0, k as int))),
            decreases q.rows@.len() - k,
        {
            let ghost before = rows_view(records@);
            let mut record: Vec<String> = Vec::new();
            record.push(name.clone());
            let mut vals = crate::model::copy_strings(&q.rows[k]);
            record.append(&mut vals);
            records.push(record);
            assert(strings_view(record@) =~= seq![name@] + strings_view(q.rows@[k as int]@));
            assert(prefixed(name@, rows_view(q.rows@.subrange(0, k + 1))) =~= prefixed(
                name@,
                rows_view(q.rows@.subrange(0, k as int)),
            ).push(seq![name@] + strings_view(q.rows@[k as int]@)));
            assert(rows_view(records@) =~= before.push(strings_view(record@)));
            k = k + 1;
        }
        assert(q.rows@.subrange(0, q.rows@.len() as int) =~= q.rows@);
        let ghost cur = entries@.subrange(0, e + 1);
        assert(cur.drop_last() =~= entries@.subrange(0, e as int));
        e = e + 1;
    }
    assert(entries@.subrange(0, entries@.len() as int) =~= entries@);
    records
}

/// The CSV text of the combined file of `entries`.
pub fn combined_csv(entries: &Vec<(String, QueryResult)>) -> (r: Result<Vec<u8>, String>)
    ensures
        r is Ok,
        match r {
            Ok(b) => csv_of(combined_records(entries@)) == Some(b@),
            Err(_) => csv_of(combined_records(entries@)) is None,
        },
{
    let records = combine(entries);
    encode_csv(&records)
}

} // verus!
