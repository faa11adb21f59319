//! The values a run produces: tabular results, statement outcomes and the
//! per-database report.
use vstd::prelude::*;

verus! {

/// Column headers and rows of text values, aligned by position.
pub struct QueryResult {
    pub headers: Vec<String>,
    pub rows: Vec<Vec<String>>,
}

/// The views of a list of strings.
pub open spec fn strings_view(v: Seq<String>) -> Seq<Seq<char>> {
    v.map_values(|x: String| x@)
}

/// The views of a list of rows.
pub open spec fn rows_view(v: Seq<Vec<String>>) -> Seq<Seq<Seq<char>>> {
    v.map_values(|r: Vec<String>| strings_view(r@))
}

impl QueryResult {
    /// Every row has one value per header.
    pub open spec fn wf(&self) -> bool {
        forall|i: int| 0 <= i < self.rows@.len() ==> (#[trigger] self.rows@[i])@.len()
            == self.headers@.len()
    }

    pub open spec fn headers_view(&self) -> Seq<Seq<char>> {
        strings_view(self.headers@)
    }

    pub open spec fn rows_view(&self) -> Seq<Seq<Seq<char>>> {
        rows_view(self.rows@)
    }

    /// The result of a read that returned no row.
    pub fn empty() -> (r: QueryResult)
        ensures
            r.wf(),
            r.headers@.len() == 0,
            r.rows@.len() == 0,
    {
        QueryResult { headers: Vec::new(), rows: Vec::new() }
    }

    /// A copy with the same headers and values.
    pub fn duplicate(&self) -> (r: QueryResult)
        ensures
            r.headers_view() == self.headers_view(),
            r.rows_view() == self.rows_view(),
            r.wf() == self.wf(),
    {
        let headers = copy_strings(&self.headers);
        let mut rows: Vec<Vec<String>> = Vec::new();
        let mut i: usize = 0;
        while i < self.rows.len()
            invariant
                i <= self.rows@.len(),
                rows@.len() == i,
                forall|k: int| 0 <= k < i ==> strings_view((#[trigger] rows@[k])@) == strings_view(
                    self.rows@[k]@,
                ),
                forall|k: int| 0 <= k < i ==> (#[trigger] rows@[k])@.len() == self.rows@[k]@.len(),
            decreases self.rows@.len() - i,
        {
            rows.push(copy_strings(&self.rows[i]));
            i = i + 1;
        }
        let r = QueryResult { headers, rows };
        assert(r.rows_view() =~= self.rows_view());
        assert(r.headers@.len() == self.headers@.len());
        assert(r.wf() == self.wf()) by {
            if self.wf() {
                assert forall|k: int| 0 <= k < r.rows@.len() implies (#[trigger] r.rows@[k])@.len()
                    == r.headers@.len() by {
                    assert(self.rows@[k]@.len() == self.headers@.len());
                }
            }
            if r.wf() {
                assert forall|k: int| 0 <= k < self.rows@.len() implies (
                #[trigger] self.rows@[k])@.len() == self.headers@.len() by {
                    assert(r.rows@[k]@.len() == r.headers@.len());
                }
            }
        }
        r
    }
}

/// A copy of a list of strings.
pub fn copy_strings(v: &Vec<String>) -> (r: Vec<String>)
    ensures
        strings_view(r@) == strings_view(v@),
        r@.len() == v@.len(),
{
    let mut out: Vec<String> = Vec::new();
    let mut i: usize = 0;
    while i < v.len()
        invariant
            i <= v@.len(),
            out@.len() == i,
            forall|k: int| 0 <= k < i ==> (#[trigger] out@[k])@ == v@[k]@,
        decreases v@.len() - i,
    {
        out.push(v[i].clone());
        i = i + 1;
    }
    assert(strings_view(out@) =~= strings_view(v@));
    out
}

/// What one statement produced.
pub enum ExecutionResult {
    /// A read, with the rows it returned.
    Select(QueryResult),
    /// A write, with the number of rows it affected.
    Mutation { affected_rows: u64 },
    /// A failure, with its message.
    Error(String),
}

/// The aggregate status of a database.
#[derive(Clone, Copy, Debug, PartialEq, Eq, Structural)]
pub enum ExecutionStatus {
    Waiting,
    Success,
    Error,
}

/// The report of one database: what was attempted there and how it went.
pub struct DatabaseStatus {
    pub name: String,
    pub status: ExecutionStatus,
    pub log: Option<String>,
    pub results: Vec<ExecutionResult>,
}

} // verus!
