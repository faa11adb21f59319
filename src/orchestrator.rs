//! The decisions of a batch over several databases: the connection string
//! of each, whether a destination folder is needed and what its choice means,
//! which file a finished database writes, and the combined file at the end.
//!
//! The caller performs each step (asking for a folder, running statements,
//! writing files, emitting reports) and hands the outcome back here.
use vstd::prelude::*;
use crate::export::{
    csv_of, result_records, combined_records, result_csv, combined_csv, first_headers, combined_body,
};
use crate::model::{DatabaseStatus, ExecutionStatus, QueryResult};
use crate::runner::{last_select, last_select_index};
use crate::statements::{split_spec, split_statements};
use crate::model::strings_view;

verus! {

/// A server connection profile.
pub struct Connection {
    pub id: String,
    pub name: String,
    pub host: String,
    pub port: String,
    pub user: String,
    pub pass: String,
    pub save_pass: bool,
}

/// What a batch does with its tabular results.
#[derive(Clone, Copy, Debug, PartialEq, Eq, Structural)]
pub enum SaveOption {
    /// One file for all databases, written once all of them are done.
    Single,
    /// One file per database, written as each one is done.
    Separate,
    /// No export.
    NoSave,
}

/// The connection string of the server of `c`, without a database.
pub open spec fn server_conn_spec(c: Connection) -> Seq<char> {
    "host="@ + c.host@ + " port="@ + c.port@ + " user="@ + c.user@ + " password="@ + c.pass@
}

/// The connection string of database `db` on the server of `c`.
pub open spec fn db_conn_spec(c: Connection, db: Seq<char>) -> Seq<char> {
    server_conn_spec(c) + " dbname="@ + db
}

/// The connection string of the server of `c`, used to list its databases.
pub fn server_connection_string(c: &Connection) -> (r: String)
    ensures
        r@ == server_conn_spec(*c),
{
    String::from_str("host=").concat(c.host.as_str()).concat(" port=").concat(c.port.as_str()).concat(
        " user=",
    ).concat(c.user.as_str()).concat(" password=").concat(c.pass.as_str())
}

/// The connection string of database `db` on the server of `c`.
pub fn connection_string(c: &Connection, db: &str) -> (r: String)
    ensures
        r@ == db_conn_spec(*c, db@),
{
    server_connection_string(c).concat(" dbname=").concat(db)
}

/// Whether the save option needs a destination folder before the batch starts.
pub fn needs_folder(save: SaveOption) -> (r: bool)
    ensures
        r == (save != SaveOption::NoSave),
{
    save != SaveOption::NoSave
}

/// What came of asking for a destination folder.
pub enum FolderChoice {
    /// A folder was chosen.
    Chosen(String),
    /// The operator chose none.
    Cancelled,
    /// The request itself failed, with a message.
    Failed(String),
}

/// How a batch proceeds once its inputs are resolved.
pub enum Resolution {
    /// Run, exporting into the folder where there is one.
    Run(Option<String>),
    /// Stop silently: nothing is run, emitted or written.
    Abandon,
    /// Fail before any database is touched.
    Fail(String),
}

/// Resolves a batch's destination: without export it runs with no folder;
/// with export it runs into the chosen folder, is abandoned when none was
/// chosen, and fails when the choice could not be made.
pub fn resolve(save: SaveOption, choice: Option<FolderChoice>) -> (r: Resolution)
    ensures
        save == SaveOption::NoSave ==> r == Resolution::Run(None),
        save != SaveOption::NoSave ==> match choice {
            Some(FolderChoice::Chosen(p)) => r == Resolution::Run(Some(p)),
            Some(FolderChoice::Cancelled) => r == Resolution::Abandon,
            Some(FolderChoice::Failed(m)) => r == Resolution::Fail(m),
            None => r is Fail && r->Fail_0@ == "Failed to receive selected folder"@,
        },
{
    if save == SaveOption::NoSave {
        return Resolution::Run(None);
    }
    match choice {
        Some(FolderChoice::Chosen(p)) => Resolution::Run(Some(p)),
        Some(FolderChoice::Cancelled) => Resolution::Abandon,
        Some(FolderChoice::Failed(m)) => Resolution::Fail(m),
        None => Resolution::Fail(String::from_str("Failed to receive selected folder")),
    }
}

/// Whether a batch with these statements visits any database: not when the
/// query text held no statement.
pub fn visits_databases(statements: &Vec<String>) -> (r: bool)
    ensures
        r == (statements@.len() > 0),
{
    statements.len() > 0
}

/// A CSV file to write into the destination folder.
pub struct CsvFile {
    pub file_name: String,
    /// The file's bytes, or why they could not be encoded.
    pub contents: Result<Vec<u8>, String>,
}

/// The file name of a database's own export.
pub open spec fn db_file_name(db: Seq<char>) -> Seq<char> {
    db + ".csv"@
}

/// The file name of the combined export.
pub open spec fn combined_file_name() -> Seq<char> {
    "resultado_unico.csv"@
}

/// Whether `f` holds exactly the CSV text of `records` (or the failure to encode them).
pub open spec fn holds_records(f: CsvFile, records: Seq<Seq<Seq<char>>>) -> bool {
    match f.contents {
        Ok(b) => csv_of(records) == Some(b@),
        Err(_) => csv_of(records) is None,
    }
}

/// The file that a finished database writes in separate mode: its last
/// tabular result, as `<name>.csv`; none in other modes or without a
/// tabular result.
pub fn separate_export(save: SaveOption, status: &DatabaseStatus) -> (r: Option<CsvFile>)
    ensures
        r is Some <==> (save == SaveOption::Separate && last_select_index(status.results@) is Some),
        r is Some ==> r->0.contents is Ok && r->0.file_name@ == db_file_name(status.name@) && holds_records(
            r->0,
            result_records(status.results@[last_select_index(status.results@)->0]->Select_0),
        ),
{
    if save != SaveOption::Separate {
        return None;
    }
    match last_select(&status.results) {
        Some(q) => {
            let contents = result_csv(q);
            Some(CsvFile { file_name: status.name.clone().concat(".csv"), contents })
        },
        None => None,
    }
}

/// The prefix of the log line of a database whose export failed.
pub open spec fn export_failure_log(e: Seq<char>) -> Seq<char> {
    "Sucesso na query, mas falha ao salvar CSV: "@ + e
}

/// Folds the outcome of writing a database's own file into its report: a
/// failure turns the status to `Error` and says why in the log line.
pub fn apply_export_result(status: &mut DatabaseStatus, written: Result<(), String>)
    ensures
        final(status).name == old(status).name,
        final(status).results == old(status).results,
        match written {
            Ok(_) => final(status).status == old(status).status && final(status).log == old(
                status,
            ).log,
            Err(e) => final(status).status == ExecutionStatus::Error && final(status).log is Some
                && final(status).log->0@ == export_failure_log(e@),
        },
{
    if let Err(e) = written {
        status.status = ExecutionStatus::Error;
        status.log = Some(
            String::from_str("Sucesso na query, mas falha ao salvar CSV: ").concat(e.as_str()),
        );
    }
}

/// Whether entry `e` carries database `name` and a copy of `q`.
pub open spec fn entry_of(e: (String, QueryResult), name: Seq<char>, q: QueryResult) -> bool {
    e.0@ == name && e.1.headers_view() == q.headers_view() && e.1.rows_view() == q.rows_view()
}

/// In single mode, keeps a finished database's last tabular result for the
/// combined file, when the database succeeded; otherwise keeps nothing.
pub fn collect_for_combined(
    save: SaveOption,
    status: &DatabaseStatus,
    acc: &mut Vec<(String, QueryResult)>,
)
    ensures
        ({
            let kept = save == SaveOption::Single && status.status == ExecutionStatus::Success
                && last_select_index(status.results@) is Some;
            &&& kept ==> final(acc)@.len() == old(acc)@.len() + 1 && final(acc)@.drop_last()
                == old(acc)@ && entry_of(
                final(acc)@.last(),
                status.name@,
                status.results@[last_select_index(status.results@)->0]->Select_0,
            )
            &&& !kept ==> final(acc)@ == old(acc)@
        }),
{
    if save != SaveOption::Single || status.status != ExecutionStatus::Success {
        return;
    }
    if let Some(q) = last_select(&status.results) {
        acc.push((status.name.clone(), q.duplicate()));
        assert(acc@.drop_last() =~= old(acc)@);
    }
}

/// The combined file written once every database is done: in single mode,
/// when at least one result was kept; none otherwise.
pub fn combined_export(save: SaveOption, acc: &Vec<(String, QueryResult)>) -> (r: Option<CsvFile>)
    ensures
        r is Some <==> (save == SaveOption::Single && acc@.len() > 0),
        r is Some ==> r->0.contents is Ok && r->0.file_name@ == combined_file_name() && holds_records(
            r->0,
            combined_records(acc@),
        ),
{
    if save != SaveOption::Single || acc.len() == 0 {
        return None;
    }
    Some(CsvFile { file_name: String::from_str("resultado_unico.csv"), contents: combined_csv(acc) })
}

/// The entries that single mode keeps from `reports`, in order: the name and
/// last tabular result of each successful report that has one.
pub open spec fn kept_of(save: SaveOption, reports: Seq<DatabaseStatus>) -> Seq<(String, QueryResult)>
    decreases reports.len(),
{
    if reports.len() == 0 {
        Seq::empty()
    } else {
        let r = reports.last();
        let rest = kept_of(save, reports.drop_last());
        if save == SaveOption::Single && r.status == ExecutionStatus::Success && last_select_index(
            r.results@,
        ) is Some {
            rest.push((r.name, r.results@[last_select_index(r.results@)->0]->Select_0))
        } else {
            rest
        }
    }
}

/// Whether `a` holds copies of the entries of `b`, in the same order.
pub open spec fn entries_match(a: Seq<(String, QueryResult)>, b: Seq<(String, QueryResult)>) -> bool {
    a.len() == b.len() && forall|i: int| 0 <= i < a.len() ==> entry_of(#[trigger] a[i], b[i].0@, b[i].1)
}

proof fn lemma_matching_entries_combine_alike(a: Seq<(String, QueryResult)>, b: Seq<(String, QueryResult)>)
    requires
        entries_match(a, b),
    ensures
        combined_records(a) == combined_records(b),
{
    lemma_first_headers_alike(a, b);
    lemma_combined_body_alike(a, b);
}

proof fn lemma_first_headers_alike(a: Seq<(String, QueryResult)>, b: Seq<(String, QueryResult)>)
    requires
        entries_match(a, b),
    ensures
        first_headers(a) == first_headers(b),
    decreases a.len(),
{
    if a.len() > 0 {
        assert(entry_of(a[0], b[0].0@, b[0].1));
        assert(a[0].1.headers@.len() == strings_view(a[0].1.headers@).len());
        assert(b[0].1.headers@.len() == strings_view(b[0].1.headers@).len());
        let (a1, b1) = (a.drop_first(), b.drop_first());
        assert forall|i: int| 0 <= i < a1.len() implies entry_of(#[trigger] a1[i], b1[i].0@, b1[i].1) by {
            assert(entry_of(a[i + 1], b[i + 1].0@, b[i + 1].1));
        }
        lemma_first_headers_alike(a1, b1);
    }
}

proof fn lemma_combined_body_alike(a: Seq<(String, QueryResult)>, b: Seq<(String, QueryResult)>)
    requires
        entries_match(a, b),
    ensures
        combined_body(a) == combined_body(b),
    decreases a.len(),
{
    if a.len() > 0 {
        let (a1, b1) = (a.drop_last(), b.drop_last());
        assert forall|i: int| 0 <= i < a1.len() implies entry_of(#[trigger] a1[i], b1[i].0@, b1[i].1) by {
            assert(entry_of(a[i], b[i].0@, b[i].1));
        }
        lemma_combined_body_alike(a1, b1);
        assert(entry_of(a[a.len() - 1], b[b.len() - 1].0@, b[b.len() - 1].1));
    }
}

/// A batch over several databases: it hands out the databases in order,
/// settles each one's report (its own file's outcome, then what single mode
/// keeps), and gives the combined file once all are settled. No database is
/// handed out when the query text holds no statement.
pub struct Batch {
    save: SaveOption,
    statements: Vec<String>,
    databases: Vec<String>,
    settled: usize,
    combined: Vec<(String, QueryResult)>,
    reports: Ghost<Seq<DatabaseStatus>>,
}

impl Batch {
    pub closed spec fn save(&self) -> SaveOption {
        self.save
    }

    /// The statements every database runs, in order.
    pub closed spec fn statements_view(&self) -> Seq<Seq<char>> {
        strings_view(self.statements@)
    }

    /// The target databases, in order.
    pub closed spec fn databases_view(&self) -> Seq<Seq<char>> {
        strings_view(self.databases@)
    }

    /// The reports settled so far, in the order they were handed back.
    pub closed spec fn reports(&self) -> Seq<DatabaseStatus> {
        self.reports@
    }

    pub closed spec fn wf(&self) -> bool {
        &&& self.settled == self.reports@.len()
        &&& self.settled <= self.databases@.len()
        &&& self.settled > 0 ==> self.statements@.len() > 0
        &&& entries_match(self.combined@, kept_of(self.save, self.reports@))
        &&& forall|i: int| 0 <= i < self.settled ==> (#[trigger] self.reports@[i]).name@
            == self.databases@[i]@
    }

    /// Whether every database has been settled, or none is to be run.
    pub open spec fn is_done(&self) -> bool {
        self.statements_view().len() == 0 || self.reports().len() >= self.databases_view().len()
    }

    /// A batch of the statements of `query` over `databases`.
    pub fn new(save: SaveOption, query: &str, databases: Vec<String>) -> (r: Batch)
        ensures
            r.wf(),
            r.save() == save,
            r.statements_view() == split_spec(query@),
            r.databases_view() == strings_view(databases@),
            r.reports().len() == 0,
    {
        let statements = split_statements(query);
        let r = Batch {
            save,
            statements,
            databases,
            settled: 0,
            combined: Vec::new(),
            reports: Ghost(Seq::empty()),
        };
        assert(entries_match(r.combined@, kept_of(save, Seq::empty())));
        r
    }

    /// The statements every database runs.
    pub fn statements(&self) -> (r: &Vec<String>)
        ensures
            strings_view(r@) == self.statements_view(),
    {
        &self.statements
    }

    /// The database to run next, or `None` once the batch is done.
    pub fn next_database(&self) -> (r: Option<&String>)
        requires
            self.wf(),
        ensures
            self.is_done() ==> r is None,
            !self.is_done() ==> r is Some && r->0@ == self.databases_view()[self.reports().len() as int],
    {
        if self.statements.len() == 0 || self.settled >= self.databases.len() {
            None
        } else {
            Some(&self.databases[self.settled])
        }
    }

    /// The file that a finished database writes into the folder, if any (see
    /// `separate_export`).
    pub fn export_for(&self, status: &DatabaseStatus) -> (r: Option<CsvFile>)
        ensures
            r is Some <==> (self.save() == SaveOption::Separate && last_select_index(status.results@) is Some),
            r is Some ==> r->0.contents is Ok && r->0.file_name@ == db_file_name(status.name@)
                && holds_records(
                r->0,
                result_records(status.results@[last_select_index(status.results@)->0]->Select_0),
            ),
    {
        separate_export(self.save, status)
    }

    /// Settles the report of the database that `next_database` named, with the
    /// outcome of writing its own file where one was written; returns the
    /// report to emit, which is final from here on.
    pub fn settle(&mut self, status: DatabaseStatus, written: Option<Result<(), String>>) -> (r: DatabaseStatus)
        requires
            old(self).wf(),
            !old(self).is_done(),
            status.name@ == old(self).databases_view()[old(self).reports().len() as int],
        ensures
            final(self).wf(),
            final(self).save() == old(self).save(),
            final(self).statements_view() == old(self).statements_view(),
            final(self).databases_view() == old(self).databases_view(),
            final(self).reports() == old(self).reports().push(r),
            r.name == status.name,
            r.results == status.results,
            match written {
                Some(Err(e)) => r.status == ExecutionStatus::Error && r.log is Some && r.log->0@
                    == export_failure_log(e@),
                _ => r.status == status.status && r.log == status.log,
            },
    {
        assert(strings_view(self.databases@).len() == self.databases@.len());
        let n = self.settled;
        let total = self.databases.len();
        assert(n < total);
        let mut status = status;
        if let Some(w) = written {
            apply_export_result(&mut status, w);
        }
        let ghost before = self.combined@;
        collect_for_combined(self.save, &status, &mut self.combined);
        proof {
            let reports = self.reports@.push(status);
            assert(reports.drop_last() =~= self.reports@);
            let kept = kept_of(self.save, reports);
            assert(entries_match(self.combined@, kept)) by {
                let old_kept = kept_of(self.save, self.reports@);
                if self.combined@.len() > before.len() {
                    assert forall|i: int| 0 <= i < self.combined@.len() implies entry_of(
                        #[trigger] self.combined@[i],
                        kept[i].0@,
                        kept[i].1,
                    ) by {
                        if i < before.len() {
                            assert(self.combined@[i] == self.combined@.drop_last()[i]);
                            assert(entry_of(before[i], old_kept[i].0@, old_kept[i].1));
                        }
                    }
                }
            }
            self.reports@ = reports;
            assert(strings_view(self.databases@)[self.settled as int] == self.databases@[self.settled as int]@);
        }
        self.settled = n + 1;
        status
    }

    /// The combined file, once every database is settled: in single mode,
    /// the records of the kept entries of the settled reports, in order; none
    /// when nothing was kept or in other modes.
    pub fn final_file(&self) -> (r: Option<CsvFile>)
        requires
            self.wf(),
        ensures
            r is Some <==> (self.save() == SaveOption::Single && kept_of(self.save(), self.reports()).len() > 0),
            r is Some ==> r->0.contents is Ok && r->0.file_name@ == combined_file_name() && holds_records(
                r->0,
                combined_records(kept_of(self.save(), self.reports())),
            ),
    {
        proof {
            lemma_matching_entries_combine_alike(self.combined@, kept_of(self.save, self.reports@));
        }
        combined_export(self.save, &self.combined)
    }
}

} // verus!
