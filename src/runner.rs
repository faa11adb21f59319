//! The per-database runner: which statement runs next, what is recorded of
//! each outcome, and the report that closes a database.
//!
//! The caller runs the statements; this type decides. It asks for statements
//! in order, stops after the first failure when told to, and builds the report.
use vstd::prelude::*;
use crate::model::{DatabaseStatus, ExecutionResult, ExecutionStatus, QueryResult};
use crate::text::{nat_text, u128_text};

verus! {

/// The number of failures in `s`.
pub open spec fn count_errors(s: Seq<ExecutionResult>) -> nat
    decreases s.len(),
{
    if s.len() == 0 {
        0
    } else {
        count_errors(s.drop_last()) + if s.last() is Error {
            1nat
        } else {
            0nat
        }
    }
}

/// Whether some outcome in `s` is a failure.
pub open spec fn has_error(s: Seq<ExecutionResult>) -> bool {
    exists|i: int| 0 <= i < s.len() && (#[trigger] s[i]) is Error
}

/// The log line of a database with `ok` successes and `failed` failures.
pub open spec fn log_line(ok: nat, failed: nat) -> Seq<char> {
    if failed > 0 {
        nat_text(ok) + " succeeded, "@ + nat_text(failed) + " failed."@
    } else {
        nat_text(ok) + " statements executed successfully."@
    }
}

/// The message recorded when statement `index` (counted from zero) fails with `e`.
pub open spec fn failure_message(index: nat, e: Seq<char>) -> Seq<char> {
    "Erro na query "@ + nat_text(index + 1) + ": "@ + e
}

/// The index of the last tabular result in `s`, if any.
pub open spec fn last_select_index(s: Seq<ExecutionResult>) -> Option<int>
    decreases s.len(),
{
    if s.len() == 0 {
        None
    } else if s.last() is Select {
        Some(s.len() - 1)
    } else {
        last_select_index(s.drop_last())
    }
}

/// Of any list of outcomes: the failures are at most all of them, so the
/// successes and failures of the log line add up to the number of outcomes;
/// and there is a failure exactly when some outcome is an error.
pub proof fn lemma_count_errors(s: Seq<ExecutionResult>)
    ensures
        count_errors(s) <= s.len(),
        (s.len() - count_errors(s)) + count_errors(s) == s.len(),
        (count_errors(s) > 0) == has_error(s),
    decreases s.len(),
{
    if s.len() > 0 {
        let p = s.drop_last();
        lemma_count_errors(p);
        if has_error(p) {
            let i = choose|i: int| 0 <= i < p.len() && (#[trigger] p[i]) is Error;
            assert(s[i] == p[i]);
        }
        if has_error(s) && !(s.last() is Error) {
            let i = choose|i: int| 0 <= i < s.len() && (#[trigger] s[i]) is Error;
            assert(p[i] == s[i]);
        }
    }
}

/// The state of one database's run.
pub struct DbRun {
    total: usize,
    stop_on_error: bool,
    results: Vec<ExecutionResult>,
    halted: bool,
}

impl DbRun {
    /// The outcomes recorded so far, one per attempted statement, in order.
    pub closed spec fn attempted(&self) -> Seq<ExecutionResult> {
        self.results@
    }

    /// The number of statements of the batch.
    pub closed spec fn total(&self) -> nat {
        self.total as nat
    }

    pub closed spec fn stops_on_error(&self) -> bool {
        self.stop_on_error
    }

    /// Whether the run ended early on a failure.
    pub closed spec fn halted(&self) -> bool {
        self.halted
    }

    /// The run's own consistency: it ended early exactly when it stops on
    /// errors and the last outcome is a failure, and no earlier outcome is a
    /// failure where it stops on errors.
    pub closed spec fn wf(&self) -> bool {
        &&& self.results@.len() <= self.total
        &&& self.halted == (self.stop_on_error && self.results@.len() > 0
            && self.results@.last() is Error)
        &&& self.stop_on_error ==> forall|i: int|
            0 <= i < self.results@.len() - 1 ==> !(#[trigger] self.results@[i] is Error)
    }

    /// Whether the run has finished: every statement attempted, or halted.
    pub open spec fn is_done(&self) -> bool {
        self.attempted().len() >= self.total() || self.halted()
    }

    /// A run over `total` statements that has attempted none.
    pub fn new(total: usize, stop_on_error: bool) -> (r: DbRun)
        ensures
            r.wf(),
            r.attempted().len() == 0,
            r.total() == total,
            r.stops_on_error() == stop_on_error,
            !r.halted(),
    {
        DbRun { total, stop_on_error, results: Vec::new(), halted: false }
    }

    /// The index of the statement to run next, or `None` once the run is done.
    pub fn next_statement(&self) -> (r: Option<usize>)
        requires
            self.wf(),
        ensures
            r == if self.is_done() {
                None
            } else {
                Some(self.attempted().len() as usize)
            },
    {
        if self.halted || self.results.len() >= self.total {
            None
        } else {
            Some(self.results.len())
        }
    }

    /// Records the outcome of the statement that `next_statement` named: a
    /// result as it is, a failure as its message prefixed by the statement's
    /// position. A failure halts the run where it stops on errors.
    pub fn record(&mut self, outcome: Result<ExecutionResult, String>)
        requires
            old(self).wf(),
            !old(self).is_done(),
        ensures
            final(self).wf(),
            final(self).total() == old(self).total(),
            final(self).stops_on_error() == old(self).stops_on_error(),
            final(self).attempted().len() == old(self).attempted().len() + 1,
            final(self).attempted().drop_last() == old(self).attempted(),
            match outcome {
                Ok(r) => final(self).attempted().last() == r,
                Err(e) => final(self).attempted().last() is Error
                    && final(self).attempted().last()->Error_0@ == failure_message(
                    old(self).attempted().len(),
                    e@,
                ),
            },
            final(self).halted() == (final(self).stops_on_error()
                && final(self).attempted().last() is Error),
    {
        let index = self.results.len();
        let item = match outcome {
            Ok(r) => r,
            Err(e) => {
                proof {
                    reveal_strlit("Erro na query ");
                    reveal_strlit(": ");
                }
                let msg = String::from_str("Erro na query ").concat(
                    u128_text(index as u128 + 1).as_str(),
                ).concat(": ").concat(e.as_str());
                ExecutionResult::Error(msg)
            },
        };
        let failed = match &item {
            ExecutionResult::Error(_) => true,
            _ => false,
        };
        self.results.push(item);
        self.halted = self.stop_on_error && failed;
        assert(self.results@.drop_last() =~= old(self).results@);
        assert(self.stop_on_error ==> forall|i: int|
            0 <= i < self.results@.len() - 1 ==> !(#[trigger] self.results@[i] is Error)) by {
            if self.stop_on_error {
                assert forall|i: int| 0 <= i < self.results@.len() - 1 implies !(
                #[trigger] self.results@[i] is Error) by {
                    assert(self.results@[i] == old(self).results@[i]);
                }
            }
        }
    }

    /// Closes the run into the report of database `name`: the outcomes as
    /// attempted, `Error` if any of them failed and `Success` otherwise, and
    /// a log line with the counts of successes and failures.
    pub fn finish(self, name: String) -> (r: DatabaseStatus)
        requires
            self.wf(),
        ensures
            r.name == name,
            r.results@ == self.attempted(),
            r.status == if has_error(self.attempted()) {
                ExecutionStatus::Error
            } else {
                ExecutionStatus::Success
            },
            r.log is Some,
            r.log->0@ == log_line(
                (self.attempted().len() - count_errors(self.attempted())) as nat,
                count_errors(self.attempted()),
            ),
    {
        let results = self.results;
        let (status, log) = summarize(&results);
        DatabaseStatus { name, status, log: Some(log), results }
    }
}

/// How far a run goes. Where it stops on errors, a failure can only be the
/// last outcome, and a run that ended early ended on a failure; where it does
/// not, it never ends early, so a finished run attempted every statement.
pub proof fn lemma_run_extent(run: DbRun)
    requires
        run.wf(),
    ensures
        run.stops_on_error() ==> forall|i: int|
            0 <= i < run.attempted().len() - 1 ==> !(#[trigger] run.attempted()[i] is Error),
        run.halted() ==> run.stops_on_error() && run.attempted().len() > 0
            && run.attempted().last() is Error,
        !run.stops_on_error() && run.is_done() ==> run.attempted().len() == run.total(),
        run.attempted().len() <= run.total(),
{
}

/// The aggregate status and the log line of a list of outcomes.
pub fn summarize(results: &Vec<ExecutionResult>) -> (r: (ExecutionStatus, String))
    ensures
        r.0 == if has_error(results@) {
            ExecutionStatus::Error
        } else {
            ExecutionStatus::Success
        },
        r.1@ == log_line(
            (results@.len() - count_errors(results@)) as nat,
            count_errors(results@),
        ),
{
    let mut failures: usize = 0;
    let mut i: usize = 0;
    while i < results.len()
        invariant
            i <= results@.len(),
            failures == count_errors(results@.subrange(0, i as int)),
        decreases results@.len() - i,
    {
        proof {
            let cur = results@.subrange(0, i + 1);
            assert(cur.drop_last() =~= results@.subrange(0, i as int));
            lemma_count_errors(results@.subrange(0, i as int));
        }
        if let ExecutionResult::Error(_) = &results[i] {
            failures = failures + 1;
        }
        i = i + 1;
    }
    proof {
        assert(results@.subrange(0, results@.len() as int) =~= results@);
        lemma_count_errors(results@);
        reveal_strlit(" succeeded, ");
        reveal_strlit(" failed.");
        reveal_strlit(" statements executed successfully.");
    }
    let successes = results.len() - failures;
    let status = if failures > 0 {
        ExecutionStatus::Error
    } else {
        ExecutionStatus::Success
    };
    let log = if failures > 0 {
        u128_text(successes as u128).concat(" succeeded, ").concat(
            u128_text(failures as u128).as_str(),
        ).concat(" failed.")
    } else {
        u128_text(successes as u128).concat(" statements executed successfully.")
    };
    (status, log)
}

/// The last tabular result among `results`, which is what a database exports.
pub fn last_select(results: &Vec<ExecutionResult>) -> (r: Option<&QueryResult>)
    ensures
        match last_select_index(results@) {
            Some(i) => r is Some && *r->0 == results@[i]->Select_0,
            None => r is None,
        },
{
    let mut i: usize = results.len();
    assert(results@.subrange(0, i as int) =~= results@);
    while i > 0
        invariant
            i <= results@.len(),
            last_select_index(results@) == last_select_index(results@.subrange(0, i as int)),
        decreases i,
    {
        let ghost cur = results@.subrange(0, i as int);
        assert(cur.drop_last() =~= results@.subrange(0, i - 1));
        if let ExecutionResult::Select(q) = &results[i - 1] {
            return Some(q);
        }
        i = i - 1;
    }
    None
}

} // verus!
