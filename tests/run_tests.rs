use multiquery::model::{ExecutionResult, ExecutionStatus, QueryResult};
use multiquery::runner::{last_select, DbRun};

fn select(v: &str) -> ExecutionResult {
    ExecutionResult::Select(QueryResult {
        headers: vec!["v".to_string()],
        rows: vec![vec![v.to_string()]],
    })
}

fn drive(outcomes: Vec<Result<ExecutionResult, String>>, stop: bool) -> (Vec<usize>, DbRun) {
    let n = outcomes.len();
    let mut run = DbRun::new(n, stop);
    let mut attempted = Vec::new();
    let mut outs: Vec<Option<Result<ExecutionResult, String>>> = outcomes.into_iter().map(Some).collect();
    while let Some(i) = run.next_statement() {
        attempted.push(i);
        run.record(outs[i].take().unwrap());
    }
    (attempted, run)
}

#[test]
fn stop_on_error_truncates_after_failure() {
    let (attempted, run) = drive(
        vec![Ok(ExecutionResult::Mutation { affected_rows: 1 }), Err("boom".to_string()), Ok(select("x"))],
        true,
    );
    assert_eq!(attempted, vec![0, 1]);
    let report = run.finish("A".to_string());
    assert_eq!(report.results.len(), 2);
    assert_eq!(report.status, ExecutionStatus::Error);
    match &report.results[1] {
        ExecutionResult::Error(m) => assert_eq!(m, "Erro na query 2: boom"),
        _ => panic!("expected a failure"),
    }
    assert_eq!(report.log.as_deref(), Some("1 succeeded, 1 failed."));
}

#[test]
fn without_stop_all_statements_run() {
    let (attempted, run) = drive(
        vec![Ok(ExecutionResult::Mutation { affected_rows: 1 }), Err("boom".to_string()), Ok(select("x"))],
        false,
    );
    assert_eq!(attempted, vec![0, 1, 2]);
    let report = run.finish("A".to_string());
    assert_eq!(report.results.len(), 3);
    assert_eq!(report.status, ExecutionStatus::Error);
    assert_eq!(report.log.as_deref(), Some("2 succeeded, 1 failed."));
}

#[test]
fn all_successful_report() {
    let (_, run) = drive(vec![Ok(select("x")), Ok(ExecutionResult::Mutation { affected_rows: 3 })], true);
    let report = run.finish("B".to_string());
    assert_eq!(report.name, "B");
    assert_eq!(report.status, ExecutionStatus::Success);
    assert_eq!(report.log.as_deref(), Some("2 statements executed successfully."));
}

#[test]
fn empty_run_reports_zero() {
    let (attempted, run) = drive(vec![], false);
    assert!(attempted.is_empty());
    let report = run.finish("C".to_string());
    assert_eq!(report.status, ExecutionStatus::Success);
    assert_eq!(report.log.as_deref(), Some("0 statements executed successfully."));
}

#[test]
fn last_select_skips_trailing_writes() {
    let results = vec![select("first"), select("second"), ExecutionResult::Mutation { affected_rows: 0 }];
    let q = last_select(&results).unwrap();
    assert_eq!(q.rows[0][0], "second");
    let none = vec![ExecutionResult::Mutation { affected_rows: 0 }, ExecutionResult::Error("e".to_string())];
    assert!(last_select(&none).is_none());
}
