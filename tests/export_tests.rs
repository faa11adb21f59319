use multiquery::export::{combined_csv, encode_csv, result_csv};
use multiquery::model::{DatabaseStatus, ExecutionResult, ExecutionStatus, QueryResult};
use multiquery::orchestrator::{
    apply_export_result, collect_for_combined, combined_export, connection_string, needs_folder,
    resolve, separate_export, server_connection_string, visits_databases, Batch, Connection, FolderChoice,
    Resolution, SaveOption,
};
use multiquery::statements::split_statements;

fn qr(headers: &[&str], rows: &[&[&str]]) -> QueryResult {
    QueryResult {
        headers: headers.iter().map(|s| s.to_string()).collect(),
        rows: rows.iter().map(|r| r.iter().map(|s| s.to_string()).collect()).collect(),
    }
}

fn status(name: &str, st: ExecutionStatus, results: Vec<ExecutionResult>) -> DatabaseStatus {
    DatabaseStatus { name: name.to_string(), status: st, log: None, results }
}

fn profile() -> Connection {
    Connection {
        id: "1".to_string(),
        name: "local".to_string(),
        host: "localhost".to_string(),
        port: "5432".to_string(),
        user: "admin".to_string(),
        pass: "pw".to_string(),
        save_pass: false,
    }
}

#[test]
fn single_result_csv_text() {
    let bytes = result_csv(&qr(&["a", "b"], &[&["1", "2"], &["x,y", "say \"hi\""]])).unwrap();
    assert_eq!(String::from_utf8(bytes).unwrap(), "a,b\n1,2\n\"x,y\",\"say \"\"hi\"\"\"\n");
}

#[test]
fn encode_records_back_to_back() {
    let recs = vec![vec!["h".to_string()], vec!["v".to_string()]];
    assert_eq!(encode_csv(&recs).unwrap(), b"h\nv\n".to_vec());
}

#[test]
fn combined_csv_prefixes_database_names() {
    let entries = vec![
        ("A".to_string(), qr(&["id"], &[&["1"], &["2"]])),
        ("B".to_string(), qr(&["id"], &[&["3"]])),
    ];
    let bytes = combined_csv(&entries).unwrap();
    assert_eq!(String::from_utf8(bytes).unwrap(), "db,id\nA,1\nA,2\nB,3\n");
}

#[test]
fn combined_header_from_first_nonempty_result() {
    let entries = vec![
        ("A".to_string(), qr(&[], &[])),
        ("B".to_string(), qr(&["x", "y"], &[&["1", "2"]])),
        ("C".to_string(), qr(&["z"], &[&["9"]])),
    ];
    let bytes = combined_csv(&entries).unwrap();
    assert_eq!(String::from_utf8(bytes).unwrap(), "db,x,y\nB,1,2\nC,9\n");
}

#[test]
fn separate_mode_writes_only_databases_with_reads() {
    let a = status(
        "A",
        ExecutionStatus::Success,
        vec![ExecutionResult::Mutation { affected_rows: 1 }, ExecutionResult::Select(qr(&["n"], &[&["7"]]))],
    );
    let b = status("B", ExecutionStatus::Success, vec![ExecutionResult::Mutation { affected_rows: 2 }]);
    let fa = separate_export(SaveOption::Separate, &a).unwrap();
    assert_eq!(fa.file_name, "A.csv");
    assert_eq!(String::from_utf8(fa.contents.unwrap()).unwrap(), "n\n7\n");
    assert!(separate_export(SaveOption::Separate, &b).is_none());
    assert!(separate_export(SaveOption::Single, &a).is_none());
    assert!(separate_export(SaveOption::NoSave, &a).is_none());
}

#[test]
fn single_mode_combines_successful_databases_in_order() {
    let a = status("A", ExecutionStatus::Success, vec![ExecutionResult::Select(qr(&["id"], &[&["1"], &["2"]]))]);
    let b = status("B", ExecutionStatus::Success, vec![ExecutionResult::Select(qr(&["id"], &[&["3"]]))]);
    let c = status("C", ExecutionStatus::Error, vec![ExecutionResult::Select(qr(&["id"], &[&["4"]])), ExecutionResult::Error("e".to_string())]);
    let mut acc = Vec::new();
    collect_for_combined(SaveOption::Single, &a, &mut acc);
    collect_for_combined(SaveOption::Single, &b, &mut acc);
    collect_for_combined(SaveOption::Single, &c, &mut acc);
    assert_eq!(acc.len(), 2);
    let f = combined_export(SaveOption::Single, &acc).unwrap();
    assert_eq!(f.file_name, "resultado_unico.csv");
    assert_eq!(String::from_utf8(f.contents.unwrap()).unwrap(), "db,id\nA,1\nA,2\nB,3\n");
}

#[test]
fn single_mode_without_results_writes_nothing() {
    let acc = Vec::new();
    assert!(combined_export(SaveOption::Single, &acc).is_none());
    let mut acc2 = Vec::new();
    let a = status("A", ExecutionStatus::Success, vec![ExecutionResult::Select(qr(&["id"], &[&["1"]]))]);
    collect_for_combined(SaveOption::Separate, &a, &mut acc2);
    assert!(acc2.is_empty());
    assert!(combined_export(SaveOption::Separate, &acc2).is_none());
}

#[test]
fn export_failure_downgrades_report() {
    let mut s = status("A", ExecutionStatus::Success, vec![]);
    s.log = Some("1 statements executed successfully.".to_string());
    apply_export_result(&mut s, Ok(()));
    assert_eq!(s.status, ExecutionStatus::Success);
    apply_export_result(&mut s, Err("disk full".to_string()));
    assert_eq!(s.status, ExecutionStatus::Error);
    assert_eq!(s.log.as_deref(), Some("Sucesso na query, mas falha ao salvar CSV: disk full"));
}

#[test]
fn no_folder_chosen_abandons_the_batch() {
    assert!(needs_folder(SaveOption::Separate));
    assert!(needs_folder(SaveOption::Single));
    assert!(!needs_folder(SaveOption::NoSave));
    assert!(matches!(resolve(SaveOption::Separate, Some(FolderChoice::Cancelled)), Resolution::Abandon));
    assert!(matches!(resolve(SaveOption::Single, Some(FolderChoice::Cancelled)), Resolution::Abandon));
}

#[test]
fn folder_resolution_outcomes() {
    match resolve(SaveOption::Single, Some(FolderChoice::Chosen("/tmp/out".to_string()))) {
        Resolution::Run(Some(p)) => assert_eq!(p, "/tmp/out"),
        _ => panic!("expected a run into the folder"),
    }
    match resolve(SaveOption::Separate, Some(FolderChoice::Failed("no dialog".to_string()))) {
        Resolution::Fail(m) => assert_eq!(m, "no dialog"),
        _ => panic!("expected a failure"),
    }
    match resolve(SaveOption::Separate, None) {
        Resolution::Fail(m) => assert_eq!(m, "Failed to receive selected folder"),
        _ => panic!("expected a failure"),
    }
    assert!(matches!(resolve(SaveOption::NoSave, None), Resolution::Run(None)));
}

#[test]
fn empty_query_visits_no_database() {
    assert!(!visits_databases(&split_statements(" ;; ")));
    assert!(visits_databases(&split_statements("select 1")));
}

#[test]
fn connection_strings() {
    let c = profile();
    assert_eq!(server_connection_string(&c), "host=localhost port=5432 user=admin password=pw");
    assert_eq!(connection_string(&c, "sales"), "host=localhost port=5432 user=admin password=pw dbname=sales");
}

fn batch_report(name: &str, results: Vec<ExecutionResult>) -> DatabaseStatus {
    let failed = results.iter().any(|r| matches!(r, ExecutionResult::Error(_)));
    status(name, if failed { ExecutionStatus::Error } else { ExecutionStatus::Success }, results)
}

#[test]
fn batch_separate_mode_writes_one_file_per_reading_database() {
    let mut batch = Batch::new(SaveOption::Separate, "update t set x = 1; select n from t", vec!["A".to_string(), "B".to_string()]);
    assert_eq!(batch.statements().len(), 2);
    let mut files = Vec::new();
    let mut emitted = Vec::new();
    let mut outcomes = vec![
        vec![ExecutionResult::Mutation { affected_rows: 1 }, ExecutionResult::Select(qr(&["n"], &[&["7"]]))],
        vec![ExecutionResult::Mutation { affected_rows: 1 }, ExecutionResult::Mutation { affected_rows: 0 }],
    ]
    .into_iter();
    while let Some(db) = batch.next_database() {
        let db = db.clone();
        let report = batch_report(&db, outcomes.next().unwrap());
        let file = batch.export_for(&report);
        let written = file.map(|f| {
            files.push((f.file_name.clone(), String::from_utf8(f.contents.unwrap()).unwrap()));
            Ok(())
        });
        emitted.push(batch.settle(report, written).name);
    }
    assert_eq!(emitted, vec!["A".to_string(), "B".to_string()]);
    assert_eq!(files, vec![("A.csv".to_string(), "n\n7\n".to_string())]);
    assert!(batch.final_file().is_none());
}

#[test]
fn batch_single_mode_combines_in_target_order() {
    let mut batch = Batch::new(SaveOption::Single, "select id from t", vec!["A".to_string(), "B".to_string(), "C".to_string()]);
    let mut outcomes = vec![
        vec![ExecutionResult::Select(qr(&["id"], &[&["1"], &["2"]]))],
        vec![ExecutionResult::Error("down".to_string())],
        vec![ExecutionResult::Select(qr(&["id"], &[&["3"]]))],
    ]
    .into_iter();
    while let Some(db) = batch.next_database() {
        let db = db.clone();
        let report = batch_report(&db, outcomes.next().unwrap());
        assert!(batch.export_for(&report).is_none());
        batch.settle(report, None);
    }
    let f = batch.final_file().unwrap();
    assert_eq!(f.file_name, "resultado_unico.csv");
    assert_eq!(String::from_utf8(f.contents.unwrap()).unwrap(), "db,id\nA,1\nA,2\nC,3\n");
}

#[test]
fn batch_failed_write_downgrades_the_report() {
    let mut batch = Batch::new(SaveOption::Separate, "select 1", vec!["A".to_string()]);
    let db = batch.next_database().unwrap().clone();
    let report = batch_report(&db, vec![ExecutionResult::Select(qr(&["x"], &[&["1"]]))]);
    assert!(batch.export_for(&report).is_some());
    let settled = batch.settle(report, Some(Err("disk full".to_string())));
    assert_eq!(settled.status, ExecutionStatus::Error);
    assert_eq!(settled.log.as_deref(), Some("Sucesso na query, mas falha ao salvar CSV: disk full"));
    assert!(batch.next_database().is_none());
}

#[test]
fn batch_without_statements_visits_nothing() {
    let batch = Batch::new(SaveOption::Single, " ; ;  ; ", vec!["A".to_string()]);
    assert!(batch.next_database().is_none());
    assert!(batch.final_file().is_none());
}
