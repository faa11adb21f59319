use multiquery::statements::{is_select, split_statements};

#[test]
fn split_drops_blank_fragments() {
    assert_eq!(split_statements("a;; b ;"), vec!["a".to_string(), "b".to_string()]);
}

#[test]
fn split_blank_text_yields_nothing() {
    assert!(split_statements(" ; ;\t\n;").is_empty());
    assert!(split_statements("").is_empty());
}

#[test]
fn split_keeps_order_and_trims() {
    assert_eq!(
        split_statements("  select 1 ;\nupdate t set x = 2;select 3"),
        vec!["select 1".to_string(), "update t set x = 2".to_string(), "select 3".to_string()]
    );
}

#[test]
fn split_trims_unicode_whitespace() {
    assert_eq!(split_statements("\u{a0}x\u{3000};"), vec!["x".to_string()]);
}

#[test]
fn select_is_case_insensitive_after_trim() {
    assert!(is_select("  SELECT * FROM t"));
    assert!(is_select("select"));
    assert!(is_select("SeLeCt 1"));
}

#[test]
fn non_select_is_write() {
    assert!(!is_select("insert into t values (1)"));
    assert!(!is_select("sel"));
    assert!(!is_select(""));
    assert!(!is_select("with x as (select 1) select * from x"));
}
