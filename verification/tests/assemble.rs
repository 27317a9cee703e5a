use lock_probe::assemble::assemble;
use lock_probe::assemble::LOCK_QUERY;
use lock_probe::error::ServerError;
use lock_probe::lock::Lock;
use lock_probe::types::CatalogRow;
use lock_probe::types::LockAnalysisResponse;

fn catalog_row(locktype: &str, mode: &str, schema: &str, relation: &str) -> CatalogRow {
    CatalogRow {
        locktype: locktype.to_string(),
        mode: mode.to_string(),
        schema: schema.to_string(),
        relation: relation.to_string(),
    }
}

fn lock_record(locktype: &str, mode: Lock, schema: &str, relation: &str) -> LockAnalysisResponse {
    LockAnalysisResponse {
        locktype: locktype.to_string(),
        mode,
        schema: schema.to_string(),
        relation: relation.to_string(),
    }
}

fn keys(records: &[LockAnalysisResponse]) -> Vec<(String, String)> {
    records.iter().map(|r| (r.relation.clone(), r.mode.to_string())).collect()
}

#[test]
fn no_rows_give_no_records() {
    assert_eq!(assemble(&Vec::new(), &None, &None), Ok(Vec::new()));
    assert_eq!(assemble(&Vec::new(), &Some("s".to_string()), &Some("r".to_string())), Ok(Vec::new()));
}

#[test]
fn a_row_becomes_a_record_with_its_mode_parsed() {
    let rows = vec![catalog_row("relation", "ShareUpdateExclusiveLock", "app", "jobs")];
    assert_eq!(
        assemble(&rows, &None, &None),
        Ok(vec![lock_record("relation", Lock::ShareUpdateExclusiveLock, "app", "jobs")])
    );
}

#[test]
fn lock_type_is_passed_through_as_it_is() {
    let rows = vec![catalog_row("anything at all", "ShareLock", "app", "jobs")];
    let records = assemble(&rows, &None, &None).unwrap();
    assert_eq!(records[0].locktype, "anything at all");
}

#[test]
fn mode_may_come_in_any_spelling() {
    let rows = vec![
        catalog_row("relation", "ROW SHARE", "app", "a"),
        catalog_row("relation", "RowShare", "app", "b"),
        catalog_row("relation", "row share lock", "app", "c"),
    ];
    let records = assemble(&rows, &None, &None).unwrap();
    assert_eq!(records.iter().map(|r| r.mode).collect::<Vec<_>>(), vec![Lock::RowShareLock; 3]);
}

#[test]
fn records_are_ordered_by_relation_then_mode_name() {
    let rows = vec![
        catalog_row("relation", "RowExclusiveLock", "public", "b"),
        catalog_row("relation", "ShareLock", "public", "a"),
        catalog_row("relation", "AccessShareLock", "public", "b"),
        catalog_row("relation", "AccessExclusiveLock", "public", "a"),
        catalog_row("relation", "ExclusiveLock", "public", "a"),
    ];
    let records = assemble(&rows, &None, &None).unwrap();
    assert_eq!(
        keys(&records),
        vec![
            ("a".to_string(), "AccessExclusiveLock".to_string()),
            ("a".to_string(), "ExclusiveLock".to_string()),
            ("a".to_string(), "ShareLock".to_string()),
            ("b".to_string(), "AccessShareLock".to_string()),
            ("b".to_string(), "RowExclusiveLock".to_string()),
        ]
    );
}

#[test]
fn mode_names_are_ordered_as_texts_not_by_strength() {
    let rows = vec![
        catalog_row("relation", "AccessShareLock", "public", "t"),
        catalog_row("relation", "AccessExclusiveLock", "public", "t"),
    ];
    let records = assemble(&rows, &None, &None).unwrap();
    assert_eq!(records[0].mode, Lock::AccessExclusiveLock);
    assert_eq!(records[1].mode, Lock::AccessShareLock);
}

#[test]
fn relation_names_are_ordered_byte_by_byte() {
    let rows = vec![
        catalog_row("relation", "ShareLock", "public", "b"),
        catalog_row("relation", "ShareLock", "public", "\u{e9}t\u{e9}"),
        catalog_row("relation", "ShareLock", "public", "B"),
        catalog_row("relation", "ShareLock", "public", "ab"),
        catalog_row("relation", "ShareLock", "public", "a"),
        catalog_row("relation", "ShareLock", "public", ""),
    ];
    let records = assemble(&rows, &None, &None).unwrap();
    let names: Vec<&str> = records.iter().map(|r| r.relation.as_str()).collect();
    assert_eq!(names, vec!["", "B", "a", "ab", "b", "\u{e9}t\u{e9}"]);
}

#[test]
fn records_with_equal_keys_keep_the_order_of_their_rows() {
    let rows = vec![
        catalog_row("tuple", "ShareLock", "zeta", "t"),
        catalog_row("relation", "AccessShareLock", "public", "u"),
        catalog_row("relation", "ShareLock", "alpha", "t"),
        catalog_row("page", "ShareLock", "mid", "t"),
    ];
    let records = assemble(&rows, &None, &None).unwrap();
    assert_eq!(
        records,
        vec![
            lock_record("tuple", Lock::ShareLock, "zeta", "t"),
            lock_record("relation", Lock::ShareLock, "alpha", "t"),
            lock_record("page", Lock::ShareLock, "mid", "t"),
            lock_record("relation", Lock::AccessShareLock, "public", "u"),
        ]
    );
}

#[test]
fn rows_that_come_ordered_stay_as_they_are() {
    let rows = vec![
        catalog_row("relation", "AccessShareLock", "s2", "a"),
        catalog_row("relation", "AccessShareLock", "s1", "a"),
        catalog_row("relation", "RowExclusiveLock", "s1", "a"),
        catalog_row("relation", "AccessShareLock", "s1", "b"),
    ];
    let records = assemble(&rows, &None, &None).unwrap();
    let expected: Vec<LockAnalysisResponse> = rows
        .iter()
        .map(|r| lock_record(&r.locktype, Lock::from_str(&r.mode).unwrap(), &r.schema, &r.relation))
        .collect();
    assert_eq!(records, expected);
}

#[test]
fn every_row_is_kept_once() {
    let rows = vec![
        catalog_row("relation", "ShareLock", "public", "t"),
        catalog_row("relation", "ShareLock", "public", "t"),
        catalog_row("relation", "ShareLock", "public", "s"),
    ];
    let records = assemble(&rows, &None, &None).unwrap();
    assert_eq!(records.len(), 3);
    assert_eq!(records.iter().filter(|r| r.relation == "t").count(), 2);
}

#[test]
fn absent_filters_exclude_nothing() {
    let rows = vec![
        catalog_row("relation", "ShareLock", "one", "t"),
        catalog_row("relation", "ShareLock", "two", "u"),
    ];
    assert_eq!(assemble(&rows, &None, &None).unwrap().len(), 2);
}

#[test]
fn schema_filter_keeps_the_rows_of_that_schema() {
    let rows = vec![
        catalog_row("relation", "ShareLock", "one", "t"),
        catalog_row("relation", "ShareLock", "two", "t"),
        catalog_row("relation", "ShareLock", "one", "u"),
    ];
    let records = assemble(&rows, &Some("one".to_string()), &None).unwrap();
    assert_eq!(
        records,
        vec![
            lock_record("relation", Lock::ShareLock, "one", "t"),
            lock_record("relation", Lock::ShareLock, "one", "u"),
        ]
    );
}

#[test]
fn relation_filter_keeps_the_rows_of_that_relation() {
    let rows = vec![
        catalog_row("relation", "ShareLock", "one", "t"),
        catalog_row("relation", "ShareLock", "two", "t"),
        catalog_row("relation", "ShareLock", "one", "u"),
    ];
    let records = assemble(&rows, &None, &Some("t".to_string())).unwrap();
    assert_eq!(
        records,
        vec![
            lock_record("relation", Lock::ShareLock, "one", "t"),
            lock_record("relation", Lock::ShareLock, "two", "t"),
        ]
    );
}

#[test]
fn both_filters_must_pass() {
    let rows = vec![
        catalog_row("relation", "ShareLock", "one", "t"),
        catalog_row("relation", "ShareLock", "two", "t"),
        catalog_row("relation", "ShareLock", "one", "u"),
    ];
    let records = assemble(&rows, &Some("two".to_string()), &Some("t".to_string())).unwrap();
    assert_eq!(records, vec![lock_record("relation", Lock::ShareLock, "two", "t")]);
    let records = assemble(&rows, &Some("two".to_string()), &Some("u".to_string())).unwrap();
    assert_eq!(records, Vec::new());
}

#[test]
fn filters_match_the_exact_name() {
    let rows = vec![catalog_row("relation", "ShareLock", "Public", "Orders")];
    assert_eq!(assemble(&rows, &Some("public".to_string()), &None), Ok(Vec::new()));
    assert_eq!(assemble(&rows, &None, &Some("orders".to_string())), Ok(Vec::new()));
    assert_eq!(assemble(&rows, &None, &Some("Orders ".to_string())), Ok(Vec::new()));
    assert_eq!(assemble(&rows, &Some("Public".to_string()), &Some("Orders".to_string())).unwrap().len(), 1);
}

#[test]
fn empty_filter_is_a_filter() {
    let rows = vec![catalog_row("relation", "ShareLock", "public", "t")];
    assert_eq!(assemble(&rows, &None, &Some(String::new())), Ok(Vec::new()));
}

#[test]
fn first_unrecognized_mode_is_reported() {
    let rows = vec![
        catalog_row("relation", "ShareLock", "public", "z"),
        catalog_row("relation", "FirstBad", "public", "y"),
        catalog_row("relation", "SecondBad", "public", "a"),
    ];
    assert_eq!(
        assemble(&rows, &None, &None),
        Err(ServerError::LockModeParse("FirstBad".to_string()))
    );
}

#[test]
fn unrecognized_mode_in_the_last_row_fails_all() {
    let rows = vec![
        catalog_row("relation", "ShareLock", "public", "a"),
        catalog_row("relation", "ShareLock", "public", "b"),
        catalog_row("relation", "", "public", "c"),
    ];
    assert_eq!(assemble(&rows, &None, &None), Err(ServerError::LockModeParse(String::new())));
}

#[test]
fn catalog_query_has_three_parameters_and_orders_by_relation_then_mode() {
    assert!(LOCK_QUERY.starts_with("SELECT pl.locktype, pl.mode, pn.nspname, pc.relname\n"));
    assert!(LOCK_QUERY.contains("WHERE psa.query = $1\n"));
    assert!(LOCK_QUERY.contains("AND ($2::TEXT IS NULL OR pn.nspname = $2)\n"));
    assert!(LOCK_QUERY.contains("AND ($3::TEXT IS NULL OR pc.relname = $3)\n"));
    assert!(LOCK_QUERY.ends_with("ORDER BY pc.relname, pl.mode\n"));
    assert!(!LOCK_QUERY.contains("$4"));
}

#[test]
fn no_record_is_no_lock() {
    assert_eq!(lock_probe::assemble::at_most_one(Vec::new()), Ok(None));
}

#[test]
fn one_record_is_the_lock() {
    let record = lock_record("relation", Lock::ShareLock, "public", "t");
    assert_eq!(lock_probe::assemble::at_most_one(vec![record.clone()]), Ok(Some(record)));
}

#[test]
fn more_than_one_record_is_a_failed_inspection() {
    let record = lock_record("relation", Lock::ShareLock, "public", "t");
    for count in [2, 3, 10] {
        assert_eq!(
            lock_probe::assemble::at_most_one(vec![record.clone(); count]),
            Err(ServerError::Inspection(
                "query returned an unexpected number of rows".to_string()
            ))
        );
    }
}
