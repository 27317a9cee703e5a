use lock_probe::cli::decimal_text;
use lock_probe::cli::display_analysis;
use lock_probe::cli::endpoint;
use lock_probe::cli::query_input;
use lock_probe::cli::rejection;
use lock_probe::cli::report;
use lock_probe::cli::Args;
use lock_probe::cli::QueryInput;
use lock_probe::cli::DEFAULT_SERVER_PORT;
use lock_probe::lock::Lock;
use lock_probe::types::LockAnalysisRequest;
use lock_probe::types::LockAnalysisResponse;

fn sample(mode: Lock, schema: &str, relation: &str) -> LockAnalysisResponse {
    LockAnalysisResponse {
        locktype: "relation".to_string(),
        mode,
        schema: schema.to_string(),
        relation: relation.to_string(),
    }
}

#[test]
fn argument_with_at_sign_names_a_file() {
    assert_eq!(query_input("@query.sql"), QueryInput::File { path: "query.sql".to_string() });
    assert_eq!(query_input("@/tmp/\u{e9}.sql"), QueryInput::File { path: "/tmp/\u{e9}.sql".to_string() });
}

#[test]
fn only_the_first_at_sign_is_taken_off() {
    assert_eq!(query_input("@@x"), QueryInput::File { path: "@x".to_string() });
    assert_eq!(query_input("@"), QueryInput::File { path: String::new() });
}

#[test]
fn any_other_argument_is_the_query() {
    assert_eq!(query_input("SELECT 1"), QueryInput::Text { query: "SELECT 1".to_string() });
    assert_eq!(query_input(" @file"), QueryInput::Text { query: " @file".to_string() });
    assert_eq!(query_input("a@b"), QueryInput::Text { query: "a@b".to_string() });
    assert_eq!(query_input(""), QueryInput::Text { query: String::new() });
}

#[test]
fn decimal_text_of_some_numbers() {
    assert_eq!(decimal_text(0), "0");
    assert_eq!(decimal_text(7), "7");
    assert_eq!(decimal_text(10), "10");
    assert_eq!(decimal_text(404), "404");
    assert_eq!(decimal_text(5430), "5430");
    assert_eq!(decimal_text(65535), "65535");
}

#[test]
fn decimal_text_agrees_with_the_standard_rendering() {
    for n in (0..=u16::MAX).step_by(7) {
        assert_eq!(decimal_text(n), n.to_string());
    }
}

#[test]
fn endpoint_is_on_the_local_host() {
    assert_eq!(endpoint(Some(8080)), "http://localhost:8080/locks");
    assert_eq!(endpoint(Some(0)), "http://localhost:0/locks");
}

#[test]
fn endpoint_uses_the_default_port_where_none_is_given() {
    assert_eq!(DEFAULT_SERVER_PORT, 5430);
    assert_eq!(endpoint(None), "http://localhost:5430/locks");
}

#[test]
fn rejection_names_code_and_body() {
    assert_eq!(
        rejection(500, "relation \"t\" does not exist"),
        "Invalid request (response code 500): relation \"t\" does not exist"
    );
    assert_eq!(rejection(422, ""), "Invalid request (response code 422): ");
}

#[test]
fn analysis_is_described_in_one_line() {
    assert_eq!(
        display_analysis(&sample(Lock::RowExclusiveLock, "public", "orders")),
        "Lock of type 'relation' with mode 'RowExclusiveLock' will be taken on relation 'public.orders'"
    );
}

#[test]
fn report_of_no_locks_says_so() {
    assert_eq!(report(&Vec::new()), vec!["No locks were returned for this query"]);
}

#[test]
fn report_has_one_line_for_each_lock() {
    let response = vec![
        sample(Lock::AccessShareLock, "public", "a"),
        sample(Lock::ShareLock, "app", "b"),
    ];
    assert_eq!(
        report(&response),
        vec![
            "Lock of type 'relation' with mode 'AccessShareLock' will be taken on relation 'public.a'",
            "Lock of type 'relation' with mode 'ShareLock' will be taken on relation 'app.b'",
        ]
    );
}

#[test]
fn arguments_give_the_request_and_the_endpoint() {
    let args = Args {
        query: "SELECT 1".to_string(),
        relation: Some("t".to_string()),
        schema: None,
        server_port: Some(9000),
    };
    assert_eq!(
        args.request(),
        LockAnalysisRequest { query: "SELECT 1".to_string(), relation: Some("t".to_string()), schema: None }
    );
    assert_eq!(args.endpoint(), "http://localhost:9000/locks");
    let args = Args { query: String::new(), relation: None, schema: Some("s".to_string()), server_port: None };
    assert_eq!(
        args.request(),
        LockAnalysisRequest { query: String::new(), relation: None, schema: Some("s".to_string()) }
    );
    assert_eq!(args.endpoint(), "http://localhost:5430/locks");
}

#[test]
fn new_request_filters_by_relation_only() {
    assert_eq!(
        LockAnalysisRequest::new("SELECT * FROM t", "t"),
        LockAnalysisRequest {
            query: "SELECT * FROM t".to_string(),
            relation: Some("t".to_string()),
            schema: None,
        }
    );
}
