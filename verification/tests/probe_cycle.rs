use lock_probe::error::ServerError;
use lock_probe::lock::Lock;
use lock_probe::probe::Action;
use lock_probe::probe::Outcome;
use lock_probe::probe::Phase;
use lock_probe::probe::ProbeCycle;
use lock_probe::probe::Session;
use lock_probe::types::CatalogRow;
use lock_probe::types::LockAnalysisRequest;
use lock_probe::types::LockAnalysisResponse;

/// A database that answers each action as it is told to.
struct Script {
    begin: Result<(), String>,
    execute: Result<(), String>,
    inspect: Result<Vec<CatalogRow>, String>,
    rollback: Result<(), String>,
}

/// What was seen of one cycle.
struct Seen {
    actions: Vec<String>,
    phases: Vec<Phase>,
    sessions: Vec<Option<Session>>,
    executed: Vec<String>,
    inspected: Vec<(String, Option<String>, Option<String>)>,
    delivered: Vec<Result<Vec<LockAnalysisResponse>, ServerError>>,
}

fn done() -> Outcome {
    Outcome::Completed { rows: Vec::new() }
}

fn plain(result: &Result<(), String>) -> Outcome {
    match result {
        Ok(()) => done(),
        Err(reason) => Outcome::Failed { reason: reason.clone() },
    }
}

fn healthy(rows: Vec<CatalogRow>) -> Script {
    Script { begin: Ok(()), execute: Ok(()), inspect: Ok(rows), rollback: Ok(()) }
}

fn row(locktype: &str, mode: &str, schema: &str, relation: &str) -> CatalogRow {
    CatalogRow {
        locktype: locktype.to_string(),
        mode: mode.to_string(),
        schema: schema.to_string(),
        relation: relation.to_string(),
    }
}

fn record(locktype: &str, mode: Lock, schema: &str, relation: &str) -> LockAnalysisResponse {
    LockAnalysisResponse {
        locktype: locktype.to_string(),
        mode,
        schema: schema.to_string(),
        relation: relation.to_string(),
    }
}

fn unfiltered(query: &str) -> LockAnalysisRequest {
    LockAnalysisRequest { query: query.to_string(), relation: None, schema: None }
}

/// Drives one cycle to its end against a script, for at most `limit` steps.
fn drive(request: LockAnalysisRequest, script: &Script, limit: usize) -> Seen {
    let mut seen = Seen {
        actions: Vec::new(),
        phases: Vec::new(),
        sessions: Vec::new(),
        executed: Vec::new(),
        inspected: Vec::new(),
        delivered: Vec::new(),
    };
    let (mut cycle, mut action) = ProbeCycle::start(request);
    for _ in 0..limit {
        seen.phases.push(cycle.phase());
        seen.sessions.push(action.session());
        let outcome = match action {
            Action::Begin => {
                seen.actions.push("begin".to_string());
                plain(&script.begin)
            }
            Action::Execute { statement } => {
                seen.actions.push("execute".to_string());
                seen.executed.push(statement);
                plain(&script.execute)
            }
            Action::Inspect { statement, schema, relation } => {
                seen.actions.push("inspect".to_string());
                seen.inspected.push((statement, schema, relation));
                match &script.inspect {
                    Ok(rows) => Outcome::Completed { rows: rows.clone() },
                    Err(reason) => Outcome::Failed { reason: reason.clone() },
                }
            }
            Action::Rollback => {
                seen.actions.push("rollback".to_string());
                plain(&script.rollback)
            }
            Action::Deliver { result } => {
                seen.actions.push("deliver".to_string());
                seen.delivered.push(result);
                done()
            }
            Action::Halt => {
                seen.actions.push("halt".to_string());
                break;
            }
        };
        let next = cycle.step(outcome);
        cycle = next.0;
        action = next.1;
    }
    seen.phases.push(cycle.phase());
    seen
}

fn answer(seen: &Seen) -> Result<Vec<LockAnalysisResponse>, ServerError> {
    assert_eq!(seen.delivered.len(), 1);
    seen.delivered[0].clone()
}

#[test]
fn select_takes_one_access_share_lock() {
    let script = healthy(vec![row("relation", "AccessShareLock", "public", "t")]);
    let seen = drive(unfiltered("SELECT * FROM t"), &script, 10);
    assert_eq!(answer(&seen), Ok(vec![record("relation", Lock::AccessShareLock, "public", "t")]));
}

#[test]
fn update_takes_a_row_exclusive_lock() {
    let script = healthy(vec![
        row("relation", "RowExclusiveLock", "public", "t"),
        row("relation", "RowExclusiveLock", "public", "t_pkey"),
    ]);
    let seen = drive(unfiltered("UPDATE t SET x = 1"), &script, 10);
    let records = answer(&seen).unwrap();
    assert!(records.contains(&record("relation", Lock::RowExclusiveLock, "public", "t")));
}

#[test]
fn two_relations_come_ordered_by_relation_then_mode() {
    let script = healthy(vec![
        row("relation", "RowExclusiveLock", "public", "orders"),
        row("relation", "AccessShareLock", "public", "customers"),
    ]);
    let seen = drive(unfiltered("UPDATE orders SET c = (SELECT id FROM customers)"), &script, 10);
    assert_eq!(
        answer(&seen),
        Ok(vec![
            record("relation", Lock::AccessShareLock, "public", "customers"),
            record("relation", Lock::RowExclusiveLock, "public", "orders"),
        ])
    );
}

#[test]
fn filter_on_an_untouched_relation_gives_an_empty_list() {
    let script = healthy(Vec::new());
    let seen = drive(LockAnalysisRequest::new("SELECT * FROM t", "elsewhere"), &script, 10);
    assert_eq!(answer(&seen), Ok(Vec::new()));
    assert_eq!(seen.phases.last(), Some(&Phase::Returned));
}

#[test]
fn filter_is_applied_to_the_rows_that_come_back() {
    let script = healthy(vec![
        row("relation", "AccessShareLock", "public", "t"),
        row("relation", "AccessShareLock", "public", "u"),
    ]);
    let seen = drive(LockAnalysisRequest::new("SELECT * FROM t, u", "elsewhere"), &script, 10);
    assert_eq!(answer(&seen), Ok(Vec::new()));
    let seen = drive(LockAnalysisRequest::new("SELECT * FROM t, u", "u"), &script, 10);
    assert_eq!(answer(&seen), Ok(vec![record("relation", Lock::AccessShareLock, "public", "u")]));
}

#[test]
fn invalid_statement_fails_after_rollback_and_next_cycle_succeeds() {
    let broken = Script {
        begin: Ok(()),
        execute: Err("syntax error at or near \"SELEC\"".to_string()),
        inspect: Ok(vec![row("relation", "AccessShareLock", "public", "t")]),
        rollback: Ok(()),
    };
    let seen = drive(unfiltered("SELEC * FROM t"), &broken, 10);
    assert_eq!(
        answer(&seen),
        Err(ServerError::StatementExecution("syntax error at or near \"SELEC\"".to_string()))
    );
    assert_eq!(seen.actions, vec!["begin", "execute", "rollback", "deliver", "halt"]);
    assert_eq!(seen.phases.last(), Some(&Phase::Failed));

    let script = healthy(vec![row("relation", "AccessShareLock", "public", "u")]);
    let seen = drive(unfiltered("SELECT * FROM u"), &script, 10);
    assert_eq!(answer(&seen), Ok(vec![record("relation", Lock::AccessShareLock, "public", "u")]));
}

#[test]
fn unrecognized_mode_fails_the_whole_call() {
    let script = healthy(vec![
        row("relation", "AccessShareLock", "public", "a"),
        row("relation", "SuperLock", "public", "b"),
        row("relation", "RowExclusiveLock", "public", "c"),
    ]);
    let seen = drive(unfiltered("SELECT 1"), &script, 10);
    assert_eq!(answer(&seen), Err(ServerError::LockModeParse("SuperLock".to_string())));
    assert_eq!(seen.actions, vec!["begin", "execute", "inspect", "rollback", "deliver", "halt"]);
}

#[test]
fn unrecognized_mode_fails_even_where_the_filter_would_drop_the_row() {
    let script = healthy(vec![row("relation", "SuperLock", "public", "b")]);
    let seen = drive(LockAnalysisRequest::new("SELECT 1", "a"), &script, 10);
    assert_eq!(answer(&seen), Err(ServerError::LockModeParse("SuperLock".to_string())));
}

#[test]
fn full_cycle_names_its_actions_in_order() {
    let seen = drive(unfiltered("SELECT 1"), &healthy(Vec::new()), 10);
    assert_eq!(seen.actions, vec!["begin", "execute", "inspect", "rollback", "deliver", "halt"]);
    assert_eq!(
        seen.phases,
        vec![
            Phase::Idle,
            Phase::ProbeOpen,
            Phase::Inspecting,
            Phase::Inspecting,
            Phase::RolledBack,
            Phase::Returned,
            Phase::Returned,
        ]
    );
}

#[test]
fn each_action_runs_on_the_session_of_its_role() {
    let seen = drive(unfiltered("SELECT 1"), &healthy(Vec::new()), 10);
    assert_eq!(
        seen.sessions,
        vec![
            Some(Session::Probe),
            Some(Session::Probe),
            Some(Session::Inspector),
            Some(Session::Probe),
            None,
            None,
        ]
    );
}

#[test]
fn statement_is_executed_and_looked_for_verbatim() {
    let query = "  select *\n\tFROM \"T\" -- keep; this $1 ";
    let request = LockAnalysisRequest {
        query: query.to_string(),
        relation: Some("T".to_string()),
        schema: Some("app".to_string()),
    };
    let seen = drive(request, &healthy(Vec::new()), 10);
    assert_eq!(seen.executed, vec![query.to_string()]);
    assert_eq!(
        seen.inspected,
        vec![(query.to_string(), Some("app".to_string()), Some("T".to_string()))]
    );
}

#[test]
fn two_cycles_with_different_statements_keep_their_own_text() {
    let first = drive(unfiltered("SELECT * FROM a"), &healthy(Vec::new()), 10);
    let second = drive(unfiltered("SELECT * FROM b"), &healthy(Vec::new()), 10);
    assert_eq!(first.executed, vec!["SELECT * FROM a"]);
    assert_eq!(first.inspected[0].0, "SELECT * FROM a");
    assert_eq!(second.executed, vec!["SELECT * FROM b"]);
    assert_eq!(second.inspected[0].0, "SELECT * FROM b");
}

#[test]
fn failure_to_begin_is_a_connection_failure_without_rollback() {
    let script = Script {
        begin: Err("connection closed".to_string()),
        execute: Ok(()),
        inspect: Ok(Vec::new()),
        rollback: Ok(()),
    };
    let seen = drive(unfiltered("SELECT 1"), &script, 10);
    assert_eq!(answer(&seen), Err(ServerError::Connection("connection closed".to_string())));
    assert_eq!(seen.actions, vec!["begin", "deliver", "halt"]);
    assert_eq!(seen.phases, vec![Phase::Idle, Phase::Failed, Phase::Failed, Phase::Failed]);
}

#[test]
fn failed_inspection_is_reported_after_rollback() {
    let script = Script {
        begin: Ok(()),
        execute: Ok(()),
        inspect: Err("permission denied for view pg_locks".to_string()),
        rollback: Ok(()),
    };
    let seen = drive(unfiltered("SELECT 1"), &script, 10);
    assert_eq!(
        answer(&seen),
        Err(ServerError::Inspection("permission denied for view pg_locks".to_string()))
    );
    assert_eq!(seen.actions, vec!["begin", "execute", "inspect", "rollback", "deliver", "halt"]);
    assert_eq!(seen.phases.last(), Some(&Phase::Failed));
}

#[test]
fn failed_rollback_is_reported_in_place_of_the_records() {
    let script = Script {
        begin: Ok(()),
        execute: Ok(()),
        inspect: Ok(vec![row("relation", "AccessShareLock", "public", "t")]),
        rollback: Err("connection reset".to_string()),
    };
    let seen = drive(unfiltered("SELECT * FROM t"), &script, 10);
    assert_eq!(answer(&seen), Err(ServerError::Rollback("connection reset".to_string())));
    assert_eq!(seen.phases.last(), Some(&Phase::Failed));
}

#[test]
fn failed_rollback_is_reported_in_place_of_an_earlier_failure() {
    let script = Script {
        begin: Ok(()),
        execute: Err("division by zero".to_string()),
        inspect: Ok(Vec::new()),
        rollback: Err("connection reset".to_string()),
    };
    let seen = drive(unfiltered("SELECT 1/0"), &script, 10);
    assert_eq!(answer(&seen), Err(ServerError::Rollback("connection reset".to_string())));
    assert_eq!(seen.actions, vec!["begin", "execute", "rollback", "deliver", "halt"]);
}

#[test]
fn rollback_comes_before_the_result_whatever_happens() {
    let verdicts = [Ok(()), Err("failed".to_string())];
    for begin in &verdicts {
        for execute in &verdicts {
            for inspect in &verdicts {
                for rollback in &verdicts {
                    let script = Script {
                        begin: begin.clone(),
                        execute: execute.clone(),
                        inspect: inspect.clone().map(|_| Vec::new()),
                        rollback: rollback.clone(),
                    };
                    let seen = drive(unfiltered("SELECT 1"), &script, 10);
                    let deliver = seen.actions.iter().position(|a| a == "deliver").unwrap();
                    assert_eq!(seen.actions[deliver + 1..], ["halt"]);
                    assert_eq!(seen.actions.iter().filter(|a| *a == "deliver").count(), 1);
                    if begin.is_ok() {
                        assert_eq!(seen.actions[deliver - 1], "rollback");
                        assert_eq!(seen.actions.iter().filter(|a| *a == "rollback").count(), 1);
                    } else {
                        assert_eq!(seen.actions, vec!["begin", "deliver", "halt"]);
                    }
                    let all_well =
                        begin.is_ok() && execute.is_ok() && inspect.is_ok() && rollback.is_ok();
                    assert_eq!(answer(&seen).is_ok(), all_well);
                }
            }
        }
    }
}

#[test]
fn transaction_is_open_from_begin_to_rollback_only() {
    let (cycle, _) = ProbeCycle::start(unfiltered("SELECT 1"));
    assert!(!cycle.transaction_open());
    let (cycle, _) = cycle.step(done());
    assert!(cycle.transaction_open());
    let (cycle, _) = cycle.step(done());
    assert!(cycle.transaction_open());
    let (cycle, action) = cycle.step(done());
    assert_eq!(action, Action::Rollback);
    assert!(cycle.transaction_open());
    let (cycle, _) = cycle.step(done());
    assert!(!cycle.transaction_open());
    assert_eq!(cycle.phase(), Phase::RolledBack);
    let (cycle, action) = cycle.step(done());
    assert_eq!(action, Action::Halt);
    assert!(!cycle.transaction_open());
}

#[test]
fn finished_cycle_stays_finished() {
    let (cycle, _) = ProbeCycle::start(unfiltered("SELECT 1"));
    let (cycle, action) = cycle.step(Outcome::Failed { reason: "down".to_string() });
    assert_eq!(action, Action::Deliver { result: Err(ServerError::Connection("down".to_string())) });
    let (cycle, action) = cycle.step(done());
    assert_eq!((cycle.phase(), action), (Phase::Failed, Action::Halt));
    let (cycle, action) = cycle.step(Outcome::Failed { reason: "again".to_string() });
    assert_eq!((cycle.phase(), action), (Phase::Failed, Action::Halt));
}

#[test]
fn rows_reported_after_other_actions_are_ignored() {
    let stray = vec![row("relation", "AccessShareLock", "public", "stray")];
    let (cycle, _) = ProbeCycle::start(unfiltered("SELECT 1"));
    let (cycle, _) = cycle.step(Outcome::Completed { rows: stray.clone() });
    let (cycle, _) = cycle.step(Outcome::Completed { rows: stray.clone() });
    let (cycle, _) = cycle.step(done());
    let (_, action) = cycle.step(Outcome::Completed { rows: stray });
    assert_eq!(action, Action::Deliver { result: Ok(Vec::new()) });
}
