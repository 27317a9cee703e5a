//! The probe cycle: begin a transaction on the probe session, execute the
//! statement in it, read the lock catalog on the inspector session, roll the
//! transaction back, and only then hand out the answer.
//!
//! The cycle is a state machine. It names the next action; whoever drives
//! it performs the action on the database and reports the outcome, on which
//! the cycle names the action after that. There is no action that commits.

use vstd::prelude::*;

use crate::assemble::assemble;
use crate::assemble::assembled;
use crate::assemble::verdict_of;
use crate::error::Fault;
use crate::error::ServerError;
use crate::types::rows_of;
use crate::types::CatalogRow;
use crate::types::LockAnalysisRequest;
use crate::types::LockAnalysisResponse;
use crate::types::LockRecord;
use crate::types::RequestView;
use crate::types::RowText;

verus! {

/// Where a cycle stands.
#[derive(Copy, Clone, Debug, PartialEq, Eq, Structural)]
pub enum Phase {
    /// No transaction is open yet.
    Idle,
    /// The transaction is open and the statement has not run to its end.
    ProbeOpen,
    /// The statement has run and holds its locks; the catalog is being read
    /// or has been read.
    Inspecting,
    /// The rollback has been answered; the result is ready to be handed out.
    RolledBack,
    /// The records have been handed out.
    Returned,
    /// An error has been handed out.
    Failed,
}

/// One of the two database sessions of a pair.
#[derive(Copy, Clone, Debug, PartialEq, Eq, Structural)]
pub enum Session {
    /// The session that runs the statement in a transaction.
    Probe,
    /// The session that reads the lock catalog.
    Inspector,
}

/// What the driver of a cycle is to do next.
#[derive(Debug, PartialEq, Eq)]
pub enum Action {
    /// Begin a transaction.
    Begin,
    /// Execute the statement as it stands in the open transaction, and
    /// discard its rows.
    Execute { statement: String },
    /// Run the catalog query with these three parameters.
    Inspect { statement: String, schema: Option<String>, relation: Option<String> },
    /// Roll the open transaction back.
    Rollback,
    /// Hand the result to the caller.
    Deliver { result: Result<Vec<LockAnalysisResponse>, ServerError> },
    /// Nothing: the cycle is over.
    Halt,
}

/// How the action last named went.
#[derive(Clone, Debug, PartialEq, Eq)]
pub enum Outcome {
    /// It succeeded. `rows` holds what the catalog query returned, and
    /// nothing after any other action.
    Completed { rows: Vec<CatalogRow> },
    /// It failed, with this message.
    Failed { reason: String },
}

/// An action, as mathematical values.
pub enum ActionView {
    Begin,
    Execute { statement: Seq<char> },
    Inspect { statement: Seq<char>, schema: Option<Seq<char>>, relation: Option<Seq<char>> },
    Rollback,
    Deliver { result: Result<Seq<LockRecord>, Fault> },
    Halt,
}

/// An outcome, as mathematical values.
pub enum OutcomeView {
    Completed { rows: Seq<RowText> },
    Failed { reason: Seq<char> },
}

/// The state of a cycle between two actions.
pub enum Stage {
    /// The transaction is being begun.
    Idle,
    /// The statement is being executed.
    ProbeOpen,
    /// The statement failed with this error; the rollback is under way.
    ProbeFailed { error: Fault },
    /// The catalog is being read.
    Inspecting,
    /// The catalog has been read, with this result; the rollback is under
    /// way.
    Inspected { verdict: Result<Seq<LockRecord>, Fault> },
    /// The rollback is over and the result is being handed out; `ok` says
    /// whether it is a list of records.
    RolledBack { ok: bool },
    /// The records have been handed out.
    Returned,
    /// An error has been handed out.
    Failed,
}

/// A cycle, as mathematical values.
pub struct CycleView {
    pub request: RequestView,
    pub stage: Stage,
}

impl View for Action {
    type V = ActionView;

    open spec fn view(&self) -> ActionView {
        match self {
            Action::Begin => ActionView::Begin,
            Action::Execute { statement } => ActionView::Execute { statement: statement@ },
            Action::Inspect { statement, schema, relation } => ActionView::Inspect {
                statement: statement@,
                schema: crate::types::text_of(*schema),
                relation: crate::types::text_of(*relation),
            },
            Action::Rollback => ActionView::Rollback,
            Action::Deliver { result } => ActionView::Deliver { result: verdict_of(*result) },
            Action::Halt => ActionView::Halt,
        }
    }
}

impl View for Outcome {
    type V = OutcomeView;

    open spec fn view(&self) -> OutcomeView {
        match self {
            Outcome::Completed { rows } => OutcomeView::Completed { rows: rows_of(rows@) },
            Outcome::Failed { reason } => OutcomeView::Failed { reason: reason@ },
        }
    }
}

impl ActionView {
    /// The session on which the action is performed, if it is performed on
    /// the database at all. Only the catalog query runs on the inspector.
    pub open spec fn session(self) -> Option<Session> {
        match self {
            ActionView::Begin => Some(Session::Probe),
            ActionView::Execute { .. } => Some(Session::Probe),
            ActionView::Inspect { .. } => Some(Session::Inspector),
            ActionView::Rollback => Some(Session::Probe),
            ActionView::Deliver { .. } => None,
            ActionView::Halt => None,
        }
    }
}

impl Stage {
    /// The phase that a stage belongs to.
    pub open spec fn phase(self) -> Phase {
        match self {
            Stage::Idle => Phase::Idle,
            Stage::ProbeOpen => Phase::ProbeOpen,
            Stage::ProbeFailed { .. } => Phase::ProbeOpen,
            Stage::Inspecting => Phase::Inspecting,
            Stage::Inspected { .. } => Phase::Inspecting,
            Stage::RolledBack { .. } => Phase::RolledBack,
            Stage::Returned => Phase::Returned,
            Stage::Failed => Phase::Failed,
        }
    }

    /// Whether a transaction is open on the probe session.
    pub open spec fn transaction_open(self) -> bool {
        self.phase() == Phase::ProbeOpen || self.phase() == Phase::Inspecting
    }
}

/// The result that leaves a cycle once its rollback is answered: what was
/// held while the transaction was open, unless the rollback itself failed.
pub open spec fn settled(held: Result<Seq<LockRecord>, Fault>, rollback: OutcomeView) -> Result<
    Seq<LockRecord>,
    Fault,
> {
    match rollback {
        OutcomeView::Completed { .. } => held,
        OutcomeView::Failed { reason } => Err(Fault::Rollback(reason)),
    }
}

/// The cycle before its first outcome: the transaction is being begun.
pub open spec fn begun(request: RequestView) -> CycleView {
    CycleView { request, stage: Stage::Idle }
}

/// The state that follows a state on an outcome, and the action to perform
/// next.
pub open spec fn advance(cycle: CycleView, outcome: OutcomeView) -> (CycleView, ActionView) {
    let request = cycle.request;
    match cycle.stage {
        Stage::Idle => match outcome {
            OutcomeView::Completed { .. } => (
                CycleView { request, stage: Stage::ProbeOpen },
                ActionView::Execute { statement: request.query },
            ),
            OutcomeView::Failed { reason } => (
                CycleView { request, stage: Stage::Failed },
                ActionView::Deliver { result: Err(Fault::Connection(reason)) },
            ),
        },
        Stage::ProbeOpen => match outcome {
            OutcomeView::Completed { .. } => (
                CycleView { request, stage: Stage::Inspecting },
                ActionView::Inspect {
                    statement: request.query,
                    schema: request.schema,
                    relation: request.relation,
                },
            ),
            OutcomeView::Failed { reason } => (
                CycleView {
                    request,
                    stage: Stage::ProbeFailed { error: Fault::StatementExecution(reason) },
                },
                ActionView::Rollback,
            ),
        },
        Stage::Inspecting => match outcome {
            OutcomeView::Completed { rows } => (
                CycleView {
                    request,
                    stage: Stage::Inspected {
                        verdict: assembled(rows, request.schema, request.relation),
                    },
                },
                ActionView::Rollback,
            ),
            OutcomeView::Failed { reason } => (
                CycleView {
                    request,
                    stage: Stage::Inspected { verdict: Err(Fault::Inspection(reason)) },
                },
                ActionView::Rollback,
            ),
        },
        Stage::ProbeFailed { error } => {
            let result = settled(Err(error), outcome);
            (
                CycleView { request, stage: Stage::RolledBack { ok: false } },
                ActionView::Deliver { result },
            )
        },
        Stage::Inspected { verdict } => {
            let result = settled(verdict, outcome);
            (
                CycleView { request, stage: Stage::RolledBack { ok: result is Ok } },
                ActionView::Deliver { result },
            )
        },
        Stage::RolledBack { ok } => (
            CycleView { request, stage: if ok { Stage::Returned } else { Stage::Failed } },
            ActionView::Halt,
        ),
        Stage::Returned => (cycle, ActionView::Halt),
        Stage::Failed => (cycle, ActionView::Halt),
    }
}

/// The state of a cycle between two actions, with what it holds.
enum Progress {
    Idle,
    ProbeOpen,
    ProbeFailed { error: ServerError },
    Inspecting,
    Inspected { verdict: Result<Vec<LockAnalysisResponse>, ServerError> },
    RolledBack { ok: bool },
    Returned,
    Failed,
}

/// One probe cycle for one request.
pub struct ProbeCycle {
    request: LockAnalysisRequest,
    progress: Progress,
}

impl View for ProbeCycle {
    type V = CycleView;

    closed spec fn view(&self) -> CycleView {
        CycleView {
            request: self.request@,
            stage: match self.progress {
                Progress::Idle => Stage::Idle,
                Progress::ProbeOpen => Stage::ProbeOpen,
                Progress::ProbeFailed { error } => Stage::ProbeFailed { error: error@ },
                Progress::Inspecting => Stage::Inspecting,
                Progress::Inspected { verdict } => Stage::Inspected {
                    verdict: verdict_of(verdict),
                },
                Progress::RolledBack { ok } => Stage::RolledBack { ok },
                Progress::Returned => Stage::Returned,
                Progress::Failed => Stage::Failed,
            },
        }
    }
}

/// A copy of an optional text.
fn copy_of(value: &Option<String>) -> (copy: Option<String>)
    ensures
        crate::types::text_of(copy) == crate::types::text_of(*value),
{
    match value {
        Some(text) => Some(text.clone()),
        None => None,
    }
}

impl Action {
    /// The session on which the action is performed, if it is performed on
    /// the database at all.
    pub fn session(&self) -> (session: Option<Session>)
        ensures
            session == self@.session(),
    {
        match self {
            Action::Begin => Some(Session::Probe),
            Action::Execute { .. } => Some(Session::Probe),
            Action::Inspect { .. } => Some(Session::Inspector),
            Action::Rollback => Some(Session::Probe),
            Action::Deliver { .. } => None,
            Action::Halt => None,
        }
    }
}

impl ProbeCycle {
    /// A new cycle for a request, with its first action: to begin the
    /// transaction.
    pub fn start(request: LockAnalysisRequest) -> (r: (ProbeCycle, Action))
        ensures
            r.0@ == begun(request@),
            r.1@ == ActionView::Begin,
    {
        (ProbeCycle { request, progress: Progress::Idle }, Action::Begin)
    }

    /// Takes the outcome of the action last named, and names the next.
    pub fn step(self, outcome: Outcome) -> (r: (ProbeCycle, Action))
        ensures
            (r.0@, r.1@) == advance(self@, outcome@),
    {
        let ProbeCycle { request, progress } = self;
        match progress {
            Progress::Idle => match outcome {
                Outcome::Completed { .. } => {
                    let statement = request.query.clone();
                    (ProbeCycle { request, progress: Progress::ProbeOpen }, Action::Execute {
                        statement,
                    })
                },
                Outcome::Failed { reason } => (
                    ProbeCycle { request, progress: Progress::Failed },
                    Action::Deliver { result: Err(ServerError::Connection(reason)) },
                ),
            },
            Progress::ProbeOpen => match outcome {
                Outcome::Completed { .. } => {
                    let statement = request.query.clone();
                    let schema = copy_of(&request.schema);
                    let relation = copy_of(&request.relation);
                    (ProbeCycle { request, progress: Progress::Inspecting }, Action::Inspect {
                        statement,
                        schema,
                        relation,
                    })
                },
                Outcome::Failed { reason } => (
                    ProbeCycle {
                        request,
                        progress: Progress::ProbeFailed {
                            error: ServerError::StatementExecution(reason),
                        },
                    },
                    Action::Rollback,
                ),
            },
            Progress::Inspecting => match outcome {
                Outcome::Completed { rows } => {
                    let verdict = assemble(&rows, &request.schema, &request.relation);
                    (
                        ProbeCycle { request, progress: Progress::Inspected { verdict } },
                        Action::Rollback,
                    )
                },
                Outcome::Failed { reason } => (
                    ProbeCycle {
                        request,
                        progress: Progress::Inspected {
                            verdict: Err(ServerError::Inspection(reason)),
                        },
                    },
                    Action::Rollback,
                ),
            },
            Progress::ProbeFailed { error } => {
                let result = match outcome {
                    Outcome::Completed { .. } => Err(error),
                    Outcome::Failed { reason } => Err(ServerError::Rollback(reason)),
                };
                (
                    ProbeCycle { request, progress: Progress::RolledBack { ok: false } },
                    Action::Deliver { result },
                )
            },
            Progress::Inspected { verdict } => {
                let result = match outcome {
                    Outcome::Completed { .. } => verdict,
                    Outcome::Failed { reason } => Err(ServerError::Rollback(reason)),
                };
                let ok = result.is_ok();
                (
                    ProbeCycle { request, progress: Progress::RolledBack { ok } },
                    Action::Deliver { result },
                )
            },
            Progress::RolledBack { ok } => {
                let progress = if ok {
                    Progress::Returned
                } else {
                    Progress::Failed
                };
                (ProbeCycle { request, progress }, Action::Halt)
            },
            Progress::Returned => (
                ProbeCycle { request, progress: Progress::Returned },
                Action::Halt,
            ),
            Progress::Failed => (ProbeCycle { request, progress: Progress::Failed }, Action::Halt),
        }
    }

    /// Where the cycle stands.
    pub fn phase(&self) -> (phase: Phase)
        ensures
            phase == self@.stage.phase(),
    {
        match &self.progress {
            Progress::Idle => Phase::Idle,
            Progress::ProbeOpen => Phase::ProbeOpen,
            Progress::ProbeFailed { .. } => Phase::ProbeOpen,
            Progress::Inspecting => Phase::Inspecting,
            Progress::Inspected { .. } => Phase::Inspecting,
            Progress::RolledBack { .. } => Phase::RolledBack,
            Progress::Returned => Phase::Returned,
            Progress::Failed => Phase::Failed,
        }
    }

    /// Whether a transaction is open on the probe session.
    pub fn transaction_open(&self) -> (open: bool)
        ensures
            open == self@.stage.transaction_open(),
    {
        match self.phase() {
            Phase::ProbeOpen => true,
            Phase::Inspecting => true,
            _ => false,
        }
    }
}

/// The state of a cycle for `request` after a run of outcomes.
pub open spec fn state_after(request: RequestView, outcomes: Seq<OutcomeView>) -> CycleView
    decreases outcomes.len(),
{
    if outcomes.len() == 0 {
        begun(request)
    } else {
        advance(state_after(request, outcomes.drop_last()), outcomes.last()).0
    }
}

/// The actions that a cycle for `request` names over a run of outcomes:
/// first to begin, then one in answer to each outcome.
pub open spec fn trace(request: RequestView, outcomes: Seq<OutcomeView>) -> Seq<ActionView>
    decreases outcomes.len(),
{
    if outcomes.len() == 0 {
        seq![ActionView::Begin]
    } else {
        trace(request, outcomes.drop_last()).push(
            advance(state_after(request, outcomes.drop_last()), outcomes.last()).1,
        )
    }
}

/// Whether `action` is the one whose outcome a stage waits for.
pub open spec fn awaits(stage: Stage, action: ActionView) -> bool {
    match stage {
        Stage::Idle => action is Begin,
        Stage::ProbeOpen => action is Execute,
        Stage::ProbeFailed { .. } => action is Rollback,
        Stage::Inspecting => action is Inspect,
        Stage::Inspected { .. } => action is Rollback,
        Stage::RolledBack { ok } => action matches ActionView::Deliver { result } && (result is Ok)
            == ok,
        Stage::Returned => action is Halt,
        Stage::Failed => action is Halt || action matches ActionView::Deliver {
            result: Err(Fault::Connection(_)),
        },
    }
}

/// Whether an outcome is a success.
pub open spec fn succeeded(outcome: OutcomeView) -> bool {
    outcome is Completed
}

/// Over any run, the cycle keeps its request, names one action per outcome
/// after the first, and stands in the stage that waits for the action it
/// named last.
pub proof fn lemma_run(request: RequestView, outcomes: Seq<OutcomeView>)
    ensures
        trace(request, outcomes).len() == outcomes.len() + 1,
        trace(request, outcomes)[0] is Begin,
        state_after(request, outcomes).request == request,
        awaits(state_after(request, outcomes).stage, trace(request, outcomes).last()),
    decreases outcomes.len(),
{
    if outcomes.len() > 0 {
        lemma_run(request, outcomes.drop_last());
    }
}

/// A run cut short names the same actions as far as it goes.
pub proof fn lemma_run_prefix(request: RequestView, outcomes: Seq<OutcomeView>, n: int)
    requires
        0 <= n <= outcomes.len(),
    ensures
        trace(request, outcomes.take(n)) == trace(request, outcomes).take(n + 1),
        n < outcomes.len() ==> trace(request, outcomes)[n + 1] == advance(
            state_after(request, outcomes.take(n)),
            outcomes[n],
        ).1,
    decreases outcomes.len(),
{
    lemma_run(request, outcomes);
    if n == outcomes.len() {
        assert(outcomes.take(n) =~= outcomes);
        assert(trace(request, outcomes).take(n + 1) =~= trace(request, outcomes));
    } else {
        let front = outcomes.drop_last();
        lemma_run(request, front);
        lemma_run_prefix(request, front, n);
        assert(front.take(n) =~= outcomes.take(n));
        assert(trace(request, front).take(n + 1) =~= trace(request, outcomes).take(n + 1));
        if n == front.len() {
            assert(front.take(n) =~= front);
        }
    }
}

/// The rollback comes before the result: an action that hands out a result
/// follows directly on a rollback. The one exception is the failure to
/// begin, after which no transaction is open: it is handed out at once, as
/// a connection failure.
pub proof fn lemma_rollback_before_delivery(
    request: RequestView,
    outcomes: Seq<OutcomeView>,
    i: int,
)
    requires
        0 <= i <= outcomes.len(),
        trace(request, outcomes)[i] is Deliver,
    ensures
        i >= 1,
        trace(request, outcomes)[i - 1] is Rollback || (i == 1 && !succeeded(outcomes[0])
            && trace(request, outcomes)[i] == (ActionView::Deliver {
            result: Err(Fault::Connection(outcomes[0]->reason)),
        })),
        !state_after(request, outcomes.take(i)).stage.transaction_open(),
{
    lemma_run(request, outcomes);
    if i >= 1 {
        let before = outcomes.take(i - 1);
        lemma_run(request, before);
        lemma_run_prefix(request, outcomes, i - 1);
        assert(trace(request, before).last() == trace(request, outcomes)[i - 1]);
        assert(outcomes.take(i).drop_last() =~= before);
        assert(outcomes.take(i).last() == outcomes[i - 1]);
        if i == 1 {
            assert(before.len() == 0);
        }
    }
}

/// Once a result has been handed out, the cycle names no further action.
pub proof fn lemma_nothing_after_delivery(
    request: RequestView,
    outcomes: Seq<OutcomeView>,
    i: int,
    j: int,
)
    requires
        0 <= i < j <= outcomes.len(),
        trace(request, outcomes)[i] is Deliver,
    ensures
        trace(request, outcomes)[j] is Halt,
    decreases j - i,
{
    lemma_run(request, outcomes);
    lemma_rollback_before_delivery(request, outcomes, i);
    let before = outcomes.take(j - 1);
    lemma_run(request, before);
    lemma_run_prefix(request, outcomes, j - 1);
    assert(trace(request, before).last() == trace(request, outcomes)[j - 1]);
    if j - 1 > i {
        lemma_nothing_after_delivery(request, outcomes, i, j - 1);
    }
}

/// A result is handed out after four outcomes at the latest.
pub proof fn lemma_delivery_within_four(request: RequestView, outcomes: Seq<OutcomeView>)
    requires
        outcomes.len() >= 4,
    ensures
        exists|i: int| 1 <= i <= 4 && trace(request, outcomes)[i] is Deliver,
{
    lemma_run(request, outcomes);
    lemma_run_prefix(request, outcomes, 0);
    lemma_run_prefix(request, outcomes, 1);
    lemma_run_prefix(request, outcomes, 2);
    lemma_run_prefix(request, outcomes, 3);
    lemma_run(request, outcomes.take(0));
    lemma_run(request, outcomes.take(1));
    lemma_run(request, outcomes.take(2));
    lemma_run(request, outcomes.take(3));
    assert(outcomes.take(1).drop_last() =~= outcomes.take(0));
    assert(outcomes.take(2).drop_last() =~= outcomes.take(1));
    assert(outcomes.take(3).drop_last() =~= outcomes.take(2));
    assert(outcomes.take(1).last() == outcomes[0]);
    assert(outcomes.take(2).last() == outcomes[1]);
    assert(outcomes.take(3).last() == outcomes[2]);
    let t = trace(request, outcomes);
    if t[1] is Deliver {
    } else if t[2] is Deliver {
    } else if t[3] is Deliver {
    } else {
        assert(t[4] is Deliver);
    }
}

/// The statement is executed and looked for exactly as the request holds
/// it, and the catalog is read under the request's own filters.
pub proof fn lemma_statement_verbatim(request: RequestView, outcomes: Seq<OutcomeView>, i: int)
    requires
        0 <= i <= outcomes.len(),
    ensures
        trace(request, outcomes)[i] matches ActionView::Execute { statement } ==> statement
            == request.query,
        trace(request, outcomes)[i] matches ActionView::Inspect { statement, schema, relation }
            ==> statement == request.query && schema == request.schema && relation
            == request.relation,
{
    lemma_run(request, outcomes);
    if i >= 1 {
        lemma_run(request, outcomes.take(i - 1));
        lemma_run_prefix(request, outcomes, i - 1);
    }
}

/// Records are handed out only by the full cycle: the transaction was
/// begun, the statement ran, the catalog was read and every mode in it
/// recognized, and the rollback succeeded. They are then the fourth action
/// after the first, and are what the catalog's rows assemble to.
pub proof fn lemma_records_only_after_full_cycle(
    request: RequestView,
    outcomes: Seq<OutcomeView>,
    i: int,
)
    requires
        0 <= i <= outcomes.len(),
        trace(request, outcomes)[i] matches ActionView::Deliver { result: Ok(_) },
    ensures
        i == 4,
        succeeded(outcomes[0]),
        succeeded(outcomes[1]),
        succeeded(outcomes[2]),
        succeeded(outcomes[3]),
        trace(request, outcomes) =~= seq![
            ActionView::Begin,
            ActionView::Execute { statement: request.query },
            ActionView::Inspect {
                statement: request.query,
                schema: request.schema,
                relation: request.relation,
            },
            ActionView::Rollback,
            ActionView::Deliver {
                result: assembled(outcomes[2]->rows, request.schema, request.relation),
            },
        ] + Seq::new((outcomes.len() - 4) as nat, |k: int| ActionView::Halt),
{
    lemma_run(request, outcomes);
    lemma_rollback_before_delivery(request, outcomes, i);
    lemma_trace_head(request, outcomes);
    let t = trace(request, outcomes);
    assert(i >= 2);
    if i == 2 {
        assert(t[1] is Rollback);
    } else if i == 3 {
        assert(t[2] is Rollback);
    } else if i > 4 {
        lemma_delivery_within_four(request, outcomes);
        let k = choose|k: int| 1 <= k <= 4 && trace(request, outcomes)[k] is Deliver;
        lemma_nothing_after_delivery(request, outcomes, k, i);
    }
    assert(i == 4);
    assert forall|k: int| 5 <= k < t.len() implies t[k] is Halt by {
        lemma_nothing_after_delivery(request, outcomes, 4, k);
    }
}

/// A statement that fails is answered with a rollback, and the failure is
/// handed out after it, with the database's own message: unless the
/// rollback fails too, which is then what is handed out.
pub proof fn lemma_failed_statement(request: RequestView, outcomes: Seq<OutcomeView>)
    requires
        outcomes.len() >= 3,
        succeeded(outcomes[0]),
        !succeeded(outcomes[1]),
    ensures
        trace(request, outcomes)[1] == (ActionView::Execute { statement: request.query }),
        trace(request, outcomes)[2] is Rollback,
        trace(request, outcomes)[3] == (ActionView::Deliver {
            result: settled(Err(Fault::StatementExecution(outcomes[1]->reason)), outcomes[2]),
        }),
{
    lemma_trace_head(request, outcomes);
}

/// The first actions of a run, each as far as the run reaches.
proof fn lemma_trace_head(request: RequestView, outcomes: Seq<OutcomeView>)
    ensures
        outcomes.len() >= 1 ==> trace(request, outcomes)[1] == advance(
            begun(request),
            outcomes[0],
        ).1,
        outcomes.len() >= 2 ==> trace(request, outcomes)[2] == advance(
            advance(begun(request), outcomes[0]).0,
            outcomes[1],
        ).1,
        outcomes.len() >= 3 ==> trace(request, outcomes)[3] == advance(
            advance(advance(begun(request), outcomes[0]).0, outcomes[1]).0,
            outcomes[2],
        ).1,
        outcomes.len() >= 4 ==> trace(request, outcomes)[4] == advance(
            advance(advance(advance(begun(request), outcomes[0]).0, outcomes[1]).0, outcomes[2]).0,
            outcomes[3],
        ).1,
{
    if outcomes.len() >= 1 {
        lemma_run_prefix(request, outcomes, 0);
        assert(outcomes.take(0).len() == 0);
    }
    if outcomes.len() >= 2 {
        lemma_run_prefix(request, outcomes, 1);
        assert(outcomes.take(1).drop_last() =~= outcomes.take(0));
        assert(outcomes.take(1).last() == outcomes[0]);
    }
    if outcomes.len() >= 3 {
        lemma_run_prefix(request, outcomes, 2);
        assert(outcomes.take(2).drop_last() =~= outcomes.take(1));
        assert(outcomes.take(2).last() == outcomes[1]);
    }
    if outcomes.len() >= 4 {
        lemma_run_prefix(request, outcomes, 3);
        assert(outcomes.take(3).drop_last() =~= outcomes.take(2));
        assert(outcomes.take(3).last() == outcomes[2]);
    }
}

} // verus!
