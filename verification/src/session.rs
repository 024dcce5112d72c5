//! The life of one query as a state machine.
//!
//! The executor decides and never waits. Whoever drives it performs each
//! action (parks the query, plans, executes) and reports what came of it as
//! the next event. A query ends exactly once: with a response to the caller or,
//! when the caller has given it up, with nothing but its completion record.
//! Ending gives the query's admission ticket up, so the permit is bound to
//! the scope in which the query is planned and executed, not to the reading
//! of the stream that it returns.
use crate::admission::AdmissionState;
use crate::catalog::DatabaseView;
use crate::context::{
    CompletionRecord, ContextView, QueryCompletedToken, QueryContext, QueryOutcome, TokenView,
};
use crate::error::{Error, ErrorView};
use crate::query_executor::QueryDatabase;
use crate::write_buffer::WriteBuffer;
use vstd::prelude::*;

verus! {

/// How far a query has come.
#[derive(Clone, Copy, Debug, PartialEq, Eq, Structural)]
pub enum QueryPhase {
    /// The query waits in line for a permit.
    AwaitingPermit,
    /// The query holds a permit and is being planned.
    Planning,
    /// The query holds a permit and its plan is being executed.
    Executing,
    /// The query has ended.
    Finished,
}

/// What the driver reports to the executor.
#[derive(Debug, PartialEq, Eq)]
pub enum QueryEvent {
    /// A release named the query's ticket.
    PermitGranted,
    /// Planning ended, with the engine's diagnostic where it failed.
    Planned(Result<(), String>),
    /// Execution produced the stream, or failed with a diagnostic.
    Executed(Result<(), String>),
    /// The caller gave the query up.
    Cancelled,
}

/// The mathematical value of an event.
pub enum EventView {
    PermitGranted,
    Planned(Result<(), Seq<char>>),
    Executed(Result<(), Seq<char>>),
    Cancelled,
}

impl View for QueryEvent {
    type V = EventView;

    open spec fn view(&self) -> EventView {
        match self {
            QueryEvent::PermitGranted => EventView::PermitGranted,
            QueryEvent::Planned(Ok(_)) => EventView::Planned(Ok(())),
            QueryEvent::Planned(Err(m)) => EventView::Planned(Err(m@)),
            QueryEvent::Executed(Ok(_)) => EventView::Executed(Ok(())),
            QueryEvent::Executed(Err(m)) => EventView::Executed(Err(m@)),
            QueryEvent::Cancelled => EventView::Cancelled,
        }
    }
}

/// What the driver has to do next.
#[derive(Debug, PartialEq, Eq)]
pub enum QueryAction {
    /// Park the query until a release names its ticket.
    Wait,
    /// Plan the query text in the query's context.
    Plan,
    /// Execute the plan.
    Execute,
    /// Give the caller `result`: the stream on `Ok`, the error else. The
    /// query has ended; `record` says how, and `admitted` is the ticket that
    /// got the permit which the query held.
    Respond { result: Result<(), Error>, record: CompletionRecord, admitted: Option<u128> },
    /// Nobody awaits the query any more. It has ended; `record` and
    /// `admitted` are as for `Respond`.
    Abandon { record: CompletionRecord, admitted: Option<u128> },
    /// The event does not belong to the query's phase; nothing changed.
    Ignore,
}

/// The mathematical value of an action.
pub enum ActionView {
    Wait,
    Plan,
    Execute,
    Respond {
        result: Result<(), ErrorView>,
        token: TokenView,
        outcome: QueryOutcome,
        admitted: Option<u128>,
    },
    Abandon { token: TokenView, outcome: QueryOutcome, admitted: Option<u128> },
    Ignore,
}

impl View for QueryAction {
    type V = ActionView;

    open spec fn view(&self) -> ActionView {
        match self {
            QueryAction::Wait => ActionView::Wait,
            QueryAction::Plan => ActionView::Plan,
            QueryAction::Execute => ActionView::Execute,
            QueryAction::Respond { result, record, admitted } => ActionView::Respond {
                result: match result {
                    Ok(_) => Ok(()),
                    Err(e) => Err(e@),
                },
                token: record.token(),
                outcome: record.outcome,
                admitted: *admitted,
            },
            QueryAction::Abandon { record, admitted } => ActionView::Abandon {
                token: record.token(),
                outcome: record.outcome,
                admitted: *admitted,
            },
            QueryAction::Ignore => ActionView::Ignore,
        }
    }
}

impl ActionView {
    /// The completion record that the action carries, if it ends the query.
    pub open spec fn completion(self) -> Option<(TokenView, QueryOutcome)> {
        match self {
            ActionView::Respond { token, outcome, .. } => Some((token, outcome)),
            ActionView::Abandon { token, outcome, .. } => Some((token, outcome)),
            _ => None,
        }
    }
}

/// The mathematical value of a query in flight.
pub struct SessionView {
    /// The query's admission ticket.
    pub ticket: u128,
    pub phase: QueryPhase,
    /// The snapshot of the database that was taken when the query started.
    pub database: DatabaseView,
    /// The execution context in which the query is planned and executed.
    pub ctx: ContextView,
    /// The query text.
    pub query: Seq<char>,
    /// The completion token, until the query ends.
    pub token: Option<TokenView>,
}

/// A state of query and admission controller, and the action that led to it.
pub struct Transition {
    pub session: SessionView,
    pub admission: AdmissionState,
    pub action: ActionView,
}

impl SessionView {
    /// A query holds its completion token exactly until it ends.
    pub open spec fn wf(self) -> bool {
        self.token is Some <==> self.phase != QueryPhase::Finished
    }

    /// The event changes nothing.
    pub open spec fn ignore(self, admission: AdmissionState) -> Transition {
        Transition { session: self, admission, action: ActionView::Ignore }
    }

    /// The query moves on to `phase`, and the driver to `action`.
    pub open spec fn advance(
        self,
        admission: AdmissionState,
        phase: QueryPhase,
        action: ActionView,
    ) -> Transition {
        Transition { session: SessionView { phase, ..self }, admission, action }
    }

    /// The query ends: its token is used up and its ticket given up. The
    /// caller gets `result`, or nothing where the query was cancelled.
    pub open spec fn end(
        self,
        admission: AdmissionState,
        result: Option<Result<(), ErrorView>>,
        outcome: QueryOutcome,
    ) -> Transition {
        Transition {
            session: SessionView { phase: QueryPhase::Finished, token: None, ..self },
            admission: admission.release(self.ticket),
            action: match result {
                Some(result) => ActionView::Respond {
                    result,
                    token: self.token->0,
                    outcome,
                    admitted: admission.release_grant(self.ticket),
                },
                None => ActionView::Abandon {
                    token: self.token->0,
                    outcome,
                    admitted: admission.release_grant(self.ticket),
                },
            },
        }
    }

    /// What an event does to a query and to the admission controller.
    ///
    /// A query that has ended ignores every event. Any other query ends when
    /// it is cancelled. A waiting query that is told of a permit starts
    /// planning if its ticket holds one, waits on if its ticket is still in
    /// line, and fails for want of admission if its ticket is neither. A
    /// planned query is executed, an executed one responds with its stream; a
    /// failure of either ends the query with the engine's diagnostic. An
    /// event that does not belong to the query's phase is ignored.
    pub open spec fn step(self, admission: AdmissionState, event: EventView) -> Transition {
        if self.phase == QueryPhase::Finished {
            self.ignore(admission)
        } else {
            match event {
                EventView::Cancelled => self.end(admission, None, QueryOutcome::Cancelled),
                EventView::PermitGranted => if self.phase != QueryPhase::AwaitingPermit {
                    self.ignore(admission)
                } else if admission.holders.contains(self.ticket) {
                    self.advance(admission, QueryPhase::Planning, ActionView::Plan)
                } else if admission.waiters.contains(self.ticket) {
                    self.advance(admission, QueryPhase::AwaitingPermit, ActionView::Wait)
                } else {
                    self.end(
                        admission,
                        Some(Err(ErrorView::AdmissionFailure)),
                        QueryOutcome::Failure,
                    )
                },
                EventView::Planned(planned) => if self.phase != QueryPhase::Planning {
                    self.ignore(admission)
                } else {
                    match planned {
                        Ok(_) => self.advance(admission, QueryPhase::Executing, ActionView::Execute),
                        Err(diagnostic) => self.end(
                            admission,
                            Some(Err(ErrorView::PlanError(diagnostic))),
                            QueryOutcome::Failure,
                        ),
                    }
                },
                EventView::Executed(executed) => if self.phase != QueryPhase::Executing {
                    self.ignore(admission)
                } else {
                    match executed {
                        Ok(_) => self.end(admission, Some(Ok(())), QueryOutcome::Success),
                        Err(diagnostic) => self.end(
                            admission,
                            Some(Err(ErrorView::ExecutionError(diagnostic))),
                            QueryOutcome::Failure,
                        ),
                    }
                },
            }
        }
    }
}

/// Where a query and the admission controller stand after a run of events,
/// and the completion records that the run left.
pub struct Run {
    pub session: SessionView,
    pub admission: AdmissionState,
    pub completions: Seq<(TokenView, QueryOutcome)>,
}

/// The run of `events`, one after the other, from the given state.
pub open spec fn run(session: SessionView, admission: AdmissionState, events: Seq<EventView>) -> Run
    decreases events.len(),
{
    if events.len() == 0 {
        Run { session, admission, completions: Seq::empty() }
    } else {
        let before = run(session, admission, events.drop_last());
        let t = before.session.step(before.admission, events.last());
        Run {
            session: t.session,
            admission: t.admission,
            completions: match t.action.completion() {
                Some(c) => before.completions.push(c),
                None => before.completions,
            },
        }
    }
}

/// Whatever events reach a query and in whatever order, the query leaves one
/// completion record when it ends and none before, the record is that of
/// the query's own token, and no further event adds another. A cancellation
/// ends the query wherever it stands, with the outcome `Cancelled` if the
/// query had not ended before.
pub proof fn lemma_one_completion_per_query(
    session: SessionView,
    admission: AdmissionState,
    events: Seq<EventView>,
)
    requires
        session.wf(),
        session.phase != QueryPhase::Finished,
    ensures
        ({
            let end = run(session, admission, events);
            &&& end.session.wf()
            &&& end.session.ticket == session.ticket
            &&& end.completions.len() <= 1
            &&& end.completions.len() == 1 <==> end.session.phase == QueryPhase::Finished
            &&& end.completions.len() == 1 ==> end.completions[0].0 == session.token->0
            &&& end.session.phase != QueryPhase::Finished ==> end.session.token == session.token
            &&& events.contains(EventView::Cancelled) ==> end.session.phase == QueryPhase::Finished
            &&& events.len() > 0 && events[0] == EventView::Cancelled ==> end.completions[0].1
                == QueryOutcome::Cancelled
        }),
    decreases events.len(),
{
    if events.len() > 0 {
        let front = events.drop_last();
        lemma_one_completion_per_query(session, admission, front);
        if events.contains(EventView::Cancelled) && events.last() != EventView::Cancelled {
            let i = choose|i: int| 0 <= i < events.len() && events[i] == EventView::Cancelled;
            assert(front[i] == EventView::Cancelled);
        }
        if front.len() > 0 {
            assert(front[0] == events[0]);
        }
    }
}

/// A query is planned and executed only while its ticket holds a permit, and
/// once it has ended its ticket neither holds a permit nor waits for one.
pub proof fn lemma_permit_spans_planning_and_execution(
    session: SessionView,
    admission: AdmissionState,
    events: Seq<EventView>,
)
    requires
        admission.wf(),
        session.phase == QueryPhase::Planning || session.phase == QueryPhase::Executing
            ==> admission.holders.contains(session.ticket),
    ensures
        ({
            let end = run(session, admission, events);
            &&& end.admission.wf()
            &&& end.admission.limit == admission.limit
            &&& end.session.phase == QueryPhase::Planning || end.session.phase
                == QueryPhase::Executing ==> end.admission.holders.contains(session.ticket)
            &&& end.session.phase == QueryPhase::Finished && session.phase != QueryPhase::Finished
                ==> !end.admission.holders.contains(session.ticket)
                && !end.admission.waiters.contains(session.ticket)
        }),
    decreases events.len(),
{
    if events.len() > 0 {
        let front = events.drop_last();
        lemma_permit_spans_planning_and_execution(session, admission, front);
        let before = run(session, admission, front);
        before.admission.lemma_release_keeps_invariant(before.session.ticket);
        lemma_ticket_is_kept(session, admission, front);
    }
}

/// A query keeps its ticket, and a query that has ended stays ended.
pub proof fn lemma_ticket_is_kept(
    session: SessionView,
    admission: AdmissionState,
    events: Seq<EventView>,
)
    ensures
        run(session, admission, events).session.ticket == session.ticket,
        session.phase == QueryPhase::Finished ==> run(session, admission, events).session
            == session && run(session, admission, events).admission == admission,
    decreases events.len(),
{
    if events.len() > 0 {
        lemma_ticket_is_kept(session, admission, events.drop_last());
    }
}

/// A query in flight: its ticket, its phase, the database as it was when the
/// query started, its context, its text and its completion token.
#[derive(Debug)]
pub struct QuerySession<W: WriteBuffer> {
    ticket: u128,
    phase: QueryPhase,
    db: QueryDatabase<W>,
    ctx: QueryContext,
    query: String,
    token: Option<QueryCompletedToken>,
}

impl<W: WriteBuffer> View for QuerySession<W> {
    type V = SessionView;

    closed spec fn view(&self) -> SessionView {
        SessionView {
            ticket: self.ticket,
            phase: self.phase,
            database: self.db.snapshot(),
            ctx: self.ctx@,
            query: self.query@,
            token: match self.token {
                Some(t) => Some(t@),
                None => None,
            },
        }
    }
}

impl<W: WriteBuffer> QuerySession<W> {
    /// Every value of this type keeps the invariant of its view.
    #[verifier::type_invariant]
    pub open spec fn inv(self) -> bool {
        self@.wf()
    }

    /// The database as it was opened when the query started: its snapshot,
    /// its engine options and its store.
    pub closed spec fn opened(&self) -> QueryDatabase<W> {
        self.db
    }

    /// A query that has just been given `ticket`: it plans at once if the
    /// ticket holds a permit, and waits else.
    pub(crate) fn start(
        ticket: u128,
        admitted: bool,
        db: QueryDatabase<W>,
        ctx: QueryContext,
        query: String,
        token: QueryCompletedToken,
    ) -> (r: QuerySession<W>)
        ensures
            r@ == (SessionView {
                ticket,
                phase: if admitted {
                    QueryPhase::Planning
                } else {
                    QueryPhase::AwaitingPermit
                },
                database: db.snapshot(),
                ctx: ctx@,
                query: query@,
                token: Some(token@),
            }),
            r.opened() == db,
    {
        let phase = if admitted {
            QueryPhase::Planning
        } else {
            QueryPhase::AwaitingPermit
        };
        QuerySession { ticket, phase, db, ctx, query, token: Some(token) }
    }

    /// The query's admission ticket.
    pub fn ticket(&self) -> (r: u128)
        ensures
            r == self@.ticket,
    {
        self.ticket
    }

    /// How far the query has come.
    pub fn phase(&self) -> (r: QueryPhase)
        ensures
            r == self@.phase,
            self@.wf(),
    {
        proof {
            use_type_invariant(self);
        }
        self.phase
    }

    /// The database as it was when the query started. Later changes of the
    /// catalog do not show in it.
    pub fn database(&self) -> (r: &QueryDatabase<W>)
        ensures
            *r == self.opened(),
            r.snapshot() == self@.database,
    {
        &self.db
    }

    /// The context in which the query is planned and executed.
    pub fn context(&self) -> (r: &QueryContext)
        ensures
            r@ == self@.ctx,
    {
        &self.ctx
    }

    /// The query text.
    pub fn query(&self) -> (r: &str)
        ensures
            r@ == self@.query,
    {
        self.query.as_str()
    }

    /// The same query in another phase short of the end.
    pub(crate) fn moved_to(self, phase: QueryPhase) -> (r: QuerySession<W>)
        requires
            phase != QueryPhase::Finished,
            self@.phase != QueryPhase::Finished,
        ensures
            r@ == (SessionView { phase, ..self@ }),
            r.opened() == self.opened(),
    {
        proof {
            use_type_invariant(&self);
        }
        let QuerySession { ticket, phase: _, db, ctx, query, token } = self;
        QuerySession { ticket, phase, db, ctx, query, token }
    }

    /// Ends the query: uses its token up to record `outcome`.
    pub(crate) fn finished(self, outcome: QueryOutcome) -> (r: (QuerySession<W>, CompletionRecord))
        requires
            self@.phase != QueryPhase::Finished,
        ensures
            r.0@ == (SessionView { phase: QueryPhase::Finished, token: None, ..self@ }),
            r.0.opened() == self.opened(),
            r.1.token() == self@.token->0,
            r.1.outcome == outcome,
    {
        proof {
            use_type_invariant(&self);
        }
        let QuerySession { ticket, phase: _, db, ctx, query, token } = self;
        let record = token.unwrap().complete(outcome);
        (QuerySession { ticket, phase: QueryPhase::Finished, db, ctx, query, token: None }, record)
    }
}

} // verus!
