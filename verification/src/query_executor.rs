//! The query executor: from a database name and a query text to the steps
//! that the planning engine has to take, under admission control.
use crate::admission::{Admission, AdmissionController, AdmissionState};
use crate::catalog::{arc_share, Catalog, DatabaseSchema, DatabaseView};
use crate::chunk::QueryChunk;
use crate::context::{
    option_keys, options_view, ConfigOption, ContextView, EngineConfig, QueryCompletedToken,
    QueryContext, QueryOutcome, RequestLogContext, SpanContext, TokenView, DEFAULT_SCHEMA,
};
use crate::engine::clone_filters;
use crate::error::{Error, ErrorView};
use crate::schema::{SchemaView, TableSchema};
use crate::session::{
    ActionView, QueryAction, QueryEvent, QueryPhase, QuerySession, SessionView,
};
use crate::text::{lemma_same_names, lex_sorted, names_view, sorted_names, str_eq};
use crate::write_buffer::{projection_seq, StorageError, WriteBuffer};
use datafusion::execution::context::SessionState;
use datafusion::prelude::Expr;
use std::sync::Arc;
use vstd::prelude::*;

verus! {

/// What kind of table a scan reads.
#[derive(Clone, Copy, Debug, PartialEq, Eq, Structural)]
pub enum TableType {
    /// An ordinary table that holds data.
    Base,
    /// A view over other tables.
    View,
    /// A table that lasts as long as its session.
    Temporary,
}

/// Whether every chunk's own schema agrees with the schema of the table.
pub open spec fn chunks_fit<C: QueryChunk>(chunks: Seq<C>, schema: SchemaView) -> bool {
    forall|i: int| 0 <= i < chunks.len() ==> (#[trigger] chunks[i]).summary().schema.agrees_with(schema)
}

/// What the planning engine needs to read a table: the table's name and
/// schema, the chunks to read, and the projection, filters and row limit that
/// the scan was asked with.
#[derive(Debug)]
pub struct ScanPlan<C> {
    pub table_name: String,
    pub schema: TableSchema,
    pub chunks: Vec<C>,
    pub projection: Option<Vec<usize>>,
    pub filters: Vec<Expr>,
    pub limit: Option<usize>,
}

/// The column positions of an optional projection.
pub open spec fn projection_view(projection: Option<Vec<usize>>) -> Option<Seq<usize>> {
    match projection {
        Some(p) => Some(p@),
        None => None,
    }
}

/// A copy of an optional projection.
fn copy_projection(projection: Option<&Vec<usize>>) -> (r: Option<Vec<usize>>)
    ensures
        projection_view(r) == match projection {
            Some(p) => Some(p@),
            None => None,
        },
{
    match projection {
        None => None,
        Some(p) => {
            let mut out: Vec<usize> = Vec::new();
            let mut i: usize = 0;
            while i < p.len()
                invariant
                    i <= p.len(),
                    out@ == p@.take(i as int),
                decreases p.len() - i,
            {
                out.push(p[i]);
                assert(p@.take(i + 1) =~= p@.take(i as int).push(p@[i as int]));
                i += 1;
            }
            assert(p@.take(p.len() as int) =~= p@);
            Some(out)
        },
    }
}

/// The mathematical value of a table as a scan sees it.
pub struct TableView {
    pub database: Seq<char>,
    pub name: Seq<char>,
    pub schema: SchemaView,
}

/// One table of a database, ready to be scanned.
#[derive(Debug)]
pub struct QueryTable<W: WriteBuffer> {
    db_schema: Arc<DatabaseSchema>,
    name: String,
    schema: TableSchema,
    write_buffer: Arc<W>,
}

impl<W: WriteBuffer> View for QueryTable<W> {
    type V = TableView;

    closed spec fn view(&self) -> TableView {
        TableView { database: self.db_schema@.name, name: self.name@, schema: self.schema@ }
    }
}

impl<W: WriteBuffer> QueryTable<W> {
    /// The store that holds the table's data.
    pub closed spec fn store(&self) -> W {
        *self.write_buffer
    }

    /// Asks the store for the chunks of this table: what comes back is the
    /// store's answer to a request that names this table and its database
    /// and carries filters, projection and session state as they were given.
    /// The row limit is not handed on.
    fn chunks(
        &self,
        ctx: &SessionState,
        projection: Option<&Vec<usize>>,
        filters: &[Expr],
        _limit: Option<usize>,
    ) -> (r: Result<Vec<W::Chunk>, StorageError>)
        ensures
            self.store().answers(
                self@.database,
                self@.name,
                filters@,
                projection_seq(projection),
                *ctx,
                r,
            ),
    {
        self.write_buffer.get_table_chunks(
            self.db_schema.name(),
            self.name.as_str(),
            filters,
            projection,
            ctx,
        )
    }

    /// The table's name.
    pub fn name(&self) -> (r: &str)
        ensures
            r@ == self@.name,
    {
        self.name.as_str()
    }

    /// The table's schema.
    pub fn schema(&self) -> (r: &TableSchema)
        ensures
            r@ == self@.schema,
    {
        &self.schema
    }

    /// The kind of the table: always a base table.
    pub fn table_type(&self) -> (r: TableType)
        ensures
            r == TableType::Base,
    {
        TableType::Base
    }

    /// Makes the scan plan from what the store answered. An error of the
    /// store becomes an execution error with the store's message. Chunks are
    /// taken over all and in order, unless one of them gives a column of the
    /// table another type than the table does: a sound catalog has no such
    /// chunk, so that is a violated invariant and no plan is made.
    pub fn plan_scan(
        &self,
        chunks: Result<Vec<W::Chunk>, StorageError>,
        projection: Option<&Vec<usize>>,
        filters: Vec<Expr>,
        limit: Option<usize>,
    ) -> (r: Result<ScanPlan<W::Chunk>, Error>)
        ensures
            match chunks {
                Err(e) => r is Err && r->Err_0@ == ErrorView::ExecutionError(e.message@),
                Ok(cs) => if chunks_fit(cs@, self@.schema) {
                    &&& r matches Ok(plan)
                    &&& plan.table_name@ == self@.name
                    &&& plan.schema@ == self@.schema
                    &&& plan.chunks == cs
                    &&& projection_view(plan.projection) == match projection {
                        Some(p) => Some(p@),
                        None => None,
                    }
                    &&& plan.filters == filters
                    &&& plan.limit == limit
                } else {
                    r is Err && r->Err_0@ == (ErrorView::CatalogInvariantViolation {
                        table: self@.name,
                    })
                },
            },
    {
        match chunks {
            Err(e) => Err(Error::ExecutionError(e.message)),
            Ok(cs) => {
                let mut i: usize = 0;
                while i < cs.len()
                    invariant
                        i <= cs.len(),
                        chunks == Result::<Vec<W::Chunk>, StorageError>::Ok(cs),
                        forall|j: int|
                            0 <= j < i ==> (#[trigger] cs@[j]).summary().schema.agrees_with(
                                self.schema@,
                            ),
                    decreases cs.len() - i,
                {
                    if !cs[i].schema().is_compatible_with(&self.schema) {
                        assert(!cs@[i as int].summary().schema.agrees_with(self@.schema));
                        return Err(
                            Error::CatalogInvariantViolation { table: self.name.clone() },
                        );
                    }
                    i += 1;
                }
                Ok(
                    ScanPlan {
                        table_name: self.name.clone(),
                        schema: self.schema.clone(),
                        chunks: cs,
                        projection: copy_projection(projection),
                        filters,
                        limit,
                    },
                )
            },
        }
    }

    /// Scans the table: asks the store for the chunks that may hold rows
    /// passing `filters`, and makes the scan plan from them. Whatever the
    /// store answers, a plan that comes back is for this table, holds only
    /// chunks that fit its schema, and carries projection, filters and limit
    /// as they were given. The store is asked once, for this table of this
    /// database with the given filters, projection and session state, and
    /// its answer decides the result: chunks that all fit make the plan, in
    /// their order; a chunk that does not fit violates the catalog's
    /// invariant; an error of the store is an execution error with the
    /// store's message.
    pub fn scan(
        &self,
        ctx: &SessionState,
        projection: Option<&Vec<usize>>,
        filters: &[Expr],
        limit: Option<usize>,
    ) -> (r: Result<ScanPlan<W::Chunk>, Error>)
        ensures
            match r {
                Ok(plan) => {
                    &&& plan.table_name@ == self@.name
                    &&& plan.schema@ == self@.schema
                    &&& chunks_fit(plan.chunks@, self@.schema)
                    &&& projection_view(plan.projection) == match projection {
                        Some(p) => Some(p@),
                        None => None,
                    }
                    &&& plan.filters@ == filters@
                    &&& plan.limit == limit
                },
                Err(e) => e@ is ExecutionError || e@ == (ErrorView::CatalogInvariantViolation {
                    table: self@.name,
                }),
            },
            exists|answer: Result<Vec<W::Chunk>, StorageError>|
                {
                    &&& #[trigger] self.store().answers(
                        self@.database,
                        self@.name,
                        filters@,
                        projection_seq(projection),
                        *ctx,
                        answer,
                    )
                    &&& match answer {
                        Ok(cs) => if chunks_fit(cs@, self@.schema) {
                            r matches Ok(plan) && plan.chunks == cs
                        } else {
                            r is Err && r->Err_0@ == (ErrorView::CatalogInvariantViolation {
                                table: self@.name,
                            })
                        },
                        Err(e) => r is Err && r->Err_0@ == ErrorView::ExecutionError(e.message@),
                    }
                },
    {
        let copied = clone_filters(filters);
        let answer = self.chunks(ctx, projection, copied.as_slice(), limit);
        let ghost given = answer;
        let r = self.plan_scan(answer, projection, copied, limit);
        assert(self.store().answers(
            self@.database,
            self@.name,
            filters@,
            projection_seq(projection),
            *ctx,
            given,
        ));
        r
    }
}

/// One database as the planning engine sees it: a catalog with a single
/// schema, which holds the tables of the snapshot taken when the database
/// was opened.
#[derive(Debug)]
pub struct QueryDatabase<W: WriteBuffer> {
    db_schema: Arc<DatabaseSchema>,
    write_buffer: Arc<W>,
    datafusion_config: Arc<EngineConfig>,
}

impl<W: WriteBuffer> Clone for QueryDatabase<W> {
    fn clone(&self) -> (r: Self)
        ensures
            r == *self,
    {
        QueryDatabase {
            db_schema: arc_share(&self.db_schema),
            write_buffer: arc_share(&self.write_buffer),
            datafusion_config: arc_share(&self.datafusion_config),
        }
    }
}

impl<W: WriteBuffer> QueryDatabase<W> {
    /// The snapshot of the database that this value serves.
    pub closed spec fn snapshot(&self) -> DatabaseView {
        self.db_schema@
    }

    /// The engine options that every query against this database runs with.
    pub closed spec fn config(&self) -> Seq<(Seq<char>, Seq<char>)> {
        self.datafusion_config@
    }

    /// The store that holds the data.
    pub closed spec fn store(&self) -> W {
        *self.write_buffer
    }

    /// A database over the given snapshot, store and engine options.
    pub fn new(
        db_schema: Arc<DatabaseSchema>,
        write_buffer: Arc<W>,
        datafusion_config: Arc<EngineConfig>,
    ) -> (r: Self)
        ensures
            r.snapshot() == db_schema@,
            r.config() == datafusion_config@,
            r.store() == *write_buffer,
    {
        QueryDatabase { db_schema, write_buffer, datafusion_config }
    }

    /// How long rows are kept, in nanoseconds: no retention is applied.
    pub fn retention_time_ns(&self) -> (r: Option<i64>)
        ensures
            r is None,
    {
        None
    }

    /// Makes the token that records how a query of kind `query_type` with
    /// text `query_text` ends. The token carries the trace id of `span_ctx`.
    pub fn record_query(
        &self,
        span_ctx: Option<&SpanContext>,
        query_type: &str,
        query_text: String,
    ) -> (r: QueryCompletedToken)
        ensures
            r@ == (TokenView {
                trace_id: match span_ctx {
                    Some(c) => Some(c.trace_id),
                    None => None,
                },
                query_type: query_type@,
                query_text: query_text@,
            }),
    {
        let trace_id = match span_ctx {
            Some(c) => Some(c.trace_id),
            None => None,
        };
        QueryCompletedToken::new(trace_id, query_type, query_text)
    }

    /// The execution context of a query against this database: bound to the
    /// database, with the database's engine options, each key once, traced
    /// under `span_ctx`.
    pub fn new_query_context(&self, span_ctx: Option<SpanContext>) -> (r: QueryContext)
        ensures
            r@ == (ContextView {
                database: self.snapshot().name,
                options: self.config(),
                span_ctx,
            }),
            option_keys(r@.options).no_duplicates(),
    {
        let configured = self.datafusion_config.options();
        let mut options: Vec<ConfigOption> = Vec::new();
        let mut i: usize = 0;
        while i < configured.len()
            invariant
                i <= configured.len(),
                options.len() == i,
                forall|j: int| 0 <= j < i ==> options[j]@ == configured[j]@,
            decreases configured.len() - i,
        {
            let o = &configured[i];
            options.push(ConfigOption { key: o.key.clone(), value: o.value.clone() });
            i += 1;
        }
        assert(options_view(options@) =~= self.config());
        QueryContext { database: self.db_schema.name().to_owned(), options, span_ctx }
    }

    /// The names of the schemas of this catalog: the one default schema.
    pub fn schema_names(&self) -> (r: Vec<String>)
        ensures
            names_view(r@) == seq![DEFAULT_SCHEMA@],
    {
        let mut names: Vec<String> = Vec::new();
        names.push(DEFAULT_SCHEMA.to_owned());
        assert(names_view(names@) =~= seq![DEFAULT_SCHEMA@]);
        names
    }

    /// The schema called `name`: this database itself under the default
    /// schema's name, nothing under any other.
    pub fn schema(&self, name: &str) -> (r: Option<QueryDatabase<W>>)
        ensures
            match r {
                Some(db) => name@ == DEFAULT_SCHEMA@ && db == *self,
                None => name@ != DEFAULT_SCHEMA@,
            },
    {
        if str_eq(name, DEFAULT_SCHEMA) {
            Some(self.clone())
        } else {
            None
        }
    }

    /// The names of the tables of the snapshot, each once, in ascending
    /// lexicographic order.
    pub fn table_names(&self) -> (r: Vec<String>)
        ensures
            lex_sorted(names_view(r@)),
            names_view(r@).no_duplicates(),
            names_view(r@).to_set() == self.snapshot().tables.dom(),
    {
        let listed = self.db_schema.table_names();
        let names = sorted_names(&listed);
        proof {
            lemma_same_names(names_view(names@), names_view(listed@));
        }
        names
    }

    /// The table called `name`, ready to be scanned, with the schema that the
    /// snapshot lists for it; `None` where the snapshot lists no such table.
    /// A table that is listed without a schema violates the catalog's
    /// invariant.
    pub fn table(&self, name: &str) -> (r: Result<Option<QueryTable<W>>, Error>)
        ensures
            match r {
                Ok(Some(t)) => {
                    &&& self.snapshot().tables.contains_key(name@)
                    &&& self.snapshot().tables[name@] == Some(t@.schema)
                    &&& t@.name == name@
                    &&& t@.database == self.snapshot().name
                    &&& t.store() == self.store()
                },
                Ok(None) => !self.snapshot().tables.contains_key(name@),
                Err(e) => {
                    &&& self.snapshot().tables.contains_key(name@)
                    &&& self.snapshot().tables[name@] is None
                    &&& e@ == (ErrorView::CatalogInvariantViolation { table: name@ })
                },
            },
    {
        match self.db_schema.table_definition(name) {
            None => Ok(None),
            Some(definition) => match &definition.schema {
                None => Err(Error::CatalogInvariantViolation { table: name.to_owned() }),
                Some(schema) => Ok(
                    Some(
                        QueryTable {
                            db_schema: arc_share(&self.db_schema),
                            name: name.to_owned(),
                            schema: schema.clone(),
                            write_buffer: arc_share(&self.write_buffer),
                        },
                    ),
                ),
            },
        }
    }

    /// Whether the snapshot lists a table called `name`.
    pub fn table_exist(&self, name: &str) -> (r: bool)
        ensures
            r == self.snapshot().tables.contains_key(name@),
    {
        self.db_schema.table_exists(name)
    }
}

/// The entry point of the query layer: resolves database names against the
/// catalog and admits queries under the limit on concurrent executions.
#[derive(Debug)]
pub struct QueryExecutorImpl<W: WriteBuffer> {
    catalog: Arc<Catalog>,
    write_buffer: Arc<W>,
    datafusion_config: Arc<EngineConfig>,
    query_execution_semaphore: AdmissionController,
}

impl<W: WriteBuffer> QueryExecutorImpl<W> {
    /// The databases that the executor serves.
    pub closed spec fn catalog(&self) -> Map<Seq<char>, DatabaseView> {
        self.catalog@
    }

    /// The engine options that every query runs with.
    pub closed spec fn config(&self) -> Seq<(Seq<char>, Seq<char>)> {
        self.datafusion_config@
    }

    /// The store that holds the data.
    pub closed spec fn store(&self) -> W {
        *self.write_buffer
    }

    /// The state of the admission controller.
    pub closed spec fn admission(&self) -> AdmissionState {
        self.query_execution_semaphore@
    }

    /// An executor over the given catalog, store and engine options that
    /// lets `concurrent_query_limit` queries run at once. Nobody runs or
    /// waits yet.
    pub fn new(
        catalog: Arc<Catalog>,
        write_buffer: Arc<W>,
        datafusion_config: Arc<EngineConfig>,
        concurrent_query_limit: usize,
    ) -> (r: Self)
        ensures
            r.catalog() == catalog@,
            r.config() == datafusion_config@,
            r.store() == *write_buffer,
            r.admission() == AdmissionState::fresh(concurrent_query_limit as nat),
    {
        QueryExecutorImpl {
            catalog,
            write_buffer,
            datafusion_config,
            query_execution_semaphore: AdmissionController::new(concurrent_query_limit),
        }
    }

    /// Puts a new version of the catalog in place of the one served so far.
    /// Queries that start from now on see it; databases that were opened
    /// before keep their snapshots.
    pub fn set_catalog(&mut self, catalog: Arc<Catalog>)
        ensures
            final(self).catalog() == catalog@,
            final(self).config() == old(self).config(),
            final(self).store() == old(self).store(),
            final(self).admission() == old(self).admission(),
    {
        self.catalog = catalog;
    }

    /// Opens the database called `name`: a snapshot of its schema as the
    /// catalog holds it now, or `None` where the catalog holds no such
    /// database.
    pub fn db(&self, name: &str, _include_debug_info_tables: bool) -> (r: Option<QueryDatabase<W>>)
        ensures
            match r {
                Some(db) => {
                    &&& self.catalog().contains_key(name@)
                    &&& db.snapshot() == self.catalog()[name@]
                    &&& db.snapshot().name == name@
                    &&& db.config() == self.config()
                    &&& db.store() == self.store()
                },
                None => !self.catalog().contains_key(name@),
            },
    {
        match self.catalog.db_schema(name) {
            Some(db_schema) => Some(
                QueryDatabase {
                    db_schema,
                    write_buffer: arc_share(&self.write_buffer),
                    datafusion_config: arc_share(&self.datafusion_config),
                },
            ),
            None => None,
        }
    }

    /// Asks the admission controller for a permit.
    pub fn acquire_semaphore(&mut self) -> (r: Admission)
        ensures
            final(self).admission() == old(self).admission().request(),
            r == old(self).admission().request_outcome(),
            final(self).admission().wf(),
            final(self).catalog() == old(self).catalog(),
            final(self).config() == old(self).config(),
            final(self).store() == old(self).store(),
    {
        self.query_execution_semaphore.request()
    }

    /// Gives the permit or the place in line of `ticket` back. Returns the
    /// ticket that now holds the permit, if one waited.
    pub fn release_semaphore(&mut self, ticket: u128) -> (r: Option<u128>)
        ensures
            final(self).admission() == old(self).admission().release(ticket),
            r == old(self).admission().release_grant(ticket),
            final(self).admission().wf(),
            final(self).catalog() == old(self).catalog(),
            final(self).config() == old(self).config(),
            final(self).store() == old(self).store(),
    {
        self.query_execution_semaphore.release(ticket)
    }

    /// Closes the admission controller: every query that starts from now on
    /// fails for want of admission. Returns the tickets that waited; told of a
    /// permit, their queries fail in the same way. Queries that run go on.
    pub fn shutdown(&mut self) -> (r: Vec<u128>)
        ensures
            final(self).admission() == old(self).admission().close(),
            r@ == old(self).admission().waiters,
            final(self).admission().wf(),
            final(self).catalog() == old(self).catalog(),
            final(self).config() == old(self).config(),
            final(self).store() == old(self).store(),
    {
        self.query_execution_semaphore.close()
    }

    /// How many queries hold a permit, and how many wait for one.
    pub fn semaphore_metrics(&self) -> (r: (usize, usize))
        ensures
            r.0 == self.admission().holders.len(),
            r.1 == self.admission().waiters.len(),
            r.0 <= self.admission().limit,
    {
        (self.query_execution_semaphore.active_permits(), self.query_execution_semaphore.waiting())
    }

    /// Starts the query `q` against the database called `database`.
    ///
    /// The name is resolved first: for a database that the catalog does not
    /// hold the query is refused and nothing is asked of the admission
    /// controller. Else the query asks for a permit. With its ticket it gets
    /// the snapshot of the database as the catalog holds it now, an execution
    /// context bound to the database and traced under `span_ctx`, and a
    /// completion token of kind `sql` that carries the trace id of
    /// `external_span_ctx`; all exist before planning begins. A
    /// query whose ticket holds a permit is to be planned at once, one whose
    /// ticket is in line is to wait.
    pub fn query(
        &mut self,
        database: &str,
        q: &str,
        span_ctx: Option<SpanContext>,
        external_span_ctx: Option<RequestLogContext>,
    ) -> (r: Result<(QuerySession<W>, QueryAction), Error>)
        ensures
            final(self).catalog() == old(self).catalog(),
            final(self).config() == old(self).config(),
            final(self).store() == old(self).store(),
            final(self).admission().wf(),
            if !old(self).catalog().contains_key(database@) {
                &&& r is Err
                &&& r->Err_0@ == (ErrorView::DatabaseNotFound { db_name: database@ })
                &&& final(self).admission() == old(self).admission()
            } else {
                &&& final(self).admission() == old(self).admission().request()
                &&& match old(self).admission().request_outcome() {
                    Admission::Refused => r is Err && r->Err_0@ == ErrorView::AdmissionFailure,
                    Admission::Granted(ticket) => {
                        &&& r matches Ok(started)
                        &&& started.0@ == Self::started(
                            ticket,
                            QueryPhase::Planning,
                            old(self).catalog()[database@],
                            old(self).config(),
                            q@,
                            span_ctx,
                            external_span_ctx,
                        )
                        &&& started.0.opened().store() == old(self).store()
                        &&& started.0.opened().config() == old(self).config()
                        &&& started.1@ == ActionView::Plan
                    },
                    Admission::Queued(ticket) => {
                        &&& r matches Ok(started)
                        &&& started.0@ == Self::started(
                            ticket,
                            QueryPhase::AwaitingPermit,
                            old(self).catalog()[database@],
                            old(self).config(),
                            q@,
                            span_ctx,
                            external_span_ctx,
                        )
                        &&& started.0.opened().store() == old(self).store()
                        &&& started.0.opened().config() == old(self).config()
                        &&& started.1@ == ActionView::Wait
                    },
                }
            },
    {
        let db = match self.db(database, false) {
            Some(db) => db,
            None => {
                proof {
                    use_type_invariant(&self.query_execution_semaphore);
                }
                return Err(Error::DatabaseNotFound { db_name: database.to_owned() });
            },
        };
        let (ticket, admitted) = match self.query_execution_semaphore.request() {
            Admission::Refused => {
                return Err(Error::AdmissionFailure);
            },
            Admission::Granted(ticket) => (ticket, true),
            Admission::Queued(ticket) => (ticket, false),
        };
        let ctx = db.new_query_context(span_ctx);
        let token = db.record_query(
            match &external_span_ctx {
                Some(c) => Some(c.ctx()),
                None => None,
            },
            "sql",
            q.to_owned(),
        );
        let session = QuerySession::start(ticket, admitted, db, ctx, q.to_owned(), token);
        let action = if admitted {
            QueryAction::Plan
        } else {
            QueryAction::Wait
        };
        Ok((session, action))
    }

    /// The value of a query that has just started against the snapshot
    /// `database`.
    pub open spec fn started(
        ticket: u128,
        phase: QueryPhase,
        database: DatabaseView,
        options: Seq<(Seq<char>, Seq<char>)>,
        q: Seq<char>,
        span_ctx: Option<SpanContext>,
        external_span_ctx: Option<RequestLogContext>,
    ) -> SessionView {
        SessionView {
            ticket,
            phase,
            database,
            ctx: ContextView { database: database.name, options, span_ctx },
            query: q,
            token: Some(
                TokenView {
                    trace_id: match external_span_ctx {
                        Some(c) => Some(c.ctx.trace_id),
                        None => None,
                    },
                    query_type: "sql"@,
                    query_text: q,
                },
            ),
        }
    }

    /// Takes the query one event further and says what to do next: the
    /// query and the admission controller change as the state machine of
    /// queries has it.
    pub fn step(&mut self, session: QuerySession<W>, event: QueryEvent) -> (r: (
        QuerySession<W>,
        QueryAction,
    ))
        ensures
            r.0@ == session@.step(old(self).admission(), event@).session,
            final(self).admission() == session@.step(old(self).admission(), event@).admission,
            r.1@ == session@.step(old(self).admission(), event@).action,
            r.0.opened() == session.opened(),
            final(self).admission().wf(),
            final(self).catalog() == old(self).catalog(),
            final(self).config() == old(self).config(),
            final(self).store() == old(self).store(),
    {
        proof {
            use_type_invariant(&self.query_execution_semaphore);
        }
        let phase = session.phase();
        match phase {
            QueryPhase::Finished => {
                return (session, QueryAction::Ignore);
            },
            _ => {},
        }
        match event {
            QueryEvent::Cancelled => self.end(session, None, QueryOutcome::Cancelled),
            QueryEvent::PermitGranted => match phase {
                QueryPhase::AwaitingPermit => {
                    if self.query_execution_semaphore.holds(session.ticket()) {
                        (session.moved_to(QueryPhase::Planning), QueryAction::Plan)
                    } else if self.query_execution_semaphore.is_waiting(session.ticket()) {
                        (session.moved_to(QueryPhase::AwaitingPermit), QueryAction::Wait)
                    } else {
                        self.end(session, Some(Err(Error::AdmissionFailure)), QueryOutcome::Failure)
                    }
                },
                _ => (session, QueryAction::Ignore),
            },
            QueryEvent::Planned(planned) => match phase {
                QueryPhase::Planning => match planned {
                    Ok(_) => (session.moved_to(QueryPhase::Executing), QueryAction::Execute),
                    Err(diagnostic) => self.end(
                        session,
                        Some(Err(Error::PlanError(diagnostic))),
                        QueryOutcome::Failure,
                    ),
                },
                _ => (session, QueryAction::Ignore),
            },
            QueryEvent::Executed(executed) => match phase {
                QueryPhase::Executing => match executed {
                    Ok(_) => self.end(session, Some(Ok(())), QueryOutcome::Success),
                    Err(diagnostic) => self.end(
                        session,
                        Some(Err(Error::ExecutionError(diagnostic))),
                        QueryOutcome::Failure,
                    ),
                },
                _ => (session, QueryAction::Ignore),
            },
        }
    }

    /// Ends a query: records `outcome`, gives the query's ticket up, and
    /// responds with `result`, or abandons the query where there is none.
    fn end(
        &mut self,
        session: QuerySession<W>,
        result: Option<Result<(), Error>>,
        outcome: QueryOutcome,
    ) -> (r: (QuerySession<W>, QueryAction))
        requires
            session@.phase != QueryPhase::Finished,
        ensures
            r.0@ == session@.end(old(self).admission(), Self::result_view(result), outcome).session,
            final(self).admission() == session@.end(
                old(self).admission(),
                Self::result_view(result),
                outcome,
            ).admission,
            r.1@ == session@.end(old(self).admission(), Self::result_view(result), outcome).action,
            r.0.opened() == session.opened(),
            final(self).admission().wf(),
            final(self).catalog() == old(self).catalog(),
            final(self).config() == old(self).config(),
            final(self).store() == old(self).store(),
    {
        let ticket = session.ticket();
        let (session, record) = session.finished(outcome);
        let admitted = self.query_execution_semaphore.release(ticket);
        let action = match result {
            Some(result) => QueryAction::Respond { result, record, admitted },
            None => QueryAction::Abandon { record, admitted },
        };
        (session, action)
    }

    /// The mathematical value of a response.
    pub open spec fn result_view(result: Option<Result<(), Error>>) -> Option<
        Result<(), ErrorView>,
    > {
        match result {
            Some(Ok(_)) => Some(Ok(())),
            Some(Err(e)) => Some(Err(e@)),
            None => None,
        }
    }
}

} // verus!
