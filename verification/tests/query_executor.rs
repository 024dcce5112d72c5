use influxdb3_server::catalog::{Catalog, DatabaseSchema, TableDefinition};
use influxdb3_server::chunk::{
    ChunkId, ChunkOrder, ParquetChunk, ParquetExecInput, PartitionId, QueryChunk,
};
use datafusion::execution::context::SessionState;
use datafusion::prelude::{col, lit, Expr, SessionContext};
use influxdb3_server::context::{
    ConfigOption, EngineConfig, QueryOutcome, RequestLogContext, SpanContext, DEFAULT_CATALOG,
    DEFAULT_SCHEMA,
};
use influxdb3_server::query_executor::{QueryDatabase, QueryExecutorImpl, TableType};
use influxdb3_server::schema::{Column, ColumnType, TableSchema};
use influxdb3_server::session::{QueryAction, QueryEvent, QueryPhase};
use influxdb3_server::write_buffer::StorageError;
use influxdb3_server::{Error, WriteBuffer};
use std::cell::RefCell;
use std::sync::Arc;

/// What a store was asked for.
#[derive(Debug, PartialEq)]
struct Asked {
    database: String,
    table: String,
    filters: Vec<Expr>,
    projection: Option<Vec<usize>>,
    session_id: String,
}

/// A store that answers every request with the same chunks or the same error.
struct Store {
    chunks: Vec<(u128, i64, Vec<(&'static str, ColumnType)>)>,
    failure: Option<&'static str>,
    asked: RefCell<Vec<Asked>>,
}

impl Store {
    fn empty() -> Store {
        Store { chunks: Vec::new(), failure: None, asked: RefCell::new(Vec::new()) }
    }

    fn with(chunks: Vec<(u128, i64, Vec<(&'static str, ColumnType)>)>) -> Store {
        Store { chunks, failure: None, asked: RefCell::new(Vec::new()) }
    }

    fn failing(message: &'static str) -> Store {
        Store { chunks: Vec::new(), failure: Some(message), asked: RefCell::new(Vec::new()) }
    }
}

fn columns(of: &[(&'static str, ColumnType)]) -> Vec<Column> {
    of.iter().map(|(n, t)| Column { name: n.to_string(), column_type: *t }).collect()
}

impl WriteBuffer for Store {
    type Chunk = ParquetChunk;

    fn get_table_chunks(
        &self,
        database_name: &str,
        table_name: &str,
        filters: &[Expr],
        projection: Option<&Vec<usize>>,
        ctx: &SessionState,
    ) -> Result<Vec<ParquetChunk>, StorageError> {
        self.asked.borrow_mut().push(Asked {
            database: database_name.to_string(),
            table: table_name.to_string(),
            filters: filters.to_vec(),
            projection: projection.cloned(),
            session_id: ctx.session_id().to_string(),
        });
        if let Some(message) = self.failure {
            return Err(StorageError { message: message.to_string() });
        }
        Ok(self
            .chunks
            .iter()
            .map(|(id, order, cols)| {
                ParquetChunk::new(
                    ChunkId(*id),
                    PartitionId(1),
                    ChunkOrder(*order),
                    TableSchema::new(columns(cols), None).unwrap(),
                    None,
                    None,
                    ParquetExecInput { path: format!("{id}.parquet"), offset: 0, length: 100 },
                )
            })
            .collect())
    }
}

const CPU: [(&str, ColumnType); 3] = [
    ("time", ColumnType::Timestamp),
    ("host", ColumnType::String),
    ("value", ColumnType::Float),
];

fn cpu_schema() -> TableSchema {
    TableSchema::new(columns(&CPU), Some(vec!["time".to_string()])).unwrap()
}

fn telemetry(tables: &[&str]) -> DatabaseSchema {
    let mut db = DatabaseSchema::new("telemetry".to_string());
    for t in tables {
        db.insert_table(TableDefinition { name: t.to_string(), schema: Some(cpu_schema()) });
    }
    db
}

fn catalog_with(db: DatabaseSchema) -> Arc<Catalog> {
    let mut catalog = Catalog::new();
    catalog.insert_database(db);
    Arc::new(catalog)
}

fn options(of: &[(&str, &str)]) -> Arc<EngineConfig> {
    let mut config = EngineConfig::new();
    for (key, value) in of {
        config.insert(key.to_string(), value.to_string());
    }
    Arc::new(config)
}

fn executor(store: Store, limit: usize) -> QueryExecutorImpl<Store> {
    QueryExecutorImpl::new(
        catalog_with(telemetry(&["cpu"])),
        Arc::new(store),
        options(&[("datafusion.execution.batch_size", "8192")]),
        limit,
    )
}

fn database(store: Arc<Store>, db: DatabaseSchema) -> QueryDatabase<Store> {
    QueryDatabase::new(Arc::new(db), store, options(&[]))
}

fn names(v: &[&str]) -> Vec<String> {
    v.iter().map(|s| s.to_string()).collect()
}

fn state() -> SessionState {
    SessionContext::new().state()
}

fn filters() -> Vec<Expr> {
    vec![col("host").eq(lit("a")), col("value").gt(lit(1))]
}

#[test]
fn the_default_names_are_fixed() {
    assert_eq!(DEFAULT_CATALOG, "public");
    assert_eq!(DEFAULT_SCHEMA, "iox");
}

#[test]
fn a_new_executor_runs_nothing() {
    let e = executor(Store::empty(), 5);
    assert_eq!(e.semaphore_metrics(), (0, 0));
}

#[test]
fn an_unknown_database_is_refused_before_admission() {
    let mut e = executor(Store::empty(), 1);
    let r = e.query("missing_db", "SELECT 1", None, None);
    assert_eq!(r.err(), Some(Error::DatabaseNotFound { db_name: "missing_db".to_string() }));
    assert_eq!(e.semaphore_metrics(), (0, 0));
    let (session, action) = e.query("telemetry", "SELECT 1", None, None).unwrap();
    assert_eq!(session.ticket(), 0);
    assert_eq!(action, QueryAction::Plan);
}

#[test]
fn database_names_are_case_sensitive() {
    let mut e = executor(Store::empty(), 1);
    assert!(matches!(
        e.query("Telemetry", "SELECT 1", None, None),
        Err(Error::DatabaseNotFound { .. })
    ));
    assert!(e.db("Telemetry", false).is_none());
    assert!(e.db("telemetry", false).is_some());
    assert!(e.db("telemetry", true).is_some());
}

#[test]
fn a_query_of_an_empty_table_succeeds() {
    let store = Arc::new(Store::empty());
    let mut e = QueryExecutorImpl::new(
        catalog_with(telemetry(&["cpu"])),
        Arc::clone(&store),
        options(&[]),
        2,
    );
    let (session, action) = e.query("telemetry", "SELECT * FROM cpu", None, None).unwrap();
    assert_eq!(action, QueryAction::Plan);
    assert_eq!(session.phase(), QueryPhase::Planning);
    assert_eq!(session.query(), "SELECT * FROM cpu");
    assert_eq!(session.context().database, "telemetry");
    assert_eq!(e.semaphore_metrics(), (1, 0));

    let db = e.db("telemetry", false).unwrap();
    let table = db.table("cpu").unwrap().unwrap();
    let plan = table.scan(&state(), None, &[], None).unwrap();
    assert!(plan.chunks.is_empty());
    assert!(plan.filters.is_empty());
    assert_eq!(plan.table_name, "cpu");
    assert_eq!(plan.schema, cpu_schema());
    assert_eq!(plan.projection, None);
    assert_eq!(plan.limit, None);

    let (session, action) = e.step(session, QueryEvent::Planned(Ok(())));
    assert_eq!(action, QueryAction::Execute);
    assert_eq!(session.phase(), QueryPhase::Executing);
    let (session, action) = e.step(session, QueryEvent::Executed(Ok(())));
    match action {
        QueryAction::Respond { result, record, admitted } => {
            assert_eq!(result, Ok(()));
            assert!(record.success());
            assert_eq!(record.outcome, QueryOutcome::Success);
            assert_eq!(record.query_type, "sql");
            assert_eq!(record.query_text, "SELECT * FROM cpu");
            assert_eq!(record.trace_id, None);
            assert_eq!(admitted, None);
        },
        other => panic!("unexpected action {other:?}"),
    }
    assert_eq!(session.phase(), QueryPhase::Finished);
    assert_eq!(e.semaphore_metrics(), (0, 0));
}

#[test]
fn context_and_token_carry_the_trace() {
    let mut e = executor(Store::empty(), 1);
    let span = SpanContext { trace_id: 11, span_id: 1 };
    let external = RequestLogContext { ctx: SpanContext { trace_id: 22, span_id: 2 } };
    let (session, _) = e.query("telemetry", "SELECT 1", Some(span), Some(external)).unwrap();
    assert_eq!(session.context().span_ctx, Some(span));
    assert_eq!(
        session.context().options,
        vec![ConfigOption {
            key: "datafusion.execution.batch_size".to_string(),
            value: "8192".to_string()
        }]
    );
    let (_, action) = e.step(session, QueryEvent::Cancelled);
    match action {
        QueryAction::Abandon { record, .. } => assert_eq!(record.trace_id, Some(22)),
        other => panic!("unexpected action {other:?}"),
    }
}

#[test]
fn a_failed_plan_is_a_plan_error() {
    let mut e = executor(Store::empty(), 1);
    let (session, _) = e.query("telemetry", "SELEC", None, None).unwrap();
    let (session, action) =
        e.step(session, QueryEvent::Planned(Err("syntax error at SELEC".to_string())));
    match action {
        QueryAction::Respond { result, record, admitted } => {
            assert_eq!(result, Err(Error::PlanError("syntax error at SELEC".to_string())));
            assert!(!record.success());
            assert_eq!(record.outcome, QueryOutcome::Failure);
            assert_eq!(record.query_text, "SELEC");
            assert_eq!(admitted, None);
        },
        other => panic!("unexpected action {other:?}"),
    }
    assert_eq!(session.phase(), QueryPhase::Finished);
    assert_eq!(e.semaphore_metrics(), (0, 0));
}

#[test]
fn a_failed_execution_is_an_execution_error() {
    let mut e = executor(Store::empty(), 1);
    let (session, _) = e.query("telemetry", "SELECT 1", None, None).unwrap();
    let (session, _) = e.step(session, QueryEvent::Planned(Ok(())));
    let (session, action) =
        e.step(session, QueryEvent::Executed(Err("object store unreachable".to_string())));
    match action {
        QueryAction::Respond { result, record, .. } => {
            assert_eq!(
                result,
                Err(Error::ExecutionError("object store unreachable".to_string()))
            );
            assert_eq!(record.outcome, QueryOutcome::Failure);
        },
        other => panic!("unexpected action {other:?}"),
    }
    assert_eq!(session.phase(), QueryPhase::Finished);
    assert_eq!(e.semaphore_metrics(), (0, 0));
}

#[test]
fn one_query_more_than_the_limit_waits_for_a_release() {
    let limit = 3;
    let mut e = executor(Store::empty(), limit);
    let mut running = Vec::new();
    for _ in 0..limit {
        let (session, action) = e.query("telemetry", "SELECT 1", None, None).unwrap();
        assert_eq!(action, QueryAction::Plan);
        running.push(session);
    }
    let (waiting, action) = e.query("telemetry", "SELECT 2", None, None).unwrap();
    assert_eq!(action, QueryAction::Wait);
    assert_eq!(waiting.phase(), QueryPhase::AwaitingPermit);
    assert_eq!(e.semaphore_metrics(), (limit, 1));

    let (waiting, action) = e.step(waiting, QueryEvent::PermitGranted);
    assert_eq!(action, QueryAction::Wait);
    let (waiting, action) = e.step(waiting, QueryEvent::Planned(Ok(())));
    assert_eq!(action, QueryAction::Ignore);
    assert_eq!(waiting.phase(), QueryPhase::AwaitingPermit);

    let first = running.remove(0);
    let (first, _) = e.step(first, QueryEvent::Planned(Ok(())));
    let (_, action) = e.step(first, QueryEvent::Executed(Ok(())));
    match action {
        QueryAction::Respond { admitted, .. } => assert_eq!(admitted, Some(waiting.ticket())),
        other => panic!("unexpected action {other:?}"),
    }
    assert_eq!(e.semaphore_metrics(), (limit, 0));
    let (waiting, action) = e.step(waiting, QueryEvent::PermitGranted);
    assert_eq!(action, QueryAction::Plan);
    assert_eq!(waiting.phase(), QueryPhase::Planning);
}

#[test]
fn waiting_queries_run_in_the_order_in_which_they_asked() {
    let mut e = executor(Store::empty(), 1);
    let (running, _) = e.query("telemetry", "SELECT 0", None, None).unwrap();
    let (second, _) = e.query("telemetry", "SELECT 1", None, None).unwrap();
    let (third, _) = e.query("telemetry", "SELECT 2", None, None).unwrap();
    assert_eq!(e.semaphore_metrics(), (1, 2));
    let (_, action) = e.step(running, QueryEvent::Cancelled);
    match action {
        QueryAction::Abandon { admitted, .. } => assert_eq!(admitted, Some(second.ticket())),
        other => panic!("unexpected action {other:?}"),
    }
    let (third, action) = e.step(third, QueryEvent::PermitGranted);
    assert_eq!(action, QueryAction::Wait);
    let (second, action) = e.step(second, QueryEvent::PermitGranted);
    assert_eq!(action, QueryAction::Plan);
    let (_, action) = e.step(second, QueryEvent::Planned(Err("no".to_string())));
    match action {
        QueryAction::Respond { admitted, .. } => assert_eq!(admitted, Some(third.ticket())),
        other => panic!("unexpected action {other:?}"),
    }
    let (_, action) = e.step(third, QueryEvent::PermitGranted);
    assert_eq!(action, QueryAction::Plan);
}

#[test]
fn cancelled_queries_give_their_permits_back() {
    let limit = 2;
    let mut e = executor(Store::empty(), limit);
    let (a, _) = e.query("telemetry", "SELECT 1", None, None).unwrap();
    let (b, _) = e.query("telemetry", "SELECT 1", None, None).unwrap();
    let (b, _) = e.step(b, QueryEvent::Planned(Ok(())));
    assert_eq!(e.semaphore_metrics(), (2, 0));
    let (a, action) = e.step(a, QueryEvent::Cancelled);
    assert!(matches!(
        action,
        QueryAction::Abandon { ref record, admitted: None } if record.outcome == QueryOutcome::Cancelled
    ));
    let (b, action) = e.step(b, QueryEvent::Cancelled);
    assert!(matches!(
        action,
        QueryAction::Abandon { ref record, admitted: None } if record.outcome == QueryOutcome::Cancelled
    ));
    assert_eq!(a.phase(), QueryPhase::Finished);
    assert_eq!(b.phase(), QueryPhase::Finished);
    assert_eq!(e.semaphore_metrics(), (0, 0));
    let (_, action) = e.query("telemetry", "SELECT 1", None, None).unwrap();
    assert_eq!(action, QueryAction::Plan);
}

#[test]
fn a_waiting_query_that_is_cancelled_leaves_the_line() {
    let mut e = executor(Store::empty(), 1);
    let (running, _) = e.query("telemetry", "SELECT 0", None, None).unwrap();
    let (waiting, _) = e.query("telemetry", "SELECT 1", None, None).unwrap();
    let (waiting, action) = e.step(waiting, QueryEvent::Cancelled);
    assert!(matches!(action, QueryAction::Abandon { admitted: None, .. }));
    assert_eq!(waiting.phase(), QueryPhase::Finished);
    assert_eq!(e.semaphore_metrics(), (1, 0));
    let (_, action) = e.step(running, QueryEvent::Cancelled);
    assert!(matches!(action, QueryAction::Abandon { admitted: None, .. }));
    assert_eq!(e.semaphore_metrics(), (0, 0));
}

#[test]
fn a_query_ends_once() {
    let mut e = executor(Store::empty(), 1);
    let (session, _) = e.query("telemetry", "SELECT 1", None, None).unwrap();
    let (session, action) = e.step(session, QueryEvent::Cancelled);
    assert!(matches!(action, QueryAction::Abandon { .. }));
    let (other, _) = e.query("telemetry", "SELECT 2", None, None).unwrap();
    assert_eq!(e.semaphore_metrics(), (1, 0));
    let mut session = session;
    for event in [
        QueryEvent::Cancelled,
        QueryEvent::PermitGranted,
        QueryEvent::Planned(Ok(())),
        QueryEvent::Planned(Err("late".to_string())),
        QueryEvent::Executed(Ok(())),
        QueryEvent::Executed(Err("late".to_string())),
    ] {
        let (next, action) = e.step(session, event);
        assert_eq!(action, QueryAction::Ignore);
        assert_eq!(next.phase(), QueryPhase::Finished);
        session = next;
    }
    assert_eq!(e.semaphore_metrics(), (1, 0));
    assert_eq!(other.phase(), QueryPhase::Planning);
}

#[test]
fn events_out_of_their_phase_are_ignored() {
    let mut e = executor(Store::empty(), 1);
    let (session, _) = e.query("telemetry", "SELECT 1", None, None).unwrap();
    let (session, action) = e.step(session, QueryEvent::Executed(Ok(())));
    assert_eq!(action, QueryAction::Ignore);
    let (session, action) = e.step(session, QueryEvent::PermitGranted);
    assert_eq!(action, QueryAction::Ignore);
    assert_eq!(session.phase(), QueryPhase::Planning);
    let (session, _) = e.step(session, QueryEvent::Planned(Ok(())));
    let (session, action) = e.step(session, QueryEvent::Planned(Ok(())));
    assert_eq!(action, QueryAction::Ignore);
    assert_eq!(session.phase(), QueryPhase::Executing);
    assert_eq!(e.semaphore_metrics(), (1, 0));
}

#[test]
fn after_shutdown_no_query_is_admitted() {
    let mut e = executor(Store::empty(), 1);
    let (running, _) = e.query("telemetry", "SELECT 0", None, None).unwrap();
    let (waiting, _) = e.query("telemetry", "SELECT 1", None, None).unwrap();
    assert_eq!(e.shutdown(), vec![waiting.ticket()]);
    assert_eq!(e.query("telemetry", "SELECT 2", None, None).err(), Some(Error::AdmissionFailure));
    assert_eq!(
        e.query("missing_db", "SELECT 2", None, None).err(),
        Some(Error::DatabaseNotFound { db_name: "missing_db".to_string() })
    );
    let (waiting, action) = e.step(waiting, QueryEvent::PermitGranted);
    match action {
        QueryAction::Respond { result, record, admitted } => {
            assert_eq!(result, Err(Error::AdmissionFailure));
            assert_eq!(record.outcome, QueryOutcome::Failure);
            assert_eq!(admitted, None);
        },
        other => panic!("unexpected action {other:?}"),
    }
    assert_eq!(waiting.phase(), QueryPhase::Finished);
    let (running, action) = e.step(running, QueryEvent::Planned(Ok(())));
    assert_eq!(action, QueryAction::Execute);
    let (_, action) = e.step(running, QueryEvent::Executed(Ok(())));
    assert!(matches!(action, QueryAction::Respond { result: Ok(()), .. }));
    assert_eq!(e.semaphore_metrics(), (0, 0));
}

#[test]
fn permits_can_be_asked_for_and_given_back_directly() {
    let mut e = executor(Store::empty(), 1);
    assert_eq!(e.acquire_semaphore(), influxdb3_server::admission::Admission::Granted(0));
    assert_eq!(e.acquire_semaphore(), influxdb3_server::admission::Admission::Queued(1));
    assert_eq!(e.semaphore_metrics(), (1, 1));
    assert_eq!(e.release_semaphore(0), Some(1));
    assert_eq!(e.release_semaphore(1), None);
    assert_eq!(e.semaphore_metrics(), (0, 0));
}

#[test]
fn errors_show_what_the_caller_may_know() {
    assert_eq!(
        Error::DatabaseNotFound { db_name: "missing_db".to_string() }.message(),
        "database not found: missing_db"
    );
    assert_eq!(Error::PlanError("bad".to_string()).message(), "plan error: bad");
    assert_eq!(Error::ExecutionError("io".to_string()).message(), "execution error: io");
    assert_eq!(
        Error::CatalogInvariantViolation { table: "cpu".to_string() }.message(),
        "internal error"
    );
    assert_eq!(Error::AdmissionFailure.message(), "internal error");
    assert!(!Error::DatabaseNotFound { db_name: "x".to_string() }.is_fatal());
    assert!(!Error::PlanError("x".to_string()).is_fatal());
    assert!(!Error::ExecutionError("x".to_string()).is_fatal());
    assert!(Error::CatalogInvariantViolation { table: "x".to_string() }.is_fatal());
    assert!(Error::AdmissionFailure.is_fatal());
}

#[test]
fn table_names_are_sorted_whatever_the_order_of_insertion() {
    let store = Arc::new(Store::empty());
    let orders: [&[&str]; 4] = [
        &["mem", "cpu", "disk", "Net", "cpu2"],
        &["cpu2", "Net", "disk", "cpu", "mem"],
        &["Net", "cpu", "cpu2", "disk", "mem"],
        &["disk", "mem", "cpu2", "Net", "cpu"],
    ];
    for order in orders {
        let db = database(Arc::clone(&store), telemetry(order));
        assert_eq!(db.table_names(), names(&["Net", "cpu", "cpu2", "disk", "mem"]));
    }
    let db = database(Arc::clone(&store), telemetry(&[]));
    assert!(db.table_names().is_empty());
}

#[test]
fn a_database_has_one_schema() {
    let db = database(Arc::new(Store::empty()), telemetry(&["cpu"]));
    assert_eq!(db.schema_names(), names(&["iox"]));
    let same = db.schema("iox").unwrap();
    assert_eq!(same.table_names(), names(&["cpu"]));
    assert!(db.schema("public").is_none());
    assert!(db.schema("IOX").is_none());
    assert!(db.schema("").is_none());
    assert_eq!(db.retention_time_ns(), None);
}

#[test]
fn a_registered_schema_comes_back_unchanged() {
    let db = database(Arc::new(Store::empty()), telemetry(&["cpu"]));
    assert!(db.table_exist("cpu"));
    assert!(!db.table_exist("mem"));
    let table = db.table("cpu").unwrap().unwrap();
    assert_eq!(table.name(), "cpu");
    assert_eq!(table.table_type(), TableType::Base);
    let schema = table.schema();
    assert_eq!(schema, &cpu_schema());
    assert_eq!(schema.columns().len(), 3);
    assert_eq!(schema.columns()[0].name, "time");
    assert_eq!(schema.columns()[0].column_type, ColumnType::Timestamp);
    assert_eq!(schema.columns()[1].name, "host");
    assert_eq!(schema.columns()[1].column_type, ColumnType::String);
    assert_eq!(schema.columns()[2].name, "value");
    assert_eq!(schema.columns()[2].column_type, ColumnType::Float);
    assert_eq!(schema.sort_key(), Some(&names(&["time"])));
    assert!(db.table("mem").unwrap().is_none());
}

#[test]
fn a_table_without_schema_violates_the_catalog_invariant() {
    let mut schema = telemetry(&["cpu"]);
    schema.insert_table(TableDefinition { name: "ghost".to_string(), schema: None });
    let db = database(Arc::new(Store::empty()), schema);
    assert!(db.table_exist("ghost"));
    assert_eq!(
        db.table("ghost").err(),
        Some(Error::CatalogInvariantViolation { table: "ghost".to_string() })
    );
}

#[test]
fn an_option_key_occurs_once() {
    let mut config = EngineConfig::new();
    assert!(config.options().is_empty());
    config.insert("batch_size".to_string(), "1".to_string());
    config.insert("target_partitions".to_string(), "4".to_string());
    config.insert("batch_size".to_string(), "2".to_string());
    config.insert("Batch_size".to_string(), "3".to_string());
    let got: Vec<(&str, &str)> =
        config.options().iter().map(|o| (o.key.as_str(), o.value.as_str())).collect();
    assert_eq!(got, vec![("batch_size", "2"), ("target_partitions", "4"), ("Batch_size", "3")]);
}

#[test]
fn a_context_is_bound_to_its_database() {
    let db = QueryDatabase::new(
        Arc::new(telemetry(&["cpu"])),
        Arc::new(Store::empty()),
        options(&[("a", "1"), ("b", "2"), ("a", "3")]),
    );
    let span = SpanContext { trace_id: 5, span_id: 6 };
    let ctx = db.new_query_context(Some(span));
    assert_eq!(ctx.database, "telemetry");
    assert_eq!(ctx.span_ctx, Some(span));
    let got: Vec<(&str, &str)> =
        ctx.options.iter().map(|o| (o.key.as_str(), o.value.as_str())).collect();
    assert_eq!(got, vec![("a", "3"), ("b", "2")]);
    assert_eq!(db.new_query_context(None).span_ctx, None);
}

#[test]
fn a_token_records_the_outcome_it_is_given() {
    let db = database(Arc::new(Store::empty()), telemetry(&["cpu"]));
    let span = SpanContext { trace_id: 42, span_id: 1 };
    let record =
        db.record_query(Some(&span), "sql", "SELECT 1".to_string()).complete(QueryOutcome::Success);
    assert_eq!(record.trace_id, Some(42));
    assert_eq!(record.query_type, "sql");
    assert_eq!(record.query_text, "SELECT 1");
    assert!(record.success());
    let record =
        db.record_query(None, "influxql", "SHOW".to_string()).complete(QueryOutcome::Cancelled);
    assert_eq!(record.trace_id, None);
    assert_eq!(record.query_type, "influxql");
    assert!(!record.success());
    assert_eq!(record.outcome, QueryOutcome::Cancelled);
}

#[test]
fn a_scan_hands_its_arguments_to_the_store() {
    let store = Arc::new(Store::with(vec![(1, 10, CPU.to_vec()), (2, 11, CPU.to_vec())]));
    let db = database(Arc::clone(&store), telemetry(&["cpu"]));
    let table = db.table("cpu").unwrap().unwrap();
    let ctx = state();
    let plan = table.scan(&ctx, Some(&vec![2, 0]), &filters(), Some(10)).unwrap();
    assert_eq!(
        *store.asked.borrow(),
        vec![Asked {
            database: "telemetry".to_string(),
            table: "cpu".to_string(),
            filters: filters(),
            projection: Some(vec![2, 0]),
            session_id: ctx.session_id().to_string(),
        }]
    );
    assert_eq!(plan.table_name, "cpu");
    assert_eq!(plan.schema, cpu_schema());
    assert_eq!(plan.projection, Some(vec![2, 0]));
    assert_eq!(plan.filters, filters());
    assert_eq!(plan.limit, Some(10));
    let ids: Vec<ChunkId> = plan.chunks.iter().map(|c| c.id()).collect();
    assert_eq!(ids, vec![ChunkId(1), ChunkId(2)]);
    let orders: Vec<ChunkOrder> = plan.chunks.iter().map(|c| c.order()).collect();
    assert_eq!(orders, vec![ChunkOrder(10), ChunkOrder(11)]);
}

#[test]
fn a_store_error_is_an_execution_error() {
    let store = Arc::new(Store::failing("disk on fire"));
    let db = database(Arc::clone(&store), telemetry(&["cpu"]));
    let table = db.table("cpu").unwrap().unwrap();
    let r = table.scan(&state(), None, &[], None);
    assert_eq!(r.err(), Some(Error::ExecutionError("disk on fire".to_string())));
    assert_eq!(store.asked.borrow().len(), 1);
}

#[test]
fn a_chunk_that_contradicts_the_table_violates_the_catalog_invariant() {
    let store = Arc::new(Store::with(vec![
        (1, 10, CPU.to_vec()),
        (2, 11, vec![("time", ColumnType::Timestamp), ("value", ColumnType::Integer)]),
    ]));
    let db = database(Arc::clone(&store), telemetry(&["cpu"]));
    let table = db.table("cpu").unwrap().unwrap();
    let r = table.scan(&state(), None, &[], None);
    assert_eq!(r.err(), Some(Error::CatalogInvariantViolation { table: "cpu".to_string() }));
}

#[test]
fn chunks_may_hold_fewer_or_more_columns_than_the_table() {
    let store = Arc::new(Store::with(vec![
        (1, 10, vec![("time", ColumnType::Timestamp)]),
        (2, 11, vec![("time", ColumnType::Timestamp), ("region", ColumnType::Tag)]),
    ]));
    let db = database(Arc::clone(&store), telemetry(&["cpu"]));
    let table = db.table("cpu").unwrap().unwrap();
    let plan = table.scan(&state(), None, &[], None).unwrap();
    assert_eq!(plan.chunks.len(), 2);
}

#[test]
fn a_plan_is_made_from_whatever_the_store_answered() {
    let db = database(Arc::new(Store::empty()), telemetry(&["cpu"]));
    let table = db.table("cpu").unwrap().unwrap();
    let r = table.plan_scan(
        Err(StorageError { message: "gone".to_string() }),
        None,
        Vec::new(),
        Some(1),
    );
    assert_eq!(r.err(), Some(Error::ExecutionError("gone".to_string())));
    let plan = table.plan_scan(Ok(Vec::new()), Some(&vec![1]), filters(), Some(1)).unwrap();
    assert!(plan.chunks.is_empty());
    assert_eq!(plan.projection, Some(vec![1]));
    assert_eq!(plan.filters, filters());
    assert_eq!(plan.limit, Some(1));
}

#[test]
fn a_query_in_flight_keeps_its_snapshot() {
    let mut e = executor(Store::empty(), 1);
    let (session, _) = e.query("telemetry", "SELECT 1", None, None).unwrap();
    e.set_catalog(catalog_with(telemetry(&["cpu", "mem"])));
    assert_eq!(session.database().table_names(), names(&["cpu"]));
    let (session, _) = e.step(session, QueryEvent::Planned(Ok(())));
    assert_eq!(session.database().table_names(), names(&["cpu"]));
    assert!(!session.database().table_exist("mem"));
    let (later, _) = e.query("telemetry", "SELECT 1", None, None).unwrap();
    assert_eq!(later.database().table_names(), names(&["cpu", "mem"]));
}

#[test]
fn an_open_database_keeps_its_snapshot() {
    let mut e = executor(Store::empty(), 1);
    let before = e.db("telemetry", false).unwrap();
    assert_eq!(before.table_names(), names(&["cpu"]));
    e.set_catalog(catalog_with(telemetry(&["cpu", "mem"])));
    let after = e.db("telemetry", false).unwrap();
    assert_eq!(after.table_names(), names(&["cpu", "mem"]));
    assert_eq!(before.table_names(), names(&["cpu"]));
    assert!(!before.table_exist("mem"));
    assert!(after.table_exist("mem"));
}
