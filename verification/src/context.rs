//! What accompanies one query through planning and execution: its trace
//! context, its execution context, and the token that records how it ended.
use vstd::prelude::*;

verus! {

/// The name of the catalog under which the planning engine finds a database.
pub const DEFAULT_CATALOG: &'static str = "public";

/// The name of the one schema that every database has.
pub const DEFAULT_SCHEMA: &'static str = "iox";

/// Where a query stands in a distributed trace.
#[derive(Clone, Copy, Debug, PartialEq, Eq, Structural)]
pub struct SpanContext {
    pub trace_id: u128,
    pub span_id: u64,
}

/// The trace context under which a front end logs a request.
#[derive(Clone, Copy, Debug, PartialEq, Eq, Structural)]
pub struct RequestLogContext {
    pub ctx: SpanContext,
}

impl RequestLogContext {
    /// The trace context of the request.
    pub fn ctx(&self) -> (r: &SpanContext)
        ensures
            *r == self.ctx,
    {
        &self.ctx
    }
}

/// One engine option: a key and the value that overrides its default.
#[derive(Debug, PartialEq, Eq)]
pub struct ConfigOption {
    pub key: String,
    pub value: String,
}

impl View for ConfigOption {
    type V = (Seq<char>, Seq<char>);

    open spec fn view(&self) -> (Seq<char>, Seq<char>) {
        (self.key@, self.value@)
    }
}

/// The views of a list of options.
pub open spec fn options_view(options: Seq<ConfigOption>) -> Seq<(Seq<char>, Seq<char>)> {
    options.map_values(|o: ConfigOption| o@)
}

/// The keys of a list of options, in order.
pub open spec fn option_keys(options: Seq<(Seq<char>, Seq<char>)>) -> Seq<Seq<char>> {
    options.map_values(|o: (Seq<char>, Seq<char>)| o.0)
}

/// The options after `key` is set to `value`: the new value stands where the
/// key stood before, or at the end where the key is new.
pub open spec fn put_option(
    options: Seq<(Seq<char>, Seq<char>)>,
    key: Seq<char>,
    value: Seq<char>,
) -> Seq<(Seq<char>, Seq<char>)> {
    if option_keys(options).contains(key) {
        options.update(option_keys(options).index_of(key), (key, value))
    } else {
        options.push((key, value))
    }
}

/// The engine options of a server: values by key, each key once.
#[derive(Debug, PartialEq, Eq)]
pub struct EngineConfig {
    options: Vec<ConfigOption>,
}

impl View for EngineConfig {
    type V = Seq<(Seq<char>, Seq<char>)>;

    closed spec fn view(&self) -> Seq<(Seq<char>, Seq<char>)> {
        options_view(self.options@)
    }
}

/// Where the option with the given key stands.
fn key_position(options: &Vec<ConfigOption>, key: &str) -> (r: Option<usize>)
    ensures
        match r {
            Some(at) => at < options.len() && options[at as int].key@ == key@,
            None => forall|j: int| 0 <= j < options.len() ==> options[j].key@ != key@,
        },
{
    let mut i: usize = 0;
    while i < options.len()
        invariant
            i <= options.len(),
            forall|j: int| 0 <= j < i ==> options[j].key@ != key@,
        decreases options.len() - i,
    {
        if crate::text::str_eq(options[i].key.as_str(), key) {
            return Some(i);
        }
        i += 1;
    }
    None
}

impl EngineConfig {
    /// No key occurs twice.
    #[verifier::type_invariant]
    pub open spec fn inv(self) -> bool {
        option_keys(self@).no_duplicates()
    }

    /// No options at all.
    pub fn new() -> (r: EngineConfig)
        ensures
            r@ == Seq::<(Seq<char>, Seq<char>)>::empty(),
    {
        let r = EngineConfig { options: Vec::new() };
        assert(r@ =~= Seq::<(Seq<char>, Seq<char>)>::empty());
        r
    }

    /// Sets `key` to `value`, in place of the value that the key had before,
    /// if it had one.
    pub fn insert(&mut self, key: String, value: String)
        ensures
            final(self)@ == put_option(old(self)@, key@, value@),
            option_keys(final(self)@).no_duplicates(),
    {
        proof {
            use_type_invariant(&*self);
        }
        let mut taken = EngineConfig::new();
        std::mem::swap(self, &mut taken);
        let EngineConfig { mut options } = taken;
        let ghost before = options_view(options@);
        let ghost keys = option_keys(before);
        let found = key_position(&options, key.as_str());
        let ghost k = key@;
        let ghost v = value@;
        match found {
            Some(at) => {
                proof {
                    assert(keys[at as int] == k);
                    assert(keys.contains(k));
                    assert(keys.index_of(k) == at as int);
                }
                options.set(at, ConfigOption { key, value });
                proof {
                    let after = options_view(options@);
                    assert(after =~= before.update(at as int, (k, v)));
                    assert(option_keys(after) =~= keys);
                }
            },
            None => {
                proof {
                    assert(!keys.contains(k)) by {
                        if keys.contains(k) {
                            let w = choose|w: int| 0 <= w < keys.len() && keys[w] == k;
                            assert(options[w].key@ == k);
                        }
                    }
                }
                options.push(ConfigOption { key, value });
                proof {
                    let after = options_view(options@);
                    assert(after =~= before.push((k, v)));
                    assert(option_keys(after) =~= keys.push(k));
                    assert forall|a: int, b: int|
                        0 <= a < keys.push(k).len() && 0 <= b < keys.push(k).len() && a
                            != b implies keys.push(k)[a] != keys.push(k)[b] by {
                        if a < keys.len() && b < keys.len() {
                            assert(keys[a] != keys[b]);
                        }
                    }
                }
            },
        }
        *self = EngineConfig { options };
    }

    /// The options, each key once, in the order in which the keys were first
    /// set.
    pub fn options(&self) -> (r: &Vec<ConfigOption>)
        ensures
            options_view(r@) == self@,
            option_keys(self@).no_duplicates(),
    {
        proof {
            use_type_invariant(self);
        }
        &self.options
    }
}

/// The mathematical value of an execution context.
pub struct ContextView {
    /// The database that the context is bound to.
    pub database: Seq<char>,
    /// The options to apply to the engine, each key once.
    pub options: Seq<(Seq<char>, Seq<char>)>,
    /// The trace context under which planning and execution are recorded.
    pub span_ctx: Option<SpanContext>,
}

/// The execution context of one query: the database that serves as its
/// default catalog, the engine options, and the trace context.
#[derive(Debug, PartialEq, Eq)]
pub struct QueryContext {
    pub database: String,
    pub options: Vec<ConfigOption>,
    pub span_ctx: Option<SpanContext>,
}

impl View for QueryContext {
    type V = ContextView;

    open spec fn view(&self) -> ContextView {
        ContextView {
            database: self.database@,
            options: options_view(self.options@),
            span_ctx: self.span_ctx,
        }
    }
}

/// How a query ended.
#[derive(Clone, Copy, Debug, PartialEq, Eq, Structural)]
pub enum QueryOutcome {
    /// The query produced its stream.
    Success,
    /// Planning or execution failed, or the query could not be admitted.
    Failure,
    /// The caller gave the query up before it ended.
    Cancelled,
}

/// The mathematical value of a completion token and of the record it leaves.
pub struct TokenView {
    pub trace_id: Option<u128>,
    pub query_type: Seq<char>,
    pub query_text: Seq<char>,
}

/// A handle made when a query starts. It is used up by saying how the query
/// ended, which leaves one record; being a value that is moved, it cannot be
/// used twice.
#[derive(Debug)]
pub struct QueryCompletedToken {
    trace_id: Option<u128>,
    query_type: String,
    query_text: String,
}

impl View for QueryCompletedToken {
    type V = TokenView;

    closed spec fn view(&self) -> TokenView {
        TokenView {
            trace_id: self.trace_id,
            query_type: self.query_type@,
            query_text: self.query_text@,
        }
    }
}

/// What is recorded of a query once it has ended.
#[derive(Debug, PartialEq, Eq)]
pub struct CompletionRecord {
    pub trace_id: Option<u128>,
    pub query_type: String,
    pub query_text: String,
    pub outcome: QueryOutcome,
}

impl CompletionRecord {
    /// The query that the record is about.
    pub open spec fn token(self) -> TokenView {
        TokenView {
            trace_id: self.trace_id,
            query_type: self.query_type@,
            query_text: self.query_text@,
        }
    }

    /// Whether the record says that the query succeeded.
    pub fn success(&self) -> (r: bool)
        ensures
            r == (self.outcome == QueryOutcome::Success),
    {
        match self.outcome {
            QueryOutcome::Success => true,
            _ => false,
        }
    }
}

impl QueryCompletedToken {
    /// A token for a query of kind `query_type` with text `query_text`,
    /// traced under `trace_id`.
    pub fn new(trace_id: Option<u128>, query_type: &str, query_text: String) -> (r:
        QueryCompletedToken)
        ensures
            r@ == (TokenView { trace_id, query_type: query_type@, query_text: query_text@ }),
    {
        QueryCompletedToken { trace_id, query_type: query_type.to_owned(), query_text }
    }

    /// Uses the token up: records that the query ended with `outcome`.
    pub fn complete(self, outcome: QueryOutcome) -> (r: CompletionRecord)
        ensures
            r.token() == self@,
            r.outcome == outcome,
    {
        CompletionRecord {
            trace_id: self.trace_id,
            query_type: self.query_type,
            query_text: self.query_text,
            outcome,
        }
    }
}

} // verus!
