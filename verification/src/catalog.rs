//! The catalog: databases by name, and in each database its tables by name.
//!
//! A database schema is handed out behind an `Arc`. Whoever holds one holds a
//! snapshot: publishing a new schema for the database replaces the catalog's
//! pointer and leaves the snapshot as it was.
use crate::schema::{SchemaView, TableSchema};
use crate::text::{names_view, str_eq};
use std::sync::Arc;
use vstd::prelude::*;

verus! {

/// A table as the catalog lists it. The schema is missing where the catalog
/// knows the name and nothing more, which a sound catalog never shows.
#[derive(Debug)]
pub struct TableDefinition {
    pub name: String,
    pub schema: Option<TableSchema>,
}

impl TableDefinition {
    /// The table's schema as a mathematical value, if the table has one.
    pub open spec fn schema_view(self) -> Option<SchemaView> {
        match self.schema {
            Some(s) => Some(s@),
            None => None,
        }
    }
}

/// Whether the table at `i` is called `name`.
pub open spec fn names_table(tables: Seq<TableDefinition>, i: int, name: Seq<char>) -> bool {
    0 <= i < tables.len() && tables[i].name@ == name
}

/// No two tables share a name.
pub open spec fn table_names_unique(tables: Seq<TableDefinition>) -> bool {
    forall|i: int, j: int|
        0 <= i < j < tables.len() ==> (#[trigger] tables[i]).name@ != (#[trigger] tables[j]).name@
}

/// The tables as a map from name to schema.
pub open spec fn tables_map(tables: Seq<TableDefinition>) -> Map<Seq<char>, Option<SchemaView>> {
    Map::new(
        |name: Seq<char>| exists|i: int| names_table(tables, i, name),
        |name: Seq<char>| tables[choose|i: int| names_table(tables, i, name)].schema_view(),
    )
}

/// Where names are unique, the map holds under each table's name that
/// table's schema.
pub proof fn lemma_tables_map_at(tables: Seq<TableDefinition>, i: int)
    requires
        table_names_unique(tables),
        0 <= i < tables.len(),
    ensures
        tables_map(tables).contains_key(tables[i].name@),
        tables_map(tables)[tables[i].name@] == tables[i].schema_view(),
{
    let name = tables[i].name@;
    assert(names_table(tables, i, name));
    let j = choose|j: int| names_table(tables, j, name);
    assert(i == j);
}

/// Putting a table at the place where its name stood, or at the end where the
/// name is new, keeps the names unique and puts the table's schema under its
/// name in the map.
pub proof fn lemma_tables_map_put(
    before: Seq<TableDefinition>,
    after: Seq<TableDefinition>,
    at: int,
    name: Seq<char>,
    schema: Option<SchemaView>,
)
    requires
        table_names_unique(before),
        0 <= at < after.len(),
        after.len() == if at < before.len() {
            before.len()
        } else {
            before.len() + 1
        },
        after[at].name@ == name,
        after[at].schema_view() == schema,
        forall|j: int| 0 <= j < after.len() && j != at ==> #[trigger] after[j] == before[j],
        at < before.len() ==> before[at].name@ == name,
        at >= before.len() ==> forall|j: int| 0 <= j < before.len() ==> (
        #[trigger] before[j]).name@ != name,
    ensures
        table_names_unique(after),
        tables_map(after) == tables_map(before).insert(name, schema),
{
    assert forall|j: int| 0 <= j < after.len() && j != at implies (#[trigger] after[j]).name@
        != name by {
        assert(after[j] == before[j]);
        if at < before.len() {
            if j < at {
                assert(before[j].name@ != before[at].name@);
            } else {
                assert(before[at].name@ != before[j].name@);
            }
        }
    }
    assert(table_names_unique(after)) by {
        assert forall|a: int, b: int| 0 <= a < b < after.len() implies (#[trigger] after[a]).name@
            != (#[trigger] after[b]).name@ by {
            if a != at && b != at {
                assert(after[a] == before[a] && after[b] == before[b]);
                assert(before[a].name@ != before[b].name@);
            }
        }
    }
    assert forall|n: Seq<char>| #[trigger]
        tables_map(after).contains_key(n) == tables_map(before).insert(name, schema).contains_key(
            n,
        ) by {
        if tables_map(after).contains_key(n) {
            let j = choose|j: int| names_table(after, j, n);
            if j != at {
                assert(after[j] == before[j]);
                assert(names_table(before, j, n));
            }
        }
        if tables_map(before).contains_key(n) && n != name {
            let j = choose|j: int| names_table(before, j, n);
            assert(j != at);
            assert(after[j] == before[j]);
            assert(names_table(after, j, n));
        }
        if n == name {
            assert(names_table(after, at, n));
        }
    }
    assert forall|n: Seq<char>| #[trigger]
        tables_map(after).contains_key(n) implies tables_map(after)[n] == tables_map(
        before,
    ).insert(name, schema)[n] by {
        let j = choose|j: int| names_table(after, j, n);
        lemma_tables_map_at(after, j);
        if j != at {
            assert(after[j] == before[j]);
            assert(names_table(before, j, n));
            lemma_tables_map_at(before, j);
        }
    }
    assert(tables_map(after) =~= tables_map(before).insert(name, schema));
}

/// The mathematical value of a database schema.
pub struct DatabaseView {
    pub name: Seq<char>,
    pub tables: Map<Seq<char>, Option<SchemaView>>,
}

/// The tables of one database at one moment.
#[derive(Debug)]
pub struct DatabaseSchema {
    name: String,
    tables: Vec<TableDefinition>,
}

impl View for DatabaseSchema {
    type V = DatabaseView;

    closed spec fn view(&self) -> DatabaseView {
        DatabaseView { name: self.name@, tables: tables_map(self.tables@) }
    }
}

/// Position of the table called `name`.
fn table_position(tables: &Vec<TableDefinition>, name: &str) -> (r: Option<usize>)
    ensures
        match r {
            Some(i) => names_table(tables@, i as int, name@),
            None => forall|i: int| !names_table(tables@, i, name@),
        },
{
    let mut i: usize = 0;
    while i < tables.len()
        invariant
            i <= tables.len(),
            forall|j: int| 0 <= j < i ==> !names_table(tables@, j, name@),
        decreases tables.len() - i,
    {
        if str_eq(tables[i].name.as_str(), name) {
            return Some(i);
        }
        i += 1;
    }
    None
}

impl DatabaseSchema {
    #[verifier::type_invariant]
    spec fn inv(self) -> bool {
        table_names_unique(self.tables@)
    }

    /// A database without tables.
    pub fn new(name: String) -> (r: DatabaseSchema)
        ensures
            r@.name == name@,
            r@.tables == Map::<Seq<char>, Option<SchemaView>>::empty(),
    {
        let r = DatabaseSchema { name, tables: Vec::new() };
        assert(r@.tables =~= Map::<Seq<char>, Option<SchemaView>>::empty());
        r
    }

    /// The database's name.
    pub fn name(&self) -> (r: &str)
        ensures
            r@ == self@.name,
    {
        self.name.as_str()
    }

    /// Lists `table` under its name, in place of a table of that name if
    /// there is one.
    pub fn insert_table(&mut self, table: TableDefinition)
        ensures
            final(self)@.name == old(self)@.name,
            final(self)@.tables == old(self)@.tables.insert(table.name@, table.schema_view()),
    {
        proof {
            use_type_invariant(&*self);
        }
        let ghost before = self.tables@;
        let ghost name = table.name@;
        let ghost schema = table.schema_view();
        let mut tables: Vec<TableDefinition> = Vec::new();
        std::mem::swap(&mut self.tables, &mut tables);
        let found = table_position(&tables, table.name.as_str());
        let ghost at: int = match found {
            Some(i) => i as int,
            None => before.len() as int,
        };
        match found {
            Some(i) => {
                tables.set(i, table);
            },
            None => {
                tables.push(table);
            },
        }
        proof {
            if found is None {
                assert forall|j: int| 0 <= j < before.len() implies before[j].name@ != name by {
                    assert(!names_table(before, j, name));
                }
            }
            lemma_tables_map_put(before, tables@, at, name, schema);
        }
        std::mem::swap(&mut self.tables, &mut tables);
    }

    /// Whether the database lists a table called `name`.
    pub fn table_exists(&self, name: &str) -> (r: bool)
        ensures
            r == self@.tables.contains_key(name@),
    {
        table_position(&self.tables, name).is_some()
    }

    /// The table called `name` as the catalog lists it.
    pub fn table_definition(&self, name: &str) -> (r: Option<&TableDefinition>)
        ensures
            match r {
                Some(t) => {
                    &&& t.name@ == name@
                    &&& self@.tables.contains_key(name@)
                    &&& self@.tables[name@] == t.schema_view()
                },
                None => !self@.tables.contains_key(name@),
            },
    {
        proof {
            use_type_invariant(self);
        }
        match table_position(&self.tables, name) {
            Some(i) => {
                proof {
                    lemma_tables_map_at(self.tables@, i as int);
                }
                Some(&self.tables[i])
            },
            None => None,
        }
    }

    /// The schema of the table called `name`; `None` where the database lists
    /// no such table or lists it without a schema.
    pub fn get_table_schema(&self, name: &str) -> (r: Option<&TableSchema>)
        ensures
            match r {
                Some(s) => self@.tables.contains_key(name@) && self@.tables[name@] == Some(s@),
                None => !self@.tables.contains_key(name@) || self@.tables[name@] is None,
            },
    {
        match self.table_definition(name) {
            Some(t) => t.schema.as_ref(),
            None => None,
        }
    }

    /// The name of every table, each once, in no promised order.
    pub fn table_names(&self) -> (r: Vec<String>)
        ensures
            names_view(r@).no_duplicates(),
            names_view(r@).to_set() == self@.tables.dom(),
    {
        proof {
            use_type_invariant(self);
        }
        let mut out: Vec<String> = Vec::new();
        let mut i: usize = 0;
        while i < self.tables.len()
            invariant
                i <= self.tables.len(),
                out.len() == i,
                forall|j: int| 0 <= j < i ==> out[j]@ == self.tables[j].name@,
            decreases self.tables.len() - i,
        {
            out.push(self.tables[i].name.clone());
            i += 1;
        }
        proof {
            let names = names_view(out@);
            assert forall|a: int, b: int| 0 <= a < names.len() && 0 <= b < names.len() && a
                != b implies names[a] != names[b] by {
                if a < b {
                    assert(self.tables@[a].name@ != self.tables@[b].name@);
                } else {
                    assert(self.tables@[b].name@ != self.tables@[a].name@);
                }
            }
            assert forall|n: Seq<char>| names.to_set().contains(n) == self@.tables.dom().contains(
                n,
            ) by {
                if names.contains(n) {
                    let i = choose|i: int| 0 <= i < names.len() && names[i] == n;
                    assert(names_table(self.tables@, i, n));
                }
                if self@.tables.dom().contains(n) {
                    let i = choose|i: int| names_table(self.tables@, i, n);
                    assert(names[i] == n);
                }
            }
            assert(names.to_set() =~= self@.tables.dom());
        }
        out
    }
}

/// Another pointer to the value that `a` points to. Wraps `Arc::clone`, which
/// copies the pointer and leaves the value alone.
#[verifier::external_body]
pub(crate) fn arc_share<T>(a: &Arc<T>) -> (r: Arc<T>)
    ensures
        r == *a,
{
    Arc::clone(a)
}

/// Whether the database at `i` is called `name`.
pub open spec fn names_database(dbs: Seq<Arc<DatabaseSchema>>, i: int, name: Seq<char>) -> bool {
    0 <= i < dbs.len() && dbs[i]@.name == name
}

/// No two databases share a name.
pub open spec fn database_names_unique(dbs: Seq<Arc<DatabaseSchema>>) -> bool {
    forall|i: int, j: int|
        0 <= i < j < dbs.len() ==> (#[trigger] dbs[i])@.name != (#[trigger] dbs[j])@.name
}

/// The databases as a map from name to schema.
pub open spec fn databases_map(dbs: Seq<Arc<DatabaseSchema>>) -> Map<Seq<char>, DatabaseView> {
    Map::new(
        |name: Seq<char>| exists|i: int| names_database(dbs, i, name),
        |name: Seq<char>| dbs[choose|i: int| names_database(dbs, i, name)]@,
    )
}

/// Where names are unique, the map holds under each database's name that
/// database.
pub proof fn lemma_databases_map_at(dbs: Seq<Arc<DatabaseSchema>>, i: int)
    requires
        database_names_unique(dbs),
        0 <= i < dbs.len(),
    ensures
        databases_map(dbs).contains_key(dbs[i]@.name),
        databases_map(dbs)[dbs[i]@.name] == dbs[i]@,
{
    let name = dbs[i]@.name;
    assert(names_database(dbs, i, name));
    let j = choose|j: int| names_database(dbs, j, name);
    assert(i == j);
}

/// The databases of the server.
#[derive(Debug)]
pub struct Catalog {
    databases: Vec<Arc<DatabaseSchema>>,
}

impl View for Catalog {
    type V = Map<Seq<char>, DatabaseView>;

    closed spec fn view(&self) -> Map<Seq<char>, DatabaseView> {
        databases_map(self.databases@)
    }
}

/// Position of the database called `name`.
fn database_position(dbs: &Vec<Arc<DatabaseSchema>>, name: &str) -> (r: Option<usize>)
    ensures
        match r {
            Some(i) => names_database(dbs@, i as int, name@),
            None => forall|i: int| !names_database(dbs@, i, name@),
        },
{
    let mut i: usize = 0;
    while i < dbs.len()
        invariant
            i <= dbs.len(),
            forall|j: int| 0 <= j < i ==> !names_database(dbs@, j, name@),
        decreases dbs.len() - i,
    {
        if str_eq(dbs[i].name(), name) {
            return Some(i);
        }
        i += 1;
    }
    None
}

impl Catalog {
    #[verifier::type_invariant]
    spec fn inv(self) -> bool {
        database_names_unique(self.databases@)
    }

    /// A catalog without databases.
    pub fn new() -> (r: Catalog)
        ensures
            r@ == Map::<Seq<char>, DatabaseView>::empty(),
    {
        let r = Catalog { databases: Vec::new() };
        assert(r@ =~= Map::<Seq<char>, DatabaseView>::empty());
        r
    }

    /// Publishes `db` under its name, in place of the schema published under
    /// that name before, if any. Snapshots handed out earlier stay as they
    /// are.
    pub fn insert_database(&mut self, db: DatabaseSchema)
        ensures
            final(self)@ == old(self)@.insert(db@.name, db@),
    {
        proof {
            use_type_invariant(&*self);
        }
        let ghost before = self.databases@;
        let ghost name = db@.name;
        let ghost value = db@;
        let mut dbs: Vec<Arc<DatabaseSchema>> = Vec::new();
        std::mem::swap(&mut self.databases, &mut dbs);
        let found = database_position(&dbs, db.name());
        let shared = Arc::new(db);
        let ghost at: int = match found {
            Some(i) => i as int,
            None => before.len() as int,
        };
        match found {
            Some(i) => {
                dbs.set(i, shared);
            },
            None => {
                dbs.push(shared);
            },
        }
        let ghost after = dbs@;
        assert(after[at]@ == value);
        assert forall|j: int| 0 <= j < after.len() && j != at implies #[trigger] after[j]
            == before[j] && before[j]@.name != name by {
            if found is Some {
                assert(before[at]@.name == name);
            } else {
                assert(!names_database(before, j, name));
            }
        }
        assert(database_names_unique(after)) by {
            assert forall|a: int, b: int| 0 <= a < b < after.len() implies (#[trigger] after[a])@.name
                != (#[trigger] after[b])@.name by {
                if a != at && b != at {
                    assert(before[a]@.name != before[b]@.name);
                }
            }
        }
        assert forall|n: Seq<char>| #[trigger]
            databases_map(after).contains_key(n) == databases_map(before).insert(
                name,
                value,
            ).contains_key(n) by {
            if databases_map(after).contains_key(n) {
                let j = choose|j: int| names_database(after, j, n);
                if j != at {
                    assert(names_database(before, j, n));
                }
            }
            if databases_map(before).contains_key(n) && n != name {
                let j = choose|j: int| names_database(before, j, n);
                assert(names_database(after, j, n));
            }
            if n == name {
                assert(names_database(after, at, n));
            }
        }
        assert forall|n: Seq<char>| #[trigger]
            databases_map(after).contains_key(n) implies databases_map(after)[n] == databases_map(
            before,
        ).insert(name, value)[n] by {
            let j = choose|j: int| names_database(after, j, n);
            lemma_databases_map_at(after, j);
            if j != at {
                assert(names_database(before, j, n));
                lemma_databases_map_at(before, j);
            }
        }
        assert(databases_map(after) =~= databases_map(before).insert(name, value));
        std::mem::swap(&mut self.databases, &mut dbs);
    }

    /// The schema published under `name` at this moment, or `None` where the
    /// catalog holds no database of that name.
    pub fn db_schema(&self, name: &str) -> (r: Option<Arc<DatabaseSchema>>)
        ensures
            match r {
                Some(db) => self@.contains_key(name@) && self@[name@] == db@ && db@.name == name@,
                None => !self@.contains_key(name@),
            },
    {
        proof {
            use_type_invariant(self);
        }
        match database_position(&self.databases, name) {
            Some(i) => {
                proof {
                    lemma_databases_map_at(self.databases@, i as int);
                }
                Some(arc_share(&self.databases[i]))
            },
            None => None,
        }
    }
}

} // verus!
