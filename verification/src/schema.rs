//! Table schemas: the ordered columns of a table and its optional sort key.
use crate::text::{names_view, str_eq};
use vstd::prelude::*;

verus! {

/// What a column holds.
#[derive(Clone, Copy, Debug, PartialEq, Eq, Structural)]
pub enum ColumnType {
    Tag,
    Timestamp,
    Integer,
    UInteger,
    Float,
    String,
    Boolean,
}

/// One column of a table: its name and what it holds.
#[derive(Debug, PartialEq, Eq)]
pub struct Column {
    pub name: String,
    pub column_type: ColumnType,
}

impl View for Column {
    type V = (Seq<char>, ColumnType);

    open spec fn view(&self) -> (Seq<char>, ColumnType) {
        (self.name@, self.column_type)
    }
}

impl Clone for Column {
    fn clone(&self) -> (r: Self)
        ensures
            r@ == self@,
    {
        Column { name: self.name.clone(), column_type: self.column_type }
    }
}

/// Why a list of columns and a sort key do not make a schema.
#[derive(Clone, Copy, Debug, PartialEq, Eq, Structural)]
pub enum SchemaError {
    /// Two columns share a name.
    DuplicateColumn,
    /// The sort key repeats a column or names one that the table lacks.
    InvalidSortKey,
}

/// The mathematical value of a schema.
pub struct SchemaView {
    pub columns: Seq<(Seq<char>, ColumnType)>,
    pub sort_key: Option<Seq<Seq<char>>>,
}

/// The names of a list of columns, in order.
pub open spec fn column_names(columns: Seq<(Seq<char>, ColumnType)>) -> Seq<Seq<char>> {
    columns.map_values(|c: (Seq<char>, ColumnType)| c.0)
}

/// A sort key is usable with a list of columns when it repeats no name and
/// every name in it is a column.
pub open spec fn sort_key_fits(columns: Seq<(Seq<char>, ColumnType)>, key: Seq<Seq<char>>) -> bool {
    &&& key.no_duplicates()
    &&& forall|i: int| 0 <= i < key.len() ==> column_names(columns).contains(#[trigger] key[i])
}

impl SchemaView {
    /// No two columns share a name, and the sort key, if any, fits the columns.
    pub open spec fn valid(self) -> bool {
        &&& column_names(self.columns).no_duplicates()
        &&& self.sort_key matches Some(key) ==> sort_key_fits(self.columns, key)
    }

    /// Whether a column of that name exists.
    pub open spec fn has_column(self, name: Seq<char>) -> bool {
        column_names(self.columns).contains(name)
    }

    /// Two schemas agree when every column name they share has one type in
    /// both. Either may hold columns that the other lacks.
    pub open spec fn agrees_with(self, other: SchemaView) -> bool {
        forall|i: int, j: int|
            0 <= i < self.columns.len() && 0 <= j < other.columns.len() && (
            #[trigger] self.columns[i]).0 == (#[trigger] other.columns[j]).0
                ==> self.columns[i].1 == other.columns[j].1
    }
}

/// The views of a vector of columns.
pub open spec fn columns_view(columns: Seq<Column>) -> Seq<(Seq<char>, ColumnType)> {
    columns.map_values(|c: Column| c@)
}

/// The view of an optional sort key.
pub open spec fn sort_key_view(key: Option<Vec<String>>) -> Option<Seq<Seq<char>>> {
    match key {
        Some(k) => Some(names_view(k@)),
        None => None,
    }
}

/// The schema of a table: its columns in order, and the columns by which its
/// rows are sorted, if they are.
#[derive(Debug, PartialEq, Eq)]
pub struct TableSchema {
    columns: Vec<Column>,
    sort_key: Option<Vec<String>>,
}

impl View for TableSchema {
    type V = SchemaView;

    closed spec fn view(&self) -> SchemaView {
        SchemaView { columns: columns_view(self.columns@), sort_key: sort_key_view(self.sort_key) }
    }
}

/// Position of the first column called `name` among the first `upto`.
fn find_column(columns: &Vec<Column>, upto: usize, name: &str) -> (r: Option<usize>)
    requires
        upto <= columns.len(),
    ensures
        match r {
            Some(i) => i < upto && columns[i as int].name@ == name@,
            None => forall|i: int| 0 <= i < upto ==> columns[i].name@ != name@,
        },
{
    let mut i: usize = 0;
    while i < upto
        invariant
            i <= upto <= columns.len(),
            forall|j: int| 0 <= j < i ==> columns[j].name@ != name@,
        decreases upto - i,
    {
        if str_eq(columns[i].name.as_str(), name) {
            return Some(i);
        }
        i += 1;
    }
    None
}

/// Whether `name` is among the first `upto` strings.
fn find_name(names: &Vec<String>, upto: usize, name: &str) -> (r: bool)
    requires
        upto <= names.len(),
    ensures
        r == exists|i: int| 0 <= i < upto && names[i]@ == name@,
{
    let mut i: usize = 0;
    while i < upto
        invariant
            i <= upto <= names.len(),
            forall|j: int| 0 <= j < i ==> names[j]@ != name@,
        decreases upto - i,
    {
        if str_eq(names[i].as_str(), name) {
            return true;
        }
        i += 1;
    }
    false
}

/// Whether no two columns share a name.
fn names_distinct(columns: &Vec<Column>) -> (r: bool)
    ensures
        r == column_names(columns_view(columns@)).no_duplicates(),
{
    let ghost names = column_names(columns_view(columns@));
    let mut i: usize = 0;
    while i < columns.len()
        invariant
            i <= columns.len(),
            names == column_names(columns_view(columns@)),
            forall|a: int, b: int| 0 <= a < b < i ==> names[a] != names[b],
        decreases columns.len() - i,
    {
        match find_column(columns, i, columns[i].name.as_str()) {
            Some(j) => {
                assert(names[j as int] == names[i as int]);
                return false;
            },
            None => {
                assert forall|a: int, b: int| 0 <= a < b < i + 1 implies names[a] != names[b] by {
                    if b == i {
                        assert(columns[a].name@ != columns[i as int].name@);
                    }
                }
            },
        }
        i += 1;
    }
    true
}

/// Whether a sort key fits a list of columns.
fn key_fits(columns: &Vec<Column>, key: &Vec<String>) -> (r: bool)
    ensures
        r == sort_key_fits(columns_view(columns@), names_view(key@)),
{
    let ghost cols = columns_view(columns@);
    let ghost names = column_names(cols);
    let ghost k = names_view(key@);
    let mut i: usize = 0;
    while i < key.len()
        invariant
            i <= key.len(),
            cols == columns_view(columns@),
            names == column_names(cols),
            k == names_view(key@),
            forall|a: int, b: int| 0 <= a < b < i ==> k[a] != k[b],
            forall|a: int| 0 <= a < i ==> names.contains(#[trigger] k[a]),
        decreases key.len() - i,
    {
        if find_name(key, i, key[i].as_str()) {
            let ghost j = choose|j: int| 0 <= j < i && key[j]@ == key[i as int]@;
            assert(k[j] == k[i as int]);
            return false;
        }
        match find_column(columns, columns.len(), key[i].as_str()) {
            Some(j) => {
                assert(names[j as int] == k[i as int]);
            },
            None => {
                assert(!names.contains(k[i as int])) by {
                    if names.contains(k[i as int]) {
                        let w = choose|w: int| 0 <= w < names.len() && names[w] == k[i as int];
                        assert(columns[w].name@ == k[i as int]);
                    }
                }
                return false;
            },
        }
        assert forall|a: int, b: int| 0 <= a < b < i + 1 implies k[a] != k[b] by {
            if b == i {
                assert(key[a]@ != key[i as int]@);
            }
        }
        i += 1;
    }
    true
}

impl TableSchema {
    /// Every schema is valid.
    #[verifier::type_invariant]
    pub open spec fn inv(self) -> bool {
        self@.valid()
    }

    /// Builds a schema from columns and an optional sort key. A repeated column
    /// name is refused first; then a sort key that repeats a name or names a
    /// column that is not there.
    pub fn new(columns: Vec<Column>, sort_key: Option<Vec<String>>) -> (r: Result<
        TableSchema,
        SchemaError,
    >)
        ensures
            match r {
                Ok(s) => {
                    &&& s@.columns == columns_view(columns@)
                    &&& s@.sort_key == sort_key_view(sort_key)
                    &&& s@.valid()
                },
                Err(SchemaError::DuplicateColumn) => !column_names(
                    columns_view(columns@),
                ).no_duplicates(),
                Err(SchemaError::InvalidSortKey) => {
                    &&& column_names(columns_view(columns@)).no_duplicates()
                    &&& sort_key matches Some(k)
                    &&& !sort_key_fits(columns_view(columns@), names_view(k@))
                },
            },
    {
        if !names_distinct(&columns) {
            return Err(SchemaError::DuplicateColumn);
        }
        let fits = match &sort_key {
            Some(k) => key_fits(&columns, k),
            None => true,
        };
        if !fits {
            return Err(SchemaError::InvalidSortKey);
        }
        Ok(TableSchema { columns, sort_key })
    }

    /// The columns, in order.
    pub fn columns(&self) -> (r: &Vec<Column>)
        ensures
            columns_view(r@) == self@.columns,
            self@.valid(),
    {
        proof {
            use_type_invariant(self);
        }
        &self.columns
    }

    /// The sort key, if the table has one.
    pub fn sort_key(&self) -> (r: Option<&Vec<String>>)
        ensures
            match r {
                Some(k) => self@.sort_key == Some(names_view(k@)),
                None => self@.sort_key is None,
            },
    {
        self.sort_key.as_ref()
    }

    /// The position of the column called `name`.
    pub fn column_index(&self, name: &str) -> (r: Option<usize>)
        ensures
            match r {
                Some(i) => i < self@.columns.len() && self@.columns[i as int].0 == name@,
                None => !self@.has_column(name@),
            },
    {
        let r = find_column(&self.columns, self.columns.len(), name);
        proof {
            if r is None && self@.has_column(name@) {
                let names = column_names(self@.columns);
                let w = choose|w: int| 0 <= w < names.len() && names[w] == name@;
                assert(self.columns[w].name@ == name@);
            }
        }
        r
    }

    /// Whether this schema and `other` give every column they share one type.
    pub fn is_compatible_with(&self, other: &TableSchema) -> (r: bool)
        ensures
            r == self@.agrees_with(other@),
    {
        let mut i: usize = 0;
        while i < self.columns.len()
            invariant
                i <= self.columns.len(),
                forall|a: int, b: int|
                    0 <= a < i && 0 <= b < other@.columns.len() && (#[trigger] self@.columns[a]).0
                        == (#[trigger] other@.columns[b]).0 ==> self@.columns[a].1
                        == other@.columns[b].1,
            decreases self.columns.len() - i,
        {
            let mut j: usize = 0;
            while j < other.columns.len()
                invariant
                    i < self.columns.len(),
                    j <= other.columns.len(),
                    forall|b: int|
                        0 <= b < j && self@.columns[i as int].0 == (#[trigger] other@.columns[b]).0
                            ==> self@.columns[i as int].1 == other@.columns[b].1,
                decreases other.columns.len() - j,
            {
                if str_eq(self.columns[i].name.as_str(), other.columns[j].name.as_str())
                    && self.columns[i].column_type != other.columns[j].column_type {
                    assert(self@.columns[i as int].0 == other@.columns[j as int].0);
                    return false;
                }
                j += 1;
            }
            i += 1;
        }
        true
    }
}

impl Clone for TableSchema {
    fn clone(&self) -> (r: Self)
        ensures
            r@ == self@,
    {
        proof {
            use_type_invariant(self);
        }
        let mut columns: Vec<Column> = Vec::new();
        let mut i: usize = 0;
        while i < self.columns.len()
            invariant
                i <= self.columns.len(),
                columns.len() == i,
                forall|j: int| 0 <= j < i ==> columns[j]@ == self.columns[j]@,
            decreases self.columns.len() - i,
        {
            columns.push(self.columns[i].clone());
            i += 1;
        }
        assert(columns_view(columns@) =~= columns_view(self.columns@));
        let sort_key = match &self.sort_key {
            Some(k) => Some(clone_names(k)),
            None => None,
        };
        TableSchema { columns, sort_key }
    }
}

/// A copy of a vector of strings.
pub fn clone_names(names: &Vec<String>) -> (r: Vec<String>)
    ensures
        r@ == names@,
{
    let mut out: Vec<String> = Vec::new();
    let mut i: usize = 0;
    while i < names.len()
        invariant
            i <= names.len(),
            out.len() == i,
            forall|j: int| 0 <= j < i ==> out[j] == names[j],
        decreases names.len() - i,
    {
        out.push(names[i].clone());
        i += 1;
    }
    assert(out@ =~= names@);
    out
}

} // verus!
