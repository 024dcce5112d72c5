//! The store that holds the data of the tables.
use crate::chunk::QueryChunk;
use datafusion::execution::context::SessionState;
use datafusion::prelude::Expr;
use vstd::prelude::*;

verus! {

/// Why a store could not hand out the chunks of a table, in the store's own
/// words.
#[derive(Debug, PartialEq, Eq)]
pub struct StorageError {
    pub message: String,
}

/// The column positions that a projection names, if there is a projection.
pub open spec fn projection_seq(projection: Option<&Vec<usize>>) -> Option<Seq<usize>> {
    match projection {
        Some(p) => Some(p@),
        None => None,
    }
}

/// A store of table data, asked for the chunks that a scan has to read.
///
/// Filters and projection are advice: the chunks that come back may hold rows
/// and columns that the scan did not ask for, and the planning engine filters
/// and projects them again.
pub trait WriteBuffer {
    /// The chunks of this store.
    type Chunk: QueryChunk;

    /// Whether `answer` is an answer of this store to the request for the
    /// chunks of table `table_name` of database `database_name`, made with
    /// the given filters and projection in the session state `ctx`. Each
    /// store may say for itself which answers it gives; one that says
    /// nothing rules no answer out. The library promises nothing of the
    /// answers and only keeps track of which request an answer belongs to.
    open spec fn answers(
        &self,
        database_name: Seq<char>,
        table_name: Seq<char>,
        filters: Seq<Expr>,
        projection: Option<Seq<usize>>,
        ctx: SessionState,
        answer: Result<Vec<Self::Chunk>, StorageError>,
    ) -> bool {
        true
    }

    /// The chunks of table `table_name` of database `database_name` that may
    /// hold rows which pass `filters`.
    fn get_table_chunks(
        &self,
        database_name: &str,
        table_name: &str,
        filters: &[Expr],
        projection: Option<&Vec<usize>>,
        ctx: &SessionState,
    ) -> (r: Result<Vec<Self::Chunk>, StorageError>)
        ensures
            self.answers(
                database_name@,
                table_name@,
                filters@,
                projection_seq(projection),
                *ctx,
                r,
            ),
    ;
}

} // verus!
