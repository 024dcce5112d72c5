//! Chunks: the immutable units of queryable data that a store hands to the
//! planning engine.
use crate::schema::{SchemaView, TableSchema};
use crate::text::names_view;
use vstd::prelude::*;

verus! {

/// Identifies a chunk within its table for as long as the chunk lives.
#[derive(Clone, Copy, Debug, PartialEq, Eq, Structural)]
pub struct ChunkId(pub u128);

/// Identifies the partition that produced a chunk.
#[derive(Clone, Copy, Debug, PartialEq, Eq, Structural)]
pub struct PartitionId(pub u64);

/// Orders the chunks of one partition: where two chunks hold a row with the
/// same primary key, the row of the chunk with the higher order is kept.
#[derive(Clone, Copy, Debug, PartialEq, Eq, Structural)]
pub struct ChunkOrder(pub i64);

/// The smallest and largest value of one column within a chunk.
#[derive(Debug, PartialEq, Eq)]
pub struct ColumnRange {
    pub column: String,
    pub min: i64,
    pub max: i64,
}

impl View for ColumnRange {
    type V = (Seq<char>, int, int);

    open spec fn view(&self) -> (Seq<char>, int, int) {
        (self.column@, self.min as int, self.max as int)
    }
}

/// What is known of a chunk's contents without reading them.
#[derive(Debug, PartialEq, Eq)]
pub struct ChunkStatistics {
    pub row_count: Option<u64>,
    pub ranges: Vec<ColumnRange>,
}

impl View for ChunkStatistics {
    type V = (Option<u64>, Seq<(Seq<char>, int, int)>);

    open spec fn view(&self) -> (Option<u64>, Seq<(Seq<char>, int, int)>) {
        (self.row_count, self.ranges@.map_values(|r: ColumnRange| r@))
    }
}

/// Where a persisted chunk lies: an object and the bytes of it that hold the
/// chunk.
#[derive(Debug, PartialEq, Eq)]
pub struct ParquetExecInput {
    pub path: String,
    pub offset: u64,
    pub length: u64,
}

/// The rows of a chunk: batches that are already in memory, each known by its
/// handle, or a reference to persisted data that is read when needed.
#[derive(Debug, PartialEq, Eq)]
pub enum QueryChunkData {
    RecordBatches(Vec<u64>),
    Parquet(ParquetExecInput),
}

/// The mathematical value of a chunk's data.
pub enum ChunkDataView {
    RecordBatches(Seq<u64>),
    Parquet { path: Seq<char>, offset: u64, length: u64 },
}

impl View for QueryChunkData {
    type V = ChunkDataView;

    open spec fn view(&self) -> ChunkDataView {
        match self {
            QueryChunkData::RecordBatches(b) => ChunkDataView::RecordBatches(b@),
            QueryChunkData::Parquet(p) => ChunkDataView::Parquet {
                path: p.path@,
                offset: p.offset,
                length: p.length,
            },
        }
    }
}

/// Everything a chunk says of itself, as one mathematical value. A chunk is
/// immutable, so this value is fixed for the chunk's lifetime.
pub struct ChunkSummary {
    pub id: ChunkId,
    pub partition_id: PartitionId,
    pub order: ChunkOrder,
    pub sort_key: Option<Seq<Seq<char>>>,
    pub schema: SchemaView,
    pub may_contain_pk_duplicates: bool,
    pub chunk_type: Seq<char>,
    pub stats: Option<(Option<u64>, Seq<(Seq<char>, int, int)>)>,
    pub data: ChunkDataView,
}

/// The interface of a chunk. Every method reads off a part of the chunk's
/// summary, so calling one twice gives the same answer.
pub trait QueryChunk {
    /// The chunk as a mathematical value.
    spec fn summary(&self) -> ChunkSummary;

    /// Row count and column ranges; `None` where they are unknown and the
    /// chunk has to be scanned.
    fn stats(&self) -> (r: Option<&ChunkStatistics>)
        ensures
            match r {
                Some(s) => self.summary().stats == Some(s@),
                None => self.summary().stats is None,
            },
    ;

    /// The chunk's own schema.
    fn schema(&self) -> (r: &TableSchema)
        ensures
            r@ == self.summary().schema,
            r@.valid(),
    ;

    /// The partition that produced the chunk.
    fn partition_id(&self) -> (r: PartitionId)
        ensures
            r == self.summary().partition_id,
    ;

    /// The columns by which the chunk's rows are sorted, if they are.
    fn sort_key(&self) -> (r: Option<&Vec<String>>)
        ensures
            match r {
                Some(k) => self.summary().sort_key == Some(names_view(k@)),
                None => self.summary().sort_key is None,
            },
    ;

    /// The chunk's identifier.
    fn id(&self) -> (r: ChunkId)
        ensures
            r == self.summary().id,
    ;

    /// Whether two rows of the chunk may share a primary key.
    fn may_contain_pk_duplicates(&self) -> (r: bool)
        ensures
            r == self.summary().may_contain_pk_duplicates,
    ;

    /// The chunk's rows.
    fn data(&self) -> (r: &QueryChunkData)
        ensures
            r@ == self.summary().data,
    ;

    /// A tag that tells the kinds of chunk apart in diagnostics.
    fn chunk_type(&self) -> (r: &str)
        ensures
            r@ == self.summary().chunk_type,
    ;

    /// The chunk's place in the order that settles duplicates.
    fn order(&self) -> (r: ChunkOrder)
        ensures
            r == self.summary().order,
    ;
}

/// Which of two chunks keeps its row where both hold a row with one primary
/// key.
#[derive(Clone, Copy, Debug, PartialEq, Eq, Structural)]
pub enum DedupChoice {
    KeepFirst,
    KeepSecond,
    /// The chunks are of different partitions, or have the same order: their
    /// orders settle nothing.
    Undecided,
}

/// The deduplication rule: within one partition the chunk with the higher
/// order wins.
pub open spec fn dedup_rule(a: ChunkSummary, b: ChunkSummary) -> DedupChoice {
    if a.partition_id != b.partition_id || a.order == b.order {
        DedupChoice::Undecided
    } else if a.order.0 > b.order.0 {
        DedupChoice::KeepFirst
    } else {
        DedupChoice::KeepSecond
    }
}

/// Applies the deduplication rule to two chunks that hold a row with the same
/// primary key.
pub fn dedup_choice<A: QueryChunk, B: QueryChunk>(a: &A, b: &B) -> (r: DedupChoice)
    ensures
        r == dedup_rule(a.summary(), b.summary()),
{
    let pa = a.partition_id();
    let pb = b.partition_id();
    let oa = a.order();
    let ob = b.order();
    if pa.0 != pb.0 || oa.0 == ob.0 {
        DedupChoice::Undecided
    } else if oa.0 > ob.0 {
        DedupChoice::KeepFirst
    } else {
        DedupChoice::KeepSecond
    }
}

/// Of two chunks of one partition with different orders, the rule keeps the
/// row of the chunk with the higher order, whichever of the two is named
/// first.
pub proof fn lemma_higher_order_wins(a: ChunkSummary, b: ChunkSummary)
    requires
        a.partition_id == b.partition_id,
        a.order != b.order,
    ensures
        dedup_rule(a, b) == DedupChoice::KeepFirst <==> a.order.0 > b.order.0,
        dedup_rule(a, b) == DedupChoice::KeepSecond <==> b.order.0 > a.order.0,
        dedup_rule(a, b) != DedupChoice::Undecided,
        dedup_rule(a, b) == DedupChoice::KeepFirst <==> dedup_rule(b, a) == DedupChoice::KeepSecond,
{
}

/// A chunk that lies in a persisted file.
#[derive(Debug)]
pub struct ParquetChunk {
    id: ChunkId,
    partition_id: PartitionId,
    order: ChunkOrder,
    schema: TableSchema,
    sort_key: Option<Vec<String>>,
    stats: Option<ChunkStatistics>,
    data: QueryChunkData,
}

impl ParquetChunk {
    #[verifier::type_invariant]
    spec fn inv(self) -> bool {
        &&& self.schema@.valid()
        &&& self.data is Parquet
    }

    /// A chunk for the bytes `file` names, with the given identity, order and
    /// schema.
    pub fn new(
        id: ChunkId,
        partition_id: PartitionId,
        order: ChunkOrder,
        schema: TableSchema,
        sort_key: Option<Vec<String>>,
        stats: Option<ChunkStatistics>,
        file: ParquetExecInput,
    ) -> (r: ParquetChunk)
        ensures
            r.summary().id == id,
            r.summary().partition_id == partition_id,
            r.summary().order == order,
            r.summary().schema == schema@,
            r.summary().sort_key == crate::schema::sort_key_view(sort_key),
            r.summary().stats == match stats {
                Some(s) => Some(s@),
                None => None,
            },
            r.summary().data == (ChunkDataView::Parquet {
                path: file.path@,
                offset: file.offset,
                length: file.length,
            }),
            !r.summary().may_contain_pk_duplicates,
            r.summary().chunk_type == "parquet"@,
    {
        proof {
            use_type_invariant(&schema);
        }
        ParquetChunk {
            id,
            partition_id,
            order,
            schema,
            sort_key,
            stats,
            data: QueryChunkData::Parquet(file),
        }
    }
}

impl QueryChunk for ParquetChunk {
    closed spec fn summary(&self) -> ChunkSummary {
        ChunkSummary {
            id: self.id,
            partition_id: self.partition_id,
            order: self.order,
            sort_key: crate::schema::sort_key_view(self.sort_key),
            schema: self.schema@,
            may_contain_pk_duplicates: false,
            chunk_type: "parquet"@,
            stats: match self.stats {
                Some(s) => Some(s@),
                None => None,
            },
            data: self.data@,
        }
    }

    fn stats(&self) -> (r: Option<&ChunkStatistics>) {
        self.stats.as_ref()
    }

    fn schema(&self) -> (r: &TableSchema) {
        proof {
            use_type_invariant(self);
        }
        &self.schema
    }

    fn partition_id(&self) -> (r: PartitionId) {
        self.partition_id
    }

    fn sort_key(&self) -> (r: Option<&Vec<String>>) {
        self.sort_key.as_ref()
    }

    fn id(&self) -> (r: ChunkId) {
        self.id
    }

    fn may_contain_pk_duplicates(&self) -> (r: bool) {
        false
    }

    fn data(&self) -> (r: &QueryChunkData) {
        &self.data
    }

    fn chunk_type(&self) -> (r: &str) {
        "parquet"
    }

    fn order(&self) -> (r: ChunkOrder) {
        self.order
    }
}

/// A persisted chunk never holds two rows with one primary key, and says of
/// itself that it is of the kind `parquet`.
pub proof fn lemma_parquet_chunk_kind(c: ParquetChunk)
    ensures
        !c.summary().may_contain_pk_duplicates,
        c.summary().chunk_type == "parquet"@,
{
}

} // verus!
