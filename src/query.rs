//! Parameters of the backend's query endpoints.
use vstd::prelude::*;

verus! {

/// Query of the per-vdev I/O statistics: the pool to sample.
#[derive(Debug, Clone, Default)]
pub struct PerfVdevIostatQuery {
    pub pool: String,
}

/// Body of a request that switches the pool open mode.
#[derive(Debug, Clone, Default)]
pub struct SetModeRequest {
    pub mode: String,
}

/// Query of a pool's persistent error log: a page, and whether to resolve paths.
#[derive(Debug, Clone, Default)]
pub struct PoolErrorsQuery {
    pub cursor: Option<u64>,
    pub limit: Option<u64>,
    pub resolve_paths: Option<bool>,
}

/// Query of the objects of the meta object set: a type filter and a page.
#[derive(Debug, Clone, Default)]
pub struct MosListQuery {
    pub type_filter: Option<i32>,
    pub start: Option<u64>,
    pub limit: Option<u64>,
}

/// Bounds of a block-pointer tree walk.
#[derive(Debug, Clone, Default)]
pub struct BlockTreeQuery {
    pub max_depth: Option<u64>,
    pub max_nodes: Option<u64>,
}

/// A page of ZAP entries.
#[derive(Debug, Clone, Default)]
pub struct ZapEntriesQuery {
    pub cursor: Option<u64>,
    pub limit: Option<u64>,
}

/// A raw block to read from a vdev.
#[derive(Debug, Clone, Default)]
pub struct BlockQuery {
    pub vdev: u64,
    pub offset: u64,
    pub asize: u64,
    pub limit: Option<u64>,
}

/// Bounds of a dataset tree listing.
#[derive(Debug, Clone, Default)]
pub struct DatasetTreeQuery {
    pub depth: Option<u8>,
    pub limit: Option<usize>,
}

/// How far to follow a snapshot's lineage back and forth.
#[derive(Debug, Clone, Default)]
pub struct SnapshotLineageQuery {
    pub max_prev: Option<u64>,
    pub max_next: Option<u64>,
}

/// A page of directory entries.
#[derive(Debug, Clone, Default)]
pub struct DirEntriesQuery {
    pub cursor: Option<u64>,
    pub limit: Option<u64>,
}

/// A path to walk inside an object set.
#[derive(Debug, Clone, Default)]
pub struct WalkQuery {
    pub path: Option<String>,
}

/// A bounded read of an object's data.
#[derive(Debug, Clone, Default)]
pub struct ObjsetDataQuery {
    pub offset: Option<u64>,
    pub limit: Option<u64>,
}

/// A page of space map ranges, with filters.
#[derive(Debug, Clone, Default)]
pub struct SpacemapRangesQuery {
    pub cursor: Option<u64>,
    pub limit: Option<u64>,
    pub op: Option<String>,
    pub min_length: Option<u64>,
    pub txg_min: Option<u64>,
    pub txg_max: Option<u64>,
}

/// A histogram of space map ranges, with filters.
#[derive(Debug, Clone, Default)]
pub struct SpacemapBinsQuery {
    pub bin_size: Option<u64>,
    pub cursor: Option<u64>,
    pub limit: Option<u64>,
    pub op: Option<String>,
    pub min_length: Option<u64>,
    pub txg_min: Option<u64>,
    pub txg_max: Option<u64>,
}

/// Depth and edge kinds of an object graph.
#[derive(Debug, Clone, Default)]
pub struct GraphQuery {
    pub depth: Option<u8>,
    pub edge_kinds: Option<String>,
}

} // verus!
