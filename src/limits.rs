//! Defaults and bounds of the paging and size parameters of queries.
use vstd::prelude::*;
use crate::fault::ExportFault;
use crate::text::{chars_of, contains, lowers_to, lowers_to_exec, str_contains, trim, trim_chars};

verus! {

/// Default page size.
pub const DEFAULT_PAGE_LIMIT: u64 = 200;
/// Largest page size.
pub const MAX_PAGE_LIMIT: u64 = 10_000;
/// Default page size of space map ranges.
pub const SPACEMAP_DEFAULT_LIMIT: u64 = 200;
/// Largest page size of space map ranges.
pub const SPACEMAP_MAX_LIMIT: u64 = 2_000;
/// Default page size of space map bins.
pub const SPACEMAP_BINS_DEFAULT_LIMIT: u64 = 256;
/// Largest page size of space map bins.
pub const SPACEMAP_BINS_MAX_LIMIT: u64 = 2_048;
/// 1 MiB.
pub const SPACEMAP_BINS_DEFAULT_SIZE: u64 = 1024 * 1024;
/// Smallest space map bin size.
pub const SPACEMAP_BINS_MIN_SIZE: u64 = 512;
/// 4 GiB.
pub const SPACEMAP_BINS_MAX_SIZE: u64 = 4 * 1024 * 1024 * 1024;
/// Default depth of a block tree walk.
pub const BLOCK_TREE_DEFAULT_DEPTH: u64 = 4;
/// Largest depth of a block tree walk.
pub const BLOCK_TREE_MAX_DEPTH: u64 = 16;
/// Default node budget of a block tree walk.
pub const BLOCK_TREE_DEFAULT_NODES: u64 = 2000;
/// Largest node budget of a block tree walk.
pub const BLOCK_TREE_MAX_NODES: u64 = 50_000;
/// Default length of one data read (64 KiB).
pub const OBJSET_DATA_DEFAULT_LIMIT: u64 = 64 * 1024;

/// `value`, or `default` where it is missing, held to `lo..=hi`.
pub open spec fn bounded(value: Option<u64>, default: u64, lo: u64, hi: u64) -> u64 {
    let v = match value {
        Some(v) => v,
        None => default,
    };
    if v < lo {
        lo
    } else if v > hi {
        hi
    } else {
        v
    }
}

fn bound(value: Option<u64>, default: u64, lo: u64, hi: u64) -> (r: u64)
    requires
        lo <= hi,
    ensures
        r == bounded(value, default, lo, hi),
{
    let v = match value {
        Some(v) => v,
        None => default,
    };
    if v < lo {
        lo
    } else if v > hi {
        hi
    } else {
        v
    }
}

/// A page size: 200 by default, within `1..=10000`.
pub fn normalize_limit(limit: Option<u64>) -> (r: u64)
    ensures
        r == bounded(limit, DEFAULT_PAGE_LIMIT, 1, MAX_PAGE_LIMIT),
{
    bound(limit, DEFAULT_PAGE_LIMIT, 1, MAX_PAGE_LIMIT)
}

/// A cursor (0 by default) and a page size.
pub fn normalize_cursor_limit(cursor: Option<u64>, limit: Option<u64>) -> (r: (u64, u64))
    ensures
        r.0 == (match cursor {
            Some(c) => c,
            None => 0,
        }),
        r.1 == bounded(limit, DEFAULT_PAGE_LIMIT, 1, MAX_PAGE_LIMIT),
{
    let c = match cursor {
        Some(c) => c,
        None => 0,
    };
    (c, normalize_limit(limit))
}

/// A page size of space map ranges: 200 by default, within `1..=2000`.
pub fn normalize_spacemap_limit(limit: Option<u64>) -> (r: u64)
    ensures
        r == bounded(limit, SPACEMAP_DEFAULT_LIMIT, 1, SPACEMAP_MAX_LIMIT),
{
    bound(limit, SPACEMAP_DEFAULT_LIMIT, 1, SPACEMAP_MAX_LIMIT)
}

/// A cursor (0 by default) and a page size of space map ranges.
pub fn normalize_spacemap_cursor_limit(cursor: Option<u64>, limit: Option<u64>) -> (r: (u64, u64))
    ensures
        r.0 == (match cursor {
            Some(c) => c,
            None => 0,
        }),
        r.1 == bounded(limit, SPACEMAP_DEFAULT_LIMIT, 1, SPACEMAP_MAX_LIMIT),
{
    let c = match cursor {
        Some(c) => c,
        None => 0,
    };
    (c, normalize_spacemap_limit(limit))
}

/// A page size of space map bins: 256 by default, within `1..=2048`.
pub fn normalize_spacemap_bins_limit(limit: Option<u64>) -> (r: u64)
    ensures
        r == bounded(limit, SPACEMAP_BINS_DEFAULT_LIMIT, 1, SPACEMAP_BINS_MAX_LIMIT),
{
    bound(limit, SPACEMAP_BINS_DEFAULT_LIMIT, 1, SPACEMAP_BINS_MAX_LIMIT)
}

/// A space map bin size: 1 MiB by default, within 512 bytes to 4 GiB.
pub fn normalize_spacemap_bin_size(bin_size: Option<u64>) -> (r: u64)
    ensures
        r == bounded(
            bin_size,
            SPACEMAP_BINS_DEFAULT_SIZE,
            SPACEMAP_BINS_MIN_SIZE,
            SPACEMAP_BINS_MAX_SIZE,
        ),
{
    bound(bin_size, SPACEMAP_BINS_DEFAULT_SIZE, SPACEMAP_BINS_MIN_SIZE, SPACEMAP_BINS_MAX_SIZE)
}

/// A cursor (0 by default) and a page size of space map bins.
pub fn normalize_spacemap_bins_cursor_limit(cursor: Option<u64>, limit: Option<u64>) -> (r: (
    u64,
    u64,
))
    ensures
        r.0 == (match cursor {
            Some(c) => c,
            None => 0,
        }),
        r.1 == bounded(limit, SPACEMAP_BINS_DEFAULT_LIMIT, 1, SPACEMAP_BINS_MAX_LIMIT),
{
    let c = match cursor {
        Some(c) => c,
        None => 0,
    };
    (c, normalize_spacemap_bins_limit(limit))
}

/// The depth of a block tree walk: 4 by default, at most 16.
pub fn normalize_block_tree_depth(depth: Option<u64>) -> (r: u64)
    ensures
        r == bounded(depth, BLOCK_TREE_DEFAULT_DEPTH, 0, BLOCK_TREE_MAX_DEPTH),
{
    bound(depth, BLOCK_TREE_DEFAULT_DEPTH, 0, BLOCK_TREE_MAX_DEPTH)
}

/// The node budget of a block tree walk: 2000 by default, within `1..=50000`.
pub fn normalize_block_tree_nodes(max_nodes: Option<u64>) -> (r: u64)
    ensures
        r == bounded(max_nodes, BLOCK_TREE_DEFAULT_NODES, 1, BLOCK_TREE_MAX_NODES),
{
    bound(max_nodes, BLOCK_TREE_DEFAULT_NODES, 1, BLOCK_TREE_MAX_NODES)
}

/// The length of one bounded data read: 64 KiB by default, within 1 byte to 1 MiB.
pub fn normalize_objset_data_limit(limit: Option<u64>) -> (r: u64)
    ensures
        r == bounded(limit, OBJSET_DATA_DEFAULT_LIMIT, 1, crate::reader::OBJSET_DATA_MAX_LIMIT),
{
    bound(limit, OBJSET_DATA_DEFAULT_LIMIT, 1, crate::reader::OBJSET_DATA_MAX_LIMIT)
}

/// Which edge kinds an object graph includes: semantic, physical, ZAP.
pub open spec fn graph_kinds_spec(kinds: Seq<char>) -> (bool, bool, bool) {
    (contains(kinds, "semantic"@), contains(kinds, "physical"@), contains(kinds, "zap"@))
}

/// The edge kinds that `kinds` names; semantic and physical by default.
pub fn parse_graph_include(kinds: Option<&str>) -> (r: (bool, bool, bool))
    ensures
        r == (match kinds {
            Some(s) => graph_kinds_spec(s@),
            None => graph_kinds_spec("semantic,physical"@),
        }),
{
    let kinds = match kinds {
        Some(s) => s,
        None => "semantic,physical",
    };
    (str_contains(kinds, "semantic"), str_contains(kinds, "physical"), str_contains(kinds, "zap"))
}

/// The operation code that a space map filter names: 0 for all operations
/// (also when none or an empty filter is given), 1 for allocations, 2 for frees.
pub open spec fn op_filter_spec(op: Seq<char>) -> Result<i32, ExportFault> {
    let t = trim(op);
    if t.len() == 0 || lowers_to(t, "all"@) {
        Ok(0)
    } else if lowers_to(t, "alloc"@) {
        Ok(1)
    } else if lowers_to(t, "free"@) {
        Ok(2)
    } else {
        Err(ExportFault::InvalidFilter)
    }
}

/// The operation code of the space map filter `op`, ignoring surrounding
/// whitespace and ASCII case.
pub fn parse_spacemap_op_filter(op: Option<&str>) -> (r: Result<i32, ExportFault>)
    ensures
        r == (match op {
            Some(s) => op_filter_spec(s@),
            None => Ok(0),
        }),
{
    let s = match op {
        Some(s) => s,
        None => return Ok(0),
    };
    let v = chars_of(s);
    let t = trim_chars(&v);
    if t.len() == 0 || lowers_to_exec(&t, "all") {
        Ok(0)
    } else if lowers_to_exec(&t, "alloc") {
        Ok(1)
    } else if lowers_to_exec(&t, "free") {
        Ok(2)
    } else {
        Err(ExportFault::InvalidFilter)
    }
}

} // verus!
