use zfs_explorer::fault::ExportFault;
use zfs_explorer::limits::{
    normalize_block_tree_depth, normalize_block_tree_nodes, normalize_cursor_limit,
    normalize_limit, normalize_objset_data_limit, normalize_spacemap_bin_size,
    normalize_spacemap_bins_cursor_limit, normalize_spacemap_bins_limit,
    normalize_spacemap_cursor_limit, normalize_spacemap_limit, parse_graph_include,
    parse_spacemap_op_filter, BLOCK_TREE_DEFAULT_DEPTH, BLOCK_TREE_DEFAULT_NODES,
    BLOCK_TREE_MAX_DEPTH, BLOCK_TREE_MAX_NODES, DEFAULT_PAGE_LIMIT, MAX_PAGE_LIMIT,
    OBJSET_DATA_DEFAULT_LIMIT, SPACEMAP_BINS_DEFAULT_LIMIT, SPACEMAP_BINS_DEFAULT_SIZE,
    SPACEMAP_BINS_MAX_LIMIT, SPACEMAP_BINS_MAX_SIZE, SPACEMAP_BINS_MIN_SIZE,
    SPACEMAP_DEFAULT_LIMIT, SPACEMAP_MAX_LIMIT,
};

#[test]
fn normalize_limit_uses_default_and_bounds() {
    assert_eq!(normalize_limit(None), DEFAULT_PAGE_LIMIT);
    assert_eq!(normalize_limit(Some(0)), 1);
    assert_eq!(normalize_limit(Some(17)), 17);
    assert_eq!(normalize_limit(Some(MAX_PAGE_LIMIT + 1)), MAX_PAGE_LIMIT);
}

#[test]
fn normalize_cursor_limit_defaults_cursor_and_limit() {
    assert_eq!(normalize_cursor_limit(None, None), (0, DEFAULT_PAGE_LIMIT));
    assert_eq!(normalize_cursor_limit(Some(42), Some(64)), (42, 64));
}

#[test]
fn normalize_spacemap_limit_uses_default_and_bounds() {
    assert_eq!(normalize_spacemap_limit(None), SPACEMAP_DEFAULT_LIMIT);
    assert_eq!(normalize_spacemap_limit(Some(0)), 1);
    assert_eq!(normalize_spacemap_limit(Some(17)), 17);
    assert_eq!(
        normalize_spacemap_limit(Some(SPACEMAP_MAX_LIMIT + 1)),
        SPACEMAP_MAX_LIMIT
    );
}

#[test]
fn normalize_spacemap_bins_limit_uses_default_and_bounds() {
    assert_eq!(
        normalize_spacemap_bins_limit(None),
        SPACEMAP_BINS_DEFAULT_LIMIT
    );
    assert_eq!(normalize_spacemap_bins_limit(Some(0)), 1);
    assert_eq!(normalize_spacemap_bins_limit(Some(64)), 64);
    assert_eq!(
        normalize_spacemap_bins_limit(Some(SPACEMAP_BINS_MAX_LIMIT + 1)),
        SPACEMAP_BINS_MAX_LIMIT
    );
}

#[test]
fn normalize_spacemap_bin_size_uses_default_and_bounds() {
    assert_eq!(
        normalize_spacemap_bin_size(None),
        SPACEMAP_BINS_DEFAULT_SIZE
    );
    assert_eq!(normalize_spacemap_bin_size(Some(1)), SPACEMAP_BINS_MIN_SIZE);
    assert_eq!(normalize_spacemap_bin_size(Some(4096)), 4096);
    assert_eq!(
        normalize_spacemap_bin_size(Some(SPACEMAP_BINS_MAX_SIZE + 1)),
        SPACEMAP_BINS_MAX_SIZE
    );
}

#[test]
fn normalize_block_tree_depth_uses_default_and_bounds() {
    assert_eq!(normalize_block_tree_depth(None), BLOCK_TREE_DEFAULT_DEPTH);
    assert_eq!(normalize_block_tree_depth(Some(0)), 0);
    assert_eq!(
        normalize_block_tree_depth(Some(BLOCK_TREE_MAX_DEPTH + 3)),
        BLOCK_TREE_MAX_DEPTH
    );
}

#[test]
fn normalize_block_tree_nodes_uses_default_and_bounds() {
    assert_eq!(normalize_block_tree_nodes(None), BLOCK_TREE_DEFAULT_NODES);
    assert_eq!(normalize_block_tree_nodes(Some(0)), 1);
    assert_eq!(normalize_block_tree_nodes(Some(77)), 77);
    assert_eq!(
        normalize_block_tree_nodes(Some(BLOCK_TREE_MAX_NODES + 1)),
        BLOCK_TREE_MAX_NODES
    );
}

#[test]
fn other_cursor_limits_and_data_limit() {
    assert_eq!(normalize_spacemap_cursor_limit(None, Some(5000)), (0, SPACEMAP_MAX_LIMIT));
    assert_eq!(normalize_spacemap_bins_cursor_limit(Some(9), None), (9, SPACEMAP_BINS_DEFAULT_LIMIT));
    assert_eq!(normalize_objset_data_limit(None), OBJSET_DATA_DEFAULT_LIMIT);
    assert_eq!(normalize_objset_data_limit(Some(0)), 1);
    assert_eq!(normalize_objset_data_limit(Some(u64::MAX)), 1 << 20);
}

#[test]
fn parse_spacemap_op_filter_accepts_expected_values() {
    assert_eq!(parse_spacemap_op_filter(None).unwrap(), 0);
    assert_eq!(parse_spacemap_op_filter(Some("all")).unwrap(), 0);
    assert_eq!(parse_spacemap_op_filter(Some("alloc")).unwrap(), 1);
    assert_eq!(parse_spacemap_op_filter(Some("free")).unwrap(), 2);
}

#[test]
fn parse_spacemap_op_filter_rejects_invalid_values() {
    let err = parse_spacemap_op_filter(Some("bogus")).unwrap_err();
    assert_eq!(err.status(), 400);
    assert_eq!(err, ExportFault::InvalidFilter);
    assert_eq!(parse_spacemap_op_filter(Some(" FREE ")), Ok(2));
    assert_eq!(parse_spacemap_op_filter(Some("")), Ok(0));
}

#[test]
fn parse_graph_include_handles_defaults_and_flags() {
    assert_eq!(parse_graph_include(None), (true, true, false));
    assert_eq!(
        parse_graph_include(Some("semantic,zap")),
        (true, false, true)
    );
    assert_eq!(parse_graph_include(Some("physical")), (false, true, false));
}
