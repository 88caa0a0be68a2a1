use zfs_explorer::cli::{
    arc_counter, parse_arcstats, parse_ddt_summary, parse_iostat_counter, parse_optional_u64,
    parse_scaled_u64, parse_txgs_rows, parse_vdev_iostat_output, parse_zfs_space_rows,
    parse_zpool_space_summary, root_row_index, signed_delta_i64, space_totals, TxgCell,
};

fn get(counters: &[(String, u64)], key: &str) -> Option<u64> {
    counters.iter().rev().find(|(k, _)| k == key).map(|(_, v)| *v)
}

#[test]
fn parse_arcstats_skips_headers_and_parses_counters() {
    let sample = r#"
13 1 0x01 120 5760 123456 654321
name                            type data
hits                            4    100
misses                          4    25
c                               4    4096
c_min                           4    1024
c_max                           4    8192
"#;
    let counters = parse_arcstats(sample);
    assert_eq!(get(&counters, "hits"), Some(100));
    assert_eq!(get(&counters, "misses"), Some(25));
    assert_eq!(get(&counters, "c"), Some(4096));
    assert!(get(&counters, "13").is_none());
    assert!(get(&counters, "name").is_none());
}

#[test]
fn arc_counter_takes_last_value_or_zero() {
    let counters = parse_arcstats("hits 4 1\nhits 4 7\nsize 4 -0\nbad 4 -3\n");
    assert_eq!(arc_counter(&counters, "hits"), 7);
    assert_eq!(arc_counter(&counters, "size"), 0);
    assert_eq!(arc_counter(&counters, "bad"), 0);
    assert_eq!(arc_counter(&counters, "missing"), 0);
    assert_eq!(counters.len(), 3);
}

#[test]
fn parse_vdev_iostat_output_parses_rows() {
    let sample = "tank\t100\t900\t1\t2\t4096\t8192\n mirror-0\t100\t900\t1\t2\t4096\t8192\n";
    let rows = parse_vdev_iostat_output(sample);
    assert_eq!(rows.len(), 2);
    assert_eq!(rows[0].name, "tank");
    assert_eq!(rows[0].depth, 0);
    assert_eq!(rows[0].read_ops, Some(1));
    assert_eq!(rows[1].name, "mirror-0");
    assert_eq!(rows[1].depth, 1);
    assert_eq!(rows[1].write_bytes, Some(8192));
}

#[test]
fn vdev_rows_split_on_whitespace_and_skip_short_lines() {
    let rows = parse_vdev_iostat_output("  sda  1 2 3 4 5 -\r\n\nshort 1 2\n");
    assert_eq!(rows.len(), 1);
    assert_eq!(rows[0].name, "sda");
    assert_eq!(rows[0].depth, 0);
    assert_eq!(rows[0].alloc, Some(1));
    assert_eq!(rows[0].write_bytes, None);
}

#[test]
fn parse_iostat_counter_handles_dash_values() {
    assert_eq!(parse_iostat_counter("1234"), Some(1234));
    assert_eq!(parse_iostat_counter("-"), None);
    assert_eq!(parse_iostat_counter(""), None);
}

#[test]
fn optional_numbers_and_deltas() {
    assert_eq!(parse_optional_u64(" 42 "), Some(42));
    assert_eq!(parse_optional_u64("x"), None);
    assert_eq!(signed_delta_i64(Some(100), Some(200)), Some(-100));
    assert_eq!(signed_delta_i64(Some(u64::MAX), Some(0)), Some(i64::MAX));
    assert_eq!(signed_delta_i64(None, Some(1)), None);
}

#[test]
fn parse_ddt_summary_extracts_header_and_rows() {
    let sample = r#"
pool: tank
 dedup: DDT entries 123, size 4567 on disk, 890 in core

DDT histogram (aggregated over all DDTs):

refcnt blocks lsize psize dsize blocks lsize psize dsize
------ ------ ----- ----- ----- ------ ----- ----- -----
1      10     40960 40960 81920  10    40960 40960 81920
2      5      20480 10240 12288  10    40960 20480 24576
Total  15     61440 51200 94208  20    81920 61440 106496
"#;

    let summary = parse_ddt_summary(sample);
    assert_eq!(summary.entries, Some(123));
    assert_eq!(summary.size_on_disk, Some(4567));
    assert_eq!(summary.size_in_core, Some(890));
    assert_eq!(summary.classes.len(), 2);
    assert_eq!(summary.classes[0].refcount, 1);
    assert_eq!(summary.classes[1].refcount, 2);
    assert!(summary.totals.is_some());
    assert_eq!(summary.totals.as_ref().map(|row| row.blocks), Some(15));
    assert_eq!(
        summary.totals.as_ref().map(|row| row.referenced_blocks),
        Some(20)
    );
}

#[test]
fn parse_scaled_u64_handles_binary_suffixes() {
    assert_eq!(parse_scaled_u64("64"), Some(64));
    assert_eq!(parse_scaled_u64("8M"), Some(8 * 1024 * 1024));
    assert_eq!(parse_scaled_u64("60KiB"), Some(60 * 1024));
    assert_eq!(parse_scaled_u64("64KB"), Some(64 * 1024));
    assert_eq!(parse_scaled_u64("1.88K"), Some(1925));
    assert_eq!(parse_scaled_u64("-"), None);
    assert_eq!(parse_scaled_u64("n/a"), None);
}

#[test]
fn scaled_sizes_round_and_bound() {
    assert_eq!(parse_scaled_u64("0.5K"), Some(512));
    assert_eq!(parse_scaled_u64(".5K"), Some(512));
    assert_eq!(parse_scaled_u64("1.0009765625K"), Some(1025));
    assert_eq!(parse_scaled_u64("1.00048828125K"), Some(1025));
    assert_eq!(parse_scaled_u64("15E"), Some(15 * (1u64 << 60)));
    assert_eq!(parse_scaled_u64("16E"), None);
    assert_eq!(parse_scaled_u64("-1K"), None);
    assert_eq!(parse_scaled_u64("1..5K"), None);
    assert_eq!(parse_scaled_u64("K"), None);
}

#[test]
fn parse_ddt_summary_parses_humanized_rows() {
    let sample = r#"
 dedup: DDT entries 64, size 61440 on disk, 65536 in core

bucket              allocated                       referenced
______   ______________________________   ______________________________
refcnt   blocks   LSIZE   PSIZE   DSIZE   blocks   LSIZE   PSIZE   DSIZE
------   ------   -----   -----   -----   ------   -----   -----   -----
    16       64      8M      8M      8M    1.88K    240M    240M    240M
 Total       64      8M      8M      8M    1.88K    240M    240M    240M
"#;

    let summary = parse_ddt_summary(sample);
    assert_eq!(summary.entries, Some(64));
    assert_eq!(summary.size_on_disk, Some(61440));
    assert_eq!(summary.size_in_core, Some(65536));
    assert_eq!(summary.classes.len(), 1);
    assert_eq!(summary.classes[0].refcount, 16);
    assert_eq!(summary.classes[0].blocks, 64);
    assert_eq!(summary.classes[0].lsize, 8 * 1024 * 1024);
    assert_eq!(summary.classes[0].referenced_blocks, 1925);
    assert_eq!(
        summary.totals.as_ref().map(|row| row.referenced_dsize),
        Some(240 * 1024 * 1024)
    );
}

#[test]
fn ddt_total_row_without_refcount() {
    let summary = parse_ddt_summary("Total 1 2 3 4 5 6 7 8\n");
    let totals = summary.totals.unwrap();
    assert_eq!(totals.refcount, 0);
    assert_eq!(totals.blocks, 1);
    assert_eq!(totals.referenced_dsize, 8);
    assert!(summary.classes.is_empty());
    assert_eq!(summary.entries, None);
}

fn cell<'a>(columns: &[String], row: &'a [TxgCell], key: &str) -> &'a TxgCell {
    let idx = columns.iter().position(|c| c == key).unwrap();
    &row[idx]
}

#[test]
fn parse_txgs_rows_parses_headers_and_rows() {
    let sample = r#"
2 1 0x01 6 288 1234
txg birth state ndirty nread nwritten
42 1770590000 C 0 0 0
43 1770590001 O 4096 2 8192
"#;
    let (columns, rows) = parse_txgs_rows(sample);
    assert_eq!(
        columns,
        vec!["txg", "birth", "state", "ndirty", "nread", "nwritten"]
    );
    assert_eq!(rows.len(), 2);
    assert_eq!(cell(&columns, &rows[0], "txg"), &TxgCell::Unsigned(42));
    assert_eq!(cell(&columns, &rows[0], "state"), &TxgCell::Text("C".to_string()));
    assert_eq!(cell(&columns, &rows[1], "ndirty"), &TxgCell::Unsigned(4096));
}

#[test]
fn txg_cells_read_signed_values_and_skip_short_rows() {
    let (columns, rows) = parse_txgs_rows("txg delta\n7 -5\n8\n9 -9223372036854775808 extra\n");
    assert_eq!(columns.len(), 2);
    assert_eq!(rows.len(), 2);
    assert_eq!(rows[0], vec![TxgCell::Unsigned(7), TxgCell::Signed(-5)]);
    assert_eq!(rows[1], vec![TxgCell::Unsigned(9), TxgCell::Signed(i64::MIN)]);
    let (_, rows) = parse_txgs_rows("txg v\n1 -9223372036854775809\n2 -+3\n");
    assert_eq!(rows[0][1], TxgCell::Text("-9223372036854775809".to_string()));
    assert_eq!(rows[1][1], TxgCell::Text("-+3".to_string()));
}

#[test]
fn parse_zpool_space_summary_parses_core_fields() {
    let sample = "1099511627776\t549755813888\t549755813888\t23%\t1.14x\n";
    let parsed = parse_zpool_space_summary(sample).unwrap();
    assert_eq!(parsed.size_bytes, Some(1099511627776));
    assert_eq!(parsed.allocated_bytes, Some(549755813888));
    assert_eq!(parsed.free_bytes, Some(549755813888));
    assert_eq!(parsed.frag, "23%");
    assert_eq!(parsed.dedup_ratio, "1.14x");
    assert!(parse_zpool_space_summary("\n  \nonly\ttwo\n").is_none());
}

#[test]
fn parse_zfs_space_rows_handles_optional_values() {
    let sample = "tank\tfilesystem\t100\t200\t80\t150\t2.00x\n\
                  tank/vol\tvolume\t50\t-\t40\t-\t1.10x\n";
    let rows = parse_zfs_space_rows(sample);
    assert_eq!(rows.len(), 2);

    assert_eq!(rows[0].name, "tank");
    assert_eq!(rows[0].kind, "filesystem");
    assert_eq!(rows[0].used_bytes, Some(100));
    assert_eq!(rows[0].logical_used_bytes, Some(200));
    assert_eq!(rows[0].compress_ratio, "2.00x");
    assert_eq!(signed_delta_i64(rows[0].used_bytes, rows[0].logical_used_bytes), Some(-100));

    assert_eq!(rows[1].name, "tank/vol");
    assert_eq!(rows[1].logical_used_bytes, None);
}

#[test]
fn space_totals_and_root_row() {
    let rows = parse_zfs_space_rows(
        "tank/a\tfilesystem\t10\t20\t5\t-\t1.00x\n\
         tank\tfilesystem\t18446744073709551615\t1\t5\t7\t1.00x\n",
    );
    let totals = space_totals(&rows);
    assert_eq!(totals.dataset_count, 2);
    assert_eq!(totals.used_bytes, u64::MAX);
    assert_eq!(totals.logical_used_bytes, 21);
    assert_eq!(totals.referenced_bytes, 10);
    assert_eq!(totals.logical_referenced_bytes, 7);
    assert_eq!(root_row_index(&rows, "tank"), 1);
    assert_eq!(root_row_index(&rows, "other"), 0);
}
