use zfs_explorer::backend::{
    is_dataset_user_input_error, is_objset_user_input_error, is_spacemap_user_input_error,
    is_zap_unreadable_error, libzfs_error_name, parse_pool_open_mode, pool_open_error_code,
    pool_open_mode_name, zap_unreadable_hint, PoolOpenMode, ZdxResult,
};
use zfs_explorer::export::{
    check_stat, check_walk, dataset_components, download_filename, export_range,
    find_child_dir, head_dataset_obj, objset_open_fault, path_context, response_head,
    response_head_typed, sanitize_download_filename, walk_path, DslChild,
};
use zfs_explorer::fault::ExportFault;
use zfs_explorer::range::ByteRange;
use zfs_explorer::resolve::{
    dataset_path_match, mountpoint_path_match, select_dataset, DatasetCatalogEntry,
};
use zfs_explorer::text::split_clean_path;

fn fs(name: &str, mountpoint: Option<&str>, mounted: Option<bool>) -> DatasetCatalogEntry {
    DatasetCatalogEntry {
        name: name.to_string(),
        dataset_type: "filesystem".to_string(),
        mountpoint: mountpoint.map(|m| m.to_string()),
        mounted,
    }
}

fn tank_catalog() -> Vec<DatasetCatalogEntry> {
    vec![fs("tank", Some("/tank"), None), fs("tank/data", Some("/tank/data"), None)]
}

#[test]
fn dataset_and_mountpoint_path_match_handles_prefixes() {
    assert_eq!(
        dataset_path_match("tank/data", "tank/data/file.bin"),
        Some("file.bin".to_string())
    );
    assert_eq!(
        mountpoint_path_match("/tank/data", "/tank/data/file.bin"),
        Some("file.bin".to_string())
    );
    assert_eq!(dataset_path_match("tank/data", "tank/other/file.bin"), None);
    assert_eq!(
        mountpoint_path_match("/tank/data", "/tank/other/file.bin"),
        None
    );
}

#[test]
fn path_match_needs_whole_segments() {
    assert_eq!(dataset_path_match("tank/data", "tank/data"), Some(String::new()));
    assert_eq!(dataset_path_match("tank/data", "tank/database/x"), None);
    assert_eq!(mountpoint_path_match("/", "/x"), None);
}

#[test]
fn longest_prefix_wins() {
    let t = select_dataset("/tank/data/report.txt", &tank_catalog()).unwrap();
    assert_eq!(t.dataset_name, "tank/data");
    assert_eq!(t.rel_path, "report.txt");
    let reversed: Vec<DatasetCatalogEntry> = tank_catalog().into_iter().rev().collect();
    let t = select_dataset("/tank/data/report.txt", &reversed).unwrap();
    assert_eq!(t.dataset_name, "tank/data");
    let t = select_dataset("/tank/other/x", &tank_catalog()).unwrap();
    assert_eq!(t.dataset_name, "tank");
    assert_eq!(t.rel_path, "other/x");
}

#[test]
fn relative_and_absolute_forms_resolve_alike() {
    let a = select_dataset("tank/data/report.txt", &tank_catalog()).unwrap();
    let b = select_dataset("/tank/data/report.txt", &tank_catalog()).unwrap();
    assert_eq!((a.dataset_name.clone(), a.rel_path.clone()), (b.dataset_name.clone(), b.rel_path.clone()));
    assert_eq!(a.dataset_name, "tank/data");
    assert_eq!(a.rel_path, "report.txt");
}

#[test]
fn mountpoints_elsewhere_resolve() {
    let catalog = vec![fs("tank", Some("/tank"), None), fs("tank/home", Some("/home"), Some(true))];
    let t = select_dataset("  /home/alice/notes.md ", &catalog).unwrap();
    assert_eq!(t.dataset_name, "tank/home");
    assert_eq!(t.rel_path, "alice/notes.md");
    let unmounted = vec![fs("tank", Some("/tank"), None), fs("tank/home", Some("/home"), Some(false))];
    assert_eq!(select_dataset("/home/alice", &unmounted).err(), Some(ExportFault::DatasetPathUnresolved));
}

#[test]
fn volumes_and_empty_paths_do_not_resolve() {
    let catalog = vec![DatasetCatalogEntry {
        name: "tank/vol".to_string(),
        dataset_type: "volume".to_string(),
        mountpoint: None,
        mounted: None,
    }];
    assert_eq!(select_dataset("tank/vol/x", &catalog).err(), Some(ExportFault::DatasetPathUnresolved));
    assert_eq!(select_dataset("   ", &tank_catalog()).err(), Some(ExportFault::InvalidPath));
    assert_eq!(select_dataset("", &tank_catalog()).err(), Some(ExportFault::InvalidPath));
    assert_eq!(select_dataset("/elsewhere", &tank_catalog()).err(), Some(ExportFault::DatasetPathUnresolved));
}

#[test]
fn dataset_components_walk_below_pool() {
    assert_eq!(dataset_components("tank", "tank"), Ok(vec![]));
    assert_eq!(
        dataset_components("tank", "tank/data/sub"),
        Ok(vec!["data".to_string(), "sub".to_string()])
    );
    assert_eq!(dataset_components("tank", "other/data"), Err(ExportFault::InvalidDatasetPath));
    assert_eq!(split_clean_path("//a///b/"), vec!["a".to_string(), "b".to_string()]);
}

#[test]
fn child_lookup_skips_unusable_entries() {
    let children = vec![
        DslChild { name: Some("local".to_string()), dir_objid: Some(3) },
        DslChild { name: Some("bad-zero".to_string()), dir_objid: Some(0) },
        DslChild { name: Some("bad-type".to_string()), dir_objid: None },
        DslChild { name: None, dir_objid: Some(7) },
    ];
    assert_eq!(find_child_dir(&children, "local"), Ok(3));
    assert_eq!(find_child_dir(&children, "dataset"), Ok(7));
    assert_eq!(find_child_dir(&children, "bad-zero"), Err(ExportFault::DatasetNotFound));
    assert_eq!(find_child_dir(&children, "bad-type"), Err(ExportFault::DatasetNotFound));
}

#[test]
fn object_checks() {
    assert_eq!(head_dataset_obj(Some(54)), Ok(54));
    assert_eq!(head_dataset_obj(Some(0)), Err(ExportFault::HeadDatasetMissing));
    assert_eq!(head_dataset_obj(None), Err(ExportFault::HeadDatasetMissing));
    assert_eq!(check_walk(true, ""), Ok(()));
    assert_eq!(check_walk(false, ""), Err(ExportFault::PathNotFound));
    assert_eq!(check_walk(true, "rest"), Err(ExportFault::PathNotFound));
    assert_eq!(check_stat("file"), Ok(()));
    assert_eq!(check_stat("directory"), Err(ExportFault::NotAFile));
    assert_eq!(walk_path(""), "/");
    assert_eq!(walk_path("a/b.txt"), "/a/b.txt");
    assert_eq!(
        objset_open_fault("DSL dir 5 has no head dataset"),
        ExportFault::Backend { client_error: true }
    );
    assert_eq!(objset_open_fault("EIO"), ExportFault::Backend { client_error: false });
}

#[test]
fn filenames() {
    assert_eq!(download_filename("dir/report.txt", 54, 7), "report.txt");
    assert_eq!(download_filename("", 54, 7), "objset-54-obj-7");
    assert_eq!(sanitize_download_filename("a\"b\\c/d"), "a_b_c_d");
    assert_eq!(sanitize_download_filename(""), "download.bin");
    assert_eq!(sanitize_download_filename("ok.bin"), "ok.bin");
}

fn context(size: u64) -> zfs_explorer::export::ZplPathContext {
    let target = select_dataset("/tank/data/report.txt", &tank_catalog()).unwrap();
    path_context(target, 54, 7, size)
}

fn header<'a>(head: &'a zfs_explorer::export::ResponseHead, name: &str) -> Option<&'a str> {
    head.headers.iter().find(|(n, _)| n == name).map(|(_, v)| v.as_str())
}

#[test]
fn partial_response_head() {
    let ctx = context(1000);
    assert_eq!(ctx.filename, "report.txt");
    let head = response_head_typed(&ctx, Some(ByteRange { start: 500, end: 599, partial: true }), "text/plain");
    assert_eq!(head.status, 206);
    assert_eq!(header(&head, "accept-ranges"), Some("bytes"));
    assert_eq!(header(&head, "content-type"), Some("text/plain"));
    assert_eq!(header(&head, "content-length"), Some("100"));
    assert_eq!(header(&head, "content-disposition"), Some("attachment; filename=\"report.txt\""));
    assert_eq!(header(&head, "content-range"), Some("bytes 500-599/1000"));
    assert_eq!(header(&head, "x-zfs-dataset"), Some("tank/data"));
    assert_eq!(header(&head, "x-zfs-relpath"), Some("report.txt"));
}

#[test]
fn whole_and_empty_response_heads() {
    let ctx = context(1000);
    let head = response_head(&ctx, Some(ByteRange { start: 0, end: 999, partial: false }));
    assert_eq!(head.status, 200);
    assert_eq!(header(&head, "content-type"), Some("text/plain"));
    assert_eq!(header(&head, "content-length"), Some("1000"));
    assert_eq!(header(&head, "content-range"), None);
    let empty = context(0);
    assert_eq!(export_range(0, Some("bytes=5-9")), Ok(None));
    let head = response_head(&empty, None);
    assert_eq!(head.status, 200);
    assert_eq!(header(&head, "content-length"), Some("0"));
    assert_eq!(header(&head, "x-zfs-dataset"), None);
    assert_eq!(export_range(1000, None), Ok(Some(ByteRange { start: 0, end: 999, partial: false })));
    assert_eq!(export_range(1000, Some("bytes=2000-")), Err(ExportFault::RangeNotSatisfiable));
}

#[test]
fn unknown_extension_is_octet_stream() {
    let mut ctx = context(10);
    ctx.filename = "blob.zzzunknown".to_string();
    let head = response_head(&ctx, Some(ByteRange { start: 0, end: 9, partial: false }));
    assert_eq!(header(&head, "content-type"), Some("application/octet-stream"));
}

#[test]
fn pool_open_error_code_maps_libzfs_names() {
    assert_eq!(pool_open_error_code(2009), "EZFS_NOENT");
    assert_eq!(pool_open_error_code(libc::EACCES), "ERRNO_13");
    assert_eq!(pool_open_error_code(-3), "ZDX_-3");
}

#[test]
fn error_code_labels() {
    assert_eq!(libzfs_error_name(0), Some("EZFS_SUCCESS"));
    assert_eq!(libzfs_error_name(2100), Some("EZFS_UNKNOWN"));
    assert_eq!(libzfs_error_name(2101), None);
    assert_eq!(pool_open_error_code(0), "EZFS_SUCCESS");
    assert_eq!(pool_open_error_code(i32::MIN), "ZDX_-2147483648");
}

#[test]
fn zap_unreadable_error_detection_matches_invalid_exchange() {
    assert!(is_zap_unreadable_error(
        "zap_get_stats failed: Invalid exchange"
    ));
    assert!(is_zap_unreadable_error(
        "zap_cursor_retrieve failed: Invalid exchange"
    ));
    assert!(!is_zap_unreadable_error(
        "zap_get_stats failed: Invalid argument"
    ));
}

#[test]
fn spacemap_user_input_error_detection() {
    assert!(is_spacemap_user_input_error(
        "object 265 is type \"object array\" (11); expected \"space map\""
    ));
    assert!(is_spacemap_user_input_error(
        "object 265 bonus is too small for space map payload (bonus=0, need>=24)"
    ));
    assert!(is_spacemap_user_input_error(
        "failed to inspect spacemap object 999999: No such file or directory"
    ));
    assert!(!is_spacemap_user_input_error(
        "failed to iterate spacemap object 264"
    ));
}

#[test]
fn user_input_error_detection() {
    assert!(is_objset_user_input_error("dmu_read failed for object 9: EIO"));
    assert!(!is_objset_user_input_error("out of memory"));
    assert!(is_dataset_user_input_error("dataset 12 is $ORIGIN"));
    assert!(!is_dataset_user_input_error("EIO"));
    assert!(zap_unreadable_hint().contains("encrypted dataset contents"));
}

#[test]
fn parse_pool_open_mode_accepts_expected_values() {
    assert!(matches!(
        parse_pool_open_mode("live"),
        Some(PoolOpenMode::Live)
    ));
    assert!(matches!(
        parse_pool_open_mode("OFFLINE"),
        Some(PoolOpenMode::Offline)
    ));
    assert!(parse_pool_open_mode("invalid").is_none());
}

#[test]
fn pool_open_mode_names() {
    assert_eq!(pool_open_mode_name(PoolOpenMode::Live), "live");
    assert_eq!(pool_open_mode_name(PoolOpenMode::Offline), "offline");
    assert_eq!(parse_pool_open_mode("  Live\n"), Some(PoolOpenMode::Live));
}

#[test]
fn backend_results() {
    let ok = ZdxResult::from_raw(0, Some("{}".to_string()), None);
    assert!(ok.is_ok());
    assert_eq!(ok.json(), Some("{}"));
    let failed = ZdxResult::from_raw(2009, None, Some("no such pool".to_string()));
    assert!(!failed.is_ok());
    assert_eq!(failed.error_code(), 2009);
    assert_eq!(failed.error_msg(), Some("no such pool"));
    assert_eq!(failed.json(), None);
}
