use zfs_explorer::fault::ExportFault;
use zfs_explorer::hex::decode_hex_bytes;
use zfs_explorer::range::{parse_range_header, ByteRange};
use zfs_explorer::reader::{ChunkedRead, OBJSET_DATA_MAX_LIMIT, ZPL_DOWNLOAD_MAX_BYTES};

fn range(start: u64, end: u64, partial: bool) -> ByteRange {
    ByteRange { start, end, partial }
}

#[test]
fn parse_range_header_supports_standard_and_suffix_forms() {
    assert_eq!(parse_range_header(None, 100), Ok(range(0, 99, false)));
    assert_eq!(parse_range_header(Some("bytes=10-19"), 100), Ok(range(10, 19, true)));
    assert_eq!(parse_range_header(Some("bytes=-20"), 100), Ok(range(80, 99, true)));
}

#[test]
fn no_header_serves_whole_object() {
    assert_eq!(parse_range_header(None, 1), Ok(range(0, 0, false)));
    assert_eq!(parse_range_header(None, 1000), Ok(range(0, 999, false)));
    assert_eq!(parse_range_header(None, u64::MAX), Ok(range(0, u64::MAX - 1, false)));
}

#[test]
fn empty_object_ranges() {
    assert_eq!(parse_range_header(None, 0), Ok(range(0, 0, false)));
    assert_eq!(parse_range_header(Some("bytes=0-0"), 0), Err(ExportFault::RangeNotSatisfiable));
    assert_eq!(parse_range_header(Some("bytes=-1"), 0), Err(ExportFault::RangeNotSatisfiable));
    assert_eq!(parse_range_header(Some("bytes=5-"), 0), Err(ExportFault::RangeNotSatisfiable));
    // a header without the unit is malformed before the size is looked at
    assert_eq!(parse_range_header(Some("items=0-1"), 0), Err(ExportFault::BadRange));
}

#[test]
fn suffix_ranges() {
    assert_eq!(parse_range_header(Some("bytes=-100"), 1000), Ok(range(900, 999, true)));
    assert_eq!(parse_range_header(Some("bytes=-5000"), 1000), Ok(range(0, 999, true)));
    assert_eq!(parse_range_header(Some("bytes=-1000"), 1000), Ok(range(0, 999, true)));
    assert_eq!(parse_range_header(Some("bytes=-0"), 1000), Err(ExportFault::RangeNotSatisfiable));
    assert_eq!(parse_range_header(Some("bytes=-x"), 1000), Err(ExportFault::BadRange));
    assert_eq!(parse_range_header(Some("bytes=-"), 1000), Err(ExportFault::BadRange));
}

#[test]
fn standard_and_open_ranges() {
    assert_eq!(parse_range_header(Some("bytes=500-599"), 1000), Ok(range(500, 599, true)));
    assert_eq!(parse_range_header(Some("bytes=500-"), 1000), Ok(range(500, 999, true)));
    assert_eq!(parse_range_header(Some("bytes=900-5000"), 1000), Ok(range(900, 999, true)));
    assert_eq!(parse_range_header(Some("  bytes= 7 - 8 "), 1000), Ok(range(7, 8, true)));
    assert_eq!(parse_range_header(Some("bytes=+7-8"), 1000), Ok(range(7, 8, true)));
    assert_eq!(parse_range_header(Some("bytes=bytes=1-2"), 1000), Ok(range(1, 2, true)));
}

#[test]
fn unsatisfiable_ranges() {
    assert_eq!(parse_range_header(Some("bytes=1500-1600"), 1000), Err(ExportFault::RangeNotSatisfiable));
    assert_eq!(parse_range_header(Some("bytes=1000-"), 1000), Err(ExportFault::RangeNotSatisfiable));
    assert_eq!(parse_range_header(Some("bytes=20-10"), 1000), Err(ExportFault::RangeNotSatisfiable));
}

#[test]
fn malformed_ranges() {
    assert_eq!(parse_range_header(Some("items=0-1"), 1000), Err(ExportFault::BadRange));
    assert_eq!(parse_range_header(Some("bytes=0-1,5-6"), 1000), Err(ExportFault::BadRange));
    assert_eq!(parse_range_header(Some("bytes=12"), 1000), Err(ExportFault::BadRange));
    assert_eq!(parse_range_header(Some("bytes=a-5"), 1000), Err(ExportFault::BadRange));
    assert_eq!(parse_range_header(Some("bytes=1-b"), 1000), Err(ExportFault::BadRange));
    assert_eq!(parse_range_header(Some("bytes=-18446744073709551616"), 1000), Err(ExportFault::BadRange));
}

#[test]
fn hex_payloads_decode() {
    assert_eq!(decode_hex_bytes("00ff10Ab"), Ok(vec![0x00, 0xff, 0x10, 0xab]));
    assert_eq!(decode_hex_bytes("  \n"), Ok(vec![]));
    assert_eq!(decode_hex_bytes(" 4142\n"), Ok(vec![0x41, 0x42]));
    assert_eq!(decode_hex_bytes("abc"), Err(ExportFault::MalformedPayload));
    assert_eq!(decode_hex_bytes("zz"), Err(ExportFault::MalformedPayload));
}

fn hex_of(bytes: &[u8]) -> String {
    bytes.iter().map(|b| format!("{:02x}", b)).collect()
}

/// Drives a read against `content`, answering each request with at most
/// `answer_cap` bytes of what the object holds at the requested offset.
fn read_with(content: &[u8], start: u64, end: u64, answer_cap: usize) -> (Result<Vec<u8>, ExportFault>, usize) {
    let mut reader = match ChunkedRead::begin(start, end) {
        Ok(r) => r,
        Err(e) => return (Err(e), 0),
    };
    let mut calls = 0usize;
    while let Some((offset, len)) = reader.next_request() {
        calls += 1;
        let from = (offset as usize).min(content.len());
        let to = (from + (len as usize).min(answer_cap)).min(content.len());
        reader.accept_payload(&hex_of(&content[from..to])).unwrap();
    }
    (reader.finish(), calls)
}

#[test]
fn chunked_read_round_trips() {
    let content: Vec<u8> = (0..3_000_000u32).map(|i| (i % 251) as u8).collect();
    let size = content.len() as u64;
    let (whole, calls) = read_with(&content, 0, size - 1, usize::MAX);
    assert_eq!(whole, Ok(content.clone()));
    assert_eq!(calls, 3);
    let (short_answers, _) = read_with(&content, 0, size - 1, 4096 * 3 + 5);
    assert_eq!(short_answers, Ok(content.clone()));
    let (part, _) = read_with(&content, 10, 20, usize::MAX);
    assert_eq!(part, Ok(content[10..=20].to_vec()));
}

#[test]
fn requests_are_bounded_chunks() {
    let mut reader = ChunkedRead::begin(5, 5 + OBJSET_DATA_MAX_LIMIT + 10).unwrap();
    assert_eq!(reader.next_request(), Some((5, OBJSET_DATA_MAX_LIMIT)));
    reader.accept_chunk(vec![7u8; OBJSET_DATA_MAX_LIMIT as usize]);
    assert_eq!(reader.next_request(), Some((5 + OBJSET_DATA_MAX_LIMIT, 11)));
    // an answer longer than what is missing is cut to it
    reader.accept_chunk(vec![9u8; 40]);
    assert_eq!(reader.next_request(), None);
    let bytes = reader.finish().unwrap();
    assert_eq!(bytes.len() as u64, OBJSET_DATA_MAX_LIMIT + 11);
    assert_eq!(bytes[bytes.len() - 1], 9);
}

#[test]
fn download_too_large_is_refused_before_reading() {
    assert_eq!(
        ChunkedRead::begin(0, ZPL_DOWNLOAD_MAX_BYTES).err(),
        Some(ExportFault::DownloadTooLarge { requested: ZPL_DOWNLOAD_MAX_BYTES + 1 })
    );
    assert_eq!(
        ChunkedRead::begin(0, u64::MAX).err(),
        Some(ExportFault::DownloadTooLarge { requested: u64::MAX })
    );
    let reader = ChunkedRead::begin(0, ZPL_DOWNLOAD_MAX_BYTES - 1).unwrap();
    assert_eq!(reader.next_request(), Some((0, OBJSET_DATA_MAX_LIMIT)));
}

#[test]
fn early_empty_chunk_is_short_read() {
    let mut reader = ChunkedRead::begin(0, 99).unwrap();
    reader.accept_chunk(vec![1u8; 30]);
    assert_eq!(reader.next_request(), Some((30, 70)));
    reader.accept_payload("").unwrap();
    assert_eq!(reader.next_request(), None);
    assert_eq!(reader.finish(), Err(ExportFault::ShortRead { expected: 100, got: 30 }));
}

#[test]
fn malformed_payload_leaves_read_unchanged() {
    let mut reader = ChunkedRead::begin(0, 3).unwrap();
    assert_eq!(reader.accept_payload("0g"), Err(ExportFault::MalformedPayload));
    assert_eq!(reader.next_request(), Some((0, 4)));
    reader.accept_payload("01020304").unwrap();
    assert_eq!(reader.finish(), Ok(vec![1, 2, 3, 4]));
}

#[test]
fn reversed_range_reads_nothing() {
    let reader = ChunkedRead::begin(10, 5).unwrap();
    assert_eq!(reader.next_request(), None);
    assert_eq!(reader.finish(), Ok(vec![]));
}

#[test]
fn fault_statuses() {
    assert_eq!(ExportFault::BadRange.status(), 400);
    assert_eq!(ExportFault::DatasetNotFound.status(), 404);
    assert_eq!(ExportFault::RangeNotSatisfiable.status(), 416);
    assert_eq!(ExportFault::ShortRead { expected: 1, got: 0 }.status(), 500);
    assert!(!ExportFault::ShortRead { expected: 1, got: 0 }.recoverable());
    assert!(ExportFault::DownloadTooLarge { requested: 1 }.recoverable());
    assert_eq!(ExportFault::Backend { client_error: true }.status(), 400);
    assert_eq!(ExportFault::Backend { client_error: false }.status(), 500);
}

#[test]
fn fault_codes() {
    let cases = [
        (ExportFault::InvalidPath, 400, "INVALID_PATH"),
        (ExportFault::DatasetPathUnresolved, 400, "DATASET_PATH_UNRESOLVED"),
        (ExportFault::InvalidDatasetPath, 400, "INVALID_DATASET_PATH"),
        (ExportFault::DatasetNotFound, 404, "DATASET_NOT_FOUND"),
        (ExportFault::HeadDatasetMissing, 400, "HTTP_400"),
        (ExportFault::ZplWalkFailed, 400, "ZPL_WALK_FAILED"),
        (ExportFault::PathNotFound, 404, "PATH_NOT_FOUND"),
        (ExportFault::ObjsetStatFailed, 400, "OBJSET_STAT_FAILED"),
        (ExportFault::NotAFile, 400, "NOT_A_FILE"),
        (ExportFault::BadRange, 400, "BAD_RANGE"),
        (ExportFault::RangeNotSatisfiable, 416, "RANGE_NOT_SATISFIABLE"),
        (ExportFault::DownloadTooLarge { requested: 9 }, 400, "DOWNLOAD_TOO_LARGE"),
        (ExportFault::ShortRead { expected: 2, got: 1 }, 500, "SHORT_READ"),
        (ExportFault::MalformedPayload, 500, "HTTP_500"),
        (ExportFault::Backend { client_error: true }, 400, "HTTP_400"),
        (ExportFault::Backend { client_error: false }, 500, "HTTP_500"),
        (ExportFault::InvalidFilter, 400, "HTTP_400"),
    ];
    for (fault, status, code) in cases {
        assert_eq!(fault.status(), status);
        assert_eq!(fault.code(), code);
        assert_eq!(fault.recoverable(), status != 500);
    }
}
