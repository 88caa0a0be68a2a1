//! The closed set of faults that the export pipeline reports.
use vstd::prelude::*;

verus! {

/// A fault of the export pipeline. Resolution and range faults are caused by
/// the request; `ShortRead` and `MalformedPayload` mean that the backend's
/// data diverged from what it announced.
#[derive(Debug, Clone, Copy, PartialEq, Eq)]
pub enum ExportFault {
    InvalidPath,
    DatasetPathUnresolved,
    InvalidDatasetPath,
    DatasetNotFound,
    HeadDatasetMissing,
    ZplWalkFailed,
    PathNotFound,
    ObjsetStatFailed,
    NotAFile,
    BadRange,
    RangeNotSatisfiable,
    DownloadTooLarge { requested: u64 },
    ShortRead { expected: u64, got: u64 },
    MalformedPayload,
    Backend { client_error: bool },
    InvalidFilter,
}

/// The HTTP status that reports `f`.
pub open spec fn fault_status(f: ExportFault) -> u16 {
    match f {
        ExportFault::DatasetNotFound | ExportFault::PathNotFound => 404,
        ExportFault::RangeNotSatisfiable => 416,
        ExportFault::ShortRead { .. } | ExportFault::MalformedPayload => 500,
        ExportFault::Backend { client_error } => if client_error {
            400
        } else {
            500
        },
        _ => 400,
    }
}

/// The code that names `f` in an error response.
pub open spec fn fault_code(f: ExportFault) -> Seq<char> {
    match f {
        ExportFault::InvalidPath => "INVALID_PATH"@,
        ExportFault::DatasetPathUnresolved => "DATASET_PATH_UNRESOLVED"@,
        ExportFault::InvalidDatasetPath => "INVALID_DATASET_PATH"@,
        ExportFault::DatasetNotFound => "DATASET_NOT_FOUND"@,
        ExportFault::ZplWalkFailed => "ZPL_WALK_FAILED"@,
        ExportFault::PathNotFound => "PATH_NOT_FOUND"@,
        ExportFault::ObjsetStatFailed => "OBJSET_STAT_FAILED"@,
        ExportFault::NotAFile => "NOT_A_FILE"@,
        ExportFault::BadRange => "BAD_RANGE"@,
        ExportFault::RangeNotSatisfiable => "RANGE_NOT_SATISFIABLE"@,
        ExportFault::DownloadTooLarge { .. } => "DOWNLOAD_TOO_LARGE"@,
        ExportFault::ShortRead { .. } => "SHORT_READ"@,
        ExportFault::MalformedPayload => "HTTP_500"@,
        ExportFault::Backend { client_error } => if client_error {
            "HTTP_400"@
        } else {
            "HTTP_500"@
        },
        ExportFault::HeadDatasetMissing | ExportFault::InvalidFilter => "HTTP_400"@,
    }
}

impl ExportFault {
    /// The code that names this fault in an error response.
    pub fn code(&self) -> (r: &'static str)
        ensures
            r@ == fault_code(*self),
    {
        match self {
            ExportFault::InvalidPath => "INVALID_PATH",
            ExportFault::DatasetPathUnresolved => "DATASET_PATH_UNRESOLVED",
            ExportFault::InvalidDatasetPath => "INVALID_DATASET_PATH",
            ExportFault::DatasetNotFound => "DATASET_NOT_FOUND",
            ExportFault::ZplWalkFailed => "ZPL_WALK_FAILED",
            ExportFault::PathNotFound => "PATH_NOT_FOUND",
            ExportFault::ObjsetStatFailed => "OBJSET_STAT_FAILED",
            ExportFault::NotAFile => "NOT_A_FILE",
            ExportFault::BadRange => "BAD_RANGE",
            ExportFault::RangeNotSatisfiable => "RANGE_NOT_SATISFIABLE",
            ExportFault::DownloadTooLarge { .. } => "DOWNLOAD_TOO_LARGE",
            ExportFault::ShortRead { .. } => "SHORT_READ",
            ExportFault::MalformedPayload => "HTTP_500",
            ExportFault::Backend { client_error } => if *client_error {
                "HTTP_400"
            } else {
                "HTTP_500"
            },
            ExportFault::HeadDatasetMissing | ExportFault::InvalidFilter => "HTTP_400",
        }
    }

    /// The HTTP status of the response that reports this fault.
    pub fn status(&self) -> (r: u16)
        ensures
            r == fault_status(*self),
    {
        match self {
            ExportFault::DatasetNotFound | ExportFault::PathNotFound => 404,
            ExportFault::RangeNotSatisfiable => 416,
            ExportFault::ShortRead { .. } | ExportFault::MalformedPayload => 500,
            ExportFault::Backend { client_error } => if *client_error {
                400
            } else {
                500
            },
            _ => 400,
        }
    }

    /// Whether the caller can recover by changing the request: every fault
    /// but a short read, a malformed payload and a server-side backend fault.
    pub fn recoverable(&self) -> (r: bool)
        ensures
            r == (fault_status(*self) != 500),
    {
        self.status() != 500
    }
}

} // verus!
