//! Single byte-range requests: the `Range` header against a known size.
use vstd::prelude::*;
use crate::fault::ExportFault;
use crate::text::{
    chars_of, contains_char, find_char, first_index, has_prefix, parse_u64_chars,
    parse_u64_spec, slice_chars, starts_with_chars, strip_repeated, strip_repeated_chars, trim,
    trim_chars,
};

verus! {

/// The bytes `start..=end` of an object; `partial` when a `Range` header asked
/// for them.
#[derive(Debug, Clone, Copy, PartialEq, Eq)]
pub struct ByteRange {
    pub start: u64,
    pub end: u64,
    pub partial: bool,
}

/// The `bytes=` unit that starts a range header.
pub open spec fn bytes_unit() -> Seq<char> {
    seq!['b', 'y', 't', 'e', 's', '=']
}

/// What follows the unit in a header that names it.
pub open spec fn range_expr(h: Seq<char>) -> Seq<char> {
    trim(strip_repeated(trim(h), bytes_unit()))
}

/// The whole of an object of `total` bytes, not asked for by a header.
pub open spec fn whole(total: u64) -> ByteRange {
    ByteRange { start: 0, end: if total == 0 { 0 } else { (total - 1) as u64 }, partial: false }
}

/// The range that `start_raw-end_raw` asks for, on an object of `total > 0` bytes.
pub open spec fn bounds_spec(start_raw: Seq<char>, end_raw: Seq<char>, total: u64) -> Result<
    ByteRange,
    ExportFault,
> {
    let last = (total - 1) as u64;
    if start_raw.len() == 0 {
        match parse_u64_spec(end_raw) {
            None => Err(ExportFault::BadRange),
            Some(n) => if n == 0 {
                Err(ExportFault::RangeNotSatisfiable)
            } else if n >= total {
                Ok(ByteRange { start: 0, end: last, partial: true })
            } else {
                Ok(ByteRange { start: (total - n) as u64, end: last, partial: true })
            },
        }
    } else {
        match parse_u64_spec(start_raw) {
            None => Err(ExportFault::BadRange),
            Some(s) => {
                let e = if end_raw.len() == 0 {
                    Some(last)
                } else {
                    parse_u64_spec(end_raw)
                };
                match e {
                    None => Err(ExportFault::BadRange),
                    Some(e) => if s >= total || s > e {
                        Err(ExportFault::RangeNotSatisfiable)
                    } else {
                        Ok(ByteRange { start: s, end: if e < last { e } else { last }, partial: true })
                    },
                }
            },
        }
    }
}

/// The range that an optional `Range` header asks for on an object of
/// `total` bytes.
pub open spec fn range_spec(header: Option<Seq<char>>, total: u64) -> Result<ByteRange, ExportFault> {
    match header {
        None => Ok(whole(total)),
        Some(h) => {
            let expr = range_expr(h);
            if !has_prefix(trim(h), bytes_unit()) {
                Err(ExportFault::BadRange)
            } else if expr.contains(',') {
                Err(ExportFault::BadRange)
            } else if total == 0 {
                Err(ExportFault::RangeNotSatisfiable)
            } else {
                match first_index(expr, '-') {
                    None => Err(ExportFault::BadRange),
                    Some(d) => bounds_spec(
                        trim(expr.subrange(0, d)),
                        trim(expr.subrange(d + 1, expr.len() as int)),
                        total,
                    ),
                }
            }
        },
    }
}

/// The text of an optional header.
pub open spec fn opt_view(h: Option<&str>) -> Option<Seq<char>> {
    match h {
        Some(s) => Some(s@),
        None => None,
    }
}

fn bounds(start_raw: &[char], end_raw: &[char], total: u64) -> (r: Result<ByteRange, ExportFault>)
    requires
        total > 0,
    ensures
        r == bounds_spec(start_raw@, end_raw@, total),
{
    let last = total - 1;
    if start_raw.len() == 0 {
        match parse_u64_chars(end_raw) {
            None => Err(ExportFault::BadRange),
            Some(n) => if n == 0 {
                Err(ExportFault::RangeNotSatisfiable)
            } else if n >= total {
                Ok(ByteRange { start: 0, end: last, partial: true })
            } else {
                Ok(ByteRange { start: total - n, end: last, partial: true })
            },
        }
    } else {
        match parse_u64_chars(start_raw) {
            None => Err(ExportFault::BadRange),
            Some(s) => {
                let e = if end_raw.len() == 0 {
                    Some(last)
                } else {
                    parse_u64_chars(end_raw)
                };
                match e {
                    None => Err(ExportFault::BadRange),
                    Some(e) => if s >= total || s > e {
                        Err(ExportFault::RangeNotSatisfiable)
                    } else {
                        Ok(ByteRange { start: s, end: if e < last { e } else { last }, partial: true })
                    },
                }
            },
        }
    }
}

/// The byte range that the optional `Range` header `header` asks for, on an
/// object of `total_size` bytes. Without a header the whole object is served
/// (`0..=0` for an empty one). A header must name the `bytes=` unit and hold a
/// single range, `START-END`, `START-` or the suffix form `-N`; whatever is
/// returned lies inside the object.
pub fn parse_range_header(header: Option<&str>, total_size: u64) -> (r: Result<ByteRange, ExportFault>)
    ensures
        r == range_spec(opt_view(header), total_size),
        header is None && total_size > 0 ==> r == Ok::<ByteRange, ExportFault>(
            ByteRange { start: 0, end: (total_size - 1) as u64, partial: false },
        ),
        header is None && total_size == 0 ==> r == Ok::<ByteRange, ExportFault>(
            ByteRange { start: 0, end: 0, partial: false },
        ),
        r matches Ok(b) ==> b.start <= b.end && (total_size > 0 ==> b.end < total_size),
        r matches Ok(b) ==> b.partial == (header is Some),
{
    let h = match header {
        None => {
            let end = if total_size == 0 {
                0
            } else {
                total_size - 1
            };
            return Ok(ByteRange { start: 0, end, partial: false });
        },
        Some(h) => h,
    };
    let unit = chars_of("bytes=");
    proof {
        reveal_strlit("bytes=");
        assert(unit@ =~= bytes_unit());
    }
    let hv = chars_of(h);
    let t = trim_chars(&hv);
    if !starts_with_chars(&t, &unit) {
        return Err(ExportFault::BadRange);
    }
    let stripped = strip_repeated_chars(&t, &unit);
    let expr = trim_chars(&stripped);
    if contains_char(&expr, ',') {
        return Err(ExportFault::BadRange);
    }
    if total_size == 0 {
        return Err(ExportFault::RangeNotSatisfiable);
    }
    match find_char(&expr, '-') {
        None => Err(ExportFault::BadRange),
        Some(d) => {
            let lhs = slice_chars(&expr, 0, d);
            let rhs = slice_chars(&expr, d + 1, expr.len());
            let start_raw = trim_chars(&lhs);
            let end_raw = trim_chars(&rhs);
            bounds(&start_raw, &end_raw, total_size)
        },
    }
}

/// An empty object has no range to serve: without a header its response is the
/// empty body `0..=0`, and a header that names the `bytes=` unit and a single
/// range cannot be satisfied.
pub proof fn lemma_empty_object_ranges(h: Seq<char>)
    requires
        has_prefix(trim(h), bytes_unit()),
        !range_expr(h).contains(','),
    ensures
        range_spec(None, 0) == Ok::<ByteRange, ExportFault>(
            ByteRange { start: 0, end: 0, partial: false },
        ),
        range_spec(Some(h), 0) == Err::<ByteRange, ExportFault>(ExportFault::RangeNotSatisfiable),
{
}

} // verus!
