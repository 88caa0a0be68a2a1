//! The steps of an export that follow the dataset's selection, and the
//! response head that serves the bytes.
use vstd::prelude::*;
use crate::backend::is_dataset_user_input_error;
use crate::fault::ExportFault;
use crate::range::{parse_range_header, range_spec, opt_view, ByteRange};
use crate::resolve::{component_match, DatasetTarget};
use crate::text::{
    chars_of, clean_segments, contains, decimal, decimal_chars, split_clean_path, string_of, text_eq,
    text_owned,
};

verus! {

/// The segments of `dataset` below the pool's root directory.
pub open spec fn components_spec(pool: Seq<char>, dataset: Seq<char>) -> Result<
    Seq<Seq<char>>,
    ExportFault,
> {
    match component_match(pool, dataset) {
        Some(rest) => Ok(clean_segments(rest)),
        None => Err(ExportFault::InvalidDatasetPath),
    }
}

/// The DSL directory names to walk from the root directory of pool
/// `pool_name` down to `dataset_name`; a dataset outside the pool is refused.
pub fn dataset_components(pool_name: &str, dataset_name: &str) -> (r: Result<
    Vec<String>,
    ExportFault,
>)
    ensures
        match r {
            Ok(v) => components_spec(pool_name@, dataset_name@) matches Ok(s) && v@.len() == s.len()
                && forall|k: int| 0 <= k < s.len() ==> #[trigger] v@[k]@ == s[k],
            Err(e) => components_spec(pool_name@, dataset_name@) == Err::<Seq<Seq<char>>, ExportFault>(
                e,
            ),
        },
{
    match crate::resolve::dataset_path_match(pool_name, dataset_name) {
        Some(rest) => Ok(split_clean_path(&rest)),
        None => Err(ExportFault::InvalidDatasetPath),
    }
}

/// A child of a DSL directory as the backend lists it; either field may be
/// missing or unreadable.
#[derive(Debug, Clone)]
pub struct DslChild {
    pub name: Option<String>,
    pub dir_objid: Option<u64>,
}

/// A listed child of a DSL directory.
pub ghost struct ChildView {
    pub name: Option<Seq<char>>,
    pub dir_objid: Option<u64>,
}

impl View for DslChild {
    type V = ChildView;

    open spec fn view(&self) -> ChildView {
        ChildView {
            name: match self.name {
                Some(n) => Some(n@),
                None => None,
            },
            dir_objid: self.dir_objid,
        }
    }
}

/// The name under which a child is listed: `dataset` where it has none.
pub open spec fn child_name(c: ChildView) -> Seq<char> {
    match c.name {
        Some(n) => n,
        None => "dataset"@,
    }
}

/// `c` is a usable child named `component`.
pub open spec fn child_hit(c: ChildView, component: Seq<char>) -> bool {
    c.dir_objid matches Some(o) && o != 0 && child_name(c) == component
}

/// The directory object of the first usable child named `component`.
pub open spec fn find_child_spec(children: Seq<ChildView>, component: Seq<char>) -> Option<u64>
    decreases children.len(),
{
    if children.len() == 0 {
        None
    } else if child_hit(children[0], component) {
        children[0].dir_objid
    } else {
        find_child_spec(children.drop_first(), component)
    }
}

/// The views of listed children.
pub open spec fn child_views(children: Seq<DslChild>) -> Seq<ChildView> {
    children.map_values(|c: DslChild| c@)
}

/// The directory object of the child named `component` among `children`;
/// children without a directory object, or with object zero, are skipped.
pub fn find_child_dir(children: &Vec<DslChild>, component: &str) -> (r: Result<u64, ExportFault>)
    ensures
        r == (match find_child_spec(child_views(children@), component@) {
            Some(o) => Ok(o),
            None => Err(ExportFault::DatasetNotFound),
        }),
{
    let ghost views = child_views(children@);
    assert(views.subrange(0, views.len() as int) =~= views);
    let mut i: usize = 0;
    while i < children.len()
        invariant
            i <= children@.len(),
            views == child_views(children@),
            find_child_spec(views, component@) == find_child_spec(
                views.subrange(i as int, views.len() as int),
                component@,
            ),
        decreases children.len() - i,
    {
        let c = &children[i];
        let ghost rest = views.subrange(i as int, views.len() as int);
        assert(rest[0] == c@);
        assert(rest.drop_first() =~= views.subrange(i + 1, views.len() as int));
        if let Some(o) = c.dir_objid {
            if o != 0 {
                let name_matches = match &c.name {
                    Some(n) => text_eq(n, component),
                    None => {
                        let m = text_eq("dataset", component);
                        m
                    },
                };
                if name_matches {
                    return Ok(o);
                }
            }
        }
        i = i + 1;
    }
    Err(ExportFault::DatasetNotFound)
}

/// The head dataset of a DSL directory; a directory without one (a special
/// internal directory) has nothing to export.
pub fn head_dataset_obj(head: Option<u64>) -> (r: Result<u64, ExportFault>)
    ensures
        r == (match head {
            Some(o) if o != 0 => Ok(o),
            _ => Err(ExportFault::HeadDatasetMissing),
        }),
{
    match head {
        Some(o) => if o != 0 {
            Ok(o)
        } else {
            Err(ExportFault::HeadDatasetMissing)
        },
        None => Err(ExportFault::HeadDatasetMissing),
    }
}

/// The fault that reports a failure to open a dataset's object set with
/// message `err_msg`.
pub fn objset_open_fault(err_msg: &str) -> (r: ExportFault)
    ensures
        r matches ExportFault::Backend { client_error } && client_error == (contains_any_dataset_error(
            err_msg@,
        )),
{
    ExportFault::Backend { client_error: is_dataset_user_input_error(err_msg) }
}

/// The message names a dataset that cannot be opened for a reason of the request.
pub open spec fn contains_any_dataset_error(m: Seq<char>) -> bool {
    contains(m, "has no head dataset"@) || contains(m, "head dataset bonus unsupported"@)
        || contains(m, "is $ORIGIN"@) || contains(m, "no user-visible ZPL objset"@)
}

/// The path that is walked inside the object set for `rel_path`.
pub open spec fn walk_path_spec(rel: Seq<char>) -> Seq<char> {
    seq!['/'] + rel
}

/// The path walked inside the object set: `rel_path` below its root.
pub fn walk_path(rel_path: &str) -> (r: String)
    ensures
        r@ == walk_path_spec(rel_path@),
{
    let mut v: Vec<char> = vec!['/'];
    let mut rest = chars_of(rel_path);
    v.append(&mut rest);
    assert(v@ =~= walk_path_spec(rel_path@));
    string_of(&v)
}

/// A walk resolved the path only where it found an object and consumed the
/// whole path.
pub fn check_walk(found: bool, remaining: &str) -> (r: Result<(), ExportFault>)
    ensures
        r is Ok <==> found && remaining@.len() == 0,
        r matches Err(e) ==> e == ExportFault::PathNotFound,
{
    if !found || !remaining.is_empty() {
        return Err(ExportFault::PathNotFound);
    }
    Ok(())
}

/// Only a plain file can be exported.
pub fn check_stat(object_kind: &str) -> (r: Result<(), ExportFault>)
    ensures
        r is Ok <==> object_kind@ == "file"@,
        r matches Err(e) ==> e == ExportFault::NotAFile,
{
    if text_eq(object_kind, "file") {
        Ok(())
    } else {
        Err(ExportFault::NotAFile)
    }
}

/// The name under which an object is offered: the last segment of its path,
/// or one made of its ids where the path is the dataset's root.
pub open spec fn filename_spec(rel: Seq<char>, objset_id: u64, objid: u64) -> Seq<char> {
    let segs = clean_segments(rel);
    if segs.len() > 0 {
        segs.last()
    } else {
        "objset-"@ + decimal(objset_id as nat) + "-obj-"@ + decimal(objid as nat)
    }
}

/// The name under which the object `objid` of object set `objset_id`, at
/// `rel_path`, is offered.
pub fn download_filename(rel_path: &str, objset_id: u64, objid: u64) -> (r: String)
    ensures
        r@ == filename_spec(rel_path@, objset_id, objid),
{
    let mut segs = split_clean_path(rel_path);
    match segs.pop() {
        Some(last) => last,
        None => {
            let mut v = chars_of("objset-");
            let mut a = decimal_chars(objset_id);
            v.append(&mut a);
            let mut b = chars_of("-obj-");
            v.append(&mut b);
            let mut c = decimal_chars(objid);
            v.append(&mut c);
            string_of(&v)
        },
    }
}

/// A file resolved for export.
#[derive(Debug, Clone)]
pub struct ZplPathContext {
    pub dataset_name: String,
    pub objset_id: u64,
    pub rel_path: String,
    pub objid: u64,
    pub file_size: u64,
    pub filename: String,
}

/// The context of the file `objid` of object set `objset_id`, of
/// `file_size` bytes, that `target` resolved to.
pub fn path_context(target: DatasetTarget, objset_id: u64, objid: u64, file_size: u64) -> (r:
    ZplPathContext)
    ensures
        r.dataset_name@ == target.dataset_name@,
        r.rel_path@ == target.rel_path@,
        r.objset_id == objset_id,
        r.objid == objid,
        r.file_size == file_size,
        r.filename@ == filename_spec(target.rel_path@, objset_id, objid),
{
    let filename = download_filename(&target.rel_path, objset_id, objid);
    ZplPathContext {
        dataset_name: target.dataset_name,
        objset_id,
        rel_path: target.rel_path,
        objid,
        file_size,
        filename,
    }
}

/// A character of a file name as it stands in a quoted header parameter.
pub open spec fn safe_char(c: char) -> char {
    if c == '"' || c == '\\' || c == '/' {
        '_'
    } else {
        c
    }
}

/// A file name that is safe inside a quoted header parameter: quotes,
/// backslashes and slashes become `_`; an empty name becomes `download.bin`.
pub open spec fn sanitized(raw: Seq<char>) -> Seq<char> {
    if raw.len() == 0 {
        "download.bin"@
    } else {
        raw.map_values(|c: char| safe_char(c))
    }
}

/// `raw` made safe to stand in a `Content-Disposition` header.
pub fn sanitize_download_filename(raw: &str) -> (r: String)
    ensures
        r@ == sanitized(raw@),
{
    let v = chars_of(raw);
    if v.len() == 0 {
        return text_owned("download.bin");
    }
    let mut out: Vec<char> = Vec::new();
    let mut i: usize = 0;
    while i < v.len()
        invariant
            i <= v@.len(),
            out@ =~= v@.take(i as int).map_values(|c: char| safe_char(c)),
        decreases v.len() - i,
    {
        let c = v[i];
        let d = if c == '"' || c == '\\' || c == '/' {
            '_'
        } else {
            c
        };
        out.push(d);
        i = i + 1;
        assert(out@ =~= v@.take(i as int).map_values(|c: char| safe_char(c)));
    }
    assert(v@.take(i as int) =~= v@);
    string_of(&out)
}

/// The range to serve of a file of `file_size` bytes: none for an empty file,
/// whose response is an empty body whatever the `Range` header says.
pub fn export_range(file_size: u64, header: Option<&str>) -> (r: Result<
    Option<ByteRange>,
    ExportFault,
>)
    ensures
        r == (if file_size == 0 {
            Ok(None)
        } else {
            match range_spec(opt_view(header), file_size) {
                Ok(b) => Ok(Some(b)),
                Err(e) => Err(e),
            }
        }),
        r matches Ok(Some(b)) ==> b.start <= b.end < file_size,
{
    if file_size == 0 {
        return Ok(None);
    }
    match parse_range_header(header, file_size) {
        Ok(b) => Ok(Some(b)),
        Err(e) => Err(e),
    }
}

/// The media type that the file name `name` suggests.
pub uninterp spec fn mime_type_of(name: Seq<char>) -> Seq<char>;

/// Relies on `mime_guess::from_path` and `MimeGuess::first_or_octet_stream`:
/// the media type that the extension of a file name suggests, or
/// `application/octet-stream`, depending on the name alone.
#[verifier::external_body]
fn guess_content_type(filename: &str) -> (r: String)
    ensures
        r@ == mime_type_of(filename@),
{
    mime_guess::from_path(filename).first_or_octet_stream().essence_str().to_string()
}

/// Status and headers of a response that serves a file.
#[derive(Debug, Clone)]
pub struct ResponseHead {
    pub status: u16,
    pub headers: Vec<(String, String)>,
}

/// The views of header name and value pairs.
pub open spec fn headers_view(h: Seq<(String, String)>) -> Seq<(Seq<char>, Seq<char>)> {
    h.map_values(|p: (String, String)| (p.0@, p.1@))
}

/// The `Content-Disposition` value that offers a file under `name`.
pub open spec fn disposition(name: Seq<char>) -> Seq<char> {
    "attachment; filename=\""@ + name + "\""@
}

/// The `Content-Range` value of range `b` of an object of `size` bytes.
pub open spec fn content_range(b: ByteRange, size: u64) -> Seq<char> {
    "bytes "@ + decimal(b.start as nat) + "-"@ + decimal(b.end as nat) + "/"@ + decimal(size as nat)
}

/// `200` for a whole file, `206` for a range that a header asked for.
pub open spec fn head_status(range: Option<ByteRange>) -> u16 {
    match range {
        Some(b) => if b.partial {
            206
        } else {
            200
        },
        None => 200,
    }
}

/// The headers that serve `range` of the file of `ctx` (nothing, for an
/// empty file) with media type `content_type`.
pub open spec fn head_headers(ctx: ZplPathContext, range: Option<ByteRange>, content_type: Seq<char>) -> Seq<
    (Seq<char>, Seq<char>),
> {
    let name = sanitized(ctx.filename@);
    let common = seq![("accept-ranges"@, "bytes"@), ("content-type"@, content_type)];
    match range {
        None => common + seq![
            ("content-length"@, "0"@),
            ("content-disposition"@, disposition(name)),
        ],
        Some(b) => common + seq![
            ("content-length"@, decimal((b.end - b.start + 1) as nat)),
            ("content-disposition"@, disposition(name)),
            ("x-zfs-dataset"@, ctx.dataset_name@),
            ("x-zfs-relpath"@, ctx.rel_path@),
        ] + if b.partial {
            seq![("content-range"@, content_range(b, ctx.file_size))]
        } else {
            Seq::empty()
        },
    }
}

fn header_pair(name: &str, value: Vec<char>) -> (r: (String, String))
    ensures
        r.0@ == name@,
        r.1@ == value@,
{
    (text_owned(name), string_of(&value))
}

/// The status and headers that serve `range` of the file of `ctx` (nothing,
/// for an empty file) with media type `content_type`.
pub fn response_head_typed(ctx: &ZplPathContext, range: Option<ByteRange>, content_type: &str) -> (r:
    ResponseHead)
    requires
        range matches Some(b) ==> b.start <= b.end < u64::MAX,
    ensures
        r.status == head_status(range),
        headers_view(r.headers@) == head_headers(*ctx, range, content_type@),
{
    let name = sanitize_download_filename(&ctx.filename);
    let mut disp = chars_of("attachment; filename=\"");
    let mut nv = chars_of(&name);
    disp.append(&mut nv);
    let mut close = chars_of("\"");
    disp.append(&mut close);
    let ghost dv = disp@;
    assert(dv =~= disposition(name@));
    let mut headers: Vec<(String, String)> = Vec::new();
    headers.push(header_pair("accept-ranges", chars_of("bytes")));
    headers.push(header_pair("content-type", chars_of(content_type)));
    let status: u16 = match range {
        None => {
            headers.push(header_pair("content-length", chars_of("0")));
            headers.push(header_pair("content-disposition", disp));
            200
        },
        Some(b) => {
            headers.push(header_pair("content-length", decimal_chars(b.end - b.start + 1)));
            headers.push(header_pair("content-disposition", disp));
            headers.push(header_pair("x-zfs-dataset", chars_of(&ctx.dataset_name)));
            headers.push(header_pair("x-zfs-relpath", chars_of(&ctx.rel_path)));
            if b.partial {
                let mut cr = chars_of("bytes ");
                let mut s1 = decimal_chars(b.start);
                cr.append(&mut s1);
                let mut dash = chars_of("-");
                cr.append(&mut dash);
                let mut s2 = decimal_chars(b.end);
                cr.append(&mut s2);
                let mut sl = chars_of("/");
                cr.append(&mut sl);
                let mut s3 = decimal_chars(ctx.file_size);
                cr.append(&mut s3);
                assert(cr@ =~= content_range(b, ctx.file_size));
                headers.push(header_pair("content-range", cr));
                206
            } else {
                200
            }
        },
    };
    assert(headers_view(headers@) =~= head_headers(*ctx, range, content_type@));
    ResponseHead { status, headers }
}

/// The status and headers that serve `range` of the file of `ctx` (nothing,
/// for an empty file), its media type guessed from its sanitized name.
pub fn response_head(ctx: &ZplPathContext, range: Option<ByteRange>) -> (r: ResponseHead)
    requires
        range matches Some(b) ==> b.start <= b.end < u64::MAX,
    ensures
        r.status == head_status(range),
        headers_view(r.headers@) == head_headers(
            *ctx,
            range,
            mime_type_of(sanitized(ctx.filename@)),
        ),
{
    let name = sanitize_download_filename(&ctx.filename);
    let content_type = guess_content_type(&name);
    response_head_typed(ctx, range, &content_type)
}

} // verus!
