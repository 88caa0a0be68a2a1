//! What a backend call returns, and how its failures are named and classified.
use vstd::prelude::*;
use crate::text::{
    chars_of, contains, decimal, decimal_chars, lowers_to, lowers_to_exec, signed_decimal,
    str_contains, string_of, text_owned, trim, trim_chars, split_on, split_on_char, char_views,
};

verus! {

/// The outcome of one backend call: a status code (zero on success), the JSON
/// payload of a success and the message of a failure.
pub struct ZdxResult {
    err: i32,
    json: Option<String>,
    errmsg: Option<String>,
}

/// What a backend result holds: its status code, payload and message.
pub ghost struct ResultView {
    pub code: i32,
    pub json: Option<Seq<char>>,
    pub message: Option<Seq<char>>,
}

/// The text of an optional string.
pub open spec fn opt_text(s: Option<String>) -> Option<Seq<char>> {
    match s {
        Some(t) => Some(t@),
        None => None,
    }
}

impl View for ZdxResult {
    type V = ResultView;

    closed spec fn view(&self) -> ResultView {
        ResultView { code: self.err, json: opt_text(self.json), message: opt_text(self.errmsg) }
    }
}

fn opt_str(s: &Option<String>) -> (r: Option<&str>)
    ensures
        match r {
            Some(t) => opt_text(*s) == Some(t@),
            None => s is None,
        },
{
    match s {
        Some(t) => Some(t.as_str()),
        None => None,
    }
}

impl ZdxResult {
    /// The result of a backend call with status `err`, payload `json` and
    /// failure message `errmsg`.
    pub fn from_raw(err: i32, json: Option<String>, errmsg: Option<String>) -> (r: ZdxResult)
        ensures
            r@ == (ResultView { code: err, json: opt_text(json), message: opt_text(errmsg) }),
    {
        ZdxResult { err, json, errmsg }
    }

    /// Whether the call succeeded.
    pub fn is_ok(&self) -> (r: bool)
        ensures
            r == (self@.code == 0),
    {
        self.err == 0
    }

    /// The JSON payload, if the backend gave one.
    pub fn json(&self) -> (r: Option<&str>)
        ensures
            match r {
                Some(t) => self@.json == Some(t@),
                None => self@.json is None,
            },
    {
        opt_str(&self.json)
    }

    /// The failure message, if the backend gave one.
    pub fn error_msg(&self) -> (r: Option<&str>)
        ensures
            match r {
                Some(t) => self@.message == Some(t@),
                None => self@.message is None,
            },
    {
        opt_str(&self.errmsg)
    }

    /// The status code of the call.
    pub fn error_code(&self) -> (r: i32)
        ensures
            r == self@.code,
    {
        self.err
    }
}

/// The libzfs name of an error code.
pub open spec fn libzfs_error_name_spec(code: i32) -> Option<Seq<char>> {
    match code {
        0 => Some("EZFS_SUCCESS"@),
        2000 => Some("EZFS_NOMEM"@),
        2001 => Some("EZFS_BADPROP"@),
        2002 => Some("EZFS_PROPREADONLY"@),
        2003 => Some("EZFS_PROPTYPE"@),
        2004 => Some("EZFS_PROPNONINHERIT"@),
        2005 => Some("EZFS_PROPSPACE"@),
        2006 => Some("EZFS_BADTYPE"@),
        2007 => Some("EZFS_BUSY"@),
        2008 => Some("EZFS_EXISTS"@),
        2009 => Some("EZFS_NOENT"@),
        2010 => Some("EZFS_BADSTREAM"@),
        2011 => Some("EZFS_DSREADONLY"@),
        2012 => Some("EZFS_VOLTOOBIG"@),
        2013 => Some("EZFS_INVALIDNAME"@),
        2014 => Some("EZFS_BADRESTORE"@),
        2015 => Some("EZFS_BADBACKUP"@),
        2016 => Some("EZFS_BADTARGET"@),
        2017 => Some("EZFS_NODEVICE"@),
        2018 => Some("EZFS_BADDEV"@),
        2019 => Some("EZFS_NOREPLICAS"@),
        2020 => Some("EZFS_RESILVERING"@),
        2021 => Some("EZFS_BADVERSION"@),
        2022 => Some("EZFS_POOLUNAVAIL"@),
        2023 => Some("EZFS_DEVOVERFLOW"@),
        2024 => Some("EZFS_BADPATH"@),
        2025 => Some("EZFS_CROSSTARGET"@),
        2026 => Some("EZFS_ZONED"@),
        2027 => Some("EZFS_MOUNTFAILED"@),
        2028 => Some("EZFS_UMOUNTFAILED"@),
        2029 => Some("EZFS_UNSHARENFSFAILED"@),
        2030 => Some("EZFS_SHARENFSFAILED"@),
        2031 => Some("EZFS_PERM"@),
        2032 => Some("EZFS_NOSPC"@),
        2033 => Some("EZFS_FAULT"@),
        2034 => Some("EZFS_IO"@),
        2035 => Some("EZFS_INTR"@),
        2036 => Some("EZFS_ISSPARE"@),
        2037 => Some("EZFS_INVALCONFIG"@),
        2038 => Some("EZFS_RECURSIVE"@),
        2039 => Some("EZFS_NOHISTORY"@),
        2040 => Some("EZFS_POOLPROPS"@),
        2041 => Some("EZFS_POOL_NOTSUP"@),
        2042 => Some("EZFS_POOL_INVALARG"@),
        2043 => Some("EZFS_NAMETOOLONG"@),
        2044 => Some("EZFS_OPENFAILED"@),
        2045 => Some("EZFS_NOCAP"@),
        2046 => Some("EZFS_LABELFAILED"@),
        2047 => Some("EZFS_BADWHO"@),
        2048 => Some("EZFS_BADPERM"@),
        2049 => Some("EZFS_BADPERMSET"@),
        2050 => Some("EZFS_NODELEGATION"@),
        2051 => Some("EZFS_UNSHARESMBFAILED"@),
        2052 => Some("EZFS_SHARESMBFAILED"@),
        2053 => Some("EZFS_BADCACHE"@),
        2054 => Some("EZFS_ISL2CACHE"@),
        2055 => Some("EZFS_VDEVNOTSUP"@),
        2056 => Some("EZFS_NOTSUP"@),
        2057 => Some("EZFS_ACTIVE_SPARE"@),
        2058 => Some("EZFS_UNPLAYED_LOGS"@),
        2059 => Some("EZFS_REFTAG_RELE"@),
        2060 => Some("EZFS_REFTAG_HOLD"@),
        2061 => Some("EZFS_TAGTOOLONG"@),
        2062 => Some("EZFS_PIPEFAILED"@),
        2063 => Some("EZFS_THREADCREATEFAILED"@),
        2064 => Some("EZFS_POSTSPLIT_ONLINE"@),
        2065 => Some("EZFS_SCRUBBING"@),
        2066 => Some("EZFS_ERRORSCRUBBING"@),
        2067 => Some("EZFS_ERRORSCRUB_PAUSED"@),
        2068 => Some("EZFS_NO_SCRUB"@),
        2069 => Some("EZFS_DIFF"@),
        2070 => Some("EZFS_DIFFDATA"@),
        2071 => Some("EZFS_POOLREADONLY"@),
        2072 => Some("EZFS_SCRUB_PAUSED"@),
        2073 => Some("EZFS_SCRUB_PAUSED_TO_CANCEL"@),
        2074 => Some("EZFS_ACTIVE_POOL"@),
        2075 => Some("EZFS_CRYPTOFAILED"@),
        2076 => Some("EZFS_NO_PENDING"@),
        2077 => Some("EZFS_CHECKPOINT_EXISTS"@),
        2078 => Some("EZFS_DISCARDING_CHECKPOINT"@),
        2079 => Some("EZFS_NO_CHECKPOINT"@),
        2080 => Some("EZFS_DEVRM_IN_PROGRESS"@),
        2081 => Some("EZFS_VDEV_TOO_BIG"@),
        2082 => Some("EZFS_IOC_NOTSUPPORTED"@),
        2083 => Some("EZFS_TOOMANY"@),
        2084 => Some("EZFS_INITIALIZING"@),
        2085 => Some("EZFS_NO_INITIALIZE"@),
        2086 => Some("EZFS_WRONG_PARENT"@),
        2087 => Some("EZFS_TRIMMING"@),
        2088 => Some("EZFS_NO_TRIM"@),
        2089 => Some("EZFS_TRIM_NOTSUP"@),
        2090 => Some("EZFS_NO_RESILVER_DEFER"@),
        2091 => Some("EZFS_EXPORT_IN_PROGRESS"@),
        2092 => Some("EZFS_REBUILDING"@),
        2093 => Some("EZFS_VDEV_NOTSUP"@),
        2094 => Some("EZFS_NOT_USER_NAMESPACE"@),
        2095 => Some("EZFS_CKSUM"@),
        2096 => Some("EZFS_RESUME_EXISTS"@),
        2097 => Some("EZFS_SHAREFAILED"@),
        2098 => Some("EZFS_RAIDZ_EXPAND_IN_PROGRESS"@),
        2099 => Some("EZFS_ASHIFT_MISMATCH"@),
        2100 => Some("EZFS_UNKNOWN"@),
        _ => None,
    }
}

/// The libzfs name of the error code `code`, if it has one.
pub fn libzfs_error_name(code: i32) -> (r: Option<&'static str>)
    ensures
        match r {
            Some(s) => libzfs_error_name_spec(code) == Some(s@),
            None => libzfs_error_name_spec(code) is None,
        },
{
    match code {
        0 => Some("EZFS_SUCCESS"),
        2000 => Some("EZFS_NOMEM"),
        2001 => Some("EZFS_BADPROP"),
        2002 => Some("EZFS_PROPREADONLY"),
        2003 => Some("EZFS_PROPTYPE"),
        2004 => Some("EZFS_PROPNONINHERIT"),
        2005 => Some("EZFS_PROPSPACE"),
        2006 => Some("EZFS_BADTYPE"),
        2007 => Some("EZFS_BUSY"),
        2008 => Some("EZFS_EXISTS"),
        2009 => Some("EZFS_NOENT"),
        2010 => Some("EZFS_BADSTREAM"),
        2011 => Some("EZFS_DSREADONLY"),
        2012 => Some("EZFS_VOLTOOBIG"),
        2013 => Some("EZFS_INVALIDNAME"),
        2014 => Some("EZFS_BADRESTORE"),
        2015 => Some("EZFS_BADBACKUP"),
        2016 => Some("EZFS_BADTARGET"),
        2017 => Some("EZFS_NODEVICE"),
        2018 => Some("EZFS_BADDEV"),
        2019 => Some("EZFS_NOREPLICAS"),
        2020 => Some("EZFS_RESILVERING"),
        2021 => Some("EZFS_BADVERSION"),
        2022 => Some("EZFS_POOLUNAVAIL"),
        2023 => Some("EZFS_DEVOVERFLOW"),
        2024 => Some("EZFS_BADPATH"),
        2025 => Some("EZFS_CROSSTARGET"),
        2026 => Some("EZFS_ZONED"),
        2027 => Some("EZFS_MOUNTFAILED"),
        2028 => Some("EZFS_UMOUNTFAILED"),
        2029 => Some("EZFS_UNSHARENFSFAILED"),
        2030 => Some("EZFS_SHARENFSFAILED"),
        2031 => Some("EZFS_PERM"),
        2032 => Some("EZFS_NOSPC"),
        2033 => Some("EZFS_FAULT"),
        2034 => Some("EZFS_IO"),
        2035 => Some("EZFS_INTR"),
        2036 => Some("EZFS_ISSPARE"),
        2037 => Some("EZFS_INVALCONFIG"),
        2038 => Some("EZFS_RECURSIVE"),
        2039 => Some("EZFS_NOHISTORY"),
        2040 => Some("EZFS_POOLPROPS"),
        2041 => Some("EZFS_POOL_NOTSUP"),
        2042 => Some("EZFS_POOL_INVALARG"),
        2043 => Some("EZFS_NAMETOOLONG"),
        2044 => Some("EZFS_OPENFAILED"),
        2045 => Some("EZFS_NOCAP"),
        2046 => Some("EZFS_LABELFAILED"),
        2047 => Some("EZFS_BADWHO"),
        2048 => Some("EZFS_BADPERM"),
        2049 => Some("EZFS_BADPERMSET"),
        2050 => Some("EZFS_NODELEGATION"),
        2051 => Some("EZFS_UNSHARESMBFAILED"),
        2052 => Some("EZFS_SHARESMBFAILED"),
        2053 => Some("EZFS_BADCACHE"),
        2054 => Some("EZFS_ISL2CACHE"),
        2055 => Some("EZFS_VDEVNOTSUP"),
        2056 => Some("EZFS_NOTSUP"),
        2057 => Some("EZFS_ACTIVE_SPARE"),
        2058 => Some("EZFS_UNPLAYED_LOGS"),
        2059 => Some("EZFS_REFTAG_RELE"),
        2060 => Some("EZFS_REFTAG_HOLD"),
        2061 => Some("EZFS_TAGTOOLONG"),
        2062 => Some("EZFS_PIPEFAILED"),
        2063 => Some("EZFS_THREADCREATEFAILED"),
        2064 => Some("EZFS_POSTSPLIT_ONLINE"),
        2065 => Some("EZFS_SCRUBBING"),
        2066 => Some("EZFS_ERRORSCRUBBING"),
        2067 => Some("EZFS_ERRORSCRUB_PAUSED"),
        2068 => Some("EZFS_NO_SCRUB"),
        2069 => Some("EZFS_DIFF"),
        2070 => Some("EZFS_DIFFDATA"),
        2071 => Some("EZFS_POOLREADONLY"),
        2072 => Some("EZFS_SCRUB_PAUSED"),
        2073 => Some("EZFS_SCRUB_PAUSED_TO_CANCEL"),
        2074 => Some("EZFS_ACTIVE_POOL"),
        2075 => Some("EZFS_CRYPTOFAILED"),
        2076 => Some("EZFS_NO_PENDING"),
        2077 => Some("EZFS_CHECKPOINT_EXISTS"),
        2078 => Some("EZFS_DISCARDING_CHECKPOINT"),
        2079 => Some("EZFS_NO_CHECKPOINT"),
        2080 => Some("EZFS_DEVRM_IN_PROGRESS"),
        2081 => Some("EZFS_VDEV_TOO_BIG"),
        2082 => Some("EZFS_IOC_NOTSUPPORTED"),
        2083 => Some("EZFS_TOOMANY"),
        2084 => Some("EZFS_INITIALIZING"),
        2085 => Some("EZFS_NO_INITIALIZE"),
        2086 => Some("EZFS_WRONG_PARENT"),
        2087 => Some("EZFS_TRIMMING"),
        2088 => Some("EZFS_NO_TRIM"),
        2089 => Some("EZFS_TRIM_NOTSUP"),
        2090 => Some("EZFS_NO_RESILVER_DEFER"),
        2091 => Some("EZFS_EXPORT_IN_PROGRESS"),
        2092 => Some("EZFS_REBUILDING"),
        2093 => Some("EZFS_VDEV_NOTSUP"),
        2094 => Some("EZFS_NOT_USER_NAMESPACE"),
        2095 => Some("EZFS_CKSUM"),
        2096 => Some("EZFS_RESUME_EXISTS"),
        2097 => Some("EZFS_SHAREFAILED"),
        2098 => Some("EZFS_RAIDZ_EXPAND_IN_PROGRESS"),
        2099 => Some("EZFS_ASHIFT_MISMATCH"),
        2100 => Some("EZFS_UNKNOWN"),
        _ => None,
    }
}

/// The label of a failed pool open or backend call: the libzfs name of the
/// code, else `ERRNO_<code>` for a positive code, else `ZDX_<code>`.
pub open spec fn error_code_label(code: i32) -> Seq<char> {
    match libzfs_error_name_spec(code) {
        Some(n) => n,
        None => if code > 0 {
            "ERRNO_"@ + decimal(code as nat)
        } else {
            "ZDX_"@ + signed_decimal(code as int)
        },
    }
}

/// The label of the error code `code`.
pub fn pool_open_error_code(code: i32) -> (r: String)
    ensures
        r@ == error_code_label(code),
{
    if let Some(name) = libzfs_error_name(code) {
        return text_owned(name);
    }
    if code > 0 {
        let mut v = chars_of("ERRNO_");
        let mut d = decimal_chars(code as u64);
        v.append(&mut d);
        return string_of(&v);
    }
    let mut v = chars_of("ZDX_");
    if code < 0 {
        v.push('-');
    }
    let magnitude: u64 = if code < 0 {
        (-(code as i64)) as u64
    } else {
        0
    };
    let mut d = decimal_chars(magnitude);
    v.append(&mut d);
    assert(v@ =~= "ZDX_"@ + signed_decimal(code as int));
    string_of(&v)
}

/// Whether a failure to open a dataset's object set was caused by the request.
pub fn is_dataset_user_input_error(err_msg: &str) -> (r: bool)
    ensures
        r == (contains(err_msg@, "has no head dataset"@) || contains(
            err_msg@,
            "head dataset bonus unsupported"@,
        ) || contains(err_msg@, "is $ORIGIN"@) || contains(err_msg@, "no user-visible ZPL objset"@)),
{
    str_contains(err_msg, "has no head dataset") || str_contains(
        err_msg,
        "head dataset bonus unsupported",
    ) || str_contains(err_msg, "is $ORIGIN") || str_contains(err_msg, "no user-visible ZPL objset")
}

/// Whether a space map failure was caused by the request.
pub fn is_spacemap_user_input_error(err_msg: &str) -> (r: bool)
    ensures
        r == (contains(err_msg@, "expected \"space map\""@) || contains(
            err_msg@,
            "bonus is too small for space map payload"@,
        ) || (contains(err_msg@, "failed to inspect spacemap object"@) && (contains(
            err_msg@,
            "Invalid argument"@,
        ) || contains(err_msg@, "No such file or directory"@)))),
{
    str_contains(err_msg, "expected \"space map\"") || str_contains(
        err_msg,
        "bonus is too small for space map payload",
    ) || (str_contains(err_msg, "failed to inspect spacemap object") && (str_contains(
        err_msg,
        "Invalid argument",
    ) || str_contains(err_msg, "No such file or directory")))
}

/// Whether an object set failure was caused by the request.
pub fn is_objset_user_input_error(err_msg: &str) -> (r: bool)
    ensures
        r == (contains(err_msg@, "dnode_hold failed for object"@) || contains(
            err_msg@,
            "objset is not ZFS"@,
        ) || contains(err_msg@, "dsl_dataset_hold_obj failed"@) || contains(
            err_msg@,
            "dmu_object_next failed"@,
        ) || contains(err_msg@, "dmu_object_info failed for object"@) || contains(
            err_msg@,
            "dmu_read failed for object"@,
        ) || contains(err_msg@, "zap_get_stats failed"@) || contains(
            err_msg@,
            "zap_lookup failed"@,
        ) || contains(err_msg@, "zap_cursor_retrieve failed"@)),
{
    str_contains(err_msg, "dnode_hold failed for object") || str_contains(
        err_msg,
        "objset is not ZFS",
    ) || str_contains(err_msg, "dsl_dataset_hold_obj failed") || str_contains(
        err_msg,
        "dmu_object_next failed",
    ) || str_contains(err_msg, "dmu_object_info failed for object") || str_contains(
        err_msg,
        "dmu_read failed for object",
    ) || str_contains(err_msg, "zap_get_stats failed") || str_contains(
        err_msg,
        "zap_lookup failed",
    ) || str_contains(err_msg, "zap_cursor_retrieve failed")
}

/// Whether a ZAP failure means that the payload could not be decrypted.
pub fn is_zap_unreadable_error(err_msg: &str) -> (r: bool)
    ensures
        r == ((contains(err_msg@, "zap_get_stats failed"@) || contains(
            err_msg@,
            "zap_lookup failed"@,
        ) || contains(err_msg@, "zap_cursor_retrieve failed"@)) && contains(
            err_msg@,
            "Invalid exchange"@,
        )),
{
    (str_contains(err_msg, "zap_get_stats failed") || str_contains(err_msg, "zap_lookup failed")
        || str_contains(err_msg, "zap_cursor_retrieve failed")) && str_contains(
        err_msg,
        "Invalid exchange",
    )
}

/// The hint given with an unreadable ZAP payload.
pub fn zap_unreadable_hint() -> (r: String)
    ensures
        r@ == "ZAP payload could not be decoded in this context. This commonly happens for encrypted dataset contents when key material is unavailable."@,
{
    text_owned(
        "ZAP payload could not be decoded in this context. This commonly happens for encrypted dataset contents when key material is unavailable.",
    )
}

/// How pools are opened: imported pools of the running system, or exported
/// pools found on offline media.
#[derive(Clone, Copy, Debug, PartialEq, Eq, Structural)]
pub enum PoolOpenMode {
    Live,
    Offline,
}

/// How pools are opened, and where offline pools are looked for.
#[derive(Clone, Debug)]
pub struct PoolOpenConfig {
    pub mode: PoolOpenMode,
    pub offline_search_paths: Option<String>,
    pub offline_pool_names: Vec<String>,
}

/// The name of a pool open mode.
pub fn pool_open_mode_name(mode: PoolOpenMode) -> (r: &'static str)
    ensures
        r@ == (match mode {
            PoolOpenMode::Live => "live"@,
            PoolOpenMode::Offline => "offline"@,
        }),
{
    match mode {
        PoolOpenMode::Live => "live",
        PoolOpenMode::Offline => "offline",
    }
}

/// The mode that `raw` names, ignoring surrounding whitespace and ASCII case.
pub fn parse_pool_open_mode(raw: &str) -> (r: Option<PoolOpenMode>)
    ensures
        r == (if lowers_to(trim(raw@), "live"@) {
            Some(PoolOpenMode::Live)
        } else if lowers_to(trim(raw@), "offline"@) {
            Some(PoolOpenMode::Offline)
        } else {
            None
        }),
{
    let v = chars_of(raw);
    let t = trim_chars(&v);
    if lowers_to_exec(&t, "live") {
        Some(PoolOpenMode::Live)
    } else if lowers_to_exec(&t, "offline") {
        Some(PoolOpenMode::Offline)
    } else {
        None
    }
}

/// The non-empty trimmed names among `pieces`, in order.
pub open spec fn names_of(pieces: Seq<Seq<char>>) -> Seq<Seq<char>>
    decreases pieces.len(),
{
    if pieces.len() == 0 {
        Seq::empty()
    } else {
        let prev = names_of(pieces.drop_last());
        let t = trim(pieces.last());
        if t.len() > 0 {
            prev.push(t)
        } else {
            prev
        }
    }
}

/// The pool names of a comma-separated list, trimmed, empty ones left out.
pub fn parse_offline_pool_names(raw: &str) -> (r: Vec<String>)
    ensures
        r@.len() == names_of(split_on(raw@, ',')).len(),
        forall|k: int| 0 <= k < r@.len() ==> #[trigger] r@[k]@ == names_of(split_on(raw@, ','))[k],
{
    let v = chars_of(raw);
    let pieces = split_on_char(&v, ',');
    let ghost ps = char_views(pieces@);
    let mut names: Vec<String> = Vec::new();
    let mut i: usize = 0;
    while i < pieces.len()
        invariant
            i <= pieces@.len(),
            ps == char_views(pieces@),
            ps == split_on(raw@, ','),
            names@.len() == names_of(ps.take(i as int)).len(),
            forall|k: int| 0 <= k < names@.len() ==> #[trigger] names@[k]@ == names_of(ps.take(i as int))[k],
        decreases pieces.len() - i,
    {
        proof {
            assert(ps.take(i + 1).drop_last() =~= ps.take(i as int));
            assert(ps.take(i + 1).last() == pieces@[i as int]@);
        }
        let t = trim_chars(&pieces[i]);
        if t.len() > 0 {
            names.push(string_of(&t));
        }
        i = i + 1;
    }
    assert(ps.take(i as int) =~= ps);
    names
}

} // verus!
