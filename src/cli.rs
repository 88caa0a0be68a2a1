//! Readers of the text that the pool tools and the kernel statistics print.
use vstd::prelude::*;
use crate::text::{
    char_views, chars_are, chars_of, lines_of, lines_spec, parse_u64_chars, parse_u64_spec,
    split_on, split_on_char, string_of, tokens_of, trim, trim_chars, trim_end, trim_end_chars,
    ws_tokens, all_digits, digits_value, first_index, contains, lowers_to,
};

verus! {

/// The counter that a column holds: none where it is empty or `-`.
pub open spec fn counter_spec(raw: Seq<char>) -> Option<u64> {
    let t = trim(raw);
    if t.len() == 0 || t == seq!['-'] {
        None
    } else {
        parse_u64_spec(t)
    }
}

fn counter_of(raw: &[char]) -> (r: Option<u64>)
    ensures
        r == counter_spec(raw@),
{
    let t = trim_chars(raw);
    if t.len() == 0 || (t.len() == 1 && t[0] == '-') {
        proof {
            if t@.len() == 1 && t@[0] == '-' {
                assert(t@ =~= seq!['-']);
            }
        }
        return None;
    }
    proof {
        if t@ == seq!['-'] {
            assert(t@[0] == '-');
        }
    }
    parse_u64_chars(&t)
}

/// The counter in an iostat column; `-` and an empty column hold none.
pub fn parse_iostat_counter(raw: &str) -> (r: Option<u64>)
    ensures
        r == counter_spec(raw@),
{
    let v = chars_of(raw);
    counter_of(&v)
}

/// The number in an optional column; `-` and an empty column hold none.
pub fn parse_optional_u64(raw: &str) -> (r: Option<u64>)
    ensures
        r == counter_spec(raw@),
{
    let v = chars_of(raw);
    counter_of(&v)
}

/// `lhs - rhs`, held to the range of `i64`, where both are known.
pub fn signed_delta_i64(lhs: Option<u64>, rhs: Option<u64>) -> (r: Option<i64>)
    ensures
        r == (match (lhs, rhs) {
            (Some(l), Some(m)) => Some(
                if l - m > i64::MAX {
                    i64::MAX
                } else if l - m < i64::MIN {
                    i64::MIN
                } else {
                    (l - m) as i64
                },
            ),
            _ => None,
        }),
{
    match (lhs, rhs) {
        (Some(l), Some(m)) => {
            let d: i128 = l as i128 - m as i128;
            let c: i64 = if d > i64::MAX as i128 {
                i64::MAX
            } else if d < i64::MIN as i128 {
                i64::MIN
            } else {
                d as i64
            };
            Some(c)
        },
        _ => None,
    }
}

/// One vdev row of `zpool iostat` output.
#[derive(Debug, Clone, PartialEq, Eq)]
pub struct VdevIostatRow {
    pub name: String,
    pub depth: u64,
    pub alloc: Option<u64>,
    pub free: Option<u64>,
    pub read_ops: Option<u64>,
    pub write_ops: Option<u64>,
    pub read_bytes: Option<u64>,
    pub write_bytes: Option<u64>,
}

/// A vdev row: its name, depth and six counters (alloc, free, read and write ops, read and write bytes).
pub ghost struct VdevRowView {
    pub name: Seq<char>,
    pub depth: nat,
    pub counters: Seq<Option<u64>>,
}

impl View for VdevIostatRow {
    type V = VdevRowView;

    open spec fn view(&self) -> VdevRowView {
        VdevRowView {
            name: self.name@,
            depth: self.depth as nat,
            counters: seq![
                self.alloc,
                self.free,
                self.read_ops,
                self.write_ops,
                self.read_bytes,
                self.write_bytes,
            ],
        }
    }
}

/// The characters that `char::is_ascii_whitespace` accepts.
pub open spec fn is_ascii_ws(c: char) -> bool {
    c == ' ' || c == '\t' || c == '\n' || c == '\u{c}' || c == '\r'
}

/// The number of ASCII whitespace characters that `s` starts with.
pub open spec fn indent(s: Seq<char>) -> nat
    decreases s.len(),
{
    if s.len() > 0 && is_ascii_ws(s[0]) {
        1 + indent(s.drop_first())
    } else {
        0
    }
}

/// The columns of a row: tab-separated where it has seven or more of them,
/// else whitespace-separated.
pub open spec fn vdev_columns(t: Seq<char>) -> Seq<Seq<char>> {
    if split_on(t, '\t').len() >= 7 {
        split_on(t, '\t')
    } else {
        ws_tokens(t)
    }
}

/// The vdev row that `line` holds, if any: a name whose indentation gives
/// its depth in the vdev tree, then six counters.
pub open spec fn vdev_row(line: Seq<char>) -> Option<VdevRowView> {
    let t = trim_end(line);
    let parts = vdev_columns(t);
    if trim(t).len() == 0 || parts.len() < 7 || trim(parts[0]).len() == 0 {
        None
    } else {
        Some(
            VdevRowView {
                name: trim(parts[0]),
                depth: indent(parts[0]),
                counters: seq![
                    counter_spec(parts[1]),
                    counter_spec(parts[2]),
                    counter_spec(parts[3]),
                    counter_spec(parts[4]),
                    counter_spec(parts[5]),
                    counter_spec(parts[6]),
                ],
            },
        )
    }
}

/// The rows that `lines` hold, in order.
pub open spec fn vdev_rows(lines: Seq<Seq<char>>) -> Seq<VdevRowView>
    decreases lines.len(),
{
    if lines.len() == 0 {
        Seq::empty()
    } else {
        let prev = vdev_rows(lines.drop_last());
        match vdev_row(lines.last()) {
            Some(r) => prev.push(r),
            None => prev,
        }
    }
}

/// The views of rows.
pub open spec fn row_views(rows: Seq<VdevIostatRow>) -> Seq<VdevRowView> {
    rows.map_values(|r: VdevIostatRow| r@)
}

fn indent_of(s: &[char]) -> (r: u64)
    ensures
        r as nat == indent(s@),
{
    let mut i: usize = 0;
    assert(s@.subrange(0, s@.len() as int) =~= s@);
    while i < s.len() && (s[i] == ' ' || s[i] == '\t' || s[i] == '\n' || s[i] == '\u{c}' || s[i]
        == '\r')
        invariant
            i <= s@.len(),
            indent(s@) == i + indent(s@.subrange(i as int, s@.len() as int)),
        decreases s.len() - i,
    {
        proof {
            let rest = s@.subrange(i as int, s@.len() as int);
            assert(rest.drop_first() =~= s@.subrange(i + 1, s@.len() as int));
        }
        i = i + 1;
    }
    proof {
        let rest = s@.subrange(i as int, s@.len() as int);
        if i < s@.len() {
            assert(rest[0] == s@[i as int]);
        }
    }
    i as u64
}

fn vdev_row_of(line: &[char]) -> (r: Option<VdevIostatRow>)
    ensures
        match r {
            Some(row) => vdev_row(line@) == Some(row@),
            None => vdev_row(line@) is None,
        },
{
    let t = trim_end_chars(line);
    let whole = trim_chars(&t);
    if whole.len() == 0 {
        return None;
    }
    let tabs = split_on_char(&t, '\t');
    let parts = if tabs.len() >= 7 {
        tabs
    } else {
        tokens_of(&t)
    };
    assert(char_views(parts@) == vdev_columns(t@));
    if parts.len() < 7 {
        return None;
    }
    let raw_name = &parts[0];
    let name = trim_chars(raw_name);
    if name.len() == 0 {
        return None;
    }
    let depth = indent_of(raw_name);
    let row = VdevIostatRow {
        name: string_of(&name),
        depth,
        alloc: counter_of(&parts[1]),
        free: counter_of(&parts[2]),
        read_ops: counter_of(&parts[3]),
        write_ops: counter_of(&parts[4]),
        read_bytes: counter_of(&parts[5]),
        write_bytes: counter_of(&parts[6]),
    };
    proof {
        let v = char_views(parts@);
        assert(v[0] == parts@[0]@);
        assert(v[1] == parts@[1]@);
        assert(v[2] == parts@[2]@);
        assert(v[3] == parts@[3]@);
        assert(v[4] == parts@[4]@);
        assert(v[5] == parts@[5]@);
        assert(v[6] == parts@[6]@);
        assert(row@.counters =~= vdev_row(line@)->0.counters);
    }
    Some(row)
}

/// The vdev rows of `zpool iostat` output, in order; blank lines and lines
/// with fewer than seven columns or without a name are skipped.
pub fn parse_vdev_iostat_output(output: &str) -> (r: Vec<VdevIostatRow>)
    ensures
        row_views(r@) == vdev_rows(lines_spec(output@)),
{
    let v = chars_of(output);
    let lines = lines_of(&v);
    let ghost ls = char_views(lines@);
    let mut rows: Vec<VdevIostatRow> = Vec::new();
    let mut i: usize = 0;
    while i < lines.len()
        invariant
            i <= lines@.len(),
            ls == char_views(lines@),
            row_views(rows@) == vdev_rows(ls.take(i as int)),
        decreases lines.len() - i,
    {
        let row = vdev_row_of(&lines[i]);
        proof {
            assert(ls.take(i + 1).drop_last() =~= ls.take(i as int));
            assert(ls.take(i + 1).last() == lines@[i as int]@);
        }
        let ghost before = row_views(rows@);
        match row {
            Some(r) => {
                let ghost rv = r@;
                rows.push(r);
                assert(row_views(rows@) =~= before.push(rv));
            },
            None => {},
        }
        i = i + 1;
    }
    assert(ls.take(i as int) =~= ls);
    rows
}

/// The value of a kstat counter column: a `u64`, or a negative-signed zero
/// that `i64` reads as zero.
pub open spec fn arc_value(raw: Seq<char>) -> Option<u64> {
    match parse_u64_spec(raw) {
        Some(v) => Some(v),
        None => if raw.len() >= 2 && raw[0] == '-' && all_digits(raw.drop_first()) && digits_value(
            raw.drop_first(),
        ) == 0 {
            Some(0)
        } else {
            None
        },
    }
}

/// An ASCII letter.
pub open spec fn is_ascii_alpha(c: char) -> bool {
    ('a' <= c && c <= 'z') || ('A' <= c && c <= 'Z')
}

/// The counter that a line of `arcstats` holds: its first column names it
/// (starting with a letter; not the `name` header), its third holds the value.
pub open spec fn arc_entry(line: Seq<char>) -> Option<(Seq<char>, u64)> {
    let toks = ws_tokens(line);
    if toks.len() < 3 || toks[0].len() == 0 || toks[0] == "name"@ || !is_ascii_alpha(toks[0][0]) {
        None
    } else {
        match arc_value(toks[2]) {
            Some(v) => Some((toks[0], v)),
            None => None,
        }
    }
}

/// The counters that `lines` hold, in order.
pub open spec fn arc_entries(lines: Seq<Seq<char>>) -> Seq<(Seq<char>, u64)>
    decreases lines.len(),
{
    if lines.len() == 0 {
        Seq::empty()
    } else {
        let prev = arc_entries(lines.drop_last());
        match arc_entry(lines.last()) {
            Some(e) => prev.push(e),
            None => prev,
        }
    }
}

/// The views of named counters.
pub open spec fn entry_views(v: Seq<(String, u64)>) -> Seq<(Seq<char>, u64)> {
    v.map_values(|e: (String, u64)| (e.0@, e.1))
}

/// The value of the last counter named `key`, or zero.
pub open spec fn counter_lookup(entries: Seq<(Seq<char>, u64)>, key: Seq<char>) -> u64
    decreases entries.len(),
{
    if entries.len() == 0 {
        0
    } else if entries.last().0 == key {
        entries.last().1
    } else {
        counter_lookup(entries.drop_last(), key)
    }
}

fn zero_digits(v: &[char], from: usize) -> (r: bool)
    requires
        from <= v@.len(),
    ensures
        r == (v@.len() > from && all_digits(v@.subrange(from as int, v@.len() as int))
            && digits_value(v@.subrange(from as int, v@.len() as int)) == 0),
{
    if v.len() <= from {
        return false;
    }
    let mut i: usize = from;
    while i < v.len()
        invariant
            from <= i <= v@.len(),
            forall|k: int| from <= k < i ==> v@[k] == '0',
        decreases v.len() - i,
    {
        if v[i] != '0' {
            proof {
                let t = v@.subrange(from as int, v@.len() as int);
                if all_digits(t) && digits_value(t) == 0 {
                    lemma_zero_value(t, i - from);
                }
            }
            return false;
        }
        i = i + 1;
    }
    proof {
        let t = v@.subrange(from as int, v@.len() as int);
        lemma_zeros(t);
    }
    true
}

proof fn lemma_zeros(t: Seq<char>)
    requires
        forall|k: int| 0 <= k < t.len() ==> t[k] == '0',
    ensures
        all_digits(t),
        digits_value(t) == 0,
    decreases t.len(),
{
    if t.len() > 0 {
        lemma_zeros(t.drop_last());
    }
}

proof fn lemma_zero_value(t: Seq<char>, k: int)
    requires
        0 <= k < t.len(),
        all_digits(t),
        digits_value(t) == 0,
    ensures
        t[k] == '0',
    decreases t.len(),
{
    let p = t.drop_last();
    assert(all_digits(p)) by {
        assert forall|i: int| 0 <= i < p.len() implies crate::text::is_digit(#[trigger] p[i]) by {
            assert(p[i] == t[i]);
        }
    }
    assert(crate::text::is_digit(t[t.len() - 1]));
    if k < t.len() - 1 {
        assert(p[k] == t[k]);
        lemma_zero_value(p, k);
    }
}

fn arc_value_of(raw: &[char]) -> (r: Option<u64>)
    ensures
        r == arc_value(raw@),
{
    match parse_u64_chars(raw) {
        Some(v) => Some(v),
        None => {
            if raw.len() >= 2 && raw[0] == '-' && zero_digits(raw, 1) {
                assert(raw@.subrange(1, raw@.len() as int) =~= raw@.drop_first());
                Some(0)
            } else {
                proof {
                    if raw@.len() >= 2 {
                        assert(raw@.subrange(1, raw@.len() as int) =~= raw@.drop_first());
                    }
                }
                None
            }
        },
    }
}

fn arc_entry_of(line: &[char]) -> (r: Option<(String, u64)>)
    ensures
        match r {
            Some(e) => arc_entry(line@) == Some((e.0@, e.1)),
            None => arc_entry(line@) is None,
        },
{
    let toks = tokens_of(line);
    if toks.len() < 3 {
        return None;
    }
    let name = &toks[0];
    assert(char_views(toks@)[0] == name@);
    assert(char_views(toks@)[2] == toks@[2]@);
    if name.len() == 0 || chars_are(name, "name") {
        return None;
    }
    let first = name[0];
    if !(('a' <= first && first <= 'z') || ('A' <= first && first <= 'Z')) {
        return None;
    }
    match arc_value_of(&toks[2]) {
        Some(v) => Some((string_of(name), v)),
        None => None,
    }
}

/// The counters of `/proc/spl/kstat/zfs/arcstats`, in the order of their
/// lines; the kstat header and the column header are skipped.
pub fn parse_arcstats(contents: &str) -> (r: Vec<(String, u64)>)
    ensures
        entry_views(r@) == arc_entries(lines_spec(contents@)),
{
    let v = chars_of(contents);
    let lines = lines_of(&v);
    let ghost ls = char_views(lines@);
    let mut out: Vec<(String, u64)> = Vec::new();
    let mut i: usize = 0;
    while i < lines.len()
        invariant
            i <= lines@.len(),
            ls == char_views(lines@),
            entry_views(out@) == arc_entries(ls.take(i as int)),
        decreases lines.len() - i,
    {
        let e = arc_entry_of(&lines[i]);
        proof {
            assert(ls.take(i + 1).drop_last() =~= ls.take(i as int));
            assert(ls.take(i + 1).last() == lines@[i as int]@);
        }
        let ghost before = entry_views(out@);
        match e {
            Some(e) => {
                let ghost ev = (e.0@, e.1);
                out.push(e);
                assert(entry_views(out@) =~= before.push(ev));
            },
            None => {},
        }
        i = i + 1;
    }
    assert(ls.take(i as int) =~= ls);
    out
}

/// The value of the counter named `key`: the last one listed, or zero.
pub fn arc_counter(counters: &Vec<(String, u64)>, key: &str) -> (r: u64)
    ensures
        r == counter_lookup(entry_views(counters@), key@),
{
    let ghost es = entry_views(counters@);
    assert(es.take(es.len() as int) =~= es);
    let mut i: usize = counters.len();
    while i > 0
        invariant
            i <= counters@.len(),
            es == entry_views(counters@),
            counter_lookup(es, key@) == counter_lookup(es.take(i as int), key@),
        decreases i,
    {
        let e = &counters[i - 1];
        proof {
            assert(es.take(i as int).drop_last() =~= es.take(i - 1));
            assert(es.take(i as int).last() == (e.0@, e.1));
        }
        if crate::text::text_eq(&e.0, key) {
            return e.1;
        }
        i = i - 1;
    }
    0
}

/// The factor of a binary unit letter.
pub open spec fn unit_factor(c: char) -> nat {
    if c == 'K' {
        1024
    } else if c == 'M' {
        1048576
    } else if c == 'G' {
        1073741824
    } else if c == 'T' {
        1099511627776
    } else if c == 'P' {
        1125899906842624
    } else if c == 'E' {
        1152921504606846976
    } else {
        0
    }
}

/// A binary unit letter, `K` to `E`.
pub open spec fn is_unit(c: char) -> bool {
    c == 'K' || c == 'M' || c == 'G' || c == 'T' || c == 'P' || c == 'E'
}

/// The number and the unit factor of `12K`, `12KB` or `12KiB`.
pub open spec fn unit_split(t: Seq<char>) -> Option<(Seq<char>, nat)> {
    let n = t.len() as int;
    if n >= 3 && t[n - 2] == 'i' && t[n - 1] == 'B' {
        if is_unit(t[n - 3]) {
            Some((t.take(n - 3), unit_factor(t[n - 3])))
        } else {
            None
        }
    } else if n >= 2 && t[n - 1] == 'B' {
        if is_unit(t[n - 2]) {
            Some((t.take(n - 2), unit_factor(t[n - 2])))
        } else {
            None
        }
    } else if n >= 1 && is_unit(t[n - 1]) {
        Some((t.take(n - 1), unit_factor(t[n - 1])))
    } else {
        None
    }
}

/// `10^k`.
pub open spec fn pow10(k: nat) -> nat
    decreases k,
{
    if k == 0 {
        1
    } else {
        10 * pow10((k - 1) as nat)
    }
}

/// A decimal `12`, `12.5`, `.5` or `12.` (an optional `+` before it) of at
/// most 19 digits, as its digits' value `m` and the number `k` of digits after
/// the point: the number is `m / 10^k`.
pub open spec fn decimal_parts(body: Seq<char>) -> Option<(nat, nat)> {
    let b = if body.len() > 0 && body[0] == '+' {
        body.drop_first()
    } else {
        body
    };
    let ip = match first_index(b, '.') {
        Some(d) => b.take(d),
        None => b,
    };
    let fp = match first_index(b, '.') {
        Some(d) => b.skip(d + 1),
        None => Seq::<char>::empty(),
    };
    if all_digits(ip) && all_digits(fp) && 0 < ip.len() + fp.len() <= 19 {
        Some((digits_value(ip + fp), fp.len()))
    } else {
        None
    }
}

/// A size as the pool tools print it: a plain number, or a decimal with a
/// binary unit (`K` to `E`, also written `KB` or `KiB`), rounded to the
/// nearest byte, halves away from zero. `-` and an empty column hold none,
/// nor does a size beyond `u64`.
pub open spec fn scaled_spec(raw: Seq<char>) -> Option<u64> {
    let t = trim(raw);
    if t.len() == 0 || t == seq!['-'] {
        None
    } else if parse_u64_spec(t) is Some {
        parse_u64_spec(t)
    } else {
        match unit_split(t) {
            None => None,
            Some(us) => match decimal_parts(us.0) {
                None => None,
                Some(dp) => {
                    let v = (2 * dp.0 * us.1 + pow10(dp.1)) / (2 * pow10(dp.1));
                    if v <= u64::MAX {
                        Some(v as u64)
                    } else {
                        None
                    }
                },
            },
        }
    }
}

fn unit_factor_of(c: char) -> (r: u128)
    requires
        is_unit(c),
    ensures
        r as nat == unit_factor(c),
        1024 <= r <= 1152921504606846976,
{
    if c == 'K' {
        1024
    } else if c == 'M' {
        1048576
    } else if c == 'G' {
        1073741824
    } else if c == 'T' {
        1099511627776
    } else if c == 'P' {
        1125899906842624
    } else {
        1152921504606846976
    }
}

proof fn lemma_digits_below(s: Seq<char>)
    requires
        all_digits(s),
    ensures
        digits_value(s) < pow10(s.len()),
    decreases s.len(),
{
    if s.len() > 0 {
        let p = s.drop_last();
        assert(all_digits(p)) by {
            assert forall|i: int| 0 <= i < p.len() implies crate::text::is_digit(#[trigger] p[i]) by {
                assert(p[i] == s[i]);
            }
        }
        lemma_digits_below(p);
        assert(crate::text::is_digit(s[s.len() - 1]));
        let a = digits_value(p);
        let b = pow10(p.len());
        assert(a * 10 + 9 < b * 10) by (nonlinear_arith)
            requires
                a < b,
        ;
    }
}

proof fn lemma_pow10_mono(j: nat, k: nat)
    requires
        j <= k,
    ensures
        pow10(j) <= pow10(k),
        pow10(j) >= 1,
    decreases k,
{
    if k > 0 && j < k {
        lemma_pow10_mono(j, (k - 1) as nat);
    }
    if k > 0 && j == k {
        lemma_pow10_mono(0, (k - 1) as nat);
    }
}

/// The digits' value and the count of digits after the point of a decimal.
fn decimal_parts_of(body: &[char]) -> (r: Option<(u128, u128)>)
    ensures
        match r {
            Some(p) => decimal_parts(body@) matches Some(d) && d.0 == p.0 as nat && pow10(d.1)
                == p.1 as nat,
            None => decimal_parts(body@) is None,
        },
{
    let start: usize = if body.len() > 0 && body[0] == '+' {
        1
    } else {
        0
    };
    let ghost b = if body@.len() > 0 && body@[0] == '+' {
        body@.drop_first()
    } else {
        body@
    };
    let rest = crate::text::slice_chars(body, start, body.len());
    assert(rest@ =~= b);
    let dot = crate::text::find_char(&rest, '.');
    let (ip, fp) = match dot {
        Some(d) => (
            crate::text::slice_chars(&rest, 0, d),
            crate::text::slice_chars(&rest, d + 1, rest.len()),
        ),
        None => (crate::text::slice_chars(&rest, 0, rest.len()), Vec::new()),
    };
    proof {
        match dot {
            Some(d) => {
                assert(ip@ =~= b.take(d as int));
                assert(fp@ =~= b.skip(d + 1));
            },
            None => {
                assert(ip@ =~= b);
                assert(fp@ =~= Seq::<char>::empty());
            },
        }
    }
    let ghost ips = match first_index(b, '.') {
        Some(d) => b.take(d),
        None => b,
    };
    let ghost fps = match first_index(b, '.') {
        Some(d) => b.skip(d + 1),
        None => Seq::<char>::empty(),
    };
    assert(ip@ == ips && fp@ == fps);
    assert(decimal_parts(body@) == (if all_digits(ip@) && all_digits(fp@) && 0 < ip@.len()
        + fp@.len() <= 19 {
        Some((digits_value(ip@ + fp@), fp@.len()))
    } else {
        None
    }));
    if ip.len() + fp.len() == 0 || ip.len() + fp.len() > 19 {
        return None;
    }
    let mut digits = crate::text::slice_chars(&ip, 0, ip.len());
    let mut more = crate::text::slice_chars(&fp, 0, fp.len());
    digits.append(&mut more);
    assert(digits@ =~= ip@ + fp@);
    let mut m: u128 = 0;
    let mut den: u128 = 1;
    let mut i: usize = 0;
    let n = digits.len();
    assert(digits@.subrange(0, 0) =~= Seq::<char>::empty());
    while i < n
        invariant
            n == digits@.len() <= 19,
            digits@ == ip@ + fp@,
            decimal_parts(body@) == (if all_digits(ip@) && all_digits(fp@) && 0 < ip@.len()
                + fp@.len() <= 19 {
                Some((digits_value(ip@ + fp@), fp@.len()))
            } else {
                None
            }),
            i <= n,
            all_digits(digits@.subrange(0, i as int)),
            m as nat == digits_value(digits@.subrange(0, i as int)),
        decreases n - i,
    {
        let c = digits[i];
        if !('0' <= c && c <= '9') {
            proof {
                if i < ip@.len() {
                    assert(ip@[i as int] == c);
                    assert(!all_digits(ip@));
                } else {
                    assert(fp@[i - ip@.len()] == c);
                    assert(!all_digits(fp@));
                }
            }
            return None;
        }
        proof {
            let pre = digits@.subrange(0, i as int);
            let next = digits@.subrange(0, i + 1);
            assert(next.drop_last() =~= pre);
            lemma_digits_below(pre);
            lemma_pow10_mono(i as nat, 18);
            assert(pow10(18) == 1000000000000000000) by {
                reveal_with_fuel(pow10, 20);
            }
        }
        m = m * 10 + (c as u32 - '0' as u32) as u128;
        i = i + 1;
    }
    assert(digits@.subrange(0, n as int) =~= digits@);
    let mut j: usize = 0;
    while j < fp.len()
        invariant
            fp@.len() <= 19,
            digits@ == ip@ + fp@,
            decimal_parts(body@) == (if all_digits(ip@) && all_digits(fp@) && 0 < ip@.len()
                + fp@.len() <= 19 {
                Some((digits_value(ip@ + fp@), fp@.len()))
            } else {
                None
            }),
            all_digits(digits@),
            m as nat == digits_value(digits@),
            j <= fp@.len(),
            den as nat == pow10(j as nat),
        decreases fp.len() - j,
    {
        proof {
            lemma_pow10_mono(j as nat, 18);
            assert(pow10(18) == 1000000000000000000) by {
                reveal_with_fuel(pow10, 20);
            }
        }
        den = den * 10;
        j = j + 1;
    }
    proof {
        assert(all_digits(ip@)) by {
            assert forall|k: int| 0 <= k < ip@.len() implies crate::text::is_digit(#[trigger] ip@[k]) by {
                assert(digits@[k] == ip@[k]);
            }
        }
        assert(all_digits(fp@)) by {
            assert forall|k: int| 0 <= k < fp@.len() implies crate::text::is_digit(#[trigger] fp@[k]) by {
                assert(digits@[ip@.len() + k] == fp@[k]);
            }
        }
    }
    Some((m, den))
}

fn scaled_of(raw: &[char]) -> (r: Option<u64>)
    ensures
        r == scaled_spec(raw@),
{
    let t = trim_chars(raw);
    if t.len() == 0 || (t.len() == 1 && t[0] == '-') {
        proof {
            if t@.len() == 1 && t@[0] == '-' {
                assert(t@ =~= seq!['-']);
            }
        }
        return None;
    }
    proof {
        if t@ == seq!['-'] {
            assert(t@[0] == '-');
        }
    }
    if let Some(v) = parse_u64_chars(&t) {
        return Some(v);
    }
    let n = t.len();
    let (body_end, factor): (usize, u128) = if n >= 3 && t[n - 2] == 'i' && t[n - 1] == 'B' {
        if !(t[n - 3] == 'K' || t[n - 3] == 'M' || t[n - 3] == 'G' || t[n - 3] == 'T' || t[n - 3]
            == 'P' || t[n - 3] == 'E') {
            return None;
        }
        (n - 3, unit_factor_of(t[n - 3]))
    } else if n >= 2 && t[n - 1] == 'B' {
        if !(t[n - 2] == 'K' || t[n - 2] == 'M' || t[n - 2] == 'G' || t[n - 2] == 'T' || t[n - 2]
            == 'P' || t[n - 2] == 'E') {
            return None;
        }
        (n - 2, unit_factor_of(t[n - 2]))
    } else if n >= 1 && (t[n - 1] == 'K' || t[n - 1] == 'M' || t[n - 1] == 'G' || t[n - 1] == 'T'
        || t[n - 1] == 'P' || t[n - 1] == 'E') {
        (n - 1, unit_factor_of(t[n - 1]))
    } else {
        return None;
    };
    let body = crate::text::slice_chars(&t, 0, body_end);
    proof {
        let us = unit_split(t@)->0;
        assert(body@ =~= us.0);
    }
    match decimal_parts_of(&body) {
        None => None,
        Some((m, den)) => {
            proof {
                let dp = decimal_parts(body@)->0;
                lemma_pow10_mono(dp.1, 19);
                assert(pow10(19) == 10000000000000000000) by {
                reveal_with_fuel(pow10, 20);
            }
                assert(m < 10000000000000000000u128) by {
                    let bb = if body@.len() > 0 && body@[0] == '+' {
                        body@.drop_first()
                    } else {
                        body@
                    };
                    let ip = match first_index(bb, '.') {
                        Some(d) => bb.take(d),
                        None => bb,
                    };
                    let fp = match first_index(bb, '.') {
                        Some(d) => bb.skip(d + 1),
                        None => Seq::<char>::empty(),
                    };
                    crate::text::lemma_all_digits_concat(ip, fp);
                    lemma_digits_below(ip + fp);
                    lemma_pow10_mono((ip + fp).len(), 19);
                }
                assert(m * factor <= 10000000000000000000u128 * 1152921504606846976u128) by (nonlinear_arith)
                    requires
                        m < 10000000000000000000u128,
                        factor <= 1152921504606846976u128,
                ;
            }
            proof {
                let dp = decimal_parts(body@)->0;
                let us = unit_split(t@)->0;
                assert(2 * dp.0 * us.1 == 2 * (m * factor)) by (nonlinear_arith)
                    requires
                        dp.0 == m,
                        us.1 == factor,
                ;
            }
            let num = m * factor;
            let v = (2 * num + den) / (2 * den);
            if v > u64::MAX as u128 {
                None
            } else {
                Some(v as u64)
            }
        },
    }
}

/// The size that `raw` writes, as the pool tools print sizes.
pub fn parse_scaled_u64(raw: &str) -> (r: Option<u64>)
    ensures
        r == scaled_spec(raw@),
{
    let v = chars_of(raw);
    scaled_of(&v)
}

/// One row of a dedup table histogram.
#[derive(Debug, Clone, PartialEq, Eq)]
pub struct DdtClassRow {
    pub refcount: u64,
    pub blocks: u64,
    pub lsize: u64,
    pub psize: u64,
    pub dsize: u64,
    pub referenced_blocks: u64,
    pub referenced_lsize: u64,
    pub referenced_psize: u64,
    pub referenced_dsize: u64,
}

impl View for DdtClassRow {
    type V = Seq<u64>;

    open spec fn view(&self) -> Seq<u64> {
        seq![
            self.refcount,
            self.blocks,
            self.lsize,
            self.psize,
            self.dsize,
            self.referenced_blocks,
            self.referenced_lsize,
            self.referenced_psize,
            self.referenced_dsize,
        ]
    }
}

/// The dedup table summary that `zpool status -D` prints.
#[derive(Debug, Clone, PartialEq, Eq)]
pub struct DdtSummary {
    pub entries: Option<u64>,
    pub size_on_disk: Option<u64>,
    pub size_in_core: Option<u64>,
    pub classes: Vec<DdtClassRow>,
    pub totals: Option<DdtClassRow>,
}

/// A dedup table summary; each row is its nine columns, the reference count first.
pub ghost struct DdtView {
    pub entries: Option<u64>,
    pub size_on_disk: Option<u64>,
    pub size_in_core: Option<u64>,
    pub classes: Seq<Seq<u64>>,
    pub totals: Option<Seq<u64>>,
}

impl View for DdtSummary {
    type V = DdtView;

    open spec fn view(&self) -> DdtView {
        DdtView {
            entries: self.entries,
            size_on_disk: self.size_on_disk,
            size_in_core: self.size_in_core,
            classes: self.classes@.map_values(|r: DdtClassRow| r@),
            totals: match self.totals {
                Some(r) => Some(r@),
                None => None,
            },
        }
    }
}

/// `line` with its commas read as spaces.
pub open spec fn commas_as_spaces(line: Seq<char>) -> Seq<char> {
    line.map_values(|c: char| if c == ',' { ' ' } else { c })
}

/// The index of the first token `word` at or after `i`.
pub open spec fn position_from(toks: Seq<Seq<char>>, word: Seq<char>, i: int) -> Option<int>
    decreases toks.len() - i,
{
    if i < 0 || i >= toks.len() {
        None
    } else if toks[i] == word {
        Some(i)
    } else {
        position_from(toks, word, i + 1)
    }
}

/// The size after the first token `word`, or `current` where no token is `word`.
pub open spec fn value_after(toks: Seq<Seq<char>>, word: Seq<char>, current: Option<u64>) -> Option<
    u64,
> {
    match position_from(toks, word, 0) {
        None => current,
        Some(i) => if i < toks.len() - 1 {
            scaled_spec(toks[i + 1])
        } else {
            None
        },
    }
}

/// The sizes of the `count` tokens from `from`, where all of them are sizes.
pub open spec fn scaled_run(toks: Seq<Seq<char>>, from: int, count: nat) -> Option<Seq<u64>>
    decreases count,
{
    if count == 0 {
        Some(Seq::empty())
    } else {
        match scaled_run(toks, from, (count - 1) as nat) {
            Some(v) => match scaled_spec(toks[from + count - 1]) {
                Some(x) => Some(v.push(x)),
                None => None,
            },
            None => None,
        }
    }
}

/// The histogram row that `toks` hold, and whether it is the total: a total
/// row may omit the reference count, which is then zero.
pub open spec fn ddt_row(toks: Seq<Seq<char>>) -> Option<(bool, Seq<u64>)> {
    if lowers_to(toks[0], "total"@) {
        if toks.len() == 9 {
            match scaled_run(toks, 1, 8) {
                Some(v) => Some((true, seq![0u64] + v)),
                None => None,
            }
        } else if toks.len() >= 10 {
            match scaled_run(toks, 1, 9) {
                Some(v) => Some((true, v)),
                None => None,
            }
        } else {
            None
        }
    } else if toks.len() >= 9 {
        match scaled_run(toks, 0, 9) {
            Some(v) => Some((false, v)),
            None => None,
        }
    } else {
        None
    }
}

/// The summary after one more line.
pub open spec fn ddt_step(st: DdtView, line: Seq<char>) -> DdtView {
    let norm = commas_as_spaces(line);
    let toks = ws_tokens(norm);
    if toks.len() == 0 {
        st
    } else if contains(norm, "DDT entries"@) && contains(norm, "on disk"@) && contains(
        norm,
        "in core"@,
    ) {
        DdtView {
            entries: value_after(toks, "entries"@, st.entries),
            size_on_disk: value_after(toks, "size"@, st.size_on_disk),
            size_in_core: value_after(toks, "disk"@, st.size_in_core),
            ..st
        }
    } else {
        match ddt_row(toks) {
            None => st,
            Some(r) => if r.0 {
                DdtView { totals: Some(r.1), ..st }
            } else {
                DdtView { classes: st.classes.push(r.1), ..st }
            },
        }
    }
}

/// The summary that `lines` give.
pub open spec fn ddt_fold(lines: Seq<Seq<char>>) -> DdtView
    decreases lines.len(),
{
    if lines.len() == 0 {
        DdtView {
            entries: None,
            size_on_disk: None,
            size_in_core: None,
            classes: Seq::empty(),
            totals: None,
        }
    } else {
        ddt_step(ddt_fold(lines.drop_last()), lines.last())
    }
}

fn position_of(toks: &Vec<Vec<char>>, word: &str) -> (r: Option<usize>)
    ensures
        match r {
            Some(i) => position_from(char_views(toks@), word@, 0) == Some(i as int) && i
                < toks@.len(),
            None => position_from(char_views(toks@), word@, 0) is None,
        },
{
    let ghost tv = char_views(toks@);
    let mut i: usize = 0;
    while i < toks.len()
        invariant
            i <= toks@.len(),
            tv == char_views(toks@),
            position_from(tv, word@, 0) == position_from(tv, word@, i as int),
        decreases toks.len() - i,
    {
        assert(tv[i as int] == toks@[i as int]@);
        if chars_are(&toks[i], word) {
            return Some(i);
        }
        i = i + 1;
    }
    None
}

fn value_after_of(toks: &Vec<Vec<char>>, word: &str, current: Option<u64>) -> (r: Option<u64>)
    ensures
        r == value_after(char_views(toks@), word@, current),
{
    match position_of(toks, word) {
        None => current,
        Some(i) => if i < toks.len() - 1 {
            assert(char_views(toks@)[i + 1] == toks@[i + 1]@);
            scaled_of(&toks[i + 1])
        } else {
            None
        },
    }
}

fn scaled_run_of(toks: &Vec<Vec<char>>, from: usize, count: usize) -> (r: Option<Vec<u64>>)
    requires
        from + count <= toks@.len(),
    ensures
        match r {
            Some(v) => scaled_run(char_views(toks@), from as int, count as nat) == Some(v@),
            None => scaled_run(char_views(toks@), from as int, count as nat) is None,
        },
{
    let ghost tv = char_views(toks@);
    let n = toks.len();
    let mut vals: Vec<u64> = Vec::new();
    let mut j: usize = 0;
    while j < count
        invariant
            n == toks@.len(),
            from + count <= toks@.len(),
            tv == char_views(toks@),
            j <= count,
            scaled_run(tv, from as int, j as nat) == Some(vals@),
        decreases count - j,
    {
        assert(tv[from + j] == toks@[from + j]@);
        match scaled_of(&toks[from + j]) {
            Some(x) => {
                vals.push(x);
            },
            None => {
                proof {
                    assert(scaled_run(tv, from as int, (j + 1) as nat) is None);
                    lemma_scaled_run_stays_none(tv, from as int, (j + 1) as nat, count as nat);
                }
                return None;
            },
        }
        j = j + 1;
    }
    Some(vals)
}

proof fn lemma_scaled_run_stays_none(toks: Seq<Seq<char>>, from: int, j: nat, count: nat)
    requires
        j <= count,
        scaled_run(toks, from, j) is None,
    ensures
        scaled_run(toks, from, count) is None,
    decreases count - j,
{
    if j < count {
        lemma_scaled_run_stays_none(toks, from, j + 1, count);
    }
}

fn class_row(v: &Vec<u64>) -> (r: DdtClassRow)
    requires
        v@.len() == 9,
    ensures
        r@ == v@,
{
    let r = DdtClassRow {
        refcount: v[0],
        blocks: v[1],
        lsize: v[2],
        psize: v[3],
        dsize: v[4],
        referenced_blocks: v[5],
        referenced_lsize: v[6],
        referenced_psize: v[7],
        referenced_dsize: v[8],
    };
    assert(r@ =~= v@);
    r
}

fn ddt_row_of(toks: &Vec<Vec<char>>) -> (r: Option<(bool, DdtClassRow)>)
    requires
        toks@.len() > 0,
    ensures
        match r {
            Some(p) => ddt_row(char_views(toks@)) == Some((p.0, p.1@)),
            None => ddt_row(char_views(toks@)) is None,
        },
{
    let n = toks.len();
    assert(char_views(toks@)[0] == toks@[0]@);
    if crate::text::lowers_to_exec(&toks[0], "total") {
        if n == 9 {
            match scaled_run_of(toks, 1, 8) {
                Some(v) => {
                    proof {
                        lemma_scaled_run_len(char_views(toks@), 1, 8);
                    }
                    let mut all: Vec<u64> = vec![0];
                    let mut rest = v;
                    let ghost rv = rest@;
                    all.append(&mut rest);
                    assert(all@ =~= seq![0u64] + rv);
                    Some((true, class_row(&all)))
                },
                None => None,
            }
        } else if n >= 10 {
            match scaled_run_of(toks, 1, 9) {
                Some(v) => {
                    proof {
                        lemma_scaled_run_len(char_views(toks@), 1, 9);
                    }
                    Some((true, class_row(&v)))
                },
                None => None,
            }
        } else {
            None
        }
    } else if n >= 9 {
        match scaled_run_of(toks, 0, 9) {
            Some(v) => {
                proof {
                    lemma_scaled_run_len(char_views(toks@), 0, 9);
                }
                Some((false, class_row(&v)))
            },
            None => None,
        }
    } else {
        None
    }
}

proof fn lemma_scaled_run_len(toks: Seq<Seq<char>>, from: int, count: nat)
    ensures
        scaled_run(toks, from, count) matches Some(v) ==> v.len() == count,
    decreases count,
{
    if count > 0 {
        lemma_scaled_run_len(toks, from, (count - 1) as nat);
    }
}

/// The dedup table summary of `zpool status -D` output: the entry count and
/// sizes of the `DDT entries` line, the histogram rows, and the total row.
pub fn parse_ddt_summary(output: &str) -> (r: DdtSummary)
    ensures
        r@ == ddt_fold(lines_spec(output@)),
{
    let v = chars_of(output);
    let lines = lines_of(&v);
    let ghost ls = char_views(lines@);
    let mut summary = DdtSummary {
        entries: None,
        size_on_disk: None,
        size_in_core: None,
        classes: Vec::new(),
        totals: None,
    };
    assert(ls.take(0).len() == 0);
    assert(summary.classes@.map_values(|r: DdtClassRow| r@) =~= Seq::<Seq<u64>>::empty());
    assert(summary@ == ddt_fold(ls.take(0)));
    let mut i: usize = 0;
    while i < lines.len()
        invariant
            i <= lines@.len(),
            ls == char_views(lines@),
            summary@ == ddt_fold(ls.take(i as int)),
        decreases lines.len() - i,
    {
        proof {
            assert(ls.take(i + 1).drop_last() =~= ls.take(i as int));
            assert(ls.take(i + 1).last() == lines@[i as int]@);
        }
        let line = &lines[i];
        let mut norm: Vec<char> = Vec::new();
        let mut k: usize = 0;
        while k < line.len()
            invariant
                k <= line@.len(),
                norm@ =~= line@.take(k as int).map_values(|c: char| if c == ',' { ' ' } else { c }),
            decreases line.len() - k,
        {
            let c = line[k];
            norm.push(if c == ',' { ' ' } else { c });
            k = k + 1;
            assert(norm@ =~= line@.take(k as int).map_values(
                |c: char| if c == ',' { ' ' } else { c },
            ));
        }
        assert(line@.take(k as int) =~= line@);
        let toks = tokens_of(&norm);
        if toks.len() > 0 {
            let is_header = crate::text::contains_chars(&norm, &chars_of("DDT entries"))
                && crate::text::contains_chars(&norm, &chars_of("on disk"))
                && crate::text::contains_chars(&norm, &chars_of("in core"));
            if is_header {
                summary.entries = value_after_of(&toks, "entries", summary.entries);
                summary.size_on_disk = value_after_of(&toks, "size", summary.size_on_disk);
                summary.size_in_core = value_after_of(&toks, "disk", summary.size_in_core);
            } else {
                match ddt_row_of(&toks) {
                    None => {},
                    Some((is_total, row)) => {
                        if is_total {
                            summary.totals = Some(row);
                        } else {
                            let ghost before = summary.classes@.map_values(|r: DdtClassRow| r@);
                            let ghost rv = row@;
                            summary.classes.push(row);
                            assert(summary.classes@.map_values(|r: DdtClassRow| r@) =~= before.push(
                                rv,
                            ));
                        }
                    },
                }
            }
        }
        i = i + 1;
    }
    assert(ls.take(i as int) =~= ls);
    summary
}

/// One cell of the `txgs` kstat table, typed as the first of `u64`, `i64`
/// and text that reads it.
#[derive(Debug, Clone, PartialEq, Eq)]
pub enum TxgCell {
    Unsigned(u64),
    Signed(i64),
    Text(String),
}

/// The negative number that `tok` writes, as `i64::from_str` reads one.
pub open spec fn negative_spec(tok: Seq<char>) -> Option<i64> {
    if tok.len() >= 2 && tok[0] == '-' && tok[1] != '+' {
        match parse_u64_spec(tok.drop_first()) {
            Some(v) => if v <= 0x8000_0000_0000_0000u64 {
                Some((0 - v) as i64)
            } else {
                None
            },
            None => None,
        }
    } else {
        None
    }
}

/// `c` is the cell that the token `tok` reads as.
pub open spec fn cell_of(c: TxgCell, tok: Seq<char>) -> bool {
    match parse_u64_spec(tok) {
        Some(v) => c == TxgCell::Unsigned(v),
        None => match negative_spec(tok) {
            Some(n) => c == TxgCell::Signed(n),
            None => c matches TxgCell::Text(s) && s@ == tok,
        },
    }
}

/// The columns and the raw rows after one more line: the first line that
/// starts with `txg` names the columns; a later line with at least as many
/// words is a row of its first words.
pub open spec fn txg_step(st: (Seq<Seq<char>>, Seq<Seq<Seq<char>>>), line: Seq<char>) -> (
    Seq<Seq<char>>,
    Seq<Seq<Seq<char>>>,
) {
    let parts = ws_tokens(line);
    if parts.len() == 0 {
        st
    } else if st.0.len() == 0 {
        if parts[0] == "txg"@ {
            (parts, st.1)
        } else {
            st
        }
    } else if parts.len() < st.0.len() {
        st
    } else {
        (st.0, st.1.push(parts.take(st.0.len() as int)))
    }
}

/// The columns and raw rows that `lines` give.
pub open spec fn txg_fold(lines: Seq<Seq<char>>) -> (Seq<Seq<char>>, Seq<Seq<Seq<char>>>)
    decreases lines.len(),
{
    if lines.len() == 0 {
        (Seq::empty(), Seq::empty())
    } else {
        txg_step(txg_fold(lines.drop_last()), lines.last())
    }
}

/// The rows `rows` read the raw rows `raw` cell by cell.
pub open spec fn rows_read(rows: Seq<Vec<TxgCell>>, raw: Seq<Seq<Seq<char>>>) -> bool {
    &&& rows.len() == raw.len()
    &&& forall|k: int| 0 <= k < rows.len() ==> (#[trigger] rows[k])@.len() == raw[k].len()
    &&& forall|k: int, j: int|
        0 <= k < rows.len() && 0 <= j < raw[k].len() ==> cell_of(#[trigger] rows[k]@[j], raw[k][j])
}

fn cell_from(tok: &[char]) -> (r: TxgCell)
    ensures
        cell_of(r, tok@),
{
    if let Some(v) = parse_u64_chars(tok) {
        return TxgCell::Unsigned(v);
    }
    if tok.len() >= 2 && tok[0] == '-' && tok[1] != '+' {
        let rest = crate::text::slice_chars(tok, 1, tok.len());
        assert(rest@ =~= tok@.drop_first());
        if let Some(v) = parse_u64_chars(&rest) {
            if v <= 0x8000_0000_0000_0000u64 {
                let n: i64 = (0 - (v as i128)) as i64;
                return TxgCell::Signed(n);
            }
        }
    }
    TxgCell::Text(string_of(tok))
}

/// The columns and the typed rows of `/proc/spl/kstat/zfs/txgs`.
pub fn parse_txgs_rows(contents: &str) -> (r: (Vec<String>, Vec<Vec<TxgCell>>))
    ensures
        r.0@.map_values(|c: String| c@) == txg_fold(lines_spec(contents@)).0,
        rows_read(r.1@, txg_fold(lines_spec(contents@)).1),
{
    let v = chars_of(contents);
    let lines = lines_of(&v);
    let ghost ls = char_views(lines@);
    let mut columns: Vec<String> = Vec::new();
    let mut rows: Vec<Vec<TxgCell>> = Vec::new();
    assert(ls.take(0).len() == 0);
    assert(columns@.map_values(|c: String| c@) =~= Seq::<Seq<char>>::empty());
    let mut i: usize = 0;
    while i < lines.len()
        invariant
            i <= lines@.len(),
            ls == char_views(lines@),
            columns@.map_values(|c: String| c@) == txg_fold(ls.take(i as int)).0,
            rows_read(rows@, txg_fold(ls.take(i as int)).1),
        decreases lines.len() - i,
    {
        proof {
            assert(ls.take(i + 1).drop_last() =~= ls.take(i as int));
            assert(ls.take(i + 1).last() == lines@[i as int]@);
        }
        let parts = tokens_of(&lines[i]);
        let ghost pv = char_views(parts@);
        let ghost before_rows = rows@;
        let ghost raw = txg_fold(ls.take(i as int)).1;
        if parts.len() == 0 {
        } else if columns.len() == 0 {
            assert(pv[0] == parts@[0]@);
            if chars_are(&parts[0], "txg") {
                let mut k: usize = 0;
                let mut cols: Vec<String> = Vec::new();
                while k < parts.len()
                    invariant
                        k <= parts@.len(),
                        pv == char_views(parts@),
                        cols@.map_values(|c: String| c@) =~= pv.take(k as int),
                    decreases parts.len() - k,
                {
                    let name = string_of(&parts[k]);
                    assert(name@ == pv[k as int]);
                    let ghost before = cols@.map_values(|c: String| c@);
                    cols.push(name);
                    assert(cols@.map_values(|c: String| c@) =~= before.push(pv[k as int]));
                    assert(pv.take(k + 1) =~= pv.take(k as int).push(pv[k as int]));
                    k = k + 1;
                    assert(cols@.map_values(|c: String| c@) =~= pv.take(k as int));
                }
                assert(pv.take(k as int) =~= pv);
                columns = cols;
            }
        } else if parts.len() >= columns.len() {
            let n = columns.len();
            let mut row: Vec<TxgCell> = Vec::new();
            let mut j: usize = 0;
            while j < n
                invariant
                    j <= n <= parts@.len(),
                    pv == char_views(parts@),
                    row@.len() == j,
                    forall|m: int| 0 <= m < j ==> cell_of(#[trigger] row@[m], pv[m]),
                decreases n - j,
            {
                assert(pv[j as int] == parts@[j as int]@);
                let c = cell_from(&parts[j]);
                row.push(c);
                j = j + 1;
            }
            let ghost taken = pv.take(n as int);
            let ghost rv = row@;
            rows.push(row);
            proof {
                let new_raw = raw.push(taken);
                assert forall|k: int| 0 <= k < rows@.len() implies (#[trigger] rows@[k])@.len()
                    == new_raw[k].len() by {
                    if k < before_rows.len() {
                        assert(rows@[k] == before_rows[k]);
                    }
                }
                assert forall|k: int, m: int|
                    0 <= k < rows@.len() && 0 <= m < new_raw[k].len() implies cell_of(
                    #[trigger] rows@[k]@[m],
                    new_raw[k][m],
                ) by {
                    if k < before_rows.len() {
                        assert(rows@[k] == before_rows[k]);
                    } else {
                        assert(rows@[k]@ == rv);
                        assert(new_raw[k][m] == pv[m]);
                    }
                }
            }
        }
        i = i + 1;
    }
    assert(ls.take(i as int) =~= ls);
    (columns, rows)
}

/// One dataset row of `zfs list -Hp -o name,type,used,logicalused,referenced,logicalreferenced,compressratio`;
/// the compression ratio is kept as printed.
#[derive(Debug, Clone, PartialEq, Eq)]
pub struct ZfsSpaceRow {
    pub name: String,
    pub kind: String,
    pub used_bytes: Option<u64>,
    pub logical_used_bytes: Option<u64>,
    pub referenced_bytes: Option<u64>,
    pub logical_referenced_bytes: Option<u64>,
    pub compress_ratio: String,
}

/// A space row: name, kind, the four sizes and the printed ratio.
pub ghost struct SpaceRowView {
    pub name: Seq<char>,
    pub kind: Seq<char>,
    pub sizes: Seq<Option<u64>>,
    pub ratio: Seq<char>,
}

impl View for ZfsSpaceRow {
    type V = SpaceRowView;

    open spec fn view(&self) -> SpaceRowView {
        SpaceRowView {
            name: self.name@,
            kind: self.kind@,
            sizes: seq![
                self.used_bytes,
                self.logical_used_bytes,
                self.referenced_bytes,
                self.logical_referenced_bytes,
            ],
            ratio: self.compress_ratio@,
        }
    }
}

/// The space row that a tab-separated line holds, if it has seven columns.
pub open spec fn space_row(line: Seq<char>) -> Option<SpaceRowView> {
    let parts = split_on(line, '\t');
    if parts.len() < 7 {
        None
    } else {
        Some(
            SpaceRowView {
                name: parts[0],
                kind: parts[1],
                sizes: seq![
                    counter_spec(parts[2]),
                    counter_spec(parts[3]),
                    counter_spec(parts[4]),
                    counter_spec(parts[5]),
                ],
                ratio: parts[6],
            },
        )
    }
}

/// The space rows of `lines`, in order.
pub open spec fn space_rows(lines: Seq<Seq<char>>) -> Seq<SpaceRowView>
    decreases lines.len(),
{
    if lines.len() == 0 {
        Seq::empty()
    } else {
        let prev = space_rows(lines.drop_last());
        match space_row(lines.last()) {
            Some(r) => prev.push(r),
            None => prev,
        }
    }
}

/// The views of space rows.
pub open spec fn space_views(rows: Seq<ZfsSpaceRow>) -> Seq<SpaceRowView> {
    rows.map_values(|r: ZfsSpaceRow| r@)
}

fn space_row_of(line: &[char]) -> (r: Option<ZfsSpaceRow>)
    ensures
        match r {
            Some(row) => space_row(line@) == Some(row@),
            None => space_row(line@) is None,
        },
{
    let parts = split_on_char(line, '\t');
    if parts.len() < 7 {
        return None;
    }
    let row = ZfsSpaceRow {
        name: string_of(&parts[0]),
        kind: string_of(&parts[1]),
        used_bytes: counter_of(&parts[2]),
        logical_used_bytes: counter_of(&parts[3]),
        referenced_bytes: counter_of(&parts[4]),
        logical_referenced_bytes: counter_of(&parts[5]),
        compress_ratio: string_of(&parts[6]),
    };
    proof {
        let v = char_views(parts@);
        assert(v[0] == parts@[0]@);
        assert(v[1] == parts@[1]@);
        assert(v[2] == parts@[2]@);
        assert(v[3] == parts@[3]@);
        assert(v[4] == parts@[4]@);
        assert(v[5] == parts@[5]@);
        assert(v[6] == parts@[6]@);
        assert(row@.sizes =~= space_row(line@)->0.sizes);
    }
    Some(row)
}

/// The dataset rows of `zfs list` output; lines with fewer than seven
/// tab-separated columns are skipped.
pub fn parse_zfs_space_rows(output: &str) -> (r: Vec<ZfsSpaceRow>)
    ensures
        space_views(r@) == space_rows(lines_spec(output@)),
{
    let v = chars_of(output);
    let lines = lines_of(&v);
    let ghost ls = char_views(lines@);
    let mut rows: Vec<ZfsSpaceRow> = Vec::new();
    let mut i: usize = 0;
    while i < lines.len()
        invariant
            i <= lines@.len(),
            ls == char_views(lines@),
            space_views(rows@) == space_rows(ls.take(i as int)),
        decreases lines.len() - i,
    {
        let row = space_row_of(&lines[i]);
        proof {
            assert(ls.take(i + 1).drop_last() =~= ls.take(i as int));
            assert(ls.take(i + 1).last() == lines@[i as int]@);
        }
        let ghost before = space_views(rows@);
        match row {
            Some(r) => {
                let ghost rv = r@;
                rows.push(r);
                assert(space_views(rows@) =~= before.push(rv));
            },
            None => {},
        }
        i = i + 1;
    }
    assert(ls.take(i as int) =~= ls);
    rows
}

/// The summary row of `zpool list -Hp -o size,alloc,free,frag,dedupratio`;
/// fragmentation and dedup ratio are kept as printed.
#[derive(Debug, Clone, PartialEq, Eq)]
pub struct ZpoolSpaceSummary {
    pub size_bytes: Option<u64>,
    pub allocated_bytes: Option<u64>,
    pub free_bytes: Option<u64>,
    pub frag: String,
    pub dedup_ratio: String,
}

/// The first line of `lines` that holds more than whitespace.
pub open spec fn first_nonblank(lines: Seq<Seq<char>>) -> Option<Seq<char>>
    decreases lines.len(),
{
    if lines.len() == 0 {
        None
    } else if trim(lines[0]).len() > 0 {
        Some(lines[0])
    } else {
        first_nonblank(lines.drop_first())
    }
}

/// The summary that the first non-blank line of `zpool list` output holds,
/// if it has five tab-separated columns.
pub open spec fn zpool_summary_spec(output: Seq<char>) -> Option<
    (Option<u64>, Option<u64>, Option<u64>, Seq<char>, Seq<char>),
> {
    match first_nonblank(lines_spec(output)) {
        None => None,
        Some(line) => {
            let parts = split_on(line, '\t');
            if parts.len() < 5 {
                None
            } else {
                Some(
                    (
                        counter_spec(parts[0]),
                        counter_spec(parts[1]),
                        counter_spec(parts[2]),
                        parts[3],
                        parts[4],
                    ),
                )
            }
        },
    }
}

/// The pool's space summary of `zpool list` output.
pub fn parse_zpool_space_summary(output: &str) -> (r: Option<ZpoolSpaceSummary>)
    ensures
        match r {
            Some(s) => zpool_summary_spec(output@) == Some(
                (s.size_bytes, s.allocated_bytes, s.free_bytes, s.frag@, s.dedup_ratio@),
            ),
            None => zpool_summary_spec(output@) is None,
        },
{
    let v = chars_of(output);
    let lines = lines_of(&v);
    let ghost ls = char_views(lines@);
    assert(ls.subrange(0, ls.len() as int) =~= ls);
    let mut i: usize = 0;
    while i < lines.len()
        invariant
            i <= lines@.len(),
            ls == char_views(lines@),
            ls == lines_spec(output@),
            first_nonblank(ls) == first_nonblank(ls.subrange(i as int, ls.len() as int)),
        decreases lines.len() - i,
    {
        let ghost rest = ls.subrange(i as int, ls.len() as int);
        assert(rest[0] == lines@[i as int]@);
        assert(rest.drop_first() =~= ls.subrange(i + 1, ls.len() as int));
        let t = trim_chars(&lines[i]);
        if t.len() > 0 {
            let parts = split_on_char(&lines[i], '\t');
            if parts.len() < 5 {
                return None;
            }
            let summary = ZpoolSpaceSummary {
                size_bytes: counter_of(&parts[0]),
                allocated_bytes: counter_of(&parts[1]),
                free_bytes: counter_of(&parts[2]),
                frag: string_of(&parts[3]),
                dedup_ratio: string_of(&parts[4]),
            };
            proof {
                let pv = char_views(parts@);
                assert(pv[0] == parts@[0]@);
                assert(pv[1] == parts@[1]@);
                assert(pv[2] == parts@[2]@);
                assert(pv[3] == parts@[3]@);
                assert(pv[4] == parts@[4]@);
            }
            return Some(summary);
        }
        i = i + 1;
    }
    None
}

/// Sums over the dataset rows of a pool; a sum that would pass `u64::MAX`
/// stays there.
#[derive(Debug, Clone, Copy, PartialEq, Eq)]
pub struct SpaceTotals {
    pub dataset_count: u64,
    pub used_bytes: u64,
    pub logical_used_bytes: u64,
    pub referenced_bytes: u64,
    pub logical_referenced_bytes: u64,
}

/// `a + b`, or `u64::MAX` where that passes it.
pub open spec fn sat_add(a: u64, b: Option<u64>) -> u64 {
    let b = match b {
        Some(v) => v,
        None => 0,
    };
    if a + b > u64::MAX {
        u64::MAX
    } else {
        (a + b) as u64
    }
}

/// The totals of `rows`.
pub open spec fn totals_spec(rows: Seq<SpaceRowView>) -> SpaceTotals
    decreases rows.len(),
{
    if rows.len() == 0 {
        SpaceTotals {
            dataset_count: 0,
            used_bytes: 0,
            logical_used_bytes: 0,
            referenced_bytes: 0,
            logical_referenced_bytes: 0,
        }
    } else {
        let t = totals_spec(rows.drop_last());
        let r = rows.last();
        SpaceTotals {
            dataset_count: sat_add(t.dataset_count, Some(1)),
            used_bytes: sat_add(t.used_bytes, r.sizes[0]),
            logical_used_bytes: sat_add(t.logical_used_bytes, r.sizes[1]),
            referenced_bytes: sat_add(t.referenced_bytes, r.sizes[2]),
            logical_referenced_bytes: sat_add(t.logical_referenced_bytes, r.sizes[3]),
        }
    }
}

fn sat_add_exec(a: u64, b: Option<u64>) -> (r: u64)
    ensures
        r == sat_add(a, b),
{
    let b = match b {
        Some(v) => v,
        None => 0,
    };
    a.saturating_add(b)
}

/// The dataset count and the size sums of `rows`.
pub fn space_totals(rows: &Vec<ZfsSpaceRow>) -> (r: SpaceTotals)
    ensures
        r == totals_spec(space_views(rows@)),
{
    let ghost vs = space_views(rows@);
    let mut t = SpaceTotals {
        dataset_count: 0,
        used_bytes: 0,
        logical_used_bytes: 0,
        referenced_bytes: 0,
        logical_referenced_bytes: 0,
    };
    assert(vs.take(0).len() == 0);
    let mut i: usize = 0;
    while i < rows.len()
        invariant
            i <= rows@.len(),
            vs == space_views(rows@),
            t == totals_spec(vs.take(i as int)),
        decreases rows.len() - i,
    {
        let r = &rows[i];
        proof {
            assert(vs.take(i + 1).drop_last() =~= vs.take(i as int));
            assert(vs.take(i + 1).last() == r@);
        }
        t = SpaceTotals {
            dataset_count: sat_add_exec(t.dataset_count, Some(1)),
            used_bytes: sat_add_exec(t.used_bytes, r.used_bytes),
            logical_used_bytes: sat_add_exec(t.logical_used_bytes, r.logical_used_bytes),
            referenced_bytes: sat_add_exec(t.referenced_bytes, r.referenced_bytes),
            logical_referenced_bytes: sat_add_exec(
                t.logical_referenced_bytes,
                r.logical_referenced_bytes,
            ),
        };
        i = i + 1;
    }
    assert(vs.take(i as int) =~= vs);
    t
}

/// The index of the pool's root dataset among `rows`: the first row named
/// `pool`, else the first row.
pub fn root_row_index(rows: &Vec<ZfsSpaceRow>, pool: &str) -> (r: usize)
    requires
        rows@.len() > 0,
    ensures
        r < rows@.len(),
        rows@[r as int].name@ == pool@ ==> forall|k: int| 0 <= k < r ==> rows@[k].name@ != pool@,
        rows@[r as int].name@ != pool@ ==> r == 0 && forall|k: int|
            0 <= k < rows@.len() ==> rows@[k].name@ != pool@,
{
    let mut i: usize = 0;
    while i < rows.len()
        invariant
            i <= rows@.len(),
            forall|k: int| 0 <= k < i ==> rows@[k].name@ != pool@,
        decreases rows.len() - i,
    {
        if crate::text::text_eq(&rows[i].name, pool) {
            return i;
        }
        i = i + 1;
    }
    0
}

} // verus!
