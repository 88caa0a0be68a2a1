//! Resolution of a user path to a dataset and a path inside it.
use vstd::prelude::*;
use crate::fault::ExportFault;
use crate::text::{
    byte_len, chars_of, has_prefix, is_ws, slice_chars, starts_with_chars, string_of,
    strip_repeated, strip_repeated_chars, text_byte_len, text_eq, trim, trim_chars, trim_end,
    trim_start,
};

verus! {

/// Where `prefix` is `path` itself or a leading run of whole segments of it,
/// the rest of `path` after the separating `/`.
pub open spec fn component_match(prefix: Seq<char>, path: Seq<char>) -> Option<Seq<char>> {
    if path == prefix {
        Some(Seq::empty())
    } else if has_prefix(path, prefix.push('/')) {
        Some(path.subrange(prefix.len() as int + 1, path.len() as int))
    } else {
        None
    }
}

fn component_match_exec(prefix: &str, path: &str) -> (r: Option<String>)
    ensures
        match r {
            Some(s) => component_match(prefix@, path@) == Some(s@),
            None => component_match(prefix@, path@) is None,
        },
{
    if text_eq(path, prefix) {
        let e: Vec<char> = Vec::new();
        let s = string_of(&e);
        assert(s@ =~= Seq::<char>::empty());
        return Some(s);
    }
    let mut pv = chars_of(prefix);
    pv.push('/');
    let v = chars_of(path);
    if starts_with_chars(&v, &pv) {
        let rest = slice_chars(&v, pv.len(), v.len());
        Some(string_of(&rest))
    } else {
        None
    }
}

/// The path inside dataset `dataset` that the dataset-relative `path` names.
pub fn dataset_path_match(dataset: &str, path: &str) -> (r: Option<String>)
    ensures
        match r {
            Some(s) => component_match(dataset@, path@) == Some(s@),
            None => component_match(dataset@, path@) is None,
        },
{
    component_match_exec(dataset, path)
}

/// The path below `mountpoint` that the absolute `absolute_path` names.
pub fn mountpoint_path_match(mountpoint: &str, absolute_path: &str) -> (r: Option<String>)
    ensures
        match r {
            Some(s) => component_match(mountpoint@, absolute_path@) == Some(s@),
            None => component_match(mountpoint@, absolute_path@) is None,
        },
{
    component_match_exec(mountpoint, absolute_path)
}

/// One dataset of a pool's catalog.
#[derive(Debug, Clone)]
pub struct DatasetCatalogEntry {
    pub name: String,
    pub dataset_type: String,
    pub mountpoint: Option<String>,
    pub mounted: Option<bool>,
}

/// A catalog entry: name, kind, mountpoint and whether it is mounted.
pub ghost struct EntryView {
    pub name: Seq<char>,
    pub kind: Seq<char>,
    pub mountpoint: Option<Seq<char>>,
    pub mounted: Option<bool>,
}

impl View for DatasetCatalogEntry {
    type V = EntryView;

    open spec fn view(&self) -> EntryView {
        EntryView {
            name: self.name@,
            kind: self.dataset_type@,
            mountpoint: match self.mountpoint {
                Some(m) => Some(m@),
                None => None,
            },
            mounted: self.mounted,
        }
    }
}

/// The views of catalog entries.
pub open spec fn entry_views(catalog: Seq<DatasetCatalogEntry>) -> Seq<EntryView> {
    catalog.map_values(|e: DatasetCatalogEntry| e@)
}

/// A dataset that a path may lie in: `len` is the length in bytes of the name
/// or mountpoint that matched, `rel` the rest of the path inside the dataset.
pub ghost struct Candidate {
    pub len: int,
    pub dataset: Seq<char>,
    pub rel: Seq<char>,
}

/// The kind of a dataset that holds files.
pub open spec fn filesystem_kind() -> Seq<char> {
    seq!['f', 'i', 'l', 'e', 's', 'y', 's', 't', 'e', 'm']
}

/// The candidates that one catalog entry gives for a path in its absolute
/// and its relative form: by its name, then by its mountpoint while mounted.
pub open spec fn entry_candidates(e: EntryView, absolute: Seq<char>, relative: Seq<char>) -> Seq<
    Candidate,
> {
    if e.kind != filesystem_kind() {
        Seq::empty()
    } else {
        let by_name = match component_match(e.name, relative) {
            Some(rel) => seq![Candidate { len: byte_len(e.name) as int, dataset: e.name, rel }],
            None => Seq::empty(),
        };
        let by_mount = match e.mountpoint {
            Some(mp) => if e.mounted != Some(false) {
                match component_match(mp, absolute) {
                    Some(rel) => seq![Candidate { len: byte_len(mp) as int, dataset: e.name, rel }],
                    None => Seq::empty(),
                }
            } else {
                Seq::empty()
            },
            None => Seq::empty(),
        };
        by_name + by_mount
    }
}

/// The candidates of a catalog, entry by entry.
pub open spec fn candidates(entries: Seq<EntryView>, absolute: Seq<char>, relative: Seq<char>) -> Seq<
    Candidate,
>
    decreases entries.len(),
{
    if entries.len() == 0 {
        Seq::empty()
    } else {
        candidates(entries.drop_last(), absolute, relative) + entry_candidates(
            entries.last(),
            absolute,
            relative,
        )
    }
}

/// The first of the candidates with the longest match.
pub open spec fn longest(c: Seq<Candidate>) -> Option<Candidate>
    decreases c.len(),
{
    if c.len() == 0 {
        None
    } else {
        match longest(c.drop_last()) {
            None => Some(c.last()),
            Some(b) => if c.last().len > b.len {
                Some(c.last())
            } else {
                Some(b)
            },
        }
    }
}

/// The absolute form of a trimmed path: with one leading `/`.
pub open spec fn absolute_form(t: Seq<char>) -> Seq<char> {
    if t.len() > 0 && t[0] == '/' {
        t
    } else {
        seq!['/'] + t
    }
}

/// The dataset-relative form of a trimmed path: without leading `/`.
pub open spec fn relative_form(t: Seq<char>) -> Seq<char> {
    strip_repeated(t, seq!['/'])
}

/// The dataset that `path` lies in, and the path inside it.
pub open spec fn select_spec(path: Seq<char>, entries: Seq<EntryView>) -> Result<
    Candidate,
    ExportFault,
> {
    let t = trim(path);
    if t.len() == 0 {
        Err(ExportFault::InvalidPath)
    } else {
        match longest(candidates(entries, absolute_form(t), relative_form(t))) {
            None => Err(ExportFault::DatasetPathUnresolved),
            Some(c) => Ok(c),
        }
    }
}

struct FoundCandidate {
    len: usize,
    dataset: String,
    rel: String,
}

impl View for FoundCandidate {
    type V = Candidate;

    closed spec fn view(&self) -> Candidate {
        Candidate { len: self.len as int, dataset: self.dataset@, rel: self.rel@ }
    }
}

spec fn views_match(v: Seq<FoundCandidate>, s: Seq<Candidate>) -> bool {
    v.len() == s.len() && forall|k: int| 0 <= k < v.len() ==> #[trigger] v[k]@ == s[k]
}

fn entry_candidates_exec(e: &DatasetCatalogEntry, absolute: &str, relative: &str) -> (r: Vec<
    FoundCandidate,
>)
    ensures
        views_match(r@, entry_candidates(e@, absolute@, relative@)),
{
    let mut r: Vec<FoundCandidate> = Vec::new();
    let is_fs = text_eq(&e.dataset_type, "filesystem");
    proof {
        reveal_strlit("filesystem");
        assert("filesystem"@ =~= filesystem_kind());
    }
    if !is_fs {
        return r;
    }
    let ghost by_name = match component_match(e@.name, relative@) {
        Some(rel) => seq![Candidate { len: byte_len(e@.name) as int, dataset: e@.name, rel }],
        None => Seq::empty(),
    };
    match dataset_path_match(&e.name, relative) {
        Some(rel) => {
            r.push(FoundCandidate { len: text_byte_len(&e.name), dataset: e.name.clone(), rel });
        },
        None => {},
    }
    assert(views_match(r@, by_name));
    match &e.mountpoint {
        Some(mp) => {
            let mounted = match e.mounted {
                Some(false) => false,
                _ => true,
            };
            if mounted {
                match mountpoint_path_match(mp, absolute) {
                    Some(rel) => {
                        r.push(
                            FoundCandidate {
                                len: text_byte_len(mp),
                                dataset: e.name.clone(),
                                rel,
                            },
                        );
                    },
                    None => {},
                }
            }
        },
        None => {},
    }
    r
}

/// A path to resolve must hold more than whitespace.
pub fn check_path(zpl_path: &str) -> (r: Result<(), ExportFault>)
    ensures
        r is Ok <==> trim(zpl_path@).len() > 0,
        r matches Err(e) ==> e == ExportFault::InvalidPath,
        r is Err ==> select_spec(zpl_path@, Seq::empty()) == Err::<Candidate, ExportFault>(
            ExportFault::InvalidPath,
        ),
{
    let all = chars_of(zpl_path);
    let t = trim_chars(&all);
    if t.len() == 0 {
        Err(ExportFault::InvalidPath)
    } else {
        Ok(())
    }
}

/// The dataset and the path inside it that a request resolved to.
#[derive(Debug, Clone)]
pub struct DatasetTarget {
    pub dataset_name: String,
    pub rel_path: String,
}

proof fn lemma_longest(c: Seq<Candidate>)
    ensures
        (longest(c) is Some) == (c.len() > 0),
        longest(c) matches Some(b) ==> c.contains(b),
        longest(c) matches Some(b) ==> forall|k: int| 0 <= k < c.len() ==> (#[trigger] c[k]).len <= b.len,
    decreases c.len(),
{
    if c.len() > 0 {
        lemma_longest(c.drop_last());
        let p = c.drop_last();
        match longest(p) {
            Some(b) => {
                let i = choose|i: int| 0 <= i < p.len() && p[i] == b;
                assert(c[i] == b);
            },
            None => {},
        }
        let b = longest(c)->0;
        assert(c[c.len() - 1] == c.last());
        assert forall|k: int| 0 <= k < c.len() implies (#[trigger] c[k]).len <= b.len by {
            if k < c.len() - 1 {
                assert(c[k] == p[k]);
            }
        }
    }
}

/// Resolves `zpl_path`, an absolute mount path or a dataset-relative path, to
/// the dataset of `catalog` that it lies in. Among the filesystem datasets
/// whose name matches the relative form, or whose mounted mountpoint matches
/// the absolute form, the longest match wins; the first listed on a tie.
pub fn select_dataset(zpl_path: &str, catalog: &Vec<DatasetCatalogEntry>) -> (r: Result<
    DatasetTarget,
    ExportFault,
>)
    ensures
        match r {
            Ok(t) => select_spec(zpl_path@, entry_views(catalog@)) matches Ok(c) && c.dataset
                == t.dataset_name@ && c.rel == t.rel_path@,
            Err(e) => select_spec(zpl_path@, entry_views(catalog@)) == Err::<Candidate, ExportFault>(
                e,
            ),
        },
{
    let all = chars_of(zpl_path);
    let t = trim_chars(&all);
    if t.len() == 0 {
        return Err(ExportFault::InvalidPath);
    }
    let mut abs: Vec<char> = Vec::new();
    if t[0] != '/' {
        abs.push('/');
    }
    let mut rest = slice_chars(&t, 0, t.len());
    abs.append(&mut rest);
    assert(abs@ =~= absolute_form(t@));
    let slash: Vec<char> = vec!['/'];
    assert(slash@ =~= seq!['/']);
    let relv = strip_repeated_chars(&t, &slash);
    let absolute = string_of(&abs);
    let relative = string_of(&relv);
    let ghost views = entry_views(catalog@);
    let ghost a = absolute@;
    let ghost rl = relative@;
    let mut found: Vec<FoundCandidate> = Vec::new();
    let mut i: usize = 0;
    while i < catalog.len()
        invariant
            i <= catalog@.len(),
            views == entry_views(catalog@),
            a == absolute@,
            rl == relative@,
            views_match(found@, candidates(views.take(i as int), a, rl)),
        decreases catalog.len() - i,
    {
        let mut more = entry_candidates_exec(&catalog[i], &absolute, &relative);
        let ghost before = found@;
        let ghost extra = more@;
        found.append(&mut more);
        proof {
            assert(views.take(i + 1).drop_last() =~= views.take(i as int));
            assert(views.take(i + 1).last() == catalog@[i as int]@);
            let s = candidates(views.take(i + 1), a, rl);
            assert(s =~= candidates(views.take(i as int), a, rl) + entry_candidates(
                catalog@[i as int]@,
                a,
                rl,
            ));
            assert forall|k: int| 0 <= k < found@.len() implies #[trigger] found@[k]@ == s[k] by {
                if k < before.len() {
                    assert(found@[k] == before[k]);
                } else {
                    assert(found@[k] == extra[k - before.len()]);
                }
            }
        }
        i = i + 1;
    }
    assert(views.take(i as int) =~= views);
    let ghost all_c = candidates(views, a, rl);
    let mut best: Option<usize> = None;
    let mut j: usize = 0;
    while j < found.len()
        invariant
            j <= found@.len(),
            views_match(found@, all_c),
            match best {
                None => longest(all_c.take(j as int)) is None,
                Some(b) => b < j && longest(all_c.take(j as int)) == Some(all_c[b as int]),
            },
        decreases found.len() - j,
    {
        proof {
            assert(all_c.take(j + 1).drop_last() =~= all_c.take(j as int));
            assert(all_c.take(j + 1).last() == all_c[j as int]);
            assert(found@[j as int]@ == all_c[j as int]);
        }
        match best {
            None => {
                best = Some(j);
            },
            Some(b) => {
                assert(found@[b as int]@ == all_c[b as int]);
                if found[j].len > found[b].len {
                    best = Some(j);
                }
            },
        }
        j = j + 1;
    }
    assert(all_c.take(j as int) =~= all_c);
    match best {
        None => Err(ExportFault::DatasetPathUnresolved),
        Some(b) => {
            assert(found@[b as int]@ == all_c[b as int]);
            Ok(
                DatasetTarget {
                    dataset_name: found[b].dataset.clone(),
                    rel_path: found[b].rel.clone(),
                },
            )
        },
    }
}

/// The longest match wins: the dataset that a path resolves to comes from a
/// candidate of the catalog, and no candidate matched a longer prefix.
pub proof fn lemma_longest_prefix_wins(path: Seq<char>, entries: Seq<EntryView>)
    ensures
        select_spec(path, entries) matches Ok(c) ==> ({
            let t = trim(path);
            let all = candidates(entries, absolute_form(t), relative_form(t));
            &&& all.contains(c)
            &&& forall|k: int| 0 <= k < all.len() ==> (#[trigger] all[k]).len <= c.len
        }),
{
    let t = trim(path);
    lemma_longest(candidates(entries, absolute_form(t), relative_form(t)));
}

proof fn lemma_trim_end_after_slash(q: Seq<char>)
    requires
        q.len() > 0,
        !is_ws(q[0]),
    ensures
        trim_end(seq!['/'] + q) == seq!['/'] + trim_end(q),
        trim_end(q).len() > 0,
        trim_end(q)[0] == q[0],
    decreases q.len(),
{
    let sq = seq!['/'] + q;
    assert(sq.last() == q.last());
    if is_ws(q.last()) {
        assert(q.len() >= 2);
        assert(sq.drop_last() =~= seq!['/'] + q.drop_last());
        assert(q.drop_last()[0] == q[0]);
        lemma_trim_end_after_slash(q.drop_last());
    }
}

/// A path without leading whitespace or `/` resolves as the same path with
/// one `/` in front: the dataset-relative form and the absolute mount form
/// of a path name the same dataset and the same path inside it.
pub proof fn lemma_leading_slash_same_target(p: Seq<char>, entries: Seq<EntryView>)
    requires
        p.len() > 0,
        !is_ws(p[0]),
        p[0] != '/',
    ensures
        select_spec(p, entries) == select_spec(seq!['/'] + p, entries),
{
    let sp = seq!['/'] + p;
    assert(trim_start(p) == p);
    assert(sp[0] == '/');
    assert(trim_start(sp) == sp);
    lemma_trim_end_after_slash(p);
    let t = trim(p);
    let u = trim(sp);
    assert(u == seq!['/'] + t);
    assert(t[0] == p[0]);
    assert(absolute_form(u) == u);
    assert(absolute_form(t) == u);
    let slash = seq!['/'];
    assert(u.subrange(0, 1) =~= slash);
    assert(u.subrange(1, u.len() as int) =~= t);
    assert(strip_repeated(u, slash) == strip_repeated(t, slash));
    assert(!has_prefix(t, slash)) by {
        if has_prefix(t, slash) {
            assert(t.subrange(0, 1)[0] == t[0]);
        }
    }
    assert(relative_form(t) == t);
    assert(relative_form(u) == t);
}

} // verus!
