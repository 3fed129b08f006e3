//! Cache file names, and the resolver that decides which lines share one scan and one file.

use crate::data_source::{opt_view, url_encoded, DataSource, SourceKind};
use crate::decimal::decimal_text;
use crate::process_log::ProcessError;
use crate::resolved_graph_config::{ResolvedGraphConfig, ResolvedLine, ResolvedPanel};
use crate::text::{nat_digits, push_str, str_eq, substring, u128_to_string};
use vstd::prelude::*;

verus! {

/// What the resolver needs to know of one input file: its cache directory and modification
/// time in seconds since the epoch (`None` when unknown).
#[derive(Clone, Debug, PartialEq, Eq)]
pub struct SourceInfo {
    pub path: String,
    pub cache_dir: String,
    pub mtime_secs: Option<u64>,
}

/// Length of the part of `s` up to and including its last `/` (zero when it has none).
pub open spec fn dir_prefix_len(s: Seq<char>) -> nat
    decreases s.len(),
{
    if s.len() == 0 {
        0
    } else if s.last() == '/' {
        s.len()
    } else {
        dir_prefix_len(s.drop_last())
    }
}

proof fn lemma_dir_prefix_len(s: Seq<char>)
    ensures
        dir_prefix_len(s) <= s.len(),
    decreases s.len(),
{
    if s.len() > 0 && s.last() != '/' {
        lemma_dir_prefix_len(s.drop_last());
    }
}

/// The last component of a path.
pub open spec fn file_name_of(path: Seq<char>) -> Seq<char> {
    path.subrange(dir_prefix_len(path) as int, path.len() as int)
}

/// `dir` joined with `name`; an absolute `name` stands alone.
pub open spec fn join_path(dir: Seq<char>, name: Seq<char>) -> Seq<char> {
    if name.len() > 0 && name[0] == '/' {
        name
    } else if dir.len() == 0 {
        name
    } else if dir.last() == '/' {
        dir + name
    } else {
        dir + "/"@ + name
    }
}

/// The part of a cache file name that names the data source: a tag of its kind, the encoded
/// pattern, and the `yvalue` of an `EventValue`.
pub open spec fn core_name(ds: DataSource) -> Seq<char> {
    let tag = url_encoded(ds.regex_pattern_spec());
    match ds {
        DataSource::EventValue { yvalue, .. } => "event_"@ + tag + "_"@ + decimal_text(yvalue),
        DataSource::EventCount { .. } => "count_"@ + tag,
        DataSource::EventDelta(_) => "delta_"@ + tag,
        DataSource::FieldValue(_) => "field_"@ + tag,
    }
}

/// `<file>_<mtime>__[<guard>__]<kind-tag>_<pattern>[_<yvalue>].csv`
pub open spec fn csv_file_name(line: ResolvedLine, mtime: Option<u64>) -> Seq<char> {
    let ts = match mtime {
        Some(t) => nat_digits(t as nat),
        None => "nots"@,
    };
    let guard = match line.line.data_source.guard_spec() {
        Some(g) => g@ + "__"@,
        None => Seq::empty(),
    };
    file_name_of(line.source.path_spec()@) + "_"@ + ts + "__"@ + guard + core_name(
        line.line.data_source,
    ) + ".csv"@
}

/// Index of the first entry of `infos` for `path`, or `infos.len()`.
pub open spec fn info_index(infos: Seq<SourceInfo>, path: Seq<char>) -> nat
    decreases infos.len(),
{
    if infos.len() == 0 {
        0
    } else if infos[0].path@ == path {
        0
    } else {
        1 + info_index(infos.drop_first(), path)
    }
}

proof fn lemma_info_index(infos: Seq<SourceInfo>, path: Seq<char>, i: int)
    requires
        0 <= i <= infos.len(),
        forall|k: int| 0 <= k < i ==> infos[k].path@ != path,
    ensures
        info_index(infos, path) >= i,
        info_index(infos, path) <= infos.len(),
        i < infos.len() && infos[i].path@ == path ==> info_index(infos, path) == i,
    decreases i,
{
    if infos.len() == 0 {
    } else if i == 0 {
        lemma_info_index_bound(infos, path);
    } else {
        let t = infos.drop_first();
        assert forall|k: int| 0 <= k < i - 1 implies t[k].path@ != path by {
            assert(t[k] == infos[k + 1]);
        }
        lemma_info_index(t, path, i - 1);
    }
}

proof fn lemma_info_index_bound(infos: Seq<SourceInfo>, path: Seq<char>)
    ensures
        info_index(infos, path) <= infos.len(),
    decreases infos.len(),
{
    if infos.len() > 0 && infos[0].path@ != path {
        lemma_info_index_bound(infos.drop_first(), path);
    }
}

/// The cache file path a line would get on its own.
pub open spec fn own_csv_path(infos: Seq<SourceInfo>, line: ResolvedLine) -> Seq<char> {
    let info = infos[info_index(infos, line.source.path_spec()@) as int];
    join_path(info.cache_dir@, csv_file_name(line, info.mtime_secs))
}

/// Lines that read the same signal: equal guard, match token and input file.
pub open spec fn same_group(a: ResolvedLine, b: ResolvedLine) -> bool {
    &&& opt_view(a.line.data_source.guard_spec()) == opt_view(b.line.data_source.guard_spec())
    &&& a.line.data_source.token_spec() == b.line.data_source.token_spec()
    &&& a.source.path_spec()@ == b.source.path_spec()@
}

pub open spec fn candidate(l: ResolvedLine, x: ResolvedLine, want: Option<SourceKind>) -> bool {
    same_group(l, x) && match want {
        Some(k) => l.line.data_source.kind_spec() == k,
        None => true,
    }
}

/// Index of the first line of `x`'s group (of kind `want`, when given), or `ls.len()`.
pub open spec fn first_candidate(ls: Seq<ResolvedLine>, x: ResolvedLine, want: Option<SourceKind>) -> nat
    decreases ls.len(),
{
    if ls.len() == 0 {
        0
    } else if candidate(ls[0], x, want) {
        0
    } else {
        1 + first_candidate(ls.drop_first(), x, want)
    }
}

proof fn lemma_first_candidate(ls: Seq<ResolvedLine>, x: ResolvedLine, want: Option<SourceKind>, i: int)
    requires
        0 <= i <= ls.len(),
        forall|k: int| 0 <= k < i ==> !candidate(#[trigger] ls[k], x, want),
    ensures
        first_candidate(ls, x, want) >= i,
        first_candidate(ls, x, want) <= ls.len(),
        i < ls.len() && candidate(ls[i], x, want) ==> first_candidate(ls, x, want) == i,
    decreases i,
{
    if ls.len() == 0 {
    } else if i == 0 {
        lemma_first_candidate_bound(ls, x, want);
    } else {
        let t = ls.drop_first();
        assert forall|k: int| 0 <= k < i - 1 implies !candidate(#[trigger] t[k], x, want) by {
            assert(t[k] == ls[k + 1]);
        }
        lemma_first_candidate(t, x, want, i - 1);
    }
}

proof fn lemma_first_candidate_bound(ls: Seq<ResolvedLine>, x: ResolvedLine, want: Option<SourceKind>)
    ensures
        first_candidate(ls, x, want) <= ls.len(),
        first_candidate(ls, x, want) < ls.len() ==> candidate(ls[first_candidate(ls, x, want) as int], x, want),
    decreases ls.len(),
{
    if ls.len() > 0 && !candidate(ls[0], x, want) {
        let t = ls.drop_first();
        lemma_first_candidate_bound(t, x, want);
        if first_candidate(t, x, want) < t.len() {
            assert(ls[first_candidate(ls, x, want) as int] == t[first_candidate(t, x, want) as int]);
        }
    }
}

/// The canonical line of `x`'s group: its first `FieldValue` line, else its first `EventValue`
/// line, else its first line.
pub open spec fn canonical_index(ls: Seq<ResolvedLine>, x: ResolvedLine) -> int {
    let f = first_candidate(ls, x, Some(SourceKind::FieldValue));
    let e = first_candidate(ls, x, Some(SourceKind::EventValue));
    if f < ls.len() {
        f as int
    } else if e < ls.len() {
        e as int
    } else {
        first_candidate(ls, x, None) as int
    }
}

/// The cache file a line reads after resolution: shareable lines read their group's
/// canonical file, all others their own.
pub open spec fn assigned_path(infos: Seq<SourceInfo>, ls: Seq<ResolvedLine>, k: int) -> Seq<char> {
    if ls[k].line.data_source.is_shareable() {
        own_csv_path(infos, ls[canonical_index(ls, ls[k])])
    } else {
        own_csv_path(infos, ls[k])
    }
}

/// Every line's input file has an entry in `infos`.
pub open spec fn infos_cover(infos: Seq<SourceInfo>, ls: Seq<ResolvedLine>) -> bool {
    forall|k: int| 0 <= k < ls.len() ==> info_index(infos, (#[trigger] ls[k]).source.path_spec()@) < infos.len()
}

pub fn dir_prefix_len_of(s: &str) -> (r: usize)
    ensures
        r == dir_prefix_len(s@),
{
    let mut i: usize = s.unicode_len();
    assert(s@.subrange(0, i as int) =~= s@);
    while i > 0 && s.get_char(i - 1) != '/'
        invariant
            i <= s@.len(),
            dir_prefix_len(s@) == dir_prefix_len(s@.subrange(0, i as int)),
        decreases i,
    {
        assert(s@.subrange(0, i as int).drop_last() =~= s@.subrange(0, i - 1));
        i = i - 1;
    }
    i
}

/// The last component of `path`.
pub fn file_name(path: &str) -> (r: String)
    ensures
        r@ == file_name_of(path@),
{
    proof {
        lemma_dir_prefix_len(path@);
    }
    let start = dir_prefix_len_of(path);
    substring(path, start, path.unicode_len())
}

/// Length of the part of `s` up to and including its last `.` (zero when it has none).
pub open spec fn dot_prefix_len(s: Seq<char>) -> nat
    decreases s.len(),
{
    if s.len() == 0 {
        0
    } else if s.last() == '.' {
        s.len()
    } else {
        dot_prefix_len(s.drop_last())
    }
}

proof fn lemma_dot_prefix_len(s: Seq<char>)
    ensures
        dot_prefix_len(s) <= s.len(),
    decreases s.len(),
{
    if s.len() > 0 && s.last() != '.' {
        lemma_dot_prefix_len(s.drop_last());
    }
}

pub fn dot_prefix_len_of(s: &str) -> (r: usize)
    ensures
        r == dot_prefix_len(s@),
        r <= s@.len(),
{
    proof {
        lemma_dot_prefix_len(s@);
    }
    let mut i: usize = s.unicode_len();
    assert(s@.subrange(0, i as int) =~= s@);
    while i > 0 && s.get_char(i - 1) != '.'
        invariant
            i <= s@.len(),
            dot_prefix_len(s@) == dot_prefix_len(s@.subrange(0, i as int)),
        decreases i,
    {
        assert(s@.subrange(0, i as int).drop_last() =~= s@.subrange(0, i - 1));
        i = i - 1;
    }
    i
}

/// The last component of a path without its extension; a leading dot starts no extension.
pub open spec fn file_stem_of(path: Seq<char>) -> Seq<char> {
    let name = file_name_of(path);
    let d = dot_prefix_len(name) as int;
    if d > 1 {
        name.subrange(0, d - 1)
    } else {
        name
    }
}

pub fn file_stem(path: &str) -> (r: String)
    ensures
        r@ == file_stem_of(path@),
{
    let name = file_name(path);
    let d = dot_prefix_len_of(name.as_str());
    if d > 1 {
        substring(name.as_str(), 0, d - 1)
    } else {
        name
    }
}

/// `dir` joined with `name`, with one `/` between them.
pub fn join(dir: &str, name: &str) -> (r: String)
    ensures
        r@ == join_path(dir@, name@),
{
    let n = dir.unicode_len();
    if name.unicode_len() > 0 && name.get_char(0) == '/' {
        String::from_str(name)
    } else if n == 0 {
        String::from_str(name)
    } else {
        let mut r = String::from_str(dir);
        if dir.get_char(n - 1) != '/' {
            push_str(&mut r, "/");
        }
        push_str(&mut r, name);
        r
    }
}

fn opt_str_eq(a: &Option<String>, b: &Option<String>) -> (r: bool)
    ensures
        r == (opt_view(*a) == opt_view(*b)),
{
    match (a, b) {
        (Some(x), Some(y)) => str_eq(x.as_str(), y.as_str()),
        (None, None) => true,
        _ => false,
    }
}

fn same_group_exec(a: &ResolvedLine, b: &ResolvedLine) -> (r: bool)
    ensures
        r == same_group(*a, *b),
{
    opt_str_eq(a.line.data_source.guard(), b.line.data_source.guard()) && str_eq(
        a.line.data_source.match_token().as_str(),
        b.line.data_source.match_token().as_str(),
    ) && str_eq(a.source_file_name().as_str(), b.source_file_name().as_str())
}

fn first_candidate_exec(ls: &Vec<ResolvedLine>, x: &ResolvedLine, want: Option<SourceKind>) -> (r:
    usize)
    ensures
        r == first_candidate(ls@, *x, want),
        r <= ls@.len(),
{
    let mut i: usize = 0;
    while i < ls.len()
        invariant
            i <= ls@.len(),
            forall|k: int| 0 <= k < i ==> !candidate(#[trigger] ls@[k], *x, want),
        decreases ls@.len() - i,
    {
        let ok = same_group_exec(&ls[i], x) && match want {
            Some(k) => ls[i].line.data_source.kind() == k,
            None => true,
        };
        if ok {
            proof {
                lemma_first_candidate(ls@, *x, want, i as int);
            }
            return i;
        }
        i = i + 1;
    }
    proof {
        lemma_first_candidate(ls@, *x, want, i as int);
    }
    i
}

proof fn lemma_same_group_first_candidate(ls: Seq<ResolvedLine>, x: ResolvedLine, y: ResolvedLine, want: Option<SourceKind>)
    requires
        same_group(x, y),
    ensures
        first_candidate(ls, x, want) == first_candidate(ls, y, want),
    decreases ls.len(),
{
    if ls.len() > 0 {
        assert(candidate(ls[0], x, want) == candidate(ls[0], y, want));
        lemma_same_group_first_candidate(ls.drop_first(), x, y, want);
    }
}

proof fn lemma_canonical_in_group(ls: Seq<ResolvedLine>, k: int)
    requires
        0 <= k < ls.len(),
    ensures
        0 <= canonical_index(ls, ls[k]) < ls.len(),
        same_group(ls[canonical_index(ls, ls[k])], ls[k]),
        canonical_index(ls, ls[canonical_index(ls, ls[k])]) == canonical_index(ls, ls[k]),
{
    let x = ls[k];
    lemma_first_candidate_bound(ls, x, Some(SourceKind::FieldValue));
    lemma_first_candidate_bound(ls, x, Some(SourceKind::EventValue));
    lemma_first_candidate_bound(ls, x, None);
    assert forall|j: int| 0 <= j < first_candidate(ls, x, None) implies !candidate(#[trigger] ls[j], x, None) by {
        lemma_first_candidate_prefix(ls, x, None, j);
    }
    assert(candidate(ls[k], x, None));
    if first_candidate(ls, x, None) > k {
        lemma_first_candidate_prefix(ls, x, None, k);
    }
    let c = canonical_index(ls, x);
    assert(same_group(ls[c], x));
    lemma_same_group_first_candidate(ls, ls[c], x, Some(SourceKind::FieldValue));
    lemma_same_group_first_candidate(ls, ls[c], x, Some(SourceKind::EventValue));
    lemma_same_group_first_candidate(ls, ls[c], x, None);
}

proof fn lemma_first_candidate_prefix(ls: Seq<ResolvedLine>, x: ResolvedLine, want: Option<SourceKind>, j: int)
    requires
        0 <= j < first_candidate(ls, x, want),
        first_candidate(ls, x, want) <= ls.len(),
    ensures
        !candidate(ls[j], x, want),
    decreases ls.len(),
{
    if ls.len() > 0 && !candidate(ls[0], x, want) && j > 0 {
        let t = ls.drop_first();
        lemma_first_candidate_bound(t, x, want);
        lemma_first_candidate_prefix(t, x, want, j - 1);
        assert(ls[j] == t[j - 1]);
    }
}

fn canonical_of(ls: &Vec<ResolvedLine>, k: usize) -> (r: usize)
    requires
        k < ls@.len(),
    ensures
        r == canonical_index(ls@, ls@[k as int]),
        r < ls@.len(),
{
    proof {
        lemma_canonical_in_group(ls@, k as int);
    }
    let x = &ls[k];
    let f = first_candidate_exec(ls, x, Some(SourceKind::FieldValue));
    if f < ls.len() {
        return f;
    }
    let e = first_candidate_exec(ls, x, Some(SourceKind::EventValue));
    if e < ls.len() {
        return e;
    }
    first_candidate_exec(ls, x, None)
}

fn info_of(infos: &Vec<SourceInfo>, path: &String) -> (r: usize)
    ensures
        r == info_index(infos@, path@),
        r <= infos@.len(),
{
    let mut i: usize = 0;
    while i < infos.len()
        invariant
            i <= infos@.len(),
            forall|k: int| 0 <= k < i ==> infos@[k].path@ != path@,
        decreases infos@.len() - i,
    {
        if str_eq(infos[i].path.as_str(), path.as_str()) {
            proof {
                lemma_info_index(infos@, path@, i as int);
            }
            return i;
        }
        i = i + 1;
    }
    proof {
        lemma_info_index(infos@, path@, i as int);
    }
    i
}

impl ResolvedLine {
    /// The line's own cache file name; `mtime` is the input file's modification time in seconds.
    pub fn get_csv_filename(&self, mtime: Option<u64>) -> (r: String)
        ensures
            r@ == csv_file_name(*self, mtime),
    {
        let ds = &self.line.data_source;
        let tag = ds.regex_filename_tag();
        let core = match ds {
            DataSource::EventValue { yvalue, .. } => {
                let mut c = String::from_str("event_");
                push_str(&mut c, tag.as_str());
                push_str(&mut c, "_");
                push_str(&mut c, yvalue.to_text().as_str());
                c
            },
            DataSource::EventCount { .. } => {
                let mut c = String::from_str("count_");
                push_str(&mut c, tag.as_str());
                c
            },
            DataSource::EventDelta(_) => {
                let mut c = String::from_str("delta_");
                push_str(&mut c, tag.as_str());
                c
            },
            DataSource::FieldValue(_) => {
                let mut c = String::from_str("field_");
                push_str(&mut c, tag.as_str());
                c
            },
        };
        let mut r = file_name(self.source_file_name().as_str());
        push_str(&mut r, "_");
        match mtime {
            Some(t) => push_str(&mut r, u128_to_string(t as u128).as_str()),
            None => push_str(&mut r, "nots"),
        }
        push_str(&mut r, "__");
        match ds.guard() {
            Some(g) => {
                push_str(&mut r, g.as_str());
                push_str(&mut r, "__");
            },
            None => {},
        }
        push_str(&mut r, core.as_str());
        push_str(&mut r, ".csv");
        assert(r@ =~= csv_file_name(*self, mtime));
        r
    }
}

/// The cache file path of every line of `ls`, in order (see `assigned_path`); an error naming
/// the first input file that `infos` does not cover.
pub fn resolve_shared_paths(ls: &Vec<ResolvedLine>, infos: &Vec<SourceInfo>) -> (r: Result<
    (Vec<String>, Vec<String>),
    ProcessError,
>)
    ensures
        r is Ok == infos_cover(infos@, ls@),
        r matches Ok(p) ==> p.0@.len() == ls@.len() && p.1@.len() == ls@.len(),
        r matches Ok(p) ==> forall|k: int|
            0 <= k < ls@.len() ==> (#[trigger] p.0@[k])@ == own_csv_path(infos@, ls@[k]),
        r matches Ok(p) ==> forall|k: int|
            0 <= k < ls@.len() ==> (#[trigger] p.1@[k])@ == assigned_path(infos@, ls@, k),
{
    let n = ls.len();
    let mut own: Vec<String> = Vec::new();
    let mut k: usize = 0;
    while k < n
        invariant
            n == ls@.len(),
            k <= n,
            own@.len() == k,
            forall|j: int| 0 <= j < k ==> info_index(infos@, (#[trigger] ls@[j]).source.path_spec()@) < infos@.len(),
            forall|j: int| 0 <= j < k ==> (#[trigger] own@[j])@ == own_csv_path(infos@, ls@[j]),
        decreases n - k,
    {
        let line = &ls[k];
        let idx = info_of(infos, line.source_file_name());
        if idx == infos.len() {
            return Err(
                ProcessError::FileIoError(
                    line.source_file_name().clone(),
                    String::from_str("no cache directory for this input file"),
                ),
            );
        }
        let info = &infos[idx];
        let name = line.get_csv_filename(info.mtime_secs);
        own.push(join(info.cache_dir.as_str(), name.as_str()));
        k = k + 1;
    }
    let mut paths: Vec<String> = Vec::new();
    let mut k: usize = 0;
    while k < n
        invariant
            n == ls@.len(),
            own@.len() == n,
            k <= n,
            paths@.len() == k,
            forall|j: int| 0 <= j < n ==> (#[trigger] own@[j])@ == own_csv_path(infos@, ls@[j]),
            forall|j: int| 0 <= j < k ==> (#[trigger] paths@[j])@ == assigned_path(infos@, ls@, j),
        decreases n - k,
    {
        if ls[k].line.data_source.can_be_shared() {
            let c = canonical_of(ls, k);
            paths.push(own[c].clone());
        } else {
            paths.push(own[k].clone());
        }
        k = k + 1;
    }
    Ok((own, paths))
}

/// All lines of all panels, panel by panel.
pub open spec fn flat_lines(panels: Seq<ResolvedPanel>) -> Seq<ResolvedLine>
    decreases panels.len(),
{
    if panels.len() == 0 {
        Seq::empty()
    } else {
        flat_lines(panels.drop_last()) + panels.last().lines@
    }
}

/// Position in `flat_lines(panels)` of the first line of panel `i`.
pub open spec fn line_offset(panels: Seq<ResolvedPanel>, i: int) -> int {
    flat_lines(panels.subrange(0, i)).len() as int
}

proof fn lemma_flat_prefix(ps: Seq<ResolvedPanel>, i: int)
    requires
        0 <= i <= ps.len(),
    ensures
        flat_lines(ps.subrange(0, i)).len() <= flat_lines(ps).len(),
        forall|k: int|
            0 <= k < flat_lines(ps.subrange(0, i)).len() ==> #[trigger] flat_lines(ps.subrange(0, i))[k]
                == flat_lines(ps)[k],
    decreases ps.len() - i,
{
    if i == ps.len() {
        assert(ps.subrange(0, i) =~= ps);
    } else {
        let d = ps.drop_last();
        assert(d.subrange(0, i) =~= ps.subrange(0, i));
        lemma_flat_prefix(d, i);
    }
}

proof fn lemma_flat_index(ps: Seq<ResolvedPanel>, i: int, j: int)
    requires
        0 <= i < ps.len(),
        0 <= j < ps[i].lines@.len(),
    ensures
        0 <= line_offset(ps, i) + j < flat_lines(ps).len(),
        flat_lines(ps)[line_offset(ps, i) + j] == ps[i].lines@[j],
{
    assert(ps.subrange(0, i + 1).drop_last() =~= ps.subrange(0, i));
    let f = flat_lines(ps.subrange(0, i + 1));
    assert(f == flat_lines(ps.subrange(0, i)) + ps[i].lines@);
    lemma_flat_prefix(ps, i + 1);
    assert(f[line_offset(ps, i) + j] == ps[i].lines@[j]);
}

/// Copies of all lines, panel by panel.
pub fn flatten(panels: &Vec<ResolvedPanel>) -> (r: Vec<ResolvedLine>)
    ensures
        r@ == flat_lines(panels@),
{
    let ghost ps = panels@;
    let mut out: Vec<ResolvedLine> = Vec::new();
    let mut i: usize = 0;
    assert(ps.subrange(0, 0) =~= Seq::<ResolvedPanel>::empty());
    while i < panels.len()
        invariant
            ps == panels@,
            i <= ps.len(),
            out@ == flat_lines(ps.subrange(0, i as int)),
        decreases ps.len() - i,
    {
        let ghost base = out@;
        let mut j: usize = 0;
        assert(base + panels@[i as int].lines@.subrange(0, 0) =~= base);
        while j < panels[i].lines.len()
            invariant
                ps == panels@,
                i < ps.len(),
                j <= ps[i as int].lines@.len(),
                out@ == base + ps[i as int].lines@.subrange(0, j as int),
            decreases ps[i as int].lines@.len() - j,
        {
            out.push(panels[i].lines[j].copy());
            assert(out@ =~= base + ps[i as int].lines@.subrange(0, j + 1));
            j = j + 1;
        }
        assert(ps[i as int].lines@.subrange(0, j as int) =~= ps[i as int].lines@);
        assert(ps.subrange(0, i + 1).drop_last() =~= ps.subrange(0, i as int));
        i = i + 1;
    }
    assert(ps.subrange(0, i as int) =~= ps);
    out
}

fn has_key(out: &Vec<(String, ResolvedLine)>, key: &String) -> (r: bool)
    ensures
        r == exists|e: int| 0 <= e < out@.len() && (#[trigger] out@[e]).0@ == key@,
{
    let mut e: usize = 0;
    while e < out.len()
        invariant
            e <= out@.len(),
            forall|x: int| 0 <= x < e ==> (#[trigger] out@[x]).0@ != key@,
        decreases out@.len() - e,
    {
        if str_eq(out[e].0.as_str(), key.as_str()) {
            return true;
        }
        e = e + 1;
    }
    false
}

/// `out` has an entry for the file `p`.
pub open spec fn lists_file(out: Seq<(String, ResolvedLine)>, p: Seq<char>) -> bool {
    exists|e: int| 0 <= e < out.len() && (#[trigger] out[e]).0@ == p
}

/// `entry` pairs a file with a copy of a line that owns it.
pub open spec fn is_owned_entry(infos: Seq<SourceInfo>, ls: Seq<ResolvedLine>, entry: (String, ResolvedLine)) -> bool {
    exists|k: int|
        0 <= k < ls.len() && owns_file(infos, ls, k) && entry.0@ == assigned_path(infos, ls, k)
            && entry.1.line == ls[k].line && entry.1.source == ls[k].source
            && entry.1.shared_csv_file == Some(entry.0)
}

/// The line at `k` owns its cache file: no other line's file is read in place of its own.
pub open spec fn owns_file(infos: Seq<SourceInfo>, ls: Seq<ResolvedLine>, k: int) -> bool {
    own_csv_path(infos, ls[k]) == assigned_path(infos, ls, k)
}

proof fn lemma_owner_exists(infos: Seq<SourceInfo>, ls: Seq<ResolvedLine>, k: int)
    requires
        0 <= k < ls.len(),
    ensures
        ({
            let c = if ls[k].line.data_source.is_shareable() {
                canonical_index(ls, ls[k])
            } else {
                k
            };
            0 <= c < ls.len() && owns_file(infos, ls, c) && assigned_path(infos, ls, c)
                == assigned_path(infos, ls, k)
        }),
{
    lemma_canonical_in_group(ls, k);
}

/// Assigns every line its cache file (see `assigned_path`) and returns the files to scan, each
/// with one line that owns it (see `owns_file`), without repetition and in the order of first
/// use. `infos` gives each input file's cache directory and modification time; an input file
/// missing from it is an error.
pub fn propagate_shared_csv_files(config: &mut ResolvedGraphConfig, infos: &Vec<SourceInfo>) -> (r:
    Result<Vec<(String, ResolvedLine)>, ProcessError>)
    ensures
        r is Ok == infos_cover(infos@, flat_lines(old(config).panels@)),
        r is Err ==> *final(config) == *old(config),
        r matches Ok(out) ==> {
            let ls = flat_lines(old(config).panels@);
            let ps = old(config).panels@;
            &&& final(config).panels@.len() == ps.len()
            &&& forall|i: int, j: int|
                0 <= i < ps.len() && 0 <= j < ps[i].lines@.len() ==> {
                    let l = #[trigger] final(config).panels@[i].lines@[j];
                    let o = ps[i].lines@[j];
                    &&& final(config).panels@[i].lines@.len() == ps[i].lines@.len()
                    &&& l.shared_csv_file matches Some(p) && p@ == assigned_path(
                        infos@,
                        ls,
                        line_offset(ps, i) + j,
                    )
                    &&& l.line == o.line
                    &&& l.source == o.source
                    &&& l.data_points_count == o.data_points_count
                    &&& l.time_range == o.time_range
                }
            &&& forall|i: int|
                0 <= i < ps.len() ==> (#[trigger] final(config).panels@[i]).params == ps[i].params
                    && final(config).panels@[i].time_range == ps[i].time_range
            &&& forall|a: int, b: int|
                0 <= a < b < out@.len() ==> (#[trigger] out@[a]).0@ != (#[trigger] out@[b]).0@
            &&& forall|e: int| 0 <= e < out@.len() ==> is_owned_entry(infos@, ls, #[trigger] out@[e])
            &&& forall|k: int|
                0 <= k < ls.len() ==> lists_file(out@, #[trigger] assigned_path(infos@, ls, k))
        },
{
    let ghost ps = config.panels@;
    let ls = flatten(&config.panels);
    let (own, assigned) = match resolve_shared_paths(&ls, infos) {
        Ok(p) => p,
        Err(e) => return Err(e),
    };
    // every line reads its assigned file
    let total = ls.len();
    let n = config.panels.len();
    let mut i: usize = 0;
    let mut k: usize = 0;
    assert(ps.subrange(0, 0) =~= Seq::<ResolvedPanel>::empty());
    while i < n
        invariant
            n == ps.len(),
            n == config.panels@.len(),
            i <= n,
            total == ls@.len(),
            ls@ == flat_lines(ps),
            assigned@.len() == ls@.len(),
            forall|x: int| 0 <= x < ls@.len() ==> (#[trigger] assigned@[x])@ == assigned_path(infos@, ls@, x),
            k == line_offset(ps, i as int),
            forall|p: int| i <= p < n ==> #[trigger] config.panels@[p] == ps[p],
            forall|p: int|
                0 <= p < n ==> (#[trigger] config.panels@[p]).params == ps[p].params
                    && config.panels@[p].time_range == ps[p].time_range
                    && config.panels@[p].lines@.len() == ps[p].lines@.len(),
            forall|p: int, j: int|
                0 <= p < i && 0 <= j < ps[p].lines@.len() ==> {
                    let l = #[trigger] config.panels@[p].lines@[j];
                    let o = ps[p].lines@[j];
                    &&& l.shared_csv_file matches Some(q) && q@ == assigned_path(
                        infos@,
                        ls@,
                        line_offset(ps, p) + j,
                    )
                    &&& l.line == o.line
                    &&& l.source == o.source
                    &&& l.data_points_count == o.data_points_count
                    &&& l.time_range == o.time_range
                },
        decreases n - i,
    {
        let m = config.panels[i].lines.len();
        let mut j: usize = 0;
        let ghost before = config.panels@;
        while j < m
            invariant
                n == ps.len(),
                n == config.panels@.len(),
                i < n,
                m == ps[i as int].lines@.len(),
                j <= m,
                total == ls@.len(),
                ls@ == flat_lines(ps),
                assigned@.len() == ls@.len(),
                forall|x: int| 0 <= x < ls@.len() ==> (#[trigger] assigned@[x])@ == assigned_path(infos@, ls@, x),
                k == line_offset(ps, i as int) + j,
                before.len() == n,
                forall|p: int| 0 <= p < n && p != i ==> #[trigger] config.panels@[p] == before[p],
                config.panels@[i as int].params == ps[i as int].params,
                config.panels@[i as int].time_range == ps[i as int].time_range,
                config.panels@[i as int].input_file_name == ps[i as int].input_file_name,
                config.panels@[i as int].lines@.len() == m,
                forall|x: int| j <= x < m ==> #[trigger] config.panels@[i as int].lines@[x] == ps[i as int].lines@[x],
                forall|x: int|
                    0 <= x < j ==> {
                        let l = #[trigger] config.panels@[i as int].lines@[x];
                        let o = ps[i as int].lines@[x];
                        &&& l.shared_csv_file matches Some(q) && q@ == assigned_path(
                            infos@,
                            ls@,
                            line_offset(ps, i as int) + x,
                        )
                        &&& l.line == o.line
                        &&& l.source == o.source
                        &&& l.data_points_count == o.data_points_count
                        &&& l.time_range == o.time_range
                    },
            decreases m - j,
        {
            proof {
                lemma_flat_index(ps, i as int, j as int);
            }
            config.panels[i].lines[j].set_shared_csv_filename(&assigned[k]);
            j = j + 1;
            k = k + 1;
        }
        proof {
            assert(ps.subrange(0, i + 1).drop_last() =~= ps.subrange(0, i as int));
            assert(flat_lines(ps.subrange(0, i + 1)) == flat_lines(ps.subrange(0, i as int))
                + ps[i as int].lines@);
        }
        i = i + 1;
    }
    // the files to scan, each with a line that owns it
    let mut out: Vec<(String, ResolvedLine)> = Vec::new();
    let mut x: usize = 0;
    while x < total
        invariant
            total == ls@.len(),
            x <= total,
            own@.len() == total,
            assigned@.len() == total,
            forall|y: int| 0 <= y < total ==> (#[trigger] own@[y])@ == own_csv_path(infos@, ls@[y]),
            forall|y: int| 0 <= y < total ==> (#[trigger] assigned@[y])@ == assigned_path(infos@, ls@, y),
            forall|a: int, b: int|
                0 <= a < b < out@.len() ==> (#[trigger] out@[a]).0@ != (#[trigger] out@[b]).0@,
            forall|e: int| 0 <= e < out@.len() ==> is_owned_entry(infos@, ls@, #[trigger] out@[e]),
            forall|y: int|
                0 <= y < x && owns_file(infos@, ls@, y) ==> lists_file(
                    out@,
                    #[trigger] assigned_path(infos@, ls@, y),
                ),
        decreases total - x,
    {
        if str_eq(own[x].as_str(), assigned[x].as_str()) && !has_key(&out, &assigned[x]) {
            let mut rep = ls[x].copy();
            rep.set_shared_csv_filename(&assigned[x]);
            let key = assigned[x].clone();
            let ghost old_out = out@;
            out.push((key, rep));
            assert forall|y: int|
                0 <= y < x + 1 && owns_file(infos@, ls@, y) implies lists_file(
                    out@,
                    #[trigger] assigned_path(infos@, ls@, y),
                ) by {
                if y < x {
                    let e = choose|e: int| 0 <= e < old_out.len() && (#[trigger] old_out[e]).0@ == assigned_path(infos@, ls@, y);
                    assert(out@[e] == old_out[e]);
                } else {
                    assert(out@[old_out.len() as int].0@ == assigned_path(infos@, ls@, y));
                }
            }
            assert forall|e: int| 0 <= e < out@.len() implies is_owned_entry(infos@, ls@, #[trigger] out@[e]) by {
                if e < old_out.len() {
                    assert(out@[e] == old_out[e]);
                } else {
                    assert(owns_file(infos@, ls@, x as int));
                    assert(out@[e].0@ == assigned_path(infos@, ls@, x as int));
                }
            }
        }
        x = x + 1;
    }
    assert forall|y: int| 0 <= y < total implies lists_file(
        out@,
        #[trigger] assigned_path(infos@, ls@, y),
    ) by {
        lemma_owner_exists(infos@, ls@, y);
    }
    Ok(out)
}

/// Two `FieldValue` lines with the same guard, field and input file read one cache file.
pub proof fn lemma_field_lines_share_file(infos: Seq<SourceInfo>, ls: Seq<ResolvedLine>, a: int, b: int)
    requires
        0 <= a < ls.len(),
        0 <= b < ls.len(),
        ls[a].line.data_source is FieldValue,
        ls[b].line.data_source is FieldValue,
        same_group(ls[a], ls[b]),
    ensures
        assigned_path(infos, ls, a) == assigned_path(infos, ls, b),
{
    let da = ls[a].line.data_source;
    let db = ls[b].line.data_source;
    assert(da.field_check() == db.field_check());
    assert(da.regex_pattern_spec() == db.regex_pattern_spec());
    assert(core_name(da) == core_name(db));
    assert(csv_file_name(ls[a], None) == csv_file_name(ls[b], None));
    assert(csv_file_name(ls[a], infos[info_index(infos, ls[a].source.path_spec()@) as int].mtime_secs)
        == csv_file_name(ls[b], infos[info_index(infos, ls[b].source.path_spec()@) as int].mtime_secs));
}

/// An `EventCount` and an `EventDelta` line with the same guard, pattern and input file, in a
/// group with no `FieldValue` or `EventValue` line, read one cache file: the own file of the
/// group's first line, whose kind is itself a count or a delta.
pub proof fn lemma_count_and_delta_share_file(infos: Seq<SourceInfo>, ls: Seq<ResolvedLine>, a: int, b: int)
    requires
        0 <= a < ls.len(),
        0 <= b < ls.len(),
        ls[a].line.data_source is EventCount,
        ls[b].line.data_source is EventDelta,
        same_group(ls[a], ls[b]),
        forall|k: int|
            0 <= k < ls.len() && same_group(#[trigger] ls[k], ls[a]) ==> ls[k].line.data_source.is_shareable(),
    ensures
        assigned_path(infos, ls, a) == assigned_path(infos, ls, b),
        ({
            let c = first_candidate(ls, ls[a], None) as int;
            &&& 0 <= c < ls.len()
            &&& same_group(ls[c], ls[a])
            &&& assigned_path(infos, ls, a) == own_csv_path(infos, ls[c])
            &&& ls[c].line.data_source.is_shareable()
        }),
{
    let x = ls[a];
    lemma_first_candidate_bound(ls, x, Some(SourceKind::FieldValue));
    lemma_first_candidate_bound(ls, x, Some(SourceKind::EventValue));
    lemma_canonical_in_group(ls, a);
    lemma_same_group_first_candidate(ls, ls[b], x, Some(SourceKind::FieldValue));
    lemma_same_group_first_candidate(ls, ls[b], x, Some(SourceKind::EventValue));
    lemma_same_group_first_candidate(ls, ls[b], x, None);
    let f = first_candidate(ls, x, Some(SourceKind::FieldValue));
    let e = first_candidate(ls, x, Some(SourceKind::EventValue));
    if f < ls.len() {
        assert(same_group(ls[f as int], x));
    }
    if e < ls.len() {
        assert(same_group(ls[e as int], x));
    }
}

} // verus!
