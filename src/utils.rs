//! Paths as text: components, common ancestors, parents, extensions and cache directories.

use crate::cache_files::{dir_prefix_len, join, join_path};
use crate::text::{push_str, str_eq, substring};
use vstd::prelude::*;

verus! {

/// A component worth keeping: not empty and not `.`.
pub open spec fn kept(c: Seq<char>) -> Seq<Seq<char>> {
    if c.len() == 0 || c == "."@ {
        Seq::empty()
    } else {
        seq![c]
    }
}

/// Components of a path: `/` first when it is absolute, then its names; empty names and `.`
/// are left out.
pub open spec fn components(s: Seq<char>) -> Seq<Seq<char>>
    decreases s.len(),
{
    let d = dir_prefix_len(s) as int;
    if s.len() == 0 || d > s.len() {
        Seq::empty()
    } else if d == 0 {
        kept(s)
    } else if d == 1 {
        seq!["/"@] + kept(s.subrange(1, s.len() as int))
    } else {
        components(s.subrange(0, d - 1)) + kept(s.subrange(d, s.len() as int))
    }
}

/// Components of the parent of a path: all but the last, which must be a name.
pub open spec fn parent_components(s: Seq<char>) -> Seq<Seq<char>> {
    components(s).drop_last()
}

pub open spec fn has_parent(s: Seq<char>) -> bool {
    components(s).len() > 0 && components(s).last() != "/"@
}

pub proof fn lemma_dir_prefix_len_le(s: Seq<char>)
    ensures
        dir_prefix_len(s) <= s.len(),
{
    lemma_dir_prefix(s);
}

proof fn lemma_dir_prefix(s: Seq<char>)
    ensures
        dir_prefix_len(s) <= s.len(),
        dir_prefix_len(s) > 0 ==> s[dir_prefix_len(s) - 1] == '/',
        forall|k: int| dir_prefix_len(s) <= k < s.len() ==> s[k] != '/',
    decreases s.len(),
{
    if s.len() > 0 && s.last() != '/' {
        let t = s.drop_last();
        lemma_dir_prefix(t);
        assert forall|k: int| dir_prefix_len(s) <= k < s.len() implies s[k] != '/' by {
            if k < t.len() {
                assert(s[k] == t[k]);
            }
        }
    }
}

fn kept_exec(c: String, out: &mut Vec<String>)
    ensures
        final(out)@.map_values(|x: String| x@) == old(out)@.map_values(|x: String| x@) + kept(c@),
{
    proof {
        reveal_strlit(".");
    }
    let n = c.unicode_len();
    if n == 0 || str_eq(c.as_str(), ".") {
        assert(final(out)@.map_values(|x: String| x@) =~= old(out)@.map_values(|x: String| x@) + kept(c@));
    } else {
        let ghost c_view = c@;
        out.push(c);
        assert(final(out)@.map_values(|x: String| x@) =~= old(out)@.map_values(|x: String| x@) + kept(c_view));
    }
}

/// The components of `s`, appended to `out`.
fn push_components(s: &str, out: &mut Vec<String>)
    ensures
        final(out)@.map_values(|x: String| x@) == old(out)@.map_values(|x: String| x@) + components(s@),
    decreases s@.len(),
{
    proof {
        lemma_dir_prefix(s@);
    }
    let n = s.unicode_len();
    let d = crate::cache_files::dir_prefix_len_of(s);
    if n == 0 {
        assert(components(s@) =~= Seq::<Seq<char>>::empty());
        assert(final(out)@.map_values(|x: String| x@) =~= old(out)@.map_values(|x: String| x@) + components(s@));
    } else if d == 0 {
        kept_exec(String::from_str(s), out);
    } else if d == 1 {
        let ghost before = out@.map_values(|x: String| x@);
        out.push(String::from_str("/"));
        proof {
            reveal_strlit("/");
        }
        assert(out@.map_values(|x: String| x@) =~= before + seq!["/"@]);
        kept_exec(substring(s, 1, n), out);
        assert(final(out)@.map_values(|x: String| x@) =~= before + components(s@));
    } else {
        let ghost before = out@.map_values(|x: String| x@);
        let head = substring(s, 0, d - 1);
        push_components(head.as_str(), out);
        kept_exec(substring(s, d, n), out);
        assert(final(out)@.map_values(|x: String| x@) =~= before + components(s@));
    }
}

/// Length of the longest common prefix of two component lists.
pub open spec fn common_len(a: Seq<Seq<char>>, b: Seq<Seq<char>>) -> nat
    decreases a.len(),
{
    if a.len() == 0 || b.len() == 0 || a[0] != b[0] {
        0
    } else {
        1 + common_len(a.drop_first(), b.drop_first())
    }
}

proof fn lemma_common_len(a: Seq<Seq<char>>, b: Seq<Seq<char>>, i: int)
    requires
        0 <= i <= a.len(),
        i <= b.len(),
        forall|k: int| 0 <= k < i ==> a[k] == b[k],
    ensures
        common_len(a, b) >= i,
        common_len(a, b) <= a.len(),
        common_len(a, b) <= b.len(),
        (i == a.len() || i == b.len() || a[i] != b[i]) ==> common_len(a, b) == i,
    decreases i,
{
    if i == 0 {
        lemma_common_len_bound(a, b);
    } else {
        lemma_common_len(a.drop_first(), b.drop_first(), i - 1);
    }
}

proof fn lemma_common_len_bound(a: Seq<Seq<char>>, b: Seq<Seq<char>>)
    ensures
        common_len(a, b) <= a.len(),
        common_len(a, b) <= b.len(),
    decreases a.len(),
{
    if !(a.len() == 0 || b.len() == 0 || a[0] != b[0]) {
        lemma_common_len_bound(a.drop_first(), b.drop_first());
    }
}

/// The components shared by the parents of `ps[0..n]`; `None` once nothing is shared.
pub open spec fn common_parent(ps: Seq<Seq<char>>, n: nat) -> Option<Seq<Seq<char>>>
    decreases n,
{
    if n == 0 {
        None
    } else if n == 1 {
        Some(parent_components(ps[0]))
    } else {
        match common_parent(ps, (n - 1) as nat) {
            None => None,
            Some(acc) => {
                let c = acc.subrange(0, common_len(acc, parent_components(ps[n - 1])) as int);
                if c.len() == 0 {
                    None
                } else {
                    Some(c)
                }
            },
        }
    }
}

proof fn lemma_common_parent_none(ps: Seq<Seq<char>>, m: nat, n: nat)
    requires
        1 <= m <= n,
        common_parent(ps, m) is None,
    ensures
        common_parent(ps, n) is None,
    decreases n - m,
{
    if m < n {
        lemma_common_parent_none(ps, m + 1, n);
    }
}

/// Text of a component list, as `PathBuf::push` builds it.
pub open spec fn render(cs: Seq<Seq<char>>) -> Seq<char>
    decreases cs.len(),
{
    if cs.len() == 0 {
        Seq::empty()
    } else {
        join_path(render(cs.drop_last()), cs.last())
    }
}

fn render_exec(cs: &Vec<String>) -> (r: String)
    ensures
        r@ == render(cs@.map_values(|x: String| x@)),
{
    let mut r = String::new();
    let mut i: usize = 0;
    let ghost v = cs@.map_values(|x: String| x@);
    assert(v.subrange(0, 0) =~= Seq::<Seq<char>>::empty());
    while i < cs.len()
        invariant
            v == cs@.map_values(|x: String| x@),
            i <= cs@.len(),
            r@ == render(v.subrange(0, i as int)),
        decreases cs@.len() - i,
    {
        assert(v.subrange(0, i + 1).drop_last() =~= v.subrange(0, i as int));
        r = join(r.as_str(), cs[i].as_str());
        i = i + 1;
    }
    assert(v.subrange(0, i as int) =~= v);
    r
}

/// The deepest directory containing all of `paths` (whose parents are taken as they are
/// written: canonical paths are expected); `None` for no paths or when they share nothing.
pub fn common_path_ancestor_inner(paths: &Vec<String>) -> (r: Option<String>)
    requires
        forall|i: int| 0 <= i < paths@.len() ==> has_parent(#[trigger] paths@[i]@),
    ensures
        r matches Some(a) ==> common_parent(paths@.map_values(|x: String| x@), paths@.len()) matches Some(c) && a@ == render(c),
        r is None ==> common_parent(paths@.map_values(|x: String| x@), paths@.len()) is None,
{
    let ghost ps = paths@.map_values(|x: String| x@);
    let n = paths.len();
    if n == 0 {
        return None;
    }
    let mut acc: Vec<String> = Vec::new();
    push_components(paths[0].as_str(), &mut acc);
    assert(acc@.map_values(|x: String| x@) =~= components(ps[0]));
    acc.pop();
    assert(acc@.map_values(|x: String| x@) =~= parent_components(ps[0]));
    let mut i: usize = 1;
    while i < n
        invariant
            n == paths@.len(),
            ps == paths@.map_values(|x: String| x@),
            1 <= i <= n,
            forall|j: int| 0 <= j < paths@.len() ==> has_parent(#[trigger] paths@[j]@),
            common_parent(ps, i as nat) == Some(acc@.map_values(|x: String| x@)),
        decreases n - i,
    {
        let mut other: Vec<String> = Vec::new();
        push_components(paths[i].as_str(), &mut other);
        assert(other@.map_values(|x: String| x@) =~= components(ps[i as int]));
        assert(ps[i as int] == paths@[i as int]@);
        assert(has_parent(ps[i as int]));
        let ghost before_pop = other@;
        other.pop();
        assert(other@ == before_pop.drop_last());
        let ghost a = acc@.map_values(|x: String| x@);
        let ghost b = other@.map_values(|x: String| x@);
        assert(b =~= parent_components(ps[i as int]));
        let mut k: usize = 0;
        while k < acc.len() && k < other.len() && str_eq(acc[k].as_str(), other[k].as_str())
            invariant
                a == acc@.map_values(|x: String| x@),
                b == other@.map_values(|x: String| x@),
                k <= acc@.len(),
                k <= other@.len(),
                forall|j: int| 0 <= j < k ==> a[j] == b[j],
            decreases acc@.len() - k,
        {
            k = k + 1;
        }
        proof {
            lemma_common_len(a, b, k as int);
        }
        if k == 0 {
            proof {
                lemma_common_parent_none(ps, (i + 1) as nat, n as nat);
            }
            return None;
        }
        acc.truncate(k);
        assert(acc@.map_values(|x: String| x@) =~= a.subrange(0, k as int));
        i = i + 1;
    }
    Some(render_exec(&acc))
}

/// The parent directory of `path`: `/` for a name directly under the root, empty for a bare name.
pub open spec fn parent_text(path: Seq<char>) -> Seq<char> {
    let d = dir_prefix_len(path) as int;
    if d == 0 {
        Seq::empty()
    } else if d == 1 {
        path.subrange(0, 1)
    } else {
        path.subrange(0, d - 1)
    }
}

fn parent_of(path: &str) -> (r: String)
    ensures
        r@ == parent_text(path@),
{
    proof {
        lemma_dir_prefix(path@);
    }
    let d = crate::cache_files::dir_prefix_len_of(path);
    if d == 0 {
        String::new()
    } else if d == 1 {
        substring(path, 0, 1)
    } else {
        substring(path, 0, d - 1)
    }
}

/// The cache directory of an input file, from its canonical absolute path: under a cache root
/// the file's path is mirrored (without its leading `/`) and its directory is taken; without
/// one, a hidden `.plox` directory next to the file.
pub open spec fn cache_dir_spec(root: Option<Seq<char>>, log: Seq<char>) -> Seq<char> {
    match root {
        Some(r) => {
            let rel = if log.len() > 0 && log[0] == '/' {
                log.drop_first()
            } else {
                log
            };
            parent_text(join_path(r, rel))
        },
        None => join_path(parent_text(log), ".plox"@),
    }
}

pub fn get_cache_dir_inner(cache_root: &Option<String>, log_file_path: &str) -> (r: String)
    ensures
        r@ == cache_dir_spec(
            match cache_root {
                Some(s) => Some(s@),
                None => None,
            },
            log_file_path@,
        ),
{
    match cache_root {
        Some(root) => {
            let n = log_file_path.unicode_len();
            let rel = if n > 0 && log_file_path.get_char(0) == '/' {
                substring(log_file_path, 1, n)
            } else {
                String::from_str(log_file_path)
            };
            assert(n > 0 && log_file_path@[0] == '/' ==> rel@ =~= log_file_path@.drop_first());
            let joined = join(root.as_str(), rel.as_str());
            parent_of(joined.as_str())
        },
        None => {
            let dir = parent_of(log_file_path);
            join(dir.as_str(), ".plox")
        },
    }
}

/// A name is a standalone file name when it is one relative component (`.` components do not
/// count).
pub open spec fn is_standalone_filename(s: Seq<char>) -> bool {
    components(s).len() == 1 && components(s)[0] != "/"@
}

/// Accepts a file name without directories; anything else is refused with a message.
pub fn validate_standalone_filename(s: &str) -> (r: Result<String, String>)
    ensures
        r is Ok == is_standalone_filename(s@),
        r matches Ok(p) ==> p@ == s@,
{
    let mut cs: Vec<String> = Vec::new();
    push_components(s, &mut cs);
    assert(cs@.map_values(|x: String| x@) =~= components(s@));
    proof {
        reveal_strlit("/");
    }
    if cs.len() == 1 && !str_eq(cs[0].as_str(), "/") {
        assert(cs@.map_values(|x: String| x@)[0] == cs@[0]@);
        Ok(String::from_str(s))
    } else {
        if cs.len() == 1 {
            assert(cs@.map_values(|x: String| x@)[0] == cs@[0]@);
        }
        let mut msg = String::from_str("Name '");
        push_str(&mut msg, s);
        push_str(&mut msg, "' must be a filename only, without any directories");
        Err(msg)
    }
}

} // verus!
