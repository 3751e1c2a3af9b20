use vstd::prelude::*;

use crate::errors::SyncError;
use crate::text::{trim, trim_spec};

verus! {

/// An absolute directory path, as the list of its components from the
/// filesystem root down.  The root itself is the empty list.
#[derive(Debug, Clone, PartialEq, Eq)]
pub struct DirPath {
    pub components: Vec<String>,
}

impl View for DirPath {
    type V = Seq<Seq<char>>;

    open spec fn view(&self) -> Seq<Seq<char>> {
        self.components.deep_view()
    }
}

/// One path-join step: separate with `/` unless the base is empty or already
/// ends with a separator.
pub open spec fn join_one(base: Seq<char>, comp: Seq<char>) -> Seq<char> {
    if base.len() == 0 {
        comp
    } else if base.last() == '/' {
        base + comp
    } else {
        base + seq!['/'] + comp
    }
}

/// Joins each component of `cs` onto `base` in turn.
pub open spec fn join_components(base: Seq<char>, cs: Seq<Seq<char>>) -> Seq<char>
    decreases cs.len(),
{
    if cs.len() == 0 {
        base
    } else {
        join_components(join_one(base, cs.first()), cs.drop_first())
    }
}

/// The string form of an absolute directory path.
pub open spec fn path_string_of(cs: Seq<Seq<char>>) -> Seq<char> {
    join_components(seq!['/'], cs)
}

pub proof fn lemma_join_components_push(base: Seq<char>, cs: Seq<Seq<char>>, x: Seq<char>)
    ensures
        join_components(base, cs.push(x)) == join_one(join_components(base, cs), x),
    decreases cs.len(),
{
    if cs.len() == 0 {
        reveal_with_fuel(join_components, 2);
        assert(cs.push(x).first() == x);
        assert(cs.push(x).drop_first() =~= Seq::<Seq<char>>::empty());
    } else {
        assert(cs.push(x).first() == cs.first());
        assert(cs.push(x).drop_first() =~= cs.drop_first().push(x));
        lemma_join_components_push(join_one(base, cs.first()), cs.drop_first(), x);
    }
}

/// Appends one component to a rendered path string.
pub fn join_push(base: String, comp: &str) -> (r: String)
    ensures
        r@ == join_one(base@, comp@),
{
    let n = base.as_str().unicode_len();
    if n == 0 {
        comp.to_owned()
    } else if base.as_str().get_char(n - 1) == '/' {
        base.concat(comp)
    } else {
        proof {
            reveal_strlit("/");
        }
        let r = base.concat("/").concat(comp);
        proof {
            assert(r@ =~= base@ + seq!['/'] + comp@);
        }
        r
    }
}

/// Renders the ancestor of `d` made of its first `m` components.
pub fn render_prefix(d: &DirPath, m: usize) -> (r: String)
    requires
        m <= d@.len(),
    ensures
        r@ == path_string_of(d@.take(m as int)),
{
    proof {
        reveal_strlit("/");
    }
    let mut r = String::from_str("/");
    proof {
        assert(r@ =~= seq!['/']);
        assert(d@.take(0) =~= Seq::<Seq<char>>::empty());
    }
    let mut i: usize = 0;
    while i < m
        invariant
            i <= m <= d@.len(),
            d@.len() == d.components@.len(),
            r@ == path_string_of(d@.take(i as int)),
        decreases m - i,
    {
        proof {
            assert(d@[i as int] == d.components@[i as int]@);
        }
        r = join_push(r, d.components[i].as_str());
        proof {
            lemma_join_components_push(seq!['/'], d@.take(i as int), d@[i as int]);
            assert(d@.take(i + 1) =~= d@.take(i as int).push(d@[i as int]));
        }
        i = i + 1;
    }
    r
}

/// Where the marker file would sit at ancestor level `i` (level 0 is the
/// start directory itself).
pub open spec fn candidate_spec(cs: Seq<Seq<char>>, filename: Seq<char>, i: int) -> Seq<char> {
    join_one(path_string_of(cs.take(cs.len() - i)), filename)
}

/// The marker file's would-be location in the start directory and each of its
/// ancestors: nearest first, the filesystem root last.
pub fn marker_candidates(start_dir: &DirPath, filename: &str) -> (r: Vec<String>)
    ensures
        r@.len() == start_dir@.len() + 1,
        forall|i: int| 0 <= i < r@.len() ==> r@[i]@ == candidate_spec(start_dir@, filename@, i),
{
    let n = start_dir.components.len();
    let mut r: Vec<String> = Vec::new();
    let mut i: usize = 0;
    while i < n
        invariant
            n == start_dir@.len(),
            i <= n,
            r@.len() == i,
            forall|k: int| 0 <= k < i ==> r@[k]@ == candidate_spec(start_dir@, filename@, k),
        decreases n - i,
    {
        let p = render_prefix(start_dir, n - i);
        let c = join_push(p, filename);
        r.push(c);
        i = i + 1;
    }
    let root = render_prefix(start_dir, 0);
    let c = join_push(root, filename);
    r.push(c);
    r
}

/// Walks the ancestor chain nearest-first and reports the first level whose
/// marker file exists.  `exists[i]` answers whether the marker is present at
/// level `i` of the chain that `marker_candidates` lays out; the caller
/// queries the filesystem for those answers.
pub fn find_in_ancestors(start_dir: &DirPath, exists: &Vec<bool>) -> (r: Option<usize>)
    requires
        exists@.len() == start_dir@.len() + 1,
    ensures
        match r {
            Some(i) => i < exists@.len() && exists@[i as int] && forall|j: int|
                0 <= j < i ==> !exists@[j],
            None => forall|j: int| 0 <= j < exists@.len() ==> !exists@[j],
        },
{
    let n = exists.len();
    let mut i: usize = 0;
    while i < n
        invariant
            n == exists@.len(),
            i <= n,
            forall|j: int| 0 <= j < i ==> !exists@[j],
        decreases n - i,
    {
        if exists[i] {
            return Some(i);
        }
        i = i + 1;
    }
    None
}

/// The remote counterpart of a directory whose marker sits `level` ancestors
/// up and declares the trimmed contents `raw` as its own counterpart: the
/// declared base, extended by the path suffix from the marker's directory
/// down to the start directory.
pub open spec fn resolved_path(cs: Seq<Seq<char>>, level: int, raw: Seq<char>) -> Seq<char> {
    join_components(trim_spec(raw), cs.skip(cs.len() - level))
}

/// With the marker in the start directory itself, the suffix is empty and the
/// resolved path is the trimmed marker contents unchanged.
pub proof fn lemma_resolved_at_start(cs: Seq<Seq<char>>, raw: Seq<char>)
    ensures
        resolved_path(cs, 0, raw) == trim_spec(raw),
{
    assert(cs.skip(cs.len() - 0) =~= Seq::<Seq<char>>::empty());
}

/// Derives the remote counterpart of `start_dir` from the marker discovered
/// `marker_level` ancestors up (`None` when no ancestor holds one) and the
/// marker file's raw contents.  Absence of a marker is a reported error,
/// never a silent default.
pub fn find_corresponding_path(
    start_dir: &DirPath,
    filename: &str,
    marker_level: Option<usize>,
    raw_contents: &str,
) -> (r: Result<String, SyncError>)
    requires
        marker_level matches Some(l) ==> l <= start_dir@.len(),
    ensures
        match marker_level {
            Some(l) => r matches Ok(p) && p@ == resolved_path(
                start_dir@,
                l as int,
                raw_contents@,
            ),
            None => r matches Err(e) && (e matches SyncError::MarkerNotFound { filename: f }
                && f@ == filename@),
        },
{
    match marker_level {
        None => Err(SyncError::MarkerNotFound { filename: filename.to_owned() }),
        Some(l) => {
            let n = start_dir.components.len();
            proof {
                assert(n == start_dir@.len());
            }
            let mut r = trim(raw_contents);
            let start: usize = n - l;
            proof {
                assert(start_dir@.subrange(start as int, start as int) =~= Seq::<
                    Seq<char>,
                >::empty());
            }
            let mut i: usize = start;
            while i < n
                invariant
                    start <= i <= n,
                    n == start_dir@.len(),
                    n == start_dir.components@.len(),
                    r@ == join_components(
                        trim_spec(raw_contents@),
                        start_dir@.subrange(start as int, i as int),
                    ),
                decreases n - i,
            {
                proof {
                    assert(start_dir@[i as int] == start_dir.components@[i as int]@);
                }
                r = join_push(r, start_dir.components[i].as_str());
                proof {
                    lemma_join_components_push(
                        trim_spec(raw_contents@),
                        start_dir@.subrange(start as int, i as int),
                        start_dir@[i as int],
                    );
                    assert(start_dir@.subrange(start as int, i + 1) =~= start_dir@.subrange(
                        start as int,
                        i as int,
                    ).push(start_dir@[i as int]));
                }
                i = i + 1;
            }
            proof {
                assert(start_dir@.skip(n - l) =~= start_dir@.subrange(start as int, n as int));
            }
            Ok(r)
        },
    }
}

} // verus!
