//! Locating the foreign module's build entry point.
//!
//! The repository is modeled as a tree of named directories, each knowing
//! whether it holds the build entry-point file. The locator first checks a
//! short list of conventional locations, then falls back to a depth-bounded
//! recursive search that skips version-control, vendored-dependency,
//! package-cache and build-artifact directories and returns the first hit in
//! entry order, so the same tree always yields the same answer.

use vstd::prelude::*;

verus! {

/// The depth bound of the fallback search.
pub const DEFAULT_MAX_DEPTH: usize = 3;

/// A directory of the modeled source tree: its name, whether it holds the
/// entry-point file, and its subdirectories in entry order.
pub struct DirTree {
    pub name: String,
    pub has_marker: bool,
    pub subdirs: Vec<DirTree>,
}

/// Directory names the search never descends into: version control, vendored
/// dependencies, package-manager caches and build artifacts.
pub open spec fn skipped_name(name: Seq<char>) -> bool {
    ||| name == ".git"@
    ||| name == "vendor"@
    ||| name == "node_modules"@
    ||| name == "target"@
}

/// The bounded search from one directory: the directory itself when it holds
/// the marker, else the first hit among its subdirectories in order. Beyond
/// the depth bound nothing is found. A hit is the path of directory names
/// below the starting directory.
pub open spec fn find_in(t: DirTree, depth: int, max: int) -> Option<Seq<Seq<char>>>
    decreases max - depth, t.subdirs@.len() + 1,
{
    if depth > max {
        None
    } else if t.has_marker {
        Some(Seq::<Seq<char>>::empty())
    } else {
        find_in_list(t.subdirs@, 0, depth, max)
    }
}

/// The bounded search over the subdirectories from position `i` on, in
/// order.
pub open spec fn find_in_list(subs: Seq<DirTree>, i: int, depth: int, max: int) -> Option<
    Seq<Seq<char>>,
>
    recommends
        0 <= i <= subs.len(),
        depth <= max,
    decreases max - depth, subs.len() - i,
{
    if i < 0 || i >= subs.len() || depth > max {
        None
    } else {
        let sub = subs[i];
        let hit = if skipped_name(sub.name@) || depth + 1 > max {
            None
        } else {
            find_in(sub, depth + 1, max)
        };
        match hit {
            Some(p) => Some(seq![sub.name@] + p),
            None => find_in_list(subs, i + 1, depth, max),
        }
    }
}

/// The first subdirectory bearing a name, in entry order.
pub open spec fn child(subs: Seq<DirTree>, name: Seq<char>) -> Option<DirTree>
    decreases subs.len(),
{
    if subs.len() == 0 {
        None
    } else if subs[0].name@ == name {
        Some(subs[0])
    } else {
        child(subs.skip(1), name)
    }
}

/// Whether the conventional location `a` holds the marker.
pub open spec fn marker_at_child(t: DirTree, a: Seq<char>) -> bool {
    match child(t.subdirs@, a) {
        Some(c) => c.has_marker,
        None => false,
    }
}

/// Whether the conventional location `a`/`b` holds the marker.
pub open spec fn marker_at_grandchild(t: DirTree, a: Seq<char>, b: Seq<char>) -> bool {
    match child(t.subdirs@, a) {
        Some(c) => marker_at_child(c, b),
        None => false,
    }
}

/// Where the entry point is: the conventional locations in their fixed order
/// first — the root itself, then cmd/prover, prover and cmd — and then the
/// bounded recursive search.
pub open spec fn locate_spec(root: DirTree, max: int) -> Option<Seq<Seq<char>>> {
    if root.has_marker {
        Some(Seq::<Seq<char>>::empty())
    } else if marker_at_grandchild(root, "cmd"@, "prover"@) {
        Some(seq!["cmd"@, "prover"@])
    } else if marker_at_child(root, "prover"@) {
        Some(seq!["prover"@])
    } else if marker_at_child(root, "cmd"@) {
        Some(seq!["cmd"@])
    } else {
        find_in(root, 0, max)
    }
}

/// Reports whether two strings hold the same characters.
pub fn str_eq(a: &str, b: &str) -> (r: bool)
    ensures
        r == (a@ == b@),
{
    let la = a.unicode_len();
    let lb = b.unicode_len();
    if la != lb {
        return false;
    }
    for i in 0..la
        invariant
            la == a@.len(),
            la == b@.len(),
            forall|j: int| 0 <= j < i ==> a@[j] == b@[j],
    {
        if a.get_char(i) != b.get_char(i) {
            return false;
        }
    }
    proof {
        assert(a@ =~= b@);
    }
    true
}

/// Reports whether the search skips this directory name.
fn is_skipped_name(name: &str) -> (r: bool)
    ensures
        r == skipped_name(name@),
{
    str_eq(name, ".git") || str_eq(name, "vendor") || str_eq(name, "node_modules") || str_eq(
        name,
        "target",
    )
}

/// The position of the first subdirectory bearing a name, in entry order.
fn child_find(subs: &Vec<DirTree>, i: usize, name: &str) -> (r: Option<usize>)
    requires
        i <= subs@.len(),
    ensures
        r matches Some(j) ==> i <= j < subs@.len() && child(subs@.skip(i as int), name@) == Some(
            subs@[j as int],
        ),
        r is None ==> child(subs@.skip(i as int), name@) is None,
    decreases subs@.len() - i,
{
    if i >= subs.len() {
        return None;
    }
    proof {
        assert(subs@.skip(i as int)[0] == subs@[i as int]);
        assert(subs@.skip(i as int).skip(1) =~= subs@.skip(i + 1));
    }
    if str_eq(subs[i].name.as_str(), name) {
        Some(i)
    } else {
        child_find(subs, i + 1, name)
    }
}

/// The bounded search from one directory, as executable code.
pub fn search_from(t: &DirTree, depth: usize, max: usize) -> (r: Option<Vec<String>>)
    ensures
        r matches Some(path) ==> find_in(*t, depth as int, max as int) == Some(
            path@.map_values(|s: String| s@),
        ),
        r is None ==> find_in(*t, depth as int, max as int) is None,
    decreases max - depth, t.subdirs@.len() + 1,
{
    if depth > max {
        return None;
    }
    if t.has_marker {
        let path: Vec<String> = Vec::new();
        proof {
            assert(path@.map_values(|s: String| s@) =~= Seq::<Seq<char>>::empty());
        }
        return Some(path);
    }
    search_list(&t.subdirs, 0, depth, max)
}

/// The bounded search over the subdirectories from position `i` on, as
/// executable code.
fn search_list(subs: &Vec<DirTree>, i: usize, depth: usize, max: usize) -> (r: Option<Vec<String>>)
    requires
        i <= subs@.len(),
        depth <= max,
    ensures
        r matches Some(path) ==> find_in_list(subs@, i as int, depth as int, max as int) == Some(
            path@.map_values(|s: String| s@),
        ),
        r is None ==> find_in_list(subs@, i as int, depth as int, max as int) is None,
    decreases max - depth, subs@.len() - i,
{
    if i >= subs.len() {
        return None;
    }
    let sub = &subs[i];
    let hit: Option<Vec<String>> = if is_skipped_name(sub.name.as_str()) || depth >= max {
        None
    } else {
        search_from(sub, depth + 1, max)
    };
    match hit {
        Some(mut path) => {
            path.insert(0, sub.name.clone());
            proof {
                let f = |s: String| s@;
                assert(path@.map_values(f) =~= seq![sub.name@] + path@.skip(1).map_values(f));
            }
            Some(path)
        },
        None => search_list(subs, i + 1, depth, max),
    }
}

/// A found child bears the name it was sought under.
proof fn lemma_child_name(subs: Seq<DirTree>, name: Seq<char>)
    ensures
        child(subs, name) matches Some(c) ==> c.name@ == name,
    decreases subs.len(),
{
    if subs.len() > 0 && subs[0].name@ != name {
        lemma_child_name(subs.skip(1), name);
    }
}

/// Locates the build entry point in a modeled source tree: the conventional
/// locations in their fixed order first, then the bounded recursive search
/// with the given depth bound. The result is the path of directory names from
/// the root to the entry-point directory, or nothing when no reachable
/// directory holds the marker.
pub fn locate_entry_point(root: &DirTree, max: usize) -> (r: Option<Vec<String>>)
    ensures
        r matches Some(path) ==> locate_spec(*root, max as int) == Some(
            path@.map_values(|s: String| s@),
        ),
        r is None ==> locate_spec(*root, max as int) is None,
{
    if root.has_marker {
        let path: Vec<String> = Vec::new();
        proof {
            assert(path@.map_values(|s: String| s@) =~= Seq::<Seq<char>>::empty());
        }
        return Some(path);
    }
    proof {
        assert(root.subdirs@.skip(0) =~= root.subdirs@);
    }
    if let Some(ci) = child_find(&root.subdirs, 0, "cmd") {
        let c = &root.subdirs[ci];
        proof {
            assert(c.subdirs@.skip(0) =~= c.subdirs@);
            lemma_child_name(root.subdirs@, "cmd"@);
        }
        if let Some(pi) = child_find(&c.subdirs, 0, "prover") {
            proof {
                lemma_child_name(c.subdirs@, "prover"@);
            }
            if c.subdirs[pi].has_marker {
                let mut path: Vec<String> = Vec::new();
                path.push(c.name.clone());
                path.push(c.subdirs[pi].name.clone());
                proof {
                    assert(path@.map_values(|s: String| s@) =~= seq!["cmd"@, "prover"@]);
                }
                return Some(path);
            }
        }
    }
    if let Some(pi) = child_find(&root.subdirs, 0, "prover") {
        proof {
            lemma_child_name(root.subdirs@, "prover"@);
        }
        if root.subdirs[pi].has_marker {
            let mut path: Vec<String> = Vec::new();
            path.push(root.subdirs[pi].name.clone());
            proof {
                assert(path@.map_values(|s: String| s@) =~= seq!["prover"@]);
            }
            return Some(path);
        }
    }
    if let Some(ci) = child_find(&root.subdirs, 0, "cmd") {
        proof {
            lemma_child_name(root.subdirs@, "cmd"@);
        }
        if root.subdirs[ci].has_marker {
            let mut path: Vec<String> = Vec::new();
            path.push(root.subdirs[ci].name.clone());
            proof {
                assert(path@.map_values(|s: String| s@) =~= seq!["cmd"@]);
            }
            return Some(path);
        }
    }
    search_from(root, 0, max)
}

/// The search never yields a path through a skipped directory: every
/// component of a hit below `t` bears an ordinary name.
pub proof fn lemma_find_in_no_skipped(t: DirTree, depth: int, max: int)
    ensures
        find_in(t, depth, max) matches Some(p) ==> forall|k: int|
            0 <= k < p.len() ==> !skipped_name(#[trigger] p[k]),
    decreases max - depth, t.subdirs@.len() + 1,
{
    if depth > max {
    } else if t.has_marker {
    } else {
        lemma_find_in_list_no_skipped(t.subdirs@, 0, depth, max);
    }
}

/// The list form of the same statement.
pub proof fn lemma_find_in_list_no_skipped(subs: Seq<DirTree>, i: int, depth: int, max: int)
    ensures
        find_in_list(subs, i, depth, max) matches Some(p) ==> forall|k: int|
            0 <= k < p.len() ==> !skipped_name(#[trigger] p[k]),
    decreases max - depth, subs.len() - i,
{
    if i < 0 || i >= subs.len() || depth > max {
    } else {
        let sub = subs[i];
        if !(skipped_name(sub.name@) || depth + 1 > max) {
            lemma_find_in_no_skipped(sub, depth + 1, max);
        }
        lemma_find_in_list_no_skipped(subs, i + 1, depth, max);
    }
}

/// Two trees agree outside skipped directories: same names, same markers and
/// same layout everywhere, except that below a skipped directory name the
/// trees may differ arbitrarily — markers planted there included.
pub open spec fn agrees_outside_skipped(a: DirTree, b: DirTree) -> bool
    decreases a,
{
    &&& a.name@ == b.name@
    &&& a.has_marker == b.has_marker
    &&& a.subdirs@.len() == b.subdirs@.len()
    &&& forall|i: int|
        0 <= i < a.subdirs@.len() ==> (#[trigger] a.subdirs@[i]).name@ == b.subdirs@[i].name@
    &&& forall|i: int|
        0 <= i < a.subdirs@.len() && !skipped_name(a.subdirs@[i].name@)
            ==> agrees_outside_skipped(#[trigger] a.subdirs@[i], b.subdirs@[i])
}

/// What is planted below a skipped directory never matters: two trees that
/// agree outside skipped directories are searched to the same result.
pub proof fn lemma_planted_markers_ignored(a: DirTree, b: DirTree, depth: int, max: int)
    requires
        agrees_outside_skipped(a, b),
    ensures
        find_in(a, depth, max) == find_in(b, depth, max),
    decreases max - depth, a.subdirs@.len() + 1,
{
    if depth > max {
    } else if a.has_marker {
    } else {
        lemma_planted_markers_ignored_list(a.subdirs@, b.subdirs@, 0, depth, max);
    }
}

/// The list form of the same statement.
proof fn lemma_planted_markers_ignored_list(
    asubs: Seq<DirTree>,
    bsubs: Seq<DirTree>,
    i: int,
    depth: int,
    max: int,
)
    requires
        asubs.len() == bsubs.len(),
        forall|k: int| 0 <= k < asubs.len() ==> (#[trigger] asubs[k]).name@ == bsubs[k].name@,
        forall|k: int|
            0 <= k < asubs.len() && !skipped_name(asubs[k].name@) ==> agrees_outside_skipped(
                #[trigger] asubs[k],
                bsubs[k],
            ),
    ensures
        find_in_list(asubs, i, depth, max) == find_in_list(bsubs, i, depth, max),
    decreases max - depth, asubs.len() - i,
{
    if i < 0 || i >= asubs.len() || depth > max {
    } else {
        if !(skipped_name(asubs[i].name@) || depth + 1 > max) {
            lemma_planted_markers_ignored(asubs[i], bsubs[i], depth + 1, max);
        }
        lemma_planted_markers_ignored_list(asubs, bsubs, i + 1, depth, max);
    }
}

/// Name-keyed lookup respects the agreement: for a name the search does not
/// skip, both trees yield a child at the same place, and those children agree
/// in turn — or neither tree has one.
proof fn lemma_child_agrees(asubs: Seq<DirTree>, bsubs: Seq<DirTree>, name: Seq<char>)
    requires
        asubs.len() == bsubs.len(),
        forall|k: int| 0 <= k < asubs.len() ==> (#[trigger] asubs[k]).name@ == bsubs[k].name@,
        forall|k: int|
            0 <= k < asubs.len() && !skipped_name(asubs[k].name@) ==> agrees_outside_skipped(
                #[trigger] asubs[k],
                bsubs[k],
            ),
        !skipped_name(name),
    ensures
        child(asubs, name) is Some <==> child(bsubs, name) is Some,
        child(asubs, name) matches Some(ca) ==> child(bsubs, name) matches Some(cb)
            && agrees_outside_skipped(ca, cb),
    decreases asubs.len(),
{
    if asubs.len() > 0 {
        assert(asubs[0].name@ == bsubs[0].name@);
        if asubs[0].name@ != name {
            assert(asubs.skip(1).len() == bsubs.skip(1).len());
            assert forall|k: int| 0 <= k < asubs.skip(1).len() implies (#[trigger] asubs.skip(1)[k]).name@
                == bsubs.skip(1)[k].name@ by {
                assert(asubs.skip(1)[k] == asubs[k + 1]);
                assert(bsubs.skip(1)[k] == bsubs[k + 1]);
            }
            assert forall|k: int|
                0 <= k < asubs.skip(1).len() && !skipped_name(asubs.skip(1)[k].name@)
                implies agrees_outside_skipped(#[trigger] asubs.skip(1)[k], bsubs.skip(1)[k]) by {
                assert(asubs.skip(1)[k] == asubs[k + 1]);
                assert(bsubs.skip(1)[k] == bsubs[k + 1]);
            }
            lemma_child_agrees(asubs.skip(1), bsubs.skip(1), name);
        }
    }
}

/// None of the conventional location names is a skipped name.
proof fn lemma_conventional_names_not_skipped()
    ensures
        !skipped_name("cmd"@),
        !skipped_name("prover"@),
{
    reveal_strlit("cmd");
    reveal_strlit("prover");
    reveal_strlit(".git");
    reveal_strlit("vendor");
    reveal_strlit("node_modules");
    reveal_strlit("target");
    assert("cmd"@.len() == 3);
    assert(".git"@.len() == 4);
    assert("vendor"@.len() == 6);
    assert("node_modules"@.len() == 12);
    assert("target"@.len() == 6);
    assert("prover"@.len() == 6);
    assert("prover"@[0] == 'p' && "vendor"@[0] == 'v' && "target"@[0] == 't');
}

/// The whole locator ignores what is planted below skipped directories: two
/// trees that agree outside them locate the entry point to the same result,
/// through the conventional locations and the bounded search alike.
pub proof fn lemma_locate_ignores_planted(a: DirTree, b: DirTree, max: int)
    requires
        agrees_outside_skipped(a, b),
    ensures
        locate_spec(a, max) == locate_spec(b, max),
{
    lemma_conventional_names_not_skipped();
    lemma_child_agrees(a.subdirs@, b.subdirs@, "cmd"@);
    match (child(a.subdirs@, "cmd"@), child(b.subdirs@, "cmd"@)) {
        (Some(ca), Some(cb)) => {
            lemma_child_agrees(ca.subdirs@, cb.subdirs@, "prover"@);
        },
        _ => {},
    }
    lemma_child_agrees(a.subdirs@, b.subdirs@, "prover"@);
    lemma_planted_markers_ignored(a, b, 0, max);
}

} // verus!
