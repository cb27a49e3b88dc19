use vstd::prelude::*;

use crate::config::ConfigCanistersCanister;
use crate::error::DfxConfigError;

verus! {

/// The dependency graph of a project: each canister's name paired with the
/// names it depends on, in declaration order.
pub type DepGraph = Seq<(Seq<char>, Seq<Seq<char>>)>;

pub open spec fn names_view(v: Seq<String>) -> Seq<Seq<char>> {
    v.map_values(|s: String| s@)
}

/// The dependency graph that a list of canister declarations describes.
pub open spec fn dependency_graph(cs: Seq<(String, ConfigCanistersCanister)>) -> DepGraph {
    cs.map_values(
        |e: (String, ConfigCanistersCanister)| (e.0@, names_view(e.1.dependencies@)),
    )
}

/// The names of all canisters of the graph, in declaration order.
pub open spec fn canister_names(g: DepGraph) -> Seq<Seq<char>> {
    g.map_values(|e: (Seq<char>, Seq<Seq<char>>)| e.0)
}

pub open spec fn names_unique(g: DepGraph) -> bool {
    forall|i: int, j: int| 0 <= i < j < g.len() ==> #[trigger] g[i].0 != #[trigger] g[j].0
}

pub open spec fn is_canister(g: DepGraph, n: Seq<char>) -> bool {
    exists|i: int| 0 <= i < g.len() && #[trigger] g[i].0 == n
}

/// `a` is declared and lists `b` among its dependencies.
pub open spec fn depends_on(g: DepGraph, a: Seq<char>, b: Seq<char>) -> bool {
    exists|i: int| 0 <= i < g.len() && g[i].0 == a && #[trigger] g[i].1.contains(b)
}

/// A non-empty sequence of names, each depending on the next.
pub open spec fn is_walk(g: DepGraph, w: Seq<Seq<char>>) -> bool {
    &&& w.len() >= 1
    &&& forall|k: int| 0 <= k < w.len() - 1 ==> depends_on(g, #[trigger] w[k], w[k + 1])
}

/// `n` is one of the roots or a transitive dependency of one.
pub open spec fn reachable_from(g: DepGraph, roots: Seq<Seq<char>>, n: Seq<char>) -> bool {
    exists|w: Seq<Seq<char>>| #[trigger] is_walk(g, w) && roots.contains(w[0]) && w.last() == n
}

/// Every dependency of a canister reachable from the roots is declared.
pub open spec fn closed_from(g: DepGraph, roots: Seq<Seq<char>>) -> bool {
    forall|a: Seq<char>, b: Seq<char>|
        reachable_from(g, roots, a) && #[trigger] depends_on(g, a, b) ==> is_canister(g, b)
}

/// The names a resolution starts from: the requested canister, or every
/// declared canister when none is requested.
pub open spec fn resolution_roots(g: DepGraph, focus: Option<Seq<char>>) -> Seq<Seq<char>> {
    match focus {
        Some(f) => seq![f],
        None => canister_names(g),
    }
}

/// `order` lists, without repetition, exactly the canisters reachable from
/// the roots, each after every canister it depends on.
pub open spec fn is_build_order(g: DepGraph, roots: Seq<Seq<char>>, order: Seq<Seq<char>>) -> bool {
    &&& order.no_duplicates()
    &&& forall|k: int|
        0 <= k < order.len() ==> is_canister(g, #[trigger] order[k]) && reachable_from(
            g,
            roots,
            order[k],
        )
    &&& forall|r: Seq<char>| #[trigger] roots.contains(r) ==> order.contains(r)
    &&& forall|i: int, b: Seq<char>|
        0 <= i < order.len() && #[trigger] depends_on(g, order[i], b) ==> exists|j: int|
            0 <= j < i && #[trigger] order[j] == b
}

/// `path` is a cycle that the roots lead to: it follows dependencies and
/// ends on the name it starts with, passing no other name twice.
pub open spec fn is_cycle_witness(g: DepGraph, roots: Seq<Seq<char>>, path: Seq<Seq<char>>) -> bool {
    &&& path.len() >= 2
    &&& is_walk(g, path)
    &&& path[0] == path.last()
    &&& path.drop_last().no_duplicates()
    &&& reachable_from(g, roots, path[0])
}

/// No cycle can be reached from the roots.
pub open spec fn acyclic_from(g: DepGraph, roots: Seq<Seq<char>>) -> bool {
    forall|p: Seq<Seq<char>>| !#[trigger] is_cycle_witness(g, roots, p)
}

/// What each error of a resolution states about the graph.
pub open spec fn resolution_error(g: DepGraph, roots: Seq<Seq<char>>, e: DfxConfigError) -> bool {
    match e {
        DfxConfigError::CanisterCircularDependency(p) => is_cycle_witness(g, roots, names_view(p@)),
        DfxConfigError::CanisterNotFound(n) => roots.contains(n@) && !is_canister(g, n@),
        DfxConfigError::CanisterDependencyNotFound(a, b) => {
            &&& reachable_from(g, roots, a@)
            &&& depends_on(g, a@, b@)
            &&& !is_canister(g, b@)
        },
        DfxConfigError::DuplicateCanisterName(n) => exists|i: int, j: int|
            0 <= i < j < g.len() && #[trigger] g[i].0 == n@ && #[trigger] g[j].0 == n@,
        _ => false,
    }
}

/// The outcome of resolving `focus` in `g`: a build order, or an error that
/// names a genuine defect of the graph.
pub open spec fn resolution_outcome(
    g: DepGraph,
    focus: Option<Seq<char>>,
    r: Result<Vec<String>, DfxConfigError>,
) -> bool {
    match r {
        Ok(order) => names_unique(g) && is_build_order(g, resolution_roots(g, focus), names_view(order@)),
        Err(e) => resolution_error(g, resolution_roots(g, focus), e),
    }
}

/// The state of the depth-first traversal: `order` holds the canisters
/// already finished, `path` those on the active branch.
pub open spec fn traversal_state(
    g: DepGraph,
    roots: Seq<Seq<char>>,
    order: Seq<Seq<char>>,
    path: Seq<Seq<char>>,
) -> bool {
    &&& order.no_duplicates()
    &&& path.no_duplicates()
    &&& forall|x: Seq<char>| #[trigger] order.contains(x) ==> !path.contains(x)
    &&& forall|k: int| 0 <= k < path.len() ==> is_canister(g, #[trigger] path[k])
    &&& path.len() > 0 ==> is_walk(g, path) && roots.contains(path[0])
    &&& forall|k: int|
        0 <= k < order.len() ==> is_canister(g, #[trigger] order[k]) && reachable_from(
            g,
            roots,
            order[k],
        )
    &&& forall|i: int, b: Seq<char>|
        0 <= i < order.len() && #[trigger] depends_on(g, order[i], b) ==> exists|j: int|
            0 <= j < i && #[trigger] order[j] == b
}

proof fn lemma_names_view_push(v: Seq<String>, s: String)
    ensures
        names_view(v.push(s)) == names_view(v).push(s@),
{
    assert(names_view(v.push(s)) =~= names_view(v).push(s@));
}

/// A path of distinct declared names is no longer than the graph.
proof fn lemma_path_len_bound(g: DepGraph, path: Seq<Seq<char>>)
    requires
        path.no_duplicates(),
        forall|k: int| 0 <= k < path.len() ==> is_canister(g, #[trigger] path[k]),
    ensures
        path.len() <= g.len(),
{
    let names = canister_names(g);
    assert forall|x: Seq<char>| path.to_set().contains(x) implies names.to_set().contains(x) by {
        let k = choose|k: int| 0 <= k < path.len() && path[k] == x;
        assert(is_canister(g, path[k]));
        let i = choose|i: int| 0 <= i < g.len() && #[trigger] g[i].0 == path[k];
        assert(names[i] == x);
    }
    path.unique_seq_to_set();
    names.lemma_cardinality_of_set();
    vstd::set_lib::lemma_len_subset(path.to_set(), names.to_set());
}

fn index_of(v: &Vec<String>, s: &String) -> (r: Option<usize>)
    ensures
        r matches Some(i) ==> i < v@.len() && v@[i as int]@ == s@,
        r is None ==> !names_view(v@).contains(s@),
{
    let mut i: usize = 0;
    while i < v.len()
        invariant
            i <= v@.len(),
            forall|k: int| 0 <= k < i ==> v@[k]@ != s@,
        decreases v@.len() - i,
    {
        if v[i] == *s {
            return Some(i);
        }
        i = i + 1;
    }
    assert(!names_view(v@).contains(s@)) by {
        if names_view(v@).contains(s@) {
            let k = choose|k: int| 0 <= k < names_view(v@).len() && names_view(v@)[k] == s@;
            assert(v@[k]@ == s@);
        }
    }
    None
}

/// The position of the canister named `name`, if it is declared.
pub fn find_canister(cs: &Vec<(String, ConfigCanistersCanister)>, name: &String) -> (r: Option<
    usize,
>)
    ensures
        r matches Some(i) ==> i < cs@.len() && cs@[i as int].0@ == name@,
        r is None ==> !is_canister(dependency_graph(cs@), name@),
{
    let ghost g = dependency_graph(cs@);
    let mut i: usize = 0;
    while i < cs.len()
        invariant
            i <= cs@.len(),
            g == dependency_graph(cs@),
            forall|k: int| 0 <= k < i ==> cs@[k].0@ != name@,
        decreases cs@.len() - i,
    {
        if cs[i].0 == *name {
            return Some(i);
        }
        i = i + 1;
    }
    assert(!is_canister(g, name@)) by {
        if is_canister(g, name@) {
            let k = choose|k: int| 0 <= k < g.len() && #[trigger] g[k].0 == name@;
            assert(cs@[k].0@ == name@);
        }
    }
    None
}

/// The position of a canister whose name an earlier canister already has.
fn find_duplicate(cs: &Vec<(String, ConfigCanistersCanister)>) -> (r: Option<usize>)
    ensures
        r is None ==> names_unique(dependency_graph(cs@)),
        r matches Some(j) ==> j < cs@.len() && exists|i: int|
            0 <= i < j && #[trigger] dependency_graph(cs@)[i].0 == dependency_graph(cs@)[j as int].0,
{
    let ghost g = dependency_graph(cs@);
    let mut j: usize = 0;
    while j < cs.len()
        invariant
            j <= cs@.len(),
            g == dependency_graph(cs@),
            forall|a: int, b: int| 0 <= a < b < j ==> #[trigger] g[a].0 != #[trigger] g[b].0,
        decreases cs@.len() - j,
    {
        let mut i: usize = 0;
        while i < j
            invariant
                i <= j < cs@.len(),
                g == dependency_graph(cs@),
                forall|a: int| 0 <= a < i ==> #[trigger] g[a].0 != g[j as int].0,
            decreases j - i,
        {
            if cs[i].0 == cs[j].0 {
                assert(g[i as int].0 == g[j as int].0);
                return Some(j);
            }
            i = i + 1;
        }
        j = j + 1;
    }
    None
}

/// Appending a dependency of the last name keeps a walk a walk.
proof fn lemma_walk_push(g: DepGraph, w: Seq<Seq<char>>, n: Seq<char>)
    requires
        w.len() > 0,
        is_walk(g, w),
        depends_on(g, w.last(), n),
    ensures
        is_walk(g, w.push(n)),
{
    let w2 = w.push(n);
    assert forall|m: int| 0 <= m < w2.len() - 1 implies depends_on(g, #[trigger] w2[m], w2[m + 1]) by {
        if m < w.len() - 1 {
            assert(w2[m] == w[m] && w2[m + 1] == w[m + 1]);
        } else {
            assert(w2[m] == w.last() && w2[m + 1] == n);
        }
    }
}

/// The walk that leads from a root to `n` through the active branch.
proof fn lemma_branch_walk(g: DepGraph, roots: Seq<Seq<char>>, path: Seq<Seq<char>>, n: Seq<char>)
    requires
        path.len() > 0 ==> is_walk(g, path) && roots.contains(path[0]),
        path.len() == 0 ==> roots.contains(n),
        path.len() > 0 ==> depends_on(g, path.last(), n),
    ensures
        is_walk(g, path.push(n)),
        roots.contains(path.push(n)[0]),
        reachable_from(g, roots, n),
{
    let w = path.push(n);
    if path.len() > 0 {
        lemma_walk_push(g, path, n);
        assert(w[0] == path[0]);
    } else {
        assert(is_walk(g, w));
    }
    assert(w.last() == n);
}

/// Finishing `n`, once all of its dependencies are finished, keeps the
/// traversal state.
proof fn lemma_finish(
    g: DepGraph,
    roots: Seq<Seq<char>>,
    order: Seq<Seq<char>>,
    path: Seq<Seq<char>>,
    n: Seq<char>,
    idx: int,
)
    requires
        names_unique(g),
        0 <= idx < g.len(),
        g[idx].0 == n,
        traversal_state(g, roots, order, path.push(n)),
        path.len() > 0 ==> depends_on(g, path.last(), n),
        path.len() == 0 ==> roots.contains(n),
        forall|m: int| 0 <= m < g[idx].1.len() ==> order.contains(#[trigger] g[idx].1[m]),
    ensures
        traversal_state(g, roots, order.push(n), path),
{
    let p1 = path.push(n);
    let o2 = order.push(n);
    assert(p1.last() == n);
    assert(!order.contains(n));
    assert(path =~= p1.drop_last());
    assert forall|k: int| 0 <= k < path.len() implies is_canister(g, #[trigger] path[k]) by {
        assert(path[k] == p1[k]);
    }
    assert(path.no_duplicates()) by {
        assert forall|a: int, b: int| 0 <= a < path.len() && 0 <= b < path.len() && a != b implies path[a] != path[b] by {
            assert(path[a] == p1[a] && path[b] == p1[b]);
        }
    }
    if path.len() > 0 {
        assert(is_walk(g, path)) by {
            assert forall|m: int| 0 <= m < path.len() - 1 implies depends_on(g, #[trigger] path[m], path[m + 1]) by {
                assert(path[m] == p1[m] && path[m + 1] == p1[m + 1]);
            }
        }
        assert(path[0] == p1[0]);
    }
    lemma_branch_walk(g, roots, path, n);
    assert(o2.no_duplicates()) by {
        assert forall|a: int, b: int| 0 <= a < o2.len() && 0 <= b < o2.len() && a != b implies o2[a] != o2[b] by {
            if a < order.len() && b < order.len() {
                assert(o2[a] == order[a] && o2[b] == order[b]);
            } else if a < order.len() {
                assert(o2[a] == order[a] && order.contains(order[a]));
            } else {
                assert(o2[b] == order[b] && order.contains(order[b]));
            }
        }
    }
    assert forall|x: Seq<char>| #[trigger] o2.contains(x) implies !path.contains(x) by {
        let q = choose|q: int| 0 <= q < o2.len() && o2[q] == x;
        if q < order.len() {
            assert(o2[q] == order[q] && order.contains(x));
            if path.contains(x) {
                let r = choose|r: int| 0 <= r < path.len() && path[r] == x;
                assert(p1[r] == x && p1.contains(x));
            }
        } else {
            if path.contains(x) {
                let r = choose|r: int| 0 <= r < path.len() && path[r] == x;
                assert(p1[r] == n && p1[path.len() as int] == n);
            }
        }
    }
    assert forall|k: int| 0 <= k < o2.len() implies is_canister(g, #[trigger] o2[k]) && reachable_from(
        g,
        roots,
        o2[k],
    ) by {
        if k < order.len() {
            assert(o2[k] == order[k]);
        } else {
            assert(o2[k] == n && g[idx].0 == n);
        }
    }
    assert forall|i: int, b: Seq<char>|
        0 <= i < o2.len() && #[trigger] depends_on(g, o2[i], b) implies exists|j: int|
            0 <= j < i && #[trigger] o2[j] == b by {
        if i < order.len() {
            assert(o2[i] == order[i]);
            let j = choose|j: int| 0 <= j < i && #[trigger] order[j] == b;
            assert(o2[j] == b);
        } else {
            assert(o2[i] == n);
            let i2 = choose|i2: int| 0 <= i2 < g.len() && g[i2].0 == n && #[trigger] g[i2].1.contains(b);
            assert(i2 == idx);
            let m = choose|m: int| 0 <= m < g[idx].1.len() && g[idx].1[m] == b;
            assert(order.contains(g[idx].1[m]));
            let j = choose|j: int| 0 <= j < order.len() && order[j] == b;
            assert(o2[j] == b);
        }
    }
}

/// A stretch of a walk is a walk.
proof fn lemma_walk_subrange(g: DepGraph, w: Seq<Seq<char>>, a: int, b: int)
    requires
        is_walk(g, w),
        0 <= a < b <= w.len(),
    ensures
        is_walk(g, w.subrange(a, b)),
{
    let s = w.subrange(a, b);
    assert forall|m: int| 0 <= m < s.len() - 1 implies depends_on(g, #[trigger] s[m], s[m + 1]) by {
        assert(s[m] == w[a + m] && s[m + 1] == w[a + m + 1]);
    }
}

/// Meeting `n` again on the active branch, at position `k`, closes a cycle
/// that the roots lead to.
proof fn lemma_cycle_witness(g: DepGraph, roots: Seq<Seq<char>>, path: Seq<Seq<char>>, k: int, n: Seq<char>)
    requires
        path.len() > 0,
        is_walk(g, path),
        roots.contains(path[0]),
        path.no_duplicates(),
        depends_on(g, path.last(), n),
        0 <= k < path.len(),
        path[k] == n,
    ensures
        is_cycle_witness(g, roots, path.subrange(k, path.len() as int).push(n)),
{
    let body = path.subrange(k, path.len() as int);
    let c = body.push(n);
    lemma_walk_subrange(g, path, k, path.len() as int);
    assert(body.last() == path.last());
    lemma_walk_push(g, body, n);
    assert(c.drop_last() =~= body);
    assert(body.no_duplicates()) by {
        assert forall|x: int, y: int| 0 <= x < body.len() && 0 <= y < body.len() && x != y implies body[x] != body[y] by {
            assert(body[x] == path[k + x] && body[y] == path[k + y]);
        }
    }
    let w = path.subrange(0, k + 1);
    lemma_walk_subrange(g, path, 0, k + 1);
    assert(w[0] == path[0] && w.last() == n);
    assert(c[0] == n);
}

/// Depth-first visit of `canister_name`: appends it, after every canister it
/// transitively depends on, to `order`, unless it is already there.
#[verifier::rlimit(50)]
fn add_dependencies(
    all_canisters: &Vec<(String, ConfigCanistersCanister)>,
    order: &mut Vec<String>,
    path: &mut Vec<String>,
    canister_name: &String,
    Ghost(roots): Ghost<Seq<Seq<char>>>,
) -> (r: Result<(), DfxConfigError>)
    requires
        names_unique(dependency_graph(all_canisters@)),
        traversal_state(
            dependency_graph(all_canisters@),
            roots,
            names_view(old(order)@),
            names_view(old(path)@),
        ),
        old(path)@.len() == 0 ==> roots.contains(canister_name@),
        old(path)@.len() > 0 ==> depends_on(
            dependency_graph(all_canisters@),
            old(path)@.last()@,
            canister_name@,
        ),
    ensures
        r is Ok ==> {
            &&& final(path)@ == old(path)@
            &&& traversal_state(
                dependency_graph(all_canisters@),
                roots,
                names_view(final(order)@),
                names_view(final(path)@),
            )
            &&& names_view(old(order)@).is_prefix_of(names_view(final(order)@))
            &&& names_view(final(order)@).contains(canister_name@)
        },
        r matches Err(e) ==> resolution_error(dependency_graph(all_canisters@), roots, e),
    decreases all_canisters@.len() - old(path)@.len(),
{
    let ghost g = dependency_graph(all_canisters@);
    let ghost path0 = names_view(path@);
    let ghost order0 = names_view(order@);
    proof {
        if path0.len() > 0 {
            assert(path0.last() == old(path)@.last()@);
        }
    }
    if let Some(i) = index_of(order, canister_name) {
        assert(order0.is_prefix_of(order0));
        assert(order0[i as int] == canister_name@);
        return Ok(());
    }
    if let Some(k) = index_of(path, canister_name) {
        let mut cycle: Vec<String> = Vec::new();
        let mut m: usize = k;
        while m < path.len()
            invariant
                k <= m <= path@.len(),
                path@ == old(path)@,
                path0 == names_view(old(path)@),
                names_view(cycle@) == path0.subrange(k as int, m as int),
            decreases path@.len() - m,
        {
            let ghost before = cycle@;
            cycle.push(path[m].clone());
            proof {
                lemma_names_view_push(before, path@[m as int]);
                assert(path0[m as int] == path@[m as int]@);
                assert(path0.subrange(k as int, m + 1) =~= path0.subrange(k as int, m as int).push(
                    path0[m as int],
                ));
            }
            m = m + 1;
        }
        let ghost body = cycle@;
        cycle.push(canister_name.clone());
        proof {
            lemma_names_view_push(body, *canister_name);
            lemma_cycle_witness(g, roots, path0, k as int, canister_name@);
            assert(names_view(cycle@) =~= path0.subrange(k as int, path0.len() as int).push(
                canister_name@,
            ));
        }
        return Err(DfxConfigError::CanisterCircularDependency(cycle));
    }
    let idx = match find_canister(all_canisters, canister_name) {
        Some(i) => i,
        None => {
            if path.len() == 0 {
                return Err(DfxConfigError::CanisterNotFound(canister_name.clone()));
            }
            let parent = path[path.len() - 1].clone();
            proof {
                let w = path0;
                assert(is_walk(g, w) && roots.contains(w[0]) && w.last() == parent@);
            }
            return Err(DfxConfigError::CanisterDependencyNotFound(parent, canister_name.clone()));
        },
    };
    path.push(canister_name.clone());
    proof {
        lemma_names_view_push(old(path)@, *canister_name);
        lemma_branch_walk(g, roots, path0, canister_name@);
        let p1 = path0.push(canister_name@);
        assert(g[idx as int].0 == canister_name@);
        assert(is_canister(g, canister_name@));
        assert(traversal_state(g, roots, order0, p1)) by {
            assert forall|x: Seq<char>| #[trigger] order0.contains(x) implies !p1.contains(x) by {
                if p1.contains(x) {
                    let r = choose|r: int| 0 <= r < p1.len() && p1[r] == x;
                    if r < path0.len() {
                        assert(path0[r] == x && path0.contains(x));
                    }
                }
            }
            assert forall|k: int| 0 <= k < p1.len() implies is_canister(g, #[trigger] p1[k]) by {
                if k < path0.len() {
                    assert(p1[k] == path0[k]);
                }
            }
            assert(p1.no_duplicates()) by {
                assert forall|a: int, b: int| 0 <= a < p1.len() && 0 <= b < p1.len() && a != b implies p1[a] != p1[b] by {
                    if a < path0.len() && b < path0.len() {
                        assert(p1[a] == path0[a] && p1[b] == path0[b]);
                    } else if a < path0.len() {
                        assert(p1[a] == path0[a] && path0.contains(path0[a]));
                    } else {
                        assert(p1[b] == path0[b] && path0.contains(path0[b]));
                    }
                }
            }
        }
        lemma_path_len_bound(g, p1);
    }
    let deps = &all_canisters[idx].1.dependencies;
    let mut n: usize = 0;
    while n < deps.len()
        invariant
            g == dependency_graph(all_canisters@),
            names_unique(g),
            idx < all_canisters@.len(),
            g[idx as int].0 == canister_name@,
            g[idx as int].1 == names_view(deps@),
            *deps == all_canisters@[idx as int].1.dependencies,
            n <= deps@.len(),
            path@ == old(path)@.push(*canister_name),
            names_view(path@) == path0.push(canister_name@),
            path@.len() <= all_canisters@.len(),
            traversal_state(g, roots, names_view(order@), names_view(path@)),
            order0.is_prefix_of(names_view(order@)),
            forall|m: int| 0 <= m < n ==> names_view(order@).contains(#[trigger] g[idx as int].1[m]),
        decreases deps@.len() - n,
    {
        let ghost o_before = names_view(order@);
        proof {
            assert(g[idx as int].1[n as int] == deps@[n as int]@);
            assert(g[idx as int].1.contains(deps@[n as int]@));
            assert(depends_on(g, canister_name@, deps@[n as int]@));
            assert(names_view(path@).last() == canister_name@);
        }
        let res = add_dependencies(all_canisters, order, path, &deps[n], Ghost(roots));
        if res.is_err() {
            return res;
        }
        proof {
            let o = names_view(order@);
            assert forall|m: int| 0 <= m <= n implies o.contains(#[trigger] g[idx as int].1[m]) by {
                if m < n {
                    let q = choose|q: int| 0 <= q < o_before.len() && o_before[q] == g[idx as int].1[m];
                    assert(o[q] == o_before[q]);
                } else {
                    assert(g[idx as int].1[m] == deps@[n as int]@);
                }
            }
            assert(order0.is_prefix_of(o)) by {
                assert forall|q: int| 0 <= q < order0.len() implies order0[q] == o[q] by {
                    assert(order0[q] == o_before[q]);
                }
            }
        }
        n = n + 1;
    }
    path.pop();
    let ghost o1 = names_view(order@);
    let ghost ord_before = order@;
    proof {
        assert(path@ =~= old(path)@);
        lemma_finish(g, roots, o1, path0, canister_name@, idx as int);
    }
    order.push(canister_name.clone());
    proof {
        lemma_names_view_push(ord_before, *canister_name);
        let o2 = names_view(order@);
        assert(o2 == o1.push(canister_name@));
        assert(o2[o1.len() as int] == canister_name@);
        assert(order0.is_prefix_of(o2)) by {
            assert forall|q: int| 0 <= q < order0.len() implies order0[q] == o2[q] by {
                assert(order0[q] == o1[q]);
            }
        }
    }
    Ok(())
}

pub open spec fn focus_view(focus: Option<&String>) -> Option<Seq<char>> {
    match focus {
        Some(f) => Some(f@),
        None => None,
    }
}

/// Resolves the canisters needed to build `focus` (or every canister), in an
/// order where each comes after all of its dependencies. Fails, before any
/// build could start, on a duplicate name, an unknown name or a cycle.
pub fn resolve_dependencies(
    all_canisters: &Vec<(String, ConfigCanistersCanister)>,
    focus: Option<&String>,
) -> (r: Result<Vec<String>, DfxConfigError>)
    ensures
        resolution_outcome(dependency_graph(all_canisters@), focus_view(focus), r),
{
    let ghost g = dependency_graph(all_canisters@);
    let ghost roots = resolution_roots(g, focus_view(focus));
    if let Some(j) = find_duplicate(all_canisters) {
        let name = all_canisters[j].0.clone();
        return Err(DfxConfigError::DuplicateCanisterName(name));
    }
    let mut order: Vec<String> = Vec::new();
    let mut path: Vec<String> = Vec::new();
    proof {
        assert(names_view(order@) =~= Seq::<Seq<char>>::empty());
        assert(names_view(path@) =~= Seq::<Seq<char>>::empty());
    }
    match focus {
        Some(f) => {
            assert(roots[0] == f@);
            match add_dependencies(all_canisters, &mut order, &mut path, f, Ghost(roots)) {
                Ok(()) => {},
                Err(e) => {
                    return Err(e);
                },
            }
            proof {
                assert forall|x: Seq<char>| #[trigger] roots.contains(x) implies names_view(
                    order@,
                ).contains(x) by {
                    assert(roots[0] == f@);
                }
            }
        },
        None => {
            let mut i: usize = 0;
            while i < all_canisters.len()
                invariant
                    g == dependency_graph(all_canisters@),
                    roots == canister_names(g),
                    roots == resolution_roots(g, focus_view(focus)),
                    names_unique(g),
                    i <= all_canisters@.len(),
                    path@.len() == 0,
                    traversal_state(g, roots, names_view(order@), names_view(path@)),
                    forall|m: int| 0 <= m < i ==> names_view(order@).contains(#[trigger] roots[m]),
                decreases all_canisters@.len() - i,
            {
                let ghost o_before = names_view(order@);
                proof {
                    assert(roots[i as int] == all_canisters@[i as int].0@);
                }
                match add_dependencies(
                    all_canisters,
                    &mut order,
                    &mut path,
                    &all_canisters[i].0,
                    Ghost(roots),
                ) {
                    Ok(()) => {},
                    Err(e) => {
                        return Err(e);
                    },
                }
                proof {
                    let o = names_view(order@);
                    assert forall|m: int| 0 <= m <= i implies o.contains(#[trigger] roots[m]) by {
                        if m < i {
                            let q = choose|q: int| 0 <= q < o_before.len() && o_before[q] == roots[m];
                            assert(o[q] == o_before[q]);
                        }
                    }
                }
                i = i + 1;
            }
            proof {
                assert forall|x: Seq<char>| #[trigger] roots.contains(x) implies names_view(
                    order@,
                ).contains(x) by {
                    let m = choose|m: int| 0 <= m < roots.len() && roots[m] == x;
                }
            }
        },
    }
    Ok(order)
}

/// In a build order, every canister that another one transitively depends on
/// comes before it.
pub proof fn lemma_build_order_respects_transitive_dependencies(
    g: DepGraph,
    roots: Seq<Seq<char>>,
    order: Seq<Seq<char>>,
    w: Seq<Seq<char>>,
    i: int,
)
    requires
        is_build_order(g, roots, order),
        is_walk(g, w),
        w.len() >= 2,
        0 <= i < order.len(),
        order[i] == w[0],
    ensures
        exists|j: int| 0 <= j < i && #[trigger] order[j] == w.last(),
    decreases w.len(),
{
    assert(depends_on(g, order[i], w[1]));
    let j1 = choose|j: int| 0 <= j < i && #[trigger] order[j] == w[1];
    if w.len() == 2 {
        assert(order[j1] == w.last());
    } else {
        let rest = w.drop_first();
        assert forall|k: int| 0 <= k < rest.len() - 1 implies depends_on(g, #[trigger] rest[k], rest[k + 1]) by {
            assert(rest[k] == w[k + 1] && rest[k + 1] == w[k + 2]);
        }
        lemma_build_order_respects_transitive_dependencies(g, roots, order, rest, j1);
        let j = choose|j: int| 0 <= j < j1 && #[trigger] order[j] == rest.last();
        assert(order[j] == w.last());
    }
}

/// Every name of a walk from a root is in a build order.
proof fn lemma_walk_in_order(
    g: DepGraph,
    roots: Seq<Seq<char>>,
    order: Seq<Seq<char>>,
    p: Seq<Seq<char>>,
    m: int,
)
    requires
        is_build_order(g, roots, order),
        is_walk(g, p),
        roots.contains(p[0]),
        0 <= m < p.len(),
    ensures
        exists|q: int| 0 <= q < order.len() && #[trigger] order[q] == p[m],
    decreases m,
{
    if m == 0 {
        assert(order.contains(p[0]));
    } else {
        lemma_walk_in_order(g, roots, order, p, m - 1);
        let q = choose|q: int| 0 <= q < order.len() && #[trigger] order[q] == p[m - 1];
        assert(depends_on(g, order[q], p[m]));
        let j = choose|j: int| 0 <= j < q && #[trigger] order[j] == p[m];
    }
}

/// A build order never exists for a graph in which a root reaches a cycle.
pub proof fn lemma_build_order_excludes_cycles(
    g: DepGraph,
    roots: Seq<Seq<char>>,
    order: Seq<Seq<char>>,
    p: Seq<Seq<char>>,
)
    requires
        is_build_order(g, roots, order),
    ensures
        !is_cycle_witness(g, roots, p),
{
    if is_cycle_witness(g, roots, p) {
        let w = choose|w: Seq<Seq<char>>| #[trigger] is_walk(g, w) && roots.contains(w[0]) && w.last() == p[0];
        lemma_walk_in_order(g, roots, order, w, w.len() - 1);
        let idx = choose|q: int| 0 <= q < order.len() && #[trigger] order[q] == w[w.len() - 1];
        lemma_build_order_respects_transitive_dependencies(g, roots, order, p, idx);
        let j = choose|j: int| 0 <= j < idx && #[trigger] order[j] == p.last();
        assert(order[j] == order[idx]);
    }
}

/// On a graph with unique names where every dependency reachable from the
/// roots is declared and no cycle is reachable, resolution succeeds: the
/// result is then a build order.
pub proof fn lemma_sound_graph_resolves(
    g: DepGraph,
    focus: Option<Seq<char>>,
    r: Result<Vec<String>, DfxConfigError>,
)
    requires
        resolution_outcome(g, focus, r),
        names_unique(g),
        closed_from(g, resolution_roots(g, focus)),
        acyclic_from(g, resolution_roots(g, focus)),
        focus matches Some(f) ==> is_canister(g, f),
    ensures
        r is Ok,
{
    let roots = resolution_roots(g, focus);
    if let Err(e) = r {
        match e {
            DfxConfigError::CanisterCircularDependency(p) => {
                assert(!is_cycle_witness(g, roots, names_view(p@)));
            },
            DfxConfigError::CanisterNotFound(n) => {
                if focus is None {
                    let m = choose|m: int| 0 <= m < roots.len() && roots[m] == n@;
                    assert(g[m].0 == n@);
                }
            },
            DfxConfigError::CanisterDependencyNotFound(a, b) => {
                assert(depends_on(g, a@, b@));
            },
            DfxConfigError::DuplicateCanisterName(n) => {
            },
            _ => {},
        }
    }
}

/// The one dependency of a canister with exactly one.
proof fn lemma_single_dependency(g: DepGraph, a: Seq<char>, b: Seq<char>, ia: int, x: Seq<char>)
    requires
        names_unique(g),
        0 <= ia < g.len(),
        g[ia].0 == a,
        g[ia].1 == seq![b],
        depends_on(g, a, x),
    ensures
        x == b,
{
    let i = choose|i: int| 0 <= i < g.len() && g[i].0 == a && #[trigger] g[i].1.contains(x);
    assert(i == ia);
}

/// A walk that starts in a set closed under dependencies stays in it.
proof fn lemma_walk_stays_in(g: DepGraph, w: Seq<Seq<char>>, s: Set<Seq<char>>, k: int)
    requires
        is_walk(g, w),
        s.contains(w[0]),
        forall|x: Seq<char>, y: Seq<char>| s.contains(x) && #[trigger] depends_on(g, x, y) ==> s.contains(y),
        0 <= k < w.len(),
    ensures
        s.contains(w[k]),
    decreases k,
{
    if k > 0 {
        lemma_walk_stays_in(g, w, s, k - 1);
        assert(depends_on(g, w[k - 1], w[k]));
    }
}

/// Whatever `roots` reach lies in a set that holds them and is closed under
/// dependencies.
proof fn lemma_reach_stays_in(g: DepGraph, roots: Seq<Seq<char>>, s: Set<Seq<char>>, n: Seq<char>)
    requires
        reachable_from(g, roots, n),
        forall|r: Seq<char>| #[trigger] roots.contains(r) ==> s.contains(r),
        forall|x: Seq<char>, y: Seq<char>| s.contains(x) && #[trigger] depends_on(g, x, y) ==> s.contains(y),
    ensures
        s.contains(n),
{
    let w = choose|w: Seq<Seq<char>>| #[trigger] is_walk(g, w) && roots.contains(w[0]) && w.last() == n;
    lemma_walk_stays_in(g, w, s, w.len() - 1);
}

/// When `a` depends on `b` alone and `b` on `a` alone, resolving `a` in a
/// graph with unique names fails with a cycle that holds both names.
pub proof fn lemma_mutual_dependency_is_reported(
    g: DepGraph,
    a: Seq<char>,
    b: Seq<char>,
    ia: int,
    ib: int,
    r: Result<Vec<String>, DfxConfigError>,
)
    requires
        resolution_outcome(g, Some(a), r),
        names_unique(g),
        0 <= ia < g.len(),
        0 <= ib < g.len(),
        g[ia].0 == a,
        g[ia].1 == seq![b],
        g[ib].0 == b,
        g[ib].1 == seq![a],
    ensures
        r matches Err(DfxConfigError::CanisterCircularDependency(p)) && names_view(p@).contains(a)
            && names_view(p@).contains(b),
{
    let roots = seq![a];
    let s = set![a, b];
    assert(resolution_roots(g, Some(a)) == roots);
    assert(g[ia].1[0] == b && g[ia].1.contains(b));
    assert(g[ib].1[0] == a && g[ib].1.contains(a));
    assert(depends_on(g, a, b));
    assert(depends_on(g, b, a));
    assert(roots[0] == a);
    assert(roots.contains(a));
    assert forall|x: Seq<char>| #[trigger] roots.contains(x) implies s.contains(x) by {}
    assert forall|x: Seq<char>, y: Seq<char>| s.contains(x) && #[trigger] depends_on(g, x, y) implies s.contains(y) by {
        if x == a {
            lemma_single_dependency(g, a, b, ia, y);
        } else {
            lemma_single_dependency(g, b, a, ib, y);
        }
    }
    match r {
        Ok(order) => {
            let o = names_view(order@);
            let i = choose|i: int| 0 <= i < o.len() && o[i] == a;
            let w = seq![a, b, a];
            assert(is_walk(g, w)) by {
                assert forall|k: int| 0 <= k < w.len() - 1 implies depends_on(g, #[trigger] w[k], w[k + 1]) by {
                    if k == 0 {
                        assert(w[0] == a && w[1] == b);
                    } else {
                        assert(w[1] == b && w[2] == a);
                    }
                }
            }
            lemma_build_order_respects_transitive_dependencies(g, roots, o, w, i);
            let j = choose|j: int| 0 <= j < i && #[trigger] o[j] == w.last();
            assert(o[j] == o[i]);
        },
        Err(e) => {
            match e {
                DfxConfigError::CanisterCircularDependency(p) => {
                    let pv = names_view(p@);
                    lemma_reach_stays_in(g, roots, s, pv[0]);
                    assert(depends_on(g, pv[0], pv[1]));
                    if pv[0] == a {
                        lemma_single_dependency(g, a, b, ia, pv[1]);
                    } else {
                        lemma_single_dependency(g, b, a, ib, pv[1]);
                    }
                    assert(pv.contains(pv[0]) && pv.contains(pv[1]));
                },
                DfxConfigError::CanisterNotFound(n) => {
                    assert(n@ == a) by {
                        let q = choose|q: int| 0 <= q < roots.len() && roots[q] == n@;
                    }
                    assert(g[ia].0 == a);
                },
                DfxConfigError::CanisterDependencyNotFound(x, y) => {
                    lemma_reach_stays_in(g, roots, s, x@);
                    assert(s.contains(y@));
                    assert(g[ia].0 == a && g[ib].0 == b);
                },
                _ => {},
            }
        },
    }
}

/// When `a` depends on `b` alone and `b` is not declared, resolving `a` in a
/// graph with unique names fails with a not-found error naming `a` and `b`.
pub proof fn lemma_missing_dependency_is_reported(
    g: DepGraph,
    a: Seq<char>,
    b: Seq<char>,
    ia: int,
    r: Result<Vec<String>, DfxConfigError>,
)
    requires
        resolution_outcome(g, Some(a), r),
        names_unique(g),
        0 <= ia < g.len(),
        g[ia].0 == a,
        g[ia].1 == seq![b],
        !is_canister(g, b),
    ensures
        r matches Err(DfxConfigError::CanisterDependencyNotFound(x, y)) && x@ == a && y@ == b,
{
    let roots = seq![a];
    let s = set![a, b];
    assert(resolution_roots(g, Some(a)) == roots);
    assert(g[ia].1[0] == b && g[ia].1.contains(b));
    assert(depends_on(g, a, b));
    assert(roots[0] == a);
    assert(roots.contains(a));
    assert forall|x: Seq<char>| #[trigger] roots.contains(x) implies s.contains(x) by {}
    assert forall|x: Seq<char>, y: Seq<char>| s.contains(x) && #[trigger] depends_on(g, x, y) implies s.contains(y) by {
        if x == a {
            lemma_single_dependency(g, a, b, ia, y);
        } else {
            let i = choose|i: int| 0 <= i < g.len() && g[i].0 == x && #[trigger] g[i].1.contains(y);
            assert(is_canister(g, b));
        }
    }
    match r {
        Ok(order) => {
            let o = names_view(order@);
            let i = choose|i: int| 0 <= i < o.len() && o[i] == a;
            let j = choose|j: int| 0 <= j < i && #[trigger] o[j] == b;
            assert(is_canister(g, o[j]));
        },
        Err(e) => {
            match e {
                DfxConfigError::CanisterCircularDependency(p) => {
                    let pv = names_view(p@);
                    lemma_reach_stays_in(g, roots, s, pv[0]);
                    assert(depends_on(g, pv[0], pv[1]));
                    let i0 = choose|i: int| 0 <= i < g.len() && g[i].0 == pv[0] && #[trigger] g[i].1.contains(pv[1]);
                    assert(pv[0] != b);
                    lemma_single_dependency(g, a, b, ia, pv[1]);
                    if pv.len() > 2 {
                        assert(depends_on(g, pv[1], pv[2]));
                        let i1 = choose|i: int| 0 <= i < g.len() && g[i].0 == pv[1] && #[trigger] g[i].1.contains(pv[2]);
                        assert(is_canister(g, b));
                    }
                    assert(pv.last() == pv[1]);
                },
                DfxConfigError::CanisterNotFound(n) => {
                    assert(n@ == a) by {
                        let q = choose|q: int| 0 <= q < roots.len() && roots[q] == n@;
                    }
                    assert(g[ia].0 == a);
                },
                DfxConfigError::CanisterDependencyNotFound(x, y) => {
                    lemma_reach_stays_in(g, roots, s, x@);
                    let ix = choose|i: int| 0 <= i < g.len() && g[i].0 == x@ && #[trigger] g[i].1.contains(y@);
                    assert(x@ != b);
                    lemma_single_dependency(g, a, b, ia, y@);
                },
                _ => {},
            }
        },
    }
}

} // verus!
