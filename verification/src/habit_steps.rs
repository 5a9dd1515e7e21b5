//! Habit step validation and the two-phase save plan.
//!
//! Display positions are 1-indexed; storage uses 0-indexed positions.
//! Dependencies may point at steps created in the same request, so ids for
//! new steps are only known after a first save; a second save resolves the
//! remaining references.

use vstd::prelude::*;
use crate::text::{append_str, i64_to_string, int_digits, string_of};
use crate::tool::{InvalidArgsError, ToolError};

verus! {

/// Whether `(from, to)` is one of `edges`.
pub open spec fn has_edge(edges: Seq<(i64, i64)>, from: i64, to: i64) -> bool {
    exists|j: int| 0 <= j < edges.len() && edges[j] == (from, to)
}

/// `c` is a non-empty cycle: each node has an edge to the next, and the last
/// has an edge back to the first.
pub open spec fn is_cycle(c: Seq<i64>, edges: Seq<(i64, i64)>) -> bool {
    &&& c.len() > 0
    &&& forall|i: int| 0 <= i < c.len() - 1 ==> has_edge(edges, #[trigger] c[i], c[i + 1])
    &&& has_edge(edges, c.last(), c[0])
}

/// No node occurs twice in `c`.
pub open spec fn distinct_nodes(c: Seq<i64>) -> bool {
    forall|i: int, j: int| 0 <= i < j < c.len() ==> #[trigger] c[i] != #[trigger] c[j]
}

/// `s` holds every node that an edge leaves `s` towards.
pub open spec fn closed_under(s: Set<i64>, edges: Seq<(i64, i64)>) -> bool {
    forall|j: int| 0 <= j < edges.len() && s.contains(#[trigger] edges[j].0) ==> s.contains(edges[j].1)
}

/// No cycle passes through a node of `s`.
pub open spec fn no_cycle_through(s: Set<i64>, edges: Seq<(i64, i64)>) -> bool {
    forall|c: Seq<i64>| #[trigger] is_cycle(c, edges) ==> !s.contains(c[0])
}

/// Number of entries of `u` that are not in `vis`.
pub open spec fn unvisited_count(u: Seq<i64>, vis: Seq<i64>) -> nat
    decreases u.len(),
{
    if u.len() == 0 {
        0
    } else {
        unvisited_count(u.drop_last(), vis) + if vis.contains(u.last()) { 0nat } else { 1nat }
    }
}

proof fn lemma_count_mono(u: Seq<i64>, a: Seq<i64>, b: Seq<i64>)
    requires
        forall|x: i64| a.contains(x) ==> b.contains(x),
    ensures
        unvisited_count(u, b) <= unvisited_count(u, a),
    decreases u.len(),
{
    if u.len() > 0 {
        lemma_count_mono(u.drop_last(), a, b);
    }
}

proof fn lemma_count_strict(u: Seq<i64>, a: Seq<i64>, b: Seq<i64>, x: i64)
    requires
        forall|y: i64| a.contains(y) ==> b.contains(y),
        u.contains(x),
        !a.contains(x),
        b.contains(x),
    ensures
        unvisited_count(u, b) < unvisited_count(u, a),
    decreases u.len(),
{
    let k = choose|k: int| 0 <= k < u.len() && u[k] == x;
    if k == u.len() - 1 {
        lemma_count_mono(u.drop_last(), a, b);
    } else {
        assert(u.drop_last()[k] == x);
        lemma_count_strict(u.drop_last(), a, b, x);
    }
}

/// The DFS bookkeeping: the path is a walk of distinct visited nodes, and
/// every finished ("black") node has only finished successors, each
/// finished earlier.
pub open spec fn dfs_inv(
    edges: Seq<(i64, i64)>,
    visited: Seq<i64>,
    path: Seq<i64>,
    fin: Map<i64, nat>,
    counter: nat,
) -> bool {
    &&& forall|i: int, j: int| 0 <= i < j < path.len() ==> #[trigger] path[i] != #[trigger] path[j]
    &&& forall|i: int| 0 <= i < path.len() ==> visited.contains(#[trigger] path[i])
    &&& forall|i: int| 0 <= i < path.len() - 1 ==> has_edge(edges, #[trigger] path[i], path[i + 1])
    &&& forall|x: i64| fin.contains_key(x) <==> (visited.contains(x) && !path.contains(x))
    &&& forall|x: i64| #[trigger] fin.contains_key(x) ==> fin[x] < counter
    &&& forall|j: int| 0 <= j < edges.len() && fin.contains_key(#[trigger] edges[j].0) ==>
        fin.contains_key(edges[j].1) && fin[edges[j].1] < fin[edges[j].0]
}

fn vec_contains(v: &Vec<i64>, x: i64) -> (r: bool)
    ensures
        r == v@.contains(x),
{
    let mut i: usize = 0;
    while i < v.len()
        invariant
            i <= v@.len(),
            forall|j: int| 0 <= j < i ==> v@[j] != x,
        decreases v@.len() - i,
    {
        if v[i] == x {
            return true;
        }
        i = i + 1;
    }
    false
}

fn dfs(
    node: i64,
    edges: &[(i64, i64)],
    visited: &mut Vec<i64>,
    path: &mut Vec<i64>,
    fin: &mut Ghost<Map<i64, nat>>,
    counter: &mut Ghost<nat>,
    universe: Ghost<Seq<i64>>,
) -> (r: Option<Vec<i64>>)
    requires
        dfs_inv(edges@, old(visited)@, old(path)@, old(fin)@, old(counter)@),
        old(path)@.len() > 0 ==> has_edge(edges@, old(path)@.last(), node),
        universe@.contains(node),
        forall|j: int| 0 <= j < edges@.len() ==> universe@.contains(#[trigger] edges@[j].1),
    ensures
        match r {
            Some(c) => is_cycle(c@, edges@) && distinct_nodes(c@),
            None => {
                &&& dfs_inv(edges@, final(visited)@, final(path)@, final(fin)@, final(counter)@)
                &&& final(path)@ == old(path)@
                &&& final(visited)@.contains(node)
                &&& final(fin)@.contains_key(node)
                &&& forall|x: i64| old(visited)@.contains(x) ==> final(visited)@.contains(x)
                &&& forall|x: i64| #[trigger] old(fin)@.contains_key(x) ==>
                    final(fin)@.contains_key(x) && final(fin)@[x] == old(fin)@[x]
                &&& old(counter)@ <= final(counter)@
            },
        },
    decreases unvisited_count(universe@, old(visited)@),
{
    if vec_contains(visited, node) {
        if vec_contains(path, node) {
            let mut start: usize = 0;
            while start < path.len() && path[start] != node
                invariant
                    start <= path@.len(),
                    path@.contains(node),
                    forall|j: int| 0 <= j < start ==> path@[j] != node,
                decreases path@.len() - start,
            {
                start = start + 1;
            }
            assert(start < path@.len());
            let mut cycle: Vec<i64> = Vec::new();
            let mut k = start;
            while k < path.len()
                invariant
                    start <= k <= path@.len(),
                    cycle@ == path@.subrange(start as int, k as int),
                decreases path@.len() - k,
            {
                cycle.push(path[k]);
                k = k + 1;
                assert(cycle@ =~= path@.subrange(start as int, k as int));
            }
            proof {
                let c = cycle@;
                assert(c[0] == node);
                assert(c.last() == path@.last());
                assert forall|i: int| 0 <= i < c.len() - 1 implies has_edge(edges@, #[trigger] c[i], c[i + 1]) by {
                    assert(c[i] == path@[start + i]);
                    assert(c[i + 1] == path@[start + i + 1]);
                }
                assert forall|i: int, j: int| 0 <= i < j < c.len() implies #[trigger] c[i] != #[trigger] c[j] by {
                    assert(c[i] == path@[start + i]);
                    assert(c[j] == path@[start + j]);
                }
            }
            return Some(cycle);
        }
        return None;
    }
    let ghost entry_visited = visited@;
    let ghost entry_path = path@;
    let ghost entry_fin = fin@;
    visited.push(node);
    path.push(node);
    proof {
        assert forall|x: i64| entry_visited.contains(x) implies visited@.contains(x) by {
            let k = choose|k: int| 0 <= k < entry_visited.len() && entry_visited[k] == x;
            assert(visited@[k] == x);
        }
        assert(visited@[visited@.len() - 1] == node);
        assert forall|x: i64| fin@.contains_key(x) <==> (visited@.contains(x) && !path@.contains(x)) by {
            if path@.contains(x) && x != node {
                let k = choose|k: int| 0 <= k < path@.len() && path@[k] == x;
                assert(entry_path[k] == x);
            }
            if entry_path.contains(x) {
                let k = choose|k: int| 0 <= k < entry_path.len() && entry_path[k] == x;
                assert(path@[k] == x);
            }
            if visited@.contains(x) && x != node {
                let k = choose|k: int| 0 <= k < visited@.len() && visited@[k] == x;
                assert(entry_visited[k] == x);
            }
            assert(path@[path@.len() - 1] == node);
        }
        assert forall|i: int, j: int| 0 <= i < j < path@.len() implies #[trigger] path@[i] != #[trigger] path@[j] by {
            if j == path@.len() - 1 {
                assert(entry_visited.contains(path@[i]));
            }
        }
        assert forall|i: int| 0 <= i < path@.len() - 1 implies has_edge(edges@, #[trigger] path@[i], path@[i + 1]) by {
            if i < entry_path.len() - 1 {
                assert(path@[i] == entry_path[i] && path@[i + 1] == entry_path[i + 1]);
            }
        }
        lemma_count_strict(universe@, entry_visited, visited@, node);
    }
    let mut i: usize = 0;
    while i < edges.len()
        invariant
            i <= edges@.len(),
            dfs_inv(edges@, visited@, path@, fin@, counter@),
            path@ == entry_path.push(node),
            entry_visited == old(visited)@,
            !entry_visited.contains(node),
            visited@.contains(node),
            forall|x: i64| entry_visited.contains(x) ==> visited@.contains(x),
            forall|x: i64| #[trigger] entry_fin.contains_key(x) ==>
                fin@.contains_key(x) && fin@[x] == entry_fin[x],
            old(counter)@ <= counter@,
            unvisited_count(universe@, visited@) < unvisited_count(universe@, entry_visited),
            forall|j: int| 0 <= j < i && #[trigger] edges@[j].0 == node ==> fin@.contains_key(edges@[j].1),
            universe@.contains(node),
            forall|j: int| 0 <= j < edges@.len() ==> universe@.contains(#[trigger] edges@[j].1),
        decreases edges@.len() - i,
    {
        let (from, next) = edges[i];
        if from == node {
            proof {
                assert(edges@[i as int] == (node, next));
                assert(path@.last() == node);
            }
            let ghost before_visited = visited@;
            let ghost before_fin = fin@;
            match dfs(next, edges, visited, path, fin, counter, universe) {
                Some(c) => {
                    return Some(c);
                },
                None => {
                    proof {
                        lemma_count_mono(universe@, before_visited, visited@);
                        assert forall|j: int| 0 <= j < i + 1 && #[trigger] edges@[j].0 == node implies fin@.contains_key(edges@[j].1) by {
                            if j < i {
                                assert(before_fin.contains_key(edges@[j].1));
                            }
                        }
                    }
                },
            }
        }
        i = i + 1;
    }
    // Finish `node`: pop it and give it the next finishing number.
    path.pop();
    proof {
        let c = counter@;
        assert(path@ =~= entry_path);
        assert(!fin@.contains_key(node)) by {
            assert(path@.len() + 1 == entry_path.len() + 1);
        }
        fin@ = fin@.insert(node, c);
        counter@ = c + 1;
        assert forall|x: i64| fin@.contains_key(x) <==> (visited@.contains(x) && !path@.contains(x)) by {
            if x == node {
                assert(!entry_visited.contains(node));
                assert forall|k: int| 0 <= k < entry_path.len() implies entry_path[k] != node by {
                    assert(entry_visited.contains(entry_path[k]));
                }
            } else {
                let p2 = entry_path.push(node);
                if entry_path.contains(x) {
                    let k = choose|k: int| 0 <= k < entry_path.len() && entry_path[k] == x;
                    assert(p2[k] == x);
                }
                if p2.contains(x) {
                    let k = choose|k: int| 0 <= k < p2.len() && p2[k] == x;
                    assert(entry_path[k] == x);
                }
            }
        }
        assert forall|j: int| 0 <= j < edges@.len() && fin@.contains_key(#[trigger] edges@[j].0) implies
            fin@.contains_key(edges@[j].1) && fin@[edges@[j].1] < fin@[edges@[j].0] by {
            if edges@[j].0 == node {
                assert(fin@.insert(node, c).contains_key(edges@[j].1));
            }
        }
    }
    None
}

proof fn lemma_rank_decreases_along_cycle(fin: Map<i64, nat>, edges: Seq<(i64, i64)>, c: Seq<i64>, k: int)
    requires
        forall|j: int| 0 <= j < edges.len() && fin.contains_key(#[trigger] edges[j].0) ==>
            fin.contains_key(edges[j].1) && fin[edges[j].1] < fin[edges[j].0],
        is_cycle(c, edges),
        fin.contains_key(c[0]),
        0 <= k < c.len(),
    ensures
        fin.contains_key(c[k]),
        k > 0 ==> fin[c[k]] < fin[c[0]],
    decreases k,
{
    if k > 0 {
        lemma_rank_decreases_along_cycle(fin, edges, c, k - 1);
        assert(has_edge(edges, c[k - 1], c[k]));
        let j = choose|j: int| 0 <= j < edges.len() && edges[j] == (c[k - 1], c[k]);
        assert(fin.contains_key(edges[j].0));
    }
}

/// A finished set with a finishing order that decreases along every edge
/// holds no node of a cycle.
proof fn lemma_ranked_set_is_acyclic(s: Set<i64>, fin: Map<i64, nat>, edges: Seq<(i64, i64)>, c: Seq<i64>)
    requires
        forall|x: i64| fin.contains_key(x) <==> s.contains(x),
        forall|j: int| 0 <= j < edges.len() && fin.contains_key(#[trigger] edges[j].0) ==>
            fin.contains_key(edges[j].1) && fin[edges[j].1] < fin[edges[j].0],
        is_cycle(c, edges),
    ensures
        !s.contains(c[0]),
{
    if s.contains(c[0]) {
        lemma_rank_decreases_along_cycle(fin, edges, c, c.len() - 1);
        let j = choose|j: int| 0 <= j < edges.len() && edges[j] == (c.last(), c[0]);
        assert(fin.contains_key(edges[j].0));
    }
}

/// Detect cycles in step dependencies, searching depth-first from each
/// position in order.
///
/// `Some(c)` is a genuine cycle of `edges`, no node twice (a slice of the
/// search path). `None` means no cycle passes
/// through any step reachable from `positions`: the returned evidence is a
/// set holding every position, closed under the edges, that no cycle
/// touches.
pub fn detect_step_dependency_cycle(positions: &[i64], edges: &[(i64, i64)]) -> (r: Option<Vec<i64>>)
    ensures
        match r {
            Some(c) => is_cycle(c@, edges@) && distinct_nodes(c@),
            None => exists|s: Set<i64>|
                (forall|i: int| 0 <= i < positions@.len() ==> s.contains(#[trigger] positions@[i]))
                && closed_under(s, edges@)
                && no_cycle_through(s, edges@),
        },
{
    let mut visited: Vec<i64> = Vec::new();
    let mut path: Vec<i64> = Vec::new();
    let mut fin: Ghost<Map<i64, nat>> = Ghost(Map::empty());
    let mut counter: Ghost<nat> = Ghost(0);
    let ghost universe = positions@ + edges@.map_values(|e: (i64, i64)| e.1);
    proof {
        assert forall|j: int| 0 <= j < edges@.len() implies universe.contains(#[trigger] edges@[j].1) by {
            assert(universe[positions@.len() + j] == edges@[j].1);
        }
        assert(dfs_inv(edges@, visited@, path@, fin@, counter@));
    }
    let mut p: usize = 0;
    while p < positions.len()
        invariant
            p <= positions@.len(),
            path@.len() == 0,
            dfs_inv(edges@, visited@, path@, fin@, counter@),
            forall|i: int| 0 <= i < p ==> visited@.contains(#[trigger] positions@[i]),
            universe == positions@ + edges@.map_values(|e: (i64, i64)| e.1),
            forall|j: int| 0 <= j < edges@.len() ==> universe.contains(#[trigger] edges@[j].1),
        decreases positions@.len() - p,
    {
        let pos = positions[p];
        if !vec_contains(&visited, pos) {
            proof { assert(universe[p as int] == pos); }
            let ghost before = visited@;
            match dfs(pos, edges, &mut visited, &mut path, &mut fin, &mut counter, Ghost(universe)) {
                Some(cycle) => {
                    return Some(cycle);
                },
                None => {},
            }
        }
        p = p + 1;
    }
    proof {
        let s = Set::new(|x: i64| visited@.contains(x));
        assert forall|x: i64| fin@.contains_key(x) <==> s.contains(x) by {
            if visited@.contains(x) {
                assert(!path@.contains(x));
            }
        }
        assert(closed_under(s, edges@)) by {
            assert forall|j: int| 0 <= j < edges@.len() && s.contains(#[trigger] edges@[j].0) implies s.contains(edges@[j].1) by {
                assert(fin@.contains_key(edges@[j].0));
            }
        }
        assert forall|c: Seq<i64>| #[trigger] is_cycle(c, edges@) implies !s.contains(c[0]) by {
            lemma_ranked_set_is_acyclic(s, fin@, edges@, c);
        }
        assert(forall|i: int| 0 <= i < positions@.len() ==> s.contains(#[trigger] positions@[i]));
    }
    None
}

// ---------------------------------------------------------------------------
// Steps and the two-phase save
// ---------------------------------------------------------------------------

/// A habit step as the agent submits it. Positions are 1-indexed display
/// numbers, and `depends_on_positions` name other submitted steps.
#[derive(Debug, Clone)]
pub struct PendingHabitStep {
    pub position: i64,
    pub title: String,
    pub description: Option<String>,
    /// Start time of day, as its `HH:MM` text.
    pub start_time: String,
    /// End time of day, as its `HH:MM` text.
    pub end_time: String,
    pub avg_minutes: i64,
    pub sigma_minutes: Option<i64>,
    pub parallelizable: Option<bool>,
    pub allows_parallel: Option<bool>,
    /// Abandonability, as its wire label.
    pub abandonability: Option<String>,
    pub fixed: Option<bool>,
    pub depends_on_positions: Vec<i64>,
}

/// A habit step as the server saves it: 0-indexed position, the id of an
/// existing step (none for a new one), and the ids of the steps it depends
/// on.
#[derive(Debug, Clone)]
pub struct HabitStepInput {
    pub id: Option<String>,
    pub position: i64,
    pub title: String,
    pub description: Option<String>,
    pub start_time: String,
    pub end_time: String,
    pub avg_minutes: i64,
    pub sigma_minutes: Option<i64>,
    pub parallelizable: Option<bool>,
    pub allows_parallel: Option<bool>,
    pub abandonability: Option<String>,
    pub fixed: Option<bool>,
    pub depends_on: Vec<String>,
}

/// A saved habit step, as the server returns it.
#[derive(Debug, Clone)]
pub struct HabitStepRow {
    pub id: String,
    /// 0-indexed position.
    pub position: i64,
}

/// A submitted step's position refused when below 1.
pub fn validate_step_position(step: PendingHabitStep) -> (r: Result<PendingHabitStep, InvalidArgsError>)
    ensures
        step.position >= 1 ==> r == Ok::<PendingHabitStep, InvalidArgsError>(step),
        step.position < 1 ==> (r matches Err(InvalidArgsError::Field { field, reason })
            && field@ == "steps"@ && reason@ == "position must be >= 1"@),
{
    if step.position < 1 {
        Err(InvalidArgsError::new("steps", "position must be >= 1"))
    } else {
        Ok(step)
    }
}

/// The id a position map gives a display position (the last entry for it,
/// as a map that inserts in order keeps).
pub open spec fn id_at(m: Seq<(i64, String)>, p: i64) -> Option<Seq<char>>
    decreases m.len(),
{
    if m.len() == 0 {
        None
    } else if m.last().0 == p {
        Some(m.last().1@)
    } else {
        id_at(m.drop_last(), p)
    }
}

/// The ids of the dependencies a map knows, in order; unknown ones are
/// left out.
pub open spec fn dep_ids(m: Seq<(i64, String)>, deps: Seq<i64>) -> Seq<Seq<char>>
    decreases deps.len(),
{
    if deps.len() == 0 {
        Seq::empty()
    } else {
        let prev = dep_ids(m, deps.drop_last());
        match id_at(m, deps.last()) {
            Some(x) => prev.push(x),
            None => prev,
        }
    }
}

pub open spec fn opt_view(o: Option<String>) -> Option<Seq<char>> {
    match o {
        Some(s) => Some(s@),
        None => None,
    }
}

pub open spec fn string_views(v: Seq<String>) -> Seq<Seq<char>> {
    v.map_values(|x: String| x@)
}

/// Whether `i` is the save input of the submitted step `s` under the
/// position map `m`.
pub open spec fn input_for(i: HabitStepInput, s: PendingHabitStep, m: Seq<(i64, String)>) -> bool {
    &&& opt_view(i.id) == id_at(m, s.position)
    &&& i.position == s.position - 1
    &&& i.title@ == s.title@
    &&& opt_view(i.description) == opt_view(s.description)
    &&& i.start_time@ == s.start_time@
    &&& i.end_time@ == s.end_time@
    &&& i.avg_minutes == s.avg_minutes
    &&& i.sigma_minutes == s.sigma_minutes
    &&& i.parallelizable == s.parallelizable
    &&& i.allows_parallel == s.allows_parallel
    &&& opt_view(i.abandonability) == opt_view(s.abandonability)
    &&& i.fixed == s.fixed
    &&& string_views(i.depends_on@) == dep_ids(m, s.depends_on_positions@)
}

fn copy_opt(o: &Option<String>) -> (r: Option<String>)
    ensures
        opt_view(r) == opt_view(*o),
{
    match o {
        Some(s) => Some(string_of(s.as_str())),
        None => None,
    }
}

fn lookup_id(m: &[(i64, String)], p: i64) -> (r: Option<String>)
    ensures
        opt_view(r) == id_at(m@, p),
{
    let mut n = m.len();
    assert(m@.subrange(0, n as int) =~= m@);
    while n > 0
        invariant
            n <= m@.len(),
            id_at(m@, p) == id_at(m@.subrange(0, n as int), p),
        decreases n,
    {
        proof {
            assert(m@.subrange(0, n as int).drop_last() =~= m@.subrange(0, n - 1));
        }
        if m[n - 1].0 == p {
            return Some(string_of(m[n - 1].1.as_str()));
        }
        n -= 1;
    }
    None
}

/// The save inputs of the submitted steps under the position map: each step
/// gets the id its position has (if any), a 0-indexed position, and the
/// ids of its dependencies that the map knows.
pub fn build_habit_step_inputs(pending: &[PendingHabitStep], position_to_id: &[(i64, String)]) -> (r: Vec<HabitStepInput>)
    requires
        forall|i: int| 0 <= i < pending@.len() ==> (#[trigger] pending@[i]).position > i64::MIN,
    ensures
        r@.len() == pending@.len(),
        forall|i: int| 0 <= i < pending@.len() ==> input_for(#[trigger] r@[i], pending@[i], position_to_id@),
{
    let mut out: Vec<HabitStepInput> = Vec::new();
    let mut i: usize = 0;
    while i < pending.len()
        invariant
            i <= pending@.len(),
            forall|k: int| 0 <= k < pending@.len() ==> (#[trigger] pending@[k]).position > i64::MIN,
            out@.len() == i,
            forall|k: int| 0 <= k < i ==> input_for(#[trigger] out@[k], pending@[k], position_to_id@),
        decreases pending@.len() - i,
    {
        let s = &pending[i];
        let mut deps: Vec<String> = Vec::new();
        let mut j: usize = 0;
        while j < s.depends_on_positions.len()
            invariant
                j <= s.depends_on_positions@.len(),
                string_views(deps@) == dep_ids(position_to_id@, s.depends_on_positions@.subrange(0, j as int)),
            decreases s.depends_on_positions@.len() - j,
        {
            proof {
                let t = s.depends_on_positions@.subrange(0, j as int + 1);
                assert(t.drop_last() =~= s.depends_on_positions@.subrange(0, j as int));
            }
            match lookup_id(position_to_id, s.depends_on_positions[j]) {
                Some(id) => {
                    let ghost before = string_views(deps@);
                    deps.push(id);
                    assert(string_views(deps@) =~= before.push(deps@.last()@));
                },
                None => {},
            }
            j += 1;
        }
        assert(s.depends_on_positions@.subrange(0, s.depends_on_positions@.len() as int) =~= s.depends_on_positions@);
        let input = HabitStepInput {
            id: lookup_id(position_to_id, s.position),
            position: s.position - 1,
            title: string_of(s.title.as_str()),
            description: copy_opt(&s.description),
            start_time: string_of(s.start_time.as_str()),
            end_time: string_of(s.end_time.as_str()),
            avg_minutes: s.avg_minutes,
            sigma_minutes: s.sigma_minutes,
            parallelizable: s.parallelizable,
            allows_parallel: s.allows_parallel,
            abandonability: copy_opt(&s.abandonability),
            fixed: s.fixed,
            depends_on: deps,
        };
        out.push(input);
        i += 1;
    }
    out
}

/// The position map of saved rows: display position (row position + 1) to
/// id, in order.
pub open spec fn rows_map(rows: Seq<HabitStepRow>) -> Seq<(i64, String)> {
    rows.map_values(|r: HabitStepRow| ((r.position + 1) as i64, r.id))
}

pub open spec fn views_of_map(m: Seq<(i64, String)>) -> Seq<(i64, Seq<char>)> {
    m.map_values(|e: (i64, String)| (e.0, e.1@))
}

proof fn lemma_id_at_views(a: Seq<(i64, String)>, b: Seq<(i64, String)>, p: i64)
    requires
        views_of_map(a) == views_of_map(b),
    ensures
        id_at(a, p) == id_at(b, p),
    decreases a.len(),
{
    assert(a.len() == views_of_map(a).len());
    assert(b.len() == views_of_map(b).len());
    if a.len() > 0 {
        assert(views_of_map(a.drop_last()) =~= views_of_map(a).drop_last());
        assert(views_of_map(b.drop_last()) =~= views_of_map(b).drop_last());
        assert(views_of_map(a)[a.len() - 1] == (a.last().0, a.last().1@));
        assert(views_of_map(b)[b.len() - 1] == (b.last().0, b.last().1@));
        lemma_id_at_views(a.drop_last(), b.drop_last(), p);
    }
}

proof fn lemma_dep_ids_views(a: Seq<(i64, String)>, b: Seq<(i64, String)>, deps: Seq<i64>)
    requires
        views_of_map(a) == views_of_map(b),
    ensures
        dep_ids(a, deps) == dep_ids(b, deps),
    decreases deps.len(),
{
    if deps.len() > 0 {
        lemma_dep_ids_views(a, b, deps.drop_last());
        lemma_id_at_views(a, b, deps.last());
    }
}

/// The position map of the rows the server returned.
pub fn existing_position_map(rows: &[HabitStepRow]) -> (r: Vec<(i64, String)>)
    requires
        forall|i: int| 0 <= i < rows@.len() ==> (#[trigger] rows@[i]).position < i64::MAX,
    ensures
        views_of_map(r@) == views_of_map(rows_map(rows@)),
{
    let mut out: Vec<(i64, String)> = Vec::new();
    let mut i: usize = 0;
    while i < rows.len()
        invariant
            i <= rows@.len(),
            forall|k: int| 0 <= k < rows@.len() ==> (#[trigger] rows@[k]).position < i64::MAX,
            views_of_map(out@) == views_of_map(rows_map(rows@.subrange(0, i as int))),
        decreases rows@.len() - i,
    {
        let ghost before = out@;
        out.push((rows[i].position + 1, string_of(rows[i].id.as_str())));
        proof {
            assert(rows_map(rows@.subrange(0, i as int + 1)) =~= rows_map(rows@.subrange(0, i as int)).push(((rows@[i as int].position + 1) as i64, rows@[i as int].id)));
            assert(views_of_map(out@) =~= views_of_map(before).push(((rows@[i as int].position + 1) as i64, rows@[i as int].id@)));
            assert(views_of_map(rows_map(rows@.subrange(0, i as int + 1))) =~= views_of_map(rows_map(rows@.subrange(0, i as int))).push(((rows@[i as int].position + 1) as i64, rows@[i as int].id@)));
        }
        i += 1;
    }
    assert(rows@.subrange(0, rows@.len() as int) =~= rows@);
    out
}

/// Whether a dependency of some submitted step has no id in the map.
pub open spec fn needs_phase2(pending: Seq<PendingHabitStep>, m: Seq<(i64, String)>) -> bool {
    exists|i: int, k: int| 0 <= i < pending.len() && 0 <= k < pending[i].depends_on_positions@.len()
        && id_at(m, #[trigger] pending[i].depends_on_positions@[k]) is None
}

/// The second save after a first one returned `rows`: none when every
/// dependency already had an id; an error when the server did not return a
/// row for every submitted position; otherwise the inputs with the new ids.
pub fn phase2_inputs_for_response(
    pending: &[PendingHabitStep],
    phase1_position_to_id: &[(i64, String)],
    response_rows: &[HabitStepRow],
) -> (r: Option<Result<Vec<HabitStepInput>, ToolError>>)
    requires
        forall|i: int| 0 <= i < pending@.len() ==> (#[trigger] pending@[i]).position > i64::MIN,
        forall|i: int| 0 <= i < response_rows@.len() ==> (#[trigger] response_rows@[i]).position < i64::MAX,
    ensures
        !needs_phase2(pending@, phase1_position_to_id@) ==> r is None,
        needs_phase2(pending@, phase1_position_to_id@) ==> {
            let m = rows_map(response_rows@);
            if exists|i: int| 0 <= i < pending@.len() && id_at(m, (#[trigger] pending@[i]).position) is None {
                r matches Some(Err(ToolError::Other(t))) && t@ == "server did not return all submitted steps"@
            } else {
                r matches Some(Ok(inputs)) && inputs@.len() == pending@.len()
                    && forall|i: int| 0 <= i < pending@.len() ==> input_for(#[trigger] inputs@[i], pending@[i], m)
            }
        },
{
    let mut needed = false;
    let mut i: usize = 0;
    while i < pending.len() && !needed
        invariant
            i <= pending@.len(),
            needed ==> needs_phase2(pending@, phase1_position_to_id@),
            !needed ==> forall|a: int, k: int| 0 <= a < i && 0 <= k < pending@[a].depends_on_positions@.len()
                ==> id_at(phase1_position_to_id@, #[trigger] pending@[a].depends_on_positions@[k]) is Some,
        decreases pending@.len() - i,
    {
        let s = &pending[i];
        let mut j: usize = 0;
        while j < s.depends_on_positions.len() && !needed
            invariant
                i < pending@.len(),
                *s == pending@[i as int],
                j <= s.depends_on_positions@.len(),
                needed ==> needs_phase2(pending@, phase1_position_to_id@),
                !needed ==> forall|k: int| 0 <= k < j ==> id_at(phase1_position_to_id@, #[trigger] s.depends_on_positions@[k]) is Some,
            decreases s.depends_on_positions@.len() - j,
        {
            if lookup_id(phase1_position_to_id, s.depends_on_positions[j]).is_none() {
                needed = true;
                assert(id_at(phase1_position_to_id@, pending@[i as int].depends_on_positions@[j as int]) is None);
            }
            j += 1;
        }
        i += 1;
    }
    if !needed {
        return None;
    }
    let map = existing_position_map(response_rows);
    let ghost m = rows_map(response_rows@);
    let mut k: usize = 0;
    while k < pending.len()
        invariant
            k <= pending@.len(),
            needs_phase2(pending@, phase1_position_to_id@),
            m == rows_map(response_rows@),
            forall|a: int| 0 <= a < pending@.len() ==> (#[trigger] pending@[a]).position > i64::MIN,
            views_of_map(map@) == views_of_map(m),
            forall|a: int| 0 <= a < k ==> id_at(m, (#[trigger] pending@[a]).position) is Some,
        decreases pending@.len() - k,
    {
        proof {
            lemma_id_at_views(map@, m, pending@[k as int].position);
        }
        if lookup_id(map.as_slice(), pending[k].position).is_none() {
            assert(id_at(m, pending@[k as int].position) is None);
            return Some(Err(ToolError::Other(string_of("server did not return all submitted steps"))));
        }
        k += 1;
    }
    let inputs = build_habit_step_inputs(pending, map.as_slice());
    proof {
        assert forall|a: int| 0 <= a < pending@.len() implies input_for(#[trigger] inputs@[a], pending@[a], m) by {
            lemma_id_at_views(map@, m, pending@[a].position);
            lemma_dep_ids_views(map@, m, pending@[a].depends_on_positions@);
        }
    }
    Some(Ok(inputs))
}

// ---------------------------------------------------------------------------
// Validating a submitted step list
// ---------------------------------------------------------------------------

/// Whether some step among the first `n` has display position `p`.
pub open spec fn submitted_in(ps: Seq<PendingHabitStep>, p: i64, n: int) -> bool {
    exists|i: int| 0 <= i < n && (#[trigger] ps[i]).position == p
}

/// The index of the first step whose position an earlier step has.
pub open spec fn first_duplicate(ps: Seq<PendingHabitStep>, n: int) -> Option<int>
    decreases n,
{
    if n <= 0 {
        None
    } else {
        match first_duplicate(ps, n - 1) {
            Some(j) => Some(j),
            None => if submitted_in(ps, ps[n - 1].position, n - 1) { Some(n - 1) } else { None },
        }
    }
}

/// The first of the first `k` dependencies that names no submitted step.
pub open spec fn missing_in(ps: Seq<PendingHabitStep>, deps: Seq<i64>, k: int) -> Option<i64>
    decreases k,
{
    if k <= 0 {
        None
    } else {
        match missing_in(ps, deps, k - 1) {
            Some(d) => Some(d),
            None => if submitted_in(ps, deps[k - 1], ps.len() as int) { None } else { Some(deps[k - 1]) },
        }
    }
}

/// The first dependency, in step order, that names no submitted step.
pub open spec fn first_missing_dep(ps: Seq<PendingHabitStep>, n: int) -> Option<i64>
    decreases n,
{
    if n <= 0 {
        None
    } else {
        match first_missing_dep(ps, n - 1) {
            Some(d) => Some(d),
            None => missing_in(ps, ps[n - 1].depends_on_positions@, ps[n - 1].depends_on_positions@.len() as int),
        }
    }
}

/// The dependency edges `(step, dependency)` of the first `n` steps, in
/// order.
pub open spec fn dependency_edges(ps: Seq<PendingHabitStep>, n: int) -> Seq<(i64, i64)>
    decreases n,
{
    if n <= 0 {
        Seq::empty()
    } else {
        dependency_edges(ps, n - 1)
            + ps[n - 1].depends_on_positions@.map_values(|d: i64| (ps[n - 1].position, d))
    }
}

/// The positions of the steps, in order.
pub open spec fn step_positions(ps: Seq<PendingHabitStep>) -> Seq<i64> {
    ps.map_values(|s: PendingHabitStep| s.position)
}

/// `[a, b, c]`, as `{:?}` writes a list of integers.
pub open spec fn list_text(c: Seq<i64>) -> Seq<char> {
    "["@ + list_items(c) + "]"@
}

pub open spec fn list_items(c: Seq<i64>) -> Seq<char>
    decreases c.len(),
{
    if c.len() == 0 {
        Seq::empty()
    } else if c.len() == 1 {
        int_digits(c[0] as int)
    } else {
        list_items(c.drop_last()) + ", "@ + int_digits(c.last() as int)
    }
}

fn list_text_exec(c: &Vec<i64>) -> (r: String)
    ensures
        r@ == list_text(c@),
{
    let mut items = String::new();
    let mut i: usize = 0;
    while i < c.len()
        invariant
            i <= c@.len(),
            items@ == list_items(c@.subrange(0, i as int)),
        decreases c@.len() - i,
    {
        proof {
            let t = c@.subrange(0, i as int + 1);
            assert(t.drop_last() =~= c@.subrange(0, i as int));
        }
        if i > 0 {
            append_str(&mut items, ", ");
        }
        let d = i64_to_string(c[i]);
        append_str(&mut items, d.as_str());
        proof {
            if i == 0 {
                assert(c@.subrange(0, 1) =~= seq![c@[0]]);
            }
        }
        i += 1;
    }
    assert(c@.subrange(0, c@.len() as int) =~= c@);
    let mut r = string_of("[");
    append_str(&mut r, items.as_str());
    append_str(&mut r, "]");
    r
}

fn submitted_exec(ps: &[PendingHabitStep], p: i64, n: usize) -> (r: bool)
    requires
        n <= ps@.len(),
    ensures
        r == submitted_in(ps@, p, n as int),
{
    let mut i: usize = 0;
    while i < n
        invariant
            n <= ps@.len(),
            i <= n,
            forall|k: int| 0 <= k < i ==> (#[trigger] ps@[k]).position != p,
        decreases n - i,
    {
        if ps[i].position == p {
            return true;
        }
        i += 1;
    }
    false
}

proof fn lemma_edge_sources_submitted(ps: Seq<PendingHabitStep>, n: int, j: int)
    requires
        0 <= n <= ps.len(),
        0 <= j < dependency_edges(ps, n).len(),
    ensures
        submitted_in(ps, dependency_edges(ps, n)[j].0, ps.len() as int),
    decreases n,
{
    let prev = dependency_edges(ps, n - 1);
    let step = ps[n - 1].depends_on_positions@.map_values(|d: i64| (ps[n - 1].position, d));
    if j < prev.len() {
        assert(dependency_edges(ps, n)[j] == prev[j]);
        lemma_edge_sources_submitted(ps, n - 1, j);
    } else {
        assert(dependency_edges(ps, n)[j] == step[j - prev.len()]);
        assert(ps[n - 1].position == dependency_edges(ps, n)[j].0);
    }
}

/// Check a submitted step list: positions are unique, every dependency
/// names a submitted step, and the dependencies have no cycle.
pub fn validate_habit_steps(pending: &[PendingHabitStep]) -> (r: Result<(), InvalidArgsError>)
    ensures
        ({
            let ps = pending@;
            let n = ps.len() as int;
            match first_duplicate(ps, n) {
                Some(j) => r matches Err(InvalidArgsError::Field { field, reason }) && field@ == "steps"@
                    && reason@ == "duplicate position "@ + int_digits(ps[j].position as int),
                None => match first_missing_dep(ps, n) {
                    Some(d) => r matches Err(InvalidArgsError::Field { field, reason }) && field@ == "steps"@
                        && reason@ == "depends_on position "@ + int_digits(d as int) + " not found in submitted steps"@,
                    None => match r {
                        Ok(_) => forall|c: Seq<i64>| !is_cycle(c, dependency_edges(ps, n)),
                        Err(InvalidArgsError::Field { field, reason }) => field@ == "steps"@ && exists|c: Seq<i64>|
                            is_cycle(c, dependency_edges(ps, n)) && distinct_nodes(c)
                            && reason@ == "dependency cycle detected among positions "@ + list_text(c),
                        Err(InvalidArgsError::NoField { .. }) => false,
                    },
                },
            }
        }),
{
    let ghost ps = pending@;
    let n = pending.len();
    let mut i: usize = 0;
    while i < n
        invariant
            n == ps.len(),
            ps == pending@,
            i <= n,
            first_duplicate(ps, i as int) is None,
        decreases n - i,
    {
        if submitted_exec(pending, pending[i].position, i) {
            let mut reason = string_of("duplicate position ");
            let d = i64_to_string(pending[i].position);
            append_str(&mut reason, d.as_str());
            assert(first_duplicate(ps, i as int + 1) == Some(i as int));
            proof {
                lemma_first_duplicate_stays(ps, i as int + 1, n as int);
            }
            return Err(InvalidArgsError::Field { field: string_of("steps"), reason });
        }
        i += 1;
    }
    let mut edges: Vec<(i64, i64)> = Vec::new();
    let mut a: usize = 0;
    while a < n
        invariant
            n == ps.len(),
            ps == pending@,
            a <= n,
            first_duplicate(ps, n as int) is None,
            first_missing_dep(ps, a as int) is None,
            edges@ == dependency_edges(ps, a as int),
        decreases n - a,
    {
        let deps = &pending[a].depends_on_positions;
        let ghost dv = deps@;
        let mut k: usize = 0;
        let ghost base = edges@;
        while k < deps.len()
            invariant
                n == ps.len(),
                ps == pending@,
                a < n,
                first_duplicate(ps, n as int) is None,
                first_missing_dep(ps, a as int) is None,
                dv == ps[a as int].depends_on_positions@,
                *deps == pending@[a as int].depends_on_positions,
                k <= dv.len(),
                missing_in(ps, dv, k as int) is None,
                edges@ == base + dv.subrange(0, k as int).map_values(|d: i64| (ps[a as int].position, d)),
            decreases dv.len() - k,
        {
            let dep = deps[k];
            if !submitted_exec(pending, dep, n) {
                let mut reason = string_of("depends_on position ");
                let d = i64_to_string(dep);
                append_str(&mut reason, d.as_str());
                append_str(&mut reason, " not found in submitted steps");
                assert(missing_in(ps, dv, k as int + 1) == Some(dep));
                proof {
                    lemma_missing_in_stays(ps, dv, k as int + 1, dv.len() as int);
                    assert(first_missing_dep(ps, a as int + 1) == Some(dep));
                    lemma_first_missing_stays(ps, a as int + 1, n as int);
                }
                return Err(InvalidArgsError::Field { field: string_of("steps"), reason });
            }
            edges.push((pending[a].position, dep));
            proof {
                assert(dv.subrange(0, k as int + 1).map_values(|d: i64| (ps[a as int].position, d))
                    =~= dv.subrange(0, k as int).map_values(|d: i64| (ps[a as int].position, d)).push((ps[a as int].position, dep)));
            }
            k += 1;
        }
        proof {
            assert(dv.subrange(0, dv.len() as int) =~= dv);
            assert(dependency_edges(ps, a as int + 1) =~= base + dv.map_values(|d: i64| (ps[a as int].position, d)));
        }
        a += 1;
    }
    let mut positions: Vec<i64> = Vec::new();
    let mut b: usize = 0;
    while b < n
        invariant
            n == ps.len(),
            ps == pending@,
            b <= n,
            positions@ == step_positions(ps).subrange(0, b as int),
        decreases n - b,
    {
        positions.push(pending[b].position);
        proof {
            assert(step_positions(ps).subrange(0, b as int + 1) =~= step_positions(ps).subrange(0, b as int).push(ps[b as int].position));
        }
        b += 1;
    }
    match detect_step_dependency_cycle(positions.as_slice(), edges.as_slice()) {
        Some(cycle) => {
            let mut reason = string_of("dependency cycle detected among positions ");
            let t = list_text_exec(&cycle);
            append_str(&mut reason, t.as_str());
            Err(InvalidArgsError::Field { field: string_of("steps"), reason })
        },
        None => {
            proof {
                let es = dependency_edges(ps, n as int);
                let s = choose|s: Set<i64>|
                    (forall|i: int| 0 <= i < positions@.len() ==> s.contains(#[trigger] positions@[i]))
                    && closed_under(s, es)
                    && no_cycle_through(s, es);
                assert forall|c: Seq<i64>| !is_cycle(c, es) by {
                    if is_cycle(c, es) {
                        let j = if c.len() > 1 {
                            choose|j: int| 0 <= j < es.len() && es[j] == (c[0], c[1])
                        } else {
                            choose|j: int| 0 <= j < es.len() && es[j] == (c.last(), c[0])
                        };
                        if c.len() > 1 {
                            assert(has_edge(es, c[0], c[1]));
                        }
                        lemma_edge_sources_submitted(ps, n as int, j);
                        let i = choose|i: int| 0 <= i < ps.len() && (#[trigger] ps[i]).position == es[j].0;
                        assert(positions@[i] == ps[i].position);
                        assert(s.contains(c[0]));
                    }
                }
            }
            Ok(())
        },
    }
}

proof fn lemma_first_duplicate_stays(ps: Seq<PendingHabitStep>, m: int, n: int)
    requires
        0 < m <= n,
        first_duplicate(ps, m) is Some,
    ensures
        first_duplicate(ps, n) == first_duplicate(ps, m),
    decreases n - m,
{
    if m < n {
        lemma_first_duplicate_stays(ps, m, n - 1);
    }
}

proof fn lemma_missing_in_stays(ps: Seq<PendingHabitStep>, deps: Seq<i64>, m: int, n: int)
    requires
        0 < m <= n,
        missing_in(ps, deps, m) is Some,
    ensures
        missing_in(ps, deps, n) == missing_in(ps, deps, m),
    decreases n - m,
{
    if m < n {
        lemma_missing_in_stays(ps, deps, m, n - 1);
    }
}

proof fn lemma_first_missing_stays(ps: Seq<PendingHabitStep>, m: int, n: int)
    requires
        0 < m <= n,
        first_missing_dep(ps, m) is Some,
    ensures
        first_missing_dep(ps, n) == first_missing_dep(ps, m),
    decreases n - m,
{
    if m < n {
        lemma_first_missing_stays(ps, m, n - 1);
    }
}

} // verus!
