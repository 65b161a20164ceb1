//! Dependencies between subtasks: cycle detection before a dependency is
//! added, and whether a subtask's dependencies are met.
use crate::models::TaskDependency;
use crate::text::str_eq;
use vstd::prelude::*;

verus! {

broadcast use vstd::string::group_string_axioms;

/// The edges of the dependency graph: `(subtask, depends_on)`.
pub open spec fn dep_edges(deps: Seq<TaskDependency>) -> Seq<(i64, i64)> {
    deps.map_values(|d: TaskDependency| (d.subtask_id, d.depends_on_id))
}

/// `p` is a walk along the edges (one node or more).
pub open spec fn is_walk(edges: Seq<(i64, i64)>, p: Seq<i64>) -> bool {
    &&& p.len() >= 1
    &&& forall|i: int| 0 <= i < p.len() - 1 ==> #[trigger] edges.contains((p[i], p[i + 1]))
}

/// `b` can be reached from `a` by following dependencies (zero steps or more).
pub open spec fn reaches(edges: Seq<(i64, i64)>, a: i64, b: i64) -> bool {
    exists|p: Seq<i64>| is_walk(edges, p) && p[0] == a && p.last() == b
}

/// `b` can be reached from `a` in one step or more.
pub open spec fn reaches_plus(edges: Seq<(i64, i64)>, a: i64, b: i64) -> bool {
    exists|p: Seq<i64>| is_walk(edges, p) && p.len() >= 2 && p[0] == a && p.last() == b
}

/// Some node reaches itself in one step or more.
pub open spec fn cyclic(edges: Seq<(i64, i64)>) -> bool {
    exists|x: i64| reaches_plus(edges, x, x)
}

/// Every node reaches itself.
pub proof fn lemma_reaches_refl(edges: Seq<(i64, i64)>, a: i64)
    ensures
        reaches(edges, a, a),
{
    let p = seq![a];
    assert(is_walk(edges, p));
    assert(p[0] == a && p.last() == a);
}

/// A walk extended by one edge.
pub proof fn lemma_reaches_step(edges: Seq<(i64, i64)>, a: i64, b: i64, c: i64)
    requires
        reaches(edges, a, b),
        edges.contains((b, c)),
    ensures
        reaches(edges, a, c),
        reaches_plus(edges, a, c),
{
    let p = choose|p: Seq<i64>| is_walk(edges, p) && p[0] == a && p.last() == b;
    let q = p.push(c);
    assert forall|i: int| 0 <= i < q.len() - 1 implies #[trigger] edges.contains((q[i], q[i + 1])) by {
        if i < p.len() - 1 {
            assert(q[i] == p[i] && q[i + 1] == p[i + 1]);
            assert(edges.contains((p[i], p[i + 1])));
        } else {
            assert(q[i] == b && q[i + 1] == c);
        }
    }
    assert(is_walk(edges, q));
    assert(q[0] == a && q.last() == c);
}

/// A set closed under the edges that holds `a` holds every node `a` reaches.
proof fn lemma_closed_holds_reached(edges: Seq<(i64, i64)>, set: Seq<i64>, a: i64, b: i64)
    requires
        set.contains(a),
        forall|x: i64, y: i64| set.contains(x) && #[trigger] edges.contains((x, y)) ==> set.contains(y),
        reaches(edges, a, b),
    ensures
        set.contains(b),
{
    let p = choose|p: Seq<i64>| is_walk(edges, p) && p[0] == a && p.last() == b;
    lemma_closed_holds_walk(edges, set, p, p.len() - 1);
}

proof fn lemma_closed_holds_walk(edges: Seq<(i64, i64)>, set: Seq<i64>, p: Seq<i64>, i: int)
    requires
        is_walk(edges, p),
        set.contains(p[0]),
        forall|x: i64, y: i64| set.contains(x) && #[trigger] edges.contains((x, y)) ==> set.contains(y),
        0 <= i < p.len(),
    ensures
        set.contains(p[i]),
    decreases i,
{
    if i > 0 {
        lemma_closed_holds_walk(edges, set, p, i - 1);
        let j = i - 1;
        assert(edges.contains((p[j], p[j + 1])));
    }
}

/// How many edges leave a node of `set`.
pub open spec fn edges_from(edges: Seq<(i64, i64)>, set: Seq<i64>) -> nat
    decreases edges.len(),
{
    if edges.len() == 0 {
        0
    } else {
        edges_from(edges.drop_last(), set) + if set.contains(edges.last().0) {
            1nat
        } else {
            0nat
        }
    }
}

/// How many edges leave `v`.
pub open spec fn out_degree(edges: Seq<(i64, i64)>, v: i64) -> nat
    decreases edges.len(),
{
    if edges.len() == 0 {
        0
    } else {
        out_degree(edges.drop_last(), v) + if edges.last().0 == v {
            1nat
        } else {
            0nat
        }
    }
}

proof fn lemma_edges_from_bound(edges: Seq<(i64, i64)>, set: Seq<i64>)
    ensures
        edges_from(edges, set) <= edges.len(),
    decreases edges.len(),
{
    if edges.len() > 0 {
        lemma_edges_from_bound(edges.drop_last(), set);
    }
}

proof fn lemma_edges_from_push(edges: Seq<(i64, i64)>, set: Seq<i64>, v: i64)
    requires
        !set.contains(v),
    ensures
        edges_from(edges, set.push(v)) == edges_from(edges, set) + out_degree(edges, v),
    decreases edges.len(),
{
    if edges.len() > 0 {
        lemma_edges_from_push(edges.drop_last(), set, v);
        let x = edges.last().0;
        if set.push(v).contains(x) && x != v {
            let k = choose|k: int| 0 <= k < set.push(v).len() && set.push(v)[k] == x;
            assert(set[k] == x);
        }
        if set.contains(x) {
            let k = choose|k: int| 0 <= k < set.len() && set[k] == x;
            assert(set.push(v)[k] == x);
        }
        if x == v {
            assert(set.push(v)[set.len() as int] == v);
        }
    }
}

proof fn lemma_out_degree_prefix(edges: Seq<(i64, i64)>, v: i64, j: int)
    requires
        0 <= j < edges.len(),
    ensures
        out_degree(edges.take(j + 1), v) == out_degree(edges.take(j), v) + if edges[j].0 == v {
            1nat
        } else {
            0nat
        },
{
    assert(edges.take(j + 1).drop_last() =~= edges.take(j));
}

fn contains_id(v: &Vec<i64>, x: i64) -> (b: bool)
    ensures
        b == v@.contains(x),
{
    let mut k: usize = 0;
    while k < v.len()
        invariant
            k <= v@.len(),
            forall|i: int| 0 <= i < k ==> v@[i] != x,
        decreases v@.len() - k,
    {
        if v[k] == x {
            return true;
        }
        k = k + 1;
    }
    false
}

/// Whether making `subtask_id` depend on `depends_on_id` would close a
/// cycle: walks the existing dependencies depth first from
/// `depends_on_id` and answers whether `subtask_id` is reached.
pub fn has_circular_dependency(deps: &Vec<TaskDependency>, subtask_id: i64, depends_on_id: i64) -> (r:
    bool)
    ensures
        r == reaches(dep_edges(deps@), depends_on_id, subtask_id),
{
    let ghost edges = dep_edges(deps@);
    let mut visited: Vec<i64> = Vec::new();
    let mut stack: Vec<i64> = vec![depends_on_id];
    proof {
        lemma_reaches_refl(edges, depends_on_id);
        lemma_edges_from_bound(edges, visited@);
        assert(stack@[0] == depends_on_id);
    }
    while stack.len() > 0
        invariant
            edges == dep_edges(deps@),
            edges.len() == deps@.len(),
            forall|i: int| 0 <= i < stack@.len() ==> reaches(edges, depends_on_id, #[trigger] stack@[i]),
            forall|i: int| 0 <= i < visited@.len() ==> reaches(edges, depends_on_id, #[trigger] visited@[i]),
            !visited@.contains(subtask_id),
            visited@.contains(depends_on_id) || stack@.contains(depends_on_id),
            forall|x: i64, y: i64|
                visited@.contains(x) && #[trigger] edges.contains((x, y)) ==> visited@.contains(y)
                    || stack@.contains(y),
            edges_from(edges, visited@) <= edges.len(),
        decreases edges.len() - edges_from(edges, visited@), stack@.len(),
    {
        let ghost old_stack = stack@;
        let current = stack.pop().unwrap();
        proof {
            assert(old_stack =~= stack@.push(current));
            assert(old_stack[old_stack.len() - 1] == current);
        }
        if current == subtask_id {
            return true;
        }
        let seen = contains_id(&visited, current);
        if seen {
            proof {
                assert forall|x: i64, y: i64|
                    visited@.contains(x) && #[trigger] edges.contains((x, y)) implies visited@.contains(y)
                        || stack@.contains(y) by {
                    if !visited@.contains(y) {
                        assert(old_stack.contains(y));
                        let w = choose|w: int| 0 <= w < old_stack.len() && old_stack[w] == y;
                        if w < stack@.len() {
                            assert(stack@[w] == y);
                        }
                    }
                }
                if !visited@.contains(depends_on_id) {
                    let w = choose|w: int| 0 <= w < old_stack.len() && old_stack[w] == depends_on_id;
                    if w < stack@.len() {
                        assert(stack@[w] == depends_on_id);
                    }
                }
                assert forall|i: int| 0 <= i < stack@.len() implies reaches(
                    edges,
                    depends_on_id,
                    #[trigger] stack@[i],
                ) by {
                    assert(old_stack[i] == stack@[i]);
                }
            }
            continue;
        }
        let ghost before_visit = visited@;
        let ghost before_stack = stack@;
        proof {
            assert(reaches(edges, depends_on_id, current)) by {
                assert(old_stack[old_stack.len() - 1] == current);
            }
            lemma_edges_from_push(edges, visited@, current);
        }
        visited.push(current);
        proof {
            lemma_edges_from_bound(edges, visited@);
            assert(visited@.last() == current);
        }
        let mut j: usize = 0;
        while j < deps.len()
            invariant
                edges == dep_edges(deps@),
                edges.len() == deps@.len(),
                j <= deps@.len(),
                stack@.len() == before_stack.len() + out_degree(edges.take(j as int), current),
                forall|i: int| 0 <= i < before_stack.len() ==> stack@[i] == before_stack[i],
                forall|i: int| 0 <= i < stack@.len() ==> reaches(edges, depends_on_id, #[trigger] stack@[i]),
                reaches(edges, depends_on_id, current),
                forall|i: int| 0 <= i < j && (#[trigger] edges[i]).0 == current ==> stack@.contains(edges[i].1),
            decreases deps@.len() - j,
        {
            proof {
                lemma_out_degree_prefix(edges, current, j as int);
                assert(edges[j as int] == (deps@[j as int].subtask_id, deps@[j as int].depends_on_id));
            }
            if deps[j].subtask_id == current {
                let ghost prev = stack@;
                let target = deps[j].depends_on_id;
                stack.push(target);
                proof {
                    assert(edges.contains((current, target))) by {
                        assert(edges[j as int] == (current, target));
                    }
                    lemma_reaches_step(edges, depends_on_id, current, target);
                    assert forall|i: int| 0 <= i < j && (#[trigger] edges[i]).0 == current implies stack@.contains(
                        edges[i].1,
                    ) by {
                        let w = choose|w: int| 0 <= w < prev.len() && prev[w] == edges[i].1;
                        assert(stack@[w] == prev[w]);
                    }
                    assert(stack@[prev.len() as int] == target);
                }
            }
            j = j + 1;
        }
        proof {
            assert(edges.take(edges.len() as int) =~= edges);
            assert forall|x: i64, y: i64|
                visited@.contains(x) && #[trigger] edges.contains((x, y)) implies visited@.contains(y)
                    || stack@.contains(y) by {
                let w = choose|w: int| 0 <= w < edges.len() && edges[w] == (x, y);
                if x == current {
                    assert(edges[w].0 == current);
                    assert(stack@.contains(edges[w].1));
                } else {
                    let vx = choose|v: int| 0 <= v < visited@.len() && visited@[v] == x;
                    assert(vx < before_visit.len());
                    assert(before_visit[vx] == x);
                    assert(before_visit.contains(x));
                    if !before_visit.contains(y) {
                        assert(old_stack.contains(y));
                        let s = choose|s: int| 0 <= s < old_stack.len() && old_stack[s] == y;
                        if s < before_stack.len() {
                            assert(stack@[s] == y);
                        } else {
                            assert(y == current);
                            assert(visited@[before_visit.len() as int] == y);
                        }
                    } else {
                        let s = choose|s: int| 0 <= s < before_visit.len() && before_visit[s] == y;
                        assert(visited@[s] == y);
                    }
                }
            }
            if !before_visit.contains(depends_on_id) {
                let s = choose|s: int| 0 <= s < old_stack.len() && old_stack[s] == depends_on_id;
                if s < before_stack.len() {
                    assert(stack@[s] == depends_on_id);
                } else {
                    assert(visited@[before_visit.len() as int] == depends_on_id);
                }
            } else {
                let s = choose|s: int| 0 <= s < before_visit.len() && before_visit[s] == depends_on_id;
                assert(visited@[s] == depends_on_id);
            }
            assert forall|i: int| 0 <= i < visited@.len() implies reaches(
                edges,
                depends_on_id,
                #[trigger] visited@[i],
            ) by {
                if i < before_visit.len() {
                    assert(visited@[i] == before_visit[i]);
                }
            }
            if visited@.contains(subtask_id) {
                let s = choose|s: int| 0 <= s < visited@.len() && visited@[s] == subtask_id;
                if s < before_visit.len() {
                    assert(before_visit[s] == subtask_id);
                }
            }
        }
    }
    proof {
        if reaches(edges, depends_on_id, subtask_id) {
            lemma_closed_holds_reached(edges, visited@, depends_on_id, subtask_id);
        }
    }
    false
}

/// The status recorded for subtask `id`: the first row for it.
pub open spec fn status_of(statuses: Seq<(i64, String)>, id: i64) -> Option<Seq<char>>
    decreases statuses.len(),
{
    if statuses.len() == 0 {
        None
    } else if statuses[0].0 == id {
        Some(statuses[0].1@)
    } else {
        status_of(statuses.drop_first(), id)
    }
}

/// Whether the finish-to-start dependencies of `subtask_id` are met, taking
/// them in order: each needs its subtask completed; other kinds are
/// ignored. `None` when a needed status is missing before any unmet
/// dependency is found.
pub open spec fn deps_met(deps: Seq<TaskDependency>, subtask_id: i64, statuses: Seq<(i64, String)>) -> Option<bool>
    decreases deps.len(),
{
    if deps.len() == 0 {
        Some(true)
    } else {
        let d = deps[0];
        let rest = deps_met(deps.drop_first(), subtask_id, statuses);
        if d.subtask_id != subtask_id {
            rest
        } else if d.dependency_type@ == "finish-to-start"@ {
            match status_of(statuses, d.depends_on_id) {
                None => None,
                Some(st) => if st != "completed"@ {
                    Some(false)
                } else {
                    rest
                },
            }
        } else {
            rest
        }
    }
}

/// Row `j` is the first status row recorded for subtask `id`.
pub open spec fn first_status_row(statuses: Seq<(i64, String)>, id: i64, j: int) -> bool {
    &&& 0 <= j < statuses.len()
    &&& statuses[j].0 == id
    &&& forall|k: int| 0 <= k < j ==> statuses[k].0 != id
}

/// Some status row is recorded for subtask `id`.
pub open spec fn has_status(statuses: Seq<(i64, String)>, id: i64) -> bool {
    exists|j: int| 0 <= j < statuses.len() && statuses[j].0 == id
}

/// The status first recorded for subtask `id` is `completed`.
pub open spec fn recorded_completed(statuses: Seq<(i64, String)>, id: i64) -> bool {
    exists|j: int| first_status_row(statuses, id, j) && statuses[j].1@ == "completed"@
}

/// `d` is a finish-to-start dependency of subtask `subtask_id`.
pub open spec fn is_finish_to_start_of(d: TaskDependency, subtask_id: i64) -> bool {
    d.subtask_id == subtask_id && d.dependency_type@ == "finish-to-start"@
}

proof fn lemma_status_of_first_row(statuses: Seq<(i64, String)>, id: i64)
    ensures
        match status_of(statuses, id) {
            Some(x) => exists|j: int| first_status_row(statuses, id, j) && statuses[j].1@ == x,
            None => !has_status(statuses, id),
        },
        has_status(statuses, id) <==> status_of(statuses, id) is Some,
        recorded_completed(statuses, id) <==> status_of(statuses, id) == Some("completed"@),
    decreases statuses.len(),
{
    if statuses.len() > 0 {
        let t = statuses.drop_first();
        lemma_status_of_first_row(t, id);
        if statuses[0].0 == id {
            assert(first_status_row(statuses, id, 0));
            assert forall|j: int| first_status_row(statuses, id, j) implies j == 0 by {
                if j > 0 {
                    assert(statuses[0].0 != id);
                }
            }
        } else {
            assert forall|j: int| first_status_row(t, id, j) implies first_status_row(statuses, id, j + 1) by {
                assert forall|k: int| 0 <= k < j + 1 implies statuses[k].0 != id by {
                    if k > 0 {
                        assert(statuses[k] == t[k - 1]);
                    }
                }
            }
            assert forall|j: int| first_status_row(statuses, id, j) implies first_status_row(t, id, j - 1) by {
                assert(j != 0);
                assert forall|k: int| 0 <= k < j - 1 implies t[k].0 != id by {
                    assert(t[k] == statuses[k + 1]);
                }
            }
            if has_status(statuses, id) {
                let j = choose|j: int| 0 <= j < statuses.len() && statuses[j].0 == id;
                assert(t[j - 1].0 == id);
            }
            if has_status(t, id) {
                let j = choose|j: int| 0 <= j < t.len() && t[j].0 == id;
                assert(statuses[j + 1].0 == id);
            }
            match status_of(t, id) {
                Some(x) => {
                    let j = choose|j: int| first_status_row(t, id, j) && t[j].1@ == x;
                    assert(first_status_row(statuses, id, j + 1));
                },
                None => {},
            }
            if recorded_completed(statuses, id) {
                let j = choose|j: int| first_status_row(statuses, id, j) && statuses[j].1@ == "completed"@;
                assert(first_status_row(t, id, j - 1));
            }
            if recorded_completed(t, id) {
                let j = choose|j: int| first_status_row(t, id, j) && t[j].1@ == "completed"@;
                assert(first_status_row(statuses, id, j + 1));
            }
        }
    }
}

/// Whether the dependencies of a subtask are met, said of the inputs: the
/// answer is yes exactly when every finish-to-start dependency of the
/// subtask has `completed` as its recorded status; a no names a
/// finish-to-start dependency whose recorded status is something else; an
/// error names one with no recorded status. Other kinds never count.
pub proof fn lemma_dependencies_met_exactly_when_all_completed(
    deps: Seq<TaskDependency>,
    subtask_id: i64,
    statuses: Seq<(i64, String)>,
)
    ensures
        deps_met(deps, subtask_id, statuses) == Some(true) <==> forall|i: int|
            0 <= i < deps.len() && is_finish_to_start_of(#[trigger] deps[i], subtask_id) ==> recorded_completed(
                statuses,
                deps[i].depends_on_id,
            ),
        deps_met(deps, subtask_id, statuses) == Some(false) ==> exists|i: int|
            0 <= i < deps.len() && is_finish_to_start_of(#[trigger] deps[i], subtask_id) && has_status(
                statuses,
                deps[i].depends_on_id,
            ) && !recorded_completed(statuses, deps[i].depends_on_id),
        deps_met(deps, subtask_id, statuses) is None ==> exists|i: int|
            0 <= i < deps.len() && is_finish_to_start_of(#[trigger] deps[i], subtask_id) && !has_status(
                statuses,
                deps[i].depends_on_id,
            ),
    decreases deps.len(),
{
    if deps.len() > 0 {
        let t = deps.drop_first();
        let d = deps[0];
        lemma_dependencies_met_exactly_when_all_completed(t, subtask_id, statuses);
        lemma_status_of_first_row(statuses, d.depends_on_id);
        assert forall|i: int| 0 <= i < t.len() implies #[trigger] t[i] == deps[i + 1] by {}
        if forall|i: int|
            0 <= i < deps.len() && is_finish_to_start_of(#[trigger] deps[i], subtask_id) ==> recorded_completed(
                statuses,
                deps[i].depends_on_id,
            ) {
            assert forall|i: int|
                0 <= i < t.len() && is_finish_to_start_of(#[trigger] t[i], subtask_id) implies recorded_completed(
                statuses,
                t[i].depends_on_id,
            ) by {
                assert(is_finish_to_start_of(deps[i + 1], subtask_id));
            }
            if is_finish_to_start_of(d, subtask_id) {
                assert(is_finish_to_start_of(deps[0], subtask_id));
            }
        }
        if deps_met(deps, subtask_id, statuses) == Some(true) {
            assert forall|i: int|
                0 <= i < deps.len() && is_finish_to_start_of(#[trigger] deps[i], subtask_id) implies recorded_completed(
                statuses,
                deps[i].depends_on_id,
            ) by {
                if i > 0 {
                    assert(is_finish_to_start_of(t[i - 1], subtask_id));
                }
            }
        }
        if deps_met(deps, subtask_id, statuses) == Some(false) {
            if is_finish_to_start_of(d, subtask_id) && status_of(statuses, d.depends_on_id) is Some
                && status_of(statuses, d.depends_on_id) != Some("completed"@) {
                assert(is_finish_to_start_of(deps[0], subtask_id));
            } else {
                let i = choose|i: int|
                    0 <= i < t.len() && is_finish_to_start_of(#[trigger] t[i], subtask_id) && has_status(
                        statuses,
                        t[i].depends_on_id,
                    ) && !recorded_completed(statuses, t[i].depends_on_id);
                assert(is_finish_to_start_of(deps[i + 1], subtask_id));
            }
        }
        if deps_met(deps, subtask_id, statuses) is None {
            if is_finish_to_start_of(d, subtask_id) && status_of(statuses, d.depends_on_id) is None {
                assert(is_finish_to_start_of(deps[0], subtask_id));
            } else {
                let i = choose|i: int|
                    0 <= i < t.len() && is_finish_to_start_of(#[trigger] t[i], subtask_id) && !has_status(
                        statuses,
                        t[i].depends_on_id,
                    );
                assert(is_finish_to_start_of(deps[i + 1], subtask_id));
            }
        }
    }
}

fn find_status(statuses: &Vec<(i64, String)>, id: i64) -> (r: Option<&String>)
    ensures
        match r {
            Some(s) => status_of(statuses@, id) == Some(s@),
            None => status_of(statuses@, id) is None,
        },
{
    let mut i: usize = 0;
    assert(statuses@.skip(0) =~= statuses@);
    while i < statuses.len()
        invariant
            i <= statuses@.len(),
            status_of(statuses@, id) == status_of(statuses@.skip(i as int), id),
        decreases statuses@.len() - i,
    {
        assert(statuses@.skip(i as int).drop_first() =~= statuses@.skip(i + 1));
        if statuses[i].0 == id {
            return Some(&statuses[i].1);
        }
        i = i + 1;
    }
    None
}

/// Whether every finish-to-start dependency of `subtask_id` in `deps` is
/// met, given the schedule status of each subtask; an error when a needed
/// status is missing.
pub fn are_dependencies_met(deps: &Vec<TaskDependency>, subtask_id: i64, statuses: &Vec<(i64, String)>) -> (r:
    Result<bool, String>)
    ensures
        match r {
            Ok(b) => deps_met(deps@, subtask_id, statuses@) == Some(b),
            Err(e) => deps_met(deps@, subtask_id, statuses@) is None && e@ == "Query returned no rows"@,
        },
        r == Ok::<bool, String>(true) <==> forall|i: int|
            0 <= i < deps@.len() && is_finish_to_start_of(#[trigger] deps@[i], subtask_id) ==> recorded_completed(
                statuses@,
                deps@[i].depends_on_id,
            ),
{
    proof {
        lemma_dependencies_met_exactly_when_all_completed(deps@, subtask_id, statuses@);
    }
    proof {
        reveal_strlit("finish-to-start");
    }
    let mut i: usize = 0;
    assert(deps@.skip(0) =~= deps@);
    while i < deps.len()
        invariant
            i <= deps@.len(),
            deps_met(deps@, subtask_id, statuses@) == deps_met(deps@.skip(i as int), subtask_id, statuses@),
            deps_met(deps@, subtask_id, statuses@) == Some(true) <==> forall|k: int|
                0 <= k < deps@.len() && is_finish_to_start_of(#[trigger] deps@[k], subtask_id)
                    ==> recorded_completed(statuses@, deps@[k].depends_on_id),
        decreases deps@.len() - i,
    {
        assert(deps@.skip(i as int).drop_first() =~= deps@.skip(i + 1));
        assert(deps@.skip(i as int)[0] == deps@[i as int]);
        let d = &deps[i];
        if d.subtask_id == subtask_id {
            if str_eq(d.dependency_type.as_str(), "finish-to-start") {
                match find_status(statuses, d.depends_on_id) {
                    None => {
                        return Err("Query returned no rows".to_string());
                    },
                    Some(st) => {
                        if !str_eq(st.as_str(), "completed") {
                            return Ok(false);
                        }
                    },
                }
            }
        }
        i = i + 1;
    }
    Ok(true)
}

proof fn lemma_reaches_plus_reaches(edges: Seq<(i64, i64)>, a: i64, b: i64)
    requires
        reaches_plus(edges, a, b),
    ensures
        reaches(edges, a, b),
{
    let p = choose|p: Seq<i64>| is_walk(edges, p) && p.len() >= 2 && p[0] == a && p.last() == b;
    assert(is_walk(edges, p) && p[0] == a && p.last() == b);
}

proof fn lemma_reaches_trans(edges: Seq<(i64, i64)>, a: i64, b: i64, c: i64)
    requires
        reaches(edges, a, b),
        reaches(edges, b, c),
    ensures
        reaches(edges, a, c),
{
    let p = choose|p: Seq<i64>| is_walk(edges, p) && p[0] == a && p.last() == b;
    let q = choose|q: Seq<i64>| is_walk(edges, q) && q[0] == b && q.last() == c;
    let r = p + q.skip(1);
    assert forall|i: int| 0 <= i < r.len() - 1 implies #[trigger] edges.contains((r[i], r[i + 1])) by {
        if i < p.len() - 1 {
            assert(r[i] == p[i] && r[i + 1] == p[i + 1]);
            assert(edges.contains((p[i], p[i + 1])));
        } else if i == p.len() - 1 {
            assert(r[i] == q[0]);
            assert(r[i + 1] == q[1]);
            assert(edges.contains((q[0int], q[0int + 1])));
        } else {
            let j = i - p.len() + 1;
            assert(r[i] == q[j] && r[i + 1] == q[j + 1]);
            assert(edges.contains((q[j], q[j + 1])));
        }
    }
    assert(is_walk(edges, r));
    assert(r[0] == a);
    if q.len() == 1 {
        assert(r =~= p);
    } else {
        assert(r.last() == q.last());
    }
}

proof fn lemma_pushed_edge(edges: Seq<(i64, i64)>, s: i64, d: i64, e: (i64, i64))
    requires
        edges.push((s, d)).contains(e),
    ensures
        edges.contains(e) || e == (s, d),
{
    let k = choose|k: int| 0 <= k < edges.push((s, d)).len() && edges.push((s, d))[k] == e;
    if k < edges.len() {
        assert(edges[k] == e);
    }
}

/// A walk of one step or more once the edge `(s, d)` is added either
/// stays within the old edges or passes through that edge.
proof fn lemma_walk_with_new_edge(edges: Seq<(i64, i64)>, s: i64, d: i64, p: Seq<i64>, k: int)
    requires
        is_walk(edges.push((s, d)), p),
        2 <= k <= p.len(),
    ensures
        reaches_plus(edges, p[0], p[k - 1]) || (reaches(edges, p[0], s) && reaches(edges, d, p[k - 1])),
    decreases k,
{
    let ne = edges.push((s, d));
    let y = p[k - 2];
    let z = p[k - 1];
    let j = k - 2;
    assert(ne.contains((p[j], p[j + 1])));
    lemma_pushed_edge(edges, s, d, (y, z));
    if k == 2 {
        lemma_reaches_refl(edges, p[0]);
        lemma_reaches_refl(edges, d);
        if edges.contains((y, z)) {
            lemma_reaches_step(edges, p[0], y, z);
        }
    } else {
        lemma_walk_with_new_edge(edges, s, d, p, k - 1);
        if edges.contains((y, z)) {
            if reaches_plus(edges, p[0], y) {
                lemma_reaches_plus_reaches(edges, p[0], y);
                lemma_reaches_step(edges, p[0], y, z);
            } else {
                lemma_reaches_step(edges, d, y, z);
            }
        } else {
            lemma_reaches_refl(edges, d);
            if reaches_plus(edges, p[0], y) {
                lemma_reaches_plus_reaches(edges, p[0], y);
            }
        }
    }
}

/// For dependencies without a cycle, adding `subtask_id -> depends_on_id`
/// creates a cycle exactly when `subtask_id` is already reachable from
/// `depends_on_id`: the answer of `has_circular_dependency`.
pub proof fn lemma_cycle_check_is_exact(deps: Seq<TaskDependency>, subtask_id: i64, depends_on_id: i64)
    requires
        !cyclic(dep_edges(deps)),
    ensures
        cyclic(dep_edges(deps).push((subtask_id, depends_on_id))) <==> reaches(
            dep_edges(deps),
            depends_on_id,
            subtask_id,
        ),
{
    let edges = dep_edges(deps);
    let ne = edges.push((subtask_id, depends_on_id));
    if reaches(edges, depends_on_id, subtask_id) {
        let p = choose|p: Seq<i64>| is_walk(edges, p) && p[0] == depends_on_id && p.last() == subtask_id;
        let q = p.push(depends_on_id);
        assert forall|i: int| 0 <= i < q.len() - 1 implies #[trigger] ne.contains((q[i], q[i + 1])) by {
            if i < p.len() - 1 {
                assert(q[i] == p[i] && q[i + 1] == p[i + 1]);
                assert(edges.contains((p[i], p[i + 1])));
                let w = choose|w: int| 0 <= w < edges.len() && edges[w] == (p[i], p[i + 1]);
                assert(ne[w] == edges[w]);
            } else {
                assert(q[i] == subtask_id && q[i + 1] == depends_on_id);
                assert(ne[edges.len() as int] == (subtask_id, depends_on_id));
            }
        }
        assert(is_walk(ne, q) && q.len() >= 2 && q[0] == depends_on_id && q.last() == depends_on_id);
        assert(reaches_plus(ne, depends_on_id, depends_on_id));
    }
    if cyclic(ne) {
        let x = choose|x: i64| reaches_plus(ne, x, x);
        let p = choose|p: Seq<i64>| is_walk(ne, p) && p.len() >= 2 && p[0] == x && p.last() == x;
        lemma_walk_with_new_edge(edges, subtask_id, depends_on_id, p, p.len() as int);
        if reaches_plus(edges, x, x) {
            assert(cyclic(edges));
        } else {
            lemma_reaches_trans(edges, depends_on_id, x, subtask_id);
        }
    }
}

} // verus!
