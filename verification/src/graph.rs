//! The closure of a node in a dependency graph: the node and everything that
//! it pulls in, each once, in the order of a depth-first walk. A node that
//! was met before is not walked again, so a cycle ends the walk where it
//! closes.

use vstd::prelude::*;
use vstd::set_lib::lemma_len_subset;

verus! {

/// Whether every item of `s` stands in `universe`.
pub open spec fn within<K>(s: Seq<K>, universe: Seq<K>) -> bool {
    forall|i: int| 0 <= i < s.len() ==> universe.contains(#[trigger] s[i])
}

/// Whether `universe` holds the successors of each of its nodes.
pub open spec fn closed_under<K>(succ: spec_fn(K) -> Seq<K>, universe: Seq<K>) -> bool {
    forall|x: K| universe.contains(x) ==> within(#[trigger] succ(x), universe)
}

/// The state of a walk is sound: nothing was met twice, and all that was met
/// or waits to be visited is a node of the graph.
pub open spec fn walk_inv<K>(
    succ: spec_fn(K) -> Seq<K>,
    universe: Seq<K>,
    pending: Seq<K>,
    seen: Seq<K>,
) -> bool {
    &&& seen.no_duplicates()
    &&& within(seen, universe)
    &&& within(pending, universe)
    &&& closed_under(succ, universe)
}

/// Distinct items of a sequence are no more than the sequence holds.
pub proof fn lemma_bounded<K>(seen: Seq<K>, universe: Seq<K>)
    requires
        seen.no_duplicates(),
        within(seen, universe),
    ensures
        seen.len() <= universe.len(),
{
    seen.unique_seq_to_set();
    universe.lemma_cardinality_of_set();
    assert(seen.to_set().subset_of(universe.to_set())) by {
        assert forall|x: K| seen.to_set().contains(x) implies universe.to_set().contains(x) by {
            let i = choose|i: int| 0 <= i < seen.len() && seen[i] == x;
            assert(universe.contains(seen[i]));
        }
    }
    lemma_len_subset(seen.to_set(), universe.to_set());
}

/// One more node keeps the state sound.
pub proof fn lemma_step<K>(
    succ: spec_fn(K) -> Seq<K>,
    universe: Seq<K>,
    pending: Seq<K>,
    seen: Seq<K>,
)
    requires
        walk_inv(succ, universe, pending, seen),
        pending.len() > 0,
    ensures
        walk_inv(succ, universe, pending.drop_first(), seen),
        !seen.contains(pending.first()) ==> walk_inv(
            succ,
            universe,
            succ(pending.first()) + pending.drop_first(),
            seen.push(pending.first()),
        ) && seen.len() < universe.len(),
{
    let x = pending.first();
    let rest = pending.drop_first();
    assert(universe.contains(pending[0]));
    assert forall|i: int| 0 <= i < rest.len() implies universe.contains(#[trigger] rest[i]) by {
        assert(rest[i] == pending[i + 1]);
    }
    if !seen.contains(x) {
        let next = succ(x) + rest;
        let more = seen.push(x);
        assert(within(succ(x), universe));
        assert forall|i: int| 0 <= i < next.len() implies universe.contains(#[trigger] next[i]) by {
            if i < succ(x).len() {
                assert(next[i] == succ(x)[i]);
            } else {
                assert(next[i] == rest[i - succ(x).len()]);
            }
        }
        assert forall|i: int| 0 <= i < more.len() implies universe.contains(#[trigger] more[i]) by {
            if i < seen.len() {
                assert(more[i] == seen[i]);
            }
        }
        assert(more.no_duplicates()) by {
            assert forall|i: int, j: int| 0 <= i < more.len() && 0 <= j < more.len() && i
                != j implies more[i] != more[j] by {
                if i < seen.len() && j < seen.len() {
                    assert(seen[i] != seen[j]);
                } else if i < seen.len() {
                    assert(seen.contains(seen[i]));
                } else {
                    assert(seen.contains(seen[j]));
                }
            }
        }
        lemma_bounded(more, universe);
    }
}

/// The walk from the state `pending`, `seen`: the first node that waits is
/// visited, unless it was met before; its successors are visited next, ahead
/// of what waited behind it.
pub open spec fn walk<K>(
    succ: spec_fn(K) -> Seq<K>,
    universe: Seq<K>,
    pending: Seq<K>,
    seen: Seq<K>,
) -> Seq<K>
    decreases universe.len() - seen.len(), pending.len(),
    when walk_inv(succ, universe, pending, seen)
{
    if pending.len() == 0 {
        seen
    } else if seen.contains(pending.first()) {
        walk(succ, universe, pending.drop_first(), seen)
    } else {
        proof {
            lemma_step(succ, universe, pending, seen);
        }
        walk(
            succ,
            universe,
            succ(pending.first()) + pending.drop_first(),
            seen.push(pending.first()),
        )
    }
}

/// The closure of `root`: what a walk from `root` alone meets.
pub open spec fn closure<K>(succ: spec_fn(K) -> Seq<K>, universe: Seq<K>, root: K) -> Seq<K> {
    walk(succ, universe, seq![root], Seq::empty())
}

/// A walk keeps what was met, in its order, ahead of what it adds; it meets
/// nothing twice and only nodes of the graph.
pub proof fn lemma_walk<K>(
    succ: spec_fn(K) -> Seq<K>,
    universe: Seq<K>,
    pending: Seq<K>,
    seen: Seq<K>,
)
    requires
        walk_inv(succ, universe, pending, seen),
    ensures
        seen.is_prefix_of(walk(succ, universe, pending, seen)),
        walk(succ, universe, pending, seen).no_duplicates(),
        within(walk(succ, universe, pending, seen), universe),
        forall|i: int|
            0 <= i < pending.len() ==> walk(succ, universe, pending, seen).contains(pending[i]),
    decreases universe.len() - seen.len(), pending.len(),
{
    let result = walk(succ, universe, pending, seen);
    if pending.len() > 0 {
        let x = pending.first();
        let rest = pending.drop_first();
        lemma_step(succ, universe, pending, seen);
        if seen.contains(x) {
            lemma_walk(succ, universe, rest, seen);
            assert forall|i: int| 0 <= i < pending.len() implies result.contains(pending[i]) by {
                if i == 0 {
                    let j = choose|j: int| 0 <= j < seen.len() && seen[j] == x;
                    assert(result[j] == x);
                } else {
                    assert(pending[i] == rest[i - 1]);
                }
            }
        } else {
            let next = succ(x) + rest;
            let more = seen.push(x);
            lemma_walk(succ, universe, next, more);
            assert(seen.is_prefix_of(result)) by {
                assert(more.is_prefix_of(result));
                assert(seen =~= more.subrange(0, seen.len() as int));
                assert(seen =~= result.subrange(0, seen.len() as int));
            }
            assert forall|i: int| 0 <= i < pending.len() implies result.contains(pending[i]) by {
                if i == 0 {
                    assert(more[seen.len() as int] == x);
                    assert(result[seen.len() as int] == x);
                } else {
                    assert(pending[i] == rest[i - 1]);
                    assert(next[succ(x).len() + i - 1] == rest[i - 1]);
                }
            }
        }
    }
}

/// Self-inclusion: the closure of a node begins with the node itself, holds
/// nothing twice and only nodes of the graph.
pub proof fn law_closure_holds_root<K>(succ: spec_fn(K) -> Seq<K>, universe: Seq<K>, root: K)
    requires
        universe.contains(root),
        closed_under(succ, universe),
    ensures
        closure(succ, universe, root).len() > 0,
        closure(succ, universe, root)[0] == root,
        closure(succ, universe, root).contains(root),
        closure(succ, universe, root).no_duplicates(),
        within(closure(succ, universe, root), universe),
{
    let pending = seq![root];
    let seen = Seq::<K>::empty();
    assert(walk_inv(succ, universe, pending, seen));
    lemma_step(succ, universe, pending, seen);
    lemma_walk(succ, universe, pending, seen);
    let more = seen.push(root);
    let next = succ(root) + pending.drop_first();
    lemma_walk(succ, universe, next, more);
    let result = closure(succ, universe, root);
    assert(more.is_prefix_of(result));
    assert(more[0] == root);
    assert(result[0] == root);
}

/// Whether `path` leads along the graph: each of its nodes is a successor of
/// the node before it.
pub open spec fn is_path<K>(succ: spec_fn(K) -> Seq<K>, path: Seq<K>) -> bool {
    path.len() > 0 && forall|i: int|
        0 <= i < path.len() - 1 ==> succ(#[trigger] path[i]).contains(path[i + 1])
}

/// Whether the graph leads from `from` to `to`, in any number of steps.
pub open spec fn reachable<K>(succ: spec_fn(K) -> Seq<K>, from: K, to: K) -> bool {
    exists|path: Seq<K>| is_path(succ, path) && path.first() == from && path.last() == to
}

/// Whether `s` holds the successors of each of its nodes.
pub open spec fn closed<K>(succ: spec_fn(K) -> Seq<K>, s: Seq<K>) -> bool {
    forall|x: K, y: K| s.contains(x) && #[trigger] succ(x).contains(y) ==> s.contains(y)
}

/// Whether the successors of all that was met were met too, or wait.
pub open spec fn nothing_lost<K>(succ: spec_fn(K) -> Seq<K>, pending: Seq<K>, seen: Seq<K>)
    -> bool {
    forall|x: K, y: K|
        seen.contains(x) && #[trigger] succ(x).contains(y) ==> seen.contains(y)
            || pending.contains(y)
}

/// Whether the graph leads from `root` to all that was met or waits.
pub open spec fn all_reached<K>(succ: spec_fn(K) -> Seq<K>, root: K, pending: Seq<K>, seen: Seq<K>)
    -> bool {
    &&& forall|x: K| seen.contains(x) ==> reachable(succ, root, x)
    &&& forall|x: K| pending.contains(x) ==> reachable(succ, root, x)
}

/// A node is reached from itself.
pub proof fn lemma_reachable_self<K>(succ: spec_fn(K) -> Seq<K>, x: K)
    ensures
        reachable(succ, x, x),
{
    let path = seq![x];
    assert(is_path(succ, path));
    assert(path.first() == x && path.last() == x);
}

/// What a reached node leads to in one step is reached.
pub proof fn lemma_reachable_step<K>(succ: spec_fn(K) -> Seq<K>, from: K, x: K, y: K)
    requires
        reachable(succ, from, x),
        succ(x).contains(y),
    ensures
        reachable(succ, from, y),
{
    let path = choose|path: Seq<K>|
        is_path(succ, path) && path.first() == from && path.last() == x;
    let longer = path.push(y);
    assert forall|i: int| 0 <= i < longer.len() - 1 implies succ(#[trigger] longer[i]).contains(
        longer[i + 1],
    ) by {
        if i < path.len() - 1 {
            assert(longer[i] == path[i]);
            assert(longer[i + 1] == path[i + 1]);
        } else {
            assert(longer[i] == x);
            assert(longer[i + 1] == y);
        }
    }
    assert(is_path(succ, longer));
    assert(longer.first() == from && longer.last() == y);
}

proof fn lemma_member_of_push<K>(s: Seq<K>, x: K, y: K)
    ensures
        s.push(x).contains(y) <==> (s.contains(y) || y == x),
{
    let t = s.push(x);
    if s.contains(y) {
        let i = choose|i: int| 0 <= i < s.len() && s[i] == y;
        assert(t[i] == y);
    }
    if y == x {
        assert(t[s.len() as int] == y);
    }
    if t.contains(y) {
        let i = choose|i: int| 0 <= i < t.len() && t[i] == y;
        if i < s.len() {
            assert(s[i] == y);
        }
    }
}

proof fn lemma_member_of_concat<K>(a: Seq<K>, b: Seq<K>, y: K)
    ensures
        (a + b).contains(y) <==> (a.contains(y) || b.contains(y)),
{
    let t = a + b;
    if a.contains(y) {
        let i = choose|i: int| 0 <= i < a.len() && a[i] == y;
        assert(t[i] == y);
    }
    if b.contains(y) {
        let i = choose|i: int| 0 <= i < b.len() && b[i] == y;
        assert(t[a.len() + i] == y);
    }
    if t.contains(y) {
        let i = choose|i: int| 0 <= i < t.len() && t[i] == y;
        if i < a.len() {
            assert(a[i] == y);
        } else {
            assert(b[i - a.len()] == y);
        }
    }
}

proof fn lemma_member_of_rest<K>(s: Seq<K>, y: K)
    requires
        s.len() > 0,
    ensures
        s.contains(y) <==> (s.drop_first().contains(y) || y == s.first()),
{
    let t = s.drop_first();
    if t.contains(y) {
        let i = choose|i: int| 0 <= i < t.len() && t[i] == y;
        assert(s[i + 1] == y);
    }
    if y == s.first() {
        assert(s[0] == y);
    }
    if s.contains(y) {
        let i = choose|i: int| 0 <= i < s.len() && s[i] == y;
        if i > 0 {
            assert(t[i - 1] == y);
        }
    }
}

/// A walk meets only what the graph leads to from `root`, and ends with a
/// sequence that holds the successors of each of its nodes.
pub proof fn lemma_walk_reaches<K>(
    succ: spec_fn(K) -> Seq<K>,
    universe: Seq<K>,
    root: K,
    pending: Seq<K>,
    seen: Seq<K>,
)
    requires
        walk_inv(succ, universe, pending, seen),
        all_reached(succ, root, pending, seen),
        nothing_lost(succ, pending, seen),
    ensures
        forall|x: K| walk(succ, universe, pending, seen).contains(x) ==> reachable(succ, root, x),
        closed(succ, walk(succ, universe, pending, seen)),
    decreases universe.len() - seen.len(), pending.len(),
{
    if pending.len() > 0 {
        let x = pending.first();
        let rest = pending.drop_first();
        lemma_step(succ, universe, pending, seen);
        assert(pending.contains(x)) by {
            assert(pending[0] == x);
        }
        if seen.contains(x) {
            assert forall|y: K| rest.contains(y) implies reachable(succ, root, y) by {
                lemma_member_of_rest(pending, y);
            }
            assert forall|a: K, b: K| seen.contains(a) && #[trigger] succ(a).contains(
                b,
            ) implies seen.contains(b) || rest.contains(b) by {
                lemma_member_of_rest(pending, b);
            }
            lemma_walk_reaches(succ, universe, root, rest, seen);
        } else {
            let next = succ(x) + rest;
            let more = seen.push(x);
            assert forall|y: K| more.contains(y) implies reachable(succ, root, y) by {
                lemma_member_of_push(seen, x, y);
            }
            assert forall|y: K| next.contains(y) implies reachable(succ, root, y) by {
                lemma_member_of_concat(succ(x), rest, y);
                lemma_member_of_rest(pending, y);
                if succ(x).contains(y) {
                    lemma_reachable_step(succ, root, x, y);
                }
            }
            assert forall|a: K, b: K| more.contains(a) && #[trigger] succ(a).contains(
                b,
            ) implies more.contains(b) || next.contains(b) by {
                lemma_member_of_push(seen, x, a);
                lemma_member_of_push(seen, x, b);
                lemma_member_of_concat(succ(x), rest, b);
                lemma_member_of_rest(pending, b);
            }
            lemma_walk_reaches(succ, universe, root, next, more);
        }
    }
}

/// What a sequence that holds `from` and the successors of each of its nodes
/// holds: all that the graph leads to from `from`.
pub proof fn lemma_closed_holds_reachable<K>(
    succ: spec_fn(K) -> Seq<K>,
    s: Seq<K>,
    path: Seq<K>,
)
    requires
        closed(succ, s),
        is_path(succ, path),
        s.contains(path.first()),
    ensures
        s.contains(path.last()),
    decreases path.len(),
{
    if path.len() > 1 {
        let front = path.drop_last();
        assert forall|i: int| 0 <= i < front.len() - 1 implies succ(#[trigger] front[i]).contains(
            front[i + 1],
        ) by {
            assert(front[i] == path[i]);
            assert(front[i + 1] == path[i + 1]);
        }
        lemma_closed_holds_reachable(succ, s, front);
        let a = path[path.len() - 2];
        assert(front.last() == a);
        assert(succ(a).contains(path[path.len() - 2 + 1]));
    }
}

/// The closure of a node holds exactly what the graph leads to from it.
pub proof fn law_closure_is_what_is_reached<K>(
    succ: spec_fn(K) -> Seq<K>,
    universe: Seq<K>,
    root: K,
    x: K,
)
    requires
        universe.contains(root),
        closed_under(succ, universe),
    ensures
        closure(succ, universe, root).contains(x) <==> reachable(succ, root, x),
{
    let pending = seq![root];
    let seen = Seq::<K>::empty();
    let result = closure(succ, universe, root);
    assert(walk_inv(succ, universe, pending, seen));
    lemma_reachable_self(succ, root);
    assert forall|y: K| pending.contains(y) implies reachable(succ, root, y) by {
        let i = choose|i: int| 0 <= i < pending.len() && pending[i] == y;
        assert(y == root);
    }
    lemma_walk_reaches(succ, universe, root, pending, seen);
    law_closure_holds_root(succ, universe, root);
    if reachable(succ, root, x) {
        let path = choose|path: Seq<K>|
            is_path(succ, path) && path.first() == root && path.last() == x;
        lemma_closed_holds_reachable(succ, result, path);
    }
}

/// A node of a graph: a value with a view by which nodes are told apart.
pub trait Node: View + Sized {
    /// Whether two values are the same node.
    fn same(&self, other: &Self) -> (b: bool)
        ensures
            b == (self@ == other@),
    ;

    /// A copy of the node.
    fn duplicate(&self) -> (r: Self)
        ensures
            r@ == self@,
    ;
}

impl Node for String {
    fn same(&self, other: &Self) -> (b: bool) {
        *self == *other
    }

    fn duplicate(&self) -> (r: Self) {
        self.clone()
    }
}

/// The views of the nodes of `s`, in order.
pub open spec fn node_views<N: View>(s: Seq<N>) -> Seq<N::V> {
    s.map_values(|n: N| n@)
}

/// The edges as pairs of views.
pub open spec fn edge_views<N: View>(edges: Seq<(N, N)>) -> Seq<(N::V, N::V)> {
    Seq::new(edges.len(), |i: int| (edges[i].0@, edges[i].1@))
}

/// The children of `p`: the second ends of the edges that begin at `p`, in
/// the order of the edges.
pub open spec fn children<K>(edges: Seq<(K, K)>, p: K) -> Seq<K>
    decreases edges.len(),
{
    if edges.len() == 0 {
        Seq::empty()
    } else if edges.last().0 == p {
        children(edges.drop_last(), p).push(edges.last().1)
    } else {
        children(edges.drop_last(), p)
    }
}

/// The graph of the edges: each package with its children.
pub open spec fn edge_succ<K>(edges: Seq<(K, K)>) -> spec_fn(K) -> Seq<
    K,
> {
    |p: K| children(edges, p)
}

/// The nodes that a walk from `root` can meet: `root` and the second end of
/// every edge.
pub open spec fn universe<K>(edges: Seq<(K, K)>, root: K) -> Seq<K> {
    seq![root] + Seq::new(edges.len(), |i: int| edges[i].1)
}

/// What `root` pulls in over `edges`, itself first.
pub open spec fn closure_spec<K>(edges: Seq<(K, K)>, root: K) -> Seq<K> {
    closure(edge_succ(edges), universe(edges, root), root)
}

/// Whether `edges` holds an edge from `p` to `c`.
pub open spec fn has_edge<K>(edges: Seq<(K, K)>, p: K, c: K) -> bool {
    exists|j: int| 0 <= j < edges.len() && edges[j] == (p, c)
}

/// The children of `p` are the second ends of the edges from `p`.
pub proof fn lemma_children<K>(edges: Seq<(K, K)>, p: K, c: K)
    ensures
        children(edges, p).contains(c) <==> has_edge(edges, p, c),
    decreases edges.len(),
{
    let kids = children(edges, p);
    if edges.len() > 0 {
        let front = edges.drop_last();
        let last = edges.last();
        lemma_children(front, p, c);
        let before = children(front, p);
        if kids.contains(c) {
            let i = choose|i: int| 0 <= i < kids.len() && kids[i] == c;
            if i < before.len() {
                assert(before[i] == c);
                assert(before.contains(c));
                assert(has_edge(front, p, c));
                let j = choose|j: int| 0 <= j < front.len() && front[j] == (p, c);
                assert(edges[j] == (p, c));
            } else {
                assert(edges[edges.len() - 1] == (p, c));
            }
        }
        if has_edge(edges, p, c) {
            let j = choose|j: int| 0 <= j < edges.len() && edges[j] == (p, c);
            if j < front.len() {
                assert(front[j] == (p, c));
                assert(has_edge(front, p, c));
                assert(before.contains(c));
                let i = choose|i: int| 0 <= i < before.len() && before[i] == c;
                assert(kids[i] == c);
            } else {
                assert(last == (p, c));
                assert(kids[kids.len() - 1] == c);
            }
        }
    }
}

/// The nodes of a walk hold the children of each of them.
pub proof fn lemma_universe_closed<K>(edges: Seq<(K, K)>, root: K)
    ensures
        closed_under(edge_succ(edges), universe(edges, root)),
        universe(edges, root).contains(root),
{
    let u = universe(edges, root);
    assert(u[0] == root);
    assert forall|x: K| u.contains(x) implies within(#[trigger] edge_succ(edges)(x), u) by {
        let kids = children(edges, x);
        assert forall|i: int| 0 <= i < kids.len() implies u.contains(#[trigger] kids[i]) by {
            lemma_children(edges, x, kids[i]);
            assert(kids.contains(kids[i]));
            assert(has_edge(edges, x, kids[i]));
            let j = choose|j: int| 0 <= j < edges.len() && edges[j] == (x, kids[i]);
            assert(u[j + 1] == kids[i]);
        }
    }
}

fn holds<N: Node>(seen: &Vec<N>, p: &N) -> (b: bool)
    ensures
        b == node_views(seen@).contains(p@),
{
    let mut i: usize = 0;
    while i < seen.len()
        invariant
            i <= seen.len(),
            forall|j: int| 0 <= j < i ==> node_views(seen@)[j] != p@,
        decreases seen.len() - i,
    {
        if seen[i].same(p) {
            assert(node_views(seen@)[i as int] == p@);
            return true;
        }
        i += 1;
    }
    false
}

/// The views of the nodes that `s` refers to.
pub open spec fn ref_views<N: View>(s: Seq<&N>) -> Seq<N::V> {
    Seq::new(s.len(), |i: int| s[i]@)
}

/// What a package pulls in over a list of edges is exactly what the edges
/// lead to from it.
pub proof fn law_edge_closure<K>(edges: Seq<(K, K)>, root: K, x: K)
    ensures
        closure_spec(edges, root).contains(x) <==> reachable(edge_succ(edges), root, x),
        closure_spec(edges, root).no_duplicates(),
        closure_spec(edges, root).len() > 0 && closure_spec(edges, root)[0] == root,
{
    lemma_universe_closed(edges, root);
    law_closure_holds_root(edge_succ(edges), universe(edges, root), root);
    law_closure_is_what_is_reached(edge_succ(edges), universe(edges, root), root, x);
}

/// The children of `p`, in the order of the edges.
pub fn children_of<'a, N: Node>(edges: &'a Vec<(N, N)>, p: &N) -> (r: Vec<&'a N>)
    ensures
        ref_views(r@) == children(edge_views(edges@), p@),
{
    let mut out: Vec<&N> = Vec::new();
    let ghost ev = edge_views(edges@);
    let mut i: usize = 0;
    assert(ev.take(0) == Seq::<(N::V, N::V)>::empty());
    assert(ref_views(out@) == Seq::<N::V>::empty());
    while i < edges.len()
        invariant
            i <= edges.len(),
            ev == edge_views(edges@),
            ref_views(out@) == children(ev.take(i as int), p@),
        decreases edges.len() - i,
    {
        assert(ev.take(i as int + 1).drop_last() == ev.take(i as int));
        assert(ev.take(i as int + 1).last() == ev[i as int]);
        if edges[i].0.same(p) {
            let ghost before = ref_views(out@);
            out.push(&edges[i].1);
            assert(ref_views(out@) == before.push(edges@[i as int].1@));
        }
        i += 1;
    }
    assert(ev.take(edges.len() as int) == ev);
    out
}

/// What `root` pulls in over `edges`: `root` itself, then its descendants in
/// the order of a depth-first walk, each once.
pub fn closure_of<N: Node>(edges: &Vec<(N, N)>, root: &N) -> (r: Vec<N>)
    ensures
        node_views(r@) == closure_spec(edge_views(edges@), root@),
{
    let ghost ev = edge_views(edges@);
    let ghost succ = edge_succ(ev);
    let ghost u = universe(ev, root@);
    let mut seen: Vec<N> = Vec::new();
    let mut stack: Vec<&N> = Vec::new();
    stack.push(root);
    proof {
        lemma_universe_closed(ev, root@);
        assert(ref_views(stack@).reverse() == seq![root@]);
        assert(node_views(seen@) == Seq::<N::V>::empty());
    }
    while stack.len() > 0
        invariant
            ev == edge_views(edges@),
            succ == edge_succ(ev),
            u == universe(ev, root@),
            walk_inv(succ, u, ref_views(stack@).reverse(), node_views(seen@)),
            walk(succ, u, ref_views(stack@).reverse(), node_views(seen@)) == closure_spec(
                ev,
                root@,
            ),
        decreases u.len() - seen.len(), stack.len(),
    {
        let ghost pending = ref_views(stack@).reverse();
        let ghost met = node_views(seen@);
        proof {
            lemma_step(succ, u, pending, met);
        }
        let x = stack.pop().unwrap();
        assert(x@ == pending.first());
        assert(ref_views(stack@).reverse() == pending.drop_first());
        if !holds(&seen, x) {
            seen.push(x.duplicate());
            assert(node_views(seen@) == met.push(x@));
            let kids = children_of(edges, x);
            let ghost base = ref_views(stack@);
            let ghost kv = ref_views(kids@);
            let mut k: usize = kids.len();
            assert(kv.subrange(k as int, kids.len() as int).reverse() == Seq::<N::V>::empty());
            assert(base + Seq::<N::V>::empty() == base);
            while k > 0
                invariant
                    k <= kids.len(),
                    kv == ref_views(kids@),
                    ref_views(stack@) == base + kv.subrange(k as int, kids.len() as int).reverse(),
                decreases k,
            {
                k -= 1;
                let ghost before = ref_views(stack@);
                stack.push(kids[k]);
                assert(ref_views(stack@) == before.push(kv[k as int]));
                assert(kv.subrange(k as int, kids.len() as int).reverse() == kv.subrange(
                    k as int + 1,
                    kids.len() as int,
                ).reverse().push(kv[k as int]));
            }
            assert(kv.subrange(0, kids.len() as int) == kv);
            assert((base + kv.reverse()).reverse() == kv + base.reverse());
            assert(ref_views(stack@).reverse() == succ(x@) + pending.drop_first());
        }
    }
    assert(ref_views(stack@).reverse() == Seq::<N::V>::empty());
    seen
}

} // verus!
