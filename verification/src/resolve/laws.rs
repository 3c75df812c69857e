//! What the walk of the dependency graph guarantees: an order without forward
//! references where there is one, and a fault exactly where there is none.

use vstd::prelude::*;
use crate::counting::lemma_distinct_fit;
use crate::resolve::graph::{order_from, walk, walk_links, Fault, Link};

verus! {

/// Node `a` declares a dependency on the AUR package `b`.
pub open spec fn edge(g: Seq<Seq<Link>>, a: usize, b: usize) -> bool {
    &&& a < g.len()
    &&& b < g.len()
    &&& exists|k: int| 0 <= k < g[a as int].len() && #[trigger] g[a as int][k] == Link::Aur(b)
}

/// The dependency at place `k` of node `a` is found nowhere.
pub open spec fn unresolved(g: Seq<Seq<Link>>, a: usize, k: int) -> bool {
    &&& a < g.len()
    &&& 0 <= k < g[a as int].len()
    &&& match g[a as int][k] {
        Link::Missing => true,
        Link::Aur(child) => child >= g.len(),
        _ => false,
    }
}

/// Each node of `p` declares a dependency on the next.
pub open spec fn is_path(g: Seq<Seq<Link>>, p: Seq<usize>) -> bool {
    &&& p.len() >= 1
    &&& forall|i: int| 0 <= i < p.len() - 1 ==> edge(g, #[trigger] p[i], p[i + 1])
}

/// `b` is `a` or one of the AUR packages that `a` needs, directly or not.
pub open spec fn reaches(g: Seq<Seq<Link>>, a: usize, b: usize) -> bool {
    exists|p: Seq<usize>| #[trigger] is_path(g, p) && p[0] == a && p.last() == b
}

/// `b` is one of the AUR packages that `a` needs, directly or not.
pub open spec fn needs(g: Seq<Seq<Link>>, a: usize, b: usize) -> bool {
    exists|p: Seq<usize>| #[trigger] is_path(g, p) && p.len() >= 2 && p[0] == a && p.last() == b
}

/// `a` needs itself.
pub open spec fn on_cycle(g: Seq<Seq<Link>>, a: usize) -> bool {
    needs(g, a, a)
}

/// The link is met by the first `i` nodes of `order`: it leads outside the
/// AUR, or to one of those nodes.
pub open spec fn link_met(g: Seq<Seq<Link>>, order: Seq<usize>, i: int, link: Link) -> bool {
    match link {
        Link::Repo | Link::VirtualProvided => true,
        Link::Missing => false,
        Link::Aur(child) => child < g.len() && exists|j: int|
            0 <= j < i && #[trigger] order[j] == child,
    }
}

/// The node at place `i` of `order` can be built there: all its AUR
/// dependencies come before it, and none of its dependencies is missing.
pub open spec fn ready_at(g: Seq<Seq<Link>>, order: Seq<usize>, i: int) -> bool {
    &&& order[i] < g.len()
    &&& forall|k: int|
        0 <= k < g[order[i] as int].len() ==> link_met(
            g,
            order,
            i,
            #[trigger] g[order[i] as int][k],
        )
}

/// `order` has no forward reference: every node can be built at its place.
pub open spec fn buildable(g: Seq<Seq<Link>>, order: Seq<usize>) -> bool {
    forall|i: int| 0 <= i < order.len() ==> #[trigger] ready_at(g, order, i)
}

/// `longer` begins with `shorter`.
pub open spec fn begins_with(longer: Seq<usize>, shorter: Seq<usize>) -> bool {
    &&& shorter.len() <= longer.len()
    &&& forall|i: int| 0 <= i < shorter.len() ==> #[trigger] longer[i] == shorter[i]
}

/// No node of `stack` is in `done`.
pub open spec fn apart(stack: Seq<usize>, done: Seq<usize>) -> bool {
    forall|i: int| 0 <= i < stack.len() ==> !done.contains(#[trigger] stack[i])
}

/// A stack of the walk: distinct nodes of the graph.
pub open spec fn is_stack(g: Seq<Seq<Link>>, stack: Seq<usize>) -> bool {
    &&& stack.no_duplicates()
    &&& forall|i: int| 0 <= i < stack.len() ==> #[trigger] stack[i] < g.len()
}

/// Every node reaches itself.
pub proof fn lemma_reaches_itself(g: Seq<Seq<Link>>, a: usize)
    ensures
        reaches(g, a, a),
{
    let p = seq![a];
    assert(is_path(g, p) && p[0] == a && p.last() == a);
}

/// What a node needs, it reaches.
pub proof fn lemma_needs_reaches(g: Seq<Seq<Link>>, a: usize, b: usize)
    requires
        needs(g, a, b),
    ensures
        reaches(g, a, b),
{
    let p = choose|p: Seq<usize>| #[trigger]
        is_path(g, p) && p.len() >= 2 && p[0] == a && p.last() == b;
    assert(is_path(g, p) && p[0] == a && p.last() == b);
}

/// A node needs all that a direct dependency of it reaches.
pub proof fn lemma_edge_then_reaches(g: Seq<Seq<Link>>, a: usize, b: usize, c: usize)
    requires
        edge(g, a, b),
        reaches(g, b, c),
    ensures
        needs(g, a, c),
{
    let p = choose|p: Seq<usize>| #[trigger] is_path(g, p) && p[0] == b && p.last() == c;
    let q = seq![a] + p;
    assert forall|i: int| 0 <= i < q.len() - 1 implies edge(g, #[trigger] q[i], q[i + 1]) by {
        if i > 0 {
            assert(q[i] == p[i - 1]);
            assert(q[i + 1] == p[i]);
        } else {
            assert(q[1] == p[0]);
        }
    }
    assert(q.last() == p.last());
    assert(is_path(g, q) && q.len() >= 2 && q[0] == a && q.last() == c);
}

/// Distinct nodes of a graph of `n` nodes are at most `n`.
pub proof fn lemma_distinct_nodes_fit(s: Seq<usize>, n: nat)
    requires
        s.no_duplicates(),
        forall|i: int| 0 <= i < s.len() ==> #[trigger] s[i] < n,
    ensures
        s.len() <= n,
{
    let places = s.map_values(|x: usize| x as int);
    assert(places.no_duplicates()) by {
        assert forall|i: int, j: int|
            0 <= i < places.len() && 0 <= j < places.len() && i != j implies places[i]
            != places[j] by {
            assert(s[i] != s[j]);
        }
    }
    assert forall|i: int| 0 <= i < places.len() implies 0 <= #[trigger] places[i] < n by {
        assert(s[i] < n);
    }
    lemma_distinct_fit(places, n as int);
}

/// The link leads outside the AUR, or to a node of `order`.
pub open spec fn link_in(g: Seq<Seq<Link>>, order: Seq<usize>, link: Link) -> bool {
    match link {
        Link::Repo | Link::VirtualProvided => true,
        Link::Missing => false,
        Link::Aur(child) => child < g.len() && order.contains(child),
    }
}

/// No node has more links than can be counted.
pub open spec fn countable(g: Seq<Seq<Link>>) -> bool {
    forall|i: int| 0 <= i < g.len() ==> (#[trigger] g[i]).len() <= usize::MAX
}

/// What holds of the outcome `r` of a walk from `node`.
pub open spec fn walk_sound(
    g: Seq<Seq<Link>>,
    node: usize,
    stack: Seq<usize>,
    done: Seq<usize>,
    r: Result<Seq<usize>, Fault>,
) -> bool {
    match r {
        Ok(after) => {
            &&& begins_with(after, done)
            &&& buildable(g, after)
            &&& after.no_duplicates()
            &&& apart(stack, after)
            &&& after.contains(node)
            &&& forall|x: usize| #[trigger] after.contains(x) && !done.contains(x) ==> reaches(g, node, x)
        },
        Err(Fault::Cycle { at }) => reaches(g, node, at) && (stack.contains(at) || on_cycle(g, at)),
        Err(Fault::Unknown { package, dependency }) => reaches(g, node, package) && unresolved(
            g,
            package,
            dependency as int,
        ),
        Err(Fault::NoSuchPackage { .. }) => false,
    }
}

/// What holds of the outcome `r` of a walk through the links of `node` from place `k` on.
pub open spec fn links_sound(
    g: Seq<Seq<Link>>,
    node: usize,
    k: int,
    stack: Seq<usize>,
    done: Seq<usize>,
    r: Result<Seq<usize>, Fault>,
) -> bool {
    match r {
        Ok(after) => {
            &&& begins_with(after, done)
            &&& buildable(g, after)
            &&& after.no_duplicates()
            &&& apart(stack, after)
            &&& forall|j: int| k <= j < g[node as int].len() ==> link_in(g, after, #[trigger] g[node as int][j])
            &&& forall|x: usize| #[trigger] after.contains(x) && !done.contains(x) ==> needs(g, node, x)
        },
        Err(Fault::Cycle { at }) => needs(g, node, at) && (stack.contains(at) || on_cycle(g, at)),
        Err(Fault::Unknown { package, dependency }) => reaches(g, node, package) && unresolved(
            g,
            package,
            dependency as int,
        ),
        Err(Fault::NoSuchPackage { .. }) => false,
    }
}

/// What begins with a list holds all that the list holds.
pub proof fn lemma_begins_with_contains(longer: Seq<usize>, shorter: Seq<usize>, x: usize)
    requires
        begins_with(longer, shorter),
        shorter.contains(x),
    ensures
        longer.contains(x),
{
    let i = choose|i: int| 0 <= i < shorter.len() && shorter[i] == x;
    assert(longer[i] == x);
}

/// A node that can be built at its place in a list can be built at the same
/// place in every list that begins with that one.
pub proof fn lemma_ready_in_longer(g: Seq<Seq<Link>>, longer: Seq<usize>, shorter: Seq<usize>, i: int)
    requires
        begins_with(longer, shorter),
        0 <= i < shorter.len(),
        ready_at(g, shorter, i),
    ensures
        ready_at(g, longer, i),
{
    let node = shorter[i];
    assert(longer[i] == node);
    assert forall|k: int| 0 <= k < g[node as int].len() implies link_met(
        g,
        longer,
        i,
        #[trigger] g[node as int][k],
    ) by {
        let link = g[node as int][k];
        assert(link_met(g, shorter, i, link));
        if let Link::Aur(child) = link {
            let j = choose|j: int| 0 <= j < i && #[trigger] shorter[j] == child;
            assert(longer[j] == child);
        }
    }
}

/// The walk from a node is sound.
pub proof fn lemma_walk_sound(g: Seq<Seq<Link>>, node: usize, stack: Seq<usize>, done: Seq<usize>)
    requires
        countable(g),
        node < g.len(),
        is_stack(g, stack),
        buildable(g, done),
        done.no_duplicates(),
        apart(stack, done),
    ensures
        walk_sound(g, node, stack, done, walk(g, node, stack, done)),
    decreases g.len() - stack.len(), 0int, 0int,
{
    lemma_reaches_itself(g, node);
    if done.contains(node) {
    } else if stack.contains(node) {
    } else {
        let deeper = stack.push(node);
        assert(is_stack(g, deeper)) by {
            assert forall|i: int, j: int| 0 <= i < deeper.len() && 0 <= j < deeper.len() && i != j implies deeper[i]
                != deeper[j] by {
                if i < stack.len() && j < stack.len() {
                } else if i < stack.len() {
                    assert(stack[i] == deeper[i]);
                } else {
                    assert(stack[j] == deeper[j]);
                }
            }
        }
        lemma_distinct_nodes_fit(deeper, g.len());
        assert(stack.len() < g.len());
        assert(apart(deeper, done)) by {
            assert forall|i: int| 0 <= i < deeper.len() implies !done.contains(#[trigger] deeper[i]) by {
                if i < stack.len() {
                    assert(deeper[i] == stack[i]);
                }
            }
        }
        assert(deeper[stack.len() as int] == node);
        assert(deeper.contains(node));
        lemma_walk_links_sound(g, node, 0, deeper, done);
        let inner = walk_links(g, node, 0, deeper, done);
        match inner {
            Ok(mid) => {
                let after = mid.push(node);
                assert(walk(g, node, stack, done) == Ok::<Seq<usize>, Fault>(after));
                assert(!mid.contains(node));
                assert(begins_with(after, mid));
                assert(begins_with(after, done));
                assert(after[mid.len() as int] == node);
                assert(after.contains(node));
                assert forall|x: usize| after.contains(x) implies mid.contains(x) || x == node by {
                    let i = choose|i: int| 0 <= i < after.len() && after[i] == x;
                    if i < mid.len() {
                        assert(mid[i] == x);
                    }
                }
                assert(after.no_duplicates()) by {
                    assert forall|i: int, j: int| 0 <= i < after.len() && 0 <= j < after.len() && i != j implies after[i]
                        != after[j] by {
                        if i < mid.len() && j < mid.len() {
                            assert(after[i] == mid[i] && after[j] == mid[j]);
                        } else if i < mid.len() {
                            assert(mid[i] == after[i]);
                            assert(mid.contains(after[i]));
                        } else {
                            assert(mid[j] == after[j]);
                            assert(mid.contains(after[j]));
                        }
                    }
                }
                assert(apart(stack, after)) by {
                    assert forall|i: int| 0 <= i < stack.len() implies !after.contains(#[trigger] stack[i]) by {
                        assert(deeper[i] == stack[i]);
                        assert(!mid.contains(deeper[i]));
                        assert(stack.contains(stack[i]));
                    }
                }
                assert(buildable(g, after)) by {
                    assert forall|i: int| 0 <= i < after.len() implies #[trigger] ready_at(g, after, i) by {
                        if i < mid.len() {
                            assert(ready_at(g, mid, i));
                            lemma_ready_in_longer(g, after, mid, i);
                        } else {
                            assert forall|k: int| 0 <= k < g[node as int].len() implies link_met(
                                g,
                                after,
                                i,
                                #[trigger] g[node as int][k],
                            ) by {
                                let link = g[node as int][k];
                                assert(link_in(g, mid, link));
                                if let Link::Aur(child) = link {
                                    let j = choose|j: int| 0 <= j < mid.len() && mid[j] == child;
                                    assert(after[j] == child);
                                }
                            }
                        }
                    }
                }
                assert forall|x: usize| #[trigger] after.contains(x) && !done.contains(x) implies reaches(
                    g,
                    node,
                    x,
                ) by {
                    if x != node {
                        assert(mid.contains(x));
                        lemma_needs_reaches(g, node, x);
                    }
                }
            },
            Err(Fault::Cycle { at }) => {
                lemma_needs_reaches(g, node, at);
                if !on_cycle(g, at) {
                    assert(deeper.contains(at));
                    let i = choose|i: int| 0 <= i < deeper.len() && deeper[i] == at;
                    if i < stack.len() {
                        assert(stack[i] == at);
                    }
                }
            },
            Err(_) => {},
        }
    }
}

/// The walk through the links of a node is sound.
pub proof fn lemma_walk_links_sound(
    g: Seq<Seq<Link>>,
    node: usize,
    k: int,
    stack: Seq<usize>,
    done: Seq<usize>,
)
    requires
        countable(g),
        node < g.len(),
        0 <= k <= g[node as int].len(),
        is_stack(g, stack),
        stack.contains(node),
        buildable(g, done),
        done.no_duplicates(),
        apart(stack, done),
    ensures
        links_sound(g, node, k, stack, done, walk_links(g, node, k, stack, done)),
    decreases g.len() - stack.len(), 1int, g[node as int].len() - k,
{
    lemma_reaches_itself(g, node);
    if k < g[node as int].len() {
        let link = g[node as int][k];
        match link {
            Link::Repo | Link::VirtualProvided => {
                lemma_walk_links_sound(g, node, k + 1, stack, done);
            },
            Link::Missing => {
                assert(unresolved(g, node, k));
            },
            Link::Aur(child) => {
                if child >= g.len() {
                    assert(unresolved(g, node, k));
                } else {
                    assert(edge(g, node, child));
                    lemma_walk_sound(g, child, stack, done);
                    match walk(g, child, stack, done) {
                        Ok(mid) => {
                            lemma_walk_links_sound(g, node, k + 1, stack, mid);
                            match walk_links(g, node, k + 1, stack, mid) {
                                Ok(after) => {
                                    assert(begins_with(after, done));
                                    lemma_begins_with_contains(after, mid, child);
                                    assert forall|x: usize| #[trigger] after.contains(x) && !done.contains(x) implies needs(
                                        g,
                                        node,
                                        x,
                                    ) by {
                                        if mid.contains(x) {
                                            lemma_edge_then_reaches(g, node, child, x);
                                        }
                                    }
                                },
                                Err(_) => {},
                            }
                        },
                        Err(Fault::Cycle { at }) => {
                            lemma_edge_then_reaches(g, node, child, at);
                        },
                        Err(Fault::Unknown { package, dependency }) => {
                            lemma_edge_then_reaches(g, node, child, package);
                            lemma_needs_reaches(g, node, package);
                        },
                        Err(Fault::NoSuchPackage { .. }) => {},
                    }
                }
            },
        }
    }
}

/// In an order without forward references, what a node of the order reaches
/// stands in the order too, one place earlier for each step of the way.
pub proof fn lemma_buildable_holds_path(g: Seq<Seq<Link>>, order: Seq<usize>, p: Seq<usize>, i: int)
    requires
        buildable(g, order),
        is_path(g, p),
        0 <= i < order.len(),
        order[i] == p[0],
    ensures
        exists|j: int| 0 <= j <= i - (p.len() - 1) && #[trigger] order[j] == p.last(),
    decreases p.len(),
{
    if p.len() > 1 {
        assert(edge(g, p[0], p[1]));
        let k = choose|k: int|
            0 <= k < g[p[0] as int].len() && #[trigger] g[p[0] as int][k] == Link::Aur(p[1]);
        assert(ready_at(g, order, i));
        assert(link_met(g, order, i, g[order[i] as int][k]));
        let next = choose|j: int| 0 <= j < i && #[trigger] order[j] == p[1];
        let rest = p.drop_first();
        assert forall|n: int| 0 <= n < rest.len() - 1 implies edge(g, #[trigger] rest[n], rest[n + 1]) by {
            assert(rest[n] == p[n + 1]);
            assert(rest[n + 1] == p[n + 2]);
        }
        assert(rest[0] == p[1]);
        assert(rest.last() == p.last());
        lemma_buildable_holds_path(g, order, rest, next);
    }
}

/// A package can be put in a build order: among what it reaches nothing
/// needs itself and no dependency is missing.
pub open spec fn orderable(g: Seq<Seq<Link>>, root: usize) -> bool {
    forall|x: usize| #[trigger]
        reaches(g, root, x) ==> !on_cycle(g, x) && forall|k: int| !unresolved(g, x, k)
}

/// What holds of the build order of `root`, or of the fault in its place.
pub open spec fn order_sound(g: Seq<Seq<Link>>, root: usize, r: Result<Seq<usize>, Fault>) -> bool {
    match r {
        Ok(order) => {
            &&& buildable(g, order)
            &&& order.no_duplicates()
            &&& order.len() > 0
            &&& order.last() == root
            &&& forall|x: usize| order.contains(x) <==> reaches(g, root, x)
        },
        Err(Fault::Cycle { at }) => reaches(g, root, at) && on_cycle(g, at),
        Err(Fault::Unknown { package, dependency }) => reaches(g, root, package) && unresolved(
            g,
            package,
            dependency as int,
        ),
        Err(Fault::NoSuchPackage { package }) => package == root && root >= g.len(),
    }
}

/// The build order of a package has no forward reference: it holds each
/// package that the root reaches once, after the AUR packages it depends on,
/// and the root last. A fault names a package that the root reaches and that
/// needs itself, or a dependency of such a package that is missing.
pub proof fn lemma_order_sound(g: Seq<Seq<Link>>, root: usize)
    requires
        countable(g),
    ensures
        order_sound(g, root, order_from(g, root)),
{
    let none = Seq::<usize>::empty();
    if root < g.len() {
        lemma_walk_sound(g, root, none, none);
    }
    match order_from(g, root) {
        Ok(order) => {
            assert(order.last() == root) by {
                let mid = walk_links(g, root, 0, none.push(root), none)->Ok_0;
                assert(order == mid.push(root));
            }
            assert forall|x: usize| reaches(g, root, x) implies order.contains(x) by {
                let p = choose|p: Seq<usize>| #[trigger] is_path(g, p) && p[0] == root && p.last() == x;
                lemma_buildable_holds_path(g, order, p, order.len() - 1);
            }
        },
        Err(_) => {},
    }
}

/// A package gets a build order exactly if it can be put in one: a cycle or
/// a missing dependency among what it reaches is a fault, and nothing else is.
pub proof fn lemma_order_exists_iff_orderable(g: Seq<Seq<Link>>, root: usize)
    requires
        countable(g),
        root < g.len(),
    ensures
        order_from(g, root) is Ok <==> orderable(g, root),
{
    lemma_order_sound(g, root);
    match order_from(g, root) {
        Ok(order) => {
            assert forall|x: usize| #[trigger] reaches(g, root, x) implies !on_cycle(g, x) && forall|
                k: int,
            |
                !unresolved(g, x, k) by {
                assert(order.contains(x));
                let i = choose|i: int| 0 <= i < order.len() && order[i] == x;
                assert(ready_at(g, order, i));
                if on_cycle(g, x) {
                    let p = choose|p: Seq<usize>| #[trigger]
                        is_path(g, p) && p.len() >= 2 && p[0] == x && p.last() == x;
                    lemma_buildable_holds_path(g, order, p, i);
                }
                assert forall|k: int| !unresolved(g, x, k) by {
                    if unresolved(g, x, k) {
                        assert(link_met(g, order, i, g[order[i] as int][k]));
                    }
                }
            }
        },
        Err(Fault::Cycle { at }) => {
            assert(reaches(g, root, at) && on_cycle(g, at));
        },
        Err(Fault::Unknown { package, dependency }) => {
            assert(reaches(g, root, package) && unresolved(g, package, dependency as int));
        },
        Err(Fault::NoSuchPackage { .. }) => {},
    }
}

/// A package that depends on itself, or on a package that depends on it,
/// gets no build order.
pub proof fn lemma_mutual_dependency_is_a_fault(g: Seq<Seq<Link>>, a: usize, b: usize)
    requires
        countable(g),
        edge(g, a, b),
        edge(g, b, a),
    ensures
        order_from(g, a) is Err,
        order_from(g, b) is Err,
{
    lemma_reaches_itself(g, a);
    lemma_reaches_itself(g, b);
    lemma_edge_then_reaches(g, b, a, a);
    lemma_edge_then_reaches(g, a, b, b);
    lemma_needs_reaches(g, a, b);
    lemma_needs_reaches(g, b, a);
    lemma_edge_then_reaches(g, a, b, a);
    lemma_edge_then_reaches(g, b, a, b);
    assert(on_cycle(g, a));
    assert(on_cycle(g, b));
    lemma_order_exists_iff_orderable(g, a);
    lemma_order_exists_iff_orderable(g, b);
}

/// A package that reaches a cycle, and reaches no missing dependency, gets
/// the fault of the cycle and no other.
pub proof fn lemma_cycle_is_reported(g: Seq<Seq<Link>>, root: usize, at: usize)
    requires
        countable(g),
        root < g.len(),
        reaches(g, root, at),
        on_cycle(g, at),
        forall|x: usize, k: int| reaches(g, root, x) ==> !unresolved(g, x, k),
    ensures
        order_from(g, root) matches Err(Fault::Cycle { at: found }) && reaches(g, root, found)
            && on_cycle(g, found),
{
    lemma_order_sound(g, root);
    lemma_order_exists_iff_orderable(g, root);
}

} // verus!
