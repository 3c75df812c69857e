//! The graph of AUR packages and the depth-first walk that orders it.
//!
//! A node is an AUR package, known by its place in the list of packages. Each
//! node has one link per declared dependency, in the order of declaration.

use vstd::prelude::*;
use crate::resolve::laws::{countable, lemma_order_sound, order_sound};

verus! {

/// Where a declared dependency was found.
#[derive(Debug, Clone, Copy, PartialEq, Eq, Structural)]
pub enum Link {
    /// A package of the official repositories: the package manager installs it.
    Repo,
    /// A name that a package of the official repositories provides.
    VirtualProvided,
    /// The AUR package at this place: it has to be built.
    Aur(usize),
    /// Neither the repositories nor the AUR have it.
    Missing,
}

/// Why a package cannot be put into a build order.
#[derive(Debug, Clone, Copy, PartialEq, Eq, Structural)]
pub enum Fault {
    /// The package `at` was reached again while its own dependencies were being followed.
    Cycle { at: usize },
    /// The dependency at place `dependency` of `package` is missing.
    Unknown { package: usize, dependency: usize },
    /// The graph has no package at the place `package`.
    NoSuchPackage { package: usize },
}

/// The links of each node, as sequences.
pub open spec fn rows(graph: Seq<Vec<Link>>) -> Seq<Seq<Link>> {
    graph.map_values(|links: Vec<Link>| links@)
}

/// The walk from `node`: what has been ordered once `node` and all that it
/// needs are, or the first fault met.
///
/// `stack` holds the nodes whose dependencies are being followed, `done` those
/// already ordered. A node that is done is not walked again; a node that is on
/// the stack closes a cycle. Otherwise its dependencies are walked in the
/// order of declaration, and the node is ordered after them.
pub open spec fn walk(g: Seq<Seq<Link>>, node: usize, stack: Seq<usize>, done: Seq<usize>) -> Result<
    Seq<usize>,
    Fault,
>
    decreases g.len() - stack.len(), 0int, 0int,
{
    if done.contains(node) {
        Ok(done)
    } else if stack.contains(node) || stack.len() >= g.len() {
        Err(Fault::Cycle { at: node })
    } else {
        match walk_links(g, node, 0, stack.push(node), done) {
            Ok(after) => Ok(after.push(node)),
            Err(fault) => Err(fault),
        }
    }
}

/// The walk through the links of `node` from place `k` on.
pub open spec fn walk_links(
    g: Seq<Seq<Link>>,
    node: usize,
    k: int,
    stack: Seq<usize>,
    done: Seq<usize>,
) -> Result<Seq<usize>, Fault>
    decreases g.len() - stack.len(), 1int, g[node as int].len() - k,
{
    if node >= g.len() || k < 0 || k >= g[node as int].len() {
        Ok(done)
    } else {
        match g[node as int][k] {
            Link::Repo | Link::VirtualProvided => walk_links(g, node, k + 1, stack, done),
            Link::Missing => Err(Fault::Unknown { package: node, dependency: k as usize }),
            Link::Aur(child) => if child >= g.len() {
                Err(Fault::Unknown { package: node, dependency: k as usize })
            } else {
                match walk(g, child, stack, done) {
                    Ok(after) => walk_links(g, node, k + 1, stack, after),
                    Err(fault) => Err(fault),
                }
            },
        }
    }
}

/// The order in which to build `root` and what it needs, or the fault that forbids it.
pub open spec fn order_from(g: Seq<Seq<Link>>, root: usize) -> Result<Seq<usize>, Fault> {
    if root < g.len() {
        walk(g, root, Seq::empty(), Seq::empty())
    } else {
        Err(Fault::NoSuchPackage { package: root })
    }
}

/// The links of a graph that is held in memory can be counted.
pub proof fn lemma_rows_countable(graph: Vec<Vec<Link>>)
    ensures
        countable(rows(graph@)),
{
    assert forall|i: int| 0 <= i < rows(graph@).len() implies (#[trigger] rows(graph@)[i]).len()
        <= usize::MAX by {
        assert(graph@[i]@.len() == graph@[i].len());
    }
}

/// Whether a list holds a node.
pub fn holds(list: &Vec<usize>, node: usize) -> (found: bool)
    ensures
        found == list@.contains(node),
{
    let mut i: usize = 0;
    while i < list.len()
        invariant
            i <= list.len(),
            forall|j: int| 0 <= j < i ==> list[j] != node,
        decreases list.len() - i,
    {
        if list[i] == node {
            return true;
        }
        i += 1;
    }
    false
}

/// Walks from `node`, ordering it after all that it needs.
fn visit(graph: &Vec<Vec<Link>>, node: usize, stack: &Vec<usize>, done: Vec<usize>) -> (r: Result<
    Vec<usize>,
    Fault,
>)
    requires
        node < graph.len(),
    ensures
        match r {
            Ok(after) => walk(rows(graph@), node, stack@, done@) == Ok::<Seq<usize>, Fault>(
                after@,
            ),
            Err(fault) => walk(rows(graph@), node, stack@, done@) == Err::<Seq<usize>, Fault>(
                fault,
            ),
        },
    decreases graph.len() - stack.len(), 0int, 0int,
{
    if holds(&done, node) {
        return Ok(done);
    }
    if holds(stack, node) || stack.len() >= graph.len() {
        return Err(Fault::Cycle { at: node });
    }
    let mut deeper = stack.clone();
    deeper.push(node);
    assert(deeper@ == stack@.push(node));
    let ghost g = rows(graph@);
    let ghost start = done@;
    let ghost whole = walk_links(g, node, 0, deeper@, start);
    let mut ordered = done;
    let mut k: usize = 0;
    while k < graph[node].len()
        invariant
            node < graph.len(),
            g == rows(graph@),
            k <= graph[node as int].len(),
            deeper@ == stack@.push(node),
            !start.contains(node),
            !stack@.contains(node),
            stack@.len() < graph.len(),
            start == done@,
            whole == walk_links(g, node, 0, deeper@, start),
            walk_links(g, node, k as int, deeper@, ordered@) == whole,
        decreases graph[node as int].len() - k,
    {
        assert(g[node as int] == graph[node as int]@);
        match graph[node][k] {
            Link::Repo | Link::VirtualProvided => {},
            Link::Missing => {
                return Err(Fault::Unknown { package: node, dependency: k });
            },
            Link::Aur(child) => {
                if child >= graph.len() {
                    return Err(Fault::Unknown { package: node, dependency: k });
                }
                match visit(graph, child, &deeper, ordered) {
                    Ok(after) => {
                        ordered = after;
                    },
                    Err(fault) => {
                        return Err(fault);
                    },
                }
            },
        }
        k += 1;
    }
    assert(g[node as int] == graph[node as int]@);
    ordered.push(node);
    Ok(ordered)
}

/// The order in which to build `root` and all that it needs: every package
/// after the AUR packages that it depends on, dependencies in the order of
/// declaration. Fails on the first missing dependency or cycle met, and for
/// a root that the graph does not have.
pub fn build_order(graph: &Vec<Vec<Link>>, root: usize) -> (r: Result<Vec<usize>, Fault>)
    ensures
        match r {
            Ok(order) => order_from(rows(graph@), root) == Ok::<Seq<usize>, Fault>(order@),
            Err(fault) => order_from(rows(graph@), root) == Err::<Seq<usize>, Fault>(fault),
        },
        order_sound(rows(graph@), root, order_from(rows(graph@), root)),
{
    proof {
        lemma_rows_countable(*graph);
        lemma_order_sound(rows(graph@), root);
    }
    if root >= graph.len() {
        return Err(Fault::NoSuchPackage { package: root });
    }
    let stack: Vec<usize> = Vec::new();
    let done: Vec<usize> = Vec::new();
    visit(graph, root, &stack, done)
}

} // verus!
