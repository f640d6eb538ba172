//! Local source directories to watch.
//!
//! The watch loop subscribes to the directories of every workspace-local
//! package reachable from the resolved roots through the dependency graph.
//! Remote packages are skipped and their dependencies are not followed: a
//! change can only matter if it is on a local path. The traversal below is
//! a depth-first worklist over the metadata's dependency graph, exactly as
//! `traverse_spec` states it.

use vstd::prelude::*;

use crate::bytes::copy_bytes;

verus! {

/// One package of the resolved dependency graph.
pub struct DepNode {
    /// The directory holding the package's manifest.
    pub manifest_dir: Vec<u8>,
    /// Whether the package lives in the local source tree (it has no
    /// registry source).
    pub is_local: bool,
    /// The indices of the packages it depends on.
    pub deps: Vec<usize>,
}

/// The mathematical content of a `DepNode`.
pub ghost struct DepNodeView {
    pub manifest_dir: Seq<u8>,
    pub is_local: bool,
    pub deps: Seq<usize>,
}

impl View for DepNode {
    type V = DepNodeView;

    open spec fn view(&self) -> DepNodeView {
        DepNodeView {
            manifest_dir: self.manifest_dir@,
            is_local: self.is_local,
            deps: self.deps@,
        }
    }
}

/// The models of a sequence of dependency nodes.
pub open spec fn dep_models(s: Seq<DepNode>) -> Seq<DepNodeView> {
    s.map_values(|n: DepNode| n@)
}

/// How many entries of `seen` are still false.
pub open spec fn count_unseen(seen: Seq<bool>) -> int
    decreases seen.len(),
{
    if seen.len() == 0 {
        0
    } else {
        count_unseen(seen.drop_last()) + (if seen.last() {
            0int
        } else {
            1int
        })
    }
}

/// Marking one unseen entry lowers the unseen count.
pub proof fn lemma_count_unseen_mark(seen: Seq<bool>, i: int)
    requires
        0 <= i < seen.len(),
        !seen[i],
    ensures
        count_unseen(seen.update(i, true)) == count_unseen(seen) - 1,
    decreases seen.len(),
{
    let updated = seen.update(i, true);
    if i == seen.len() - 1 {
        assert(updated.drop_last() =~= seen.drop_last());
    } else {
        assert(updated.drop_last() =~= seen.drop_last().update(i, true));
        lemma_count_unseen_mark(seen.drop_last(), i);
    }
}

/// The depth-first worklist over the dependency graph: the top of the stack
/// is taken; an index out of range or already seen is dropped; a remote
/// package is marked seen and its dependencies are not followed; a local
/// package is marked seen, its directory collected, and its dependencies
/// pushed. The result is the collected directories once the stack is empty.
pub open spec fn traverse_spec(
    nodes: Seq<DepNodeView>,
    stack: Seq<usize>,
    seen: Seq<bool>,
    acc: Seq<Seq<u8>>,
) -> Seq<Seq<u8>>
    recommends
        seen.len() == nodes.len(),
    decreases count_unseen(seen), stack.len(),
    via traverse_spec_decreases
{
    if stack.len() == 0 {
        acc
    } else {
        let id = stack.last() as int;
        let rest = stack.drop_last();
        if !(id < nodes.len() && id < seen.len()) {
            traverse_spec(nodes, rest, seen, acc)
        } else if seen[id] {
            traverse_spec(nodes, rest, seen, acc)
        } else if !nodes[id].is_local {
            traverse_spec(nodes, rest, seen.update(id, true), acc)
        } else {
            traverse_spec(
                nodes,
                rest + nodes[id].deps,
                seen.update(id, true),
                acc.push(nodes[id].manifest_dir),
            )
        }
    }
}

#[via_fn]
proof fn traverse_spec_decreases(
    nodes: Seq<DepNodeView>,
    stack: Seq<usize>,
    seen: Seq<bool>,
    acc: Seq<Seq<u8>>,
) {
    if stack.len() > 0 {
        let id = stack.last() as int;
        lemma_count_unseen_nonneg(seen);
        if id < nodes.len() && id < seen.len() && !seen[id] {
            lemma_count_unseen_mark(seen, id);
            lemma_count_unseen_nonneg(seen.update(id, true));
        }
    }
}

/// `count_unseen` never goes negative.
pub proof fn lemma_count_unseen_nonneg(seen: Seq<bool>)
    ensures
        count_unseen(seen) >= 0,
    decreases seen.len(),
{
    if seen.len() > 0 {
        lemma_count_unseen_nonneg(seen.drop_last());
    }
}

/// Collects the manifest directories of the local packages reachable from
/// the roots, depth first, exactly as `traverse_spec` states: remote
/// packages block the walk, and each package is taken at most once.
pub fn local_dep_dirs(nodes: &Vec<DepNode>, roots: &Vec<usize>) -> (r: Vec<Vec<u8>>)
    ensures
        r@.map_values(|d: Vec<u8>| d@) == traverse_spec(
            dep_models(nodes@),
            roots@,
            Seq::new(nodes@.len(), |i: int| false),
            Seq::empty(),
        ),
{
    let ghost nodes_v = dep_models(nodes@);
    let mut seen: Vec<bool> = Vec::new();
    let mut k: usize = 0;
    while k < nodes.len()
        invariant
            k <= nodes.len(),
            seen@ =~= Seq::new(k as nat, |i: int| false),
        decreases nodes.len() - k,
    {
        seen.push(false);
        k += 1;
    }
    let mut stack: Vec<usize> = Vec::new();
    let mut j: usize = 0;
    while j < roots.len()
        invariant
            j <= roots.len(),
            stack@ == roots@.subrange(0, j as int),
        decreases roots.len() - j,
    {
        stack.push(roots[j]);
        j += 1;
        proof {
            assert(stack@ =~= roots@.subrange(0, j as int));
        }
    }
    proof {
        assert(roots@.subrange(0, roots@.len() as int) =~= roots@);
    }
    let mut acc: Vec<Vec<u8>> = Vec::new();
    let ghost init_stack = roots@;
    let ghost init_seen = Seq::new(nodes@.len() as nat, |i: int| false);
    proof {
        assert(acc@.map_values(|d: Vec<u8>| d@) =~= Seq::<Seq<u8>>::empty());
    }
    loop
        invariant
            seen@.len() == nodes@.len(),
            nodes_v == dep_models(nodes@),
            traverse_spec(
                nodes_v,
                stack@,
                seen@,
                acc@.map_values(|d: Vec<u8>| d@),
            ) == traverse_spec(nodes_v, init_stack, init_seen, Seq::empty()),
        ensures
            stack@.len() == 0,
            acc@.map_values(|d: Vec<u8>| d@) == traverse_spec(
                nodes_v,
                init_stack,
                init_seen,
                Seq::empty(),
            ),
        decreases count_unseen(seen@) + 1, stack@.len(),
    {
        proof {
            lemma_count_unseen_nonneg(seen@);
        }
        let ghost stack_v = stack@;
        let ghost seen_v = seen@;
        let ghost acc_v = acc@.map_values(|d: Vec<u8>| d@);
        let popped = stack.pop();
        let id = match popped {
            Some(id) => id,
            None => {
                break ;
            },
        };
        proof {
            assert(stack_v.len() > 0);
            assert(stack_v.last() == id);
            assert(stack@ =~= stack_v.drop_last());
        }
        if id >= nodes.len() {
            proof {
                assert(!(id < nodes_v.len()));
                assert(traverse_spec(nodes_v, stack_v, seen_v, acc_v) == traverse_spec(
                    nodes_v,
                    stack_v.drop_last(),
                    seen_v,
                    acc_v,
                ));
            }
            continue ;
        }
        if seen[id] {
            proof {
                assert(traverse_spec(nodes_v, stack_v, seen_v, acc_v) == traverse_spec(
                    nodes_v,
                    stack_v.drop_last(),
                    seen_v,
                    acc_v,
                ));
            }
            continue ;
        }
        let node = &nodes[id];
        proof {
            assert(nodes_v[id as int] == nodes@[id as int]@);
            lemma_count_unseen_mark(seen_v, id as int);
        }
        if node.is_local {
            seen[id] = true;
            acc.push(copy_bytes(&node.manifest_dir));
            proof {
                assert(seen@ =~= seen_v.update(id as int, true));
                assert(acc@.map_values(|dd: Vec<u8>| dd@) =~= acc_v.push(
                    nodes_v[id as int].manifest_dir,
                ));
            }
            let mut d: usize = 0;
            let ghost stack_mid = stack@;
            while d < node.deps.len()
                invariant
                    d <= node.deps.len(),
                    id < nodes.len(),
                    node == &nodes[id as int],
                    stack@ == stack_mid + nodes@[id as int]@.deps.subrange(0, d as int),
                decreases node.deps.len() - d,
            {
                stack.push(node.deps[d]);
                d += 1;
                proof {
                    assert(stack@ =~= stack_mid + nodes@[id as int]@.deps.subrange(
                        0,
                        d as int,
                    ));
                }
            }
            proof {
                assert(nodes@[id as int]@.deps.subrange(
                    0,
                    nodes@[id as int]@.deps.len() as int,
                ) =~= nodes@[id as int]@.deps);
                assert(stack@ =~= stack_v.drop_last() + nodes_v[id as int].deps);
                assert(traverse_spec(nodes_v, stack_v, seen_v, acc_v) == traverse_spec(
                    nodes_v,
                    stack_v.drop_last() + nodes_v[id as int].deps,
                    seen_v.update(id as int, true),
                    acc_v.push(nodes_v[id as int].manifest_dir),
                ));
            }
        } else {
            seen[id] = true;
            proof {
                assert(seen@ =~= seen_v.update(id as int, true));
                assert(traverse_spec(nodes_v, stack_v, seen_v, acc_v) == traverse_spec(
                    nodes_v,
                    stack_v.drop_last(),
                    seen_v.update(id as int, true),
                    acc_v,
                ));
            }
        }
    }
    acc
}

} // verus!
