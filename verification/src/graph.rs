//! Graphs of integers, made from lists of neighbours.

use std::collections::HashMap;
use vstd::prelude::*;

verus! {

/// A node of a graph. Its neighbours are named by their places in the
/// list of the nodes of the graph.
#[derive(Debug, PartialEq, Eq)]
pub struct GraphNode {
    pub val: i32,
    pub neighbors: Vec<usize>,
}

impl GraphNode {
    /// A node with the value and without neighbours.
    #[inline]
    pub fn new(val: i32) -> (node: Self)
        ensures
            node.val == val,
            node.neighbors@ == Seq::<usize>::empty(),
    {
        GraphNode { val, neighbors: Vec::new() }
    }
}

/// One entry of the description of a graph: a value and the values of
/// its neighbours.
pub type Entry = (i32, Vec<i32>);

/// The values of the entries, in order.
pub open spec fn vals_of(entries: Seq<Entry>) -> Seq<i32> {
    Seq::new(entries.len(), |i: int| entries[i].0)
}

/// The last place that holds `v`, if any does.
pub open spec fn last_index(vals: Seq<i32>, v: i32) -> Option<int>
    decreases vals.len(),
{
    if vals.len() == 0 {
        None
    } else if vals.last() == v {
        Some(vals.len() - 1)
    } else {
        last_index(vals.drop_last(), v)
    }
}

/// The places of the nodes that the values name, in order; a value that
/// names no node is passed over.
pub open spec fn resolved(neighbors: Seq<i32>, vals: Seq<i32>) -> Seq<usize>
    decreases neighbors.len(),
{
    if neighbors.len() == 0 {
        Seq::empty()
    } else {
        let rest = resolved(neighbors.drop_last(), vals);
        match last_index(vals, neighbors.last()) {
            Some(at) => rest.push(at as usize),
            None => rest,
        }
    }
}

/// The neighbours that the first `upto` entries give the node at the
/// place `k`: those of every entry whose value names that node, entry
/// after entry.
pub open spec fn neighbors_upto(entries: Seq<Entry>, k: int, upto: int) -> Seq<usize>
    decreases upto,
{
    if upto <= 0 {
        Seq::empty()
    } else {
        let rest = neighbors_upto(entries, k, upto - 1);
        let entry = entries[upto - 1];
        if last_index(vals_of(entries), entry.0) == Some(k) {
            rest + resolved(entry.1@, vals_of(entries))
        } else {
            rest
        }
    }
}

proof fn lemma_last_index(vals: Seq<i32>, v: i32)
    ensures
        match last_index(vals, v) {
            Some(at) => 0 <= at < vals.len() && vals[at] == v,
            None => forall|i: int| 0 <= i < vals.len() ==> vals[i] != v,
        },
    decreases vals.len(),
{
    if vals.len() > 0 && vals.last() != v {
        lemma_last_index(vals.drop_last(), v);
        match last_index(vals.drop_last(), v) {
            Some(at) => {
                assert(vals.drop_last()[at] == vals[at]);
            },
            None => {
                assert forall|i: int| 0 <= i < vals.len() implies vals[i] != v by {
                    if i < vals.len() - 1 {
                        assert(vals.drop_last()[i] == vals[i]);
                    }
                }
            },
        }
    }
}

/// The graph that the entries describe. There is a node for every entry,
/// in the order of the entries, with the entry's value. A value names the
/// last node that has it. The neighbours of an entry go, in order, to the
/// node that the entry's value names; a neighbour's value that names no
/// node is passed over.
pub fn to_graph(vec: Vec<Entry>) -> (nodes: Vec<GraphNode>)
    ensures
        nodes@.len() == vec@.len(),
        forall|k: int|
            0 <= k < nodes@.len() ==> (#[trigger] nodes@[k]).val == vec@[k].0 && nodes@[k].neighbors@
                == neighbors_upto(vec@, k, vec@.len() as int),
{
    broadcast use vstd::std_specs::hash::group_hash_axioms;

    let ghost vals = vals_of(vec@);
    let mut index_map: HashMap<i32, usize> = HashMap::new();
    let mut i: usize = 0;
    assert(vals.subrange(0, 0) =~= Seq::<i32>::empty());
    while i < vec.len()
        invariant
            i <= vec.len(),
            vals == vals_of(vec@),
            forall|v: i32|
                index_map@.contains_key(v) <==> last_index(vals.subrange(0, i as int), v) is Some,
            forall|v: i32|
                index_map@.contains_key(v) ==> #[trigger] index_map@[v] as int == last_index(
                    vals.subrange(0, i as int),
                    v,
                )->0,
        decreases vec.len() - i,
    {
        proof {
            let longer = vals.subrange(0, i + 1);
            assert(longer.drop_last() =~= vals.subrange(0, i as int));
            assert(longer.last() == vec@[i as int].0);
        }
        index_map.insert(vec[i].0, i);
        i += 1;
    }
    assert(vals.subrange(0, vals.len() as int) =~= vals);

    let mut lists: Vec<Vec<usize>> = Vec::new();
    let mut n: usize = 0;
    while n < vec.len()
        invariant
            n <= vec.len(),
            lists@.len() == n,
            forall|k: int| 0 <= k < n ==> (#[trigger] lists@[k])@ == Seq::<usize>::empty(),
        decreases vec.len() - n,
    {
        lists.push(Vec::new());
        n += 1;
    }

    let mut e: usize = 0;
    while e < vec.len()
        invariant
            e <= vec.len(),
            vals == vals_of(vec@),
            lists@.len() == vec@.len(),
            forall|v: i32| index_map@.contains_key(v) <==> last_index(vals, v) is Some,
            forall|v: i32|
                index_map@.contains_key(v) ==> #[trigger] index_map@[v] as int == last_index(
                    vals,
                    v,
                )->0,
            forall|k: int|
                0 <= k < lists@.len() ==> (#[trigger] lists@[k])@ == neighbors_upto(
                    vec@,
                    k,
                    e as int,
                ),
        decreases vec.len() - e,
    {
        let neighbors = &vec[e].1;
        let mut found: Vec<usize> = Vec::new();
        let mut j: usize = 0;
        assert(neighbors@.subrange(0, 0) =~= Seq::<i32>::empty());
        while j < neighbors.len()
            invariant
                j <= neighbors.len(),
                forall|v: i32| index_map@.contains_key(v) <==> last_index(vals, v) is Some,
                forall|v: i32|
                    index_map@.contains_key(v) ==> #[trigger] index_map@[v] as int == last_index(
                        vals,
                        v,
                    )->0,
                found@ == resolved(neighbors@.subrange(0, j as int), vals),
            decreases neighbors.len() - j,
        {
            proof {
                let longer = neighbors@.subrange(0, j + 1);
                assert(longer.drop_last() =~= neighbors@.subrange(0, j as int));
                assert(longer.last() == neighbors@[j as int]);
            }
            match index_map.get(&neighbors[j]) {
                Some(at) => {
                    found.push(*at);
                },
                None => {},
            }
            j += 1;
        }
        assert(neighbors@.subrange(0, neighbors@.len() as int) =~= neighbors@);
        proof {
            lemma_last_index(vals, vec@[e as int].0);
            assert(vals[e as int] == vec@[e as int].0);
        }
        let ghost before = lists@;
        match index_map.get(&vec[e].0) {
            Some(at) => {
                let at = *at;
                let mut list = lists.remove(at);
                let mut found = found;
                list.append(&mut found);
                lists.insert(at, list);
                assert forall|k: int| 0 <= k < lists@.len() implies (#[trigger] lists@[k])@
                    == neighbors_upto(vec@, k, e + 1) by {
                    if k != at {
                        assert(lists@[k] == before[k]);
                    }
                }
            },
            None => {},
        }
        e += 1;
    }

    let mut nodes: Vec<GraphNode> = Vec::new();
    let mut k: usize = 0;
    let ghost all = lists@;
    while k < vec.len()
        invariant
            k <= vec.len(),
            all.len() == vec@.len(),
            lists@.len() + k == vec@.len(),
            forall|m: int| 0 <= m < lists@.len() ==> lists@[m] == all[k + m],
            forall|m: int|
                0 <= m < all.len() ==> (#[trigger] all[m])@ == neighbors_upto(
                    vec@,
                    m,
                    vec@.len() as int,
                ),
            nodes@.len() == k,
            forall|m: int|
                0 <= m < k ==> (#[trigger] nodes@[m]).val == vec@[m].0 && nodes@[m].neighbors@
                    == neighbors_upto(vec@, m, vec@.len() as int),
        decreases vec.len() - k,
    {
        let neighbors = lists.remove(0);
        nodes.push(GraphNode { val: vec[k].0, neighbors });
        k += 1;
    }
    nodes
}

} // verus!
