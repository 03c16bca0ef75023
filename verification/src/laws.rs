//! What holds of every store and every run of the graph operations, stated
//! over the relations in which the operations' contracts are written.

use vstd::prelude::*;
use crate::adjacency::{
    lemma_with_edge_no_duplicates,
    lemma_with_edge_once,
    lemma_with_edge_twice,
    lemma_without_edge_absent,
    lemma_without_edge_no_duplicates,
    lemma_without_edge_undoes_with_edge,
    occurrences,
    with_edge,
    without_edge,
};
use crate::graph::{
    doubly_added,
    doubly_removed,
    edge_added,
    edge_removed,
    node_added,
    rewired,
    rewired_pair,
};
use crate::node::Node;

verus! {

/// No adjacency list in the store holds a key twice.
pub open spec fn lists_are_unique<K, N: Node<K>>(nodes: Map<K, N>) -> bool {
    forall|k: K| nodes.contains_key(k) ==> (#[trigger] nodes[k]).edges().no_duplicates()
}

/// `stores` is the history of a store into which the nodes `nodes` were
/// added one after the other, the `i`-th under the key `keys[i]`.
pub open spec fn grown_by_adding<K, N>(stores: Seq<Map<K, N>>, keys: Seq<K>, nodes: Seq<N>) -> bool {
    &&& stores.len() == keys.len() + 1
    &&& nodes.len() == keys.len()
    &&& forall|i: int|
        0 <= i < keys.len() ==> node_added(stores[i], stores[i + 1], #[trigger] keys[i], nodes[i])
}

/// A node that was added is in the store under the key that `add` returned,
/// as it was handed in, and the nodes that were there before are untouched.
pub proof fn lemma_added_node_is_stored<K, N>(pre: Map<K, N>, post: Map<K, N>, key: K, node: N)
    requires
        node_added(pre, post, key, node),
    ensures
        post.contains_key(key),
        post[key] == node,
        forall|k: K| pre.contains_key(k) ==> post.contains_key(k) && #[trigger] post[k] == pre[k],
{
}

/// Adding the same edge a second time changes no adjacency list.
pub proof fn lemma_add_edge_is_idempotent<K, N: Node<K>>(
    pre: Map<K, N>,
    once: Map<K, N>,
    twice: Map<K, N>,
    src: K,
    dst: K,
)
    requires
        edge_added(pre, once, src, dst),
        edge_added(once, twice, src, dst),
    ensures
        twice[src].edges() == once[src].edges(),
        twice[src].edges().contains(dst),
        rewired(pre, twice, src),
{
    N::same_payload_is_equivalence();
    lemma_with_edge_twice(pre[src].edges(), dst);
}

/// Where the list of `src` held `dst` at most once, it holds `dst` exactly
/// once after the edge is added, however often it is added.
pub proof fn lemma_added_edge_stands_once<K, N: Node<K>>(
    pre: Map<K, N>,
    once: Map<K, N>,
    twice: Map<K, N>,
    src: K,
    dst: K,
)
    requires
        edge_added(pre, once, src, dst),
        edge_added(once, twice, src, dst),
        occurrences(pre[src].edges(), dst) <= 1,
    ensures
        occurrences(once[src].edges(), dst) == 1,
        occurrences(twice[src].edges(), dst) == 1,
{
    lemma_with_edge_once(pre[src].edges(), dst);
    lemma_with_edge_twice(pre[src].edges(), dst);
}

/// Removing an edge that is not there changes no adjacency list.
pub proof fn lemma_remove_absent_edge<K, N: Node<K>>(
    pre: Map<K, N>,
    post: Map<K, N>,
    src: K,
    dst: K,
)
    requires
        edge_removed(pre, post, src, dst),
        !pre[src].edges().contains(dst),
    ensures
        post[src].edges() == pre[src].edges(),
{
    lemma_without_edge_absent(pre[src].edges(), dst);
}

/// Adding the edges between two nodes and removing them again gives both
/// adjacency lists back, where neither edge was there before.
pub proof fn lemma_doubly_round_trip<K, N: Node<K>>(
    pre: Map<K, N>,
    linked: Map<K, N>,
    post: Map<K, N>,
    a: K,
    b: K,
)
    requires
        doubly_added(pre, linked, a, b),
        doubly_removed(linked, post, a, b),
        !pre[a].edges().contains(b),
        !pre[b].edges().contains(a),
    ensures
        post[a].edges() == pre[a].edges(),
        post[b].edges() == pre[b].edges(),
        rewired_pair(pre, post, a, b),
{
    N::same_payload_is_equivalence();
    lemma_without_edge_undoes_with_edge(pre[a].edges(), b);
    lemma_without_edge_undoes_with_edge(pre[b].edges(), a);
    if a == b {
        lemma_with_edge_twice(pre[a].edges(), a);
        lemma_without_edge_absent(pre[a].edges(), a);
    }
}

/// Adding an edge keeps every adjacency list free of repeats.
pub proof fn lemma_add_edge_keeps_lists_unique<K, N: Node<K>>(
    pre: Map<K, N>,
    post: Map<K, N>,
    src: K,
    dst: K,
)
    requires
        lists_are_unique(pre),
        edge_added(pre, post, src, dst),
    ensures
        lists_are_unique(post),
{
    lemma_with_edge_no_duplicates(pre[src].edges(), dst);
}

/// Removing an edge keeps every adjacency list free of repeats, and the
/// list of `src` then holds `dst` no more.
pub proof fn lemma_remove_edge_keeps_lists_unique<K, N: Node<K>>(
    pre: Map<K, N>,
    post: Map<K, N>,
    src: K,
    dst: K,
)
    requires
        lists_are_unique(pre),
        edge_removed(pre, post, src, dst),
    ensures
        lists_are_unique(post),
        !post[src].edges().contains(dst),
{
    lemma_without_edge_no_duplicates(pre[src].edges(), dst);
}

/// Adding the edges between two nodes keeps every adjacency list free of
/// repeats.
pub proof fn lemma_add_doubly_edge_keeps_lists_unique<K, N: Node<K>>(
    pre: Map<K, N>,
    post: Map<K, N>,
    src: K,
    dst: K,
)
    requires
        lists_are_unique(pre),
        doubly_added(pre, post, src, dst),
    ensures
        lists_are_unique(post),
{
    let forth = with_edge(pre[src].edges(), dst);
    lemma_with_edge_no_duplicates(pre[src].edges(), dst);
    lemma_with_edge_no_duplicates(pre[dst].edges(), src);
    lemma_with_edge_no_duplicates(forth, src);
}

/// Removing the edges between two nodes keeps every adjacency list free of
/// repeats, and neither list then holds the other node.
pub proof fn lemma_remove_doubly_edge_keeps_lists_unique<K, N: Node<K>>(
    pre: Map<K, N>,
    post: Map<K, N>,
    src: K,
    dst: K,
)
    requires
        lists_are_unique(pre),
        doubly_removed(pre, post, src, dst),
    ensures
        lists_are_unique(post),
        !post[src].edges().contains(dst),
        !post[dst].edges().contains(src),
{
    let forth = without_edge(pre[src].edges(), dst);
    lemma_without_edge_no_duplicates(pre[src].edges(), dst);
    lemma_without_edge_no_duplicates(pre[dst].edges(), src);
    lemma_without_edge_no_duplicates(forth, src);
}

/// Two directed additions, there and back, are one addition in both
/// directions.
pub proof fn lemma_add_doubly_edge_is_two_steps<K, N: Node<K>>(
    pre: Map<K, N>,
    halfway: Map<K, N>,
    post: Map<K, N>,
    src: K,
    dst: K,
)
    requires
        edge_added(pre, halfway, src, dst),
        edge_added(halfway, post, dst, src),
    ensures
        doubly_added(pre, post, src, dst),
{
    N::same_payload_is_equivalence();
}

/// Two directed removals, there and back, are one removal in both
/// directions.
pub proof fn lemma_remove_doubly_edge_is_two_steps<K, N: Node<K>>(
    pre: Map<K, N>,
    halfway: Map<K, N>,
    post: Map<K, N>,
    src: K,
    dst: K,
)
    requires
        edge_removed(pre, halfway, src, dst),
        edge_removed(halfway, post, dst, src),
    ensures
        doubly_removed(pre, post, src, dst),
{
    N::same_payload_is_equivalence();
}

/// In a store that only grows by `add`, every key that was handed out is
/// still in use and leads to the node it was handed out for, and no key was
/// handed out twice.
pub proof fn lemma_issued_keys_are_distinct<K, N>(
    stores: Seq<Map<K, N>>,
    keys: Seq<K>,
    nodes: Seq<N>,
)
    requires
        grown_by_adding(stores, keys, nodes),
    ensures
        forall|i: int|
            0 <= i < keys.len() ==> stores.last().contains_key(#[trigger] keys[i])
                && stores.last()[keys[i]] == nodes[i],
        keys.no_duplicates(),
    decreases keys.len(),
{
    if keys.len() > 0 {
        let n = keys.len() - 1;
        let earlier_stores = stores.drop_last();
        let earlier_keys = keys.drop_last();
        let earlier_nodes = nodes.drop_last();
        // The history before the last addition is a history of its own.
        assert forall|i: int| 0 <= i < n implies earlier_keys[i] == #[trigger] keys[i]
            && earlier_nodes[i] == nodes[i] by {}
        assert(grown_by_adding(earlier_stores, earlier_keys, earlier_nodes));
        lemma_issued_keys_are_distinct(earlier_stores, earlier_keys, earlier_nodes);
        // The last addition took a key that was free and left the others in
        // place.
        assert(node_added(stores[n], stores[n + 1], keys[n], nodes[n]));
    }
}

/// In a store that only grows by `add`, a key that is free at the end, as
/// `new_key` returns one, is none of the keys that were handed out before.
pub proof fn lemma_new_key_was_never_issued<K, N>(
    stores: Seq<Map<K, N>>,
    keys: Seq<K>,
    nodes: Seq<N>,
    fresh: K,
)
    requires
        grown_by_adding(stores, keys, nodes),
        !stores.last().contains_key(fresh),
    ensures
        !keys.contains(fresh),
{
    lemma_issued_keys_are_distinct(stores, keys, nodes);
}

} // verus!
