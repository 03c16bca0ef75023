//! The graph contract: a keyed store of nodes, and the edge operations that
//! every such store gets.

use vstd::prelude::*;
use crate::adjacency::{link, linked, unlink, unlinked, with_edge, without_edge};
use crate::keys::{eq_is_identity, keys_are_values};
use crate::error::{ClusterError, ADD_EDGE_MISSING_NODE, REMOVE_EDGE_MISSING_NODE};
use crate::node::Node;

verus! {

/// `post` is `pre` but for the adjacency list of the node at `key`: the same
/// keys, every other node as it was, and the payload at `key` kept.
pub open spec fn rewired<K, N: Node<K>>(pre: Map<K, N>, post: Map<K, N>, key: K) -> bool {
    &&& pre.contains_key(key)
    &&& post.dom() =~= pre.dom()
    &&& forall|k: K| k != key && pre.contains_key(k) ==> #[trigger] post[k] == pre[k]
    &&& pre[key].same_payload(&post[key])
}

/// `post` is `pre` but for the adjacency lists of the nodes at `a` and at
/// `b`, which may be one node.
pub open spec fn rewired_pair<K, N: Node<K>>(pre: Map<K, N>, post: Map<K, N>, a: K, b: K) -> bool {
    &&& pre.contains_key(a)
    &&& pre.contains_key(b)
    &&& post.dom() =~= pre.dom()
    &&& forall|k: K| k != a && k != b && pre.contains_key(k) ==> #[trigger] post[k] == pre[k]
    &&& pre[a].same_payload(&post[a])
    &&& pre[b].same_payload(&post[b])
}

/// `post` is `pre` after a node was stored under the key `key`, which was
/// free.
pub open spec fn node_added<K, N>(pre: Map<K, N>, post: Map<K, N>, key: K, node: N) -> bool {
    &&& !pre.contains_key(key)
    &&& post =~= pre.insert(key, node)
}

/// `post` is `pre` with the edge from `src` to `dst` added.
pub open spec fn edge_added<K, N: Node<K>>(pre: Map<K, N>, post: Map<K, N>, src: K, dst: K) -> bool {
    &&& rewired(pre, post, src)
    &&& linked(pre[src].edges(), post[src].edges(), dst)
}

/// `post` is `pre` with the edge from `src` to `dst` removed.
pub open spec fn edge_removed<K, N: Node<K>>(
    pre: Map<K, N>,
    post: Map<K, N>,
    src: K,
    dst: K,
) -> bool {
    &&& rewired(pre, post, src)
    &&& unlinked(pre[src].edges(), post[src].edges(), dst)
}

/// `post` is `pre` with the edge from `src` to `dst` added, and then the
/// edge from `dst` to `src`. The two steps work on two lists, or, for a node
/// and itself, one after the other on the same list.
pub open spec fn doubly_added<K, N: Node<K>>(
    pre: Map<K, N>,
    post: Map<K, N>,
    src: K,
    dst: K,
) -> bool {
    let forth = with_edge(pre[src].edges(), dst);
    &&& rewired_pair(pre, post, src, dst)
    &&& linked(pre[src].edges(), forth, dst)
    &&& if src == dst {
        linked(forth, post[src].edges(), src)
    } else {
        &&& post[src].edges() == forth
        &&& linked(pre[dst].edges(), post[dst].edges(), src)
    }
}

/// `post` is `pre` with the edge from `src` to `dst` removed, and then the
/// edge from `dst` to `src`. The two steps work on two lists, or, for a node
/// and itself, one after the other on the same list.
pub open spec fn doubly_removed<K, N: Node<K>>(
    pre: Map<K, N>,
    post: Map<K, N>,
    src: K,
    dst: K,
) -> bool {
    let forth = without_edge(pre[src].edges(), dst);
    &&& rewired_pair(pre, post, src, dst)
    &&& unlinked(pre[src].edges(), forth, dst)
    &&& if src == dst {
        unlinked(forth, post[src].edges(), src)
    } else {
        &&& post[src].edges() == forth
        &&& unlinked(pre[dst].edges(), post[dst].edges(), src)
    }
}

/// A graph: a store that maps keys to nodes. The store supplies lookup,
/// insertion under a fresh key and removal; the edge operations come with the
/// trait and work through those alone.
///
/// Every edge operation fails exactly when a node that it has to change is
/// missing, and changes nothing but the adjacency lists it is about. What
/// stands in those lists afterwards is stated for key types on which `==`
/// is identity (see [`crate::keys`]); the operations in both directions also
/// clone their keys, and are stated for key types whose clones are the keys
/// themselves.
pub trait Cluster<K, N: Node<K>> where K: PartialEq, K: Clone {
    /// The nodes in the store, by key.
    spec fn nodes(&self) -> Map<K, N>;

    /// Removes the node at `key` and hands it out. The adjacency lists of the
    /// other nodes are left as they are, also where they name `key`.
    fn remove(&mut self, key: &K) -> (removed: Option<N>)
        ensures
            removed == (if old(self).nodes().contains_key(*key) {
                Some(old(self).nodes()[*key])
            } else {
                None
            }),
            final(self).nodes() == old(self).nodes().remove(*key),
    ;

    /// Whether a node is stored at `key`.
    fn contains_key(&self, key: &K) -> (found: bool)
        ensures
            found == self.nodes().contains_key(*key),
    ;

    /// The node at `key`, to read.
    fn get(&self, key: &K) -> (node: Option<&N>)
        ensures
            node == (if self.nodes().contains_key(*key) {
                Some(&self.nodes()[*key])
            } else {
                None
            }),
    ;

    /// The node at `key`, to write: what the caller leaves behind the
    /// reference is the node at `key` from then on.
    fn get_mut(&mut self, key: &K) -> (node: Option<&mut N>)
        ensures
            match node {
                Some(n) => {
                    &&& old(self).nodes().contains_key(*key)
                    &&& *n == old(self).nodes()[*key]
                    &&& final(self).nodes() == old(self).nodes().insert(*key, *final(n))
                },
                None => {
                    &&& !old(self).nodes().contains_key(*key)
                    &&& final(self).nodes() == old(self).nodes()
                },
            },
    ;

    /// The adjacency list of the node at `key`, to read.
    fn get_adj<'clu, 'res>(&'clu self, key: &K) -> (list: Option<&'res Vec<K>>)
        where
            'clu: 'res,
            N: 'res,
        ensures
            match list {
                Some(l) => self.nodes().contains_key(*key) && l@ == self.nodes()[*key].edges(),
                None => !self.nodes().contains_key(*key),
            },
    {
        match self.get(key) {
            Some(node) => Some(node.adj()),
            None => None,
        }
    }

    /// A key under which no node is stored.
    fn new_key(&self) -> (key: K)
        ensures
            !self.nodes().contains_key(key),
    ;

    /// Stores `node` under a key that was free, and returns the key.
    fn add(&mut self, node: N) -> (key: K)
        ensures
            node_added(old(self).nodes(), final(self).nodes(), key, node),
    ;

    /// The adjacency list of the node at `key`, to write: what the caller
    /// leaves in the list is that node's adjacency list from then on.
    fn get_adj_mut<'clu, 'res>(&'clu mut self, key: &K) -> (list: Option<&'res mut Vec<K>>)
        where
            'clu: 'res,
            N: 'res,
        ensures
            match list {
                Some(l) => {
                    &&& l@ == old(self).nodes()[*key].edges()
                    &&& rewired(old(self).nodes(), final(self).nodes(), *key)
                    &&& final(self).nodes()[*key].edges() == final(l)@
                },
                None => {
                    &&& !old(self).nodes().contains_key(*key)
                    &&& final(self).nodes() == old(self).nodes()
                },
            },
    {
        match self.get_mut(key) {
            Some(node) => Some(node.adj_mut()),
            None => None,
        }
    }

    /// Adds the edge from `src` to `dst`: `dst` goes to the end of the
    /// adjacency list of `src`, unless the list holds it already. Fails, and
    /// changes nothing, if no node is stored at `src`; whether one is stored
    /// at `dst` is not asked.
    fn add_edge(&mut self, src: K, dst: K) -> (r: Result<(), ClusterError>)
        ensures
            r is Ok <==> old(self).nodes().contains_key(src),
            match r {
                Ok(_) => {
                    &&& rewired(old(self).nodes(), final(self).nodes(), src)
                    &&& eq_is_identity::<K>() ==> edge_added(
                        old(self).nodes(),
                        final(self).nodes(),
                        src,
                        dst,
                    )
                },
                Err(e) => {
                    &&& final(self).nodes() == old(self).nodes()
                    &&& e@ == ADD_EDGE_MISSING_NODE@
                },
            },
    {
        link(self.get_adj_mut(&src), dst)
    }

    /// Removes the edge from `src` to `dst`: the first `dst` leaves the
    /// adjacency list of `src` and the other entries keep their order; a
    /// list without `dst` stays as it is. Fails, and changes nothing, if no
    /// node is stored at `src`.
    fn remove_edge(&mut self, src: &K, dst: &K) -> (r: Result<(), ClusterError>)
        ensures
            r is Ok <==> old(self).nodes().contains_key(*src),
            match r {
                Ok(_) => {
                    &&& rewired(old(self).nodes(), final(self).nodes(), *src)
                    &&& eq_is_identity::<K>() ==> edge_removed(
                        old(self).nodes(),
                        final(self).nodes(),
                        *src,
                        *dst,
                    )
                },
                Err(e) => {
                    &&& final(self).nodes() == old(self).nodes()
                    &&& e@ == REMOVE_EDGE_MISSING_NODE@
                },
            },
    {
        unlink(self.get_adj_mut(src), dst)
    }

    /// Adds the edge from `src` to `dst` and then the edge from `dst` to
    /// `src`. Fails at the first step if no node is stored at `src`, and at
    /// the second if none is stored at `dst`; the first step is then not
    /// undone.
    fn add_doubly_edge(&mut self, src: K, dst: K) -> (r: Result<(), ClusterError>)
        ensures
            r matches Err(e) ==> e@ == ADD_EDGE_MISSING_NODE@,
            keys_are_values::<K>() ==> (r is Ok <==> old(self).nodes().contains_key(src)
                && old(self).nodes().contains_key(dst)),
            keys_are_values::<K>() ==> (match r {
                Ok(_) => doubly_added(old(self).nodes(), final(self).nodes(), src, dst),
                Err(_) => if old(self).nodes().contains_key(src) {
                    edge_added(old(self).nodes(), final(self).nodes(), src, dst)
                } else {
                    final(self).nodes() == old(self).nodes()
                },
            }),
    {
        proof {
            N::same_payload_is_equivalence();
        }
        self.add_edge(src.clone(), dst.clone())?;
        self.add_edge(dst, src)?;
        Ok(())
    }

    /// Removes the edge from `src` to `dst` and then the edge from `dst` to
    /// `src`. Fails at the first step if no node is stored at `src`, and at
    /// the second if none is stored at `dst`; the first step is then not
    /// undone.
    fn remove_doubly_edge(&mut self, src: &K, dst: &K) -> (r: Result<(), ClusterError>)
        ensures
            r is Ok <==> old(self).nodes().contains_key(*src) && old(self).nodes().contains_key(
                *dst,
            ),
            match r {
                Ok(_) => {
                    &&& rewired_pair(old(self).nodes(), final(self).nodes(), *src, *dst)
                    &&& eq_is_identity::<K>() ==> doubly_removed(
                        old(self).nodes(),
                        final(self).nodes(),
                        *src,
                        *dst,
                    )
                },
                Err(e) => {
                    &&& e@ == REMOVE_EDGE_MISSING_NODE@
                    &&& if old(self).nodes().contains_key(*src) {
                        &&& rewired(old(self).nodes(), final(self).nodes(), *src)
                        &&& eq_is_identity::<K>() ==> edge_removed(
                            old(self).nodes(),
                            final(self).nodes(),
                            *src,
                            *dst,
                        )
                    } else {
                        final(self).nodes() == old(self).nodes()
                    }
                },
            },
    {
        proof {
            N::same_payload_is_equivalence();
        }
        self.remove_edge(src, dst)?;
        self.remove_edge(dst, src)?;
        Ok(())
    }
}

} // verus!
