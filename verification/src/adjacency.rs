//! Adjacency lists: the ordered out-edges of one node. An edge is added at
//! the end and only if it is not there yet, and removed by position, so a
//! list that is built through these functions never holds a key twice.

use vstd::prelude::*;
use crate::error::{ClusterError, ADD_EDGE_MISSING_NODE, REMOVE_EDGE_MISSING_NODE};
use crate::keys::eq_is_identity;

verus! {

/// The list after an edge to `dst` is added: `dst` is appended unless the
/// list already holds it.
pub open spec fn with_edge<K>(adj: Seq<K>, dst: K) -> Seq<K> {
    if adj.contains(dst) {
        adj
    } else {
        adj.push(dst)
    }
}

/// The list after an edge to `dst` is removed: the first `dst` leaves and
/// the entries behind it move up by one place; a list without `dst` stays
/// as it is.
pub open spec fn without_edge<K>(adj: Seq<K>, dst: K) -> Seq<K> {
    adj.remove_value(dst)
}

/// How often `key` stands in the list.
pub open spec fn occurrences<K>(adj: Seq<K>, key: K) -> nat {
    adj.to_multiset().count(key)
}

/// `index` is where `key` stands first in the list.
pub open spec fn is_first_at<K>(adj: Seq<K>, key: K, index: int) -> bool {
    &&& 0 <= index < adj.len()
    &&& adj[index] == key
    &&& forall|j: int| 0 <= j < index ==> adj[j] != key
}

/// `after` is the list `before` with an edge to `dst` added. The second
/// line follows from the first (`lemma_with_edge_is_linked`); it is stated
/// because a proof about the next operation on the list starts from it.
pub open spec fn linked<K>(before: Seq<K>, after: Seq<K>, dst: K) -> bool {
    &&& after == with_edge(before, dst)
    &&& after.contains(dst)
}

/// `after` is the list `before` with an edge to `dst` removed. The second
/// line follows from the first (`lemma_without_edge_is_unlinked`); it names
/// the place that was taken out.
pub open spec fn unlinked<K>(before: Seq<K>, after: Seq<K>, dst: K) -> bool {
    &&& after == without_edge(before, dst)
    &&& if before.contains(dst) {
        exists|index: int| #[trigger] is_first_at(before, dst, index) && after == before.remove(index)
    } else {
        after == before
    }
}

/// Removing an edge takes out the entry at the first place where the key
/// stands.
pub proof fn lemma_without_edge_at<K>(adj: Seq<K>, dst: K, index: int)
    requires
        is_first_at(adj, dst, index),
    ensures
        without_edge(adj, dst) == adj.remove(index),
{
    adj.index_of_first_ensures(dst);
}

/// Removing an edge that is not in the list leaves the list as it is.
pub proof fn lemma_without_edge_absent<K>(adj: Seq<K>, dst: K)
    requires
        !adj.contains(dst),
    ensures
        without_edge(adj, dst) == adj,
{
    adj.index_of_first_ensures(dst);
}

/// What `with_edge` gives is the list with the edge added.
pub proof fn lemma_with_edge_is_linked<K>(adj: Seq<K>, dst: K)
    ensures
        linked(adj, with_edge(adj, dst), dst),
{
    lemma_with_edge_twice(adj, dst);
}

/// What `without_edge` gives is the list with the edge removed.
pub proof fn lemma_without_edge_is_unlinked<K>(adj: Seq<K>, dst: K)
    ensures
        unlinked(adj, without_edge(adj, dst), dst),
{
    adj.index_of_first_ensures(dst);
    if let Some(index) = adj.index_of_first(dst) {
        assert(is_first_at(adj, dst, index));
    }
}

/// After an edge is added the list holds it, and adding it once more
/// changes nothing.
pub proof fn lemma_with_edge_twice<K>(adj: Seq<K>, dst: K)
    ensures
        with_edge(adj, dst).contains(dst),
        with_edge(with_edge(adj, dst), dst) == with_edge(adj, dst),
{
    if !adj.contains(dst) {
        assert(adj.push(dst)[adj.len() as int] == dst);
    }
}

/// In a list that held `dst` at most once, `dst` stands exactly once after
/// the edge is added.
pub proof fn lemma_with_edge_once<K>(adj: Seq<K>, dst: K)
    requires
        occurrences(adj, dst) <= 1,
    ensures
        occurrences(with_edge(adj, dst), dst) == 1,
{
    adj.to_multiset_ensures();
}

/// Adding an edge keeps a list free of repeats.
pub proof fn lemma_with_edge_no_duplicates<K>(adj: Seq<K>, dst: K)
    requires
        adj.no_duplicates(),
    ensures
        with_edge(adj, dst).no_duplicates(),
{
}

/// Removing an edge keeps a list free of repeats, and the key is then gone
/// from it.
pub proof fn lemma_without_edge_no_duplicates<K>(adj: Seq<K>, dst: K)
    requires
        adj.no_duplicates(),
    ensures
        without_edge(adj, dst).no_duplicates(),
        !without_edge(adj, dst).contains(dst),
{
    adj.index_of_first_ensures(dst);
}

/// Removing an edge that was just added to a list without it gives the list
/// back.
pub proof fn lemma_without_edge_undoes_with_edge<K>(adj: Seq<K>, dst: K)
    requires
        !adj.contains(dst),
    ensures
        without_edge(with_edge(adj, dst), dst) == adj,
{
    let grown = adj.push(dst);
    lemma_without_edge_at(grown, dst, adj.len() as int);
}

/// The index of the first `key` in the list, found by a scan from the front.
pub fn position<K: PartialEq>(adj: &Vec<K>, key: &K) -> (found: Option<usize>)
    ensures
        found matches Some(index) ==> index < adj@.len(),
        eq_is_identity::<K>() ==> (match found {
            Some(index) => is_first_at(adj@, *key, index as int),
            None => !adj@.contains(*key),
        }),
{
    let mut i: usize = 0;
    while i < adj.len()
        invariant
            i <= adj@.len(),
            eq_is_identity::<K>() ==> forall|j: int| 0 <= j < i ==> adj@[j] != *key,
        decreases adj@.len() - i,
    {
        if adj[i] == *key {
            return Some(i);
        }
        i += 1;
    }
    None
}

/// Whether the list holds `key`.
pub fn contains<K: PartialEq>(adj: &Vec<K>, key: &K) -> (found: bool)
    ensures
        eq_is_identity::<K>() ==> found == adj@.contains(*key),
{
    position(adj, key).is_some()
}

/// Appends `dst` unless the list already holds it.
pub fn push_unique<K: PartialEq>(adj: &mut Vec<K>, dst: K)
    ensures
        eq_is_identity::<K>() ==> linked(old(adj)@, final(adj)@, dst),
{
    proof {
        lemma_with_edge_is_linked(adj@, dst);
    }
    if !contains(adj, &dst) {
        adj.push(dst);
    }
}

/// Removes the first `dst` from the list, if there is one; the entries
/// behind it move up by one place.
pub fn remove_first<K: PartialEq>(adj: &mut Vec<K>, dst: &K)
    ensures
        eq_is_identity::<K>() ==> unlinked(old(adj)@, final(adj)@, *dst),
{
    proof {
        lemma_without_edge_is_unlinked(adj@, *dst);
    }
    if let Some(index) = position(adj, dst) {
        proof {
            if eq_is_identity::<K>() {
                lemma_without_edge_at(adj@, *dst, index as int);
            }
        }
        adj.remove(index);
    } else {
        proof {
            if eq_is_identity::<K>() {
                lemma_without_edge_absent(adj@, *dst);
            }
        }
    }
}

/// Adds the edge to `dst` to the adjacency list of the source node, where
/// `list` is what the lookup of that node gave. Without a list there is no
/// source node, and the edge cannot be added.
pub fn link<K: PartialEq>(list: Option<&mut Vec<K>>, dst: K) -> (r: Result<(), ClusterError>)
    ensures
        r is Ok <==> list is Some,
        r matches Err(e) ==> e@ == ADD_EDGE_MISSING_NODE@,
        list matches Some(adj) ==> (eq_is_identity::<K>() ==> linked(adj@, final(adj)@, dst)),
{
    match list {
        Some(adj) => {
            push_unique(adj, dst);
            Ok(())
        },
        None => Err(ClusterError::detailled(ADD_EDGE_MISSING_NODE)),
    }
}

/// Removes the edge to `dst` from the adjacency list of the source node,
/// where `list` is what the lookup of that node gave. Without a list there
/// is no source node, and the removal fails.
pub fn unlink<K: PartialEq>(list: Option<&mut Vec<K>>, dst: &K) -> (r: Result<(), ClusterError>)
    ensures
        r is Ok <==> list is Some,
        r matches Err(e) ==> e@ == REMOVE_EDGE_MISSING_NODE@,
        list matches Some(adj) ==> (eq_is_identity::<K>() ==> unlinked(adj@, final(adj)@, *dst)),
{
    match list {
        Some(adj) => {
            remove_first(adj, dst);
            Ok(())
        },
        None => Err(ClusterError::detailled(REMOVE_EDGE_MISSING_NODE)),
    }
}

} // verus!
