//! What a stored value must offer to serve as the node of a graph.

use vstd::prelude::*;

verus! {

/// A value that exposes an adjacency list: the keys of the nodes that its
/// out-edges lead to, in order. Whatever else the value carries is its
/// payload, which the graph operations never touch.
pub trait Node<K> {
    /// The adjacency list, as a sequence.
    spec fn edges(&self) -> Seq<K>;

    /// Whether `other` carries the same payload: the two nodes differ in
    /// their adjacency lists at most.
    spec fn same_payload(&self, other: &Self) -> bool;

    /// Carrying the same payload is an equivalence.
    proof fn same_payload_is_equivalence()
        ensures
            forall|a: &Self| #[trigger] a.same_payload(a),
            forall|a: &Self, b: &Self| #[trigger] a.same_payload(b) ==> b.same_payload(a),
            forall|a: &Self, b: &Self, c: &Self|
                #[trigger] a.same_payload(b) && #[trigger] b.same_payload(c) ==> a.same_payload(c),
    ;

    /// The adjacency list, to read.
    fn adj(&self) -> (list: &Vec<K>)
        ensures
            list@ == self.edges(),
    ;

    /// The adjacency list, to write: what the caller leaves in the list is
    /// the node's adjacency list from then on, and the payload stays.
    fn adj_mut(&mut self) -> (list: &mut Vec<K>)
        ensures
            list@ == old(self).edges(),
            final(self).edges() == final(list)@,
            old(self).same_payload(final(self)),
    ;
}

} // verus!
