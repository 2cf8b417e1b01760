//! The identity of one connection.

use vstd::prelude::*;

verus! {

/// Names one connected client for as long as its connection lives.
///
/// The identity is the textual form of the remote endpoint, held as bytes:
/// two identifiers are the same peer exactly when their bytes agree, and the
/// same bytes are what notifications show to the other clients.
#[derive(Debug, Clone, PartialEq, Eq, Hash)]
pub struct PeerId {
    pub text: Vec<u8>,
}

impl View for PeerId {
    type V = Seq<u8>;

    open spec fn view(&self) -> Seq<u8> {
        self.text@
    }
}

impl PeerId {
    /// Wraps the textual form of an endpoint.
    pub fn new(text: Vec<u8>) -> (id: PeerId)
        ensures
            id@ == text@,
    {
        PeerId { text }
    }

    /// Whether `self` and `other` name the same peer.
    pub fn same(&self, other: &PeerId) -> (r: bool)
        ensures
            r == (self@ == other@),
    {
        if self.text.len() != other.text.len() {
            return false;
        }
        let mut i: usize = 0;
        while i < self.text.len()
            invariant
                i <= self.text.len(),
                self.text.len() == other.text.len(),
                forall|j: int| 0 <= j < i ==> self.text@[j] == other.text@[j],
            decreases self.text.len() - i,
        {
            if self.text[i] != other.text[i] {
                return false;
            }
            i = i + 1;
        }
        assert(self.text@ =~= other.text@);
        true
    }

    /// An independent copy of this identifier.
    pub fn duplicate(&self) -> (id: PeerId)
        ensures
            id@ == self@,
    {
        PeerId { text: self.text.clone() }
    }
}

} // verus!
