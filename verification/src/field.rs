//! Field elements and digests.
//!
//! All cryptographic values are vectors of elements of the Goldilocks prime
//! field, each element held as its canonical residue in a `u64`. A digest is
//! four such elements, the uniform value type for identity secrets, identity
//! commitments, contexts, nullifiers and Merkle nodes.

use vstd::prelude::*;

verus! {

/// The order of the Goldilocks prime field, 2^64 - 2^32 + 1.
pub const GOLDILOCKS_ORDER: u64 = 0xFFFF_FFFF_0000_0001;

/// A digest: four Goldilocks elements, each in canonical form.
#[derive(Clone, Copy, Debug, PartialEq, Eq, Structural)]
pub struct Digest(pub u64, pub u64, pub u64, pub u64);

impl View for Digest {
    type V = Seq<u64>;

    open spec fn view(&self) -> Seq<u64> {
        seq![self.0, self.1, self.2, self.3]
    }
}

impl Digest {
    /// All four elements are canonical residues.
    pub open spec fn wf(&self) -> bool {
        &&& self.0 < GOLDILOCKS_ORDER
        &&& self.1 < GOLDILOCKS_ORDER
        &&& self.2 < GOLDILOCKS_ORDER
        &&& self.3 < GOLDILOCKS_ORDER
    }

    /// Whether all four elements are canonical residues.
    pub fn is_wf(&self) -> (r: bool)
        ensures
            r == self.wf(),
    {
        self.0 < GOLDILOCKS_ORDER && self.1 < GOLDILOCKS_ORDER && self.2 < GOLDILOCKS_ORDER
            && self.3 < GOLDILOCKS_ORDER
    }

    /// The four elements in order, as a vector.
    pub fn to_vec(&self) -> (r: Vec<u64>)
        ensures
            r@ == self@,
    {
        let mut r: Vec<u64> = Vec::new();
        r.push(self.0);
        r.push(self.1);
        r.push(self.2);
        r.push(self.3);
        proof {
            assert(r@ =~= self@);
        }
        r
    }

    /// Appends the four elements in order to `out`.
    pub fn append_to(&self, out: &mut Vec<u64>)
        ensures
            final(out)@ == old(out)@ + self@,
    {
        out.push(self.0);
        out.push(self.1);
        out.push(self.2);
        out.push(self.3);
        proof {
            assert(out@ =~= old(out)@ + self@);
        }
    }

    /// A sequence of four elements is well formed when each is canonical.
    pub open spec fn seq_wf(s: Seq<u64>) -> bool {
        forall|i: int| 0 <= i < s.len() ==> s[i] < GOLDILOCKS_ORDER
    }
}

} // verus!
