//! The proving-backend contract, and the native commitment and nullifier.
//!
//! The zero-knowledge machinery is the one dependency this core takes on an
//! external library, and it is taken through this trait alone: an additive
//! circuit builder, a finalize step that yields prover and verifier keys, a
//! witness assignment, and prove/verify. Any backend satisfying the contract
//! is a valid substitute. The builder value itself is the implementing type:
//! its methods add wires and constraints to the circuit under construction.
//!
//! The algebraic hash `H` comes in two forms that an implementation must keep
//! observationally identical: the native `hash`, evaluated directly on field
//! elements, and the circuit form `hash_wires`, which emits the constraints a
//! prover must satisfy. For any input vector, the native output must equal
//! the value the circuit form assigns to its output wires; this is the single
//! most important correctness obligation an implementation carries.

use vstd::prelude::*;

use crate::field::Digest;
use crate::field::GOLDILOCKS_ORDER;

verus! {

/// One constraint or gadget emitted into the circuit under construction,
/// with the wires it binds.
#[verifier::reject_recursive_types(W)]
#[verifier::reject_recursive_types(T)]
pub enum CircuitOp<W, T> {
    /// The wire is constrained to the constant value.
    Constant { wire: W, value: u64 },
    /// The wire is constrained to hold a boolean value.
    Bool { bit: T },
    /// `out` is constrained to `if_set` where `bit` holds and to `if_clear`
    /// elsewhere.
    Select { bit: T, if_set: W, if_clear: W, out: W },
    /// The four output wires are constrained to the hash of the input
    /// wires, absorbed whole; the absorbed arity is the input length.
    Hash { input: Seq<W>, output: [W; 4] },
    /// The wire is constrained to equal the weighted sum of the boolean
    /// bits, least-significant first, each bit constrained boolean.
    SplitBits { wire: W, bits: Seq<T> },
    /// Folding the hash of `leaf` up through `siblings`, ordering the two
    /// children at each level by the matching direction bit, must reproduce
    /// `root`; each combine absorbs exactly the two child digests.
    MerklePath { leaf: Seq<W>, bits: Seq<T>, root: [W; 4], siblings: Seq<[W; 4]> },
    /// The two wires are constrained to hold equal values.
    Connect { a: W, b: W },
}

/// What a circuit builder holds, seen at the specification level: the wires
/// registered as public inputs so far, in registration order, and every
/// constraint emitted so far, in emission order.
#[verifier::reject_recursive_types(W)]
#[verifier::reject_recursive_types(T)]
pub struct BuilderView<W, T> {
    pub public_wires: Seq<W>,
    pub ops: Seq<CircuitOp<W, T>>,
}

/// The values a witness map gives a sequence of wires, in order.
pub open spec fn wire_values<W>(m: Map<W, u64>, wires: Seq<W>) -> Seq<u64> {
    Seq::new(wires.len(), |i: int| m[wires[i]])
}

/// The proving backend: field-valued wires, digest-valued groups of four
/// wires, boolean wires, an algebraic hash in native and circuit form, and
/// prover/verifier keys with prove and verify.
pub trait Backend: Sized {
    /// A field-valued wire of the circuit under construction.
    type Wire: Copy;

    /// A wire constrained to hold a boolean value.
    type Bit: Copy;

    /// The finalized circuit: prover key and verifier view together.
    type CircuitData;

    /// The verifier-only view of a finalized circuit.
    type VerifierData;

    /// An opaque proof artifact.
    type Proof;

    /// A witness assignment under construction.
    type Witness;

    /// What the algebraic hash returns on a sequence of canonical field
    /// elements: four canonical field elements, a function of the input
    /// alone, identical between the native and the circuit form.
    spec fn hash_spec(input: Seq<u64>) -> Seq<u64>;

    /// The registered public wires and emitted constraints of a builder.
    spec fn builder_view(&self) -> BuilderView<Self::Wire, Self::Bit>;

    /// The field-wire assignments a witness holds.
    spec fn witness_wires(witness: Self::Witness) -> Map<Self::Wire, u64>;

    /// The boolean-wire assignments a witness holds.
    spec fn witness_bits(witness: Self::Witness) -> Map<Self::Bit, bool>;

    /// The verifier-only view a finalized circuit determines.
    spec fn verifier_view(data: Self::CircuitData) -> Self::VerifierData;

    /// The public wires of a finalized circuit, in registration order.
    spec fn data_public_wires(data: Self::CircuitData) -> Seq<Self::Wire>;

    /// The constraints of a finalized circuit, in emission order.
    spec fn data_ops(data: Self::CircuitData) -> Seq<CircuitOp<Self::Wire, Self::Bit>>;

    /// The backend's verdict on a verifier view, a public-input vector and a
    /// proof: a function of the three alone.
    spec fn verify_spec(
        data: Self::VerifierData,
        public_inputs: Seq<u64>,
        proof: Self::Proof,
    ) -> bool;

    /// The native form of the hash: unpadded absorb of the whole input.
    fn hash(input: &Vec<u64>) -> (r: Digest)
        requires
            Digest::seq_wf(input@),
        ensures
            r@ == Self::hash_spec(input@),
            r.wf(),
    ;

    /// A fresh builder with no wires and no constraints.
    fn new_builder() -> (r: Self)
        ensures
            r.builder_view().public_wires == Seq::<Self::Wire>::empty(),
            r.builder_view().ops == Seq::<CircuitOp<Self::Wire, Self::Bit>>::empty(),
    ;

    /// Allocates one field-valued wire.
    fn add_wire(&mut self) -> (r: Self::Wire)
        ensures
            final(self).builder_view() == old(self).builder_view(),
    ;

    /// Registers one wire as the next public input.
    fn register_public(&mut self, wire: Self::Wire)
        ensures
            final(self).builder_view().public_wires == old(
                self,
            ).builder_view().public_wires.push(wire),
            final(self).builder_view().ops == old(self).builder_view().ops,
    ;

    /// Registers four wires as the next four public inputs, in order.
    fn register_public4(&mut self, wires: &[Self::Wire; 4])
        ensures
            final(self).builder_view().public_wires == old(self).builder_view().public_wires
                + seq![wires[0], wires[1], wires[2], wires[3]],
            final(self).builder_view().ops == old(self).builder_view().ops,
    ;

    /// A wire constrained to the given constant.
    fn constant_wire(&mut self, value: u64) -> (r: Self::Wire)
        requires
            value < GOLDILOCKS_ORDER,
        ensures
            final(self).builder_view().public_wires == old(self).builder_view().public_wires,
            final(self).builder_view().ops == old(self).builder_view().ops.push(
                CircuitOp::Constant { wire: r, value },
            ),
    ;

    /// Allocates one wire constrained to hold a boolean value.
    fn add_bit(&mut self) -> (r: Self::Bit)
        ensures
            final(self).builder_view().public_wires == old(self).builder_view().public_wires,
            final(self).builder_view().ops == old(self).builder_view().ops.push(
                CircuitOp::Bool { bit: r },
            ),
    ;

    /// A wire constrained to `x` when `b` holds and to `y` otherwise.
    fn select(&mut self, b: Self::Bit, x: Self::Wire, y: Self::Wire) -> (r: Self::Wire)
        ensures
            final(self).builder_view().public_wires == old(self).builder_view().public_wires,
            final(self).builder_view().ops == old(self).builder_view().ops.push(
                CircuitOp::Select { bit: b, if_set: x, if_clear: y, out: r },
            ),
    ;

    /// The circuit form of the hash: constrains four fresh output wires to
    /// hold the hash of the input wires. The absorbed arity is the input
    /// length, a constant of the circuit.
    fn hash_wires(&mut self, input: Vec<Self::Wire>) -> (r: [Self::Wire; 4])
        ensures
            final(self).builder_view().public_wires == old(self).builder_view().public_wires,
            final(self).builder_view().ops == old(self).builder_view().ops.push(
                CircuitOp::Hash { input: input@, output: r },
            ),
    ;

    /// Decomposes a wire into `n` little-endian boolean wires, constraining
    /// the wire to equal their weighted sum.
    fn split_bits(&mut self, wire: Self::Wire, n: usize) -> (r: Vec<Self::Bit>)
        ensures
            r@.len() == n,
            final(self).builder_view().public_wires == old(self).builder_view().public_wires,
            final(self).builder_view().ops == old(self).builder_view().ops.push(
                CircuitOp::SplitBits { wire, bits: r@ },
            ),
    ;

    /// Constrains the Merkle path: folding the hash of `leaf` up through
    /// `siblings`, ordering children at each level by the matching direction
    /// bit, must reproduce `root`. The combine at each level absorbs exactly
    /// the two child digests, an arity fixed by the gadget itself.
    fn constrain_merkle_path(
        &mut self,
        leaf: Vec<Self::Wire>,
        bits: &Vec<Self::Bit>,
        root: &[Self::Wire; 4],
        siblings: &Vec<[Self::Wire; 4]>,
    )
        ensures
            final(self).builder_view().public_wires == old(self).builder_view().public_wires,
            final(self).builder_view().ops == old(self).builder_view().ops.push(
                CircuitOp::MerklePath { leaf: leaf@, bits: bits@, root: *root, siblings: siblings@ },
            ),
    ;

    /// Constrains two wires to hold equal values.
    fn connect(&mut self, a: Self::Wire, b: Self::Wire)
        ensures
            final(self).builder_view().public_wires == old(self).builder_view().public_wires,
            final(self).builder_view().ops == old(self).builder_view().ops.push(
                CircuitOp::Connect { a, b },
            ),
    ;

    /// Finalizes the builder into the circuit's keys; the registered public
    /// wires and the emitted constraints carry over unchanged, in order.
    fn finalize(self) -> (r: Self::CircuitData)
        ensures
            Self::data_public_wires(r) == self.builder_view().public_wires,
            Self::data_ops(r) == self.builder_view().ops,
    ;

    /// The verifier-only view, sufficient together with the public-input
    /// vector to verify any proof the matching prover produces.
    fn verifier_data(data: &Self::CircuitData) -> (r: Self::VerifierData)
        ensures
            r == Self::verifier_view(*data),
    ;

    /// A fresh, empty witness assignment.
    fn new_witness() -> (r: Self::Witness)
        ensures
            Self::witness_wires(r) == Map::<Self::Wire, u64>::empty(),
            Self::witness_bits(r) == Map::<Self::Bit, bool>::empty(),
    ;

    /// Assigns a canonical field value to a wire. An assignment that
    /// conflicts with an earlier one is an error and leaves the witness
    /// unchanged.
    fn set_wire(witness: &mut Self::Witness, wire: Self::Wire, value: u64) -> (r: Result<
        (),
        String,
    >)
        requires
            value < GOLDILOCKS_ORDER,
        ensures
            r is Ok <==> (!Self::witness_wires(*old(witness)).dom().contains(wire)
                || Self::witness_wires(*old(witness))[wire] == value),
            r is Ok ==> Self::witness_wires(*final(witness)) == Self::witness_wires(
                *old(witness),
            ).insert(wire, value),
            r is Err ==> Self::witness_wires(*final(witness)) == Self::witness_wires(
                *old(witness),
            ),
            Self::witness_bits(*final(witness)) == Self::witness_bits(*old(witness)),
    ;

    /// Assigns a boolean value to a boolean wire, under the same conflict
    /// rule as `set_wire`.
    fn set_bit(witness: &mut Self::Witness, bit: Self::Bit, value: bool) -> (r: Result<
        (),
        String,
    >)
        ensures
            r is Ok <==> (!Self::witness_bits(*old(witness)).dom().contains(bit)
                || Self::witness_bits(*old(witness))[bit] == value),
            r is Ok ==> Self::witness_bits(*final(witness)) == Self::witness_bits(
                *old(witness),
            ).insert(bit, value),
            r is Err ==> Self::witness_bits(*final(witness)) == Self::witness_bits(*old(witness)),
            Self::witness_wires(*final(witness)) == Self::witness_wires(*old(witness)),
    ;

    /// Runs the prover on a witness assignment. The backend rejects a
    /// witness that leaves a constraint unsatisfied or a target unset. A
    /// proof it does produce verifies under the matching verifier view,
    /// against the values the witness gives the public wires: the view
    /// suffices, with the public-input vector, to verify it.
    fn prove(data: &Self::CircuitData, witness: Self::Witness) -> (r: Result<Self::Proof, String>)
        ensures
            r matches Ok(p) ==> ((forall|i: int|
                0 <= i < Self::data_public_wires(*data).len()
                    ==> Self::witness_wires(witness).dom().contains(
                    #[trigger] Self::data_public_wires(*data)[i],
                )) ==> Self::verify_spec(
                Self::verifier_view(*data),
                wire_values(Self::witness_wires(witness), Self::data_public_wires(*data)),
                p,
            )),
    ;

    /// Checks a proof against the verifier view and a public-input vector.
    /// A single boolean outcome, a function of the three arguments alone: no
    /// partial success.
    fn verify(data: &Self::VerifierData, public_inputs: &Vec<u64>, proof: Self::Proof) -> (r:
        bool)
        ensures
            r == Self::verify_spec(*data, public_inputs@, proof),
    ;
}

/// What the identity commitment of a pair of secrets is: the hash of the
/// two, concatenated four elements each.
pub open spec fn commitment_of<B: Backend>(s1: Seq<u64>, s2: Seq<u64>) -> Seq<u64> {
    B::hash_spec(s1 + s2)
}

/// What the nullifier of a secret under a context is: the hash of the
/// secret and the context, concatenated four elements each.
pub open spec fn nullifier_of<B: Backend>(s1: Seq<u64>, ctx: Seq<u64>) -> Seq<u64> {
    B::hash_spec(s1 + ctx)
}

/// The identity commitment of the secrets `(s1, s2)`: the public leaf value.
pub fn commit<B: Backend>(s1: &Digest, s2: &Digest) -> (r: Digest)
    requires
        s1.wf(),
        s2.wf(),
    ensures
        r@ == commitment_of::<B>(s1@, s2@),
        r.wf(),
{
    let mut input = s1.to_vec();
    s2.append_to(&mut input);
    proof {
        assert(Digest::seq_wf(input@));
    }
    B::hash(&input)
}

/// The nullifier of the secret `s1` under the context `ctx`: the public tag
/// that makes a second signal in the same context detectable.
pub fn nullify<B: Backend>(s1: &Digest, ctx: &Digest) -> (r: Digest)
    requires
        s1.wf(),
        ctx.wf(),
    ensures
        r@ == nullifier_of::<B>(s1@, ctx@),
        r.wf(),
{
    let mut input = s1.to_vec();
    ctx.append_to(&mut input);
    proof {
        assert(Digest::seq_wf(input@));
    }
    B::hash(&input)
}

} // verus!
