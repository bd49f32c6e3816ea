//! The signalling circuit: the constraint system binding the identity
//! secrets and the authentication path to the public root, nullifier and
//! context.
//!
//! The prover statement: "I know secrets `(s1, s2)` and an index `i` such
//! that the leaf `H(s1 ‖ s2)` is at position `i` of the Merkle tree with the
//! public root, and the public nullifier equals `H(s1 ‖ ctx)` for the public
//! context `ctx`." The index enters only through its bit decomposition; the
//! path-folding constraint uses exactly those bits.

use vstd::prelude::*;

use crate::access_set::AccessSet;
use crate::access_set::auth_path;
use crate::access_set::digest_views;
use crate::backend::Backend;
use crate::backend::CircuitOp;
use crate::backend::nullifier_of;
use crate::error::SignalError;
use crate::field::Digest;
use crate::field::GOLDILOCKS_ORDER;

verus! {

/// The wires of the signalling circuit that witness assignment fills.
pub struct SemaphoreTargets<B: Backend> {
    pub merkle_root: [B::Wire; 4],
    pub external_nullifier: [B::Wire; 4],
    pub nullifier_hash: [B::Wire; 4],
    pub merkle_proof: Vec<[B::Wire; 4]>,
    pub identity_nullifier: [B::Wire; 4],
    pub identity_trapdoor: [B::Wire; 4],
    pub public_key_index: B::Wire,
}

/// The witness map `m` with the four wires of one group assigned the four
/// elements of one digest view, in order.
pub open spec fn with_group<B: Backend>(
    m: Map<B::Wire, u64>,
    wires: [B::Wire; 4],
    value: Seq<u64>,
) -> Map<B::Wire, u64> {
    m.insert(wires[0], value[0]).insert(wires[1], value[1]).insert(wires[2], value[2]).insert(
        wires[3],
        value[3],
    )
}

/// The witness map `m` with each wire group assigned the matching digest
/// view, first group first.
pub open spec fn with_groups<B: Backend>(
    m: Map<B::Wire, u64>,
    groups: Seq<[B::Wire; 4]>,
    values: Seq<Seq<u64>>,
) -> Map<B::Wire, u64>
    decreases groups.len(),
{
    if groups.len() == 0 {
        m
    } else {
        with_groups::<B>(
            with_group::<B>(m, groups[0], values[0]),
            groups.drop_first(),
            values.drop_first(),
        )
    }
}

/// Assigning one more group extends the group fold at its end.
proof fn lemma_with_groups_push<B: Backend>(
    m: Map<B::Wire, u64>,
    groups: Seq<[B::Wire; 4]>,
    values: Seq<Seq<u64>>,
    group: [B::Wire; 4],
    value: Seq<u64>,
)
    requires
        groups.len() == values.len(),
    ensures
        with_groups::<B>(m, groups.push(group), values.push(value)) == with_group::<B>(
            with_groups::<B>(m, groups, values),
            group,
            value,
        ),
    decreases groups.len(),
{
    if groups.len() == 0 {
        assert(groups.push(group).drop_first() =~= Seq::<[B::Wire; 4]>::empty());
        assert(values.push(value).drop_first() =~= Seq::<Seq<u64>>::empty());
        assert(groups.push(group)[0] == group);
        assert(values.push(value)[0] == value);
        assert(with_groups::<B>(m, groups.push(group), values.push(value)) == with_groups::<B>(
            with_group::<B>(m, group, value),
            Seq::<[B::Wire; 4]>::empty(),
            Seq::<Seq<u64>>::empty(),
        ));
        assert(with_groups::<B>(m, groups, values) == m);
    } else {
        assert(groups.push(group).drop_first() =~= groups.drop_first().push(group));
        assert(values.push(value).drop_first() =~= values.drop_first().push(value));
        lemma_with_groups_push::<B>(
            with_group::<B>(m, groups[0], values[0]),
            groups.drop_first(),
            values.drop_first(),
            group,
            value,
        );
        assert(with_groups::<B>(m, groups.push(group), values.push(value)) == with_groups::<B>(
            with_group::<B>(m, groups[0], values[0]),
            groups.drop_first().push(group),
            values.drop_first().push(value),
        ));
    }
}

/// Every wire assignment witness filling makes, in the order it makes them:
/// the root and the context into their public slots, the two secrets, the
/// index, the sibling path, and the nullifier into its public slot.
pub open spec fn semaphore_assignments<B: Backend>(
    m: Map<B::Wire, u64>,
    targets: SemaphoreTargets<B>,
    root: Seq<u64>,
    s1: Seq<u64>,
    s2: Seq<u64>,
    ctx: Seq<u64>,
    index: u64,
    siblings: Seq<Seq<u64>>,
    nullifier: Seq<u64>,
) -> Map<B::Wire, u64> {
    with_group::<B>(
        with_groups::<B>(
            with_group::<B>(
                with_group::<B>(
                    with_group::<B>(
                        with_group::<B>(m, targets.merkle_root, root),
                        targets.external_nullifier,
                        ctx,
                    ),
                    targets.identity_nullifier,
                    s1,
                ),
                targets.identity_trapdoor,
                s2,
            ).insert(targets.public_key_index, index),
            targets.merkle_proof@,
            siblings,
        ),
        targets.nullifier_hash,
        nullifier,
    )
}

/// The constraints the signalling circuit emits, in emission order, over
/// the returned wires: the index decomposed into boolean bits, the
/// commitment hash of the two secret groups (eight wires absorbed), Merkle
/// membership of the commitment at the decomposed index against the root
/// and sibling wires, the nullifier hash of the first secret group and the
/// context group (eight wires absorbed), and the four connects tying it to
/// its public slot. The trapdoor wires feed the commitment hash alone; the
/// decomposition bits, the commitment wires and the recomputed nullifier
/// wires are internal to the circuit.
pub open spec fn semaphore_ops<B: Backend>(
    targets: SemaphoreTargets<B>,
    index_bits: Seq<B::Bit>,
    commitment: [B::Wire; 4],
    computed_nullifier: [B::Wire; 4],
) -> Seq<CircuitOp<B::Wire, B::Bit>> {
    seq![
        CircuitOp::SplitBits { wire: targets.public_key_index, bits: index_bits },
        CircuitOp::Hash {
            input: targets.identity_nullifier@ + targets.identity_trapdoor@,
            output: commitment,
        },
        CircuitOp::MerklePath {
            leaf: commitment@,
            bits: index_bits,
            root: targets.merkle_root,
            siblings: targets.merkle_proof@,
        },
        CircuitOp::Hash {
            input: targets.identity_nullifier@ + targets.external_nullifier@,
            output: computed_nullifier,
        },
        CircuitOp::Connect { a: targets.nullifier_hash[0], b: computed_nullifier[0] },
        CircuitOp::Connect { a: targets.nullifier_hash[1], b: computed_nullifier[1] },
        CircuitOp::Connect { a: targets.nullifier_hash[2], b: computed_nullifier[2] },
        CircuitOp::Connect { a: targets.nullifier_hash[3], b: computed_nullifier[3] },
    ]
}

/// Allocates four fresh wires as one digest-valued group.
fn add_digest_wires<B: Backend>(builder: &mut B) -> (r: [B::Wire; 4])
    ensures
        final(builder).builder_view() == old(builder).builder_view(),
{
    let a = builder.add_wire();
    let b = builder.add_wire();
    let c = builder.add_wire();
    let d = builder.add_wire();
    [a, b, c, d]
}

/// Appends the four wires of a digest-valued group to `out`, in order.
fn push_digest_wires<B: Backend>(out: &mut Vec<B::Wire>, wires: &[B::Wire; 4])
    ensures
        final(out)@ == old(out)@ + wires@,
{
    out.push(wires[0]);
    out.push(wires[1]);
    out.push(wires[2]);
    out.push(wires[3]);
    proof {
        assert(out@ =~= old(out)@ + wires@);
    }
}

/// Assigns a digest to a digest-valued wire group, element by element.
fn set_digest_wires<B: Backend>(
    witness: &mut B::Witness,
    wires: &[B::Wire; 4],
    value: &Digest,
) -> (r: Result<(), SignalError>)
    requires
        value.wf(),
    ensures
        match r {
            Ok(u) => B::witness_wires(*final(witness)) == with_group::<B>(
                B::witness_wires(*old(witness)),
                *wires,
                value@,
            ),
            Err(e) => e is WitnessGapOrConflict,
        },
        B::witness_bits(*final(witness)) == B::witness_bits(*old(witness)),
{
    match B::set_wire(witness, wires[0], value.0) {
        Ok(u) => u,
        Err(e) => return Err(SignalError::WitnessGapOrConflict(e)),
    }
    match B::set_wire(witness, wires[1], value.1) {
        Ok(u) => u,
        Err(e) => return Err(SignalError::WitnessGapOrConflict(e)),
    }
    match B::set_wire(witness, wires[2], value.2) {
        Ok(u) => u,
        Err(e) => return Err(SignalError::WitnessGapOrConflict(e)),
    }
    match B::set_wire(witness, wires[3], value.3) {
        Ok(u) => u,
        Err(e) => return Err(SignalError::WitnessGapOrConflict(e)),
    }
    Ok(())
}

impl<B: Backend> AccessSet<B> {
    /// Emits the constraint system into the builder and returns its wires.
    ///
    /// Public inputs are registered in the canonical order — the root, the
    /// nullifier, the context, four wires each — as the ensures states. Then
    /// the circuit computes the identity commitment `H(s1 ‖ s2)`, constrains
    /// the authentication path folded by the decomposed index bits to
    /// reproduce the root, computes `H(s1 ‖ ctx)` and connects it to the
    /// public nullifier. Both hashes absorb exactly eight wires, so the
    /// commitment and nullifier call sites share no input arity ambiguity.
    /// Only the single-root cap is supported here.
    pub fn semaphore_circuit(&self, builder: &mut B) -> (r: SemaphoreTargets<B>)
        requires
            self.wf(),
            self.cap_h() == 0,
        ensures
            r.merkle_proof@.len() == self.height(),
            final(builder).builder_view().public_wires == old(builder).builder_view().public_wires
                + r.merkle_root@ + r.nullifier_hash@ + r.external_nullifier@,
            exists|index_bits: Seq<B::Bit>, commitment: [B::Wire; 4], computed: [B::Wire; 4]|
                {
                    &&& index_bits.len() == self.height()
                    &&& final(builder).builder_view().ops == old(builder).builder_view().ops
                        + #[trigger] semaphore_ops::<B>(r, index_bits, commitment, computed)
                },
    {
        // Public inputs, in the canonical order.
        let merkle_root = add_digest_wires(builder);
        builder.register_public4(&merkle_root);
        let nullifier_hash = add_digest_wires(builder);
        builder.register_public4(&nullifier_hash);
        let external_nullifier = add_digest_wires(builder);
        builder.register_public4(&external_nullifier);
        proof {
            assert(seq![merkle_root[0], merkle_root[1], merkle_root[2], merkle_root[3]]
                =~= merkle_root@);
            assert(seq![nullifier_hash[0], nullifier_hash[1], nullifier_hash[2], nullifier_hash[3]]
                =~= nullifier_hash@);
            assert(seq![
                external_nullifier[0],
                external_nullifier[1],
                external_nullifier[2],
                external_nullifier[3],
            ] =~= external_nullifier@);
        }
        let ghost registered = builder.builder_view();

        // One sibling digest group per level.
        let h = self.tree_height();
        let mut merkle_proof: Vec<[B::Wire; 4]> = Vec::new();
        let mut k: usize = 0;
        while k < h
            invariant
                0 <= k <= h,
                merkle_proof@.len() == k,
                builder.builder_view() == registered,
            decreases h - k,
        {
            let sibling = add_digest_wires(builder);
            merkle_proof.push(sibling);
            k = k + 1;
        }

        // Identity secrets and the range-constrained leaf index.
        let identity_nullifier = add_digest_wires(builder);
        let identity_trapdoor = add_digest_wires(builder);
        let public_key_index = builder.add_wire();
        let index_bits = builder.split_bits(public_key_index, h);

        // The identity commitment, computed inside the circuit from exactly
        // eight absorbed wires.
        let mut commit_input: Vec<B::Wire> = Vec::new();
        push_digest_wires::<B>(&mut commit_input, &identity_nullifier);
        push_digest_wires::<B>(&mut commit_input, &identity_trapdoor);
        let identity_commitment = builder.hash_wires(commit_input);

        // Merkle membership of the commitment at the witnessed index.
        let mut leaf_data: Vec<B::Wire> = Vec::new();
        push_digest_wires::<B>(&mut leaf_data, &identity_commitment);
        builder.constrain_merkle_path(leaf_data, &index_bits, &merkle_root, &merkle_proof);

        // The nullifier, computed inside the circuit from exactly eight
        // absorbed wires and tied to the public input slot.
        let mut nullifier_input: Vec<B::Wire> = Vec::new();
        push_digest_wires::<B>(&mut nullifier_input, &identity_nullifier);
        push_digest_wires::<B>(&mut nullifier_input, &external_nullifier);
        let computed_nullifier = builder.hash_wires(nullifier_input);
        builder.connect(nullifier_hash[0], computed_nullifier[0]);
        builder.connect(nullifier_hash[1], computed_nullifier[1]);
        builder.connect(nullifier_hash[2], computed_nullifier[2]);
        builder.connect(nullifier_hash[3], computed_nullifier[3]);

        let result = SemaphoreTargets {
            merkle_root,
            external_nullifier,
            nullifier_hash,
            merkle_proof,
            identity_nullifier,
            identity_trapdoor,
            public_key_index,
        };
        proof {
            assert(commit_input@ =~= identity_nullifier@ + identity_trapdoor@);
            assert(leaf_data@ =~= identity_commitment@);
            assert(nullifier_input@ =~= identity_nullifier@ + external_nullifier@);
            assert(builder.builder_view().ops =~= old(builder).builder_view().ops
                + semaphore_ops::<B>(
                result,
                index_bits@,
                identity_commitment,
                computed_nullifier,
            ));
        }
        result
    }

    /// Assigns every target of the circuit from the secrets, the context and
    /// the tree state. The ensures pins each assignment: the single cap
    /// entry into the root slot, the context, the two secrets, the index,
    /// the opened authentication path into the sibling slots, and the
    /// natively computed nullifier into its public slot — nothing else, and
    /// no boolean wire.
    ///
    /// An index at or past the leaf count, or too wide for a canonical field
    /// element, is rejected here, at witness time, and only then.
    pub fn fill_semaphore_targets(
        &self,
        witness: &mut B::Witness,
        identity_nullifier: Digest,
        identity_trapdoor: Digest,
        external_nullifier: Digest,
        public_key_index: usize,
        targets: &SemaphoreTargets<B>,
    ) -> (r: Result<(), SignalError>)
        requires
            self.wf(),
            self.cap_h() == 0,
            identity_nullifier.wf(),
            identity_trapdoor.wf(),
            external_nullifier.wf(),
            targets.merkle_proof@.len() == self.height(),
        ensures
            match r {
                Ok(u) => public_key_index < self.leaves().len(),
                Err(e) => e is BadArgument || e is WitnessGapOrConflict,
            },
            public_key_index >= self.leaves().len() ==> r matches Err(SignalError::BadArgument),
            r matches Err(SignalError::BadArgument) ==> (public_key_index >= self.leaves().len()
                || public_key_index as u64 >= GOLDILOCKS_ORDER),
            (public_key_index < self.leaves().len() && (public_key_index as u64)
                < GOLDILOCKS_ORDER) ==> !(r matches Err(SignalError::BadArgument)),
            r is Ok ==> B::witness_wires(*final(witness)) == semaphore_assignments::<B>(
                B::witness_wires(*old(witness)),
                *targets,
                self.cap_views()[0],
                identity_nullifier@,
                identity_trapdoor@,
                external_nullifier@,
                public_key_index as u64,
                auth_path::<B>(self.lviews(), public_key_index as nat, self.height()),
                nullifier_of::<B>(identity_nullifier@, external_nullifier@),
            ),
            B::witness_bits(*final(witness)) == B::witness_bits(*old(witness)),
    {
        let n = self.num_leaves();
        if public_key_index >= n {
            return Err(SignalError::BadArgument);
        }
        // The index is witnessed as a field element: it must be canonical.
        let index_value = public_key_index as u64;
        if index_value >= GOLDILOCKS_ORDER {
            return Err(SignalError::BadArgument);
        }

        // Public inputs: the root and the context.
        let root = self.root_cap()[0];
        proof {
            assert(root@ == self.cap_views()[0]);
        }
        match set_digest_wires::<B>(witness, &targets.merkle_root, &root) {
            Ok(u) => u,
            Err(e) => return Err(e),
        }
        match set_digest_wires::<B>(witness, &targets.external_nullifier, &external_nullifier) {
            Ok(u) => u,
            Err(e) => return Err(e),
        }

        // Private inputs: the secrets and the leaf index.
        match set_digest_wires::<B>(witness, &targets.identity_nullifier, &identity_nullifier) {
            Ok(u) => u,
            Err(e) => return Err(e),
        }
        match set_digest_wires::<B>(witness, &targets.identity_trapdoor, &identity_trapdoor) {
            Ok(u) => u,
            Err(e) => return Err(e),
        }
        match B::set_wire(witness, targets.public_key_index, index_value) {
            Ok(u) => u,
            Err(e) => return Err(SignalError::WitnessGapOrConflict(e)),
        }

        // The authentication path into the sibling slots.
        let path = match self.open(public_key_index) {
            Ok(p) => p,
            Err(_) => {
                proof {
                    assert(false);
                }
                return Err(SignalError::BadArgument);
            },
        };
        let ghost base = B::witness_wires(*witness);
        let ghost sibs = auth_path::<B>(
            self.lviews(),
            public_key_index as nat,
            (self.height() - self.cap_h()) as nat,
        );
        proof {
            assert(targets.merkle_proof@.take(0) =~= Seq::<[B::Wire; 4]>::empty());
            assert(sibs.take(0) =~= Seq::<Seq<u64>>::empty());
        }
        let mut k: usize = 0;
        while k < path.len()
            invariant
                0 <= k <= path@.len(),
                path@.len() == targets.merkle_proof@.len(),
                crate::access_set::all_digests_wf(path@),
                public_key_index < self.leaves().len(),
                digest_views(path@) == sibs,
                sibs.len() == path@.len(),
                B::witness_wires(*witness) == with_groups::<B>(
                    base,
                    targets.merkle_proof@.take(k as int),
                    sibs.take(k as int),
                ),
                B::witness_bits(*witness) == B::witness_bits(*old(witness)),
            decreases path@.len() - k,
        {
            match set_digest_wires::<B>(witness, &targets.merkle_proof[k], &path[k]) {
                Ok(u) => u,
                Err(e) => return Err(e),
            }
            proof {
                assert(path@[k as int]@ == sibs[k as int]);
                lemma_with_groups_push::<B>(
                    base,
                    targets.merkle_proof@.take(k as int),
                    sibs.take(k as int),
                    targets.merkle_proof@[k as int],
                    sibs[k as int],
                );
                assert(targets.merkle_proof@.take(k + 1) =~= targets.merkle_proof@.take(
                    k as int,
                ).push(targets.merkle_proof@[k as int]));
                assert(sibs.take(k + 1) =~= sibs.take(k as int).push(sibs[k as int]));
            }
            k = k + 1;
        }
        proof {
            assert(targets.merkle_proof@.take(path@.len() as int) =~= targets.merkle_proof@);
            assert(sibs.take(path@.len() as int) =~= sibs);
        }

        // The nullifier, computed natively and assigned to its public slot;
        // the circuit constrains the in-circuit recomputation to equal it.
        let nullifier = crate::backend::nullify::<B>(&identity_nullifier, &external_nullifier);
        match set_digest_wires::<B>(witness, &targets.nullifier_hash, &nullifier) {
            Ok(u) => u,
            Err(e) => return Err(e),
        }
        Ok(())
    }
}

} // verus!
