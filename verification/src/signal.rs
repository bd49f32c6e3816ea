//! The prover and verifier roles: building the circuit once, emitting
//! signals, and checking them against the canonical public-input vector.

use vstd::prelude::*;

use crate::access_set::AccessSet;
use crate::access_set::digest_views;
use crate::backend::Backend;
use crate::backend::CircuitOp;
use crate::backend::nullifier_of;
use crate::circuit::SemaphoreTargets;
use crate::circuit::semaphore_ops;
use crate::error::SignalError;
use crate::field::Digest;
use crate::field::GOLDILOCKS_ORDER;

verus! {

/// A published signal: the nullifier and the opaque proof artifact.
#[derive(Clone, Debug)]
pub struct Signal<Pr> {
    pub nullifier: Digest,
    pub proof: Pr,
}

/// The concatenation of a sequence of digest views into one flat sequence.
pub open spec fn concat_all(ds: Seq<Seq<u64>>) -> Seq<u64>
    decreases ds.len(),
{
    if ds.len() == 0 {
        Seq::empty()
    } else {
        ds[0] + concat_all(ds.drop_first())
    }
}

/// Appending one more digest extends the concatenation at its end.
proof fn lemma_concat_all_push(ds: Seq<Seq<u64>>, x: Seq<u64>)
    ensures
        concat_all(ds.push(x)) == concat_all(ds) + x,
    decreases ds.len(),
{
    if ds.len() == 0 {
        assert(ds.push(x).drop_first() =~= Seq::<Seq<u64>>::empty());
        assert(ds.push(x)[0] == x);
        assert(concat_all(Seq::<Seq<u64>>::empty()) == Seq::<u64>::empty());
        assert(concat_all(ds.push(x)) == x + Seq::<u64>::empty());
        assert(x + Seq::<u64>::empty() =~= concat_all(ds) + x);
    } else {
        assert(ds.push(x).drop_first() =~= ds.drop_first().push(x));
        lemma_concat_all_push(ds.drop_first(), x);
        assert((ds[0] + concat_all(ds.drop_first())) + x =~= ds[0] + (concat_all(ds.drop_first())
            + x));
    }
}

/// The canonical public-input vector: the cap digests in order, then the
/// nullifier, then the context, four elements each.
pub open spec fn public_inputs_spec(
    cap: Seq<Seq<u64>>,
    nullifier: Seq<u64>,
    ctx: Seq<u64>,
) -> Seq<u64> {
    concat_all(cap) + nullifier + ctx
}

impl<B: Backend> AccessSet<B> {
    /// The exact public-input vector the verifier hands to the backend.
    pub fn public_inputs(&self, nullifier: &Digest, context: &Digest) -> (r: Vec<u64>)
        requires
            self.wf(),
        ensures
            r@ == public_inputs_spec(self.cap_views(), nullifier@, context@),
    {
        let cap = self.root_cap();
        let mut out: Vec<u64> = Vec::new();
        let mut i: usize = 0;
        proof {
            assert(digest_views(cap@).take(0) =~= Seq::<Seq<u64>>::empty());
        }
        while i < cap.len()
            invariant
                0 <= i <= cap@.len(),
                cap@ == self.cap(),
                out@ == concat_all(digest_views(cap@).take(i as int)),
            decreases cap@.len() - i,
        {
            let d = cap[i];
            d.append_to(&mut out);
            proof {
                lemma_concat_all_push(digest_views(cap@).take(i as int), d@);
                assert(digest_views(cap@).take(i + 1) =~= digest_views(cap@).take(i as int).push(
                    d@,
                ));
            }
            i = i + 1;
        }
        proof {
            assert(digest_views(cap@).take(cap@.len() as int) =~= digest_views(cap@));
        }
        nullifier.append_to(&mut out);
        context.append_to(&mut out);
        proof {
            assert(out@ =~= public_inputs_spec(self.cap_views(), nullifier@, context@));
        }
        out
    }

    /// Builds the constraint system once for this tree's shape and
    /// finalizes it; the keys are reusable across signals for as long as the
    /// tree height is unchanged. Only the single-root cap is supported.
    pub fn build_circuit(&self) -> (r: Result<(B::CircuitData, SemaphoreTargets<B>), SignalError>)
        requires
            self.wf(),
        ensures
            r.is_ok() <==> self.cap_h() == 0,
            match r {
                Ok(p) => {
                    &&& p.1.merkle_proof@.len() == self.height()
                    &&& B::data_public_wires(p.0) == p.1.merkle_root@ + p.1.nullifier_hash@
                        + p.1.external_nullifier@
                    &&& B::data_public_wires(p.0).len() == 12
                    &&& exists|
                        index_bits: Seq<B::Bit>,
                        commitment: [B::Wire; 4],
                        computed: [B::Wire; 4],
                    |
                        {
                            &&& index_bits.len() == self.height()
                            &&& B::data_ops(p.0) == #[trigger] semaphore_ops::<B>(
                                p.1,
                                index_bits,
                                commitment,
                                computed,
                            )
                        }
                },
                Err(e) => e is BadArgument,
            },
    {
        if self.cap_height() != 0 {
            return Err(SignalError::BadArgument);
        }
        let mut builder = B::new_builder();
        let targets = self.semaphore_circuit(&mut builder);
        let ghost built_view = builder.builder_view();
        let circuit_data = builder.finalize();
        proof {
            assert(Seq::<B::Wire>::empty() + targets.merkle_root@ + targets.nullifier_hash@
                + targets.external_nullifier@ =~= targets.merkle_root@ + targets.nullifier_hash@
                + targets.external_nullifier@);
            let (ib, cm, cn) = choose|ib: Seq<B::Bit>, cm: [B::Wire; 4], cn: [B::Wire; 4]|
                {
                    &&& ib.len() == self.height()
                    &&& built_view.ops == Seq::<CircuitOp<B::Wire, B::Bit>>::empty()
                        + #[trigger] semaphore_ops::<B>(targets, ib, cm, cn)
                };
            assert(Seq::<CircuitOp<B::Wire, B::Bit>>::empty() + semaphore_ops::<B>(
                targets,
                ib,
                cm,
                cn,
            ) =~= semaphore_ops::<B>(targets, ib, cm, cn));
            assert(B::data_ops(circuit_data) == semaphore_ops::<B>(targets, ib, cm, cn));
        }
        Ok((circuit_data, targets))
    }

    /// The verifier-only view of the finalized circuit: together with the
    /// public-input vector it suffices to verify any proof the matching
    /// prover produces.
    pub fn to_verifier_data(circuit_data: &B::CircuitData) -> (r: B::VerifierData)
        ensures
            r == B::verifier_view(*circuit_data),
    {
        B::verifier_data(circuit_data)
    }

    /// Emits a signal: computes the nullifier natively, assigns the whole
    /// witness, and runs the prover. Returns the nullifier with the proof.
    ///
    /// An index at or past the leaf count is rejected before proving; a
    /// witness conflict or a prover rejection is surfaced as its own kind.
    pub fn make_signal(
        &self,
        identity_nullifier: Digest,
        identity_trapdoor: Digest,
        external_nullifier: Digest,
        public_key_index: usize,
        circuit_data: &B::CircuitData,
        targets: &SemaphoreTargets<B>,
    ) -> (r: Result<Signal<B::Proof>, SignalError>)
        requires
            self.wf(),
            self.cap_h() == 0,
            identity_nullifier.wf(),
            identity_trapdoor.wf(),
            external_nullifier.wf(),
            targets.merkle_proof@.len() == self.height(),
        ensures
            match r {
                Ok(sig) => {
                    &&& public_key_index < self.leaves().len()
                    &&& sig.nullifier@ == nullifier_of::<B>(
                        identity_nullifier@,
                        external_nullifier@,
                    )
                    &&& sig.nullifier.wf()
                },
                Err(e) => e is BadArgument || e is WitnessGapOrConflict || e is ProofGeneration,
            },
            public_key_index >= self.leaves().len() ==> r matches Err(SignalError::BadArgument),
            r matches Err(SignalError::BadArgument) ==> (public_key_index >= self.leaves().len()
                || public_key_index as u64 >= GOLDILOCKS_ORDER),
            (public_key_index < self.leaves().len() && (public_key_index as u64)
                < GOLDILOCKS_ORDER) ==> !(r matches Err(SignalError::BadArgument)),
    {
        let nullifier = crate::backend::nullify::<B>(&identity_nullifier, &external_nullifier);
        let mut witness = B::new_witness();
        match self.fill_semaphore_targets(
            &mut witness,
            identity_nullifier,
            identity_trapdoor,
            external_nullifier,
            public_key_index,
            targets,
        ) {
            Ok(u) => u,
            Err(e) => return Err(e),
        }
        match B::prove(circuit_data, witness) {
            Ok(proof) => Ok(Signal { nullifier, proof }),
            Err(words) => Err(SignalError::ProofGeneration(words)),
        }
    }

    /// Checks a signal: reconstructs the canonical public-input vector from
    /// this tree's cap, the claimed nullifier and the context, and returns
    /// the backend's verdict on exactly that vector, unchanged. A single
    /// failure kind: an invalid signal is invalid.
    pub fn verify_signal(
        &self,
        external_nullifier: Digest,
        signal: Signal<B::Proof>,
        verifier_data: &B::VerifierData,
    ) -> (r: Result<(), SignalError>)
        requires
            self.wf(),
        ensures
            r is Ok <==> B::verify_spec(
                *verifier_data,
                public_inputs_spec(self.cap_views(), signal.nullifier@, external_nullifier@),
                signal.proof,
            ),
            r is Err ==> r matches Err(SignalError::Verification),
    {
        let public_inputs = self.public_inputs(&signal.nullifier, &external_nullifier);
        if B::verify(verifier_data, &public_inputs, signal.proof) {
            Ok(())
        } else {
            Err(SignalError::Verification)
        }
    }
}

/// The public-input layout is unambiguous: under one cap, two equal
/// public-input vectors carry the same nullifier and the same context, so
/// no slot of one can stand in for a slot of the other.
pub proof fn lemma_public_inputs_unambiguous(
    cap: Seq<Seq<u64>>,
    n1: Seq<u64>,
    c1: Seq<u64>,
    n2: Seq<u64>,
    c2: Seq<u64>,
)
    requires
        n1.len() == 4,
        c1.len() == 4,
        n2.len() == 4,
        c2.len() == 4,
        public_inputs_spec(cap, n1, c1) == public_inputs_spec(cap, n2, c2),
    ensures
        n1 == n2,
        c1 == c2,
{
    let flat = concat_all(cap);
    let lhs = public_inputs_spec(cap, n1, c1);
    let rhs = public_inputs_spec(cap, n2, c2);
    assert forall|k: int| 0 <= k < 4 implies n1[k] == n2[k] by {
        assert(lhs[flat.len() + k] == n1[k]);
        assert(rhs[flat.len() + k] == n2[k]);
    }
    assert forall|k: int| 0 <= k < 4 implies c1[k] == c2[k] by {
        assert(lhs[flat.len() + 4 + k] == c1[k]);
        assert(rhs[flat.len() + 4 + k] == c2[k]);
    }
    assert(n1 =~= n2);
    assert(c1 =~= c2);
}

/// Nullifier determinism: two signals whose nullifiers both arise from the
/// same secret and the same context carry the same nullifier, whatever else
/// they differ in.
pub proof fn lemma_nullifier_deterministic<B: Backend>(
    a: Signal<B::Proof>,
    b: Signal<B::Proof>,
    s1: Seq<u64>,
    ctx: Seq<u64>,
)
    requires
        a.nullifier@ == nullifier_of::<B>(s1, ctx),
        b.nullifier@ == nullifier_of::<B>(s1, ctx),
    ensures
        a.nullifier@ == b.nullifier@,
{
}

} // verus!
