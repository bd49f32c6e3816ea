//! The shielded deposit/withdraw variant: a fixed public denomination in
//! place of the second secret, a one-element-wide Merkle combine, and
//! explicit boolean path-index witnesses in place of a decomposed integer
//! index.
//!
//! A note commitment is the first element of `H(nullifier ‖ denomination)`;
//! the withdraw leaf is reconstructed identically, and membership is proved
//! by folding a path of fixed depth whose direction at each level is a
//! boolean witness. Each circuit publishes one input — the claimed
//! commitment, or the claimed root — and both circuits are built once and
//! reused across proofs.

use vstd::prelude::*;

use crate::backend::Backend;
use crate::backend::CircuitOp;
use crate::backend::wire_values;
use crate::error::SignalError;
use crate::field::GOLDILOCKS_ORDER;

verus! {

/// The fixed denomination every note carries.
pub const TORNADO_AMOUNT: u64 = 1_000_000_000;

/// The depth of the withdraw tree.
pub const TORNADO_DEPTH: usize = 20;

/// What the note commitment of a nullifier is: the first element of the
/// hash of the nullifier and the denomination.
pub open spec fn tornado_commitment_of<B: Backend>(nullifier: u64) -> u64 {
    B::hash_spec(seq![nullifier, TORNADO_AMOUNT])[0]
}

/// The one-element Merkle combine: the first element of the hash of the
/// two children.
pub open spec fn combine1<B: Backend>(left: u64, right: u64) -> u64 {
    B::hash_spec(seq![left, right])[0]
}

/// Folds a one-element leaf up a path of one-element siblings: a set index
/// bit puts the sibling on the left, a clear one on the right.
pub open spec fn fold_path1<B: Backend>(leaf: u64, elements: Seq<u64>, indices: Seq<bool>) -> u64
    decreases elements.len(),
{
    if elements.len() == 0 {
        leaf
    } else {
        let next = if indices[0] {
            combine1::<B>(elements[0], leaf)
        } else {
            combine1::<B>(leaf, elements[0])
        };
        fold_path1::<B>(next, elements.drop_first(), indices.drop_first())
    }
}

/// The wires of the deposit circuit: the secret nullifier and the claimed
/// note commitment, the one public input, which the circuit ties to its
/// recomputation.
pub struct DepositTargets<B: Backend> {
    pub nullifier: B::Wire,
    pub commitment: B::Wire,
}

/// The wires of the withdraw circuit: the secret nullifier, the claimed
/// root, the one public input, and one sibling element with one direction
/// bit per level.
pub struct WithdrawTargets<B: Backend> {
    pub nullifier: B::Wire,
    pub root: B::Wire,
    pub path_elements: Vec<B::Wire>,
    pub path_indices: Vec<B::Bit>,
}

/// The two finalized circuits of the variant, built once and reused.
pub struct TornadoCircuit<B: Backend> {
    pub deposit_data: B::CircuitData,
    pub deposit_targets: DepositTargets<B>,
    pub withdraw_data: B::CircuitData,
    pub withdraw_targets: WithdrawTargets<B>,
}

/// The constraints of the deposit circuit, in emission order: the
/// denomination constant, the note-commitment hash absorbing exactly the
/// nullifier wire and the denomination wire, and the connect tying its
/// first element to the claimed commitment.
pub open spec fn deposit_ops<B: Backend>(
    targets: DepositTargets<B>,
    amount: B::Wire,
    commitment_out: [B::Wire; 4],
) -> Seq<CircuitOp<B::Wire, B::Bit>> {
    seq![
        CircuitOp::Constant { wire: amount, value: TORNADO_AMOUNT },
        CircuitOp::Hash { input: seq![targets.nullifier, amount], output: commitment_out },
        CircuitOp::Connect { a: commitment_out[0], b: targets.commitment },
    ]
}

/// The per-level constraints of the withdraw fold, in emission order: at
/// each level, the direction bit constrained boolean, the two selects
/// ordering the sibling element and the entering node by that bit, and the
/// combine hash absorbing exactly the ordered pair.
pub open spec fn withdraw_fold_ops<B: Backend>(
    elements: Seq<B::Wire>,
    indices: Seq<B::Bit>,
    entries: Seq<B::Wire>,
    lefts: Seq<B::Wire>,
    rights: Seq<B::Wire>,
    outs: Seq<[B::Wire; 4]>,
) -> Seq<CircuitOp<B::Wire, B::Bit>>
    decreases elements.len(),
{
    if elements.len() == 0 {
        Seq::empty()
    } else {
        seq![
            CircuitOp::Bool { bit: indices[0] },
            CircuitOp::Select {
                bit: indices[0],
                if_set: elements[0],
                if_clear: entries[0],
                out: lefts[0],
            },
            CircuitOp::Select {
                bit: indices[0],
                if_set: entries[0],
                if_clear: elements[0],
                out: rights[0],
            },
            CircuitOp::Hash { input: seq![lefts[0], rights[0]], output: outs[0] },
        ] + withdraw_fold_ops::<B>(
            elements.drop_first(),
            indices.drop_first(),
            entries.drop_first(),
            lefts.drop_first(),
            rights.drop_first(),
            outs.drop_first(),
        )
    }
}

/// One more level extends the fold constraints at their end.
proof fn lemma_withdraw_fold_ops_push<B: Backend>(
    elements: Seq<B::Wire>,
    indices: Seq<B::Bit>,
    entries: Seq<B::Wire>,
    lefts: Seq<B::Wire>,
    rights: Seq<B::Wire>,
    outs: Seq<[B::Wire; 4]>,
    element: B::Wire,
    index: B::Bit,
    entry: B::Wire,
    left: B::Wire,
    right: B::Wire,
    out: [B::Wire; 4],
)
    requires
        indices.len() == elements.len(),
        entries.len() == elements.len(),
        lefts.len() == elements.len(),
        rights.len() == elements.len(),
        outs.len() == elements.len(),
    ensures
        withdraw_fold_ops::<B>(
            elements.push(element),
            indices.push(index),
            entries.push(entry),
            lefts.push(left),
            rights.push(right),
            outs.push(out),
        ) == withdraw_fold_ops::<B>(elements, indices, entries, lefts, rights, outs) + seq![
            CircuitOp::<B::Wire, B::Bit>::Bool { bit: index },
            CircuitOp::<B::Wire, B::Bit>::Select {
                bit: index,
                if_set: element,
                if_clear: entry,
                out: left,
            },
            CircuitOp::<B::Wire, B::Bit>::Select {
                bit: index,
                if_set: entry,
                if_clear: element,
                out: right,
            },
            CircuitOp::<B::Wire, B::Bit>::Hash { input: seq![left, right], output: out },
        ],
    decreases elements.len(),
{
    if elements.len() == 0 {
        assert(elements.push(element).drop_first() =~= Seq::<B::Wire>::empty());
        assert(indices.push(index).drop_first() =~= Seq::<B::Bit>::empty());
        assert(entries.push(entry).drop_first() =~= Seq::<B::Wire>::empty());
        assert(lefts.push(left).drop_first() =~= Seq::<B::Wire>::empty());
        assert(rights.push(right).drop_first() =~= Seq::<B::Wire>::empty());
        assert(outs.push(out).drop_first() =~= Seq::<[B::Wire; 4]>::empty());
        assert(withdraw_fold_ops::<B>(
            Seq::<B::Wire>::empty(),
            Seq::<B::Bit>::empty(),
            Seq::<B::Wire>::empty(),
            Seq::<B::Wire>::empty(),
            Seq::<B::Wire>::empty(),
            Seq::<[B::Wire; 4]>::empty(),
        ) == Seq::<CircuitOp<B::Wire, B::Bit>>::empty());
        assert(withdraw_fold_ops::<B>(elements, indices, entries, lefts, rights, outs)
            == Seq::<CircuitOp<B::Wire, B::Bit>>::empty());
        assert(withdraw_fold_ops::<B>(
            elements.push(element),
            indices.push(index),
            entries.push(entry),
            lefts.push(left),
            rights.push(right),
            outs.push(out),
        ) =~= withdraw_fold_ops::<B>(elements, indices, entries, lefts, rights, outs) + seq![
            CircuitOp::<B::Wire, B::Bit>::Bool { bit: index },
            CircuitOp::<B::Wire, B::Bit>::Select {
                bit: index,
                if_set: element,
                if_clear: entry,
                out: left,
            },
            CircuitOp::<B::Wire, B::Bit>::Select {
                bit: index,
                if_set: entry,
                if_clear: element,
                out: right,
            },
            CircuitOp::<B::Wire, B::Bit>::Hash { input: seq![left, right], output: out },
        ]);
    } else {
        assert(elements.push(element).drop_first() =~= elements.drop_first().push(element));
        assert(indices.push(index).drop_first() =~= indices.drop_first().push(index));
        assert(entries.push(entry).drop_first() =~= entries.drop_first().push(entry));
        assert(lefts.push(left).drop_first() =~= lefts.drop_first().push(left));
        assert(rights.push(right).drop_first() =~= rights.drop_first().push(right));
        assert(outs.push(out).drop_first() =~= outs.drop_first().push(out));
        lemma_withdraw_fold_ops_push::<B>(
            elements.drop_first(),
            indices.drop_first(),
            entries.drop_first(),
            lefts.drop_first(),
            rights.drop_first(),
            outs.drop_first(),
            element,
            index,
            entry,
            left,
            right,
            out,
        );
        assert(withdraw_fold_ops::<B>(
            elements.push(element),
            indices.push(index),
            entries.push(entry),
            lefts.push(left),
            rights.push(right),
            outs.push(out),
        ) =~= withdraw_fold_ops::<B>(elements, indices, entries, lefts, rights, outs) + seq![
            CircuitOp::<B::Wire, B::Bit>::Bool { bit: index },
            CircuitOp::<B::Wire, B::Bit>::Select {
                bit: index,
                if_set: element,
                if_clear: entry,
                out: left,
            },
            CircuitOp::<B::Wire, B::Bit>::Select {
                bit: index,
                if_set: entry,
                if_clear: element,
                out: right,
            },
            CircuitOp::<B::Wire, B::Bit>::Hash { input: seq![left, right], output: out },
        ]);
    }
}

/// The whole constraint list of the withdraw circuit: the denomination
/// constant, the leaf hash absorbing exactly the nullifier wire and the
/// denomination wire, the per-level fold whose entering node at each level
/// is the previous level's combine output (the leaf hash's first element at
/// the bottom), and the connect tying the last combine output to the
/// claimed root.
pub open spec fn withdraw_ops_shape<B: Backend>(
    ops: Seq<CircuitOp<B::Wire, B::Bit>>,
    targets: WithdrawTargets<B>,
    amount: B::Wire,
    leaf_out: [B::Wire; 4],
    entries: Seq<B::Wire>,
    lefts: Seq<B::Wire>,
    rights: Seq<B::Wire>,
    outs: Seq<[B::Wire; 4]>,
) -> bool {
    let depth = targets.path_elements@.len();
    &&& depth > 0
    &&& targets.path_indices@.len() == depth
    &&& entries.len() == depth
    &&& lefts.len() == depth
    &&& rights.len() == depth
    &&& outs.len() == depth
    &&& entries[0] == leaf_out[0]
    &&& (forall|j: int| 0 < j < depth ==> entries[j] == (#[trigger] outs[j - 1])[0])
    &&& ops == seq![
        CircuitOp::<B::Wire, B::Bit>::Constant { wire: amount, value: TORNADO_AMOUNT },
        CircuitOp::<B::Wire, B::Bit>::Hash {
            input: seq![targets.nullifier, amount],
            output: leaf_out,
        },
    ] + withdraw_fold_ops::<B>(
        targets.path_elements@,
        targets.path_indices@,
        entries,
        lefts,
        rights,
        outs,
    ) + seq![
        CircuitOp::<B::Wire, B::Bit>::Connect { a: outs[depth - 1][0], b: targets.root },
    ]
}

/// The native note commitment of a nullifier.
pub fn deposit_commitment<B: Backend>(nullifier: u64) -> (r: u64)
    requires
        nullifier < GOLDILOCKS_ORDER,
    ensures
        r == tornado_commitment_of::<B>(nullifier),
        r < GOLDILOCKS_ORDER,
{
    let mut input: Vec<u64> = Vec::new();
    input.push(nullifier);
    input.push(TORNADO_AMOUNT);
    proof {
        assert(input@ =~= seq![nullifier, TORNADO_AMOUNT]);
    }
    let d = B::hash(&input);
    d.0
}

/// The native root a withdraw statement folds to: the commitment of the
/// nullifier hashed up the path under the given direction bits.
pub fn withdraw_root<B: Backend>(
    nullifier: u64,
    path_elements: &Vec<u64>,
    path_indices: &Vec<bool>,
) -> (r: u64)
    requires
        nullifier < GOLDILOCKS_ORDER,
        path_elements@.len() == path_indices@.len(),
        forall|i: int| 0 <= i < path_elements@.len() ==> path_elements@[i] < GOLDILOCKS_ORDER,
    ensures
        r == fold_path1::<B>(
            tornado_commitment_of::<B>(nullifier),
            path_elements@,
            path_indices@,
        ),
        r < GOLDILOCKS_ORDER,
{
    let mut cur = deposit_commitment::<B>(nullifier);
    let mut k: usize = 0;
    let ghost all_elements = path_elements@;
    let ghost all_indices = path_indices@;
    proof {
        assert(all_elements.skip(0) =~= all_elements);
        assert(all_indices.skip(0) =~= all_indices);
    }
    while k < path_elements.len()
        invariant
            0 <= k <= all_elements.len(),
            all_elements == path_elements@,
            all_indices == path_indices@,
            all_elements.len() == all_indices.len(),
            forall|i: int| 0 <= i < all_elements.len() ==> all_elements[i] < GOLDILOCKS_ORDER,
            cur < GOLDILOCKS_ORDER,
            fold_path1::<B>(
                tornado_commitment_of::<B>(nullifier),
                all_elements,
                all_indices,
            ) == fold_path1::<B>(cur, all_elements.skip(k as int), all_indices.skip(k as int)),
        decreases all_elements.len() - k,
    {
        let e = path_elements[k];
        let mut input: Vec<u64> = Vec::new();
        if path_indices[k] {
            input.push(e);
            input.push(cur);
        } else {
            input.push(cur);
            input.push(e);
        }
        let d = B::hash(&input);
        proof {
            if all_indices[k as int] {
                assert(input@ =~= seq![e, cur]);
            } else {
                assert(input@ =~= seq![cur, e]);
            }
            assert(all_elements.skip(k as int).drop_first() =~= all_elements.skip(k + 1));
            assert(all_indices.skip(k as int).drop_first() =~= all_indices.skip(k + 1));
            assert(all_elements.skip(k as int)[0] == all_elements[k as int]);
            assert(all_indices.skip(k as int)[0] == all_indices[k as int]);
        }
        cur = d.0;
        k = k + 1;
    }
    proof {
        assert(all_elements.skip(all_elements.len() as int) =~= Seq::<u64>::empty());
        assert(all_indices.skip(all_indices.len() as int) =~= Seq::<bool>::empty());
    }
    cur
}

/// Builds both circuits of the variant once. The deposit circuit ties the
/// claimed commitment, its one public input, to `H(nullifier ‖
/// denomination)`; the withdraw circuit folds the reconstructed leaf up a
/// fixed-depth path of witnessed siblings and direction bits and ties the
/// result to the claimed root, its one public input. The ensures pin each
/// circuit's public wires and its full constraint list.
pub fn build_tornado_circuit<B: Backend>() -> (r: TornadoCircuit<B>)
    ensures
        r.withdraw_targets.path_elements@.len() == TORNADO_DEPTH,
        r.withdraw_targets.path_indices@.len() == TORNADO_DEPTH,
        B::data_public_wires(r.deposit_data) == seq![r.deposit_targets.commitment],
        B::data_public_wires(r.withdraw_data) == seq![r.withdraw_targets.root],
        exists|amount: B::Wire, commitment_out: [B::Wire; 4]|
            B::data_ops(r.deposit_data) == #[trigger] deposit_ops::<B>(
                r.deposit_targets,
                amount,
                commitment_out,
            ),
        exists|
            amount: B::Wire,
            leaf_out: [B::Wire; 4],
            entries: Seq<B::Wire>,
            lefts: Seq<B::Wire>,
            rights: Seq<B::Wire>,
            outs: Seq<[B::Wire; 4]>,
        |
            #[trigger] withdraw_ops_shape::<B>(
                B::data_ops(r.withdraw_data),
                r.withdraw_targets,
                amount,
                leaf_out,
                entries,
                lefts,
                rights,
                outs,
            ),
{
    // The deposit side.
    let mut builder = B::new_builder();
    let deposit_nullifier = builder.add_wire();
    let deposit_claim = builder.add_wire();
    builder.register_public(deposit_claim);
    let amount = builder.constant_wire(TORNADO_AMOUNT);
    let mut deposit_input: Vec<B::Wire> = Vec::new();
    deposit_input.push(deposit_nullifier);
    deposit_input.push(amount);
    let computed_commitment = builder.hash_wires(deposit_input);
    builder.connect(computed_commitment[0], deposit_claim);
    let deposit_data = builder.finalize();
    let deposit_targets = DepositTargets::<B> {
        nullifier: deposit_nullifier,
        commitment: deposit_claim,
    };
    proof {
        assert(Seq::<B::Wire>::empty().push(deposit_claim) =~= seq![deposit_claim]);
        assert(deposit_input@ =~= seq![deposit_nullifier, amount]);
        assert(B::data_ops(deposit_data) =~= deposit_ops::<B>(
            deposit_targets,
            amount,
            computed_commitment,
        ));
    }

    // The withdraw side.
    let mut builder = B::new_builder();
    let withdraw_nullifier = builder.add_wire();
    let withdraw_claim = builder.add_wire();
    builder.register_public(withdraw_claim);
    let amount = builder.constant_wire(TORNADO_AMOUNT);
    let mut leaf_input: Vec<B::Wire> = Vec::new();
    leaf_input.push(withdraw_nullifier);
    leaf_input.push(amount);
    let computed_leaf = builder.hash_wires(leaf_input);
    let ghost base_ops = builder.builder_view().ops;
    let mut current = computed_leaf[0];
    let mut path_elements: Vec<B::Wire> = Vec::new();
    let mut path_indices: Vec<B::Bit> = Vec::new();
    let ghost mut gentries: Seq<B::Wire> = Seq::empty();
    let ghost mut glefts: Seq<B::Wire> = Seq::empty();
    let ghost mut grights: Seq<B::Wire> = Seq::empty();
    let ghost mut gouts: Seq<[B::Wire; 4]> = Seq::empty();
    proof {
        assert(withdraw_fold_ops::<B>(
            path_elements@,
            path_indices@,
            gentries,
            glefts,
            grights,
            gouts,
        ) == Seq::<CircuitOp<B::Wire, B::Bit>>::empty());
        assert(base_ops + Seq::<CircuitOp<B::Wire, B::Bit>>::empty() =~= base_ops);
    }
    let mut k: usize = 0;
    while k < TORNADO_DEPTH
        invariant
            0 <= k <= TORNADO_DEPTH,
            path_elements@.len() == k,
            path_indices@.len() == k,
            gentries.len() == k,
            glefts.len() == k,
            grights.len() == k,
            gouts.len() == k,
            k > 0 ==> gentries[0] == computed_leaf[0],
            k > 0 ==> current == gouts[k - 1][0],
            k == 0 ==> current == computed_leaf[0],
            forall|j: int| 0 < j < k ==> gentries[j] == (#[trigger] gouts[j - 1])[0],
            builder.builder_view().public_wires == Seq::<B::Wire>::empty().push(withdraw_claim),
            builder.builder_view().ops == base_ops + withdraw_fold_ops::<B>(
                path_elements@,
                path_indices@,
                gentries,
                glefts,
                grights,
                gouts,
            ),
        decreases TORNADO_DEPTH - k,
    {
        let element = builder.add_wire();
        let bit = builder.add_bit();
        let left = builder.select(bit, element, current);
        let right = builder.select(bit, current, element);
        let mut combine_input: Vec<B::Wire> = Vec::new();
        combine_input.push(left);
        combine_input.push(right);
        let combined = builder.hash_wires(combine_input);
        proof {
            assert(combine_input@ =~= seq![left, right]);
            lemma_withdraw_fold_ops_push::<B>(
                path_elements@,
                path_indices@,
                gentries,
                glefts,
                grights,
                gouts,
                element,
                bit,
                current,
                left,
                right,
                combined,
            );
        }
        path_elements.push(element);
        path_indices.push(bit);
        proof {
            gentries = gentries.push(current);
            glefts = glefts.push(left);
            grights = grights.push(right);
            gouts = gouts.push(combined);
        }
        current = combined[0];
        k = k + 1;
    }
    builder.connect(current, withdraw_claim);
    let withdraw_data = builder.finalize();
    let withdraw_targets = WithdrawTargets::<B> {
        nullifier: withdraw_nullifier,
        root: withdraw_claim,
        path_elements,
        path_indices,
    };
    proof {
        assert(Seq::<B::Wire>::empty().push(withdraw_claim) =~= seq![withdraw_claim]);
        assert(leaf_input@ =~= seq![withdraw_nullifier, amount]);
        assert(B::data_ops(withdraw_data) =~= seq![
            CircuitOp::<B::Wire, B::Bit>::Constant { wire: amount, value: TORNADO_AMOUNT },
            CircuitOp::<B::Wire, B::Bit>::Hash {
                input: seq![withdraw_nullifier, amount],
                output: computed_leaf,
            },
        ] + withdraw_fold_ops::<B>(
            withdraw_targets.path_elements@,
            withdraw_targets.path_indices@,
            gentries,
            glefts,
            grights,
            gouts,
        ) + seq![
            CircuitOp::<B::Wire, B::Bit>::Connect {
                a: gouts[TORNADO_DEPTH - 1][0],
                b: withdraw_claim,
            },
        ]);
        assert(withdraw_ops_shape::<B>(
            B::data_ops(withdraw_data),
            withdraw_targets,
            amount,
            computed_leaf,
            gentries,
            glefts,
            grights,
            gouts,
        ));
    }

    TornadoCircuit { deposit_data, deposit_targets, withdraw_data, withdraw_targets }
}

/// Assigns the deposit witness: the secret nullifier, then the claimed
/// commitment into its public slot. No boolean wire is touched.
pub fn fill_deposit_targets<B: Backend>(
    witness: &mut B::Witness,
    targets: &DepositTargets<B>,
    nullifier: u64,
    commitment: u64,
) -> (r: Result<(), SignalError>)
    requires
        nullifier < GOLDILOCKS_ORDER,
        commitment < GOLDILOCKS_ORDER,
    ensures
        match r {
            Ok(u) => B::witness_wires(*final(witness)) == B::witness_wires(*old(witness)).insert(
                targets.nullifier,
                nullifier,
            ).insert(targets.commitment, commitment),
            Err(e) => e is WitnessGapOrConflict,
        },
        B::witness_bits(*final(witness)) == B::witness_bits(*old(witness)),
{
    match B::set_wire(witness, targets.nullifier, nullifier) {
        Ok(u) => u,
        Err(e) => return Err(SignalError::WitnessGapOrConflict(e)),
    }
    match B::set_wire(witness, targets.commitment, commitment) {
        Ok(u) => u,
        Err(e) => return Err(SignalError::WitnessGapOrConflict(e)),
    }
    Ok(())
}

/// The witness map with each wire of a sequence assigned the matching
/// value, first wire first.
pub open spec fn with_wires<B: Backend>(
    m: Map<B::Wire, u64>,
    wires: Seq<B::Wire>,
    values: Seq<u64>,
) -> Map<B::Wire, u64>
    decreases wires.len(),
{
    if wires.len() == 0 {
        m
    } else {
        with_wires::<B>(m.insert(wires[0], values[0]), wires.drop_first(), values.drop_first())
    }
}

/// The boolean-witness map with each bit wire of a sequence assigned the
/// matching value, first wire first.
pub open spec fn with_bits<B: Backend>(
    m: Map<B::Bit, bool>,
    bits: Seq<B::Bit>,
    values: Seq<bool>,
) -> Map<B::Bit, bool>
    decreases bits.len(),
{
    if bits.len() == 0 {
        m
    } else {
        with_bits::<B>(m.insert(bits[0], values[0]), bits.drop_first(), values.drop_first())
    }
}

/// Assigning one more wire extends the wire fold at its end.
proof fn lemma_with_wires_push<B: Backend>(
    m: Map<B::Wire, u64>,
    wires: Seq<B::Wire>,
    values: Seq<u64>,
    wire: B::Wire,
    value: u64,
)
    requires
        wires.len() == values.len(),
    ensures
        with_wires::<B>(m, wires.push(wire), values.push(value)) == with_wires::<B>(
            m,
            wires,
            values,
        ).insert(wire, value),
    decreases wires.len(),
{
    if wires.len() == 0 {
        assert(wires.push(wire).drop_first() =~= Seq::<B::Wire>::empty());
        assert(values.push(value).drop_first() =~= Seq::<u64>::empty());
        assert(with_wires::<B>(m.insert(wire, value), Seq::empty(), Seq::empty()) == m.insert(
            wire,
            value,
        ));
        assert(with_wires::<B>(m, wires, values) == m);
    } else {
        assert(wires.push(wire).drop_first() =~= wires.drop_first().push(wire));
        assert(values.push(value).drop_first() =~= values.drop_first().push(value));
        lemma_with_wires_push::<B>(
            m.insert(wires[0], values[0]),
            wires.drop_first(),
            values.drop_first(),
            wire,
            value,
        );
    }
}

/// Assigning one more bit extends the bit fold at its end.
proof fn lemma_with_bits_push<B: Backend>(
    m: Map<B::Bit, bool>,
    bits: Seq<B::Bit>,
    values: Seq<bool>,
    bit: B::Bit,
    value: bool,
)
    requires
        bits.len() == values.len(),
    ensures
        with_bits::<B>(m, bits.push(bit), values.push(value)) == with_bits::<B>(
            m,
            bits,
            values,
        ).insert(bit, value),
    decreases bits.len(),
{
    if bits.len() == 0 {
        assert(bits.push(bit).drop_first() =~= Seq::<B::Bit>::empty());
        assert(values.push(value).drop_first() =~= Seq::<bool>::empty());
        assert(with_bits::<B>(m.insert(bit, value), Seq::empty(), Seq::empty()) == m.insert(
            bit,
            value,
        ));
        assert(with_bits::<B>(m, bits, values) == m);
    } else {
        assert(bits.push(bit).drop_first() =~= bits.drop_first().push(bit));
        assert(values.push(value).drop_first() =~= values.drop_first().push(value));
        lemma_with_bits_push::<B>(
            m.insert(bits[0], values[0]),
            bits.drop_first(),
            values.drop_first(),
            bit,
            value,
        );
    }
}

/// Assigns the withdraw witness: the sibling element and direction bit of
/// every level, then the secret nullifier, then the claimed root into its
/// public slot.
pub fn fill_withdraw_targets<B: Backend>(
    witness: &mut B::Witness,
    targets: &WithdrawTargets<B>,
    nullifier: u64,
    root: u64,
    path_elements: &Vec<u64>,
    path_indices: &Vec<bool>,
) -> (r: Result<(), SignalError>)
    requires
        nullifier < GOLDILOCKS_ORDER,
        root < GOLDILOCKS_ORDER,
        targets.path_elements@.len() == path_elements@.len(),
        targets.path_indices@.len() == path_indices@.len(),
        path_elements@.len() == path_indices@.len(),
        forall|i: int| 0 <= i < path_elements@.len() ==> path_elements@[i] < GOLDILOCKS_ORDER,
    ensures
        match r {
            Ok(u) => {
                &&& B::witness_wires(*final(witness)) == with_wires::<B>(
                    B::witness_wires(*old(witness)),
                    targets.path_elements@,
                    path_elements@,
                ).insert(targets.nullifier, nullifier).insert(targets.root, root)
                &&& B::witness_bits(*final(witness)) == with_bits::<B>(
                    B::witness_bits(*old(witness)),
                    targets.path_indices@,
                    path_indices@,
                )
            },
            Err(e) => e is WitnessGapOrConflict,
        },
{
    let ghost base_wires = B::witness_wires(*witness);
    let ghost base_bits = B::witness_bits(*witness);
    proof {
        assert(targets.path_elements@.take(0) =~= Seq::<B::Wire>::empty());
        assert(path_elements@.take(0) =~= Seq::<u64>::empty());
        assert(targets.path_indices@.take(0) =~= Seq::<B::Bit>::empty());
        assert(path_indices@.take(0) =~= Seq::<bool>::empty());
    }
    let mut k: usize = 0;
    while k < path_elements.len()
        invariant
            0 <= k <= path_elements@.len(),
            targets.path_elements@.len() == path_elements@.len(),
            targets.path_indices@.len() == path_indices@.len(),
            path_elements@.len() == path_indices@.len(),
            forall|i: int| 0 <= i < path_elements@.len() ==> path_elements@[i] < GOLDILOCKS_ORDER,
            base_wires == B::witness_wires(*old(witness)),
            base_bits == B::witness_bits(*old(witness)),
            B::witness_wires(*witness) == with_wires::<B>(
                base_wires,
                targets.path_elements@.take(k as int),
                path_elements@.take(k as int),
            ),
            B::witness_bits(*witness) == with_bits::<B>(
                base_bits,
                targets.path_indices@.take(k as int),
                path_indices@.take(k as int),
            ),
        decreases path_elements@.len() - k,
    {
        match B::set_wire(witness, targets.path_elements[k], path_elements[k]) {
            Ok(u) => u,
            Err(e) => return Err(SignalError::WitnessGapOrConflict(e)),
        }
        match B::set_bit(witness, targets.path_indices[k], path_indices[k]) {
            Ok(u) => u,
            Err(e) => return Err(SignalError::WitnessGapOrConflict(e)),
        }
        proof {
            lemma_with_wires_push::<B>(
                base_wires,
                targets.path_elements@.take(k as int),
                path_elements@.take(k as int),
                targets.path_elements@[k as int],
                path_elements@[k as int],
            );
            lemma_with_bits_push::<B>(
                base_bits,
                targets.path_indices@.take(k as int),
                path_indices@.take(k as int),
                targets.path_indices@[k as int],
                path_indices@[k as int],
            );
            assert(targets.path_elements@.take(k + 1) =~= targets.path_elements@.take(
                k as int,
            ).push(targets.path_elements@[k as int]));
            assert(path_elements@.take(k + 1) =~= path_elements@.take(k as int).push(
                path_elements@[k as int],
            ));
            assert(targets.path_indices@.take(k + 1) =~= targets.path_indices@.take(k as int).push(
                targets.path_indices@[k as int],
            ));
            assert(path_indices@.take(k + 1) =~= path_indices@.take(k as int).push(
                path_indices@[k as int],
            ));
        }
        k = k + 1;
    }
    proof {
        assert(targets.path_elements@.take(path_elements@.len() as int) =~= targets.path_elements@);
        assert(path_elements@.take(path_elements@.len() as int) =~= path_elements@);
        assert(targets.path_indices@.take(path_indices@.len() as int) =~= targets.path_indices@);
        assert(path_indices@.take(path_indices@.len() as int) =~= path_indices@);
    }
    match B::set_wire(witness, targets.nullifier, nullifier) {
        Ok(u) => u,
        Err(e) => return Err(SignalError::WitnessGapOrConflict(e)),
    }
    match B::set_wire(witness, targets.root, root) {
        Ok(u) => u,
        Err(e) => return Err(SignalError::WitnessGapOrConflict(e)),
    }
    Ok(())
}

/// Proves one deposit: the claimed commitment must be the commitment of the
/// secret nullifier, or the prover rejects the witness. The fresh proof is
/// checked at once against the circuit's own verifier view and the claimed
/// commitment, its one public input — a check a fresh proof always passes,
/// so no verification failure can arise here.
pub fn generate_deposit_proof<B: Backend>(
    circuit: &TornadoCircuit<B>,
    nullifier: u64,
    commitment: u64,
) -> (r: Result<(), SignalError>)
    requires
        B::data_public_wires(circuit.deposit_data) == seq![circuit.deposit_targets.commitment],
    ensures
        r matches Err(e) ==> (e is BadArgument || e is WitnessGapOrConflict
            || e is ProofGeneration),
        (nullifier >= GOLDILOCKS_ORDER || commitment >= GOLDILOCKS_ORDER) <==> r matches Err(
            SignalError::BadArgument,
        ),
        r is Ok ==> exists|p: B::Proof|
            #[trigger] B::verify_spec(
                B::verifier_view(circuit.deposit_data),
                seq![commitment],
                p,
            ),
{
    if nullifier >= GOLDILOCKS_ORDER || commitment >= GOLDILOCKS_ORDER {
        return Err(SignalError::BadArgument);
    }
    let mut witness = B::new_witness();
    match fill_deposit_targets::<B>(&mut witness, &circuit.deposit_targets, nullifier, commitment) {
        Ok(u) => u,
        Err(e) => return Err(e),
    }
    let ghost witness_map = B::witness_wires(witness);
    let fresh_proof = match B::prove(&circuit.deposit_data, witness) {
        Ok(p) => p,
        Err(words) => return Err(SignalError::ProofGeneration(words)),
    };
    let ghost recorded = fresh_proof;
    proof {
        assert forall|i: int| 0 <= i < B::data_public_wires(circuit.deposit_data).len()
            implies witness_map.dom().contains(
            #[trigger] B::data_public_wires(circuit.deposit_data)[i],
        ) by {
            assert(B::data_public_wires(circuit.deposit_data)[i]
                == circuit.deposit_targets.commitment);
        }
        assert(wire_values(witness_map, B::data_public_wires(circuit.deposit_data)) =~= seq![
            commitment,
        ]);
    }
    let verifier_data = B::verifier_data(&circuit.deposit_data);
    let mut public_inputs: Vec<u64> = Vec::new();
    public_inputs.push(commitment);
    proof {
        assert(public_inputs@ =~= seq![commitment]);
    }
    if B::verify(&verifier_data, &public_inputs, fresh_proof) {
        proof {
            assert(B::verify_spec(
                B::verifier_view(circuit.deposit_data),
                seq![commitment],
                recorded,
            ));
        }
        Ok(())
    } else {
        proof {
            assert(false);
        }
        Err(SignalError::Verification)
    }
}

/// Proves one withdrawal: the claimed root must be what the reconstructed
/// leaf folds to under the witnessed path, or the prover rejects the
/// witness. The fresh proof is checked at once against the circuit's own
/// verifier view and the claimed root, its one public input — a check a
/// fresh proof always passes, so no verification failure can arise here.
pub fn generate_withdrawal_proof<B: Backend>(
    circuit: &TornadoCircuit<B>,
    nullifier: u64,
    root: u64,
    path_elements: &Vec<u64>,
    path_indices: &Vec<bool>,
) -> (r: Result<(), SignalError>)
    requires
        circuit.withdraw_targets.path_elements@.len() == TORNADO_DEPTH,
        circuit.withdraw_targets.path_indices@.len() == TORNADO_DEPTH,
        B::data_public_wires(circuit.withdraw_data) == seq![circuit.withdraw_targets.root],
    ensures
        r matches Err(e) ==> (e is BadArgument || e is WitnessGapOrConflict
            || e is ProofGeneration),
        (nullifier >= GOLDILOCKS_ORDER || root >= GOLDILOCKS_ORDER || path_elements@.len()
            != TORNADO_DEPTH || path_indices@.len() != TORNADO_DEPTH) ==> r matches Err(
            SignalError::BadArgument,
        ),
        r matches Err(SignalError::BadArgument) ==> (nullifier >= GOLDILOCKS_ORDER || root
            >= GOLDILOCKS_ORDER || path_elements@.len() != TORNADO_DEPTH || path_indices@.len()
            != TORNADO_DEPTH || exists|q: int|
            0 <= q < path_elements@.len() && path_elements@[q] >= GOLDILOCKS_ORDER),
        (nullifier < GOLDILOCKS_ORDER && root < GOLDILOCKS_ORDER && path_elements@.len()
            == TORNADO_DEPTH && path_indices@.len() == TORNADO_DEPTH && (forall|q: int|
            0 <= q < path_elements@.len() ==> path_elements@[q] < GOLDILOCKS_ORDER)) ==> !(r
            matches Err(SignalError::BadArgument)),
        r is Ok ==> exists|p: B::Proof|
            #[trigger] B::verify_spec(B::verifier_view(circuit.withdraw_data), seq![root], p),
{
    if nullifier >= GOLDILOCKS_ORDER || root >= GOLDILOCKS_ORDER {
        return Err(SignalError::BadArgument);
    }
    if path_elements.len() != TORNADO_DEPTH || path_indices.len() != TORNADO_DEPTH {
        return Err(SignalError::BadArgument);
    }
    let mut k: usize = 0;
    while k < TORNADO_DEPTH
        invariant
            0 <= k <= TORNADO_DEPTH,
            path_elements@.len() == TORNADO_DEPTH,
            forall|q: int| 0 <= q < k ==> path_elements@[q] < GOLDILOCKS_ORDER,
        decreases TORNADO_DEPTH - k,
    {
        if path_elements[k] >= GOLDILOCKS_ORDER {
            proof {
                assert(path_elements@[k as int] >= GOLDILOCKS_ORDER);
            }
            return Err(SignalError::BadArgument);
        }
        k = k + 1;
    }
    let mut witness = B::new_witness();
    match fill_withdraw_targets::<B>(
        &mut witness,
        &circuit.withdraw_targets,
        nullifier,
        root,
        path_elements,
        path_indices,
    ) {
        Ok(u) => u,
        Err(e) => return Err(e),
    }
    let ghost witness_map = B::witness_wires(witness);
    let fresh_proof = match B::prove(&circuit.withdraw_data, witness) {
        Ok(p) => p,
        Err(words) => return Err(SignalError::ProofGeneration(words)),
    };
    let ghost recorded = fresh_proof;
    proof {
        assert forall|i: int| 0 <= i < B::data_public_wires(circuit.withdraw_data).len()
            implies witness_map.dom().contains(
            #[trigger] B::data_public_wires(circuit.withdraw_data)[i],
        ) by {
            assert(B::data_public_wires(circuit.withdraw_data)[i]
                == circuit.withdraw_targets.root);
        }
        assert(wire_values(witness_map, B::data_public_wires(circuit.withdraw_data)) =~= seq![
            root,
        ]);
    }
    let verifier_data = B::verifier_data(&circuit.withdraw_data);
    let mut public_inputs: Vec<u64> = Vec::new();
    public_inputs.push(root);
    proof {
        assert(public_inputs@ =~= seq![root]);
    }
    if B::verify(&verifier_data, &public_inputs, fresh_proof) {
        proof {
            assert(B::verify_spec(
                B::verifier_view(circuit.withdraw_data),
                seq![root],
                recorded,
            ));
        }
        Ok(())
    } else {
        proof {
            assert(false);
        }
        Err(SignalError::Verification)
    }
}

} // verus!
