// End-to-end tests of the signalling core, run against a small transparent
// backend: a deterministic mixing hash over the Goldilocks field and a
// circuit interpreter whose "proof" records the public-input values, so that
// an unsatisfied constraint fails at proving time and a public-input
// mismatch fails at verification time.

use std::collections::HashMap;

use semaphore_signal::access_set::AccessSet;
use semaphore_signal::backend::commit;
use semaphore_signal::backend::nullify;
use semaphore_signal::backend::Backend;
use semaphore_signal::error::SignalError;
use semaphore_signal::field::Digest;
use semaphore_signal::field::GOLDILOCKS_ORDER;
use semaphore_signal::tornado::build_tornado_circuit;
use semaphore_signal::tornado::deposit_commitment;
use semaphore_signal::tornado::generate_deposit_proof;
use semaphore_signal::tornado::generate_withdrawal_proof;
use semaphore_signal::tornado::withdraw_root;
use semaphore_signal::tornado::TORNADO_DEPTH;

const P: u64 = GOLDILOCKS_ORDER;

fn reduce(x: u128) -> u64 {
    (x % (P as u128)) as u64
}

fn toy_hash(input: &[u64]) -> [u64; 4] {
    let mut state: [u64; 4] = [
        0x243F_6A88_85A3_08D3 % P,
        0x1319_8A2E_0370_7344 % P,
        0xA409_3822_299F_31D0 % P,
        0x082E_FA98_EC4E_6C89 % P,
    ];
    for (i, &v) in input.iter().enumerate() {
        for lane in 0..4usize {
            let x = state[lane] as u128;
            let mixed = x
                .wrapping_mul(6364136223846793005u128)
                .wrapping_add(v as u128)
                .wrapping_add((i as u128) * 997 + lane as u128 + 1);
            state[lane] = reduce(mixed);
        }
        state.rotate_left(1);
    }
    for round in 0..4u128 {
        for lane in 0..4usize {
            let x = state[lane] as u128;
            state[lane] = reduce(x * x + 13 * round + lane as u128);
        }
        state.rotate_left(1);
    }
    state
}

#[derive(Clone)]
enum Op {
    Hash {
        inputs: Vec<usize>,
        outputs: [usize; 4],
    },
    SplitBits {
        wire: usize,
        bits: Vec<usize>,
    },
    MerklePath {
        leaf: Vec<usize>,
        bits: Vec<usize>,
        root: [usize; 4],
        siblings: Vec<[usize; 4]>,
    },
    Select {
        bit: usize,
        x: usize,
        y: usize,
        out: usize,
    },
    Constant {
        wire: usize,
        value: u64,
    },
    Connect(usize, usize),
}

pub struct ToyBuilder {
    num_wires: usize,
    public_inputs: Vec<usize>,
    ops: Vec<Op>,
}

pub struct ToyData {
    num_wires: usize,
    public_inputs: Vec<usize>,
    ops: Vec<Op>,
}

pub struct ToyVerifier {
    num_wires: usize,
    num_ops: usize,
    num_public: usize,
}

#[derive(Clone, Debug, PartialEq)]
pub struct ToyProof {
    num_wires: usize,
    num_ops: usize,
    public_values: Vec<u64>,
}

pub struct ToyWitness {
    values: HashMap<usize, u64>,
}

fn witness_get(values: &HashMap<usize, u64>, wire: usize) -> Result<u64, String> {
    match values.get(&wire) {
        Some(v) => Ok(*v),
        None => Err(format!("wire {} was never set", wire)),
    }
}

fn witness_put(values: &mut HashMap<usize, u64>, wire: usize, value: u64) -> Result<(), String> {
    if let Some(old) = values.get(&wire) {
        if *old != value {
            return Err(format!("wire {} set twice: {} then {}", wire, old, value));
        }
        return Ok(());
    }
    values.insert(wire, value);
    Ok(())
}

impl Backend for ToyBuilder {
    type Wire = usize;
    type Bit = usize;
    type CircuitData = ToyData;
    type VerifierData = ToyVerifier;
    type Proof = ToyProof;
    type Witness = ToyWitness;

    // The specification-level items are erased from compiled code and never
    // run; only their executable counterparts below are ever called.
    fn hash_spec(_input: vstd::seq::Seq<u64>) -> vstd::seq::Seq<u64> {
        unreachable!()
    }

    fn builder_view(&self) -> semaphore_signal::backend::BuilderView<usize, usize> {
        unreachable!()
    }

    fn data_ops(_data: ToyData) -> vstd::seq::Seq<semaphore_signal::backend::CircuitOp<usize, usize>> {
        unreachable!()
    }

    fn witness_wires(_witness: ToyWitness) -> vstd::map::Map<usize, u64> {
        unreachable!()
    }

    fn witness_bits(_witness: ToyWitness) -> vstd::map::Map<usize, bool> {
        unreachable!()
    }

    fn verifier_view(_data: ToyData) -> ToyVerifier {
        unreachable!()
    }

    fn data_public_wires(_data: ToyData) -> vstd::seq::Seq<usize> {
        unreachable!()
    }

    fn verify_spec(_data: ToyVerifier, _public_inputs: vstd::seq::Seq<u64>, _proof: ToyProof) -> bool {
        unreachable!()
    }

    fn hash(input: &Vec<u64>) -> Digest {
        let out = toy_hash(input);
        Digest(out[0], out[1], out[2], out[3])
    }

    fn new_builder() -> ToyBuilder {
        ToyBuilder { num_wires: 0, public_inputs: Vec::new(), ops: Vec::new() }
    }

    fn add_wire(&mut self) -> usize {
        let w = self.num_wires;
        self.num_wires += 1;
        w
    }

    fn register_public(&mut self, wire: usize) {
        self.public_inputs.push(wire);
    }

    fn register_public4(&mut self, wires: &[usize; 4]) {
        for w in wires.iter() {
            self.public_inputs.push(*w);
        }
    }

    fn constant_wire(&mut self, value: u64) -> usize {
        let w = self.num_wires;
        self.num_wires += 1;
        self.ops.push(Op::Constant { wire: w, value });
        w
    }

    fn add_bit(&mut self) -> usize {
        let w = self.num_wires;
        self.num_wires += 1;
        w
    }

    fn select(&mut self, b: usize, x: usize, y: usize) -> usize {
        let out = self.num_wires;
        self.num_wires += 1;
        self.ops.push(Op::Select { bit: b, x, y, out });
        out
    }

    fn hash_wires(&mut self, input: Vec<usize>) -> [usize; 4] {
        let outputs = [
            self.num_wires,
            self.num_wires + 1,
            self.num_wires + 2,
            self.num_wires + 3,
        ];
        self.num_wires += 4;
        self.ops.push(Op::Hash { inputs: input, outputs });
        outputs
    }

    fn split_bits(&mut self, wire: usize, n: usize) -> Vec<usize> {
        let mut bits = Vec::new();
        for _ in 0..n {
            bits.push(self.num_wires);
            self.num_wires += 1;
        }
        self.ops.push(Op::SplitBits { wire, bits: bits.clone() });
        bits
    }

    fn constrain_merkle_path(
        &mut self,
        leaf: Vec<usize>,
        bits: &Vec<usize>,
        root: &[usize; 4],
        siblings: &Vec<[usize; 4]>,
    ) {
        self.ops.push(Op::MerklePath {
            leaf,
            bits: bits.clone(),
            root: *root,
            siblings: siblings.clone(),
        });
    }

    fn connect(&mut self, a: usize, b: usize) {
        self.ops.push(Op::Connect(a, b));
    }

    fn finalize(self) -> ToyData {
        ToyData { num_wires: self.num_wires, public_inputs: self.public_inputs, ops: self.ops }
    }

    fn verifier_data(data: &ToyData) -> ToyVerifier {
        ToyVerifier {
            num_wires: data.num_wires,
            num_ops: data.ops.len(),
            num_public: data.public_inputs.len(),
        }
    }

    fn new_witness() -> ToyWitness {
        ToyWitness { values: HashMap::new() }
    }

    fn set_wire(witness: &mut ToyWitness, wire: usize, value: u64) -> Result<(), String> {
        witness_put(&mut witness.values, wire, value)
    }

    fn set_bit(witness: &mut ToyWitness, bit: usize, value: bool) -> Result<(), String> {
        witness_put(&mut witness.values, bit, if value { 1 } else { 0 })
    }

    fn prove(data: &ToyData, witness: ToyWitness) -> Result<ToyProof, String> {
        let mut values = witness.values;
        for op in data.ops.iter() {
            match op {
                Op::Constant { wire, value } => {
                    witness_put(&mut values, *wire, *value)?;
                }
                Op::Hash { inputs, outputs } => {
                    let mut concrete = Vec::new();
                    for w in inputs.iter() {
                        concrete.push(witness_get(&values, *w)?);
                    }
                    let out = toy_hash(&concrete);
                    for lane in 0..4 {
                        witness_put(&mut values, outputs[lane], out[lane])?;
                    }
                }
                Op::SplitBits { wire, bits } => {
                    let v = witness_get(&values, *wire)?;
                    if bits.len() < 64 && v >= 1u64 << bits.len() {
                        return Err(format!("value {} does not fit in {} bits", v, bits.len()));
                    }
                    for (k, b) in bits.iter().enumerate() {
                        witness_put(&mut values, *b, (v >> k) & 1)?;
                    }
                }
                Op::Select { bit, x, y, out } => {
                    let b = witness_get(&values, *bit)?;
                    if b > 1 {
                        return Err(format!("wire {} is not boolean", bit));
                    }
                    let v = if b == 1 {
                        witness_get(&values, *x)?
                    } else {
                        witness_get(&values, *y)?
                    };
                    witness_put(&mut values, *out, v)?;
                }
                Op::MerklePath { leaf, bits, root, siblings } => {
                    let mut current = [0u64; 4];
                    if leaf.len() <= 4 {
                        for (k, w) in leaf.iter().enumerate() {
                            current[k] = witness_get(&values, *w)?;
                        }
                    } else {
                        let mut concrete = Vec::new();
                        for w in leaf.iter() {
                            concrete.push(witness_get(&values, *w)?);
                        }
                        current = toy_hash(&concrete);
                    }
                    for (k, sib) in siblings.iter().enumerate() {
                        let b = witness_get(&values, bits[k])?;
                        if b > 1 {
                            return Err(format!("wire {} is not boolean", bits[k]));
                        }
                        let mut sib_values = [0u64; 4];
                        for lane in 0..4 {
                            sib_values[lane] = witness_get(&values, sib[lane])?;
                        }
                        let mut concrete = Vec::new();
                        if b == 1 {
                            concrete.extend_from_slice(&sib_values);
                            concrete.extend_from_slice(&current);
                        } else {
                            concrete.extend_from_slice(&current);
                            concrete.extend_from_slice(&sib_values);
                        }
                        current = toy_hash(&concrete);
                    }
                    for lane in 0..4 {
                        let claimed = witness_get(&values, root[lane])?;
                        if claimed != current[lane] {
                            return Err("merkle path does not reach the root".to_string());
                        }
                    }
                }
                Op::Connect(a, b) => {
                    let va = witness_get(&values, *a)?;
                    let vb = witness_get(&values, *b)?;
                    if va != vb {
                        return Err(format!("connected wires {} and {} differ", a, b));
                    }
                }
            }
        }
        let mut public_values = Vec::new();
        for w in data.public_inputs.iter() {
            public_values.push(witness_get(&values, *w)?);
        }
        Ok(ToyProof {
            num_wires: data.num_wires,
            num_ops: data.ops.len(),
            public_values,
        })
    }

    fn verify(data: &ToyVerifier, public_inputs: &Vec<u64>, proof: ToyProof) -> bool {
        proof.num_wires == data.num_wires
            && proof.num_ops == data.num_ops
            && proof.public_values.len() == data.num_public
            && proof.public_values == *public_inputs
    }
}

fn next_rand(state: &mut u64) -> u64 {
    *state = state
        .wrapping_mul(6364136223846793005)
        .wrapping_add(1442695040888963407);
    let x = *state;
    (x ^ (x >> 29)).wrapping_mul(0xBF58_476D_1CE4_E5B9) % P
}

fn rand_digest(state: &mut u64) -> Digest {
    Digest(
        next_rand(state),
        next_rand(state),
        next_rand(state),
        next_rand(state),
    )
}

fn build_set(leaves: Vec<Digest>) -> AccessSet<ToyBuilder> {
    AccessSet::new(leaves, 0).unwrap()
}

fn random_identities(n: usize, state: &mut u64) -> Vec<(Digest, Digest)> {
    let mut keys = Vec::new();
    for _ in 0..n {
        keys.push((rand_digest(state), rand_digest(state)));
    }
    keys
}

fn commitments_of(keys: &[(Digest, Digest)]) -> Vec<Digest> {
    keys.iter().map(|(a, b)| commit::<ToyBuilder>(a, b)).collect()
}

#[test]
fn test_semaphore() {
    let n = 1 << 20;
    let mut state = 0xDEADBEEFu64;
    let private_keys = random_identities(n, &mut state);
    let access_set = build_set(commitments_of(&private_keys));

    let i = 12;
    let external_nullifier = rand_digest(&mut state);

    let (circuit_data, targets) = access_set.build_circuit().unwrap();
    let verifier_data = AccessSet::<ToyBuilder>::to_verifier_data(&circuit_data);

    let signal = access_set
        .make_signal(
            private_keys[i].0,
            private_keys[i].1,
            external_nullifier,
            i,
            &circuit_data,
            &targets,
        )
        .unwrap();
    access_set
        .verify_signal(external_nullifier, signal, &verifier_data)
        .unwrap();
}

#[test]
fn signal_test_semaphore() {
    let n = 1 << 20;
    let mut state = 0xFEEDFACEu64;
    let private_keys = random_identities(n, &mut state);
    let access_set = build_set(commitments_of(&private_keys));

    let i = 12;
    let external_nullifier = rand_digest(&mut state);

    let (circuit_data, targets) = access_set.build_circuit().unwrap();
    let verifier_data = AccessSet::<ToyBuilder>::to_verifier_data(&circuit_data);

    let signal = access_set
        .make_signal(
            private_keys[i].0,
            private_keys[i].1,
            external_nullifier,
            i,
            &circuit_data,
            &targets,
        )
        .unwrap();
    access_set
        .verify_signal(external_nullifier, signal, &verifier_data)
        .unwrap();
}

#[test]
fn round_trip_every_index_small_sets() {
    let mut state = 7u64;
    for log_n in [1usize, 2, 10] {
        let n = 1usize << log_n;
        let keys = random_identities(n, &mut state);
        let set = build_set(commitments_of(&keys));
        let (data, targets) = set.build_circuit().unwrap();
        let vd = AccessSet::<ToyBuilder>::to_verifier_data(&data);
        let ctx = rand_digest(&mut state);
        for i in 0..n {
            let signal = set
                .make_signal(keys[i].0, keys[i].1, ctx, i, &data, &targets)
                .unwrap();
            assert!(set.verify_signal(ctx, signal, &vd).is_ok());
        }
    }
}

#[test]
fn wrong_index_fails() {
    let mut state = 11u64;
    let n = 16usize;
    let keys = random_identities(n, &mut state);
    let set = build_set(commitments_of(&keys));
    let (data, targets) = set.build_circuit().unwrap();
    let vd = AccessSet::<ToyBuilder>::to_verifier_data(&data);
    let ctx = rand_digest(&mut state);
    // Correct secrets of leaf 3, claimed at index 5: witness failure or a
    // proof that does not verify.
    match set.make_signal(keys[3].0, keys[3].1, ctx, 5, &data, &targets) {
        Err(e) => assert!(matches!(e, SignalError::ProofGeneration(_))),
        Ok(signal) => assert!(set.verify_signal(ctx, signal, &vd).is_err()),
    }
}

#[test]
fn tampered_root_fails() {
    let mut state = 13u64;
    let n = 1 << 20;
    let keys = random_identities(n, &mut state);
    let mut leaves = commitments_of(&keys);
    let set = build_set(leaves.clone());
    let (data, targets) = set.build_circuit().unwrap();
    let vd = AccessSet::<ToyBuilder>::to_verifier_data(&data);
    let ctx = rand_digest(&mut state);
    let signal = set
        .make_signal(keys[12].0, keys[12].1, ctx, 12, &data, &targets)
        .unwrap();

    // The same signal fails under a cap whose leaf 12 was replaced.
    let other = rand_digest(&mut state);
    leaves[12] = commit::<ToyBuilder>(&other, &other);
    let tampered: AccessSet<ToyBuilder> = build_set(leaves);
    assert!(matches!(
        tampered.verify_signal(ctx, signal, &vd),
        Err(SignalError::Verification)
    ));
}

#[test]
fn context_change_fails_verification() {
    let mut state = 17u64;
    let n = 1 << 10;
    let keys = random_identities(n, &mut state);
    let set = build_set(commitments_of(&keys));
    let (data, targets) = set.build_circuit().unwrap();
    let vd = AccessSet::<ToyBuilder>::to_verifier_data(&data);
    let ctx = rand_digest(&mut state);
    let signal = set
        .make_signal(keys[12].0, keys[12].1, ctx, 12, &data, &targets)
        .unwrap();
    let changed = Digest(ctx.0 ^ 1, ctx.1, ctx.2, ctx.3);
    assert!(set.verify_signal(changed, signal, &vd).is_err());
}

#[test]
fn nullifier_deterministic_same_context() {
    let mut state = 19u64;
    let n = 4usize;
    let keys = random_identities(n, &mut state);
    let set = build_set(commitments_of(&keys));
    let (data, targets) = set.build_circuit().unwrap();
    let vd = AccessSet::<ToyBuilder>::to_verifier_data(&data);
    let ctx = rand_digest(&mut state);
    let a = set
        .make_signal(keys[2].0, keys[2].1, ctx, 2, &data, &targets)
        .unwrap();
    let b = set
        .make_signal(keys[2].0, keys[2].1, ctx, 2, &data, &targets)
        .unwrap();
    assert_eq!(a.nullifier, b.nullifier);
    assert!(set.verify_signal(ctx, a, &vd).is_ok());
    assert!(set.verify_signal(ctx, b, &vd).is_ok());
}

#[test]
fn nullifier_unlinkable_across_contexts() {
    // Flipping one bit of the context changes the nullifier in at least one
    // element, over a thousand sampled pairs.
    let mut state = 23u64;
    let s1 = rand_digest(&mut state);
    let mut checked = 0usize;
    while checked < 1000 {
        let ctx = rand_digest(&mut state);
        let element = (next_rand(&mut state) % 4) as usize;
        let bit = next_rand(&mut state) % 64;
        let flipped = match element {
            0 => Digest(ctx.0 ^ (1 << bit), ctx.1, ctx.2, ctx.3),
            1 => Digest(ctx.0, ctx.1 ^ (1 << bit), ctx.2, ctx.3),
            2 => Digest(ctx.0, ctx.1, ctx.2 ^ (1 << bit), ctx.3),
            _ => Digest(ctx.0, ctx.1, ctx.2, ctx.3 ^ (1 << bit)),
        };
        if !(flipped.0 < P && flipped.1 < P && flipped.2 < P && flipped.3 < P) {
            continue;
        }
        let a = nullify::<ToyBuilder>(&s1, &ctx);
        let b = nullify::<ToyBuilder>(&s1, &flipped);
        assert_ne!(a, b);
        checked += 1;
    }
}

#[test]
fn commitment_native_matches_circuit() {
    // The native commitment equals the value the circuit form of the hash
    // assigns to its output wires, over a thousand random secret pairs.
    let mut builder = ToyBuilder::new_builder();
    let mut input_wires = Vec::new();
    for _ in 0..8 {
        input_wires.push(builder.add_wire());
    }
    let out = builder.hash_wires(input_wires.clone());
    builder.register_public4(&out);
    let data = builder.finalize();
    let vd = ToyBuilder::verifier_data(&data);

    let mut state = 29u64;
    for _ in 0..1000 {
        let s1 = rand_digest(&mut state);
        let s2 = rand_digest(&mut state);
        let mut witness = ToyBuilder::new_witness();
        let values = [s1.0, s1.1, s1.2, s1.3, s2.0, s2.1, s2.2, s2.3];
        for (w, v) in input_wires.iter().zip(values.iter()) {
            ToyBuilder::set_wire(&mut witness, *w, *v).unwrap();
        }
        let proof = ToyBuilder::prove(&data, witness).unwrap();
        let native = commit::<ToyBuilder>(&s1, &s2);
        let expected = vec![native.0, native.1, native.2, native.3];
        assert_eq!(proof.public_values, expected);
        assert!(ToyBuilder::verify(&vd, &expected, proof));
    }
}

#[test]
fn perturbed_public_input_fails() {
    let mut state = 31u64;
    let n = 4usize;
    let keys = random_identities(n, &mut state);
    let set = build_set(commitments_of(&keys));
    let (data, targets) = set.build_circuit().unwrap();
    let vd = AccessSet::<ToyBuilder>::to_verifier_data(&data);
    let ctx = rand_digest(&mut state);
    let signal = set
        .make_signal(keys[1].0, keys[1].1, ctx, 1, &data, &targets)
        .unwrap();
    let canonical = set.public_inputs(&signal.nullifier, &ctx);
    let root = set.root_cap()[0];
    let nullifier = signal.nullifier;
    assert_eq!(
        canonical,
        vec![
            root.0,
            root.1,
            root.2,
            root.3,
            nullifier.0,
            nullifier.1,
            nullifier.2,
            nullifier.3,
            ctx.0,
            ctx.1,
            ctx.2,
            ctx.3,
        ]
    );
    assert!(ToyBuilder::verify(&vd, &canonical, signal.proof.clone()));
    for position in 0..canonical.len() {
        let mut perturbed = canonical.clone();
        perturbed[position] = (perturbed[position] + 1) % P;
        assert!(!ToyBuilder::verify(&vd, &perturbed, signal.proof.clone()));
    }
}

#[test]
fn out_of_range_index_rejected_at_witness_time() {
    let mut state = 37u64;
    let n = 8usize;
    let keys = random_identities(n, &mut state);
    let set = build_set(commitments_of(&keys));
    let (data, targets) = set.build_circuit().unwrap();
    let ctx = rand_digest(&mut state);
    // Any index with a bit set at or above the height is out of range.
    for bad in [n, n + 5, n * 4, usize::MAX] {
        assert!(matches!(
            set.make_signal(keys[0].0, keys[0].1, ctx, bad, &data, &targets),
            Err(SignalError::BadArgument)
        ));
    }
}

#[test]
fn witness_conflict_reported() {
    let mut state = 41u64;
    let n = 4usize;
    let keys = random_identities(n, &mut state);
    let set = build_set(commitments_of(&keys));
    let (_data, targets) = set.build_circuit().unwrap();
    let ctx_a = rand_digest(&mut state);
    let ctx_b = rand_digest(&mut state);
    let mut witness = ToyBuilder::new_witness();
    set.fill_semaphore_targets(&mut witness, keys[0].0, keys[0].1, ctx_a, 0, &targets)
        .unwrap();
    // Filling the same witness again under another context assigns the
    // context wires conflicting values.
    assert!(matches!(
        set.fill_semaphore_targets(&mut witness, keys[0].0, keys[0].1, ctx_b, 0, &targets),
        Err(SignalError::WitnessGapOrConflict(_))
    ));
}

#[test]
fn bad_leaf_vectors_rejected() {
    let mut state = 43u64;
    for bad_n in [0usize, 1, 3, 6, 12] {
        let keys = random_identities(bad_n, &mut state);
        let r = AccessSet::<ToyBuilder>::new(commitments_of(&keys), 0);
        assert!(matches!(r, Err(SignalError::BadArgument)));
    }
    // A cap deeper than the tree is rejected.
    let keys = random_identities(4, &mut state);
    let r = AccessSet::<ToyBuilder>::new(commitments_of(&keys), 3);
    assert!(matches!(r, Err(SignalError::BadArgument)));
    // A leaf with a non-canonical element is rejected.
    let r = AccessSet::<ToyBuilder>::new(vec![Digest(0, 0, 0, 0), Digest(u64::MAX, 0, 0, 0)], 0);
    assert!(matches!(r, Err(SignalError::BadArgument)));
}

#[test]
fn merkle_root_value_and_getters() {
    let a = Digest(1, 2, 3, 4);
    let b = Digest(5, 6, 7, 8);
    let set: AccessSet<ToyBuilder> = build_set(vec![a, b]);
    assert_eq!(set.tree_height(), 1);
    assert_eq!(set.num_leaves(), 2);
    assert_eq!(set.cap_height(), 0);
    let cap = set.root_cap();
    assert_eq!(cap.len(), 1);
    let expected = ToyBuilder::hash(&vec![1, 2, 3, 4, 5, 6, 7, 8]);
    assert_eq!(cap[0], expected);
}

#[test]
fn opened_path_folds_to_root() {
    // Re-hashing a leaf with its authentication path, ordering children by
    // the bits of the index, reproduces the root.
    let mut state = 67u64;
    let n = 8usize;
    let leaves: Vec<Digest> = (0..n).map(|_| rand_digest(&mut state)).collect();
    let set: AccessSet<ToyBuilder> = build_set(leaves.clone());
    let root = set.root_cap()[0];
    for index in 0..n {
        let path = set.open(index).unwrap();
        assert_eq!(path.len(), 3);
        let mut current = leaves[index];
        let mut idx = index;
        for sibling in path.iter() {
            let mut input = Vec::new();
            if idx % 2 == 0 {
                input.extend_from_slice(&[current.0, current.1, current.2, current.3]);
                input.extend_from_slice(&[sibling.0, sibling.1, sibling.2, sibling.3]);
            } else {
                input.extend_from_slice(&[sibling.0, sibling.1, sibling.2, sibling.3]);
                input.extend_from_slice(&[current.0, current.1, current.2, current.3]);
            }
            current = ToyBuilder::hash(&input);
            idx /= 2;
        }
        assert_eq!(current, root);
    }
}

#[test]
fn cap_of_positive_height() {
    let leaves = vec![
        Digest(1, 0, 0, 0),
        Digest(2, 0, 0, 0),
        Digest(3, 0, 0, 0),
        Digest(4, 0, 0, 0),
    ];
    let set: AccessSet<ToyBuilder> = AccessSet::new(leaves.clone(), 1).unwrap();
    let cap = set.root_cap();
    assert_eq!(cap.len(), 2);
    assert_eq!(cap[0], ToyBuilder::hash(&vec![1, 0, 0, 0, 2, 0, 0, 0]));
    assert_eq!(cap[1], ToyBuilder::hash(&vec![3, 0, 0, 0, 4, 0, 0, 0]));
    // The circuit supports the single-root cap only.
    assert!(matches!(set.build_circuit(), Err(SignalError::BadArgument)));
    // Opening stops at the cap: one sibling per level below it.
    assert_eq!(set.open(0).unwrap().len(), 1);
    assert!(matches!(set.open(4), Err(SignalError::BadArgument)));
}

#[test]
fn fixed_secrets_scenario() {
    // N = 4, i = 3, fixed secrets and context: the native nullifier is the
    // published one, and the proof verifies.
    let s1 = Digest(1, 2, 3, 4);
    let s2 = Digest(5, 6, 7, 8);
    let ctx = Digest(9, 10, 11, 12);
    let mut state = 47u64;
    let mut keys = random_identities(4, &mut state);
    keys[3] = (s1, s2);
    let set = build_set(commitments_of(&keys));
    let (data, targets) = set.build_circuit().unwrap();
    let vd = AccessSet::<ToyBuilder>::to_verifier_data(&data);
    let signal = set.make_signal(s1, s2, ctx, 3, &data, &targets).unwrap();
    assert_eq!(signal.nullifier, nullify::<ToyBuilder>(&s1, &ctx));
    assert!(set.verify_signal(ctx, signal, &vd).is_ok());
}

#[test]
fn two_contexts_two_nullifiers() {
    // N = 2, i = 0, two contexts: two distinct nullifiers, both verify.
    let mut state = 53u64;
    let keys = random_identities(2, &mut state);
    let set = build_set(commitments_of(&keys));
    let (data, targets) = set.build_circuit().unwrap();
    let vd = AccessSet::<ToyBuilder>::to_verifier_data(&data);
    let ctx1 = rand_digest(&mut state);
    let ctx2 = rand_digest(&mut state);
    assert_ne!(ctx1, ctx2);
    let a = set
        .make_signal(keys[0].0, keys[0].1, ctx1, 0, &data, &targets)
        .unwrap();
    let b = set
        .make_signal(keys[0].0, keys[0].1, ctx2, 0, &data, &targets)
        .unwrap();
    assert_ne!(a.nullifier, b.nullifier);
    assert!(set.verify_signal(ctx1, a, &vd).is_ok());
    assert!(set.verify_signal(ctx2, b, &vd).is_ok());
}

#[test]
fn two_identities_two_nullifiers() {
    // N = 2, both members signal in one context: both verify, and the
    // nullifiers differ.
    let mut state = 59u64;
    let keys = random_identities(2, &mut state);
    let set = build_set(commitments_of(&keys));
    let (data, targets) = set.build_circuit().unwrap();
    let vd = AccessSet::<ToyBuilder>::to_verifier_data(&data);
    let ctx = rand_digest(&mut state);
    let a = set
        .make_signal(keys[0].0, keys[0].1, ctx, 0, &data, &targets)
        .unwrap();
    let b = set
        .make_signal(keys[1].0, keys[1].1, ctx, 1, &data, &targets)
        .unwrap();
    assert_ne!(a.nullifier, b.nullifier);
    assert!(set.verify_signal(ctx, a, &vd).is_ok());
    assert!(set.verify_signal(ctx, b, &vd).is_ok());
}

#[test]
fn tornado_deposit_round_trip() {
    let circuit = build_tornado_circuit::<ToyBuilder>();
    let nullifier = 123456789u64;
    let commitment = deposit_commitment::<ToyBuilder>(nullifier);
    assert!(generate_deposit_proof(&circuit, nullifier, commitment).is_ok());
    // A claimed commitment that is not the commitment of the secret is
    // rejected by the prover.
    assert!(matches!(
        generate_deposit_proof(&circuit, nullifier, (commitment + 1) % P),
        Err(SignalError::ProofGeneration(_))
    ));
    // Non-canonical arguments are rejected before proving.
    assert!(matches!(
        generate_deposit_proof(&circuit, u64::MAX, commitment),
        Err(SignalError::BadArgument)
    ));
}

#[test]
fn tornado_withdrawal_round_trip() {
    let circuit = build_tornado_circuit::<ToyBuilder>();
    let mut state = 61u64;
    let nullifier = next_rand(&mut state);
    let mut path_elements = Vec::new();
    let mut path_indices = Vec::new();
    for _ in 0..TORNADO_DEPTH {
        path_elements.push(next_rand(&mut state));
        path_indices.push(next_rand(&mut state) % 2 == 1);
    }
    let root = withdraw_root::<ToyBuilder>(nullifier, &path_elements, &path_indices);
    assert!(
        generate_withdrawal_proof(&circuit, nullifier, root, &path_elements, &path_indices)
            .is_ok()
    );
    // A root the path does not fold to is rejected by the prover.
    assert!(matches!(
        generate_withdrawal_proof(
            &circuit,
            nullifier,
            (root + 1) % P,
            &path_elements,
            &path_indices
        ),
        Err(SignalError::ProofGeneration(_))
    ));
    // A path of the wrong depth is a bad argument.
    let short = path_elements[..TORNADO_DEPTH - 1].to_vec();
    let short_indices = path_indices[..TORNADO_DEPTH - 1].to_vec();
    assert!(matches!(
        generate_withdrawal_proof(&circuit, nullifier, root, &short, &short_indices),
        Err(SignalError::BadArgument)
    ));
}
